pub mod broadcast;
pub mod echo;
pub mod init;
pub mod unique_id;
