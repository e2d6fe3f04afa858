use std::collections::HashSet;

use gossip_glomers::messages::{Body, Echo, EchoOk, Generate, Init, InitOk, Message};
use gossip_glomers::workloads::echo::insert_echo_handlers;
use gossip_glomers::workloads::init::create_router;
use gossip_glomers::workloads::unique_id::{generate_with, insert_unique_id_handlers};
use gossip_glomers::Server;

fn envelope(src: &str, dest: &str, body: Body) -> Message {
    Message { src: src.to_string(), dest: dest.to_string(), body }
}

fn init_request() -> Message {
    envelope(
        "c0",
        "n0",
        Body::Init(Init { msg_id: 1, node_id: "n0".to_string(), node_ids: vec!["n0".to_string()] }),
    )
}

fn echo_request() -> Message {
    envelope("c1", "n1", Body::Echo(Echo { msg_id: 1, echo: "Please echo 35".to_string() }))
}

fn init_ok() -> Message {
    envelope("n0", "c0", Body::InitOk(InitOk { in_reply_to: 1 }))
}

fn generated_ids(server: &mut Server) -> Vec<String> {
    let mut ids = Vec::new();
    for _ in 0..3 {
        let msg = envelope("c1", "n1", Body::Generate(Generate { msg_id: 1 }));
        for reply in server.step(Some(msg), 0) {
            if let Body::GenerateOk(ok) = reply.body {
                ids.push(ok.id);
            }
        }
    }
    ids
}

#[test]
fn should_responde_to_init_with_init_ok() {
    let mut server = Server::new(create_router());
    let out = server.step(Some(init_request()), 0);
    assert!(out.iter().any(|m| matches!(m.body, Body::InitOk(_))));
}

#[test]
fn init() {
    let mut server = Server::new(create_router());
    let out = server.step(Some(init_request()), 0);
    assert_eq!(out, vec![init_ok()]);
}

#[test]
fn init_node_init_message() {
    let mut server = Server::new(create_router());
    assert_eq!(server.step(Some(init_request()), 0), vec![init_ok()]);
}

#[test]
fn server_init_message() {
    let mut server = Server::new(create_router());
    assert_eq!(server.step(Some(init_request()), 0), vec![init_ok()]);
}

#[test]
fn should_echo_msg_back_with_echo_ok() {
    let mut router = create_router();
    insert_echo_handlers(&mut router);
    let mut server = Server::new(router);
    let out = server.step(Some(echo_request()), 0);
    assert!(out.iter().any(|m| match &m.body {
        Body::EchoOk(ok) => ok.echo == "Please echo 35",
        _ => false,
    }));
}

#[test]
fn server_echo_message() {
    let mut router = create_router();
    insert_echo_handlers(&mut router);
    let mut server = Server::new(router);
    assert_eq!(
        server.step(Some(echo_request()), 0),
        vec![envelope(
            "n1",
            "c1",
            Body::EchoOk(EchoOk { msg_id: None, in_reply_to: 1, echo: "Please echo 35".to_string() })
        )]
    );
}

#[test]
fn should_receive_different_ids_from_generate() {
    let mut router = create_router();
    insert_unique_id_handlers(&mut router);
    let mut server = Server::new(router);
    let ids = generated_ids(&mut server);
    assert_eq!(ids.len(), 3);
    assert_eq!(ids.iter().collect::<HashSet<_>>().len(), ids.len());
}

#[test]
fn generate_message() {
    let mut router = create_router();
    insert_unique_id_handlers(&mut router);
    let mut server = Server::new(router);
    let ids = generated_ids(&mut server);
    assert_eq!(ids.len(), 3);
    assert_eq!(ids.iter().collect::<HashSet<_>>().len(), ids.len());
}

#[test]
fn generated_id_has_uuid_form() {
    let mut router = create_router();
    insert_unique_id_handlers(&mut router);
    let mut server = Server::new(router);
    for id in generated_ids(&mut server) {
        let chars: Vec<char> = id.chars().collect();
        assert_eq!(chars.len(), 36);
        for i in [8, 13, 18, 23] {
            assert_eq!(chars[i], '-');
        }
        assert_eq!(chars[14], '4');
    }
}

#[test]
fn generate_with_uses_given_id() {
    let request = envelope("c1", "n1", Body::Generate(Generate { msg_id: 4 }));
    let Body::Generate(g) = &request.body else { unreachable!() };
    let mut out = Vec::new();
    generate_with(g, &request, "abc".to_string(), &mut out);
    assert_eq!(out.len(), 1);
    assert_eq!(out[0].src, "n1");
    assert_eq!(out[0].dest, "c1");
    match &out[0].body {
        Body::GenerateOk(ok) => {
            assert_eq!(ok.id, "abc");
            assert_eq!(ok.in_reply_to, 4);
            assert_eq!(ok.msg_id, None);
        }
        other => panic!("unexpected {:?}", other),
    }
}

#[test]
fn create_response_swaps_ends() {
    let request = init_request();
    let reply = request.create_response(Body::InitOk(InitOk { in_reply_to: 1 }));
    assert_eq!(reply, init_ok());
}

#[test]
fn message_clone_is_equal() {
    let request = init_request();
    assert_eq!(request.clone(), request);
}
