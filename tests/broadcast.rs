use gossip_glomers::messages::{
    Body, Broadcast, BroadcastOk, Init, Message, Read, ReadOk, Topology, TopologyOk,
};
use gossip_glomers::router::Router;
use gossip_glomers::workloads::broadcast::{insert_broadcast_simple_handlers, SimpleBroadcast};
use gossip_glomers::workloads::init::create_router;
use gossip_glomers::{Maelstrom, Server};

fn envelope(src: &str, dest: &str, body: Body) -> Message {
    Message { src: src.to_string(), dest: dest.to_string(), body }
}

fn broadcast_server() -> Server {
    let mut router = create_router();
    insert_broadcast_simple_handlers(&mut router);
    Server::new(router)
}

fn send(server: &mut Server, msg: Message, now: u64) -> Vec<Message> {
    assert!(server.has_id_room());
    server.step(Some(msg), now)
}

fn broadcast(src: &str, dest: &str, value: &str, msg_id: u64) -> Message {
    envelope(src, dest, Body::Broadcast(Broadcast { message: value.to_string(), msg_id }))
}

fn read(src: &str, dest: &str, msg_id: u64) -> Message {
    envelope(src, dest, Body::Read(Read { msg_id }))
}

fn init(node: &str) -> Message {
    envelope(
        "c0",
        node,
        Body::Init(Init { msg_id: 1, node_id: node.to_string(), node_ids: vec![node.to_string()] }),
    )
}

fn topology(node: &str, neighbors: &[&str]) -> Message {
    envelope(
        "c1",
        node,
        Body::Topology(Topology {
            msg_id: 1,
            topology: vec![(
                node.to_string(),
                neighbors.iter().map(|n| n.to_string()).collect(),
            )],
        }),
    )
}

fn read_values(out: &[Message]) -> Vec<String> {
    for m in out {
        if let Body::ReadOk(r) = &m.body {
            return r.messages.clone();
        }
    }
    panic!("no read_ok in {:?}", out);
}

fn forwarded(out: &[Message]) -> Vec<(String, String, u64)> {
    out.iter()
        .filter_map(|m| match &m.body {
            Body::Broadcast(b) => Some((m.dest.clone(), b.message.clone(), b.msg_id)),
            _ => None,
        })
        .collect()
}

#[test]
fn should_respond_with_broadcast_ok() {
    let mut server = broadcast_server();
    let out = send(&mut server, broadcast("c1", "n1", "1000", 1), 0);
    assert!(out.iter().any(|m| matches!(m.body, Body::BroadcastOk(_))));
}

#[test]
fn shoud_respond_with_empty_array_on_read_when_no_broadcast_happend_yet() {
    let mut server = broadcast_server();
    let out = send(&mut server, read("c1", "n1", 1), 0);
    assert!(read_values(&out).is_empty());
}

#[test]
fn shoud_respond_with_value_on_read_when_broadcast_happend() {
    let mut server = broadcast_server();
    send(&mut server, broadcast("c1", "n1", "1000", 1), 0);
    let out = send(&mut server, read("c1", "n1", 1), 1);
    assert_eq!(read_values(&out), vec!["1000".to_string()]);
}

#[test]
fn shoud_respond_only_return_unique_messages_on_read_when_broadcast_happend() {
    let mut server = broadcast_server();
    send(&mut server, broadcast("c1", "n1", "1000", 1), 0);
    send(&mut server, broadcast("c1", "n1", "1000", 2), 1);
    let out = send(&mut server, read("c1", "n1", 3), 2);
    let values = read_values(&out);
    assert_eq!(values.len(), 1);
    assert_eq!(values[0], "1000");
}

#[test]
fn topology_message() {
    let mut server = broadcast_server();
    send(&mut server, init("n0"), 0);
    let out = send(&mut server, topology("n0", &[]), 1);
    assert!(out.iter().any(|m| matches!(m.body, Body::TopologyOk(_))));
}

#[test]
fn forward_broadcast_messages() {
    let mut server = broadcast_server();
    send(&mut server, init("n0"), 0);
    send(&mut server, topology("n0", &["n1"]), 1);
    let out = send(&mut server, broadcast("c1", "n1", "\"text\"", 1), 2);
    assert!(out.iter().any(|m| match &m.body {
        Body::Broadcast(b) => m.dest == "n1" && b.message == "\"text\"",
        _ => false,
    }));
}

#[test]
fn broadcast_message() {
    let mut server = broadcast_server();
    let out = send(&mut server, broadcast("c1", "n1", "1000", 1), 0);
    assert_eq!(
        out,
        vec![envelope("n1", "c1", Body::BroadcastOk(BroadcastOk { in_reply_to: 1, msg_id: None }))]
    );
}

#[test]
fn read_message_empty() {
    let mut server = broadcast_server();
    let out = send(&mut server, read("c1", "n1", 1), 0);
    assert_eq!(
        out,
        vec![envelope(
            "n1",
            "c1",
            Body::ReadOk(ReadOk { in_reply_to: 1, msg_id: None, messages: vec![] })
        )]
    );
}

#[test]
fn broadcast_then_read_scenario() {
    let mut server = broadcast_server();
    let out = send(&mut server, broadcast("c1", "n1", "1000", 1), 0);
    assert_eq!(
        out,
        vec![envelope("n1", "c1", Body::BroadcastOk(BroadcastOk { in_reply_to: 1, msg_id: None }))]
    );
    let out = send(&mut server, read("c1", "n1", 2), 1);
    assert_eq!(
        out,
        vec![envelope(
            "n1",
            "c1",
            Body::ReadOk(ReadOk { in_reply_to: 2, msg_id: None, messages: vec!["1000".to_string()] })
        )]
    );
}

#[test]
fn topology_then_broadcast_forwards_text() {
    let mut server = broadcast_server();
    send(&mut server, init("n0"), 0);
    send(&mut server, topology("n0", &["n1"]), 1);
    let out = send(&mut server, broadcast("c1", "n0", "\"text\"", 1), 2);
    assert_eq!(forwarded(&out), vec![("n1".to_string(), "\"text\"".to_string(), 0)]);
    assert_eq!(out[0].src, "n0");
}

#[test]
fn repeated_broadcast_is_stored_once_and_acked_each_time() {
    let mut server = broadcast_server();
    send(&mut server, init("n0"), 0);
    send(&mut server, topology("n0", &["n1", "n2"]), 1);
    let first = send(&mut server, broadcast("c1", "n0", "7", 1), 2);
    assert_eq!(forwarded(&first).len(), 2);
    let second = send(&mut server, broadcast("n2", "n0", "7", 9), 3);
    assert_eq!(
        second,
        vec![envelope("n0", "n2", Body::BroadcastOk(BroadcastOk { in_reply_to: 9, msg_id: None }))]
    );
    let out = send(&mut server, read("c1", "n0", 4), 5);
    assert_eq!(read_values(&out), vec!["7".to_string()]);
}

#[test]
fn fan_out_skips_the_sender() {
    let mut server = broadcast_server();
    send(&mut server, init("n0"), 0);
    send(&mut server, topology("n0", &["n1", "n2"]), 1);
    let out = send(&mut server, broadcast("n1", "n0", "5", 3), 2);
    assert_eq!(forwarded(&out), vec![("n2".to_string(), "5".to_string(), 0)]);
    assert_eq!(out.len(), 2);
    assert_eq!(out[1].dest, "n1");
    assert!(matches!(out[1].body, Body::BroadcastOk(_)));
}

#[test]
fn each_forwarded_copy_gets_its_own_id() {
    let mut server = broadcast_server();
    send(&mut server, init("n0"), 0);
    send(&mut server, topology("n0", &["n1", "n2", "n3"]), 1);
    let out = send(&mut server, broadcast("c1", "n0", "5", 3), 2);
    assert_eq!(
        forwarded(&out),
        vec![
            ("n1".to_string(), "5".to_string(), 0),
            ("n2".to_string(), "5".to_string(), 1),
            ("n3".to_string(), "5".to_string(), 2),
        ]
    );
}

#[test]
fn ack_clears_retry() {
    let mut server = broadcast_server();
    send(&mut server, init("n0"), 0);
    send(&mut server, topology("n0", &["n1"]), 0);
    let out = send(&mut server, broadcast("c1", "n0", "5", 3), 1000);
    let copies = forwarded(&out);
    assert_eq!(copies.len(), 1);
    let ack = envelope(
        "n1",
        "n0",
        Body::BroadcastOk(BroadcastOk { in_reply_to: copies[0].2, msg_id: None }),
    );
    let out = send(&mut server, ack, 1100);
    assert!(out.is_empty());
    for later in [1300u64, 5000, 100_000] {
        assert!(server.step(None, later).is_empty());
    }
}

#[test]
fn retry_on_silence() {
    let mut server = broadcast_server();
    send(&mut server, init("n0"), 0);
    send(&mut server, topology("n0", &["n1"]), 0);
    let out = send(&mut server, broadcast("c1", "n0", "5", 3), 1000);
    let copies = forwarded(&out);
    assert_eq!(copies, vec![("n1".to_string(), "5".to_string(), 0)]);
    assert!(server.step(None, 1200).is_empty());
    let resent = server.step(None, 1201);
    assert_eq!(forwarded(&resent), copies);
    assert_ne!(copies[0].2, 3);
    let again = server.step(None, 2000);
    assert_eq!(forwarded(&again), copies);
}

#[test]
fn unknown_ack_changes_nothing() {
    let mut server = broadcast_server();
    send(&mut server, init("n0"), 0);
    send(&mut server, topology("n0", &["n1"]), 0);
    send(&mut server, broadcast("c1", "n0", "5", 3), 1000);
    let stray = envelope("n1", "n0", Body::BroadcastOk(BroadcastOk { in_reply_to: 42, msg_id: None }));
    assert!(send(&mut server, stray, 1001).is_empty());
    assert_eq!(forwarded(&server.step(None, 1300)).len(), 1);
}

#[test]
fn second_topology_replaces_neighbors() {
    let mut server = broadcast_server();
    send(&mut server, init("n0"), 0);
    send(&mut server, topology("n0", &["n1", "n2"]), 0);
    send(&mut server, topology("n0", &["n1", "n2"]), 0);
    let out = send(&mut server, broadcast("c1", "n0", "5", 3), 1);
    assert_eq!(forwarded(&out).len(), 2);
}

#[test]
fn topology_without_this_node_is_dropped() {
    let mut server = broadcast_server();
    send(&mut server, init("n0"), 0);
    let out = send(&mut server, topology("n7", &["n1"]), 0);
    assert!(out.is_empty());
    let out = send(&mut server, broadcast("c1", "n0", "5", 3), 1);
    assert!(forwarded(&out).is_empty());
}

#[test]
fn topology_reply_answers_the_request() {
    let mut server = broadcast_server();
    send(&mut server, init("n0"), 0);
    let out = send(&mut server, topology("n0", &["n1"]), 0);
    assert_eq!(
        out,
        vec![envelope("n0", "c1", Body::TopologyOk(TopologyOk { in_reply_to: 1, msg_id: None }))]
    );
}

#[test]
fn unregistered_kind_is_ignored() {
    let mut server = Server::new(Router::new());
    assert!(send(&mut server, read("c1", "n1", 1), 0).is_empty());
    assert!(send(&mut server, broadcast("c1", "n1", "1", 1), 0).is_empty());
}

#[test]
fn fresh_state_and_context() {
    let state = SimpleBroadcast::new();
    assert_eq!(state.neighbor_count(), 0);
    let mut ctx = Maelstrom::new();
    assert_eq!(ctx.generate_id(), 0);
    assert_eq!(ctx.generate_id(), 1);
    assert_eq!(ctx.next_id(), 2);
}
