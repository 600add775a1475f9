use raft::messages::{Ack, BackendMessage, ConnectionDown, Coordinator, Heartbeat, NewLeader, No, PeerMessage, Reconnection, RequestAnswer, RequestedOurVote, RoleChanged, StartElection, UpdateID, Vote, HB, ID};
use raft::protocol::{encode_peer_message, parse_line, socket_address};

fn s(x: &str) -> String {
    x.to_string()
}

#[test]
fn encodes_each_message() {
    let cases = vec![
        (PeerMessage::StartElection(StartElection { id: s("node1"), term: 3 }), "RV node1 3"),
        (PeerMessage::RequestAnswer(RequestAnswer { msg: s("VOTE"), term: 3 }), "VOTE 3"),
        (PeerMessage::RequestAnswer(RequestAnswer { msg: s("NO"), term: 4 }), "NO 4"),
        (PeerMessage::ConnectionDown(ConnectionDown { id: s("node2") }), "CD node2"),
        (PeerMessage::Ack(Ack { term: 5 }), "ACK 5"),
        (PeerMessage::Heartbeat(Heartbeat { term: 4, id: s("node1") }), "HB 4 node1"),
        (PeerMessage::Coordinator(Coordinator { id: s("node1"), term: 2 }), "NL node1 2"),
        (
            PeerMessage::Reconnection(Reconnection { ip: s("127.0.0.1"), port: 5434, node_id: s("node2") }),
            "RC node2 127.0.0.1 5434 ",
        ),
        (
            PeerMessage::ID(ID { ip: s("127.0.0.1"), port: 8433, id: s("node1"), just_arrived: true }),
            "ID node1 127.0.0.1 8433 true",
        ),
        (
            PeerMessage::ID(ID { ip: s("10.0.0.2"), port: 1, id: s("n"), just_arrived: false }),
            "ID n 10.0.0.2 1 false",
        ),
        (PeerMessage::NewLeader(NewLeader { id: s("node3"), term: 9 }), "NL node3 9"),
        (PeerMessage::RoleChanged(RoleChanged { id: s("node4") }), "R node4"),
    ];
    for (m, line) in cases {
        assert_eq!(encode_peer_message(&m), line);
    }
}

#[test]
fn parses_each_message() {
    let conn = s("node9");
    assert_eq!(
        parse_line("RV node1 3", &conn),
        Some(BackendMessage::RequestedOurVote(RequestedOurVote { term: 3, candidate_id: s("node1") }))
    );
    assert_eq!(parse_line("VOTE 3", &conn), Some(BackendMessage::Vote(Vote { id: s("node9"), term: 3 })));
    assert_eq!(parse_line("HB 4 node1", &conn), Some(BackendMessage::HB(HB { term: 4, id: s("node9") })));
    assert_eq!(parse_line("NO 7", &conn), Some(BackendMessage::No(No { term: 7 })));
    assert_eq!(
        parse_line("ID node1 127.0.0.1 8433 true", &conn),
        Some(BackendMessage::UpdateID(UpdateID {
            ip: s("127.0.0.1"),
            port: 8433,
            old_id: s("node9"),
            new_id: s("node1"),
            expects_leader: true,
        }))
    );
    assert_eq!(
        parse_line("NL node3 9", &conn),
        Some(BackendMessage::NewLeader(NewLeader { id: s("node3"), term: 9 }))
    );
    assert_eq!(
        parse_line("RC node2 127.0.0.1 5434 ", &conn),
        Some(BackendMessage::Reconnection(Reconnection { ip: s("127.0.0.1"), port: 5434, node_id: s("node2") }))
    );
    assert_eq!(parse_line("CD node2", &conn), Some(BackendMessage::ConnectionDown(ConnectionDown { id: s("node2") })));
    assert_eq!(parse_line("R node4", &conn), Some(BackendMessage::RoleChanged(RoleChanged { id: s("node4") })));
}

#[test]
fn rejects_incomplete_or_unknown_lines() {
    let conn = s("x");
    for line in [
        "", "   ", "RV node1", "RV node1 x", "RV node1 65536", "VOTE", "VOTE -1", "HB", "NO x",
        "ID a b 1", "ID a b x true", "ID a b 1 yes", "NL a", "RC a b", "RC a b port", "CD", "R",
        "ACK 5", "rv node1 3", "HELLO there",
    ] {
        assert_eq!(parse_line(line, &conn), None, "{:?}", line);
    }
}

#[test]
fn ignores_extra_words() {
    let conn = s("x");
    assert_eq!(parse_line("NO 1 2 3", &conn), Some(BackendMessage::No(No { term: 1 })));
    assert_eq!(parse_line("  CD\tnode2  extra", &conn), Some(BackendMessage::ConnectionDown(ConnectionDown { id: s("node2") })));
}

#[test]
fn what_is_written_is_read_back() {
    let conn = s("peer");
    let pairs = vec![
        (
            PeerMessage::StartElection(StartElection { id: s("node2"), term: 65535 }),
            Some(BackendMessage::RequestedOurVote(RequestedOurVote { term: 65535, candidate_id: s("node2") })),
        ),
        (
            PeerMessage::RequestAnswer(RequestAnswer { msg: s("VOTE"), term: 8 }),
            Some(BackendMessage::Vote(Vote { id: s("peer"), term: 8 })),
        ),
        (PeerMessage::RequestAnswer(RequestAnswer { msg: s("NO"), term: 8 }), Some(BackendMessage::No(No { term: 8 }))),
        (
            PeerMessage::Heartbeat(Heartbeat { term: 2, id: s("leader") }),
            Some(BackendMessage::HB(HB { term: 2, id: s("peer") })),
        ),
        (
            PeerMessage::Coordinator(Coordinator { id: s("node1"), term: 6 }),
            Some(BackendMessage::NewLeader(NewLeader { id: s("node1"), term: 6 })),
        ),
        (PeerMessage::Ack(Ack { term: 6 }), None),
        (
            PeerMessage::ID(ID { ip: s("1.2.3.4"), port: 99, id: s("node5"), just_arrived: false }),
            Some(BackendMessage::UpdateID(UpdateID {
                ip: s("1.2.3.4"),
                port: 99,
                old_id: s("peer"),
                new_id: s("node5"),
                expects_leader: false,
            })),
        ),
    ];
    for (m, expected) in pairs {
        assert_eq!(parse_line(&encode_peer_message(&m), &conn), expected, "{:?}", m);
    }
}

#[test]
fn socket_address_joins_ip_and_port() {
    assert_eq!(socket_address("127.0.0.1", 6433), "127.0.0.1:6433");
    assert_eq!(socket_address("", 0), ":0");
}

#[test]
fn duplicate_copies_a_message() {
    let m = PeerMessage::Heartbeat(Heartbeat { term: 1, id: s("a") });
    assert_eq!(m.duplicate(), m);
}
