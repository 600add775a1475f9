use raft::health_connection::HealthConnection;
use raft::logger::running_local;
use raft::messages::{BackendMessage, ConnectionDown, No, PeerMessage, RequestAnswer, RequestedOurVote, StartElection, UpdateID, Vote};
use raft::node_config::{Node, NodesConfig};
use raft::raft_module::{RaftModule, MINIMUM_AMOUNT_FOR_ELECTION, PORT_OFFSET};

fn s(x: &str) -> String {
    x.to_string()
}

#[test]
fn lines_are_dropped_without_a_backend() {
    let mut c = HealthConnection::new(s("127.0.0.1:5000"));
    assert_eq!(c.handle_line("NO 3"), None);
    c.set_backend();
    assert_eq!(c.handle_line("NO 3"), Some(BackendMessage::No(No { term: 3 })));
}

#[test]
fn handshake_renames_the_connection() {
    let mut c = HealthConnection::new(s("127.0.0.1:5000"));
    c.set_backend();
    let m = c.handle_line("ID node2 127.0.0.1 6334 false");
    assert_eq!(
        m,
        Some(BackendMessage::UpdateID(UpdateID {
            ip: s("127.0.0.1"),
            port: 6334,
            old_id: s("127.0.0.1:5000"),
            new_id: s("node2"),
            expects_leader: false,
        }))
    );
    assert_eq!(c.id_connection, Some(s("node2")));
    assert_eq!(c.handle_line("VOTE 2"), Some(BackendMessage::Vote(Vote { id: s("node2"), term: 2 })));
}

#[test]
fn writing_an_answer_records_its_term() {
    let mut c = HealthConnection::new(s("node2"));
    let line = c.line_for(&PeerMessage::RequestAnswer(RequestAnswer { msg: s("VOTE"), term: 6 }));
    assert_eq!(line, "VOTE 6");
    assert_eq!(c.current_term, 6);
    let line = c.line_for(&PeerMessage::ConnectionDown(ConnectionDown { id: s("node3") }));
    assert_eq!(line, "CD node3");
    assert!(c.other_actors.is_empty());
}

#[test]
fn a_line_written_by_one_connection_is_read_by_the_other() {
    let mut writer = HealthConnection::new(s("node2"));
    let mut reader = HealthConnection::new(s("node1"));
    reader.set_backend();
    let line = writer.line_for(&PeerMessage::StartElection(StartElection { id: s("node1"), term: 12 }));
    assert_eq!(
        reader.handle_line(&line),
        Some(BackendMessage::RequestedOurVote(RequestedOurVote { term: 12, candidate_id: s("node1") }))
    );
}

fn nodes() -> NodesConfig {
    NodesConfig {
        nodes: vec![
            Node { ip: s("127.0.0.1"), port: s("3333"), name: s("node1") },
            Node { ip: s("127.0.0.1"), port: s("3334"), name: s("node2") },
        ],
    }
}

#[test]
fn the_second_node_runs_the_election_timer() {
    assert_eq!(MINIMUM_AMOUNT_FOR_ELECTION, 2);
    assert!(RaftModule::new(s("node2"), s("127.0.0.1"), 3334).runs_election_timer(&nodes()));
    assert!(!RaftModule::new(s("node1"), s("127.0.0.1"), 3333).runs_election_timer(&nodes()));
    assert!(!RaftModule::new(s("node2"), s("10.0.0.1"), 3334).runs_election_timer(&nodes()));
}

#[test]
fn new_raft_module_keeps_its_fields() {
    let r = RaftModule::new(s("node1"), s("127.0.0.1"), 3333);
    assert_eq!(r.node_id, "node1");
    assert_eq!(r.ip, "127.0.0.1");
    assert_eq!(r.port, 3333);
}

#[test]
fn listen_address_adds_the_offset() {
    assert_eq!(PORT_OFFSET, 2000);
    assert_eq!(RaftModule::listen_address("127.0.0.1", 3333), "127.0.0.1:5333");
}

#[test]
fn running_local_only_for_true() {
    assert!(running_local(Some("true")));
    assert!(!running_local(Some("false")));
    assert!(!running_local(Some("yes")));
    assert!(!running_local(None));
}
