use raft::consensus::{
    timeout_from_random, Action, ConnectTarget, ConsensusModule, Outgoing, State, TimerStep,
};
use raft::messages::{Ack, AddNode, ConnectionDown, Coordinator, Heartbeat, NewConnection, NewLeader, No, PeerMessage, Reconnection, RequestAnswer, RequestedOurVote, StartElection, UpdateID, Vote, HB, ID};
use raft::node_config::{Node, NodesConfig};

fn s(x: &str) -> String {
    x.to_string()
}

fn module(conns: &[&str]) -> ConsensusModule {
    ConsensusModule {
        connections: conns.iter().map(|c| c.to_string()).collect(),
        node_id: s("node1"),
        ip: s("127.0.0.1"),
        port: 5333,
        state: State::Follower,
        current_term: 0,
        votes: Some(0),
        last_vote: None,
        leader_id: None,
    }
}

fn example_nodes() -> NodesConfig {
    let node = |port: &str, name: &str| Node { ip: s("127.0.0.1"), port: s(port), name: s(name) };
    NodesConfig {
        nodes: vec![
            node("3333", "node1"),
            node("3334", "node2"),
            node("3335", "node3"),
            node("3336", "node4"),
        ],
    }
}

fn targets(t: &[ConnectTarget]) -> Vec<(String, String)> {
    t.iter().map(|x| (x.id.clone(), x.address.clone())).collect()
}

#[test]
fn start_connections_on_first_run_stops_at_itself() {
    let (m, t) = ConsensusModule::start_connections(s("127.0.0.1"), 3335, s("node3"), &example_nodes(), true);
    assert_eq!(
        targets(&t),
        vec![(s("node1"), s("127.0.0.1:5333")), (s("node2"), s("127.0.0.1:5334"))]
    );
    assert_eq!(m.port, 5335);
    assert_eq!(m.state, State::Follower);
    assert_eq!(m.current_term, 0);
    assert_eq!(m.votes, Some(0));
    assert_eq!(m.last_vote, None);
    assert_eq!(m.leader_id, None);
    assert!(m.connections.is_empty());
    assert_eq!(m.node_id, "node3");
}

#[test]
fn start_connections_after_a_restart_skips_only_itself() {
    let (_, t) = ConsensusModule::start_connections(s("127.0.0.1"), 3335, s("node3"), &example_nodes(), false);
    assert_eq!(
        targets(&t),
        vec![
            (s("node1"), s("127.0.0.1:5333")),
            (s("node2"), s("127.0.0.1:5334")),
            (s("node4"), s("127.0.0.1:5336")),
        ]
    );
}

#[test]
fn start_connections_skips_unreadable_ports() {
    let mut cfg = example_nodes();
    cfg.nodes[1].port = s("34x");
    let (_, t) = ConsensusModule::start_connections(s("127.0.0.1"), 3333, s("node1"), &cfg, false);
    assert_eq!(targets(&t), vec![(s("node3"), s("127.0.0.1:5335")), (s("node4"), s("127.0.0.1:5336"))]);
}

#[test]
fn identity_is_the_handshake() {
    let m = module(&[]);
    assert_eq!(
        m.identity(true),
        ID { ip: s("127.0.0.1"), port: 5333, id: s("node1"), just_arrived: true }
    );
}

#[test]
fn connections_are_held_once() {
    let mut m = module(&[]);
    m.add_connection(s("a"));
    m.add_connection(s("b"));
    m.add_connection(s("a"));
    assert_eq!(m.connections, vec![s("a"), s("b")]);
    assert!(m.id_is_connected(&s("b")));
    assert!(m.remove_connection(&s("a")));
    assert!(!m.remove_connection(&s("a")));
    assert_eq!(m.connections, vec![s("b")]);
}

#[test]
fn election_raises_the_term_and_asks_each_connection() {
    let mut m = module(&["node2", "node3"]);
    let sends = m.start_election();
    assert_eq!(m.current_term, 1);
    assert_eq!(m.state, State::Candidate);
    assert_eq!(
        sends,
        vec![
            Action::ResetElectionClock,
            Action::Send(Outgoing { to: s("node2"), message: PeerMessage::StartElection(StartElection { id: s("node1"), term: 1 }) }),
            Action::Send(Outgoing { to: s("node3"), message: PeerMessage::StartElection(StartElection { id: s("node1"), term: 1 }) }),
        ]
    );
}

#[test]
fn failed_vote_requests_drop_their_connections() {
    let mut m = module(&["node2", "node3", "node4"]);
    m.start_election();
    m.election_requests_failed(&vec![s("node2"), s("node4"), s("node9")]);
    assert_eq!(m.connections, vec![s("node3")]);
    assert_eq!(m.current_term, 1);
    assert_eq!(m.state, State::Candidate);
}

#[test]
fn a_lone_node_becomes_leader_at_once() {
    let mut m = module(&[]);
    let actions = m.start_election();
    assert_eq!(actions, vec![Action::ResetElectionClock]);
    assert_eq!(m.state, State::Leader);
    assert_eq!(m.current_term, 1);
    assert!(m.is_leader());
}

#[test]
fn timeout_formula() {
    assert_eq!(timeout_from_random(0), 1000);
    assert_eq!(timeout_from_random(149), 1149);
    assert_eq!(timeout_from_random(150), 1000);
    assert_eq!(timeout_from_random(u64::MAX), 1000 + u64::MAX % 150);
}

#[test]
fn election_timeout_is_in_range() {
    let m = module(&[]);
    for _ in 0..200 {
        let t = m.election_timeout();
        assert!((1000..1150).contains(&t));
    }
}

#[test]
fn majority_of_votes_makes_a_leader() {
    let mut m = module(&["node2", "node3", "node4"]);
    m.start_election();
    let actions = m.check_votes(1);
    assert!(actions.is_empty());
    assert_eq!(m.votes, Some(1));
    assert_eq!(m.state, State::Candidate);
    let actions = m.check_votes(1);
    assert_eq!(m.votes, Some(2));
    assert_eq!(m.state, State::Leader);
    assert_eq!(m.leader_id, Some(s("node1")));
    let coordinator = |to: &str| {
        Action::Send(Outgoing { to: s(to), message: PeerMessage::Coordinator(Coordinator { id: s("node1"), term: 1 }) })
    };
    assert_eq!(
        actions,
        vec![coordinator("node2"), coordinator("node3"), coordinator("node4"), Action::StartHeartbeats(1)]
    );
    // A leader does not become leader again.
    assert!(m.check_votes(1).is_empty());
    assert_eq!(m.votes, Some(3));
}

#[test]
fn a_newer_vote_term_makes_a_follower() {
    let mut m = module(&["node2"]);
    m.start_election();
    m.votes = Some(5);
    assert!(m.check_votes(2).is_empty());
    assert_eq!(m.state, State::Follower);
    assert_eq!(m.votes, Some(0));
    assert_eq!(m.current_term, 1);
}

#[test]
fn an_older_vote_is_not_counted() {
    let mut m = module(&["a", "b", "c", "d"]);
    m.current_term = 3;
    m.votes = Some(2);
    assert!(m.check_votes(2).is_empty());
    assert_eq!(m.votes, Some(2));
    // Two votes of five connections are no majority; three are.
    m.current_term = 3;
    let actions = m.handle_vote(&Vote { id: s("a"), term: 3 });
    assert_eq!(m.votes, Some(3));
    assert_eq!(m.state, State::Leader);
    assert_eq!(actions.len(), 5);
}

#[test]
fn votes_that_are_none_stay_none() {
    let mut m = module(&["a"]);
    m.votes = None;
    assert!(m.check_votes(0).is_empty());
    assert_eq!(m.votes, None);
    assert_eq!(m.state, State::Follower);
}

#[test]
fn vote_term_is_compared_modulo_u16() {
    let mut m = module(&["a"]);
    m.current_term = 65536 + 2;
    // The term reads as 2 in 16 bits, so a vote of term 3 is newer.
    m.check_votes(3);
    assert_eq!(m.state, State::Follower);
}

#[test]
fn first_vote_request_gets_a_vote() {
    let mut m = module(&["node2"]);
    let r = m.handle_requested_our_vote(&RequestedOurVote { term: 1, candidate_id: s("node2") });
    assert_eq!(
        r,
        Some(Outgoing { to: s("node2"), message: PeerMessage::RequestAnswer(RequestAnswer { msg: s("VOTE"), term: 1 }) })
    );
    assert_eq!(m.last_vote, Some(1));
}

#[test]
fn same_term_after_voting_gets_a_no() {
    let mut m = module(&["node2"]);
    m.current_term = 1;
    m.last_vote = Some(1);
    let r = m.handle_requested_our_vote(&RequestedOurVote { term: 1, candidate_id: s("node2") });
    assert_eq!(
        r,
        Some(Outgoing { to: s("node2"), message: PeerMessage::RequestAnswer(RequestAnswer { msg: s("NO"), term: 1 }) })
    );
    assert_eq!(m.last_vote, Some(1));
}

#[test]
fn later_term_after_voting_gets_a_vote_without_recording() {
    let mut m = module(&["node2"]);
    m.current_term = 1;
    m.last_vote = Some(1);
    let r = m.handle_requested_our_vote(&RequestedOurVote { term: 2, candidate_id: s("node2") });
    assert_eq!(
        r,
        Some(Outgoing { to: s("node2"), message: PeerMessage::RequestAnswer(RequestAnswer { msg: s("VOTE"), term: 2 }) })
    );
    assert_eq!(m.last_vote, Some(1));
}

#[test]
fn stale_candidate_is_pointed_to_the_leader() {
    let mut m = module(&["node2"]);
    m.current_term = 4;
    m.leader_id = Some(s("node3"));
    let r = m.handle_requested_our_vote(&RequestedOurVote { term: 2, candidate_id: s("node2") });
    assert_eq!(
        r,
        Some(Outgoing { to: s("node2"), message: PeerMessage::NewLeader(NewLeader { id: s("node3"), term: 4 }) })
    );
    m.leader_id = None;
    assert_eq!(m.handle_requested_our_vote(&RequestedOurVote { term: 2, candidate_id: s("node2") }), None);
    assert_eq!(m.last_vote, None);
}

#[test]
fn unconnected_candidate_gets_no_answer_but_the_vote_is_recorded() {
    let mut m = module(&[]);
    let r = m.handle_requested_our_vote(&RequestedOurVote { term: 3, candidate_id: s("node2") });
    assert_eq!(r, None);
    assert_eq!(m.last_vote, Some(3));
}

#[test]
fn heartbeat_from_a_later_term_only_catches_up() {
    let mut m = module(&["node2"]);
    m.leader_id = Some(s("node2"));
    assert!(m.handle_hb(&HB { term: 5, id: s("node2") }).is_empty());
    assert_eq!(m.current_term, 5);
}

#[test]
fn heartbeat_is_acknowledged_to_the_leader() {
    let mut m = module(&["node2"]);
    m.current_term = 5;
    assert_eq!(m.handle_hb(&HB { term: 5, id: s("node2") }), vec![Action::ResetElectionClock]);
    m.leader_id = Some(s("node2"));
    assert_eq!(
        m.handle_hb(&HB { term: 3, id: s("node2") }),
        vec![
            Action::ResetElectionClock,
            Action::Send(Outgoing { to: s("node2"), message: PeerMessage::Ack(Ack { term: 3 }) }),
        ]
    );
    assert_eq!(m.ack_failed(), vec![Action::RunElectionTimer]);
    assert!(m.connections.is_empty());
    assert_eq!(m.handle_hb(&HB { term: 3, id: s("node2") }), vec![Action::ResetElectionClock]);
}

#[test]
fn new_leader_is_recorded() {
    let mut m = module(&[]);
    m.state = State::Candidate;
    m.current_term = 2;
    let a = m.handle_new_leader(NewLeader { id: s("node2"), term: 7 });
    assert_eq!(a, vec![Action::StartHeartbeatCheck]);
    assert_eq!(m.state, State::Follower);
    assert_eq!(m.current_term, 7);
    assert_eq!(m.leader_id, Some(s("node2")));
    m.state = State::Leader;
    m.handle_new_leader(NewLeader { id: s("node1"), term: 1 });
    assert_eq!(m.state, State::Leader);
    assert_eq!(m.current_term, 7);
}

#[test]
fn refusal_from_a_later_term_makes_a_follower() {
    let mut m = module(&[]);
    m.state = State::Candidate;
    m.current_term = 3;
    m.handle_no(&No { term: 3 });
    assert_eq!(m.state, State::Candidate);
    m.handle_no(&No { term: 4 });
    assert_eq!(m.state, State::Follower);
}

#[test]
fn connection_messages_update_the_connections() {
    let mut m = module(&[]);
    m.handle_add_node(AddNode { id: s("node2") });
    m.handle_new_connection(NewConnection { id_connection: s("127.0.0.1:50000") });
    assert_eq!(m.connections, vec![s("node2"), s("127.0.0.1:50000")]);
    m.handle_connection_down(&ConnectionDown { id: s("node2") });
    assert_eq!(m.connections, vec![s("127.0.0.1:50000")]);
}

#[test]
fn update_id_renames_and_passes_on_the_leader() {
    let mut m = module(&["127.0.0.1:50000"]);
    m.current_term = 4;
    m.leader_id = Some(s("node1"));
    let msg = UpdateID {
        ip: s("127.0.0.1"),
        port: 5334,
        old_id: s("127.0.0.1:50000"),
        new_id: s("node2"),
        expects_leader: true,
    };
    let r = m.handle_update_id(&msg);
    assert_eq!(m.connections, vec![s("node2")]);
    assert_eq!(
        r,
        Some(Outgoing { to: s("node2"), message: PeerMessage::NewLeader(NewLeader { id: s("node1"), term: 4 }) })
    );
    let msg2 = UpdateID { expects_leader: false, ..msg };
    assert_eq!(m.handle_update_id(&msg2), None);
    assert_eq!(m.connections, vec![s("node2")]);
}

#[test]
fn reconnection_plan() {
    let mut m = module(&["node2"]);
    m.current_term = 3;
    assert!(m.handle_reconnection(&Reconnection { ip: s("127.0.0.1"), port: 5334, node_id: s("node2") }).is_none());
    let p = m
        .handle_reconnection(&Reconnection { ip: s("127.0.0.1"), port: 5335, node_id: s("node3") })
        .unwrap();
    assert_eq!(p.node_id, "node3");
    assert_eq!(p.address, "127.0.0.1:5335");
    assert_eq!(p.greeting, ID { ip: s("127.0.0.1"), port: 5333, id: s("node1"), just_arrived: false });
    assert_eq!(p.leader, None);
    m.leader_id = Some(s("node4"));
    let p = m
        .handle_reconnection(&Reconnection { ip: s("127.0.0.1"), port: 5335, node_id: s("node3") })
        .unwrap();
    assert_eq!(p.leader, Some(NewLeader { id: s("node4"), term: 3 }));
}

#[test]
fn election_timer_steps() {
    let mut m = module(&["node2"]);
    assert!(matches!(m.election_timer_step(0, 10, 1000), TimerStep::Wait));
    assert!(matches!(m.election_timer_step(1, 2000, 1000), TimerStep::Stop));
    match m.election_timer_step(0, 1000, 1000) {
        TimerStep::Election(v) => assert_eq!(v.len(), 2),
        _ => panic!("an election was due"),
    }
    assert_eq!(m.current_term, 1);
    m.state = State::Leader;
    assert!(matches!(m.election_timer_step(1, 5000, 1000), TimerStep::Stop));
}

#[test]
fn heartbeat_check_steps() {
    let mut m = module(&[]);
    assert!(matches!(m.heartbeat_check_step(10, 1000), TimerStep::Wait));
    match m.heartbeat_check_step(1100, 1000) {
        TimerStep::Election(v) => assert_eq!(v, vec![Action::ResetElectionClock]),
        _ => panic!("an election was due"),
    }
    assert_eq!(m.state, State::Leader);
    assert!(matches!(m.heartbeat_check_step(5000, 1000), TimerStep::Stop));
}

#[test]
fn heartbeat_round_and_failures() {
    let mut m = module(&["a", "b", "c"]);
    m.state = State::Leader;
    let beats = m.heartbeat_round(4);
    assert_eq!(beats.len(), 3);
    assert_eq!(beats[1], Outgoing { to: s("b"), message: PeerMessage::Heartbeat(Heartbeat { term: 4, id: s("node1") }) });
    let (notices, keep) = m.heartbeat_failures(&vec![s("b"), s("c")]);
    assert!(keep);
    let down = |to: &str, id: &str| Outgoing { to: s(to), message: PeerMessage::ConnectionDown(ConnectionDown { id: s(id) }) };
    assert_eq!(
        notices,
        vec![down("a", "b"), down("b", "b"), down("c", "b"), down("a", "c"), down("b", "c"), down("c", "c")]
    );
    assert_eq!(m.connections, vec![s("a")]);
    m.state = State::Follower;
    let (notices, keep) = m.heartbeat_failures(&vec![]);
    assert!(notices.is_empty());
    assert!(!keep);
}

#[test]
fn announce_leader_reaches_each_connection() {
    let m = module(&["x", "y"]);
    let n = m.announce_leader();
    assert_eq!(n.len(), 2);
    assert_eq!(n[0], Outgoing { to: s("x"), message: PeerMessage::Coordinator(Coordinator { id: s("node1"), term: 0 }) });
}

#[test]
fn become_leader_records_itself() {
    let mut m = module(&["x"]);
    m.current_term = 2;
    let a = m.become_leader();
    assert_eq!(m.state, State::Leader);
    assert_eq!(m.leader_id, Some(s("node1")));
    assert_eq!(a.last(), Some(&Action::StartHeartbeats(2)));
}

#[test]
fn each_target_is_where_that_node_listens() {
    let cfg = example_nodes();
    let (_, t) = ConsensusModule::start_connections(s("127.0.0.1"), 3333, s("node1"), &cfg, false);
    assert_eq!(t.len(), 3);
    for (target, node) in t.iter().zip(cfg.nodes[1..].iter()) {
        let port: usize = node.port.parse().unwrap();
        assert_eq!(target.id, node.name);
        assert_eq!(target.address, raft::raft_module::RaftModule::listen_address(&node.ip, port));
    }
}

#[test]
fn roles_equal_only_themselves() {
    let all = [State::Follower, State::Leader, State::Candidate];
    for (i, a) in all.iter().enumerate() {
        for (j, b) in all.iter().enumerate() {
            assert_eq!(a == b, i == j);
            assert_eq!(a != b, i != j);
        }
    }
}

#[test]
fn terms_never_decrease_over_a_run_of_messages() {
    let mut m = module(&["node2", "node3"]);
    m.current_term = 5;
    let mut last = m.current_term;
    let mut check = |m: &ConsensusModule| {
        assert!(m.current_term >= last);
        last = m.current_term;
    };
    m.handle_requested_our_vote(&RequestedOurVote { term: 2, candidate_id: s("node2") });
    check(&m);
    m.handle_vote(&Vote { id: s("node2"), term: 9 });
    check(&m);
    m.handle_no(&No { term: 9 });
    check(&m);
    m.handle_new_leader(NewLeader { id: s("node3"), term: 3 });
    check(&m);
    m.handle_hb(&HB { term: 2, id: s("node3") });
    check(&m);
    m.handle_hb(&HB { term: 8, id: s("node3") });
    check(&m);
    assert_eq!(m.current_term, 8);
    m.handle_connection_down(&ConnectionDown { id: s("node2") });
    check(&m);
    m.handle_new_leader(NewLeader { id: s("node3"), term: 11 });
    check(&m);
    assert_eq!(m.current_term, 11);
}
