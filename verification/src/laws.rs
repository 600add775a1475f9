use vstd::prelude::*;
use crate::consensus::{
    action_views, election_actions, election_started, leader_actions, remove_all, remove_id,
    send_all, to_all, vote_reply, Action, ActionView, ConsensusModule, OutgoingView, State,
};
use crate::consensus::{
    add_id, connect_targets, down_notices, handled, has_majority, heartbeat_actions, last_vote_after, votes_counted,
    Incoming,
};
use crate::messages::{PeerMessageView, NewLeader, No, HB};
use crate::node_config::Node;
use crate::raft_module::{listen_text, PORT_OFFSET};
use crate::text::parse_unsigned;
use crate::protocol::{tag_no, tag_vote};

verus! {

/// Removing a name from a list in which no name occurs twice leaves such a list, without
/// that name and with no name it did not have.
pub proof fn lemma_remove_id(s: Seq<Seq<char>>, id: Seq<char>)
    requires
        s.no_duplicates(),
    ensures
        remove_id(s, id).no_duplicates(),
        !remove_id(s, id).contains(id),
        forall|x: Seq<char>| #[trigger] remove_id(s, id).contains(x) ==> s.contains(x),
        forall|x: Seq<char>| s.contains(x) && x != id ==> #[trigger] remove_id(s, id).contains(x),
        remove_id(s, id).len() == if s.contains(id) {
            s.len() - 1
        } else {
            s.len() as int
        },
{
    if s.contains(id) {
        let i = s.index_of(id);
        let t = s.remove(i);
        assert forall|a: int, b: int| 0 <= a < b < t.len() implies t[a] != t[b] by {
            let a2 = if a < i { a } else { a + 1 };
            let b2 = if b < i { b } else { b + 1 };
            assert(t[a] == s[a2] && t[b] == s[b2]);
        }
        assert forall|x: Seq<char>| #[trigger] t.contains(x) implies s.contains(x) && x != id by {
            let k = choose|k: int| 0 <= k < t.len() && t[k] == x;
            let k2 = if k < i { k } else { k + 1 };
            assert(s[k2] == x);
        }
        assert forall|x: Seq<char>| s.contains(x) && x != id implies #[trigger] t.contains(x) by {
            let k = choose|k: int| 0 <= k < s.len() && s[k] == x;
            assert(k != i);
            if k < i {
                assert(t[k] == x);
            } else {
                assert(t[k - 1] == x);
            }
        }
    }
}

/// Dropping each of several names, one after the other, from a list in which no name
/// occurs twice leaves none of them, and no name the list did not have.
pub proof fn lemma_remove_all(s: Seq<Seq<char>>, gone: Seq<Seq<char>>)
    requires
        s.no_duplicates(),
    ensures
        remove_all(s, gone).no_duplicates(),
        forall|k: int| 0 <= k < gone.len() ==> !remove_all(s, gone).contains(#[trigger] gone[k]),
        forall|x: Seq<char>| #[trigger] remove_all(s, gone).contains(x) ==> s.contains(x),
    decreases gone.len(),
{
    if gone.len() > 0 {
        let prev = remove_all(s, gone.drop_last());
        lemma_remove_all(s, gone.drop_last());
        lemma_remove_id(prev, gone.last());
        assert forall|k: int| 0 <= k < gone.len() implies !remove_all(s, gone).contains(
            #[trigger] gone[k],
        ) by {
            if k < gone.len() - 1 {
                assert(gone.drop_last()[k] == gone[k]);
            }
        }
    }
}

/// Starting an election raises the term by exactly one, never leaves the node a
/// follower, restarts the election clock, and then sends one request of the new term to
/// each connected node, and nothing to any other.
pub proof fn lemma_election_requests_each_connection(
    before: ConsensusModule,
    after: ConsensusModule,
    actions: Seq<Action>,
)
    requires
        election_started(before, after, actions),
    ensures
        after.current_term == before.current_term + 1,
        after.state != State::Follower,
        actions.len() == before.ids().len() + 1,
        actions[0]@ == ActionView::ResetElectionClock,
        forall|i: int|
            0 <= i < before.ids().len() ==> (#[trigger] actions[i + 1])@ == ActionView::Send(
                OutgoingView {
                    to: before.ids()[i],
                    message: PeerMessageView::StartElection {
                        id: before.node_id@,
                        term: after.current_term,
                    },
                },
            ),
{
    let msg = PeerMessageView::StartElection { id: before.node_id@, term: after.current_term };
    let expected = election_actions(before.ids(), before.node_id@, after.current_term);
    assert(action_views(actions).len() == actions.len());
    assert(send_all(to_all(before.ids(), msg)).len() == before.ids().len());
    assert(action_views(actions)[0] == actions[0]@);
    assert forall|i: int| 0 <= i < before.ids().len() implies (#[trigger] actions[i + 1])@
        == ActionView::Send(OutgoingView { to: before.ids()[i], message: msg }) by {
        assert(action_views(actions)[i + 1] == actions[i + 1]@);
        assert(expected[i + 1] == send_all(to_all(before.ids(), msg))[i]);
        assert(to_all(before.ids(), msg)[i] == OutgoingView { to: before.ids()[i], message: msg });
    }
}

/// A node that becomes leader announces itself, with its term, to each of its
/// connections, and then starts its heartbeats of that term.
pub proof fn lemma_leader_announces_to_all(ids: Seq<Seq<char>>, node_id: Seq<char>, term: usize)
    ensures
        leader_actions(ids, node_id, term).len() == ids.len() + 1,
        leader_actions(ids, node_id, term).last() == ActionView::StartHeartbeats(term),
        forall|i: int|
            0 <= i < ids.len() ==> #[trigger] leader_actions(ids, node_id, term)[i]
                == ActionView::Send(
                OutgoingView {
                    to: ids[i],
                    message: PeerMessageView::Coordinator { id: node_id, term },
                },
            ),
{
    let sends = to_all(ids, PeerMessageView::Coordinator { id: node_id, term });
    assert forall|i: int| 0 <= i < ids.len() implies #[trigger] leader_actions(ids, node_id, term)[i]
        == ActionView::Send(
        OutgoingView { to: ids[i], message: PeerMessageView::Coordinator { id: node_id, term } },
    ) by {
        assert(sends.map_values(|o: OutgoingView| ActionView::Send(o))[i] == ActionView::Send(
            sends[i],
        ));
    }
}

/// A vote request is answered only on the candidate's own connection, and only while
/// that candidate is connected; a candidate behind in term never gets a vote.
pub proof fn lemma_vote_reply_goes_to_candidate(s: ConsensusModule, term: usize, candidate: Seq<char>)
    ensures
        vote_reply(s, term, candidate) matches Some(o) ==> o.to == candidate && s.ids().contains(
            candidate,
        ),
        term < s.current_term ==> !(vote_reply(s, term, candidate) matches Some(o)
            && o.message == (PeerMessageView::RequestAnswer { msg: tag_vote(), term })),
{
    assert(tag_vote() != tag_no()) by {
        assert(tag_vote().len() != tag_no().len());
    }
}

/// Handling a message never lowers a node's term: only news of a leader and
/// heartbeats can raise it, and every other message leaves it as it is.
pub proof fn lemma_terms_never_decrease(before: ConsensusModule, msg: Incoming, after: ConsensusModule)
    requires
        handled(before, msg, after),
    ensures
        after.current_term >= before.current_term,
        !(msg is NewLeader || msg is HB) ==> after.current_term == before.current_term,
{
}

/// Where a starting node connects to the listed node `n`, if anywhere: `n`'s name and
/// the address at which `n` listens, for a node whose port reads as a number and that
/// is not the starting node itself.
pub open spec fn listed_target(n: Node, self_ip: Seq<char>, self_port: int) -> Option<
    (Seq<char>, Seq<char>),
> {
    match parse_unsigned(n.port@, usize::MAX as int) {
        Some(p) => if at_own_address(n, p, self_ip, self_port) {
            None
        } else {
            Some((n.name@, listen_text(n.ip@, p as usize)))
        },
        None => None,
    }
}

/// The listed node `n`, whose port reads `p`, is at the starting node's own address:
/// the same ip, and the same listening port.
pub open spec fn at_own_address(n: Node, p: int, self_ip: Seq<char>, self_port: int) -> bool {
    n.ip@ == self_ip && p + PORT_OFFSET == self_port
}

/// `n` is the starting node itself.
pub open spec fn is_self_node(n: Node, self_ip: Seq<char>, self_port: int) -> bool {
    match parse_unsigned(n.port@, usize::MAX as int) {
        Some(p) => at_own_address(n, p, self_ip, self_port),
        None => false,
    }
}

/// A starting node connects to each other node at the address where that node
/// listens (the address `RaftModule::listen_address` gives for its listed ip and port):
/// every target is a listed node at its listening address, and every listed node with
/// a readable port that is not the node itself (the same ip and the same port) is a
/// target, except, on a first run, those listed after the node itself. A node on
/// another host is never taken for the node itself, whatever its port.
pub proof fn lemma_targets_are_listeners(
    nodes: Seq<Node>,
    self_ip: Seq<char>,
    self_port: int,
    first_run: bool,
)
    ensures
        forall|k: int|
            0 <= k < connect_targets(nodes, self_ip, self_port, first_run).len() ==> exists|i: int|
                0 <= i < nodes.len() && #[trigger] listed_target(nodes[i], self_ip, self_port)
                    == Some(#[trigger] connect_targets(nodes, self_ip, self_port, first_run)[k]),
        forall|i: int|
            0 <= i < nodes.len() && #[trigger] listed_target(nodes[i], self_ip, self_port) is Some
                && (first_run ==> forall|j: int|
                0 <= j < i ==> !is_self_node(#[trigger] nodes[j], self_ip, self_port))
                ==> connect_targets(nodes, self_ip, self_port, first_run).contains(
                listed_target(nodes[i], self_ip, self_port)->0,
            ),
    decreases nodes.len(),
{
    let t = connect_targets(nodes, self_ip, self_port, first_run);
    if nodes.len() > 0 {
        let rest = nodes.drop_first();
        let rt = connect_targets(rest, self_ip, self_port, first_run);
        lemma_targets_are_listeners(rest, self_ip, self_port, first_run);
        let n = nodes[0];
        assert forall|k: int| 0 <= k < t.len() implies exists|i: int|
            0 <= i < nodes.len() && #[trigger] listed_target(nodes[i], self_ip, self_port) == Some(
                #[trigger] t[k],
            ) by {
            match parse_unsigned(n.port@, usize::MAX as int) {
                Some(p) => {
                    if at_own_address(n, p, self_ip, self_port) {
                        if !first_run {
                            let i2 = choose|i2: int|
                                0 <= i2 < rest.len() && #[trigger] listed_target(
                                    rest[i2],
                                    self_ip,
                                    self_port,
                                ) == Some(rt[k]);
                            assert(nodes[i2 + 1] == rest[i2]);
                        }
                    } else {
                        if k == 0 {
                            assert(listed_target(nodes[0], self_ip, self_port) == Some(t[0]));
                        } else {
                            assert(t[k] == rt[k - 1]);
                            let i2 = choose|i2: int|
                                0 <= i2 < rest.len() && #[trigger] listed_target(
                                    rest[i2],
                                    self_ip,
                                    self_port,
                                ) == Some(rt[k - 1]);
                            assert(nodes[i2 + 1] == rest[i2]);
                        }
                    }
                },
                None => {
                    let i2 = choose|i2: int|
                        0 <= i2 < rest.len() && #[trigger] listed_target(rest[i2], self_ip, self_port)
                            == Some(rt[k]);
                    assert(nodes[i2 + 1] == rest[i2]);
                },
            }
        }
        assert forall|i: int|
            0 <= i < nodes.len() && #[trigger] listed_target(nodes[i], self_ip, self_port) is Some
                && (first_run ==> forall|j: int|
                0 <= j < i ==> !is_self_node(#[trigger] nodes[j], self_ip, self_port)) implies t.contains(
            listed_target(nodes[i], self_ip, self_port)->0,
        ) by {
            if i == 0 {
                assert(t[0] == listed_target(n, self_ip, self_port)->0);
            } else {
                assert(nodes[i] == rest[i - 1]);
                if first_run {
                    assert forall|j: int| 0 <= j < i - 1 implies !is_self_node(
                        #[trigger] rest[j],
                        self_ip,
                        self_port,
                    ) by {
                        assert(rest[j] == nodes[j + 1]);
                    }
                    assert(!is_self_node(nodes[0], self_ip, self_port));
                }
                let x = listed_target(nodes[i], self_ip, self_port)->0;
                assert(rt.contains(x));
                let k = choose|k: int| 0 <= k < rt.len() && rt[k] == x;
                match parse_unsigned(n.port@, usize::MAX as int) {
                    Some(p) => {
                        if !at_own_address(n, p, self_ip, self_port) {
                            assert(t[k + 1] == x);
                        } else {
                            assert(t[k] == x);
                        }
                    },
                    None => {
                        assert(t[k] == x);
                    },
                }
            }
        }
    }
}

/// A count of votes is a majority of a node's connections exactly when twice the
/// votes exceed the number of connections (that number taken modulo 2^16, as the node
/// counts it): in a cluster of two, one vote from the only other node is enough.
pub proof fn lemma_majority_is_more_than_half(votes: u16, connections: nat)
    ensures
        has_majority(votes, connections) <==> (votes as int) * 2 > (connections as u16) as int,
{
}

/// Counting a vote. A vote from a later term (the node's term taken modulo 2^16) makes the
/// node a follower with no votes. A vote of the node's own term adds one vote, and the node,
/// where it is not leader yet, becomes leader, recording itself as leader, exactly when twice
/// its votes now exceed its number of connections; its term never changes.
pub proof fn lemma_vote_counting(before: ConsensusModule, vote_term: u16, after: ConsensusModule)
    requires
        votes_counted(before, vote_term, after),
    ensures
        after.current_term == before.current_term,
        after.node_id == before.node_id,
        after.connections == before.connections,
        vote_term > (before.current_term as u16) ==> after.state == State::Follower && after.votes
            == Some(0u16),
        vote_term as usize == before.current_term && before.votes is Some ==> {
            let v = (before.votes->0 + 1) as u16;
            &&& after.votes == Some(v)
            &&& before.votes->0 < u16::MAX ==> v == before.votes->0 + 1
            &&& before.state == State::Leader ==> after.state == State::Leader
                && after.leader_id == before.leader_id
            &&& before.state != State::Leader ==> (after.state == State::Leader <==> (v as int) * 2
                > (before.connections.len() as u16) as int)
            &&& before.state != State::Leader && after.state == State::Leader ==> after.leader_id
                == Some(before.node_id)
            &&& after.state != State::Leader ==> after.state == before.state && after.leader_id
                == before.leader_id
        },
        vote_term <= (before.current_term as u16) && vote_term as usize != before.current_term
            ==> after.votes == before.votes && (after.state == State::Leader ==> before.state
            == State::Leader || (before.votes->0 as int) * 2 > (before.connections.len() as u16) as int),
{
    if vote_term as usize == before.current_term {
        let t = before.current_term;
        assert(t < 0x10000);
        assert((t as u16) == t) by (bit_vector)
            requires
                t < 0x10000,
        ;
    }
    if before.votes is Some {
        lemma_majority_is_more_than_half(before.votes->0, before.connections.len() as nat);
        lemma_majority_is_more_than_half(
            (before.votes->0 + 1) as u16,
            before.connections.len() as nat,
        );
    }
}

/// The text of a vote.
pub open spec fn vote_text() -> Seq<char> {
    seq!['V', 'O', 'T', 'E']
}

/// The text of a refusal.
pub open spec fn refusal_text() -> Seq<char> {
    seq!['N', 'O']
}

/// Answering a vote request of `term` from a connected `candidate`: a node that has not
/// voted votes for a candidate that is not behind it, and records that term as its last
/// vote; a candidate of a later term always gets a vote; a node that has voted in this
/// term refuses with its term; a candidate behind in term is never given a vote, nor is
/// anything recorded; an unconnected candidate gets no answer.
pub proof fn lemma_vote_answers(s: ConsensusModule, term: usize, candidate: Seq<char>)
    ensures
        s.ids().contains(candidate) && term >= s.current_term && s.last_vote is None ==> vote_reply(
            s,
            term,
            candidate,
        ) == Some(
            OutgoingView {
                to: candidate,
                message: PeerMessageView::RequestAnswer { msg: vote_text(), term },
            },
        ) && last_vote_after(s, term) == Some(term),
        s.ids().contains(candidate) && term > s.current_term ==> vote_reply(s, term, candidate)
            == Some(
            OutgoingView {
                to: candidate,
                message: PeerMessageView::RequestAnswer { msg: vote_text(), term },
            },
        ),
        s.ids().contains(candidate) && term == s.current_term && s.last_vote is Some
            && s.last_vote->0 != 0 ==> vote_reply(s, term, candidate) == Some(
            OutgoingView {
                to: candidate,
                message: PeerMessageView::RequestAnswer { msg: refusal_text(), term: s.current_term },
            },
        ) && last_vote_after(s, term) == s.last_vote,
        s.ids().contains(candidate) && term >= s.current_term && s.last_vote == Some(0usize)
            ==> vote_reply(s, term, candidate) == Some(
            OutgoingView {
                to: candidate,
                message: PeerMessageView::RequestAnswer { msg: vote_text(), term },
            },
        ) && last_vote_after(s, term) == Some(term),
        s.ids().contains(candidate) && term < s.current_term ==> vote_reply(s, term, candidate)
            == match s.leader_id {
            Some(l) => Some(
                OutgoingView {
                    to: candidate,
                    message: PeerMessageView::NewLeader { id: l@, term: s.current_term },
                },
            ),
            None => None,
        },
        term < s.current_term ==> last_vote_after(s, term) == s.last_vote,
        s.last_vote is Some && s.last_vote->0 != 0 ==> last_vote_after(s, term) == s.last_vote,
        !s.ids().contains(candidate) ==> vote_reply(s, term, candidate) is None,
{
    assert(tag_vote() =~= vote_text());
    assert(tag_no() =~= refusal_text());
}

/// A heartbeat that is not ahead of the node restarts its election clock and, whenever
/// the node knows its leader and holds a connection to it, acknowledges that heartbeat's
/// term to the leader, whatever the heartbeat's term; otherwise only the clock restarts.
pub proof fn lemma_heartbeat_acknowledged(s: ConsensusModule, term: u16)
    ensures
        s.leader_id is Some && s.ids().contains(s.leader_id->0@) ==> heartbeat_actions(s, term)
            == seq![
            ActionView::ResetElectionClock,
            ActionView::Send(
                OutgoingView { to: s.leader_id->0@, message: PeerMessageView::Ack { term } },
            ),
        ],
        !(s.leader_id is Some && s.ids().contains(s.leader_id->0@)) ==> heartbeat_actions(s, term)
            == seq![ActionView::ResetElectionClock],
{
}

/// Adding a name to a list in which no name occurs twice keeps every name, adds that one
/// (at the end, where it is new) and still holds no name twice.
pub proof fn lemma_add_id(s: Seq<Seq<char>>, id: Seq<char>)
    requires
        s.no_duplicates(),
    ensures
        add_id(s, id).no_duplicates(),
        add_id(s, id).contains(id),
        forall|x: Seq<char>| #[trigger] add_id(s, id).contains(x) <==> s.contains(x) || x == id,
        s.contains(id) ==> add_id(s, id) == s,
        !s.contains(id) ==> add_id(s, id) == s.push(id),
{
    if !s.contains(id) {
        let t = s.push(id);
        assert(t[s.len() as int] == id);
        assert forall|x: Seq<char>| #[trigger] t.contains(x) <==> s.contains(x) || x == id by {
            if t.contains(x) {
                let k = choose|k: int| 0 <= k < t.len() && t[k] == x;
                if k < s.len() {
                    assert(s[k] == x);
                }
            }
            if s.contains(x) {
                let k = choose|k: int| 0 <= k < s.len() && s[k] == x;
                assert(t[k] == x);
            }
        }
    }
}

/// News of a leader records that leader, raises the node's term to the leader's where
/// it is behind (and never lowers it), makes every node but the leader itself a follower,
/// and changes nothing else.
pub proof fn lemma_new_leader(before: ConsensusModule, m: NewLeader, after: ConsensusModule)
    requires
        handled(before, Incoming::NewLeader(m), after),
    ensures
        after.leader_id == Some(m.id),
        after.current_term >= before.current_term,
        after.current_term >= m.term,
        after.current_term == before.current_term || after.current_term == m.term,
        m.id@ != before.node_id@ ==> after.state == State::Follower,
        m.id@ == before.node_id@ ==> after.state == before.state,
        after.connections == before.connections,
        after.votes == before.votes,
        after.last_vote == before.last_vote,
        after.node_id == before.node_id,
{
}

/// A refusal makes the node a follower exactly when the refusal's term is later than the
/// node's (taken modulo 2^16), and changes nothing else.
pub proof fn lemma_refusal(before: ConsensusModule, m: No, after: ConsensusModule)
    requires
        handled(before, Incoming::No(m), after),
    ensures
        m.term > (before.current_term as u16) ==> after.state == State::Follower,
        m.term <= (before.current_term as u16) ==> after.state == before.state,
        after.current_term == before.current_term,
        after.votes == before.votes,
        after.leader_id == before.leader_id,
        after.connections == before.connections,
{
}

/// A heartbeat from a later term only brings the node's term up to it; any other
/// heartbeat leaves the state as it is.
pub proof fn lemma_heartbeat_state(before: ConsensusModule, m: HB, after: ConsensusModule)
    requires
        handled(before, Incoming::HB(m), after),
    ensures
        before.current_term < m.term as usize ==> after.current_term == m.term as usize,
        after.current_term >= before.current_term,
        after.state == before.state,
        after.leader_id == before.leader_id,
        after.connections == before.connections,
        after.votes == before.votes,
{
}

/// After a heartbeat round, each node in `ids` is told of each failed connection, one
/// failed name after the other: the notice of the `k`-th failed name to the `j`-th
/// connection comes at place `k * ids.len() + j`, and there are no other notices.
pub proof fn lemma_down_notices(failed: Seq<Seq<char>>, ids: Seq<Seq<char>>)
    ensures
        down_notices(failed, ids).len() == failed.len() * ids.len(),
        forall|k: int, j: int|
            0 <= k < failed.len() && 0 <= j < ids.len() ==> #[trigger] down_notices(failed, ids)[k
                * ids.len() + j] == (OutgoingView {
                to: #[trigger] ids[j],
                message: PeerMessageView::ConnectionDown { id: #[trigger] failed[k] },
            }),
    decreases failed.len(),
{
    if failed.len() > 0 {
        let prev = failed.drop_last();
        lemma_down_notices(prev, ids);
        let n = ids.len() as int;
        let last = to_all(ids, PeerMessageView::ConnectionDown { id: failed.last() });
        assert(prev.len() * n + n == failed.len() * n) by (nonlinear_arith)
            requires
                prev.len() == failed.len() - 1,
        ;
        assert forall|k: int, j: int|
            0 <= k < failed.len() && 0 <= j < ids.len() implies #[trigger] down_notices(
            failed,
            ids,
        )[k * ids.len() + j] == (OutgoingView {
            to: #[trigger] ids[j],
            message: PeerMessageView::ConnectionDown { id: #[trigger] failed[k] },
        }) by {
            if k < failed.len() - 1 {
                assert(k * n + j < prev.len() * n) by (nonlinear_arith)
                    requires
                        0 <= k < prev.len(),
                        0 <= j < n,
                ;
                assert(0 <= k * n + j) by (nonlinear_arith)
                    requires
                        0 <= k,
                        0 <= j,
                        0 <= n,
                ;
                assert(prev[k] == failed[k]);
            } else {
                assert(k * n == prev.len() * n) by (nonlinear_arith)
                    requires
                        k == prev.len(),
                ;
            }
        }
    }
}

} // verus!
