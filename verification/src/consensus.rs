use vstd::prelude::*;
use crate::messages::{
    Ack, AddNode, ConnectionDown, Coordinator, Heartbeat, NewConnection, NewLeader, No,
    PeerMessage, PeerMessageView, RequestAnswer, RequestedOurVote, StartElection, Vote, HB,
};
use crate::protocol::{address_text, socket_address, tag_no, tag_vote};
use crate::messages::{Reconnection, UpdateID, ID};
use crate::node_config::{Node, NodesConfig};
use crate::text::{parse_unsigned, parse_usize};
use crate::raft_module::{listen_text, PORT_OFFSET};
use crate::text::views;
pub use crate::state::State;

verus! {

/// A message to be written on the connection to the node `to`.
#[derive(Clone, Debug, PartialEq, Eq)]
pub struct Outgoing {
    pub to: String,
    pub message: PeerMessage,
}

/// The mathematical value of an `Outgoing`.
pub struct OutgoingView {
    pub to: Seq<char>,
    pub message: PeerMessageView,
}

impl View for Outgoing {
    type V = OutgoingView;

    open spec fn view(&self) -> OutgoingView {
        OutgoingView { to: self.to@, message: self.message@ }
    }
}

/// The views of a sequence of outgoing messages.
pub open spec fn outgoing_views(v: Seq<Outgoing>) -> Seq<OutgoingView> {
    v.map_values(|o: Outgoing| o@)
}

/// What the consensus module asks of the code that runs it.
#[derive(Clone, Debug, PartialEq, Eq)]
pub enum Action {
    /// Write a message on a connection.
    Send(Outgoing),
    /// Restart the clock that measures the time since the last sign of a leader.
    ResetElectionClock,
    /// Stop any earlier heartbeat round and send heartbeats of this term every second.
    StartHeartbeats(usize),
    /// Stop any earlier heartbeat check and start a new one.
    StartHeartbeatCheck,
    /// Run the election timer from the current term.
    RunElectionTimer,
}

/// The mathematical value of an `Action`.
pub enum ActionView {
    Send(OutgoingView),
    ResetElectionClock,
    StartHeartbeats(usize),
    StartHeartbeatCheck,
    RunElectionTimer,
}

impl View for Action {
    type V = ActionView;

    open spec fn view(&self) -> ActionView {
        match self {
            Action::Send(o) => ActionView::Send(o@),
            Action::ResetElectionClock => ActionView::ResetElectionClock,
            Action::StartHeartbeats(t) => ActionView::StartHeartbeats(*t),
            Action::StartHeartbeatCheck => ActionView::StartHeartbeatCheck,
            Action::RunElectionTimer => ActionView::RunElectionTimer,
        }
    }
}

/// The views of a sequence of actions.
pub open spec fn action_views(v: Seq<Action>) -> Seq<ActionView> {
    v.map_values(|a: Action| a@)
}

/// The view of an optional name.
pub open spec fn opt_view(o: Option<String>) -> Option<Seq<char>> {
    match o {
        Some(s) => Some(s@),
        None => None,
    }
}

/// `s` without the first occurrence of `id`, if there is one.
pub open spec fn remove_id(s: Seq<Seq<char>>, id: Seq<char>) -> Seq<Seq<char>> {
    if s.contains(id) {
        s.remove(s.index_of(id))
    } else {
        s
    }
}

/// The same message to each of the nodes `ids`, in their order.
pub open spec fn to_all(ids: Seq<Seq<char>>, message: PeerMessageView) -> Seq<OutgoingView> {
    Seq::new(ids.len(), |i: int| OutgoingView { to: ids[i], message })
}

/// A send action for each message, in order.
pub open spec fn send_all(v: Seq<OutgoingView>) -> Seq<ActionView> {
    v.map_values(|o: OutgoingView| ActionView::Send(o))
}

/// What a node that has just become leader asks for: a coordinator notice to each
/// connection, then heartbeats of its term.
pub open spec fn leader_actions(ids: Seq<Seq<char>>, node_id: Seq<char>, term: usize) -> Seq<
    ActionView,
> {
    send_all(to_all(ids, PeerMessageView::Coordinator { id: node_id, term })).push(
        ActionView::StartHeartbeats(term),
    )
}

/// The votes that a node holds after counting a vote of `vote_term` that is not
/// newer than its own term: one more where the terms are equal.
pub open spec fn counted_votes(s: ConsensusModule, vote_term: u16) -> Option<u16> {
    if vote_term as usize == s.current_term {
        match s.votes {
            Some(v) => Some((v + 1) as u16),
            None => None,
        }
    } else {
        s.votes
    }
}

/// `votes` are a majority: more than half of `connections` (counted modulo 2^16).
pub open spec fn has_majority(votes: u16, connections: nat) -> bool {
    votes >= (connections as u16) / 2 + 1
}

/// What a node that starts an election asks for: its election clock restarts, then a
/// vote request of `term` goes to each of `ids`.
pub open spec fn election_actions(ids: Seq<Seq<char>>, node_id: Seq<char>, term: usize) -> Seq<
    ActionView,
> {
    seq![ActionView::ResetElectionClock] + send_all(
        to_all(ids, PeerMessageView::StartElection { id: node_id, term }),
    )
}

/// The outcome of starting an election: the term goes up by one, the node becomes a
/// candidate (or leader, where it holds no connection), the election clock restarts and
/// a vote request of the new term goes to each connection; nothing else changes.
pub open spec fn election_started(
    before: ConsensusModule,
    after: ConsensusModule,
    actions: Seq<Action>,
) -> bool {
    &&& after.current_term == before.current_term + 1
    &&& after.state == if before.connections.len() == 0 {
        State::Leader
    } else {
        State::Candidate
    }
    &&& after == (ConsensusModule {
        state: after.state,
        current_term: after.current_term,
        ..before
    })
    &&& action_views(actions) == election_actions(
        before.ids(),
        before.node_id@,
        after.current_term,
    )
}

/// The notices of lost connections that a leader sends after a heartbeat round: for
/// each name in `failed`, in order, a notice to each of `ids`.
pub open spec fn down_notices(failed: Seq<Seq<char>>, ids: Seq<Seq<char>>) -> Seq<OutgoingView>
    decreases failed.len(),
{
    if failed.len() == 0 {
        Seq::empty()
    } else {
        down_notices(failed.drop_last(), ids) + to_all(
            ids,
            PeerMessageView::ConnectionDown { id: failed.last() },
        )
    }
}

/// `s` after removing each name of `gone`, one after the other.
pub open spec fn remove_all(s: Seq<Seq<char>>, gone: Seq<Seq<char>>) -> Seq<Seq<char>>
    decreases gone.len(),
{
    if gone.len() == 0 {
        s
    } else {
        remove_id(remove_all(s, gone.drop_last()), gone.last())
    }
}

/// The answer to a vote request of `term` from `candidate`, if any: a node in a later
/// term points the candidate to its leader; a node that has not voted yet, or that sees
/// a later term, votes; a node of the same term that has voted refuses. Only a
/// connected candidate gets an answer.
pub open spec fn vote_reply(s: ConsensusModule, term: usize, candidate: Seq<char>) -> Option<
    OutgoingView,
> {
    if !s.ids().contains(candidate) {
        None
    } else if term < s.current_term {
        match s.leader_id {
            Some(l) => Some(
                OutgoingView {
                    to: candidate,
                    message: PeerMessageView::NewLeader { id: l@, term: s.current_term },
                },
            ),
            None => None,
        }
    } else if s.last_vote is None || s.last_vote == Some(0usize) || term > s.current_term {
        Some(
            OutgoingView {
                to: candidate,
                message: PeerMessageView::RequestAnswer { msg: tag_vote(), term },
            },
        )
    } else {
        Some(
            OutgoingView {
                to: candidate,
                message: PeerMessageView::RequestAnswer { msg: tag_no(), term: s.current_term },
            },
        )
    }
}

/// The last vote recorded after a vote request of `term`: the first request that is
/// not behind in term is recorded.
pub open spec fn last_vote_after(s: ConsensusModule, term: usize) -> Option<usize> {
    if term >= s.current_term && (s.last_vote is None || s.last_vote == Some(0usize)) {
        Some(term)
    } else {
        s.last_vote
    }
}

/// What a heartbeat of `term` that is not ahead of the node asks for: the election
/// clock restarts, and the leader, where it is known and connected, gets an
/// acknowledgement.
pub open spec fn heartbeat_actions(s: ConsensusModule, term: u16) -> Seq<ActionView> {
    match s.leader_id {
        Some(l) => if s.ids().contains(l@) {
            seq![
                ActionView::ResetElectionClock,
                ActionView::Send(OutgoingView { to: l@, message: PeerMessageView::Ack { term } }),
            ]
        } else {
            seq![ActionView::ResetElectionClock]
        },
        None => seq![ActionView::ResetElectionClock],
    }
}

/// A draw of `rand::random::<u64>()`, from the generator of the calling thread.
/// Nothing is promised of the value: any `u64` may come back.
#[verifier::external_body]
fn random_u64() -> u64 {
    rand::random::<u64>()
}

/// The election timeout, in milliseconds, for a random draw `r`.
pub fn timeout_from_random(r: u64) -> (ms: u64)
    ensures
        ms == 1000 + r % 150,
{
    1000 + r % 150
}

/// How a node that has lost its connection reconnects: the address to connect to and
/// what to send once connected.
pub struct ReconnectPlan {
    pub node_id: String,
    pub address: String,
    pub greeting: ID,
    pub leader: Option<NewLeader>,
}

/// A node to connect to at start: its name and its address.
pub struct ConnectTarget {
    pub id: String,
    pub address: String,
}

/// The views of a sequence of connection targets.
pub open spec fn target_views(v: Seq<ConnectTarget>) -> Seq<(Seq<char>, Seq<char>)> {
    v.map_values(|t: ConnectTarget| (t.id@, t.address@))
}

/// Is `n`, whose port reads `p`, the node itself (listening at `self_ip`, `self_port`)?
pub open spec fn is_self(n: Node, p: int, self_ip: Seq<char>, self_port: int) -> bool {
    n.ip@ == self_ip && p + PORT_OFFSET == self_port
}

/// The nodes that a node connects to at start, with the addresses it connects to: the
/// listed nodes in order, each at the address where it listens (`listen_text`: its port
/// plus `PORT_OFFSET`), leaving out those whose port is
/// not a number and the node itself; on a first run the list ends at the node itself.
pub open spec fn connect_targets(
    nodes: Seq<Node>,
    self_ip: Seq<char>,
    self_port: int,
    first_run: bool,
) -> Seq<(Seq<char>, Seq<char>)>
    decreases nodes.len(),
{
    if nodes.len() == 0 {
        Seq::empty()
    } else {
        let n = nodes[0];
        let rest = connect_targets(nodes.drop_first(), self_ip, self_port, first_run);
        match parse_unsigned(n.port@, usize::MAX as int) {
            None => rest,
            Some(p) => if is_self(n, p, self_ip, self_port) {
                if first_run {
                    Seq::empty()
                } else {
                    rest
                }
            } else {
                seq![(n.name@, listen_text(n.ip@, p as usize))] + rest
            },
        }
    }
}

/// Each port that is read on the way through `nodes` leaves room for `PORT_OFFSET`.
pub open spec fn ports_fit(nodes: Seq<Node>, self_ip: Seq<char>, self_port: int, first_run: bool) -> bool
    decreases nodes.len(),
{
    if nodes.len() == 0 {
        true
    } else {
        let n = nodes[0];
        let rest = ports_fit(nodes.drop_first(), self_ip, self_port, first_run);
        match parse_unsigned(n.port@, usize::MAX as int) {
            None => rest,
            Some(p) => p + PORT_OFFSET <= usize::MAX && if is_self(n, p, self_ip, self_port) {
                first_run || rest
            } else {
                rest
            },
        }
    }
}

/// The state after counting a vote of `vote_term`, as `check_votes` counts it: a newer
/// term (this node's term taken modulo 2^16) makes a follower with no votes; otherwise
/// the vote is counted, and a majority makes a node that is not yet leader the leader.
pub open spec fn votes_counted(before: ConsensusModule, vote_term: u16, after: ConsensusModule) -> bool {
    if vote_term > (before.current_term as u16) {
        after == (ConsensusModule { state: State::Follower, votes: Some(0u16), ..before })
    } else {
        match counted_votes(before, vote_term) {
            None => after == before,
            Some(v) => if has_majority(v, before.connections.len() as nat) && before.state
                != State::Leader {
                after == (ConsensusModule {
                    votes: Some(v),
                    state: State::Leader,
                    leader_id: Some(before.node_id),
                    ..before
                })
            } else {
                after == (ConsensusModule { votes: Some(v), ..before })
            },
        }
    }
}

/// The messages that reach the consensus module of a node.
pub enum Incoming {
    AddNode(AddNode),
    RequestedOurVote(RequestedOurVote),
    Vote(Vote),
    ConnectionDown(ConnectionDown),
    NewLeader(NewLeader),
    HB(HB),
    No(No),
    NewConnection(NewConnection),
    Reconnection(Reconnection),
    UpdateID(UpdateID),
    AskIfLeader,
}

/// `after` differs from `before` in its connections at most.
pub open spec fn same_but_connections(before: ConsensusModule, after: ConsensusModule) -> bool {
    after == (ConsensusModule { connections: after.connections, ..before })
}

/// `ids` with `id` added at the end, where it is not there yet.
pub open spec fn add_id(ids: Seq<Seq<char>>, id: Seq<char>) -> Seq<Seq<char>> {
    if ids.contains(id) {
        ids
    } else {
        ids.push(id)
    }
}

/// `ids` after the connection `old_id`, where held, takes the name `new_id`.
pub open spec fn rename_id(ids: Seq<Seq<char>>, old_id: Seq<char>, new_id: Seq<char>) -> Seq<
    Seq<char>,
> {
    if ids.contains(old_id) {
        add_id(remove_id(ids, old_id), new_id)
    } else {
        ids
    }
}

/// How the state of a node changes when it handles `msg`: `after` is the state that
/// the handler of that message leaves.
pub open spec fn handled(before: ConsensusModule, msg: Incoming, after: ConsensusModule) -> bool {
    match msg {
        Incoming::AddNode(m) => after.ids() == add_id(before.ids(), m.id@) && same_but_connections(
            before,
            after,
        ),
        Incoming::NewConnection(m) => after.ids() == add_id(before.ids(), m.id_connection@)
            && same_but_connections(before, after),
        Incoming::ConnectionDown(m) => after.ids() == remove_id(before.ids(), m.id@)
            && same_but_connections(before, after),
        Incoming::UpdateID(m) => after.ids() == rename_id(before.ids(), m.old_id@, m.new_id@)
            && same_but_connections(before, after),
        Incoming::RequestedOurVote(m) => after == (ConsensusModule {
            last_vote: last_vote_after(before, m.term),
            ..before
        }),
        Incoming::Vote(m) => votes_counted(before, m.term as u16, after),
        Incoming::NewLeader(m) => after == (ConsensusModule {
            leader_id: Some(m.id),
            state: if m.id@ == before.node_id@ {
                before.state
            } else {
                State::Follower
            },
            current_term: if before.current_term < m.term {
                m.term
            } else {
                before.current_term
            },
            ..before
        }),
        Incoming::HB(m) => if before.current_term < m.term as usize {
            after == (ConsensusModule { current_term: m.term as usize, ..before })
        } else {
            after == before
        },
        Incoming::No(m) => after == if m.term > (before.current_term as u16) {
            ConsensusModule { state: State::Follower, ..before }
        } else {
            before
        },
        Incoming::Reconnection(_) => after == before,
        Incoming::AskIfLeader => after == before,
    }
}

/// What a timer asks for after one look at the clock.
pub enum TimerStep {
    /// The timer has nothing more to do.
    Stop,
    /// Look again later.
    Wait,
    /// An election was started: carry out these actions.
    Election(Vec<Action>),
}

/// The position of `id` among `names`, if it is there.
pub fn position(names: &Vec<String>, id: &String) -> (r: Option<usize>)
    ensures
        match r {
            Some(i) => i < names.len() && views(names@)[i as int] == id@,
            None => !views(names@).contains(id@),
        },
{
    let mut i: usize = 0;
    while i < names.len()
        invariant
            i <= names.len(),
            forall|j: int| 0 <= j < i ==> views(names@)[j] != id@,
        decreases names.len() - i,
    {
        if names[i] == *id {
            return Some(i);
        }
        i = i + 1;
    }
    None
}

/// Removes `id` from `names`, in which no name occurs twice; tells whether it was there.
pub fn remove_name(names: &mut Vec<String>, id: &String) -> (r: bool)
    requires
        views(old(names)@).no_duplicates(),
    ensures
        views(final(names)@).no_duplicates(),
        r == views(old(names)@).contains(id@),
        views(final(names)@) == remove_id(views(old(names)@), id@),
        !views(final(names)@).contains(id@),
{
    match position(names, id) {
        Some(i) => {
            let ghost s = views(old(names)@);
            assert(s.contains(id@));
            assert(s.index_of(id@) == i) by {
                let k = s.index_of(id@);
                assert(s[k] == id@);
            }
            names.remove(i);
            let ghost t = views(names@);
            assert(t =~= s.remove(i as int));
            proof {
                crate::laws::lemma_remove_id(s, id@);
            }
            true
        },
        None => false,
    }
}

/// Appends a send action for each of `outs`, in order.
fn push_sends(out: &mut Vec<Action>, outs: &Vec<Outgoing>)
    ensures
        action_views(final(out)@) == action_views(old(out)@) + send_all(outgoing_views(outs@)),
{
    let ghost start = action_views(out@);
    let mut i: usize = 0;
    while i < outs.len()
        invariant
            i <= outs.len(),
            out.len() == start.len() + i,
            action_views(out@) == start + send_all(outgoing_views(outs@)).take(i as int),
        decreases outs.len() - i,
    {
        let o = Outgoing { to: outs[i].to.clone(), message: outs[i].message.duplicate() };
        assert(outgoing_views(outs@)[i as int] == outs@[i as int]@);
        assert(Action::Send(o)@ == send_all(outgoing_views(outs@))[i as int]);
        let ghost before = out@;
        out.push(Action::Send(o));
        assert(out@ == before.push(Action::Send(o)));
        assert forall|j: int| 0 <= j < out.len() implies #[trigger] action_views(out@)[j] == (
        start + send_all(outgoing_views(outs@)).take(i + 1))[j] by {
            if j < before.len() {
                assert(action_views(before)[j] == action_views(out@)[j]);
            }
        }
        assert(action_views(out@) =~= start + send_all(outgoing_views(outs@)).take(i + 1));
        i = i + 1;
    }
    assert(send_all(outgoing_views(outs@)).take(i as int) =~= send_all(outgoing_views(outs@)));
}

/// The state by which a node takes part in leader election.
pub struct ConsensusModule {
    /// The names of the nodes that this node holds a connection to, each once.
    pub connections: Vec<String>,
    pub node_id: String,
    pub ip: String,
    pub port: usize,
    pub state: State,
    pub current_term: usize,
    pub votes: Option<u16>,
    pub last_vote: Option<usize>,
    pub leader_id: Option<String>,
}

impl ConsensusModule {
    /// The names of the connected nodes.
    pub open spec fn ids(&self) -> Seq<Seq<char>> {
        views(self.connections@)
    }

    /// No node is connected twice.
    pub open spec fn wf(&self) -> bool {
        self.ids().no_duplicates()
    }

    /// Whether a connection to `id` is held.
    pub fn id_is_connected(&self, id: &String) -> (r: bool)
        ensures
            r == self.ids().contains(id@),
    {
        position(&self.connections, id).is_some()
    }

    /// Holds a connection to `id` from now on; one already held stays as it is.
    pub fn add_connection(&mut self, id: String)
        requires
            old(self).wf(),
        ensures
            final(self).wf(),
            final(self).ids() == if old(self).ids().contains(id@) {
                old(self).ids()
            } else {
                old(self).ids().push(id@)
            },
            *final(self) == (ConsensusModule { connections: final(self).connections, ..*old(self) }),
    {
        if position(&self.connections, &id).is_none() {
            let ghost v = id@;
            self.connections.push(id);
            assert(self.ids() =~= old(self).ids().push(v));
        }
    }

    /// Drops the connection to `id`, if one is held; tells whether one was.
    pub fn remove_connection(&mut self, id: &String) -> (r: bool)
        requires
            old(self).wf(),
        ensures
            final(self).wf(),
            r == old(self).ids().contains(id@),
            final(self).ids() == remove_id(old(self).ids(), id@),
            !final(self).ids().contains(id@),
            *final(self) == (ConsensusModule { connections: final(self).connections, ..*old(self) }),
    {
        remove_name(&mut self.connections, id)
    }

    /// The same message to each connection, in order.
    fn broadcast(&self, message: &PeerMessage) -> (r: Vec<Outgoing>)
        ensures
            outgoing_views(r@) == to_all(self.ids(), message@),
    {
        let mut out: Vec<Outgoing> = Vec::new();
        let mut i: usize = 0;
        while i < self.connections.len()
            invariant
                i <= self.connections.len(),
                out.len() == i,
                outgoing_views(out@) == to_all(self.ids(), message@).take(i as int),
            decreases self.connections.len() - i,
        {
            let o = Outgoing { to: self.connections[i].clone(), message: message.duplicate() };
            assert(o@ == to_all(self.ids(), message@)[i as int]);
            out.push(o);
            assert(outgoing_views(out@) =~= to_all(self.ids(), message@).take(i + 1));
            i = i + 1;
        }
        assert(to_all(self.ids(), message@).take(i as int) =~= to_all(self.ids(), message@));
        out
    }

    /// Starts an election: raises the term by one, becomes a candidate (or leader at
    /// once, where no other node is connected), restarts the election clock and asks each
    /// connected node for its vote. The connections that cannot take their request are
    /// then dropped with `election_requests_failed`.
    pub fn start_election(&mut self) -> (r: Vec<Action>)
        requires
            old(self).wf(),
            old(self).current_term < usize::MAX,
        ensures
            final(self).wf(),
            final(self).current_term > old(self).current_term,
            election_started(*old(self), *final(self), r@),
    {
        self.state = State::Candidate;
        self.current_term = self.current_term + 1;
        if self.connections.len() < 1 {
            self.state = State::Leader;
        }
        let request = PeerMessage::StartElection(
            StartElection { id: self.node_id.clone(), term: self.current_term },
        );
        let requests = self.broadcast(&request);
        let mut out: Vec<Action> = Vec::new();
        out.push(Action::ResetElectionClock);
        assert(action_views(out@) =~= seq![ActionView::ResetElectionClock]);
        push_sends(&mut out, &requests);
        out
    }

    /// The vote requests to the connections `failed` could not be sent: those
    /// connections are dropped.
    pub fn election_requests_failed(&mut self, failed: &Vec<String>)
        requires
            old(self).wf(),
        ensures
            final(self).wf(),
            final(self).ids() == remove_all(old(self).ids(), views(failed@)),
            forall|k: int|
                0 <= k < failed@.len() ==> !final(self).ids().contains(#[trigger] failed@[k]@),
            same_but_connections(*old(self), *final(self)),
    {
        self.remove_connections(failed);
    }

    /// Drops the connections `failed`, one after the other.
    fn remove_connections(&mut self, failed: &Vec<String>)
        requires
            old(self).wf(),
        ensures
            final(self).wf(),
            final(self).ids() == remove_all(old(self).ids(), views(failed@)),
            forall|k: int|
                0 <= k < failed@.len() ==> !final(self).ids().contains(#[trigger] failed@[k]@),
            same_but_connections(*old(self), *final(self)),
    {
        let ghost ids0 = self.ids();
        let mut j: usize = 0;
        while j < failed.len()
            invariant
                j <= failed.len(),
                self.wf(),
                self.ids() == remove_all(ids0, views(failed@).take(j as int)),
                ids0 == old(self).ids(),
                *self == (ConsensusModule { connections: self.connections, ..*old(self) }),
            decreases failed.len() - j,
        {
            self.remove_connection(&failed[j]);
            assert(views(failed@).take(j + 1).drop_last() =~= views(failed@).take(j as int));
            assert(views(failed@).take(j + 1).last() == failed@[j as int]@);
            j = j + 1;
        }
        assert(views(failed@).take(j as int) =~= views(failed@));
        proof {
            crate::laws::lemma_remove_all(ids0, views(failed@));
            assert forall|k: int| 0 <= k < failed@.len() implies !self.ids().contains(
                #[trigger] failed@[k]@,
            ) by {
                assert(views(failed@)[k] == failed@[k]@);
            }
        }
    }

    /// A coordinator notice of this node and its term to each connection.
    pub fn announce_leader(&self) -> (r: Vec<Outgoing>)
        ensures
            outgoing_views(r@) == to_all(
                self.ids(),
                PeerMessageView::Coordinator { id: self.node_id@, term: self.current_term },
            ),
    {
        let notice = PeerMessage::Coordinator(
            Coordinator { id: self.node_id.clone(), term: self.current_term },
        );
        self.broadcast(&notice)
    }

    /// Makes this node the leader: it announces itself to each connection and asks for
    /// heartbeats of its term to start.
    pub fn become_leader(&mut self) -> (r: Vec<Action>)
        requires
            old(self).wf(),
        ensures
            final(self).wf(),
            *final(self) == (ConsensusModule {
                state: State::Leader,
                leader_id: Some(old(self).node_id),
                ..*old(self)
            }),
            action_views(r@) == leader_actions(
                old(self).ids(),
                old(self).node_id@,
                old(self).current_term,
            ),
    {
        self.state = State::Leader;
        self.leader_id = Some(self.node_id.clone());
        let notices = self.announce_leader();
        let mut out: Vec<Action> = Vec::new();
        assert(action_views(out@) =~= Seq::<ActionView>::empty());
        push_sends(&mut out, &notices);
        out.push(Action::StartHeartbeats(self.current_term));
        assert(action_views(out@) =~= leader_actions(
            old(self).ids(),
            old(self).node_id@,
            old(self).current_term,
        ));
        out
    }

    /// Counts a vote of `vote_term`. A newer term makes this node a follower with no
    /// votes; a vote of its own term adds one; a majority of the connections makes a
    /// node that is not yet leader the leader.
    pub fn check_votes(&mut self, vote_term: u16) -> (r: Vec<Action>)
        requires
            old(self).wf(),
            vote_term <= (old(self).current_term as u16) && vote_term as usize
                == old(self).current_term && old(self).votes is Some ==> old(self).votes->0
                < u16::MAX,
        ensures
            votes_counted(*old(self), vote_term, *final(self)),
            final(self).wf(),
            final(self).current_term == old(self).current_term,
            vote_term > (old(self).current_term as u16) ==> *final(self) == (ConsensusModule {
                state: State::Follower,
                votes: Some(0u16),
                ..*old(self)
            }) && r@.len() == 0,
            vote_term <= (old(self).current_term as u16) ==> match counted_votes(
                *old(self),
                vote_term,
            ) {
                None => *final(self) == *old(self) && r@.len() == 0,
                Some(v) => if has_majority(v, old(self).connections.len() as nat) && old(self).state
                    != State::Leader {
                    &&& *final(self) == (ConsensusModule {
                        votes: Some(v),
                        state: State::Leader,
                        leader_id: Some(old(self).node_id),
                        ..*old(self)
                    })
                    &&& action_views(r@) == leader_actions(
                        old(self).ids(),
                        old(self).node_id@,
                        old(self).current_term,
                    )
                } else {
                    *final(self) == (ConsensusModule { votes: Some(v), ..*old(self) }) && r@.len()
                        == 0
                },
            },
    {
        if vote_term > self.current_term as u16 {
            self.state = State::Follower;
            self.votes = Some(0);
            return Vec::new();
        } else if vote_term as usize == self.current_term {
            match self.votes {
                Some(votes) => {
                    self.votes = Some(votes + 1);
                },
                None => {
                    return Vec::new();
                },
            }
        }
        match self.votes {
            Some(votes) => {
                if votes >= (self.connections.len() as u16 / 2) + 1 && self.state != State::Leader {
                    return self.become_leader();
                }
                Vec::new()
            },
            None => Vec::new(),
        }
    }

    /// A vote of `msg.term` has arrived: it is counted as `check_votes` counts a vote of
    /// that term taken modulo 2^16.
    pub fn handle_vote(&mut self, msg: &Vote) -> (r: Vec<Action>)
        requires
            old(self).wf(),
            (msg.term as u16) <= (old(self).current_term as u16) && (msg.term as u16) as usize
                == old(self).current_term && old(self).votes is Some ==> old(self).votes->0
                < u16::MAX,
        ensures
            handled(*old(self), Incoming::Vote(*msg), *final(self)),
            final(self).wf(),
            final(self).current_term == old(self).current_term,
            (msg.term as u16) > (old(self).current_term as u16) ==> *final(self) == (
            ConsensusModule { state: State::Follower, votes: Some(0u16), ..*old(self) }) && r@.len()
                == 0,
            (msg.term as u16) <= (old(self).current_term as u16) ==> match counted_votes(
                *old(self),
                msg.term as u16,
            ) {
                None => *final(self) == *old(self) && r@.len() == 0,
                Some(v) => if has_majority(v, old(self).connections.len() as nat) && old(self).state
                    != State::Leader {
                    &&& *final(self) == (ConsensusModule {
                        votes: Some(v),
                        state: State::Leader,
                        leader_id: Some(old(self).node_id),
                        ..*old(self)
                    })
                    &&& action_views(r@) == leader_actions(
                        old(self).ids(),
                        old(self).node_id@,
                        old(self).current_term,
                    )
                } else {
                    *final(self) == (ConsensusModule { votes: Some(v), ..*old(self) }) && r@.len()
                        == 0
                },
            },
    {
        self.check_votes(msg.term as u16)
    }

    /// A request for this node's vote: the answer goes back to the candidate, and the
    /// first request that is not behind in term is recorded as the last vote.
    pub fn handle_requested_our_vote(&mut self, msg: &RequestedOurVote) -> (r: Option<Outgoing>)
        requires
            old(self).wf(),
        ensures
            handled(*old(self), Incoming::RequestedOurVote(*msg), *final(self)),
            final(self).wf(),
            *final(self) == (ConsensusModule {
                last_vote: last_vote_after(*old(self), msg.term),
                ..*old(self)
            }),
            match r {
                Some(o) => vote_reply(*old(self), msg.term, msg.candidate_id@) == Some(o@),
                None => vote_reply(*old(self), msg.term, msg.candidate_id@) is None,
            },
    {
        let connected = self.id_is_connected(&msg.candidate_id);
        if msg.term < self.current_term {
            if connected {
                match &self.leader_id {
                    Some(leader_id) => {
                        return Some(
                            Outgoing {
                                to: msg.candidate_id.clone(),
                                message: PeerMessage::NewLeader(
                                    NewLeader { id: leader_id.clone(), term: self.current_term },
                                ),
                            },
                        );
                    },
                    None => {},
                }
            }
            return None;
        }
        proof {
            reveal_strlit("VOTE");
            reveal_strlit("NO");
            assert("VOTE"@ =~= tag_vote());
            assert("NO"@ =~= tag_no());
        }
        if self.last_vote.is_none() || self.last_vote == Some(0usize) {
            self.last_vote = Some(msg.term);
            if connected {
                return Some(
                    Outgoing {
                        to: msg.candidate_id.clone(),
                        message: PeerMessage::RequestAnswer(
                            RequestAnswer { msg: String::from_str("VOTE"), term: msg.term },
                        ),
                    },
                );
            }
        } else if msg.term > self.current_term {
            if connected {
                return Some(
                    Outgoing {
                        to: msg.candidate_id.clone(),
                        message: PeerMessage::RequestAnswer(
                            RequestAnswer { msg: String::from_str("VOTE"), term: msg.term },
                        ),
                    },
                );
            }
        } else if msg.term == self.current_term {
            if connected {
                return Some(
                    Outgoing {
                        to: msg.candidate_id.clone(),
                        message: PeerMessage::RequestAnswer(
                            RequestAnswer { msg: String::from_str("NO"), term: self.current_term },
                        ),
                    },
                );
            }
        }
        None
    }

    /// A heartbeat of `msg.term`. A node behind in term only catches up; otherwise the
    /// election clock restarts and the known, connected leader gets an acknowledgement.
    /// Where that acknowledgement cannot be sent, the caller calls `ack_failed`.
    pub fn handle_hb(&mut self, msg: &HB) -> (r: Vec<Action>)
        requires
            old(self).wf(),
        ensures
            handled(*old(self), Incoming::HB(*msg), *final(self)),
            final(self).wf(),
            final(self).current_term >= old(self).current_term,
            old(self).current_term < msg.term as usize ==> *final(self) == (ConsensusModule {
                current_term: msg.term as usize,
                ..*old(self)
            }) && r@.len() == 0,
            old(self).current_term >= msg.term as usize ==> *final(self) == *old(self)
                && action_views(r@) == heartbeat_actions(*old(self), msg.term),
    {
        if self.current_term < msg.term as usize {
            self.current_term = msg.term as usize;
            return Vec::new();
        }
        let mut out: Vec<Action> = Vec::new();
        out.push(Action::ResetElectionClock);
        match &self.leader_id {
            Some(leader_id) => {
                if self.id_is_connected(leader_id) {
                    out.push(
                        Action::Send(
                            Outgoing {
                                to: leader_id.clone(),
                                message: PeerMessage::Ack(Ack { term: msg.term }),
                            },
                        ),
                    );
                }
            },
            None => {},
        }
        assert(action_views(out@) =~= heartbeat_actions(*old(self), msg.term));
        out
    }

    /// The acknowledgement of a heartbeat could not be sent: the connection to the
    /// leader is dropped and the election timer is to run.
    pub fn ack_failed(&mut self) -> (r: Vec<Action>)
        requires
            old(self).wf(),
        ensures
            final(self).wf(),
            final(self).ids() == match old(self).leader_id {
                Some(l) => remove_id(old(self).ids(), l@),
                None => old(self).ids(),
            },
            same_but_connections(*old(self), *final(self)),
            action_views(r@) == seq![ActionView::RunElectionTimer],
    {
        match self.leader_id.clone() {
            Some(leader_id) => {
                self.remove_connection(&leader_id);
            },
            None => {},
        }
        let mut out: Vec<Action> = Vec::new();
        out.push(Action::RunElectionTimer);
        assert(action_views(out@) =~= seq![ActionView::RunElectionTimer]);
        out
    }

    /// A refusal of `msg.term`: a refusal from a later term (this node's term taken
    /// modulo 2^16) makes this node a follower.
    pub fn handle_no(&mut self, msg: &No)
        requires
            old(self).wf(),
        ensures
            handled(*old(self), Incoming::No(*msg), *final(self)),
            final(self).wf(),
            *final(self) == if msg.term > (old(self).current_term as u16) {
                ConsensusModule { state: State::Follower, ..*old(self) }
            } else {
                *old(self)
            },
    {
        if msg.term > self.current_term as u16 {
            self.state = State::Follower;
        }
    }

    /// News of a leader: it is recorded, a node that is not that leader becomes a
    /// follower, the term catches up with the leader's, and the heartbeat check restarts.
    pub fn handle_new_leader(&mut self, msg: NewLeader) -> (r: Vec<Action>)
        requires
            old(self).wf(),
        ensures
            handled(*old(self), Incoming::NewLeader(msg), *final(self)),
            final(self).wf(),
            final(self).current_term >= old(self).current_term,
            *final(self) == (ConsensusModule {
                leader_id: Some(msg.id),
                state: if msg.id@ == old(self).node_id@ {
                    old(self).state
                } else {
                    State::Follower
                },
                current_term: if old(self).current_term < msg.term {
                    msg.term
                } else {
                    old(self).current_term
                },
                ..*old(self)
            }),
            action_views(r@) == seq![ActionView::StartHeartbeatCheck],
    {
        if msg.id != self.node_id {
            self.state = State::Follower;
        }
        self.leader_id = Some(msg.id);
        if self.current_term < msg.term {
            self.current_term = msg.term;
        }
        let mut out: Vec<Action> = Vec::new();
        out.push(Action::StartHeartbeatCheck);
        assert(action_views(out@) =~= seq![ActionView::StartHeartbeatCheck]);
        out
    }

    /// A node announced itself: its connection is held from now on.
    pub fn handle_add_node(&mut self, msg: AddNode)
        requires
            old(self).wf(),
        ensures
            handled(*old(self), Incoming::AddNode(msg), *final(self)),
            final(self).wf(),
            final(self).ids() == if old(self).ids().contains(msg.id@) {
                old(self).ids()
            } else {
                old(self).ids().push(msg.id@)
            },
            *final(self) == (ConsensusModule { connections: final(self).connections, ..*old(self) }),
    {
        self.add_connection(msg.id);
    }

    /// A connection was accepted from `msg.id_connection`: it is held from now on.
    pub fn handle_new_connection(&mut self, msg: NewConnection)
        requires
            old(self).wf(),
        ensures
            handled(*old(self), Incoming::NewConnection(msg), *final(self)),
            final(self).wf(),
            final(self).ids() == if old(self).ids().contains(msg.id_connection@) {
                old(self).ids()
            } else {
                old(self).ids().push(msg.id_connection@)
            },
            *final(self) == (ConsensusModule { connections: final(self).connections, ..*old(self) }),
    {
        self.add_connection(msg.id_connection);
    }

    /// The connection to `msg.id` was lost: it is dropped.
    pub fn handle_connection_down(&mut self, msg: &ConnectionDown)
        requires
            old(self).wf(),
        ensures
            handled(*old(self), Incoming::ConnectionDown(*msg), *final(self)),
            final(self).wf(),
            final(self).ids() == remove_id(old(self).ids(), msg.id@),
            *final(self) == (ConsensusModule { connections: final(self).connections, ..*old(self) }),
    {
        self.remove_connection(&msg.id);
    }

    /// Whether this node is the leader.
    pub fn is_leader(&self) -> (r: bool)
        ensures
            handled(*self, Incoming::AskIfLeader, *self),
            r == (self.state == State::Leader),
    {
        self.state == State::Leader
    }

    /// A random election timeout, in milliseconds: at least 1000 and less than 1150.
    pub fn election_timeout(&self) -> (ms: u64)
        ensures
            1000 <= ms < 1150,
    {
        timeout_from_random(random_u64())
    }

    /// One look at the clock by the election timer that was started in `term_started`,
    /// `elapsed_ms` after the election clock last restarted. A leader, or a node whose
    /// term moved on, stops the timer; once the timeout has passed an election starts.
    pub fn election_timer_step(&mut self, term_started: usize, elapsed_ms: u64, timeout_ms: u64) -> (r:
        TimerStep)
        requires
            old(self).wf(),
            old(self).state != State::Leader && term_started == old(self).current_term
                && elapsed_ms >= timeout_ms ==> old(self).current_term < usize::MAX,
        ensures
            final(self).wf(),
            old(self).state == State::Leader || term_started != old(self).current_term ==> r
                is Stop && *final(self) == *old(self),
            old(self).state != State::Leader && term_started == old(self).current_term
                && elapsed_ms >= timeout_ms ==> (r matches TimerStep::Election(v)
                && election_started(*old(self), *final(self), v@)),
            old(self).state != State::Leader && term_started == old(self).current_term
                && elapsed_ms < timeout_ms ==> r is Wait && *final(self) == *old(self),
    {
        if self.state == State::Leader {
            return TimerStep::Stop;
        }
        if term_started != self.current_term {
            return TimerStep::Stop;
        }
        if elapsed_ms >= timeout_ms {
            let sends = self.start_election();
            return TimerStep::Election(sends);
        }
        TimerStep::Wait
    }

    /// One tick of the heartbeat check, `elapsed_ms` after the election clock last
    /// restarted: a leader stops checking; once the timeout has passed without a
    /// heartbeat an election starts.
    pub fn heartbeat_check_step(&mut self, elapsed_ms: u64, timeout_ms: u64) -> (r: TimerStep)
        requires
            old(self).wf(),
            old(self).state != State::Leader && elapsed_ms >= timeout_ms ==> old(self).current_term
                < usize::MAX,
        ensures
            final(self).wf(),
            old(self).state == State::Leader ==> r is Stop && *final(self) == *old(self),
            old(self).state != State::Leader && elapsed_ms >= timeout_ms ==> (r matches TimerStep::Election(v)
                && election_started(*old(self), *final(self), v@)),
            old(self).state != State::Leader && elapsed_ms < timeout_ms ==> r is Wait
                && *final(self) == *old(self),
    {
        if self.state == State::Leader {
            return TimerStep::Stop;
        }
        if elapsed_ms >= timeout_ms {
            let sends = self.start_election();
            return TimerStep::Election(sends);
        }
        TimerStep::Wait
    }

    /// The heartbeats of one round of a leader of `term`: one to each connection.
    pub fn heartbeat_round(&self, term: usize) -> (r: Vec<Outgoing>)
        ensures
            outgoing_views(r@) == to_all(
                self.ids(),
                PeerMessageView::Heartbeat { term, id: self.node_id@ },
            ),
    {
        let beat = PeerMessage::Heartbeat(Heartbeat { term, id: self.node_id.clone() });
        self.broadcast(&beat)
    }

    /// After a heartbeat round in which the connections `failed` could not take their
    /// heartbeat: each remaining connection, in fact each connection held before, is told
    /// of each failed one, the failed connections are dropped, and the result tells
    /// whether this node is still the leader (if not, the caller stops it).
    pub fn heartbeat_failures(&mut self, failed: &Vec<String>) -> (r: (Vec<Outgoing>, bool))
        requires
            old(self).wf(),
        ensures
            final(self).wf(),
            outgoing_views(r.0@) == down_notices(views(failed@), old(self).ids()),
            final(self).ids() == remove_all(old(self).ids(), views(failed@)),
            forall|k: int|
                0 <= k < failed@.len() ==> !final(self).ids().contains(#[trigger] failed@[k]@),
            *final(self) == (ConsensusModule { connections: final(self).connections, ..*old(self) }),
            r.1 == (old(self).state == State::Leader),
    {
        let mut notices: Vec<Outgoing> = Vec::new();
        let mut k: usize = 0;
        while k < failed.len()
            invariant
                k <= failed.len(),
                outgoing_views(notices@) == down_notices(views(failed@).take(k as int), self.ids()),
            decreases failed.len() - k,
        {
            let notice = PeerMessage::ConnectionDown(ConnectionDown { id: failed[k].clone() });
            let mut batch = self.broadcast(&notice);
            let ghost before = notices@;
            let ghost added = batch@;
            notices.append(&mut batch);
            assert(outgoing_views(notices@) =~= outgoing_views(before) + outgoing_views(added));
            assert(views(failed@).take(k + 1).drop_last() =~= views(failed@).take(k as int));
            assert(views(failed@).take(k + 1).last() == failed@[k as int]@);
            k = k + 1;
        }
        assert(views(failed@).take(k as int) =~= views(failed@));
        self.remove_connections(failed);
        let keep = self.state == State::Leader;
        (notices, keep)
    }

    /// The handshake by which this node tells who it is.
    pub fn identity(&self, just_arrived: bool) -> (r: ID)
        ensures
            r == (ID { ip: self.ip, port: self.port, id: self.node_id, just_arrived }),
    {
        ID { ip: self.ip.clone(), port: self.port, id: self.node_id.clone(), just_arrived }
    }

    /// A request to reconnect to `msg.node_id`: nothing where that node is still
    /// connected; otherwise where to connect, the handshake to send (not just arrived)
    /// and, where a leader is known, the news of that leader to pass on.
    pub fn handle_reconnection(&self, msg: &Reconnection) -> (r: Option<ReconnectPlan>)
        ensures
            handled(*self, Incoming::Reconnection(*msg), *self),
            r is None <==> self.ids().contains(msg.node_id@),
            r matches Some(p) ==> {
                &&& p.node_id@ == msg.node_id@
                &&& p.address@ == address_text(msg.ip@, msg.port)
                &&& p.greeting == (ID {
                    ip: self.ip,
                    port: self.port,
                    id: self.node_id,
                    just_arrived: false,
                })
                &&& match self.leader_id {
                    Some(l) => p.leader == Some(NewLeader { id: l, term: self.current_term }),
                    None => p.leader is None,
                }
            },
    {
        if self.id_is_connected(&msg.node_id) {
            return None;
        }
        let leader = match &self.leader_id {
            Some(l) => Some(NewLeader { id: l.clone(), term: self.current_term }),
            None => None,
        };
        Some(
            ReconnectPlan {
                node_id: msg.node_id.clone(),
                address: socket_address(msg.ip.as_str(), msg.port),
                greeting: self.identity(false),
                leader,
            },
        )
    }

    /// The connection known as `msg.old_id`, if held, is known as `msg.new_id` from now on.
    pub fn update_id(&mut self, msg: &UpdateID)
        requires
            old(self).wf(),
        ensures
            final(self).wf(),
            final(self).ids() == if old(self).ids().contains(msg.old_id@) {
                let rest = remove_id(old(self).ids(), msg.old_id@);
                if rest.contains(msg.new_id@) {
                    rest
                } else {
                    rest.push(msg.new_id@)
                }
            } else {
                old(self).ids()
            },
            *final(self) == (ConsensusModule { connections: final(self).connections, ..*old(self) }),
    {
        if self.remove_connection(&msg.old_id) {
            self.add_connection(msg.new_id.clone());
        }
    }

    /// News of the known leader for the connected node `new_id`, if a leader is known.
    pub fn try_send_new_leader(&self, new_id: &String) -> (r: Option<Outgoing>)
        ensures
            match r {
                Some(o) => self.leader_id is Some && self.ids().contains(new_id@) && o@ == (
                OutgoingView {
                    to: new_id@,
                    message: PeerMessageView::NewLeader {
                        id: self.leader_id->0@,
                        term: self.current_term,
                    },
                }),
                None => self.leader_id is None || !self.ids().contains(new_id@),
            },
    {
        match &self.leader_id {
            None => None,
            Some(leader_id) => {
                if self.id_is_connected(new_id) {
                    Some(
                        Outgoing {
                            to: new_id.clone(),
                            message: PeerMessage::NewLeader(
                                NewLeader { id: leader_id.clone(), term: self.current_term },
                            ),
                        },
                    )
                } else {
                    None
                }
            },
        }
    }

    /// A connection told who is at its other end: where the old name is held, the
    /// connection takes the new one; where the peer expects a leader, the news of the
    /// known leader goes to it.
    pub fn handle_update_id(&mut self, msg: &UpdateID) -> (r: Option<Outgoing>)
        requires
            old(self).wf(),
        ensures
            handled(*old(self), Incoming::UpdateID(*msg), *final(self)),
            final(self).wf(),
            final(self).ids() == if old(self).ids().contains(msg.old_id@) {
                let rest = remove_id(old(self).ids(), msg.old_id@);
                if rest.contains(msg.new_id@) {
                    rest
                } else {
                    rest.push(msg.new_id@)
                }
            } else {
                old(self).ids()
            },
            *final(self) == (ConsensusModule { connections: final(self).connections, ..*old(self) }),
            !msg.expects_leader ==> r is None,
            msg.expects_leader ==> match r {
                Some(o) => final(self).leader_id is Some && final(self).ids().contains(msg.new_id@)
                    && o@ == (OutgoingView {
                    to: msg.new_id@,
                    message: PeerMessageView::NewLeader {
                        id: final(self).leader_id->0@,
                        term: final(self).current_term,
                    },
                }),
                None => final(self).leader_id is None || !final(self).ids().contains(msg.new_id@),
            },
    {
        if self.id_is_connected(&msg.old_id) {
            self.update_id(msg);
        }
        if msg.expects_leader {
            return self.try_send_new_leader(&msg.new_id);
        }
        None
    }

    /// The consensus module of a node starting up, and the nodes it is to connect to.
    /// The node listens at `self_port` plus `PORT_OFFSET`, the address that
    /// `RaftModule::listen_address` gives, and each target is the address at which that
    /// node listens (see `laws::lemma_targets_are_listeners`). The node starts as a
    /// follower in term 0 with no votes, no vote cast, no known leader and no connection;
    /// the caller connects to each target, sends it `identity(true)`, and adds the
    /// connections that succeed.
    pub fn start_connections(
        self_ip: String,
        self_port: usize,
        self_id: String,
        nodes_config: &NodesConfig,
        first_run: bool,
    ) -> (r: (ConsensusModule, Vec<ConnectTarget>))
        requires
            self_port + PORT_OFFSET <= usize::MAX,
            ports_fit(nodes_config.nodes@, self_ip@, self_port + PORT_OFFSET, first_run),
        ensures
            r.0.wf(),
            r.0 == (ConsensusModule {
                connections: r.0.connections,
                node_id: self_id,
                ip: self_ip,
                port: (self_port + PORT_OFFSET) as usize,
                state: State::Follower,
                current_term: 0,
                votes: Some(0u16),
                last_vote: None,
                leader_id: None,
            }),
            r.0.connections@.len() == 0,
            target_views(r.1@) == connect_targets(
                nodes_config.nodes@,
                self_ip@,
                self_port + PORT_OFFSET,
                first_run,
            ),
    {
        let self_port = self_port + PORT_OFFSET;
        let nodes = &nodes_config.nodes;
        let ghost all = nodes@;
        let mut targets: Vec<ConnectTarget> = Vec::new();
        let mut i: usize = 0;
        assert(all.skip(0) =~= all);
        while i < nodes.len()
            invariant_except_break
                all == nodes@,
                i <= nodes.len(),
                target_views(targets@) + connect_targets(
                    all.skip(i as int),
                    self_ip@,
                    self_port as int,
                    first_run,
                ) == connect_targets(all, self_ip@, self_port as int, first_run),
                ports_fit(all.skip(i as int), self_ip@, self_port as int, first_run),
            ensures
                target_views(targets@) == connect_targets(all, self_ip@, self_port as int, first_run),
            decreases nodes.len() - i,
        {
            let node = &nodes[i];
            let ghost here = all.skip(i as int);
            assert(here[0] == *node);
            assert(here.drop_first() =~= all.skip(i + 1));
            let ghost rest = connect_targets(all.skip(i + 1), self_ip@, self_port as int, first_run);
            match parse_usize(node.port.as_str()) {
                None => {},
                Some(p) => {
                    let node_port = p + PORT_OFFSET;
                    if node.ip == self_ip && node_port == self_port {
                        if first_run {
                            assert(connect_targets(here, self_ip@, self_port as int, first_run)
                                =~= Seq::<(Seq<char>, Seq<char>)>::empty());
                            assert(target_views(targets@) =~= target_views(targets@) + Seq::<
                                (Seq<char>, Seq<char>),
                            >::empty());
                            break;
                        }
                    } else {
                        let t = ConnectTarget {
                            id: node.name.clone(),
                            address: socket_address(node.ip.as_str(), node_port),
                        };
                        let ghost before = targets@;
                        targets.push(t);
                        assert(target_views(targets@) =~= target_views(before).push(
                            (t.id@, t.address@),
                        ));
                        assert(target_views(targets@) + rest =~= target_views(before) + (seq![
                            (t.id@, t.address@),
                        ] + rest));
                    }
                },
            }
            i = i + 1;
        }
        let module = ConsensusModule {
            connections: Vec::new(),
            node_id: self_id,
            ip: self_ip,
            port: self_port,
            state: State::Follower,
            current_term: 0,
            votes: Some(0),
            last_vote: None,
            leader_id: None,
        };
        (module, targets)
    }
}

} // verus!