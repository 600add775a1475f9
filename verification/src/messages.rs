use vstd::prelude::*;

verus! {

/// A connection to the node `id` is to be added.
#[derive(Clone, Debug, PartialEq, Eq)]
pub struct AddNode {
    pub id: String,
}

/// Informs the other nodes that a new leader has been elected.
#[derive(Clone, Debug, PartialEq, Eq)]
pub struct Coordinator {
    pub id: String,
    pub term: usize,
}

/// Information on the new leader.
#[derive(Clone, Debug, PartialEq, Eq)]
pub struct NewLeader {
    pub id: String,
    pub term: usize,
}

/// A vote received from the node `id`.
#[derive(Clone, Debug, PartialEq, Eq)]
pub struct Vote {
    pub id: String,
    pub term: usize,
}

/// The connection to the node `id` is to be removed.
#[derive(Clone, Debug, PartialEq, Eq)]
pub struct ConnectionDown {
    pub id: String,
}

/// A request to vote for the candidate `id` in `term`.
#[derive(Clone, Debug, PartialEq, Eq)]
pub struct StartElection {
    pub id: String,
    pub term: usize,
}

/// Sent by the leader to the other nodes to tell them that it is still alive.
#[derive(Clone, Debug, PartialEq, Eq)]
pub struct Heartbeat {
    pub term: usize,
    pub id: String,
}

/// A vote request has been received.
#[derive(Clone, Debug, PartialEq, Eq)]
pub struct RequestedOurVote {
    pub term: usize,
    pub candidate_id: String,
}

/// The answer to a vote request: `msg` is `VOTE` or `NO`.
#[derive(Clone, Debug, PartialEq, Eq)]
pub struct RequestAnswer {
    pub msg: String,
    pub term: usize,
}

/// A denied vote request, most likely because the candidate is behind in term.
#[derive(Clone, Debug, PartialEq, Eq)]
pub struct No {
    pub term: u16,
}

/// A heartbeat as a connection hands it to the consensus module.
#[derive(Clone, Debug, PartialEq, Eq)]
pub struct HB {
    pub term: u16,
    pub id: String,
}

/// The acknowledgement of a heartbeat.
#[derive(Clone, Debug, PartialEq, Eq)]
pub struct Ack {
    pub term: u16,
}

/// A connection accepted from the address `id_connection`.
#[derive(Clone, Debug, PartialEq, Eq)]
pub struct NewConnection {
    pub id_connection: String,
}

/// A request to reconnect to the node `node_id` at `ip`:`port`.
#[derive(Clone, Debug, PartialEq, Eq)]
pub struct Reconnection {
    pub ip: String,
    pub port: usize,
    pub node_id: String,
}

/// The handshake by which a node tells who it is.
#[derive(Clone, Debug, PartialEq, Eq)]
pub struct ID {
    pub ip: String,
    pub port: usize,
    pub id: String,
    pub just_arrived: bool,
}

/// A connection known as `old_id` belongs to the node `new_id`.
#[derive(Clone, Debug, PartialEq, Eq)]
pub struct UpdateID {
    pub ip: String,
    pub port: usize,
    pub old_id: String,
    pub new_id: String,
    pub expects_leader: bool,
}

/// The node `id` changed its role.
#[derive(Clone, Debug, PartialEq, Eq)]
pub struct RoleChanged {
    pub id: String,
}

/// What a connection writes to the node at its other end.
#[derive(Clone, Debug, PartialEq, Eq)]
pub enum PeerMessage {
    StartElection(StartElection),
    RequestAnswer(RequestAnswer),
    ConnectionDown(ConnectionDown),
    Ack(Ack),
    Heartbeat(Heartbeat),
    Coordinator(Coordinator),
    Reconnection(Reconnection),
    ID(ID),
    NewLeader(NewLeader),
    RoleChanged(RoleChanged),
}

/// What a connection hands to the consensus module after reading a line.
#[derive(Clone, Debug, PartialEq, Eq)]
pub enum BackendMessage {
    RequestedOurVote(RequestedOurVote),
    Vote(Vote),
    HB(HB),
    No(No),
    UpdateID(UpdateID),
    NewLeader(NewLeader),
    Reconnection(Reconnection),
    ConnectionDown(ConnectionDown),
    RoleChanged(RoleChanged),
}

#[allow(inconsistent_fields)]
/// The mathematical value of a `BackendMessage`: text is taken by its characters.
pub enum BackendMessageView {
    RequestedOurVote { term: usize, candidate_id: Seq<char> },
    Vote { id: Seq<char>, term: usize },
    HB { term: u16, id: Seq<char> },
    No { term: u16 },
    UpdateID { ip: Seq<char>, port: usize, old_id: Seq<char>, new_id: Seq<char>, expects_leader: bool },
    NewLeader { id: Seq<char>, term: usize },
    Reconnection { ip: Seq<char>, port: usize, node_id: Seq<char> },
    ConnectionDown { id: Seq<char> },
    RoleChanged { id: Seq<char> },
}

impl View for BackendMessage {
    type V = BackendMessageView;

    open spec fn view(&self) -> BackendMessageView {
        match self {
            BackendMessage::RequestedOurVote(m) => BackendMessageView::RequestedOurVote {
                term: m.term,
                candidate_id: m.candidate_id@,
            },
            BackendMessage::Vote(m) => BackendMessageView::Vote { id: m.id@, term: m.term },
            BackendMessage::HB(m) => BackendMessageView::HB { term: m.term, id: m.id@ },
            BackendMessage::No(m) => BackendMessageView::No { term: m.term },
            BackendMessage::UpdateID(m) => BackendMessageView::UpdateID {
                ip: m.ip@,
                port: m.port,
                old_id: m.old_id@,
                new_id: m.new_id@,
                expects_leader: m.expects_leader,
            },
            BackendMessage::NewLeader(m) => BackendMessageView::NewLeader {
                id: m.id@,
                term: m.term,
            },
            BackendMessage::Reconnection(m) => BackendMessageView::Reconnection {
                ip: m.ip@,
                port: m.port,
                node_id: m.node_id@,
            },
            BackendMessage::ConnectionDown(m) => BackendMessageView::ConnectionDown { id: m.id@ },
            BackendMessage::RoleChanged(m) => BackendMessageView::RoleChanged { id: m.id@ },
        }
    }
}

#[allow(inconsistent_fields)]
/// The mathematical value of a `PeerMessage`: text is taken by its characters.
pub enum PeerMessageView {
    StartElection { id: Seq<char>, term: usize },
    RequestAnswer { msg: Seq<char>, term: usize },
    ConnectionDown { id: Seq<char> },
    Ack { term: u16 },
    Heartbeat { term: usize, id: Seq<char> },
    Coordinator { id: Seq<char>, term: usize },
    Reconnection { ip: Seq<char>, port: usize, node_id: Seq<char> },
    ID { ip: Seq<char>, port: usize, id: Seq<char>, just_arrived: bool },
    NewLeader { id: Seq<char>, term: usize },
    RoleChanged { id: Seq<char> },
}

impl View for PeerMessage {
    type V = PeerMessageView;

    open spec fn view(&self) -> PeerMessageView {
        match self {
            PeerMessage::StartElection(m) => PeerMessageView::StartElection {
                id: m.id@,
                term: m.term,
            },
            PeerMessage::RequestAnswer(m) => PeerMessageView::RequestAnswer {
                msg: m.msg@,
                term: m.term,
            },
            PeerMessage::ConnectionDown(m) => PeerMessageView::ConnectionDown { id: m.id@ },
            PeerMessage::Ack(m) => PeerMessageView::Ack { term: m.term },
            PeerMessage::Heartbeat(m) => PeerMessageView::Heartbeat { term: m.term, id: m.id@ },
            PeerMessage::Coordinator(m) => PeerMessageView::Coordinator { id: m.id@, term: m.term },
            PeerMessage::Reconnection(m) => PeerMessageView::Reconnection {
                ip: m.ip@,
                port: m.port,
                node_id: m.node_id@,
            },
            PeerMessage::ID(m) => PeerMessageView::ID {
                ip: m.ip@,
                port: m.port,
                id: m.id@,
                just_arrived: m.just_arrived,
            },
            PeerMessage::NewLeader(m) => PeerMessageView::NewLeader { id: m.id@, term: m.term },
            PeerMessage::RoleChanged(m) => PeerMessageView::RoleChanged { id: m.id@ },
        }
    }
}

impl PeerMessage {
    /// A copy of this message.
    pub fn duplicate(&self) -> (r: PeerMessage)
        ensures
            r@ == self@,
    {
        match self {
            PeerMessage::StartElection(m) => PeerMessage::StartElection(
                StartElection { id: m.id.clone(), term: m.term },
            ),
            PeerMessage::RequestAnswer(m) => PeerMessage::RequestAnswer(
                RequestAnswer { msg: m.msg.clone(), term: m.term },
            ),
            PeerMessage::ConnectionDown(m) => PeerMessage::ConnectionDown(
                ConnectionDown { id: m.id.clone() },
            ),
            PeerMessage::Ack(m) => PeerMessage::Ack(Ack { term: m.term }),
            PeerMessage::Heartbeat(m) => PeerMessage::Heartbeat(
                Heartbeat { term: m.term, id: m.id.clone() },
            ),
            PeerMessage::Coordinator(m) => PeerMessage::Coordinator(
                Coordinator { id: m.id.clone(), term: m.term },
            ),
            PeerMessage::Reconnection(m) => PeerMessage::Reconnection(
                Reconnection { ip: m.ip.clone(), port: m.port, node_id: m.node_id.clone() },
            ),
            PeerMessage::ID(m) => PeerMessage::ID(
                ID { ip: m.ip.clone(), port: m.port, id: m.id.clone(), just_arrived: m.just_arrived },
            ),
            PeerMessage::NewLeader(m) => PeerMessage::NewLeader(
                NewLeader { id: m.id.clone(), term: m.term },
            ),
            PeerMessage::RoleChanged(m) => PeerMessage::RoleChanged(
                RoleChanged { id: m.id.clone() },
            ),
        }
    }
}

} // verus!
