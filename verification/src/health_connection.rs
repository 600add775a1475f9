use vstd::prelude::*;
use crate::consensus::{opt_view, remove_id, remove_name};
use crate::messages::{BackendMessage, BackendMessageView, PeerMessage};
use crate::protocol::{encode_peer_message, parse_line, parse_line_spec, peer_line};
use crate::text::views;

verus! {

/// The name by which a connection knows its peer, as the messages it hands on carry it:
/// the empty name where it knows none.
pub open spec fn peer_name(id_connection: Option<String>) -> Seq<char> {
    match id_connection {
        Some(s) => s@,
        None => Seq::empty(),
    }
}

/// The connection to one other node: it reads that node's lines and hands the messages
/// they carry to the consensus module, and writes the messages given to it as lines.
pub struct HealthConnection {
    /// The name of the node at the other end, where known.
    pub id_connection: Option<String>,
    /// The other connections this one knows of, each once.
    pub other_actors: Vec<String>,
    /// Whether a consensus module has been given to hand messages to.
    pub has_backend: bool,
    /// The term of the last vote answer written.
    pub current_term: usize,
}

impl HealthConnection {
    /// No connection is known twice.
    pub open spec fn wf(&self) -> bool {
        views(self.other_actors@).no_duplicates()
    }

    /// A connection to the node known as `id_connection`, with no consensus module yet.
    pub fn new(id_connection: String) -> (r: HealthConnection)
        ensures
            r.wf(),
            r == (HealthConnection {
                id_connection: Some(id_connection),
                other_actors: r.other_actors,
                has_backend: false,
                current_term: 0,
            }),
            r.other_actors@.len() == 0,
    {
        let r = HealthConnection {
            id_connection: Some(id_connection),
            other_actors: Vec::new(),
            has_backend: false,
            current_term: 0,
        };
        assert(views(r.other_actors@) =~= Seq::<Seq<char>>::empty());
        r
    }

    /// A consensus module has been given: from now on messages are handed to it.
    pub fn set_backend(&mut self)
        ensures
            *final(self) == (HealthConnection { has_backend: true, ..*old(self) }),
    {
        self.has_backend = true;
    }

    /// A line read from the peer: the message it carries, handed on only where a
    /// consensus module is known. A handshake that names the peer anew renames the
    /// connection.
    pub fn handle_line(&mut self, line: &str) -> (r: Option<BackendMessage>)
        ensures
            !old(self).has_backend ==> r is None && *final(self) == *old(self),
            old(self).has_backend ==> match r {
                Some(m) => parse_line_spec(line@, peer_name(old(self).id_connection)) == Some(m@),
                None => parse_line_spec(line@, peer_name(old(self).id_connection)) is None,
            },
            old(self).has_backend ==> match parse_line_spec(
                line@,
                peer_name(old(self).id_connection),
            ) {
                Some(BackendMessageView::UpdateID { new_id, .. }) => if new_id != peer_name(
                    old(self).id_connection,
                ) {
                    opt_view(final(self).id_connection) == Some(new_id)
                        && *final(self) == (HealthConnection {
                        id_connection: final(self).id_connection,
                        ..*old(self)
                    })
                } else {
                    *final(self) == *old(self)
                },
                _ => *final(self) == *old(self),
            },
    {
        if !self.has_backend {
            return None;
        }
        let conn = match &self.id_connection {
            Some(s) => s.clone(),
            None => String::new(),
        };
        let parsed = parse_line(line, &conn);
        match &parsed {
            Some(BackendMessage::UpdateID(m)) => {
                if m.new_id != conn {
                    self.id_connection = Some(m.new_id.clone());
                }
            },
            _ => {},
        }
        parsed
    }

    /// The line (without its newline) to write to the peer for `msg`. Writing a vote
    /// answer records its term; a notice of a lost connection forgets that connection.
    pub fn line_for(&mut self, msg: &PeerMessage) -> (r: String)
        requires
            old(self).wf(),
        ensures
            final(self).wf(),
            r@ == peer_line(*msg),
            match msg {
                PeerMessage::RequestAnswer(a) => *final(self) == (HealthConnection {
                    current_term: a.term,
                    ..*old(self)
                }),
                PeerMessage::ConnectionDown(d) => views(final(self).other_actors@) == remove_id(
                    views(old(self).other_actors@),
                    d.id@,
                ) && *final(self) == (HealthConnection {
                    other_actors: final(self).other_actors,
                    ..*old(self)
                }),
                _ => *final(self) == *old(self),
            },
    {
        match msg {
            PeerMessage::RequestAnswer(a) => {
                self.current_term = a.term;
            },
            PeerMessage::ConnectionDown(d) => {
                remove_name(&mut self.other_actors, &d.id);
            },
            _ => {},
        }
        encode_peer_message(msg)
    }
}

} // verus!
