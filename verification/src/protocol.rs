use vstd::prelude::*;
use vstd::string::StringExecFns;
use crate::messages::{
    BackendMessage, BackendMessageView, ConnectionDown, HB, NewLeader, No, PeerMessage,
    Reconnection, RequestedOurVote, RoleChanged, UpdateID, Vote,
};
use crate::text::{
    decimal, is_word, lemma_decimal_is_word, lemma_parse_decimal, lemma_words_of_word,
    lemma_words_spaced, lemma_words_trailing_space, parse_bool, parse_bool_spec, parse_u16,
    parse_unsigned, parse_usize, push_decimal, spaced, split_words, views, words,
};

verus! {

pub open spec fn tag_rv() -> Seq<char> {
    seq!['R', 'V']
}

pub open spec fn tag_vote() -> Seq<char> {
    seq!['V', 'O', 'T', 'E']
}

pub open spec fn tag_hb() -> Seq<char> {
    seq!['H', 'B']
}

pub open spec fn tag_no() -> Seq<char> {
    seq!['N', 'O']
}

pub open spec fn tag_id() -> Seq<char> {
    seq!['I', 'D']
}

pub open spec fn tag_nl() -> Seq<char> {
    seq!['N', 'L']
}

pub open spec fn tag_rc() -> Seq<char> {
    seq!['R', 'C']
}

pub open spec fn tag_cd() -> Seq<char> {
    seq!['C', 'D']
}

pub open spec fn tag_r() -> Seq<char> {
    seq!['R']
}

pub open spec fn tag_ack() -> Seq<char> {
    seq!['A', 'C', 'K']
}

/// How `{}` writes a `bool`.
pub open spec fn bool_text(b: bool) -> Seq<char> {
    if b {
        seq!['t', 'r', 'u', 'e']
    } else {
        seq!['f', 'a', 'l', 's', 'e']
    }
}

/// The line (without its newline) that a connection writes to its peer for `m`.
pub open spec fn peer_line(m: PeerMessage) -> Seq<char> {
    match m {
        PeerMessage::StartElection(x) => spaced(
            spaced(tag_rv(), x.id@),
            decimal(x.term as nat),
        ),
        PeerMessage::RequestAnswer(x) => spaced(x.msg@, decimal(x.term as nat)),
        PeerMessage::ConnectionDown(x) => spaced(tag_cd(), x.id@),
        PeerMessage::Ack(x) => spaced(tag_ack(), decimal(x.term as nat)),
        PeerMessage::Heartbeat(x) => spaced(spaced(tag_hb(), decimal(x.term as nat)), x.id@),
        PeerMessage::Coordinator(x) => spaced(spaced(tag_nl(), x.id@), decimal(x.term as nat)),
        PeerMessage::Reconnection(x) => spaced(
            spaced(spaced(tag_rc(), x.node_id@), x.ip@),
            decimal(x.port as nat),
        ) + seq![' '],
        PeerMessage::ID(x) => spaced(
            spaced(spaced(spaced(tag_id(), x.id@), x.ip@), decimal(x.port as nat)),
            bool_text(x.just_arrived),
        ),
        PeerMessage::NewLeader(x) => spaced(spaced(tag_nl(), x.id@), decimal(x.term as nat)),
        PeerMessage::RoleChanged(x) => spaced(tag_r(), x.id@),
    }
}

/// The `u16` that the word `w` writes, if any.
pub open spec fn word_u16(w: Seq<char>) -> Option<u16> {
    match parse_unsigned(w, u16::MAX as int) {
        Some(v) => Some(v as u16),
        None => None,
    }
}

/// The `usize` that the word `w` writes, if any.
pub open spec fn word_usize(w: Seq<char>) -> Option<usize> {
    match parse_unsigned(w, usize::MAX as int) {
        Some(v) => Some(v as usize),
        None => None,
    }
}

/// What a connection whose peer is known as `conn` hands to the consensus module
/// after reading `line`: the first word names the message, the following words are
/// its fields, and words past those are ignored.
pub open spec fn parse_line_spec(line: Seq<char>, conn: Seq<char>) -> Option<BackendMessageView> {
    let w = words(line);
    if w.len() == 0 {
        None
    } else if w[0] == tag_rv() {
        if w.len() >= 3 && word_u16(w[2]) is Some {
            Some(
                BackendMessageView::RequestedOurVote {
                    term: word_u16(w[2])->0 as usize,
                    candidate_id: w[1],
                },
            )
        } else {
            None
        }
    } else if w[0] == tag_vote() {
        if w.len() >= 2 && word_u16(w[1]) is Some {
            Some(BackendMessageView::Vote { id: conn, term: word_u16(w[1])->0 as usize })
        } else {
            None
        }
    } else if w[0] == tag_hb() {
        if w.len() >= 2 && word_u16(w[1]) is Some {
            Some(BackendMessageView::HB { term: word_u16(w[1])->0, id: conn })
        } else {
            None
        }
    } else if w[0] == tag_no() {
        if w.len() >= 2 && word_u16(w[1]) is Some {
            Some(BackendMessageView::No { term: word_u16(w[1])->0 })
        } else {
            None
        }
    } else if w[0] == tag_id() {
        if w.len() >= 5 && word_usize(w[3]) is Some && parse_bool_spec(w[4]) is Some {
            Some(
                BackendMessageView::UpdateID {
                    ip: w[2],
                    port: word_usize(w[3])->0,
                    old_id: conn,
                    new_id: w[1],
                    expects_leader: parse_bool_spec(w[4])->0,
                },
            )
        } else {
            None
        }
    } else if w[0] == tag_nl() {
        if w.len() >= 3 && word_u16(w[2]) is Some {
            Some(BackendMessageView::NewLeader { id: w[1], term: word_u16(w[2])->0 as usize })
        } else {
            None
        }
    } else if w[0] == tag_rc() {
        if w.len() >= 4 && word_usize(w[3]) is Some {
            Some(
                BackendMessageView::Reconnection {
                    ip: w[2],
                    port: word_usize(w[3])->0,
                    node_id: w[1],
                },
            )
        } else {
            None
        }
    } else if w[0] == tag_cd() {
        if w.len() >= 2 {
            Some(BackendMessageView::ConnectionDown { id: w[1] })
        } else {
            None
        }
    } else if w[0] == tag_r() {
        if w.len() >= 2 {
            Some(BackendMessageView::RoleChanged { id: w[1] })
        } else {
            None
        }
    } else {
        None
    }
}

/// Appends a space and then `w` to `out`.
fn push_spaced(out: &mut String, w: &str)
    ensures
        final(out)@ == spaced(old(out)@, w@),
{
    proof {
        reveal_strlit(" ");
    }
    out.append(" ");
    out.append(w);
    assert(out@ =~= spaced(old(out)@, w@));
}

/// Appends a space and then `n` in base ten to `out`.
fn push_spaced_decimal(out: &mut String, n: u64)
    ensures
        final(out)@ == spaced(old(out)@, decimal(n as nat)),
{
    proof {
        reveal_strlit(" ");
    }
    out.append(" ");
    push_decimal(out, n);
    assert(out@ =~= spaced(old(out)@, decimal(n as nat)));
}

/// The text of `b`, as `{}` writes it.
fn bool_str(b: bool) -> (r: &'static str)
    ensures
        r@ == bool_text(b),
{
    if b {
        proof {
            reveal_strlit("true");
        }
        assert("true"@ =~= bool_text(true));
        "true"
    } else {
        proof {
            reveal_strlit("false");
        }
        assert("false"@ =~= bool_text(false));
        "false"
    }
}

/// The line (without its newline) that a connection writes to its peer for `m`.
pub fn encode_peer_message(m: &PeerMessage) -> (r: String)
    ensures
        r@ == peer_line(*m),
{
    match m {
        PeerMessage::StartElection(x) => {
            proof {
                reveal_strlit("RV");
            }
            let mut out = String::from_str("RV");
            assert(out@ =~= tag_rv());
            push_spaced(&mut out, x.id.as_str());
            push_spaced_decimal(&mut out, x.term as u64);
            out
        },
        PeerMessage::RequestAnswer(x) => {
            let mut out = x.msg.clone();
            push_spaced_decimal(&mut out, x.term as u64);
            out
        },
        PeerMessage::ConnectionDown(x) => {
            proof {
                reveal_strlit("CD");
            }
            let mut out = String::from_str("CD");
            assert(out@ =~= tag_cd());
            push_spaced(&mut out, x.id.as_str());
            out
        },
        PeerMessage::Ack(x) => {
            proof {
                reveal_strlit("ACK");
            }
            let mut out = String::from_str("ACK");
            assert(out@ =~= tag_ack());
            push_spaced_decimal(&mut out, x.term as u64);
            out
        },
        PeerMessage::Heartbeat(x) => {
            proof {
                reveal_strlit("HB");
            }
            let mut out = String::from_str("HB");
            assert(out@ =~= tag_hb());
            push_spaced_decimal(&mut out, x.term as u64);
            push_spaced(&mut out, x.id.as_str());
            out
        },
        PeerMessage::Coordinator(x) => {
            proof {
                reveal_strlit("NL");
            }
            let mut out = String::from_str("NL");
            assert(out@ =~= tag_nl());
            push_spaced(&mut out, x.id.as_str());
            push_spaced_decimal(&mut out, x.term as u64);
            out
        },
        PeerMessage::Reconnection(x) => {
            proof {
                reveal_strlit("RC");
                reveal_strlit(" ");
            }
            let mut out = String::from_str("RC");
            assert(out@ =~= tag_rc());
            push_spaced(&mut out, x.node_id.as_str());
            push_spaced(&mut out, x.ip.as_str());
            push_spaced_decimal(&mut out, x.port as u64);
            let ghost before = out@;
            out.append(" ");
            assert(out@ =~= before + seq![' ']);
            out
        },
        PeerMessage::ID(x) => {
            proof {
                reveal_strlit("ID");
            }
            let mut out = String::from_str("ID");
            assert(out@ =~= tag_id());
            push_spaced(&mut out, x.id.as_str());
            push_spaced(&mut out, x.ip.as_str());
            push_spaced_decimal(&mut out, x.port as u64);
            push_spaced(&mut out, bool_str(x.just_arrived));
            out
        },
        PeerMessage::NewLeader(x) => {
            proof {
                reveal_strlit("NL");
            }
            let mut out = String::from_str("NL");
            assert(out@ =~= tag_nl());
            push_spaced(&mut out, x.id.as_str());
            push_spaced_decimal(&mut out, x.term as u64);
            out
        },
        PeerMessage::RoleChanged(x) => {
            proof {
                reveal_strlit("R");
            }
            let mut out = String::from_str("R");
            assert(out@ =~= tag_r());
            push_spaced(&mut out, x.id.as_str());
            out
        },
    }
}

/// The address `ip:port` to which a connection is made.
pub open spec fn address_text(ip: Seq<char>, port: usize) -> Seq<char> {
    ip + seq![':'] + decimal(port as nat)
}

/// The address `ip:port`.
pub fn socket_address(ip: &str, port: usize) -> (r: String)
    ensures
        r@ == address_text(ip@, port),
{
    proof {
        reveal_strlit(":");
    }
    let mut out = String::from_str(ip);
    out.append(":");
    push_decimal(&mut out, port as u64);
    assert(out@ =~= address_text(ip@, port));
    out
}

/// Whether the word `w` is `t`.
fn word_is(w: &String, t: &str) -> (r: bool)
    ensures
        r == (w@ == t@),
{
    *w == String::from_str(t)
}

/// What a connection whose peer is known as `conn` hands to the consensus module after
/// reading `line`; `None` where the line names no message or lacks a field of it.
pub fn parse_line(line: &str, conn: &String) -> (r: Option<BackendMessage>)
    ensures
        match r {
            Some(m) => parse_line_spec(line@, conn@) == Some(m@),
            None => parse_line_spec(line@, conn@) is None,
        },
{
    let ws = split_words(line);
    let ghost w = words(line@);
    assert(views(ws@) == w);
    let n = ws.len();
    if n == 0 {
        return None;
    }
    proof {
        reveal_strlit("RV");
        reveal_strlit("VOTE");
        reveal_strlit("HB");
        reveal_strlit("NO");
        reveal_strlit("ID");
        reveal_strlit("NL");
        reveal_strlit("RC");
        reveal_strlit("CD");
        reveal_strlit("R");
        assert("RV"@ =~= tag_rv());
        assert("VOTE"@ =~= tag_vote());
        assert("HB"@ =~= tag_hb());
        assert("NO"@ =~= tag_no());
        assert("ID"@ =~= tag_id());
        assert("NL"@ =~= tag_nl());
        assert("RC"@ =~= tag_rc());
        assert("CD"@ =~= tag_cd());
        assert("R"@ =~= tag_r());
    }
    assert(ws@[0]@ == w[0]);
    if word_is(&ws[0], "RV") {
        if n >= 3 {
            assert(ws@[2]@ == w[2] && ws@[1]@ == w[1]);
            match parse_u16(ws[2].as_str()) {
                Some(t) => {
                    return Some(
                        BackendMessage::RequestedOurVote(
                            RequestedOurVote { term: t as usize, candidate_id: ws[1].clone() },
                        ),
                    );
                },
                None => {
                    return None;
                },
            }
        }
        return None;
    }
    if word_is(&ws[0], "VOTE") {
        if n >= 2 {
            assert(ws@[1]@ == w[1]);
            match parse_u16(ws[1].as_str()) {
                Some(t) => {
                    return Some(BackendMessage::Vote(Vote { id: conn.clone(), term: t as usize }));
                },
                None => {
                    return None;
                },
            }
        }
        return None;
    }
    if word_is(&ws[0], "HB") {
        if n >= 2 {
            assert(ws@[1]@ == w[1]);
            match parse_u16(ws[1].as_str()) {
                Some(t) => {
                    return Some(BackendMessage::HB(HB { term: t, id: conn.clone() }));
                },
                None => {
                    return None;
                },
            }
        }
        return None;
    }
    if word_is(&ws[0], "NO") {
        if n >= 2 {
            assert(ws@[1]@ == w[1]);
            match parse_u16(ws[1].as_str()) {
                Some(t) => {
                    return Some(BackendMessage::No(No { term: t }));
                },
                None => {
                    return None;
                },
            }
        }
        return None;
    }
    if word_is(&ws[0], "ID") {
        if n >= 5 {
            assert(ws@[1]@ == w[1] && ws@[2]@ == w[2] && ws@[3]@ == w[3] && ws@[4]@ == w[4]);
            let port = parse_usize(ws[3].as_str());
            let expects = parse_bool(ws[4].as_str());
            match (port, expects) {
                (Some(p), Some(e)) => {
                    return Some(
                        BackendMessage::UpdateID(
                            UpdateID {
                                ip: ws[2].clone(),
                                port: p,
                                old_id: conn.clone(),
                                new_id: ws[1].clone(),
                                expects_leader: e,
                            },
                        ),
                    );
                },
                _ => {
                    return None;
                },
            }
        }
        return None;
    }
    if word_is(&ws[0], "NL") {
        if n >= 3 {
            assert(ws@[2]@ == w[2] && ws@[1]@ == w[1]);
            match parse_u16(ws[2].as_str()) {
                Some(t) => {
                    return Some(
                        BackendMessage::NewLeader(NewLeader { id: ws[1].clone(), term: t as usize }),
                    );
                },
                None => {
                    return None;
                },
            }
        }
        return None;
    }
    if word_is(&ws[0], "RC") {
        if n >= 4 {
            assert(ws@[1]@ == w[1] && ws@[2]@ == w[2] && ws@[3]@ == w[3]);
            match parse_usize(ws[3].as_str()) {
                Some(p) => {
                    return Some(
                        BackendMessage::Reconnection(
                            Reconnection { ip: ws[2].clone(), port: p, node_id: ws[1].clone() },
                        ),
                    );
                },
                None => {
                    return None;
                },
            }
        }
        return None;
    }
    if word_is(&ws[0], "CD") {
        if n >= 2 {
            assert(ws@[1]@ == w[1]);
            return Some(BackendMessage::ConnectionDown(ConnectionDown { id: ws[1].clone() }));
        }
        return None;
    }
    if word_is(&ws[0], "R") {
        if n >= 2 {
            assert(ws@[1]@ == w[1]);
            return Some(BackendMessage::RoleChanged(RoleChanged { id: ws[1].clone() }));
        }
        return None;
    }
    None
}

/// The messages whose line the reading side takes back apart as they were: the names
/// and addresses they carry are single words, and terms fit the `u16` that is read.
pub open spec fn readable(m: PeerMessage) -> bool {
    match m {
        PeerMessage::StartElection(x) => is_word(x.id@) && x.term <= u16::MAX,
        PeerMessage::RequestAnswer(x) => (x.msg@ == tag_vote() || x.msg@ == tag_no()) && x.term
            <= u16::MAX,
        PeerMessage::ConnectionDown(x) => is_word(x.id@),
        PeerMessage::Ack(_) => true,
        PeerMessage::Heartbeat(x) => x.term <= u16::MAX,
        PeerMessage::Coordinator(x) => is_word(x.id@) && x.term <= u16::MAX,
        PeerMessage::Reconnection(x) => is_word(x.node_id@) && is_word(x.ip@),
        PeerMessage::ID(x) => is_word(x.id@) && is_word(x.ip@),
        PeerMessage::NewLeader(x) => is_word(x.id@) && x.term <= u16::MAX,
        PeerMessage::RoleChanged(x) => is_word(x.id@),
    }
}

/// What the consensus module at the other end receives when a connection writes `m`
/// and the reading connection knows its peer as `conn`.
pub open spec fn delivered(m: PeerMessage, conn: Seq<char>) -> Option<BackendMessageView> {
    match m {
        PeerMessage::StartElection(x) => Some(
            BackendMessageView::RequestedOurVote { term: x.term, candidate_id: x.id@ },
        ),
        PeerMessage::RequestAnswer(x) => if x.msg@ == tag_vote() {
            Some(BackendMessageView::Vote { id: conn, term: x.term })
        } else {
            Some(BackendMessageView::No { term: x.term as u16 })
        },
        PeerMessage::ConnectionDown(x) => Some(BackendMessageView::ConnectionDown { id: x.id@ }),
        PeerMessage::Ack(_) => None,
        PeerMessage::Heartbeat(x) => Some(BackendMessageView::HB { term: x.term as u16, id: conn }),
        PeerMessage::Coordinator(x) => Some(
            BackendMessageView::NewLeader { id: x.id@, term: x.term },
        ),
        PeerMessage::Reconnection(x) => Some(
            BackendMessageView::Reconnection { ip: x.ip@, port: x.port, node_id: x.node_id@ },
        ),
        PeerMessage::ID(x) => Some(
            BackendMessageView::UpdateID {
                ip: x.ip@,
                port: x.port,
                old_id: conn,
                new_id: x.id@,
                expects_leader: x.just_arrived,
            },
        ),
        PeerMessage::NewLeader(x) => Some(BackendMessageView::NewLeader { id: x.id@, term: x.term }),
        PeerMessage::RoleChanged(x) => Some(BackendMessageView::RoleChanged { id: x.id@ }),
    }
}

proof fn lemma_tags_are_words()
    ensures
        is_word(tag_rv()),
        is_word(tag_vote()),
        is_word(tag_hb()),
        is_word(tag_no()),
        is_word(tag_id()),
        is_word(tag_nl()),
        is_word(tag_rc()),
        is_word(tag_cd()),
        is_word(tag_r()),
        is_word(tag_ack()),
        is_word(bool_text(true)),
        is_word(bool_text(false)),
{
}

proof fn lemma_round_trip_start_election(x: crate::messages::StartElection, conn: Seq<char>)
    requires
        readable(PeerMessage::StartElection(x)),
    ensures
        parse_line_spec(peer_line(PeerMessage::StartElection(x)), conn) == delivered(
            PeerMessage::StartElection(x),
            conn,
        ),
{
    lemma_tags_are_words();
    let d = decimal(x.term as nat);
    lemma_decimal_is_word(x.term as nat);
    lemma_parse_decimal(x.term as nat, u16::MAX as int);
    lemma_words_spaced(spaced(tag_rv(), x.id@), d);
    lemma_words_spaced(tag_rv(), x.id@);
    lemma_words_of_word(tag_rv());
    lemma_words_of_word(x.id@);
    lemma_words_of_word(d);
    assert(words(peer_line(PeerMessage::StartElection(x))) =~= seq![tag_rv(), x.id@, d]);
}

proof fn lemma_round_trip_request_answer(x: crate::messages::RequestAnswer, conn: Seq<char>)
    requires
        readable(PeerMessage::RequestAnswer(x)),
    ensures
        parse_line_spec(peer_line(PeerMessage::RequestAnswer(x)), conn) == delivered(
            PeerMessage::RequestAnswer(x),
            conn,
        ),
{
    lemma_tags_are_words();
    let d = decimal(x.term as nat);
    lemma_decimal_is_word(x.term as nat);
    lemma_parse_decimal(x.term as nat, u16::MAX as int);
    lemma_words_spaced(x.msg@, d);
    lemma_words_of_word(x.msg@);
    lemma_words_of_word(d);
    assert(words(peer_line(PeerMessage::RequestAnswer(x))) =~= seq![x.msg@, d]);
}

proof fn lemma_round_trip_connection_down(x: crate::messages::ConnectionDown, conn: Seq<char>)
    requires
        readable(PeerMessage::ConnectionDown(x)),
    ensures
        parse_line_spec(peer_line(PeerMessage::ConnectionDown(x)), conn) == delivered(
            PeerMessage::ConnectionDown(x),
            conn,
        ),
{
    lemma_tags_are_words();
    lemma_words_spaced(tag_cd(), x.id@);
    lemma_words_of_word(tag_cd());
    lemma_words_of_word(x.id@);
    assert(words(peer_line(PeerMessage::ConnectionDown(x))) =~= seq![tag_cd(), x.id@]);
}

proof fn lemma_round_trip_ack(x: crate::messages::Ack, conn: Seq<char>)
    requires
        readable(PeerMessage::Ack(x)),
    ensures
        parse_line_spec(peer_line(PeerMessage::Ack(x)), conn) == delivered(
            PeerMessage::Ack(x),
            conn,
        ),
{
    lemma_tags_are_words();
    let d = decimal(x.term as nat);
    lemma_decimal_is_word(x.term as nat);
    lemma_words_spaced(tag_ack(), d);
    lemma_words_of_word(tag_ack());
    lemma_words_of_word(d);
    assert(words(peer_line(PeerMessage::Ack(x))) =~= seq![tag_ack(), d]);
}

proof fn lemma_round_trip_heartbeat(x: crate::messages::Heartbeat, conn: Seq<char>)
    requires
        readable(PeerMessage::Heartbeat(x)),
    ensures
        parse_line_spec(peer_line(PeerMessage::Heartbeat(x)), conn) == delivered(
            PeerMessage::Heartbeat(x),
            conn,
        ),
{
    lemma_tags_are_words();
    let d = decimal(x.term as nat);
    lemma_decimal_is_word(x.term as nat);
    lemma_parse_decimal(x.term as nat, u16::MAX as int);
    lemma_words_spaced(spaced(tag_hb(), d), x.id@);
    lemma_words_spaced(tag_hb(), d);
    lemma_words_of_word(tag_hb());
    lemma_words_of_word(d);
    let w = words(peer_line(PeerMessage::Heartbeat(x)));
    assert(w =~= seq![tag_hb(), d] + words(x.id@));
    assert(w[0] == tag_hb() && w[1] == d);
}

proof fn lemma_round_trip_coordinator(x: crate::messages::Coordinator, conn: Seq<char>)
    requires
        readable(PeerMessage::Coordinator(x)),
    ensures
        parse_line_spec(peer_line(PeerMessage::Coordinator(x)), conn) == delivered(
            PeerMessage::Coordinator(x),
            conn,
        ),
{
    lemma_tags_are_words();
    let d = decimal(x.term as nat);
    lemma_decimal_is_word(x.term as nat);
    lemma_parse_decimal(x.term as nat, u16::MAX as int);
    lemma_words_spaced(spaced(tag_nl(), x.id@), d);
    lemma_words_spaced(tag_nl(), x.id@);
    lemma_words_of_word(tag_nl());
    lemma_words_of_word(x.id@);
    lemma_words_of_word(d);
    assert(words(peer_line(PeerMessage::Coordinator(x))) =~= seq![tag_nl(), x.id@, d]);
}

proof fn lemma_round_trip_reconnection(x: crate::messages::Reconnection, conn: Seq<char>)
    requires
        readable(PeerMessage::Reconnection(x)),
    ensures
        parse_line_spec(peer_line(PeerMessage::Reconnection(x)), conn) == delivered(
            PeerMessage::Reconnection(x),
            conn,
        ),
{
    lemma_tags_are_words();
    let d = decimal(x.port as nat);
    lemma_decimal_is_word(x.port as nat);
    lemma_parse_decimal(x.port as nat, usize::MAX as int);
    let core = spaced(spaced(spaced(tag_rc(), x.node_id@), x.ip@), d);
    lemma_words_trailing_space(core);
    lemma_words_spaced(spaced(spaced(tag_rc(), x.node_id@), x.ip@), d);
    lemma_words_spaced(spaced(tag_rc(), x.node_id@), x.ip@);
    lemma_words_spaced(tag_rc(), x.node_id@);
    lemma_words_of_word(tag_rc());
    lemma_words_of_word(x.node_id@);
    lemma_words_of_word(x.ip@);
    lemma_words_of_word(d);
    assert(words(peer_line(PeerMessage::Reconnection(x))) =~= seq![tag_rc(), x.node_id@, x.ip@, d]);
}

proof fn lemma_round_trip_id(x: crate::messages::ID, conn: Seq<char>)
    requires
        readable(PeerMessage::ID(x)),
    ensures
        parse_line_spec(peer_line(PeerMessage::ID(x)), conn) == delivered(
            PeerMessage::ID(x),
            conn,
        ),
{
    lemma_tags_are_words();
    let d = decimal(x.port as nat);
    let b = bool_text(x.just_arrived);
    lemma_decimal_is_word(x.port as nat);
    lemma_parse_decimal(x.port as nat, usize::MAX as int);
    lemma_words_spaced(spaced(spaced(spaced(tag_id(), x.id@), x.ip@), d), b);
    lemma_words_spaced(spaced(spaced(tag_id(), x.id@), x.ip@), d);
    lemma_words_spaced(spaced(tag_id(), x.id@), x.ip@);
    lemma_words_spaced(tag_id(), x.id@);
    lemma_words_of_word(tag_id());
    lemma_words_of_word(x.id@);
    lemma_words_of_word(x.ip@);
    lemma_words_of_word(d);
    lemma_words_of_word(b);
    assert(words(peer_line(PeerMessage::ID(x))) =~= seq![tag_id(), x.id@, x.ip@, d, b]);
}

proof fn lemma_round_trip_new_leader(x: crate::messages::NewLeader, conn: Seq<char>)
    requires
        readable(PeerMessage::NewLeader(x)),
    ensures
        parse_line_spec(peer_line(PeerMessage::NewLeader(x)), conn) == delivered(
            PeerMessage::NewLeader(x),
            conn,
        ),
{
    lemma_tags_are_words();
    let d = decimal(x.term as nat);
    lemma_decimal_is_word(x.term as nat);
    lemma_parse_decimal(x.term as nat, u16::MAX as int);
    lemma_words_spaced(spaced(tag_nl(), x.id@), d);
    lemma_words_spaced(tag_nl(), x.id@);
    lemma_words_of_word(tag_nl());
    lemma_words_of_word(x.id@);
    lemma_words_of_word(d);
    assert(words(peer_line(PeerMessage::NewLeader(x))) =~= seq![tag_nl(), x.id@, d]);
}

proof fn lemma_round_trip_role_changed(x: crate::messages::RoleChanged, conn: Seq<char>)
    requires
        readable(PeerMessage::RoleChanged(x)),
    ensures
        parse_line_spec(peer_line(PeerMessage::RoleChanged(x)), conn) == delivered(
            PeerMessage::RoleChanged(x),
            conn,
        ),
{
    lemma_tags_are_words();
    lemma_words_spaced(tag_r(), x.id@);
    lemma_words_of_word(tag_r());
    lemma_words_of_word(x.id@);
    assert(words(peer_line(PeerMessage::RoleChanged(x))) =~= seq![tag_r(), x.id@]);
}

/// What one node writes for a message, the node at the other end reads back as the
/// message that the protocol pairs with it: a vote request as a requested vote, an
/// answer as a vote or a refusal, a heartbeat as a heartbeat from the connection's
/// peer, a coordinator notice as a new leader, and so on; an acknowledgement is read
/// as nothing.
pub proof fn lemma_peer_line_round_trip(m: PeerMessage, conn: Seq<char>)
    requires
        readable(m),
    ensures
        parse_line_spec(peer_line(m), conn) == delivered(m, conn),
{
    match m {
        PeerMessage::StartElection(x) => lemma_round_trip_start_election(x, conn),
        PeerMessage::RequestAnswer(x) => lemma_round_trip_request_answer(x, conn),
        PeerMessage::ConnectionDown(x) => lemma_round_trip_connection_down(x, conn),
        PeerMessage::Ack(x) => lemma_round_trip_ack(x, conn),
        PeerMessage::Heartbeat(x) => lemma_round_trip_heartbeat(x, conn),
        PeerMessage::Coordinator(x) => lemma_round_trip_coordinator(x, conn),
        PeerMessage::Reconnection(x) => lemma_round_trip_reconnection(x, conn),
        PeerMessage::ID(x) => lemma_round_trip_id(x, conn),
        PeerMessage::NewLeader(x) => lemma_round_trip_new_leader(x, conn),
        PeerMessage::RoleChanged(x) => lemma_round_trip_role_changed(x, conn),
    }
}

} // verus!
