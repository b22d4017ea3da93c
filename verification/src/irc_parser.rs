//! The line parser: one raw, terminator-framed wire line in, one typed
//! message out, or nothing for a line that does not parse. A line that
//! fails any split or classification step is dropped, never a fault.

use vstd::prelude::*;
use crate::bytes::{
    absent, bytes_eq, clone_bytes, lemma_absent_concat, lemma_split_at_marker, parse_u64,
    parse_u64_in, split_first_at, split_head, split_tail, strip_byte, strip_byte_in, subvec,
};
use crate::irc::{
    Client, ClientV, Entity, EntityV, IRCMessage, IRCMessageType, IRCPing, IRCServerMessage,
    MessageV, MsgTypeV, ServerMsgV, mode_word, mode_word_vec, msg_time, notice_word,
    notice_word_vec, ping_word, ping_word_vec, privmsg_word, privmsg_word_vec, AT, COLON, EXCL,
    SPACE,
};

verus! {

/// What parsing an origin token yields: `nick!user@host` is a peer,
/// a token without `!` is the server itself, and a token with `!` but
/// no `@` after it is malformed.
pub open spec fn parse_from_spec(s: Seq<u8>) -> Option<EntityV> {
    let nick = split_head(s, EXCL);
    match split_tail(s, EXCL) {
        None => Some(EntityV::Server(nick)),
        Some(rest) => match split_tail(rest, AT) {
            None => None,
            Some(addr) => Some(
                EntityV::Client(
                    ClientV { nick: nick, username: split_head(rest, AT), address: addr },
                ),
            ),
        },
    }
}

/// What classifying a command token yields: the three known textual
/// commands carry the free-text body or the auxiliary tokens, a decimal
/// token is an informational code, anything else drops the line.
pub open spec fn make_message_spec(mtype: Seq<u8>, message: Seq<u8>, meta: Seq<u8>) -> Option<
    MsgTypeV,
> {
    if mtype == notice_word() {
        Some(MsgTypeV::NOTICE(message))
    } else if mtype == mode_word() {
        Some(MsgTypeV::MODE(meta))
    } else if mtype == privmsg_word() {
        Some(MsgTypeV::PRIVMSG(message))
    } else {
        match parse_u64(mtype) {
            Some(i) => Some(MsgTypeV::INFO(i)),
            None => None,
        }
    }
}

/// What parsing a server-origin line (terminator already stripped)
/// yields. After the leading sigil, the line splits at the first colon
/// into space-separated metadata and a free-text body; the metadata must
/// hold at least an origin token, a command token and a target token,
/// and the remaining tokens are concatenated into the auxiliary field.
pub open spec fn parse_server_line_spec(s: Seq<u8>) -> Option<ServerMsgV> {
    let rest = s.skip(1);
    let meta = split_head(rest, COLON);
    let message = match split_tail(rest, COLON) {
        Some(m) => m,
        None => Seq::<u8>::empty(),
    };
    let from_tok = split_head(meta, SPACE);
    match split_tail(meta, SPACE) {
        None => None,
        Some(r1) => {
            let mtype = split_head(r1, SPACE);
            match split_tail(r1, SPACE) {
                None => None,
                Some(r2) => {
                    let target = split_head(r2, SPACE);
                    let additional = match split_tail(r2, SPACE) {
                        Some(r3) => strip_byte(r3, SPACE),
                        None => Seq::<u8>::empty(),
                    };
                    match parse_from_spec(from_tok) {
                        None => None,
                        Some(from) => match make_message_spec(mtype, message, additional) {
                            None => None,
                            Some(mt) => Some(
                                ServerMsgV { from: from, message: mt, raw: rest, target: target },
                            ),
                        },
                    }
                },
            }
        },
    }
}

/// What parsing a raw line yields: too-short lines are dropped, the
/// two-byte terminator is stripped, a line opening with the sigil is a
/// server-origin event, and an unprefixed line is either the keep-alive
/// challenge or dropped.
pub open spec fn parse_line_spec(line: Seq<u8>) -> Option<MessageV> {
    if line.len() < 3 {
        None
    } else {
        let s = line.take(line.len() - 2);
        if s[0] == COLON {
            match parse_server_line_spec(s) {
                Some(m) => Some(MessageV::ServerMessage(m)),
                None => None,
            }
        } else if s[0] == 80 && s.len() > 5 && s.take(4) == ping_word() {
            Some(MessageV::Ping)
        } else {
            None
        }
    }
}

/// The raw payload of a well-formed synthesized peer-origin line: what
/// stands between the sigil and the terminator.
pub open spec fn peer_line_raw(
    nick: Seq<u8>,
    user: Seq<u8>,
    host: Seq<u8>,
    command: Seq<u8>,
    target: Seq<u8>,
    body: Seq<u8>,
) -> Seq<u8> {
    nick + seq![EXCL] + user + seq![AT] + host + seq![SPACE] + command + seq![SPACE] + target
        + seq![SPACE, COLON] + body
}

/// A well-formed synthesized peer-origin line, terminator included.
pub open spec fn peer_line(
    nick: Seq<u8>,
    user: Seq<u8>,
    host: Seq<u8>,
    command: Seq<u8>,
    target: Seq<u8>,
    body: Seq<u8>,
) -> Seq<u8> {
    seq![COLON] + peer_line_raw(nick, user, host, command, target, body) + seq![13u8, 10u8]
}

/// Round trip: a synthesized peer-origin line parses back to exactly
/// the peer `{nick, user, host}` it was built from, the payload variant
/// its command token selects, its target, and its raw form, provided
/// no token contains a separator that would shift a split.
pub proof fn lemma_parse_round_trip(
    nick: Seq<u8>,
    user: Seq<u8>,
    host: Seq<u8>,
    command: Seq<u8>,
    target: Seq<u8>,
    body: Seq<u8>,
    mt: MsgTypeV,
)
    requires
        absent(nick, COLON),
        absent(user, COLON),
        absent(host, COLON),
        absent(command, COLON),
        absent(target, COLON),
        absent(nick, SPACE),
        absent(user, SPACE),
        absent(host, SPACE),
        absent(command, SPACE),
        absent(target, SPACE),
        absent(nick, EXCL),
        absent(user, AT),
        make_message_spec(command, body, Seq::empty()) == Some(mt),
    ensures
        parse_line_spec(peer_line(nick, user, host, command, target, body)) == Some(
            MessageV::ServerMessage(
                ServerMsgV {
                    from: EntityV::Client(ClientV { nick: nick, username: user, address: host }),
                    message: mt,
                    raw: peer_line_raw(nick, user, host, command, target, body),
                    target: target,
                },
            ),
        ),
{
    let raw = peer_line_raw(nick, user, host, command, target, body);
    let line = peer_line(nick, user, host, command, target, body);
    assert(line.len() == raw.len() + 3);
    let s = seq![COLON] + raw;
    assert(line.take(line.len() - 2) =~= s);
    assert(s[0] == COLON);
    assert(s.skip(1) =~= raw);
    assert(absent(seq![EXCL], COLON));
    assert(absent(seq![AT], COLON));
    assert(absent(seq![SPACE], COLON));
    assert(absent(seq![EXCL], SPACE));
    assert(absent(seq![AT], SPACE));
    // the metadata segment: everything before the first colon
    let from_tok = nick + seq![EXCL] + user + seq![AT] + host;
    let r1 = command + seq![SPACE] + target + seq![SPACE];
    let meta = from_tok + seq![SPACE] + r1;
    assert(raw =~= meta + seq![COLON] + body);
    lemma_absent_concat(nick, seq![EXCL], COLON);
    lemma_absent_concat(nick + seq![EXCL], user, COLON);
    lemma_absent_concat(nick + seq![EXCL] + user, seq![AT], COLON);
    lemma_absent_concat(nick + seq![EXCL] + user + seq![AT], host, COLON);
    lemma_absent_concat(from_tok, seq![SPACE], COLON);
    lemma_absent_concat(command, seq![SPACE], COLON);
    lemma_absent_concat(command + seq![SPACE], target, COLON);
    lemma_absent_concat(command + seq![SPACE] + target, seq![SPACE], COLON);
    lemma_absent_concat(from_tok + seq![SPACE], r1, COLON);
    lemma_split_at_marker(meta, COLON, body);
    assert(split_head(raw, COLON) == meta);
    assert(split_tail(raw, COLON) == Some(body));
    // the origin token: everything before the first space
    lemma_absent_concat(nick, seq![EXCL], SPACE);
    lemma_absent_concat(nick + seq![EXCL], user, SPACE);
    lemma_absent_concat(nick + seq![EXCL] + user, seq![AT], SPACE);
    lemma_absent_concat(nick + seq![EXCL] + user + seq![AT], host, SPACE);
    lemma_split_at_marker(from_tok, SPACE, r1);
    // the command token
    let r2 = target + seq![SPACE];
    assert(r1 =~= command + seq![SPACE] + r2);
    lemma_split_at_marker(command, SPACE, r2);
    // the target token, followed by exactly the trailing separator
    assert(r2 =~= target + seq![SPACE] + Seq::<u8>::empty());
    lemma_split_at_marker(target, SPACE, Seq::empty());
    assert(strip_byte(Seq::<u8>::empty(), SPACE) =~= Seq::<u8>::empty());
    // the origin token parses back to the peer it was built from
    let rest2 = user + seq![AT] + host;
    assert(from_tok =~= nick + seq![EXCL] + rest2);
    lemma_split_at_marker(nick, EXCL, rest2);
    lemma_split_at_marker(user, AT, host);
    assert(parse_from_spec(from_tok) == Some(
        EntityV::Client(ClientV { nick: nick, username: user, address: host }),
    ));
    assert(parse_server_line_spec(s) == Some(
        ServerMsgV {
            from: EntityV::Client(ClientV { nick: nick, username: user, address: host }),
            message: mt,
            raw: raw,
            target: target,
        },
    ));
}

/// A peer-origin token (it contains the peer separator) whose remainder
/// lacks the address separator parses to nothing.
pub proof fn lemma_missing_at_rejected(s: Seq<u8>, rest: Seq<u8>)
    requires
        split_tail(s, EXCL) == Some(rest),
        split_tail(rest, AT) is None,
    ensures
        parse_from_spec(s) is None,
{
}

/// A line whose origin token is rejected is rejected whole.
pub proof fn lemma_bad_origin_drops_line(s: Seq<u8>)
    requires
        parse_from_spec(split_head(split_head(s.skip(1), COLON), SPACE)) is None,
    ensures
        parse_server_line_spec(s) is None,
{
}

/// View of an optional entity.
pub open spec fn opt_entity_view(r: Option<Entity>) -> Option<EntityV> {
    match r {
        Some(e) => Some(e@),
        None => None,
    }
}

/// View of an optional message payload.
pub open spec fn opt_msgtype_view(r: Option<IRCMessageType>) -> Option<MsgTypeV> {
    match r {
        Some(m) => Some(m@),
        None => None,
    }
}

/// View of an optional message.
pub open spec fn opt_message_view(r: Option<IRCMessage>) -> Option<MessageV> {
    match r {
        Some(m) => Some(m@),
        None => None,
    }
}

/// A produced message carries the given receipt timestamp.
pub open spec fn msg_time_is(r: Option<IRCMessage>, now: i64) -> bool {
    match r {
        Some(m) => msg_time(m) == now,
        None => true,
    }
}

/// Relies on `time::OffsetDateTime::now_utc` and its `unix_timestamp`:
/// the current moment as whole seconds since the Unix epoch. Nothing can
/// be promised of a clock reading, so nothing more is stated.
#[verifier::external_body]
pub(crate) fn now_seconds() -> i64 {
    time::OffsetDateTime::now_utc().unix_timestamp()
}

pub fn parse_from(from_bytes: &Vec<u8>) -> (r: Option<Entity>)
    ensures
        opt_entity_view(r) == parse_from_spec(from_bytes@),
{
    let (nick, rest_opt) = split_first_at(from_bytes, EXCL);
    match rest_opt {
        None => Some(Entity::Server(nick)),
        Some(rest) => {
            let (username, addr_opt) = split_first_at(&rest, AT);
            match addr_opt {
                None => None,
                Some(address) => Some(
                    Entity::Client(Client { nick: nick, username: username, address: address }),
                ),
            }
        },
    }
}

pub fn make_message(message_type: &Vec<u8>, message: &Vec<u8>, meta: &Vec<u8>) -> (r: Option<
    IRCMessageType,
>)
    ensures
        opt_msgtype_view(r) == make_message_spec(message_type@, message@, meta@),
{
    let notice = notice_word_vec();
    if bytes_eq(message_type, &notice) {
        return Some(IRCMessageType::NOTICE(clone_bytes(message)));
    }
    let mode = mode_word_vec();
    if bytes_eq(message_type, &mode) {
        return Some(IRCMessageType::MODE(clone_bytes(meta)));
    }
    let privmsg = privmsg_word_vec();
    if bytes_eq(message_type, &privmsg) {
        return Some(IRCMessageType::PRIVMSG(clone_bytes(message)));
    }
    match parse_u64_in(message_type) {
        Some(i) => Some(IRCMessageType::INFO(i)),
        None => None,
    }
}

fn parse_server_line(line_bytes: &Vec<u8>, now: i64) -> (r: Option<IRCMessage>)
    requires
        line_bytes@.len() >= 1,
    ensures
        opt_message_view(r) == match parse_server_line_spec(line_bytes@) {
            Some(m) => Some(MessageV::ServerMessage(m)),
            None => None,
        },
        msg_time_is(r, now),
{
    let n = line_bytes.len();
    let rest = subvec(line_bytes, 1, n);
    proof {
        assert(rest@ =~= line_bytes@.skip(1));
    }
    let (meta, msg_opt) = split_first_at(&rest, COLON);
    let message = match msg_opt {
        Some(m) => m,
        None => Vec::new(),
    };
    let (from_tok, r1_opt) = split_first_at(&meta, SPACE);
    let from = match parse_from(&from_tok) {
        Some(f) => f,
        None => {
            return None;
        },
    };
    let r1 = match r1_opt {
        Some(x) => x,
        None => {
            return None;
        },
    };
    let (mtype, r2_opt) = split_first_at(&r1, SPACE);
    let r2 = match r2_opt {
        Some(x) => x,
        None => {
            return None;
        },
    };
    let (target, r3_opt) = split_first_at(&r2, SPACE);
    let additional = match r3_opt {
        Some(r3) => strip_byte_in(&r3, SPACE),
        None => Vec::new(),
    };
    let mt = match make_message(&mtype, &message, &additional) {
        Some(m) => m,
        None => {
            return None;
        },
    };
    Some(
        IRCMessage::IRCServerMessage(
            IRCServerMessage { from: from, message: mt, time: now, raw: rest, target: target },
        ),
    )
}

pub fn parse_line(line: &Vec<u8>, now: i64) -> (r: Option<IRCMessage>)
    ensures
        opt_message_view(r) == parse_line_spec(line@),
        msg_time_is(r, now),
{
    let len = line.len();
    if len < 3 {
        return None;
    }
    let stripped = subvec(line, 0, len - 2);
    proof {
        assert(stripped@ =~= line@.take(line@.len() - 2));
    }
    if stripped[0] == COLON {
        return parse_server_line(&stripped, now);
    }
    if stripped[0] == 80 && stripped.len() > 5 {
        let head = subvec(&stripped, 0, 4);
        let ping = ping_word_vec();
        if bytes_eq(&head, &ping) {
            proof {
                assert(stripped@.take(4) =~= stripped@.subrange(0, 4));
            }
            return Some(IRCMessage::IRCPing(IRCPing { time: now }));
        }
        proof {
            assert(stripped@.take(4) =~= stripped@.subrange(0, 4));
        }
        return None;
    }
    None
}

} // verus!
