//! Decoding of one chat protocol line into a typed message.
use vstd::prelude::*;

use crate::tags::{tags_map, Tags};
use crate::text::{
    chars_of, find, first_occurrence, lacks, lemma_split_first_at, lemma_split_first_char,
    lemma_split_first_joined, occurs_at, slice_of, split_first, starts_with, string_of,
};

verus! {

/// `PING :`
pub open spec fn ping_prefix() -> Seq<char> {
    seq!['P', 'I', 'N', 'G', ' ', ':']
}

/// `PRIVMSG #`, after the origin.
pub open spec fn privmsg_command() -> Seq<char> {
    seq!['P', 'R', 'I', 'V', 'M', 'S', 'G', ' ', '#']
}

/// `JOIN #`, after the origin.
pub open spec fn join_command() -> Seq<char> {
    seq!['J', 'O', 'I', 'N', ' ', '#']
}

/// `PART #`, after the origin.
pub open spec fn part_command() -> Seq<char> {
    seq!['P', 'A', 'R', 'T', ' ', '#']
}

/// ` :`, which ends the channel of a chat message.
pub open spec fn body_separator() -> Seq<char> {
    seq![' ', ':']
}

/// What a decoded line holds, over sequences of characters.
pub enum MessageModel {
    PrivMsg {
        nick: Seq<char>,
        canonical_nick: Seq<char>,
        channel: Seq<char>,
        body: Seq<char>,
        tags: Map<Seq<char>, Seq<char>>,
    },
    Ping { server_name: Seq<char> },
    Join { nick: Seq<char>, canonical_nick: Seq<char>, channel: Seq<char> },
    Part { nick: Seq<char>, canonical_nick: Seq<char>, channel: Seq<char> },
    Other { raw: Seq<char> },
}

/// One `key=value` pair: the key runs up to the first `=`, the value is the rest.
pub open spec fn spec_key_value(piece: Seq<char>) -> Option<(Seq<char>, Seq<char>)> {
    split_first(piece, seq!['='])
}

/// The pairs of a tag block (the text between `@` and the first space), which are
/// separated by `;`. `None` where a pair has no `=`.
pub open spec fn spec_tag_pairs(block: Seq<char>) -> Option<Seq<(Seq<char>, Seq<char>)>>
    decreases block.len(),
{
    if exists|i: int| first_occurrence(block, seq![';'], i) {
        let i = choose|i: int| first_occurrence(block, seq![';'], i);
        match (spec_key_value(block.take(i)), spec_tag_pairs(block.skip(i + 1))) {
            (Some(kv), Some(ps)) => Some(seq![kv] + ps),
            _ => None,
        }
    } else {
        match spec_key_value(block) {
            Some(kv) => Some(seq![kv]),
            None => None,
        }
    }
}

/// The origin `:<nick>!<canonical_nick> ` at the start of a line: the nick runs up to
/// the first `!`, the canonical nick from there up to the first space. Gives the two
/// and the text after that space.
pub open spec fn spec_origin(s: Seq<char>) -> Option<(Seq<char>, Seq<char>, Seq<char>)> {
    if s.len() > 0 && s[0] == ':' {
        match split_first(s.skip(1), seq!['!']) {
            Some((nick, r)) => match split_first(r, seq![' ']) {
                Some((canonical_nick, after)) => Some((nick, canonical_nick, after)),
                None => None,
            },
            None => None,
        }
    } else {
        None
    }
}

/// The optional tag block at the start of a line: its map and the text after the
/// block's terminating space. A line without `@` has no tags. `None` where the
/// block is malformed.
pub open spec fn spec_tag_prefix(line: Seq<char>) -> Option<(Map<Seq<char>, Seq<char>>, Seq<char>)> {
    if line.len() > 0 && line[0] == '@' {
        match split_first(line.skip(1), seq![' ']) {
            Some((block, rest)) => match spec_tag_pairs(block) {
                Some(ps) => Some((tags_map(ps), rest)),
                None => None,
            },
            None => None,
        }
    } else {
        Some((Map::empty(), line))
    }
}

/// A chat message: tags, origin, `PRIVMSG #<channel> :<body>`.
pub open spec fn spec_priv_msg(line: Seq<char>) -> Option<MessageModel> {
    match spec_tag_prefix(line) {
        Some((tags, rest)) => match spec_origin(rest) {
            Some((nick, canonical_nick, after)) => if starts_with(after, privmsg_command()) {
                match split_first(after.skip(9), body_separator()) {
                    Some((channel, body)) => Some(
                        MessageModel::PrivMsg { nick, canonical_nick, channel, body, tags },
                    ),
                    None => None,
                }
            } else {
                None
            },
            None => None,
        },
        None => None,
    }
}

/// A membership change: origin, then `JOIN #<channel>` or `PART #<channel>`.
pub open spec fn spec_join_or_part(line: Seq<char>) -> Option<MessageModel> {
    match spec_origin(line) {
        Some((nick, canonical_nick, after)) => if starts_with(after, join_command()) {
            Some(MessageModel::Join { nick, canonical_nick, channel: after.skip(6) })
        } else if starts_with(after, part_command()) {
            Some(MessageModel::Part { nick, canonical_nick, channel: after.skip(6) })
        } else {
            None
        },
        None => None,
    }
}

/// The message that a line holds: a ping, a chat message, a join or a part, tried in
/// that order, and otherwise the line itself.
pub open spec fn spec_parse(line: Seq<char>) -> MessageModel {
    if starts_with(line, ping_prefix()) {
        MessageModel::Ping { server_name: line.skip(6) }
    } else if let Some(m) = spec_priv_msg(line) {
        m
    } else if let Some(m) = spec_join_or_part(line) {
        m
    } else {
        MessageModel::Other { raw: line }
    }
}

/// A decoded line.
#[derive(Debug, Clone, PartialEq, Eq)]
pub enum Msg {
    /// A chat message; `msg` is its body.
    PrivMsg { nick: String, canonical_nick: String, msg: String, channel: String, tags: Tags },
    /// A keepalive request from the server.
    Ping { server_name: String },
    /// A user joined a channel.
    Join { nick: String, canonical_nick: String, channel: String },
    /// A user left a channel.
    Part { nick: String, canonical_nick: String, channel: String },
    /// Any other line, unchanged.
    Other { msg: String },
}

impl Msg {
    /// The tags of a chat message keep each key once.
    pub open spec fn wf(&self) -> bool {
        match self {
            Msg::PrivMsg { tags, .. } => tags.wf(),
            _ => true,
        }
    }
}

impl View for Msg {
    type V = MessageModel;

    open spec fn view(&self) -> MessageModel {
        match self {
            Msg::PrivMsg { nick, canonical_nick, msg, channel, tags } => MessageModel::PrivMsg {
                nick: nick@,
                canonical_nick: canonical_nick@,
                channel: channel@,
                body: msg@,
                tags: tags@,
            },
            Msg::Ping { server_name } => MessageModel::Ping { server_name: server_name@ },
            Msg::Join { nick, canonical_nick, channel } => MessageModel::Join {
                nick: nick@,
                canonical_nick: canonical_nick@,
                channel: channel@,
            },
            Msg::Part { nick, canonical_nick, channel } => MessageModel::Part {
                nick: nick@,
                canonical_nick: canonical_nick@,
                channel: channel@,
            },
            Msg::Other { msg } => MessageModel::Other { raw: msg@ },
        }
    }
}

/// Whether `v` begins with `p`.
fn has_prefix(v: &Vec<char>, p: &Vec<char>) -> (r: bool)
    ensures
        r == starts_with(v@, p@),
{
    crate::text::matches_at(v, p, 0)
}

/// Splits `v` around the first occurrence of `p`.
fn split_at_first(v: &Vec<char>, p: &Vec<char>) -> (r: Option<(Vec<char>, Vec<char>)>)
    requires
        p.len() > 0,
    ensures
        match r {
            Some((a, b)) => split_first(v@, p@) == Some((a@, b@)),
            None => split_first(v@, p@) is None,
        },
{
    match find(v, p) {
        Some(i) => {
            proof {
                lemma_split_first_at(v@, p@, i as int);
            }
            assert(occurs_at(v@, p@, i as int));
            assert(i + p@.len() <= v@.len());
            assert(i + p.len() <= v.len());
            let a = slice_of(v, 0, i);
            let b = slice_of(v, i + p.len(), v.len());
            assert(a@ =~= v@.take(i as int));
            assert(b@ =~= v@.skip(i + p.len()));
            Some((a, b))
        },
        None => {
            assert(!exists|i: int| first_occurrence(v@, p@, i));
            None
        },
    }
}

/// The string holding the characters of `v`.
fn string_from(v: &Vec<char>) -> (r: String)
    ensures
        r@ == v@,
{
    let r = string_of(v, 0, v.len());
    assert(v@.subrange(0, v.len() as int) =~= v@);
    r
}

/// The origin at the start of a line: nick, canonical nick and what follows the space.
fn parse_nick(v: &Vec<char>) -> (r: Option<(String, String, Vec<char>)>)
    ensures
        match r {
            Some((nick, canonical_nick, after)) => spec_origin(v@) == Some(
                (nick@, canonical_nick@, after@),
            ),
            None => spec_origin(v@) is None,
        },
{
    if v.len() == 0 || v[0] != ':' {
        return None;
    }
    let tail = slice_of(v, 1, v.len());
    assert(tail@ =~= v@.skip(1));
    let bang = vec!['!'];
    let space = vec![' '];
    assert(bang@ == seq!['!']);
    assert(space@ == seq![' ']);
    match split_at_first(&tail, &bang) {
        Some((nick, r)) => match split_at_first(&r, &space) {
            Some((canonical_nick, after)) => Some(
                (string_from(&nick), string_from(&canonical_nick), after),
            ),
            None => None,
        },
        None => None,
    }
}

/// A line that starts with `PING :`.
fn parse_ping(v: &Vec<char>) -> (r: Option<Msg>)
    ensures
        match r {
            Some(m) => starts_with(v@, ping_prefix()) && m@ == (MessageModel::Ping {
                server_name: v@.skip(6),
            }),
            None => !starts_with(v@, ping_prefix()),
        },
{
    let prefix = vec!['P', 'I', 'N', 'G', ' ', ':'];
    assert(prefix@ == ping_prefix());
    if has_prefix(v, &prefix) {
        let server_name = string_of(v, 6, v.len());
        assert(server_name@ =~= v@.skip(6));
        Some(Msg::Ping { server_name })
    } else {
        None
    }
}

/// One `key=value` pair of a tag block.
fn parse_key_values(piece: &Vec<char>) -> (r: Option<(String, String)>)
    ensures
        match r {
            Some((k, v)) => spec_key_value(piece@) == Some((k@, v@)),
            None => spec_key_value(piece@) is None,
        },
{
    let equals = vec!['='];
    assert(equals@ == seq!['=']);
    match split_at_first(piece, &equals) {
        Some((k, v)) => Some((string_from(&k), string_from(&v))),
        None => None,
    }
}

/// The tags of a tag block (the text between `@` and the first space).
fn parse_tag_block(block: &Vec<char>) -> (r: Option<Tags>)
    ensures
        match r {
            Some(t) => t.wf() && spec_tag_pairs(block@) is Some && t@ == tags_map(
                spec_tag_pairs(block@)->0,
            ),
            None => spec_tag_pairs(block@) is None,
        },
{
    let semicolon = vec![';'];
    assert(semicolon@ == seq![';']);
    let mut tags = Tags::new();
    let mut rest = string_chars(block);
    let ghost mut done: Seq<(Seq<char>, Seq<char>)> = Seq::empty();
    assert(tags_map(done) =~= Map::empty());
    assert(done + Seq::empty() =~= Seq::<(Seq<char>, Seq<char>)>::empty());
    loop
        invariant
            tags.wf(),
            semicolon@ == seq![';'],
            tags@ == tags_map(done),
            spec_tag_pairs(block@) == match spec_tag_pairs(rest@) {
                Some(ps) => Some(done + ps),
                None => None,
            },
        decreases rest.len(),
    {
        match split_at_first(&rest, &semicolon) {
            Some((piece, next)) => {
                assert(piece@ == rest@.take(piece@.len() as int));
                match parse_key_values(&piece) {
                    Some((k, v)) => {
                        let ghost kv = (k@, v@);
                        tags.insert(k, v);
                        proof {
                            assert(done.push(kv).drop_last() =~= done);
                            if let Some(ps) = spec_tag_pairs(next@) {
                                assert(done + (seq![kv] + ps) =~= done.push(kv) + ps);
                            }
                            done = done.push(kv);
                        }
                        rest = next;
                    },
                    None => {
                        return None;
                    },
                }
            },
            None => {
                match parse_key_values(&rest) {
                    Some((k, v)) => {
                        let ghost kv = (k@, v@);
                        tags.insert(k, v);
                        proof {
                            assert(done + seq![kv] =~= done.push(kv));
                            assert(done.push(kv).drop_last() =~= done);
                        }
                        return Some(tags);
                    },
                    None => {
                        return None;
                    },
                }
            },
        }
    }
}

/// A copy of `v`.
fn string_chars(v: &Vec<char>) -> (r: Vec<char>)
    ensures
        r@ == v@,
{
    let r = slice_of(v, 0, v.len());
    assert(v@.subrange(0, v.len() as int) =~= v@);
    r
}

/// The optional tag block at the start of a line, and the text after it.
fn parse_tag_prefix(v: &Vec<char>) -> (r: Option<(Tags, Vec<char>)>)
    ensures
        match r {
            Some((t, rest)) => t.wf() && spec_tag_prefix(v@) == Some((t@, rest@)),
            None => spec_tag_prefix(v@) is None,
        },
{
    if v.len() > 0 && v[0] == '@' {
        let tail = slice_of(v, 1, v.len());
        assert(tail@ =~= v@.skip(1));
        let space = vec![' '];
        assert(space@ == seq![' ']);
        match split_at_first(&tail, &space) {
            Some((block, rest)) => match parse_tag_block(&block) {
                Some(tags) => Some((tags, rest)),
                None => None,
            },
            None => None,
        }
    } else {
        Some((Tags::new(), string_chars(v)))
    }
}

/// The tags of a line that starts with a tag block, whose map `spec_tag_prefix` gives.
pub open spec fn spec_tags_of(line: Seq<char>) -> Option<Map<Seq<char>, Seq<char>>> {
    if line.len() > 0 && line[0] == '@' {
        match spec_tag_prefix(line) {
            Some((tags, _)) => Some(tags),
            None => None,
        }
    } else {
        None
    }
}

/// The tags of the tag block at the start of a line: `@`, then `key=value` pairs
/// separated by `;`, then a space. `None` where the line has no such block.
pub fn parse_tags(input: &str) -> (r: Option<Tags>)
    ensures
        match r {
            Some(t) => t.wf() && spec_tags_of(input@) == Some(t@),
            None => spec_tags_of(input@) is None,
        },
{
    let v = chars_of(input);
    if v.len() == 0 || v[0] != '@' {
        return None;
    }
    match parse_tag_prefix(&v) {
        Some((tags, _)) => Some(tags),
        None => None,
    }
}

/// A chat message, with or without tags.
fn parse_priv_msg(v: &Vec<char>) -> (r: Option<Msg>)
    ensures
        match r {
            Some(m) => spec_priv_msg(v@) == Some(m@) && m.wf(),
            None => spec_priv_msg(v@) is None,
        },
{
    let (tags, rest) = match parse_tag_prefix(v) {
        Some(p) => p,
        None => {
            return None;
        },
    };
    let (nick, canonical_nick, after) = match parse_nick(&rest) {
        Some(o) => o,
        None => {
            return None;
        },
    };
    let command = vec!['P', 'R', 'I', 'V', 'M', 'S', 'G', ' ', '#'];
    assert(command@ == privmsg_command());
    if !has_prefix(&after, &command) {
        return None;
    }
    let tail = slice_of(&after, 9, after.len());
    assert(tail@ =~= after@.skip(9));
    let separator = vec![' ', ':'];
    assert(separator@ == body_separator());
    match split_at_first(&tail, &separator) {
        Some((channel, body)) => Some(
            Msg::PrivMsg {
                nick,
                canonical_nick,
                msg: string_from(&body),
                channel: string_from(&channel),
                tags,
            },
        ),
        None => None,
    }
}

/// A join or a part.
fn parse_join_or_part(v: &Vec<char>) -> (r: Option<Msg>)
    ensures
        match r {
            Some(m) => spec_join_or_part(v@) == Some(m@),
            None => spec_join_or_part(v@) is None,
        },
{
    let (nick, canonical_nick, after) = match parse_nick(v) {
        Some(o) => o,
        None => {
            return None;
        },
    };
    let join = vec!['J', 'O', 'I', 'N', ' ', '#'];
    let part = vec!['P', 'A', 'R', 'T', ' ', '#'];
    assert(join@ == join_command());
    assert(part@ == part_command());
    if has_prefix(&after, &join) {
        let channel = string_of(&after, 6, after.len());
        assert(channel@ =~= after@.skip(6));
        Some(Msg::Join { nick, canonical_nick, channel })
    } else if has_prefix(&after, &part) {
        let channel = string_of(&after, 6, after.len());
        assert(channel@ =~= after@.skip(6));
        Some(Msg::Part { nick, canonical_nick, channel })
    } else {
        None
    }
}

/// Any line, unchanged.
fn parse_other(input: &str) -> (r: Msg)
    ensures
        r@ == (MessageModel::Other { raw: input@ }),
{
    Msg::Other { msg: input.to_owned() }
}

/// Decodes one line. Every line gives exactly one message: a line that is no
/// ping, chat message, join or part comes back as `Other`, unchanged.
pub fn parse_msg(input: &str) -> (r: Msg)
    ensures
        r@ == spec_parse(input@),
        r.wf(),
{
    let v = chars_of(input);
    if let Some(m) = parse_ping(&v) {
        return m;
    }
    if let Some(m) = parse_priv_msg(&v) {
        return m;
    }
    if let Some(m) = parse_join_or_part(&v) {
        return m;
    }
    parse_other(input)
}

/// The line `:<nick>!<canonical_nick> PRIVMSG #<channel> :<body>`.
pub open spec fn priv_msg_line(
    nick: Seq<char>,
    canonical_nick: Seq<char>,
    channel: Seq<char>,
    body: Seq<char>,
) -> Seq<char> {
    seq![':'] + nick + seq!['!'] + canonical_nick + seq![' '] + privmsg_command() + channel
        + body_separator() + body
}

/// The origin and the channel and body of a chat line without tags.
proof fn lemma_priv_msg_parts(
    nick: Seq<char>,
    canonical_nick: Seq<char>,
    channel: Seq<char>,
    body: Seq<char>,
)
    requires
        lacks(nick, '!'),
        lacks(canonical_nick, ' '),
        forall|j: int| !occurs_at(channel, body_separator(), j),
    ensures
        spec_origin(priv_msg_line(nick, canonical_nick, channel, body)) == Some(
            (nick, canonical_nick, privmsg_command() + channel + body_separator() + body),
        ),
        split_first(channel + body_separator() + body, body_separator()) == Some((channel, body)),
{
    let line = priv_msg_line(nick, canonical_nick, channel, body);
    let after = privmsg_command() + channel + body_separator() + body;
    let r = canonical_nick + seq![' '] + after;
    assert(line.skip(1) =~= nick + seq!['!'] + r);
    lemma_split_first_char(nick, '!', r);
    lemma_split_first_char(canonical_nick, ' ', after);
    let s = channel + body_separator() + body;
    assert forall|j: int| 0 <= j < channel.len() implies !occurs_at(s, body_separator(), j) by {
        if occurs_at(s, body_separator(), j) {
            if j + 2 <= channel.len() {
                assert(channel.subrange(j, j + 2) =~= s.subrange(j, j + 2));
                assert(occurs_at(channel, body_separator(), j));
            } else {
                assert(s.subrange(j, j + 2)[1] == s[j + 1]);
            }
        }
    }
    lemma_split_first_joined(channel, body_separator(), body);
}

/// A chat line without tags gives back its nick, canonical nick, channel and body
/// exactly, with no tags. The nick holds no `!`, the canonical nick no space, and
/// the channel no ` :`.
pub proof fn lemma_parse_priv_msg(
    nick: Seq<char>,
    canonical_nick: Seq<char>,
    channel: Seq<char>,
    body: Seq<char>,
)
    requires
        lacks(nick, '!'),
        lacks(canonical_nick, ' '),
        forall|j: int| !occurs_at(channel, body_separator(), j),
    ensures
        spec_parse(priv_msg_line(nick, canonical_nick, channel, body)) == (MessageModel::PrivMsg {
            nick,
            canonical_nick,
            channel,
            body,
            tags: Map::empty(),
        }),
{
    let line = priv_msg_line(nick, canonical_nick, channel, body);
    lemma_priv_msg_parts(nick, canonical_nick, channel, body);
    assert(line[0] == ':');
    assert(line.subrange(0, 6)[0] == line[0]);
    let after = privmsg_command() + channel + body_separator() + body;
    assert(after.subrange(0, 9) =~= privmsg_command());
    assert(after.skip(9) =~= channel + body_separator() + body);
}

/// A tag block without spaces, then a space, is read off the front of a line.
proof fn lemma_tag_prefix(block: Seq<char>, rest: Seq<char>)
    requires
        lacks(block, ' '),
        spec_tag_pairs(block) is Some,
    ensures
        spec_tag_prefix(seq!['@'] + block + seq![' '] + rest) == Some(
            (tags_map(spec_tag_pairs(block)->0), rest),
        ),
{
    let line = seq!['@'] + block + seq![' '] + rest;
    assert(line[0] == '@');
    assert(line.skip(1) =~= block + seq![' '] + rest);
    lemma_split_first_char(block, ' ', rest);
}

/// A chat line behind a well-formed tag block gives back its nick, canonical nick,
/// channel and body exactly, and the map of the block's pairs.
#[verifier::rlimit(40)]
pub proof fn lemma_parse_tagged_priv_msg(
    block: Seq<char>,
    nick: Seq<char>,
    canonical_nick: Seq<char>,
    channel: Seq<char>,
    body: Seq<char>,
)
    requires
        lacks(block, ' '),
        spec_tag_pairs(block) is Some,
        lacks(nick, '!'),
        lacks(canonical_nick, ' '),
        forall|j: int| !occurs_at(channel, body_separator(), j),
    ensures
        spec_parse(
            seq!['@'] + block + seq![' '] + priv_msg_line(nick, canonical_nick, channel, body),
        ) == (MessageModel::PrivMsg {
            nick,
            canonical_nick,
            channel,
            body,
            tags: tags_map(spec_tag_pairs(block)->0),
        }),
{
    let rest = priv_msg_line(nick, canonical_nick, channel, body);
    let line = seq!['@'] + block + seq![' '] + rest;
    lemma_priv_msg_parts(nick, canonical_nick, channel, body);
    lemma_tag_prefix(block, rest);
    assert(line.subrange(0, 6)[0] == line[0]);
    let tags = tags_map(spec_tag_pairs(block)->0);
    let after = privmsg_command() + channel + body_separator() + body;
    assert(after.subrange(0, 9) =~= privmsg_command());
    assert(after.skip(9) =~= channel + body_separator() + body);
    assert(spec_priv_msg(line) == Some(
        MessageModel::PrivMsg { nick, canonical_nick, channel, body, tags },
    ));
    assert(!starts_with(line, ping_prefix()));
}

/// Decoding depends on the line alone: equal lines decode to equal messages.
pub proof fn lemma_parse_pure(a: Seq<char>, b: Seq<char>)
    requires
        a == b,
    ensures
        spec_parse(a) == spec_parse(b),
{
}

/// A line that is no ping, chat message, join or part decodes to itself, unchanged.
pub proof fn lemma_parse_other(line: Seq<char>)
    requires
        !starts_with(line, ping_prefix()),
        spec_priv_msg(line) is None,
        spec_join_or_part(line) is None,
    ensures
        spec_parse(line) == (MessageModel::Other { raw: line }),
{
}

/// The empty line decodes to an empty `Other`.
pub proof fn lemma_parse_empty()
    ensures
        spec_parse(Seq::empty()) == (MessageModel::Other { raw: Seq::empty() }),
{
}

/// A tag written with nothing after its `=` holds the empty value.
pub proof fn lemma_empty_tag_value(key: Seq<char>)
    requires
        lacks(key, '='),
    ensures
        spec_key_value(key + seq!['=']) == Some((key, Seq::<char>::empty())),
{
    lemma_split_first_char(key, '=', Seq::empty());
    assert(key + seq!['='] + Seq::<char>::empty() =~= key + seq!['=']);
}

} // verus!
