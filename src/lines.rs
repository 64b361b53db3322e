//! The outbound protocol lines, and the splitting of a frame into lines.
use vstd::prelude::*;

use crate::text::{chars_of, find, first_occurrence, lemma_split_first_at, occurs_at, push_all, split_first, string_of};

verus! {

/// The capability request sent first on connect.
pub open spec fn spec_cap_request() -> Seq<char> {
    "CAP REQ :twitch.tv/membership twitch.tv/tags"@
}

/// `PASS oauth:<token>`
pub open spec fn spec_pass_line(token: Seq<char>) -> Seq<char> {
    "PASS oauth:"@ + token
}

/// `NICK <nick>`
pub open spec fn spec_nick_line(nick: Seq<char>) -> Seq<char> {
    "NICK "@ + nick
}

/// `JOIN #<channel>`
pub open spec fn spec_join_line(channel: Seq<char>) -> Seq<char> {
    "JOIN #"@ + channel
}

/// `PONG :<server_name>`
pub open spec fn spec_pong_line(server_name: Seq<char>) -> Seq<char> {
    "PONG :"@ + server_name
}

/// `PRIVMSG #<channel> :<body>!`
pub open spec fn spec_chat_line(channel: Seq<char>, body: Seq<char>) -> Seq<char> {
    "PRIVMSG #"@ + channel + " :"@ + body + "!"@
}

/// The four handshake lines, in the order in which they are sent.
pub open spec fn spec_handshake_lines(
    token: Seq<char>,
    nick: Seq<char>,
    channel: Seq<char>,
) -> Seq<Seq<char>> {
    seq![spec_cap_request(), spec_pass_line(token), spec_nick_line(nick), spec_join_line(channel)]
}

/// The capability request.
pub fn cap_request() -> (r: String)
    ensures
        r@ == spec_cap_request(),
{
    let mut r = String::new();
    push_all(&mut r, "CAP REQ :twitch.tv/membership twitch.tv/tags");
    r
}

/// The password line that carries the token.
pub fn pass_line(token: &str) -> (r: String)
    ensures
        r@ == spec_pass_line(token@),
{
    let mut r = String::new();
    push_all(&mut r, "PASS oauth:");
    push_all(&mut r, token);
    r
}

/// The nickname line.
pub fn nick_line(nick: &str) -> (r: String)
    ensures
        r@ == spec_nick_line(nick@),
{
    let mut r = String::new();
    push_all(&mut r, "NICK ");
    push_all(&mut r, nick);
    r
}

/// The line that joins a channel.
pub fn join_line(channel: &str) -> (r: String)
    ensures
        r@ == spec_join_line(channel@),
{
    let mut r = String::new();
    push_all(&mut r, "JOIN #");
    push_all(&mut r, channel);
    r
}

/// The answer to a server's keepalive request.
pub fn pong_line(server_name: &str) -> (r: String)
    ensures
        r@ == spec_pong_line(server_name@),
{
    let mut r = String::new();
    push_all(&mut r, "PONG :");
    push_all(&mut r, server_name);
    r
}

/// A chat message to a channel. A `!` is appended to the body.
pub fn chat_line(channel: &str, body: &str) -> (r: String)
    ensures
        r@ == spec_chat_line(channel@, body@),
{
    let mut r = String::new();
    push_all(&mut r, "PRIVMSG #");
    push_all(&mut r, channel);
    push_all(&mut r, " :");
    push_all(&mut r, body);
    push_all(&mut r, "!");
    r
}

/// The handshake lines for a token, a nick and a channel.
pub fn handshake_lines(token: &str, nick: &str, channel: &str) -> (r: Vec<String>)
    ensures
        r@.len() == 4,
        forall|i: int| 0 <= i < 4 ==> r@[i]@ == spec_handshake_lines(token@, nick@, channel@)[i],
{
    let mut r: Vec<String> = Vec::new();
    r.push(cap_request());
    r.push(pass_line(token));
    r.push(nick_line(nick));
    r.push(join_line(channel));
    r
}

/// A line without its final `\r`, if it has one.
pub open spec fn strip_cr(l: Seq<char>) -> Seq<char> {
    if l.len() > 0 && l.last() == '\r' {
        l.drop_last()
    } else {
        l
    }
}

/// The lines of a text: split at each `\n`, a `\r` right before it dropped; a final
/// `\n` ends the last line and starts no other.
pub open spec fn spec_lines(t: Seq<char>) -> Seq<Seq<char>>
    decreases t.len(),
{
    if t.len() == 0 {
        Seq::empty()
    } else if exists|i: int| first_occurrence(t, seq!['\n'], i) {
        let i = choose|i: int| first_occurrence(t, seq!['\n'], i);
        seq![strip_cr(t.take(i))] + spec_lines(t.skip(i + 1))
    } else {
        seq![t]
    }
}

/// The lines of a text frame.
pub fn split_lines(text: &str) -> (r: Vec<String>)
    ensures
        r@.map_values(|l: String| l@) == spec_lines(text@),
{
    let v = chars_of(text);
    let newline = vec!['\n'];
    assert(newline@ == seq!['\n']);
    let mut r: Vec<String> = Vec::new();
    let mut start: usize = 0;
    assert(v@.skip(0) =~= v@);
    assert(r@.map_values(|l: String| l@) + spec_lines(v@.skip(0)) =~= spec_lines(v@));
    while start < v.len()
        invariant
            start <= v.len(),
            newline@ == seq!['\n'],
            r@.map_values(|l: String| l@) + spec_lines(v@.skip(start as int)) == spec_lines(text@),
            v@ == text@,
        decreases v.len() - start,
    {
        let ghost rest = v@.skip(start as int);
        let ghost before = r@.map_values(|l: String| l@);
        match crate::text::find_from(&v, &newline, start) {
            Some(i) => {
                proof {
                    assert forall|j: int| 0 <= j < i - start implies !occurs_at(rest, seq!['\n'], j) by {
                        if occurs_at(rest, seq!['\n'], j) {
                            assert(rest.subrange(j, j + 1) =~= v@.subrange(start + j, start + j + 1));
                            assert(occurs_at(v@, newline@, start + j));
                        }
                    }
                    assert(rest.subrange(i - start, i - start + 1) =~= v@.subrange(i as int, i + 1));
                    lemma_split_first_at(rest, seq!['\n'], i - start);
                    let k = choose|k: int| first_occurrence(rest, seq!['\n'], k);
                    crate::text::lemma_first_occurrence_unique(rest, seq!['\n'], i - start, k);
                    assert(rest.skip(i - start + 1) =~= v@.skip(i + 1));
                }
                let mut end: usize = i;
                if end > start && v[end - 1] == '\r' {
                    end = end - 1;
                }
                let line = string_of(&v, start, end);
                assert(line@ =~= strip_cr(rest.take(i - start)));
                r.push(line);
                assert(r@.map_values(|l: String| l@) =~= before.push(line@));
                assert(before.push(line@) + spec_lines(v@.skip(i + 1)) =~= before + (seq![line@] + spec_lines(v@.skip(i + 1))));
                start = i + 1;
            },
            None => {
                proof {
                    assert forall|j: int| 0 <= j implies !first_occurrence(rest, seq!['\n'], j) by {
                        if occurs_at(rest, seq!['\n'], j) {
                            assert(rest.subrange(j, j + 1) =~= v@.subrange(start + j, start + j + 1));
                            assert(occurs_at(v@, newline@, start + j));
                        }
                    }
                }
                let line = string_of(&v, start, v.len());
                assert(line@ =~= rest);
                r.push(line);
                assert(r@.map_values(|l: String| l@) =~= before.push(line@));
                assert(v@.skip(v.len() as int) =~= Seq::<char>::empty());
                assert(before.push(line@) =~= before + seq![rest]);
                start = v.len();
            },
        }
    }
    assert(v@.skip(start as int) =~= Seq::<char>::empty());
    assert(r@.map_values(|l: String| l@) + Seq::empty() =~= r@.map_values(|l: String| l@));
    r
}

} // verus!
