//! Pure translation between wire lines and structured values.
//!
//! The protocol is asymmetric. Inbound lines (server to client) carry a
//! tag, a space, and tag-specific fields split at the first remaining
//! space. Outbound lines (client to server) are either a slash command
//! sent verbatim without the slash, or `m <text>` for a plain message.
//! Every line on the wire ends with exactly one `'\n'`; decoding expects
//! the terminator already stripped, encoding appends it.

use vstd::prelude::*;
use vstd::string::*;

verus! {

/// `i` is the position of the first occurrence of `c` in `s`.
pub open spec fn is_first_at(s: Seq<char>, c: char, i: int) -> bool {
    &&& 0 <= i < s.len()
    &&& s[i] == c
    &&& forall|j: int| 0 <= j < i ==> s[j] != c
}

/// The position of the first occurrence of `c` in `s`, if any.
pub open spec fn first_index(s: Seq<char>, c: char) -> Option<int> {
    if exists|i: int| is_first_at(s, c, i) {
        Some(choose|i: int| is_first_at(s, c, i))
    } else {
        None
    }
}

/// The first occurrence is unique, so a witness pins `first_index` down.
pub proof fn lemma_first_index_at(s: Seq<char>, c: char, i: int)
    requires
        is_first_at(s, c, i),
    ensures
        first_index(s, c) == Some(i),
{
    let w = choose|k: int| is_first_at(s, c, k);
    if w < i {
        assert(s[w] != c);
    } else if i < w {
        assert(s[i] != c);
    }
}

pub proof fn lemma_first_index_none(s: Seq<char>, c: char)
    requires
        forall|j: int| 0 <= j < s.len() ==> s[j] != c,
    ensures
        first_index(s, c) is None,
{
    if exists|i: int| is_first_at(s, c, i) {
        let w = choose|i: int| is_first_at(s, c, i);
        assert(s[w] != c);
    }
}

/// Split `s` at its first space: the part before and the part after,
/// neither containing the space itself. `None` when `s` has no space.
pub open spec fn split_first_space(s: Seq<char>) -> Option<(Seq<char>, Seq<char>)> {
    match first_index(s, ' ') {
        Some(i) => Some((s.subrange(0, i), s.subrange(i + 1, s.len() as int))),
        None => None,
    }
}

/// Index of the first occurrence of `c` in `s` at or after `start`.
pub(crate) fn find_char_from(s: &str, start: usize, c: char) -> (r: Option<usize>)
    requires
        start <= s@.len(),
    ensures
        match r {
            Some(i) => {
                &&& start <= i < s@.len()
                &&& s@[i as int] == c
                &&& forall|j: int| start <= j < i ==> s@[j] != c
            },
            None => forall|j: int| start <= j < s@.len() ==> s@[j] != c,
        },
{
    let n = s.unicode_len();
    let mut i = start;
    while i < n
        invariant
            start <= i <= n,
            n == s@.len(),
            forall|j: int| start <= j < i ==> s@[j] != c,
        decreases n - i,
    {
        if s.get_char(i) == c {
            return Some(i);
        }
        i = i + 1;
    }
    None
}

/// The outbound encoding of one raw user-entered string: a leading `'/'`
/// is stripped and the remainder passed through, anything else becomes a
/// plain chat message `m <text>`; both end with the line terminator.
pub open spec fn encode_outbound_spec(text: Seq<char>) -> Seq<char> {
    if text.len() > 0 && text[0] == '/' {
        text.subrange(1, text.len() as int) + seq!['\n']
    } else {
        seq!['m', ' '] + text + seq!['\n']
    }
}

/// The session-opening line: the display name and the terminator.
pub open spec fn handshake_spec(name: Seq<char>) -> Seq<char> {
    name + seq!['\n']
}

/// The address a session connects to: the configured server string, with
/// the default port appended when it names no port of its own.
pub open spec fn server_addr_spec(server: Seq<char>) -> Seq<char> {
    if server.contains(':') {
        server
    } else {
        server + seq![':', '6', '0', '7', '8']
    }
}

/// Encode one raw user-entered string as the line to write to the socket.
pub fn encode_outbound(text: &str) -> (r: String)
    ensures
        r@ == encode_outbound_spec(text@),
{
    let n = text.unicode_len();
    if n > 0 && text.get_char(0) == '/' {
        let body = text.substring_char(1, n);
        let mut out = body.to_owned();
        out.append("\n");
        proof {
            reveal_strlit("\n");
            assert(out@ =~= encode_outbound_spec(text@));
        }
        out
    } else {
        let mut out = String::from_str("m ");
        out.append(text);
        out.append("\n");
        proof {
            reveal_strlit("m ");
            reveal_strlit("\n");
            assert(out@ =~= encode_outbound_spec(text@));
        }
        out
    }
}

/// Encode the handshake line for a display name.
pub fn encode_handshake(name: &str) -> (r: String)
    ensures
        r@ == handshake_spec(name@),
{
    let mut out = name.to_owned();
    out.append("\n");
    proof {
        reveal_strlit("\n");
        assert(out@ =~= handshake_spec(name@));
    }
    out
}

/// Resolve the configured server string to the address to connect to,
/// appending the default port when none is given.
pub fn server_addr(server: &str) -> (r: String)
    ensures
        r@ == server_addr_spec(server@),
{
    let has_port = find_char_from(server, 0, ':');
    match has_port {
        Some(i) => {
            proof {
                assert(server@[i as int] == ':');
                assert(server@.contains(':'));
            }
            server.to_owned()
        },
        None => {
            let mut out = server.to_owned();
            out.append(":6078");
            proof {
                assert(!server@.contains(':'));
                reveal_strlit(":6078");
                assert(out@ =~= server_addr_spec(server@));
            }
            out
        },
    }
}

} // verus!
