//! Structured in-process representations of protocol occurrences: the
//! decoded inbound events, the connection lifecycle states, and the
//! combined signal a session delivers to its consumer.

use vstd::prelude::*;
use vstd::string::*;

use crate::codec::{first_index, is_first_at, split_first_space};

verus! {

/// One decoded inbound protocol occurrence.
#[derive(Debug, PartialEq)]
pub enum ChatCommands {
    Message { sender: String, message: String },
    UserConnected { name: String },
    UserDisconnected { name: String },
    UserRenamed { oldname: String, newname: String },
}

/// The mathematical value of a [`ChatCommands`]: the same shape over
/// character sequences.
pub ghost enum ChatV {
    Message { sender: Seq<char>, message: Seq<char> },
    UserConnected { name: Seq<char> },
    UserDisconnected { name: Seq<char> },
    UserRenamed { oldname: Seq<char>, newname: Seq<char> },
}

impl View for ChatCommands {
    type V = ChatV;

    open spec fn view(&self) -> ChatV {
        match self {
            ChatCommands::Message { sender, message } => ChatV::Message {
                sender: sender@,
                message: message@,
            },
            ChatCommands::UserConnected { name } => ChatV::UserConnected { name: name@ },
            ChatCommands::UserDisconnected { name } => ChatV::UserDisconnected { name: name@ },
            ChatCommands::UserRenamed { oldname, newname } => ChatV::UserRenamed {
                oldname: oldname@,
                newname: newname@,
            },
        }
    }
}

pub open spec fn is_message_tag(tag: Seq<char>) -> bool {
    tag == seq!['m'] || tag == seq!['m', 's', 'g']
}

pub open spec fn is_connect_tag(tag: Seq<char>) -> bool {
    tag == seq!['c'] || tag == seq!['c', 'o', 'n', 'n', 'e', 'c', 't']
}

pub open spec fn is_disconnect_tag(tag: Seq<char>) -> bool {
    tag == seq!['d'] || tag == seq!['d', 'i', 's', 'c', 'o', 'n', 'n', 'e', 'c', 't']
}

pub open spec fn is_rename_tag(tag: Seq<char>) -> bool {
    tag == seq!['r'] || tag == seq!['r', 'e', 'n', 'a', 'm', 'e']
}

/// What decoding one inbound line (terminator already stripped) yields:
/// the line splits at its first space into a tag and a rest; two-field
/// tags take the whole rest as their one field, three-field tags split
/// the rest once more at its first space, the final field keeping any
/// further spaces. `None` on a line with no space or an unknown tag.
pub open spec fn decode_spec(line: Seq<char>) -> Option<ChatV> {
    match split_first_space(line) {
        None => None,
        Some((tag, rest)) => if is_message_tag(tag) {
            match split_first_space(rest) {
                None => None,
                Some((sender, message)) => Some(ChatV::Message { sender, message }),
            }
        } else if is_connect_tag(tag) {
            Some(ChatV::UserConnected { name: rest })
        } else if is_disconnect_tag(tag) {
            Some(ChatV::UserDisconnected { name: rest })
        } else if is_rename_tag(tag) {
            match split_first_space(rest) {
                None => None,
                Some((oldname, newname)) => Some(ChatV::UserRenamed { oldname, newname }),
            }
        } else {
            None
        },
    }
}

impl ChatCommands {
    /// Decode one inbound line. Returns `Ok` exactly on the lines the
    /// protocol recognizes, and then the event with its fields split at
    /// the documented boundaries.
    pub fn from_str(s: &str) -> (r: Result<ChatCommands, ()>)
        ensures
            match r {
                Ok(cmd) => decode_spec(s@) == Some(cmd@),
                Err(_) => decode_spec(s@) is None,
            },
    {
        let n = s.unicode_len();
        let sp = crate::codec::find_char_from(s, 0, ' ');
        match sp {
            None => {
                proof {
                    crate::codec::lemma_first_index_none(s@, ' ');
                }
                Err(())
            },
            Some(i) => {
                proof {
                    crate::codec::lemma_first_index_at(s@, ' ', i as int);
                }
                let ghost tag: Seq<char> = s@.subrange(0, i as int);
                let ghost rest: Seq<char> = s@.subrange(i as int + 1, s@.len() as int);
                if Self::tag_matches_message(s, i) {
                    Self::decode_two_fields(s, i, n, true)
                } else if Self::tag_matches_connect(s, i) {
                    let name = s.substring_char(i + 1, n);
                    proof {
                        assert(name@ =~= rest);
                    }
                    Ok(ChatCommands::UserConnected { name: name.to_owned() })
                } else if Self::tag_matches_disconnect(s, i) {
                    let name = s.substring_char(i + 1, n);
                    proof {
                        assert(name@ =~= rest);
                    }
                    Ok(ChatCommands::UserDisconnected { name: name.to_owned() })
                } else if Self::tag_matches_rename(s, i) {
                    Self::decode_two_fields(s, i, n, false)
                } else {
                    Err(())
                }
            },
        }
    }

    /// Split the rest of the line after the tag at its first space and
    /// build the three-field event (message when `message` is set,
    /// rename otherwise).
    fn decode_two_fields(s: &str, i: usize, n: usize, message: bool) -> (r: Result<
        ChatCommands,
        (),
    >)
        requires
            n == s@.len(),
            i < n,
            first_index(s@, ' ') == Some(i as int),
            message ==> is_message_tag(s@.subrange(0, i as int)),
            !message ==> is_rename_tag(s@.subrange(0, i as int)),
        ensures
            match r {
                Ok(cmd) => decode_spec(s@) == Some(cmd@),
                Err(_) => decode_spec(s@) is None,
            },
    {
        let ghost tag: Seq<char> = s@.subrange(0, i as int);
        let ghost rest: Seq<char> = s@.subrange(i as int + 1, s@.len() as int);
        proof {
            lemma_tag_kinds_disjoint(tag);
        }
        let sp2 = crate::codec::find_char_from(s, i + 1, ' ');
        match sp2 {
            None => {
                proof {
                    assert(forall|k: int| 0 <= k < rest.len() ==> rest[k] == s@[k + i as int + 1]);
                    crate::codec::lemma_first_index_none(rest, ' ');
                }
                Err(())
            },
            Some(j) => {
                let ghost j2: int = j as int - i as int - 1;
                proof {
                    assert(rest[j2] == s@[j as int]);
                    assert(forall|k: int| 0 <= k < j2 ==> rest[k] == s@[k + i as int + 1]);
                    assert(is_first_at(rest, ' ', j2));
                    crate::codec::lemma_first_index_at(rest, ' ', j2);
                }
                let a = s.substring_char(i + 1, j);
                let b = s.substring_char(j + 1, n);
                proof {
                    assert(a@ =~= rest.subrange(0, j2));
                    assert(b@ =~= rest.subrange(j2 + 1, rest.len() as int));
                }
                if message {
                    Ok(ChatCommands::Message { sender: a.to_owned(), message: b.to_owned() })
                } else {
                    Ok(ChatCommands::UserRenamed { oldname: a.to_owned(), newname: b.to_owned() })
                }
            },
        }
    }

    /// The first `i` characters of `s` spell exactly `lit`.
    fn range_matches(s: &str, i: usize, lit: &str) -> (r: bool)
        requires
            i <= s@.len(),
        ensures
            r == (s@.subrange(0, i as int) == lit@),
    {
        let m = lit.unicode_len();
        if m != i {
            proof {
                if s@.subrange(0, i as int) == lit@ {
                    assert(s@.subrange(0, i as int).len() == i);
                }
            }
            return false;
        }
        let mut k: usize = 0;
        while k < i
            invariant
                k <= i,
                i == m,
                i <= s@.len(),
                m == lit@.len(),
                forall|t: int| 0 <= t < k ==> s@[t] == lit@[t],
            decreases i - k,
        {
            if s.get_char(k) != lit.get_char(k) {
                proof {
                    if s@.subrange(0, i as int) == lit@ {
                        assert(s@.subrange(0, i as int)[k as int] == lit@[k as int]);
                    }
                }
                return false;
            }
            k = k + 1;
        }
        proof {
            assert(s@.subrange(0, i as int) =~= lit@);
        }
        true
    }

    /// The tag (the first `i` characters of `s`) spells `m` or `msg`.
    fn tag_matches_message(s: &str, i: usize) -> (r: bool)
        requires
            i <= s@.len(),
        ensures
            r == is_message_tag(s@.subrange(0, i as int)),
    {
        proof {
            reveal_strlit("m");
            reveal_strlit("msg");
            assert("m"@ =~= seq!['m']);
            assert("msg"@ =~= seq!['m', 's', 'g']);
        }
        Self::range_matches(s, i, "m") || Self::range_matches(s, i, "msg")
    }

    /// The tag spells `c` or `connect`.
    fn tag_matches_connect(s: &str, i: usize) -> (r: bool)
        requires
            i <= s@.len(),
        ensures
            r == is_connect_tag(s@.subrange(0, i as int)),
    {
        proof {
            reveal_strlit("c");
            reveal_strlit("connect");
            assert("c"@ =~= seq!['c']);
            assert("connect"@ =~= seq!['c', 'o', 'n', 'n', 'e', 'c', 't']);
        }
        Self::range_matches(s, i, "c") || Self::range_matches(s, i, "connect")
    }

    /// The tag spells `d` or `disconnect`.
    fn tag_matches_disconnect(s: &str, i: usize) -> (r: bool)
        requires
            i <= s@.len(),
        ensures
            r == is_disconnect_tag(s@.subrange(0, i as int)),
    {
        proof {
            reveal_strlit("d");
            reveal_strlit("disconnect");
            assert("d"@ =~= seq!['d']);
            assert("disconnect"@ =~= seq!['d', 'i', 's', 'c', 'o', 'n', 'n', 'e', 'c', 't']);
        }
        Self::range_matches(s, i, "d") || Self::range_matches(s, i, "disconnect")
    }

    /// The tag spells `r` or `rename`.
    fn tag_matches_rename(s: &str, i: usize) -> (r: bool)
        requires
            i <= s@.len(),
        ensures
            r == is_rename_tag(s@.subrange(0, i as int)),
    {
        proof {
            reveal_strlit("r");
            reveal_strlit("rename");
            assert("r"@ =~= seq!['r']);
            assert("rename"@ =~= seq!['r', 'e', 'n', 'a', 'm', 'e']);
        }
        Self::range_matches(s, i, "r") || Self::range_matches(s, i, "rename")
    }
}

/// No tag spells two different commands at once.
pub proof fn lemma_tag_kinds_disjoint(tag: Seq<char>)
    ensures
        is_message_tag(tag) ==> !is_connect_tag(tag) && !is_disconnect_tag(tag) && !is_rename_tag(
            tag,
        ),
        is_connect_tag(tag) ==> !is_disconnect_tag(tag) && !is_rename_tag(tag),
        is_disconnect_tag(tag) ==> !is_rename_tag(tag),
{
    assert(seq!['m'][0] == 'm');
    assert(seq!['c'][0] == 'c');
    assert(seq!['d'][0] == 'd');
    assert(seq!['r'][0] == 'r');
    assert(seq!['m', 's', 'g'].len() == 3);
    assert(seq!['c', 'o', 'n', 'n', 'e', 'c', 't'].len() == 7);
    assert(seq!['d', 'i', 's', 'c', 'o', 'n', 'n', 'e', 'c', 't'].len() == 10);
    assert(seq!['r', 'e', 'n', 'a', 'm', 'e'].len() == 6);
}

/// The lifecycle of one connection. `Loading` is every session's initial
/// state; `Disconnect` and `Failed` are terminal.
#[derive(Debug, PartialEq, Eq, Structural, Clone, Copy)]
pub enum ConnectState {
    Loading,
    Connected,
    Disconnect,
    Failed,
}

/// One signal delivered from the network side to the consumer: either a
/// decoded protocol event or a change of connection state.
#[derive(Debug)]
pub enum ClientCommands {
    ChatCommand(ChatCommands),
    ConnectState(ConnectState),
}

} // verus!
