//! The properties the library promises, each proved once and for all:
//! what decoding does to every well-formed and every malformed line, and
//! what holds of every session reachable from a fresh one — the terminal
//! state it ends in, the handshake coming first, and outbound strings
//! being written in enqueue order.

use vstd::prelude::*;

use crate::codec::{
    encode_outbound_spec, handshake_spec, is_first_at, lemma_first_index_at,
    lemma_first_index_none, split_first_space,
};
use crate::commands::{
    decode_spec, is_connect_tag, is_disconnect_tag, is_message_tag, is_rename_tag,
    lemma_tag_kinds_disjoint, ChatV, ConnectState,
};
use crate::session::{is_terminal, session_init, session_run, session_step, SessionStep, SessionV};

verus! {

/// Splitting at the first space undoes joining with a space, when the
/// left part has no space of its own.
pub proof fn lemma_split_join(a: Seq<char>, b: Seq<char>)
    requires
        !a.contains(' '),
    ensures
        split_first_space(a + seq![' '] + b) == Some((a, b)),
{
    let line = a + seq![' '] + b;
    assert(line[a.len() as int] == ' ');
    assert(forall|j: int| 0 <= j < a.len() ==> line[j] == a[j]);
    assert(forall|j: int| 0 <= j < a.len() ==> a[j] != ' ');
    assert(is_first_at(line, ' ', a.len() as int));
    lemma_first_index_at(line, ' ', a.len() as int);
    assert(line.subrange(0, a.len() as int) =~= a);
    assert(line.subrange(a.len() as int + 1, line.len() as int) =~= b);
}

/// None of the recognized tags contains a space.
pub proof fn lemma_tag_has_no_space(tag: Seq<char>)
    requires
        is_message_tag(tag) || is_connect_tag(tag) || is_disconnect_tag(tag) || is_rename_tag(tag),
    ensures
        !tag.contains(' '),
{
    assert(forall|i: int| 0 <= i < tag.len() ==> tag[i] != ' ');
}

/// Decoding a well-formed message line yields exactly its event: the
/// sender is the field up to the next space, the body all that follows,
/// embedded spaces preserved.
pub proof fn lemma_decode_message_line(tag: Seq<char>, sender: Seq<char>, body: Seq<char>)
    requires
        is_message_tag(tag),
        !sender.contains(' '),
    ensures
        decode_spec(tag + seq![' '] + sender + seq![' '] + body) == Some(
            ChatV::Message { sender: sender, message: body },
        ),
{
    let rest = sender + seq![' '] + body;
    assert(tag + seq![' '] + sender + seq![' '] + body =~= tag + seq![' '] + rest);
    lemma_tag_has_no_space(tag);
    lemma_split_join(tag, rest);
    lemma_split_join(sender, body);
}

/// Decoding a well-formed presence-joined line yields exactly its event;
/// the name is everything after the tag, embedded spaces preserved.
pub proof fn lemma_decode_connect_line(tag: Seq<char>, name: Seq<char>)
    requires
        is_connect_tag(tag),
    ensures
        decode_spec(tag + seq![' '] + name) == Some(ChatV::UserConnected { name: name }),
{
    lemma_tag_has_no_space(tag);
    lemma_tag_kinds_disjoint(tag);
    lemma_split_join(tag, name);
}

/// Decoding a well-formed presence-left line yields exactly its event.
pub proof fn lemma_decode_disconnect_line(tag: Seq<char>, name: Seq<char>)
    requires
        is_disconnect_tag(tag),
    ensures
        decode_spec(tag + seq![' '] + name) == Some(ChatV::UserDisconnected { name: name }),
{
    lemma_tag_has_no_space(tag);
    lemma_tag_kinds_disjoint(tag);
    lemma_split_join(tag, name);
}

/// Decoding a well-formed rename line yields exactly its event: the old
/// name up to the next space, the new name all that follows.
pub proof fn lemma_decode_rename_line(tag: Seq<char>, oldname: Seq<char>, newname: Seq<char>)
    requires
        is_rename_tag(tag),
        !oldname.contains(' '),
    ensures
        decode_spec(tag + seq![' '] + oldname + seq![' '] + newname) == Some(
            ChatV::UserRenamed { oldname: oldname, newname: newname },
        ),
{
    let rest = oldname + seq![' '] + newname;
    assert(tag + seq![' '] + oldname + seq![' '] + newname =~= tag + seq![' '] + rest);
    lemma_tag_has_no_space(tag);
    lemma_tag_kinds_disjoint(tag);
    lemma_split_join(tag, rest);
    lemma_split_join(oldname, newname);
}

/// A line with no space never decodes.
pub proof fn lemma_no_space_fails(line: Seq<char>)
    requires
        !line.contains(' '),
    ensures
        decode_spec(line) is None,
{
    assert(forall|j: int| 0 <= j < line.len() ==> line[j] != ' ');
    lemma_first_index_none(line, ' ');
}

/// A line whose tag is none of the recognized spellings never decodes,
/// whatever follows it.
pub proof fn lemma_unknown_tag_fails(tag: Seq<char>, rest: Seq<char>)
    requires
        !tag.contains(' '),
        !is_message_tag(tag),
        !is_connect_tag(tag),
        !is_disconnect_tag(tag),
        !is_rename_tag(tag),
    ensures
        decode_spec(tag + seq![' '] + rest) is None,
{
    lemma_split_join(tag, rest);
}

/// Running a sequence of occurrences and then one more is one step after
/// the run.
pub proof fn lemma_run_push(s: SessionV, steps: Seq<SessionStep>, e: SessionStep)
    ensures
        session_run(s, steps.push(e)) == session_step(session_run(s, steps), e),
    decreases steps.len(),
{
    let longer = steps.push(e);
    if steps.len() == 0 {
        assert(longer[0] == e);
        assert(longer.drop_first() =~= Seq::<SessionStep>::empty());
        assert(session_run(s, longer) == session_run(session_step(s, e), longer.drop_first()));
        assert(session_run(session_step(s, e), longer.drop_first()) == session_step(s, e));
        assert(session_run(s, steps) == s);
    } else {
        assert(longer[0] == steps[0]);
        assert(longer.drop_first() =~= steps.drop_first().push(e));
        assert(session_run(s, longer) == session_run(
            session_step(s, steps[0]),
            steps.drop_first().push(e),
        ));
        lemma_run_push(session_step(s, steps[0]), steps.drop_first(), e);
        assert(session_run(s, steps) == session_run(session_step(s, steps[0]), steps.drop_first()));
    }
}

/// A session that sees no line stays in `Loading` or `Failed`: only a
/// decoded line can connect it.
pub proof fn lemma_no_line_stays_unconnected(s: SessionV, steps: Seq<SessionStep>)
    requires
        s.state == ConnectState::Loading || s.state == ConnectState::Failed,
        forall|i: int| 0 <= i < steps.len() ==> !(#[trigger] steps[i] is Line),
    ensures
        session_run(s, steps).state == ConnectState::Loading || session_run(s, steps).state
            == ConnectState::Failed,
    decreases steps.len(),
{
    if steps.len() > 0 {
        assert(!(steps[0] is Line));
        let s1 = session_step(s, steps[0]);
        assert(forall|i: int|
            0 <= i < steps.drop_first().len() ==> !(#[trigger] steps.drop_first()[i] is Line));
        lemma_no_line_stays_unconnected(s1, steps.drop_first());
    }
}

/// A session that never receives a line before its socket closes ends in
/// `Failed`.
pub proof fn lemma_never_received_fails(name: Seq<char>, steps: Seq<SessionStep>)
    requires
        forall|i: int| 0 <= i < steps.len() ==> !(#[trigger] steps[i] is Line),
    ensures
        session_run(session_init(name), steps.push(SessionStep::SocketClosed)).state
            == ConnectState::Failed,
{
    lemma_no_line_stays_unconnected(session_init(name), steps);
    lemma_run_push(session_init(name), steps, SessionStep::SocketClosed);
}

/// Once a session has been connected it can never end in `Failed`: it
/// stays `Connected` until the reader ends, and `Disconnect` after.
pub proof fn lemma_connected_never_fails(s: SessionV, steps: Seq<SessionStep>)
    requires
        s.state == ConnectState::Connected || s.state == ConnectState::Disconnect,
    ensures
        session_run(s, steps).state == ConnectState::Connected || session_run(s, steps).state
            == ConnectState::Disconnect,
    decreases steps.len(),
{
    if steps.len() > 0 {
        lemma_connected_never_fails(session_step(s, steps[0]), steps.drop_first());
    }
}

/// A session that received at least one successfully decoded line —
/// whose state reached `Connected` — ends in `Disconnect` when its
/// socket closes, whatever happened in between.
pub proof fn lemma_received_then_close_disconnects(s: SessionV, steps: Seq<SessionStep>)
    requires
        s.state == ConnectState::Connected,
    ensures
        session_run(s, steps.push(SessionStep::SocketClosed)).state == ConnectState::Disconnect,
{
    lemma_connected_never_fails(s, steps);
    lemma_run_push(s, steps, SessionStep::SocketClosed);
}

/// A session that received at least one successfully decoded line before
/// its socket closed ends in `Disconnect`, whatever else happened in
/// between.
pub proof fn lemma_received_line_then_disconnects(
    s: SessionV,
    line: Seq<char>,
    steps: Seq<SessionStep>,
)
    requires
        !is_terminal(s.state),
        decode_spec(line) is Some,
    ensures
        session_run(
            session_step(s, SessionStep::Line { line }),
            steps.push(SessionStep::SocketClosed),
        ).state == ConnectState::Disconnect,
{
    lemma_received_then_close_disconnects(session_step(s, SessionStep::Line { line }), steps);
}

/// How far along its lifecycle a connection state is.
pub open spec fn state_rank(st: ConnectState) -> int {
    match st {
        ConnectState::Loading => 0,
        ConnectState::Connected => 1,
        ConnectState::Disconnect => 2,
        ConnectState::Failed => 2,
    }
}

/// The connection state is monotonic: no occurrence moves a session
/// backwards in its lifecycle, and a terminal state never changes again.
/// The only reset is building a new session, a fresh state machine.
pub proof fn lemma_state_monotonic(s: SessionV, e: SessionStep)
    ensures
        state_rank(s.state) <= state_rank(session_step(s, e).state),
        is_terminal(s.state) ==> session_step(s, e).state == s.state,
{
}

/// The encodings of a sequence of raw outbound strings, in order.
pub open spec fn encoded_lines(texts: Seq<Seq<char>>) -> Seq<Seq<char>> {
    texts.map_values(|t: Seq<char>| encode_outbound_spec(t))
}

/// How many enqueued strings the writer has taken so far.
pub open spec fn taken_count(s: SessionV) -> int {
    s.enqueued.len() - s.outbound.len()
}

/// The writer's bookkeeping, true of every reachable session: the
/// strings still pending are exactly the not-yet-taken tail of those
/// enqueued, and the lines written so far are the handshake followed by
/// the encodings of the taken strings, in enqueue order — nothing
/// before the handshake, nothing out of order, nothing dropped.
pub open spec fn writer_inv(s: SessionV) -> bool {
    &&& 0 <= taken_count(s)
    &&& s.outbound == s.enqueued.skip(taken_count(s))
    &&& (!s.handshake_sent ==> s.outbound == s.enqueued && s.written == Seq::<Seq<char>>::empty())
    &&& (s.handshake_sent ==> s.written == seq![handshake_spec(s.name)] + encoded_lines(
        s.enqueued.take(taken_count(s)),
    ))
}

/// A fresh session satisfies the writer's bookkeeping.
pub proof fn lemma_init_writer_inv(name: Seq<char>)
    ensures
        writer_inv(session_init(name)),
{
    let s = session_init(name);
    assert(s.outbound =~= s.enqueued.skip(taken_count(s)));
}

/// Every occurrence preserves the writer's bookkeeping, and never
/// changes the session's display name.
pub proof fn lemma_step_writer_inv(s: SessionV, e: SessionStep)
    requires
        writer_inv(s),
    ensures
        writer_inv(session_step(s, e)),
        session_step(s, e).name == s.name,
{
    let s2 = session_step(s, e);
    let k = taken_count(s);
    match e {
        SessionStep::Enqueue { text } => {
            assert(s2.outbound =~= s2.enqueued.skip(k));
            if s.handshake_sent {
                assert(s2.enqueued.take(k) =~= s.enqueued.take(k));
            } else {
                assert(s2.outbound =~= s2.enqueued);
            }
        },
        SessionStep::WriterTake => {
            if !s.handshake_sent {
                assert(s.outbound == s.enqueued && k == 0);
                assert(s2.written =~= seq![handshake_spec(s2.name)] + encoded_lines(
                    s2.enqueued.take(0),
                ));
            } else if s.outbound.len() > 0 {
                assert(s.outbound[0] == s.enqueued[k]);
                assert(s2.outbound =~= s2.enqueued.skip(k + 1));
                assert(s2.enqueued.take(k + 1) =~= s.enqueued.take(k).push(s.enqueued[k]));
                assert(encoded_lines(s.enqueued.take(k).push(s.enqueued[k])) =~= encoded_lines(
                    s.enqueued.take(k),
                ).push(encode_outbound_spec(s.enqueued[k])));
                assert(s2.written =~= seq![handshake_spec(s2.name)] + encoded_lines(
                    s2.enqueued.take(k + 1),
                ));
            }
        },
        _ => {},
    }
}

/// The writer's bookkeeping holds after any run, and the name stays what
/// it was.
pub proof fn lemma_run_writer_inv(s: SessionV, steps: Seq<SessionStep>)
    requires
        writer_inv(s),
    ensures
        writer_inv(session_run(s, steps)),
        session_run(s, steps).name == s.name,
    decreases steps.len(),
{
    if steps.len() > 0 {
        lemma_step_writer_inv(s, steps[0]);
        lemma_run_writer_inv(session_step(s, steps[0]), steps.drop_first());
    }
}

/// What every session reachable from a fresh one has written: nothing
/// until the writer's first take; after it, the handshake for the
/// configured name first, followed by the encodings of the enqueued
/// strings the writer has taken, in enqueue order. In particular the
/// handshake precedes all user traffic, and outbound strings are written
/// first-in first-out.
pub proof fn lemma_writer_history(name: Seq<char>, steps: Seq<SessionStep>)
    ensures
        ({
            let s = session_run(session_init(name), steps);
            &&& writer_inv(s)
            &&& s.name == name
            &&& (s.written.len() > 0 ==> s.written[0] == handshake_spec(name))
            &&& (s.handshake_sent ==> s.written == seq![handshake_spec(name)] + encoded_lines(
                s.enqueued.take(taken_count(s)),
            ))
        }),
{
    lemma_init_writer_inv(name);
    lemma_run_writer_inv(session_init(name), steps);
}

/// Every encoded outbound line ends with the line terminator.
pub proof fn lemma_encode_terminated(text: Seq<char>)
    ensures
        encode_outbound_spec(text).len() > 0,
        encode_outbound_spec(text).last() == '\n',
{
    let line = encode_outbound_spec(text);
    if text.len() > 0 && text[0] == '/' {
        assert(line[line.len() - 1] == seq!['\n'][0]);
    } else {
        assert(line[line.len() - 1] == seq!['\n'][0]);
    }
}

/// Every line a reachable session has written ends with the line
/// terminator (embedded terminators inside free-text fields are the
/// protocol's known fragility and are not escaped).
pub proof fn lemma_written_lines_terminated(name: Seq<char>, steps: Seq<SessionStep>)
    ensures
        ({
            let s = session_run(session_init(name), steps);
            forall|i: int|
                0 <= i < s.written.len() ==> (#[trigger] s.written[i]).len() > 0 && s.written[i].last()
                    == '\n'
        }),
{
    let s = session_run(session_init(name), steps);
    lemma_writer_history(name, steps);
    if s.handshake_sent {
        let taken = s.enqueued.take(taken_count(s));
        assert(handshake_spec(name)[handshake_spec(name).len() - 1] == seq!['\n'][0]);
        assert forall|i: int|
            0 <= i < s.written.len() implies (#[trigger] s.written[i]).len() > 0
            && s.written[i].last() == '\n' by {
            if i > 0 {
                assert(s.written[i] == encoded_lines(taken)[i - 1]);
                assert(encoded_lines(taken)[i - 1] == encode_outbound_spec(taken[i - 1]));
                lemma_encode_terminated(taken[i - 1]);
            }
        }
    }
}

} // verus!
