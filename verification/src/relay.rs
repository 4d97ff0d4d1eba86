//! Relaying a Proton child's output to the log, bounded three ways: at most
//! [`UMU_RELAY_LINE_CAP`] lines are logged (the rest are counted), a line is
//! kept only up to [`UMU_RELAY_LINE_MAX_BYTES`] bytes (a longer one is dropped
//! whole and the relay resynchronises at the next newline), and a trailing
//! carriage return is stripped. The application reads the stream in chunks
//! and feeds them to [`relay_step`], then [`relay_finish`] at its end.

use vstd::prelude::*;
use crate::rclone::{spec_utf8_lossy, utf8_lossy};

verus! {

/// Lines of one stream that reach the log; later lines are only counted.
pub const UMU_RELAY_LINE_CAP: usize = 500;

/// The longest line kept; the rest of a longer line is dropped.
pub const UMU_RELAY_LINE_MAX_BYTES: usize = 65536;

/// The relay's state between chunks.
pub struct RelayState {
    /// The bytes of the current line so far.
    pub line: Vec<u8>,
    /// The current line passed the byte bound and is being dropped.
    pub dropping: bool,
    /// Lines logged.
    pub relayed: usize,
    /// Lines past the cap, counted only.
    pub suppressed: usize,
    /// Lines dropped for their length.
    pub oversized: usize,
}

/// The view of a [`RelayState`].
pub struct RelayView {
    pub line: Seq<u8>,
    pub dropping: bool,
    pub relayed: nat,
    pub suppressed: nat,
    pub oversized: nat,
}

pub open spec fn relay_view(s: RelayState) -> RelayView {
    RelayView {
        line: s.line@,
        dropping: s.dropping,
        relayed: s.relayed as nat,
        suppressed: s.suppressed as nat,
        oversized: s.oversized as nat,
    }
}

/// A well-formed state: the line within the bound, empty while dropping, and
/// no more lines logged than the cap.
pub open spec fn relay_wf(s: RelayView) -> bool {
    &&& s.line.len() <= UMU_RELAY_LINE_MAX_BYTES
    &&& s.dropping ==> s.line.len() == 0
    &&& s.relayed <= UMU_RELAY_LINE_CAP
}

/// One delivered line: its text (decoded lossily as UTF-8), and whether it
/// is logged (it came while fewer than the cap had been logged); every
/// delivered line also goes to the crash-hint tail.
pub struct RelayLine {
    pub text: String,
    pub logged: bool,
}

pub open spec fn line_views(v: Seq<RelayLine>) -> Seq<(Seq<char>, bool)> {
    v.map_values(|l: RelayLine| (l.text@, l.logged))
}

/// A line without its trailing carriage return.
pub open spec fn strip_cr(l: Seq<u8>) -> Seq<u8> {
    if l.len() > 0 && l.last() == 13u8 {
        l.drop_last()
    } else {
        l
    }
}

/// Deliver the raw line `raw`: logged while under the cap, counted past it.
pub open spec fn deliver(s: RelayView, raw: Seq<u8>) -> (RelayView, Seq<(Seq<char>, bool)>) {
    let logged = s.relayed < UMU_RELAY_LINE_CAP;
    let s2 = if logged {
        RelayView { relayed: s.relayed + 1, ..s }
    } else {
        RelayView { suppressed: s.suppressed + 1, ..s }
    };
    (RelayView { line: Seq::empty(), ..s2 }, seq![(spec_utf8_lossy(raw), logged)])
}

/// The relay after one byte.
pub open spec fn byte_step(s: RelayView, b: u8) -> (RelayView, Seq<(Seq<char>, bool)>) {
    if b == 10u8 {
        if s.dropping {
            (RelayView { line: Seq::empty(), dropping: false, oversized: s.oversized + 1, ..s }, Seq::empty())
        } else {
            deliver(s, strip_cr(s.line))
        }
    } else if s.dropping {
        (s, Seq::empty())
    } else if s.line.len() >= UMU_RELAY_LINE_MAX_BYTES {
        (RelayView { line: Seq::empty(), dropping: true, ..s }, Seq::empty())
    } else {
        (RelayView { line: s.line.push(b), ..s }, Seq::empty())
    }
}

/// The relay after a run of bytes, with the lines delivered on the way.
pub open spec fn chunk_step(s: RelayView, bytes: Seq<u8>) -> (RelayView, Seq<(Seq<char>, bool)>)
    decreases bytes.len(),
{
    if bytes.len() == 0 {
        (s, Seq::empty())
    } else {
        let p = chunk_step(s, bytes.drop_last());
        let q = byte_step(p.0, bytes.last());
        (q.0, p.1 + q.1)
    }
}

/// The relay at the end of the stream: a line being dropped counts as
/// oversized; a trailing line without newline is still delivered.
pub open spec fn spec_finish(s: RelayView) -> (RelayView, Seq<(Seq<char>, bool)>) {
    if s.dropping {
        (RelayView { dropping: false, oversized: s.oversized + 1, ..s }, Seq::empty())
    } else if s.line.len() > 0 {
        deliver(s, s.line)
    } else {
        (s, Seq::empty())
    }
}

proof fn lemma_byte_step_wf(s: RelayView, b: u8)
    requires
        relay_wf(s),
    ensures
        relay_wf(byte_step(s, b).0),
        byte_step(s, b).0.suppressed <= s.suppressed + 1,
        byte_step(s, b).0.oversized <= s.oversized + 1,
{
}

/// A fresh relay.
pub fn relay_new() -> (r: RelayState)
    ensures
        relay_view(r) == (RelayView { line: Seq::empty(), dropping: false, relayed: 0, suppressed: 0, oversized: 0 }),
{
    RelayState { line: Vec::new(), dropping: false, relayed: 0, suppressed: 0, oversized: 0 }
}

fn deliver_exec(s: RelayState, raw: &[u8]) -> (r: (RelayState, RelayLine))
    requires
        relay_wf(relay_view(s)),
        s.suppressed < usize::MAX,
    ensures
        relay_view(r.0) == deliver(relay_view(s), raw@).0,
        deliver(relay_view(s), raw@).1 == seq![(r.1.text@, r.1.logged)],
{
    let text = utf8_lossy(raw);
    let logged = s.relayed < UMU_RELAY_LINE_CAP;
    let st = if logged {
        RelayState { line: Vec::new(), relayed: s.relayed + 1, ..s }
    } else {
        RelayState { line: Vec::new(), suppressed: s.suppressed + 1, ..s }
    };
    (st, RelayLine { text, logged })
}

/// Feed a chunk of the stream: the new state and the lines completed in it
/// (see [`chunk_step`]).
pub fn relay_step(state: RelayState, chunk: &[u8]) -> (r: (RelayState, Vec<RelayLine>))
    requires
        relay_wf(relay_view(state)),
        state.suppressed + chunk@.len() <= usize::MAX,
        state.oversized + chunk@.len() <= usize::MAX,
    ensures
        relay_wf(relay_view(r.0)),
        (relay_view(r.0), line_views(r.1@)) == chunk_step(relay_view(state), chunk@),
{
    let ghost s0 = relay_view(state);
    let mut s = state;
    let mut out: Vec<RelayLine> = Vec::new();
    let mut i: usize = 0;
    assert(chunk@.take(0) =~= Seq::<u8>::empty());
    assert(line_views(out@) =~= Seq::<(Seq<char>, bool)>::empty());
    while i < chunk.len()
        invariant
            i <= chunk.len(),
            relay_wf(relay_view(s)),
            s.suppressed <= s0.suppressed + i,
            s.oversized <= s0.oversized + i,
            s0.suppressed + chunk@.len() <= usize::MAX,
            s0.oversized + chunk@.len() <= usize::MAX,
            (relay_view(s), line_views(out@)) == chunk_step(s0, chunk@.take(i as int)),
        decreases chunk.len() - i,
    {
        let b = chunk[i];
        assert(chunk@.take(i + 1).drop_last() =~= chunk@.take(i as int));
        assert(chunk@.take(i + 1).last() == b);
        proof {
            lemma_byte_step_wf(relay_view(s), b);
        }
        let ghost before = relay_view(s);
        let ghost out_before = line_views(out@);
        if b == 10u8 {
            if s.dropping {
                s = RelayState { line: Vec::new(), dropping: false, oversized: s.oversized + 1, ..s };
            } else {
                let mut line: Vec<u8> = Vec::new();
                std::mem::swap(&mut line, &mut s.line);
                let ghost raw = line@;
                if line.len() > 0 && line[line.len() - 1] == 13u8 {
                    let _ = line.pop();
                }
                assert(line@ =~= strip_cr(raw));
                let (s2, l) = deliver_exec(RelayState { line: Vec::new(), ..s }, line.as_slice());
                s = s2;
                out.push(l);
                assert(line_views(out@) =~= out_before + seq![(l.text@, l.logged)]);
            }
        } else if s.dropping {
        } else if s.line.len() >= UMU_RELAY_LINE_MAX_BYTES {
            s = RelayState { line: Vec::new(), dropping: true, ..s };
        } else {
            s.line.push(b);
        }
        assert((relay_view(s), line_views(out@)) == chunk_step(s0, chunk@.take(i + 1)));
        i += 1;
    }
    assert(chunk@.take(chunk.len() as int) =~= chunk@);
    (s, out)
}

/// End the stream (see [`spec_finish`]).
pub fn relay_finish(state: RelayState) -> (r: (RelayState, Option<RelayLine>))
    requires
        relay_wf(relay_view(state)),
        state.suppressed < usize::MAX,
        state.oversized < usize::MAX,
    ensures
        relay_view(r.0) == spec_finish(relay_view(state)).0,
        spec_finish(relay_view(state)).1 == match r.1 {
            Some(l) => seq![(l.text@, l.logged)],
            None => Seq::empty(),
        },
{
    if state.dropping {
        (RelayState { dropping: false, oversized: state.oversized + 1, ..state }, None)
    } else if state.line.len() > 0 {
        let s = state;
        let (s2, l) = deliver_exec(RelayState { line: Vec::new(), ..s }, s.line.as_slice());
        (s2, Some(l))
    } else {
        (state, None)
    }
}

} // verus!
