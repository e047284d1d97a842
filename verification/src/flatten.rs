//! The executable scanner: a [`Flattener`] holds the scanner's state and
//! processes one chunk of bytes at a time, producing exactly the bytes
//! that [`scan_chunk_spec`] says the chunk contributes to the flattened
//! stream.

use vstd::prelude::*;

use crate::scan::{is_json_whitespace, scan_chunk_spec, scan_step, FlattenError, ScanChunk,
    ScanState, ScanStep};
use crate::scan::{BACKSLASH, CLOSE_BRACE, CLOSE_BRACKET, COMMA, OPEN_BRACE, OPEN_BRACKET, QUOTE,
    SEPARATOR};

verus! {

/// Whether `u8::is_ascii_whitespace` accepts the byte.
fn is_whitespace_byte(b: u8) -> (r: bool)
    ensures
        r == is_json_whitespace(b),
{
    b == 32 || b == 9 || b == 10 || b == 12 || b == 13
}

/// Appends `src[from..from + len]` to `dst`.
pub fn do_copy(dst: &mut Vec<u8>, src: &[u8], from: usize, len: usize)
    requires
        from + len <= src@.len(),
    ensures
        final(dst)@ == old(dst)@ + src@.subrange(from as int, from + len),
{
    let ghost dst0 = dst@;
    let src_len = src.len();
    if len == 1 {
        // Avoids a copy loop for the common single-byte span.
        dst.push(src[from]);
        proof {
            assert(dst@ =~= dst0 + src@.subrange(from as int, from + 1));
        }
    } else {
        let mut j: usize = 0;
        while j < len
            invariant
                from + len <= src_len,
                src_len == src@.len(),
                j <= len,
                dst@ == dst0 + src@.subrange(from as int, from + j),
            decreases len - j,
        {
            dst.push(src[from + j]);
            j = j + 1;
            proof {
                assert(dst@ =~= dst0 + src@.subrange(from as int, from + j));
            }
        }
    }
}

/// The stateful scanner that applies the flatten transform chunk by chunk.
pub struct Flattener {
    depth: Option<usize>,
    inside_string: bool,
    escape_next: bool,
    skip_space: bool,
}

/// The [`ScanState`] that the concrete fields stand for.
spec fn mk_state(depth: Option<usize>, inside_string: bool, escape_next: bool, skip_space: bool) -> ScanState {
    ScanState {
        depth: match depth {
            Some(d) => Some(d as nat),
            None => None,
        },
        inside_string,
        escape_next,
        skip_space,
    }
}

impl View for Flattener {
    type V = ScanState;

    closed spec fn view(&self) -> ScanState {
        mk_state(self.depth, self.inside_string, self.escape_next, self.skip_space)
    }
}

impl Flattener {
    /// A scanner awaiting the first top-level array.
    pub fn new() -> (r: Flattener)
        ensures
            r@ == ScanState::initial(),
    {
        Flattener { depth: None, inside_string: false, escape_next: false, skip_space: false }
    }

    /// Whether the scanner stands inside a top-level array.  A source that
    /// is exhausted while this holds is truncated.
    pub fn is_inside_array(&self) -> (r: bool)
        ensures
            r == (self@.depth is Some),
    {
        self.depth.is_some()
    }

    /// The current nesting depth, as far as the machine can count it:
    /// `None` while awaiting the next top-level array.
    pub fn nesting_depth(&self) -> (r: Option<usize>)
        ensures
            (match r {
                Some(d) => self@.depth == Some(d as nat),
                None => self@.depth is None,
            }),
    {
        self.depth
    }

    /// Scans one chunk pulled from the source and returns the bytes it
    /// contributes to the flattened stream, exactly as [`scan_chunk_spec`]
    /// describes; a malformed byte is reported instead.  The output never
    /// exceeds the chunk in length, so a destination sized like the chunk
    /// always holds it.
    pub fn process_chunk(&mut self, chunk: &[u8]) -> (r: Result<Vec<u8>, FlattenError>)
        requires
            old(self)@.wf(),
            old(self)@.depth_or_zero() + chunk@.len() <= usize::MAX,
        ensures
            (match r {
                Ok(out) => {
                    &&& scan_chunk_spec(old(self)@, chunk@) == (ScanChunk::Flattened {
                        state: final(self)@,
                        out: out@,
                    })
                    &&& out@.len() <= chunk@.len()
                    &&& final(self)@.wf()
                    &&& final(self)@.depth_or_zero() <= old(self)@.depth_or_zero() + chunk@.len()
                },
                Err(e) => {
                    &&& e == FlattenError::MalformedInput
                    &&& scan_chunk_spec(old(self)@, chunk@) is Rejected
                    &&& *final(self) == *old(self)
                },
            }),
    {
        let ghost s0 = self@;
        let n = chunk.len();
        let mut depth = self.depth;
        let mut inside_string = self.inside_string;
        let mut escape_next = self.escape_next;
        let mut skip_space = self.skip_space;
        let mut out: Vec<u8> = Vec::new();
        let mut tmp_pos: usize = 0;
        let mut i: usize = 0;

        proof {
            assert(chunk@.subrange(0, n as int) =~= chunk@);
            match scan_chunk_spec(s0, chunk@) {
                ScanChunk::Rejected => {},
                ScanChunk::Flattened { state, out: o } => {
                    assert(out@ + chunk@.subrange(0, 0) + o =~= o);
                },
            }
        }
        while i < n
            invariant
                *self == *old(self),
                s0 == old(self)@,
                n == chunk@.len(),
                i <= n,
                tmp_pos <= i,
                out@.len() + i - tmp_pos <= i,
                mk_state(depth, inside_string, escape_next, skip_space).wf(),
                mk_state(depth, inside_string, escape_next, skip_space).depth_or_zero() <= s0.depth_or_zero()
                    + i,
                s0.depth_or_zero() + n <= usize::MAX,
                depth is None ==> tmp_pos == i,
                skip_space ==> tmp_pos == i,
                (match scan_chunk_spec(
                    mk_state(depth, inside_string, escape_next, skip_space),
                    chunk@.subrange(i as int, n as int),
                ) {
                    ScanChunk::Rejected => scan_chunk_spec(s0, chunk@) is Rejected,
                    ScanChunk::Flattened { state, out: o } => scan_chunk_spec(s0, chunk@)
                        == (ScanChunk::Flattened {
                        state,
                        out: out@ + chunk@.subrange(tmp_pos as int, i as int) + o,
                    }),
                }),
            ensures
                tmp_pos <= n,
                out@.len() + n - tmp_pos <= n,
                mk_state(depth, inside_string, escape_next, skip_space).wf(),
                mk_state(depth, inside_string, escape_next, skip_space).depth_or_zero() <= s0.depth_or_zero()
                    + n,
                scan_chunk_spec(s0, chunk@) == (ScanChunk::Flattened {
                    state: mk_state(depth, inside_string, escape_next, skip_space),
                    out: out@ + chunk@.subrange(tmp_pos as int, n as int),
                }),
            decreases n - i,
        {
            let ghost cur = mk_state(depth, inside_string, escape_next, skip_space);
            let ghost rest = chunk@.subrange(i as int, n as int);
            let ghost i0 = i as int;
            let ghost tp0 = tmp_pos as int;
            let ghost out0 = out@;
            proof {
                assert(rest[0] == chunk@[i as int]);
                assert(rest.subrange(1, rest.len() as int) =~= chunk@.subrange(
                    i + 1,
                    n as int,
                ));
            }
            let b = chunk[i];
            if depth.is_none() {
                if b == OPEN_BRACKET {
                    tmp_pos = i + 1;
                    depth = Some(0);
                } else if is_whitespace_byte(b) {
                    tmp_pos = i + 1;
                } else if b == 0 {
                    // A NUL while awaiting an array start ends this chunk;
                    // the rest of the chunk is flushed verbatim below.
                    proof {
                        assert(out@ + chunk@.subrange(tmp_pos as int, i as int) + rest =~= out@
                            + chunk@.subrange(tmp_pos as int, n as int));
                    }
                    break ;
                } else {
                    // The stream does not begin with an array.
                    proof {
                        assert(b == rest[0]);
                        assert(scan_step(cur, rest[0]) is Reject);
                        assert(scan_chunk_spec(cur, rest) is Rejected);
                    }
                    return Err(FlattenError::MalformedInput);
                }
            } else if inside_string {
                if escape_next {
                    escape_next = false;
                } else if b == BACKSLASH {
                    escape_next = true;
                } else if b == QUOTE {
                    inside_string = false;
                }
            } else if skip_space && is_whitespace_byte(b) {
                // Whitespace after a top-level comma is consumed into the
                // comma's separator.
                tmp_pos = i + 1;
            } else {
                skip_space = false;
                let d = depth.unwrap();
                if b == OPEN_BRACKET || b == OPEN_BRACE {
                    depth = Some(d + 1);
                } else if (b == CLOSE_BRACKET || b == CLOSE_BRACE) && d > 0 {
                    depth = Some(d - 1);
                } else if b == QUOTE {
                    inside_string = true;
                } else if b == CLOSE_BRACE {
                    // A brace cannot close at the top level of an array.
                    proof {
                        assert(b == rest[0]);
                        assert(scan_step(cur, rest[0]) is Reject);
                        assert(scan_chunk_spec(cur, rest) is Rejected);
                    }
                    return Err(FlattenError::MalformedInput);
                } else if (b == COMMA || b == CLOSE_BRACKET) && d == 0 {
                    // A boundary: flush the pending span and write one
                    // separator byte in place of the boundary byte.
                    do_copy(&mut out, chunk, tmp_pos, i - tmp_pos);
                    out.push(SEPARATOR);
                    tmp_pos = i + 1;
                    if b == CLOSE_BRACKET {
                        // The outer array is closed.  If another array
                        // follows, the stream continues.
                        depth = None;
                    } else {
                        // A comma also absorbs the whitespace after it.
                        skip_space = true;
                    }
                }
            }
            i = i + 1;
            proof {
                let nxt = mk_state(depth, inside_string, escape_next, skip_space);
                let rest2 = chunk@.subrange(i as int, n as int);
                match scan_step(cur, rest[0]) {
                    ScanStep::Next { state: ns, out: so } => {
                        assert(ns == nxt);
                        match scan_chunk_spec(nxt, rest2) {
                            ScanChunk::Rejected => {
                                assert(scan_chunk_spec(cur, rest) is Rejected);
                            },
                            ScanChunk::Flattened { state: st2, out: o2 } => {
                                assert(scan_chunk_spec(cur, rest) == (ScanChunk::Flattened {
                                    state: st2,
                                    out: so + o2,
                                }));
                                assert(out@ + chunk@.subrange(tmp_pos as int, i as int) + o2
                                    =~= out0 + chunk@.subrange(tp0, i0) + (so + o2));
                            },
                        }
                    },
                    _ => {
                        assert(false);
                    },
                }
            }
        }
        if tmp_pos < n {
            do_copy(&mut out, chunk, tmp_pos, n - tmp_pos);
        } else {
            proof {
                assert(out@ + chunk@.subrange(tmp_pos as int, n as int) =~= out@);
            }
        }
        self.depth = depth;
        self.inside_string = inside_string;
        self.escape_next = escape_next;
        self.skip_space = skip_space;
        Ok(out)
    }
}

} // verus!
