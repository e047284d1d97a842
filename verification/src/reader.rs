//! The pull-based reader: an [`ArrayStreamReader`] owns an in-memory byte
//! source and serves flattened bytes on demand, chunk by chunk, through
//! repeated [`ArrayStreamReader::pull`] calls.  [`flatten_bytes`] drains a
//! whole source in one go.

use vstd::prelude::*;

use crate::flatten::Flattener;
use crate::scan::{flatten_spec, lemma_scan_chunk_append, scan_chunk_spec, FlattenError, ScanChunk,
    ScanState};

verus! {

/// What the rest of the source, from `pos` on, flattens to when the
/// scanner stands in state `s`: the remaining flattened bytes, or the
/// error the scan runs into.
pub open spec fn flatten_from(s: ScanState, src: Seq<u8>, pos: nat) -> Result<
    Seq<u8>,
    FlattenError,
>
    recommends
        pos <= src.len(),
{
    match scan_chunk_spec(s, src.subrange(pos as int, src.len() as int)) {
        ScanChunk::Rejected => Err(FlattenError::MalformedInput),
        ScanChunk::Flattened { state, out } => {
            if state.depth is Some {
                Err(FlattenError::UnexpectedTruncation)
            } else {
                Ok(out)
            }
        },
    }
}

/// At the start of the source, with a fresh scanner, the rest of the
/// stream is the whole stream.
pub proof fn lemma_flatten_from_start(src: Seq<u8>)
    ensures
        flatten_from(ScanState::initial(), src, 0) == flatten_spec(src),
{
    assert(src.subrange(0, src.len() as int) =~= src);
}

/// What one successful pull delivers: the scanner's state and position
/// after the call, and the bytes produced.  An empty `out` means the
/// source is exhausted (end of stream).
#[verifier::ext_equal]
pub ghost struct PullOk {
    pub state: ScanState,
    pub pos: nat,
    pub out: Seq<u8>,
}

/// The result of one pull of at most `cap` bytes: chunks of `cap` bytes
/// are scanned, starting at `pos`, until one of them produces output or
/// the source is exhausted.  A capacity of zero is a no-op; a source that
/// runs out while an array is open is truncated.
pub open spec fn pull_spec(s: ScanState, src: Seq<u8>, pos: nat, cap: nat) -> Result<
    PullOk,
    FlattenError,
>
    decreases src.len() - pos,
{
    if cap == 0 {
        Ok(PullOk { state: s, pos, out: Seq::empty() })
    } else if pos >= src.len() {
        if s.depth is Some {
            Err(FlattenError::UnexpectedTruncation)
        } else {
            Ok(PullOk { state: s, pos, out: Seq::empty() })
        }
    } else {
        let bc: int = if pos + cap <= src.len() {
            cap as int
        } else {
            src.len() - pos
        };
        match scan_chunk_spec(s, src.subrange(pos as int, pos + bc)) {
            ScanChunk::Rejected => Err(FlattenError::MalformedInput),
            ScanChunk::Flattened { state, out } => {
                if out.len() > 0 {
                    Ok(PullOk { state, pos: (pos + bc) as nat, out })
                } else {
                    pull_spec(state, src, (pos + bc) as nat, cap)
                }
            },
        }
    }
}

/// One pull takes the next stretch of the flattened stream and leaves
/// exactly the rest behind: however small the capacity and wherever the
/// chunk boundaries fall, a NUL-free source flattens to the same stream,
/// and an error surfaces exactly where the whole-stream scan would run
/// into it.
pub proof fn lemma_pull_preserves_the_stream(s: ScanState, src: Seq<u8>, pos: nat, cap: nat)
    requires
        pos <= src.len(),
        cap >= 1,
        forall|i: int| pos <= i < src.len() ==> src[i] != 0,
    ensures
        (match pull_spec(s, src, pos, cap) {
            Ok(p) => {
                &&& pos <= p.pos <= src.len()
                &&& (p.out.len() > 0 ==> p.pos > pos)
                &&& flatten_from(s, src, pos) == (match flatten_from(p.state, src, p.pos) {
                    Ok(o2) => Ok::<Seq<u8>, FlattenError>(p.out + o2),
                    Err(e) => Err::<Seq<u8>, FlattenError>(e),
                })
            },
            Err(e) => flatten_from(s, src, pos) == Err::<Seq<u8>, FlattenError>(e),
        }),
    decreases src.len() - pos,
{
    if pos >= src.len() {
        assert(src.subrange(pos as int, src.len() as int) =~= Seq::<u8>::empty());
        if !(s.depth is Some) {
            assert(Seq::<u8>::empty() + Seq::<u8>::empty() =~= Seq::<u8>::empty());
        }
    } else {
        let bc: int = if pos + cap <= src.len() {
            cap as int
        } else {
            src.len() - pos
        };
        let chunk = src.subrange(pos as int, pos + bc);
        let rest_after = src.subrange(pos + bc, src.len() as int);
        assert(src.subrange(pos as int, src.len() as int) =~= chunk + rest_after);
        assert(forall|i: int| 0 <= i < chunk.len() ==> chunk[i] != 0);
        lemma_scan_chunk_append(s, chunk, rest_after);
        match scan_chunk_spec(s, chunk) {
            ScanChunk::Rejected => {},
            ScanChunk::Flattened { state: s1, out: o1 } => {
                if o1.len() == 0 {
                    match scan_chunk_spec(s1, rest_after) {
                        ScanChunk::Rejected => {},
                        ScanChunk::Flattened { out: o2, .. } => {
                            assert(o1 + o2 =~= o2);
                        },
                    }
                    lemma_pull_preserves_the_stream(s1, src, (pos + bc) as nat, cap);
                }
            },
        }
    }
}

/// A pull-based source of flattened bytes over an in-memory byte stream.
///
/// The reader scans its source a chunk at a time, never looking further
/// ahead than the capacity the caller asked for, and hands back the bytes
/// of the flattened stream as they become available.
pub struct ArrayStreamReader {
    source: Vec<u8>,
    pos: usize,
    state: Flattener,
}

/// What a reader looks like in contracts: the source bytes, the position
/// of the next unread byte, and the scanner's state.
#[verifier::ext_equal]
pub ghost struct ReaderModel {
    pub source: Seq<u8>,
    pub pos: nat,
    pub state: ScanState,
}

impl View for ArrayStreamReader {
    type V = ReaderModel;

    closed spec fn view(&self) -> ReaderModel {
        ReaderModel { source: self.source@, pos: self.pos as nat, state: self.state@ }
    }
}

impl ArrayStreamReader {
    /// The reader's internal consistency: the scanner's flags agree with
    /// one another, no more bytes are consumed than the source holds, and
    /// the nesting depth never exceeds the bytes consumed.
    pub closed spec fn inv(&self) -> bool {
        &&& self.state@.wf()
        &&& self.pos <= self.source@.len()
        &&& self.state@.depth_or_zero() <= self.pos as nat
    }

    /// A reader over the given source bytes, awaiting the first array.
    pub fn new(source: Vec<u8>) -> (r: ArrayStreamReader)
        ensures
            r.inv(),
            r@.source == source@,
            r@.pos == 0,
            r@.state == ScanState::initial(),
    {
        ArrayStreamReader { source, pos: 0, state: Flattener::new() }
    }

    /// Pulls the next flattened bytes, at most `cap` of them, exactly as
    /// [`pull_spec`] describes: an empty result is the end of the stream
    /// (or a zero capacity), and a non-empty result is the next stretch of
    /// flattened bytes.
    pub fn pull(&mut self, cap: usize) -> (r: Result<Vec<u8>, FlattenError>)
        requires
            old(self).inv(),
        ensures
            final(self).inv(),
            final(self)@.source == old(self)@.source,
            (match r {
                Ok(v) => {
                    &&& pull_spec(old(self)@.state, old(self)@.source, old(self)@.pos, cap as nat)
                        == Ok::<PullOk, FlattenError>(
                        PullOk { state: final(self)@.state, pos: final(self)@.pos, out: v@ },
                    )
                    &&& v@.len() <= cap
                },
                Err(e) => pull_spec(old(self)@.state, old(self)@.source, old(self)@.pos, cap as nat)
                    == Err::<PullOk, FlattenError>(e),
            }),
    {
        if cap == 0 {
            return Ok(Vec::new());
        }
        loop
            invariant
                self.inv(),
                cap >= 1,
                self@.source == old(self)@.source,
                pull_spec(old(self)@.state, old(self)@.source, old(self)@.pos, cap as nat)
                    == pull_spec(self@.state, self@.source, self@.pos, cap as nat),
            decreases self@.source.len() - self@.pos,
        {
            let len = self.source.len();
            if self.pos == len {
                if self.state.is_inside_array() {
                    return Err(FlattenError::UnexpectedTruncation);
                } else {
                    return Ok(Vec::new());
                }
            }
            let remaining = len - self.pos;
            let bc = if cap < remaining {
                cap
            } else {
                remaining
            };
            let chunk = vstd::slice::slice_subrange(self.source.as_slice(), self.pos, self.pos + bc);
            let r = self.state.process_chunk(chunk);
            self.pos = self.pos + bc;
            match r {
                Err(e) => {
                    return Err(e);
                },
                Ok(out) => {
                    if out.len() > 0 {
                        return Ok(out);
                    }
                },
            }
        }
    }
}

/// Flattens a whole in-memory byte stream: the executable counterpart of
/// [`flatten_spec`].  The bytes of every top-level array come back with
/// each element followed by one separator byte, or the scan's error is
/// reported.
pub fn flatten_bytes(source: Vec<u8>) -> (r: Result<Vec<u8>, FlattenError>)
    ensures
        (match r {
            Ok(v) => flatten_spec(source@) == Ok::<Seq<u8>, FlattenError>(v@),
            Err(e) => flatten_spec(source@) == Err::<Seq<u8>, FlattenError>(e),
        }),
{
    let cap = source.len();
    let ghost src = source@;
    let mut reader = ArrayStreamReader::new(source);
    if cap == 0 {
        proof {
            assert(src.subrange(0, 0) =~= src);
        }
        return Ok(Vec::new());
    }
    proof {
        reveal_with_fuel(pull_spec, 3);
        assert(src.subrange(0, src.len() as int) =~= src);
    }
    let first = match reader.pull(cap) {
        Ok(v) => v,
        Err(e) => {
            return Err(e);
        },
    };
    if first.len() == 0 {
        return Ok(first);
    }
    match reader.pull(cap) {
        Ok(second) => {
            proof {
                assert(second@.len() == 0);
            }
            Ok(first)
        },
        Err(e) => Err(e),
    }
}

} // verus!
