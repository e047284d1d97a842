//! The mathematical model of the flatten transform.
//!
//! A [`ScanState`] captures everything the scanner remembers between two
//! bytes: whether it is inside a top-level array (and at which nesting
//! depth), inside a string literal, whether the next byte is escaped, and
//! whether it is still absorbing the whitespace after a top-level comma.
//! [`scan_step`] gives the effect of one byte, [`scan_chunk_spec`] folds it
//! over a chunk, and [`flatten_spec`] states the result of flattening a
//! whole byte stream.  The proof functions at the end of the module are the
//! laws the transform obeys.

use vstd::prelude::*;

verus! {

/// Why a read of the flattened stream failed.
#[derive(Clone, Copy, Debug, PartialEq, Eq, Structural)]
pub enum FlattenError {
    /// The stream does not begin with an array, or a brace closes at the
    /// top level of an array.
    MalformedInput,
    /// The source was exhausted while an array was still open.
    UnexpectedTruncation,
}

/// The scanner's persistent state.
///
/// Invariants ([`ScanState::wf`]): an escape can only be pending inside a
/// string, a string can only be open inside an array, and whitespace is
/// only being absorbed right after a top-level comma.
#[verifier::ext_equal]
pub ghost struct ScanState {
    /// `None` while awaiting the next top-level array start; `Some(d)`
    /// inside an array, at brace/bracket nesting depth `d` relative to the
    /// array's contents.
    pub depth: Option<nat>,
    /// True between an opening and a not-yet-seen closing unescaped quote.
    pub inside_string: bool,
    /// True immediately after an unescaped backslash inside a string.
    pub escape_next: bool,
    /// True immediately after a top-level comma: the whitespace that
    /// follows the comma is consumed into the comma's single separator
    /// byte, however many chunks it spans.
    pub skip_space: bool,
}

impl ScanState {
    /// The state at construction: outside any array.
    pub open spec fn initial() -> ScanState {
        ScanState { depth: None, inside_string: false, escape_next: false, skip_space: false }
    }

    /// Well-formedness: the flags are mutually consistent.
    pub open spec fn wf(self) -> bool {
        &&& (self.escape_next ==> self.inside_string)
        &&& (self.inside_string ==> self.depth is Some)
        &&& (self.skip_space ==> self.depth == Some(0 as nat) && !self.inside_string)
    }

    /// The nesting depth, or zero when outside an array.
    pub open spec fn depth_or_zero(self) -> nat {
        match self.depth {
            Some(d) => d,
            None => 0,
        }
    }
}

/// `'['`, which opens an array.
pub const OPEN_BRACKET: u8 = 91;

/// `']'`, which closes an array.
pub const CLOSE_BRACKET: u8 = 93;

/// `'{'`, which opens an object.
pub const OPEN_BRACE: u8 = 123;

/// `'}'`, which closes an object.
pub const CLOSE_BRACE: u8 = 125;

/// `','`, which separates the elements of an array.
pub const COMMA: u8 = 44;

/// `'"'`, which delimits a string literal.
pub const QUOTE: u8 = 34;

/// `'\'`, which escapes the byte that follows it inside a string.
pub const BACKSLASH: u8 = 92;

/// The separator byte (a space) that replaces each top-level comma and
/// closing bracket in the flattened stream.
pub const SEPARATOR: u8 = 32;

/// The bytes that `u8::is_ascii_whitespace` accepts: space, tab, line
/// feed, form feed, carriage return.
pub open spec fn is_json_whitespace(b: u8) -> bool {
    b == 32 || b == 9 || b == 10 || b == 12 || b == 13
}

/// The effect of one byte on the scanner.
#[verifier::ext_equal]
pub ghost enum ScanStep {
    /// The byte is consumed; `out` is what it contributes to the flattened
    /// stream (nothing, itself, or one separator byte).
    Next { state: ScanState, out: Seq<u8> },
    /// A NUL byte while awaiting an array start: scanning of the current
    /// chunk stops and the rest of the chunk is flushed verbatim.
    HaltChunk,
    /// The byte cannot occur here: the input is malformed.
    Reject,
}

/// One byte of scanning, as described by the flatten rules: whitespace and
/// the opening bracket of a top-level array are dropped, string contents
/// pass through untouched, nested structure passes through, and a
/// top-level comma or closing bracket becomes one separator byte — the
/// comma together with the whitespace that follows it, so adjacent values
/// are parted by exactly one separator.
pub open spec fn scan_step(s: ScanState, b: u8) -> ScanStep {
    match s.depth {
        None => {
            if b == OPEN_BRACKET {
                // '[' starts a top-level array.
                ScanStep::Next {
                    state: ScanState {
                        depth: Some(0 as nat),
                        inside_string: false,
                        escape_next: false,
                        skip_space: false,
                    },
                    out: Seq::empty(),
                }
            } else if is_json_whitespace(b) {
                ScanStep::Next { state: s, out: Seq::empty() }
            } else if b == 0 {
                ScanStep::HaltChunk
            } else {
                ScanStep::Reject
            }
        },
        Some(d) => {
            if s.inside_string {
                let state = if s.escape_next {
                    // The escaped byte is a literal, structurally inert.
                    ScanState {
                        depth: s.depth,
                        inside_string: true,
                        escape_next: false,
                        skip_space: s.skip_space,
                    }
                } else if b == BACKSLASH {
                    // '\\' escapes the byte that follows.
                    ScanState {
                        depth: s.depth,
                        inside_string: true,
                        escape_next: true,
                        skip_space: s.skip_space,
                    }
                } else if b == QUOTE {
                    // '"' closes the string.
                    ScanState {
                        depth: s.depth,
                        inside_string: false,
                        escape_next: false,
                        skip_space: s.skip_space,
                    }
                } else {
                    s
                };
                ScanStep::Next { state, out: seq![b] }
            } else if s.skip_space && is_json_whitespace(b) {
                // Whitespace after a top-level comma is consumed into the
                // comma's separator.
                ScanStep::Next { state: s, out: Seq::empty() }
            } else if b == OPEN_BRACKET || b == OPEN_BRACE {
                // '[' or '{' opens a nested value.
                ScanStep::Next {
                    state: ScanState {
                        depth: Some((d + 1) as nat),
                        inside_string: false,
                        escape_next: false,
                        skip_space: false,
                    },
                    out: seq![b],
                }
            } else if (b == CLOSE_BRACKET || b == CLOSE_BRACE) && d > 0 {
                // ']' or '}' closes a nested value.
                ScanStep::Next {
                    state: ScanState {
                        depth: Some((d - 1) as nat),
                        inside_string: false,
                        escape_next: false,
                        skip_space: false,
                    },
                    out: seq![b],
                }
            } else if b == QUOTE {
                // '"' opens a string.
                ScanStep::Next {
                    state: ScanState {
                        depth: s.depth,
                        inside_string: true,
                        escape_next: false,
                        skip_space: false,
                    },
                    out: seq![b],
                }
            } else if b == CLOSE_BRACE {
                // '}' at depth 0: a brace cannot close at the top level.
                ScanStep::Reject
            } else if (b == COMMA || b == CLOSE_BRACKET) && d == 0 {
                // ',' or ']' at depth 0 is a boundary: it becomes one
                // separator byte; a comma also absorbs the whitespace that
                // follows it, and ']' closes the array.
                ScanStep::Next {
                    state: ScanState {
                        depth: if b == CLOSE_BRACKET { None } else { Some(0 as nat) },
                        inside_string: false,
                        escape_next: false,
                        skip_space: b == COMMA,
                    },
                    out: seq![SEPARATOR],
                }
            } else {
                ScanStep::Next {
                    state: ScanState {
                        depth: s.depth,
                        inside_string: s.inside_string,
                        escape_next: s.escape_next,
                        skip_space: false,
                    },
                    out: seq![b],
                }
            }
        },
    }
}

/// The outcome of scanning one chunk of bytes.
#[verifier::ext_equal]
pub ghost enum ScanChunk {
    /// The chunk was consumed; `state` is the scanner's state afterwards
    /// and `out` is what the chunk contributed to the flattened stream.
    Flattened { state: ScanState, out: Seq<u8> },
    /// A byte of the chunk cannot occur where it stands.
    Rejected,
}

/// Scanning a whole chunk, byte by byte from the front.  A NUL byte seen
/// while awaiting an array start stops the scan and flushes the rest of
/// the chunk verbatim.
pub open spec fn scan_chunk_spec(s: ScanState, chunk: Seq<u8>) -> ScanChunk
    decreases chunk.len(),
{
    if chunk.len() == 0 {
        ScanChunk::Flattened { state: s, out: Seq::empty() }
    } else {
        match scan_step(s, chunk[0]) {
            ScanStep::Reject => ScanChunk::Rejected,
            ScanStep::HaltChunk => ScanChunk::Flattened { state: s, out: chunk },
            ScanStep::Next { state, out } => {
                match scan_chunk_spec(state, chunk.subrange(1, chunk.len() as int)) {
                    ScanChunk::Rejected => ScanChunk::Rejected,
                    ScanChunk::Flattened { state: s2, out: o2 } => {
                        ScanChunk::Flattened { state: s2, out: out + o2 }
                    },
                }
            },
        }
    }
}

/// The result of flattening a complete byte stream, scanned as one chunk:
/// the flattened bytes, or the error the scan runs into.  A stream that
/// ends while an array is still open is truncated.
pub open spec fn flatten_spec(input: Seq<u8>) -> Result<Seq<u8>, FlattenError> {
    match scan_chunk_spec(ScanState::initial(), input) {
        ScanChunk::Rejected => Err(FlattenError::MalformedInput),
        ScanChunk::Flattened { state, out } => {
            if state.depth is Some {
                Err(FlattenError::UnexpectedTruncation)
            } else {
                Ok(out)
            }
        },
    }
}

/// One byte of scanning keeps the state well-formed.
proof fn lemma_step_preserves_wf(s: ScanState, b: u8)
    requires
        s.wf(),
    ensures
        (scan_step(s, b) matches ScanStep::Next { state, .. } ==> state.wf()),
{
}

/// Scanning a chunk keeps the state well-formed.
proof fn lemma_scan_preserves_wf(s: ScanState, chunk: Seq<u8>)
    requires
        s.wf(),
    ensures
        (scan_chunk_spec(s, chunk) matches ScanChunk::Flattened { state, .. } ==> state.wf()),
    decreases chunk.len(),
{
    if chunk.len() > 0 {
        match scan_step(s, chunk[0]) {
            ScanStep::Next { state, .. } => {
                lemma_step_preserves_wf(s, chunk[0]);
                lemma_scan_preserves_wf(state, chunk.subrange(1, chunk.len() as int));
            },
            _ => {},
        }
    }
}

/// While awaiting an array start, whitespace is consumed and contributes
/// nothing.
proof fn lemma_scan_all_whitespace(s: ScanState, chunk: Seq<u8>)
    requires
        s.depth is None,
        forall|i: int| 0 <= i < chunk.len() ==> is_json_whitespace(#[trigger] chunk[i]),
    ensures
        scan_chunk_spec(s, chunk) == (ScanChunk::Flattened { state: s, out: Seq::<u8>::empty() }),
    decreases chunk.len(),
{
    if chunk.len() > 0 {
        assert(is_json_whitespace(chunk[0]));
        let rest = chunk.subrange(1, chunk.len() as int);
        assert(forall|i: int| 0 <= i < rest.len() ==> is_json_whitespace(#[trigger] rest[i]));
        lemma_scan_all_whitespace(s, rest);
        assert(Seq::<u8>::empty() + Seq::<u8>::empty() =~= Seq::<u8>::empty());
    }
}

/// A stream of nothing but whitespace (or nothing at all) flattens to the
/// empty stream: a clean end, no output, no error.
pub proof fn lemma_whitespace_only_yields_end_of_stream(input: Seq<u8>)
    requires
        forall|i: int| 0 <= i < input.len() ==> is_json_whitespace(#[trigger] input[i]),
    ensures
        flatten_spec(input) == Ok::<Seq<u8>, FlattenError>(Seq::<u8>::empty()),
{
    lemma_scan_all_whitespace(ScanState::initial(), input);
}

/// While awaiting an array start, a chunk whose first byte past the
/// leading whitespace is neither `'['` nor NUL is rejected.
proof fn lemma_scan_rejects_missing_array(s: ScanState, chunk: Seq<u8>, i: int)
    requires
        s.depth is None,
        0 <= i < chunk.len(),
        forall|j: int| 0 <= j < i ==> is_json_whitespace(#[trigger] chunk[j]),
        !is_json_whitespace(chunk[i]),
        chunk[i] != OPEN_BRACKET,
        chunk[i] != 0,
    ensures
        scan_chunk_spec(s, chunk) is Rejected,
    decreases i,
{
    if i == 0 {
        assert(scan_step(s, chunk[0]) is Reject);
    } else {
        assert(is_json_whitespace(chunk[0]));
        let rest = chunk.subrange(1, chunk.len() as int);
        assert(rest[i - 1] == chunk[i]);
        assert(forall|j: int| 0 <= j < i - 1 ==> is_json_whitespace(#[trigger] rest[j]));
        lemma_scan_rejects_missing_array(s, rest, i - 1);
    }
}

/// A stream whose first non-whitespace byte is not `'['` (and not the NUL
/// end-of-chunk marker) is malformed: the stream does not begin with an
/// array.
pub proof fn lemma_missing_outer_array_is_malformed(input: Seq<u8>, i: int)
    requires
        0 <= i < input.len(),
        forall|j: int| 0 <= j < i ==> is_json_whitespace(#[trigger] input[j]),
        !is_json_whitespace(input[i]),
        input[i] != OPEN_BRACKET,
        input[i] != 0,
    ensures
        flatten_spec(input) == Err::<Seq<u8>, FlattenError>(FlattenError::MalformedInput),
{
    lemma_scan_rejects_missing_array(ScanState::initial(), input, i);
}

/// Inside a string literal every byte passes through unchanged and the
/// nesting depth does not move: structural characters inside strings never
/// trigger boundaries or depth changes.
pub proof fn lemma_string_bytes_pass_through(s: ScanState, b: u8)
    requires
        s.wf(),
        s.inside_string,
    ensures
        scan_step(s, b) is Next,
        scan_step(s, b)->out == seq![b],
        scan_step(s, b)->state.depth == s.depth,
        scan_step(s, b)->state.inside_string == (s.escape_next || b == BACKSLASH || b != QUOTE),
{
}

/// Scanning distributes over chunk concatenation, as long as the first
/// chunk holds no NUL byte (the end-of-chunk marker): the scanner's state
/// carries everything that matters across a chunk boundary.
pub proof fn lemma_scan_chunk_append(s: ScanState, a: Seq<u8>, b: Seq<u8>)
    requires
        forall|i: int| 0 <= i < a.len() ==> a[i] != 0,
    ensures
        (match scan_chunk_spec(s, a) {
            ScanChunk::Rejected => scan_chunk_spec(s, a + b) is Rejected,
            ScanChunk::Flattened { state: s1, out: o1 } => (match scan_chunk_spec(s1, b) {
                ScanChunk::Rejected => scan_chunk_spec(s, a + b) is Rejected,
                ScanChunk::Flattened { state: s2, out: o2 } => scan_chunk_spec(s, a + b)
                    == (ScanChunk::Flattened { state: s2, out: o1 + o2 }),
            }),
        }),
    decreases a.len(),
{
    if a.len() == 0 {
        assert(a + b =~= b);
        match scan_chunk_spec(s, b) {
            ScanChunk::Rejected => {},
            ScanChunk::Flattened { state: s2, out: o2 } => {
                assert(Seq::<u8>::empty() + o2 =~= o2);
            },
        }
    } else {
        assert((a + b)[0] == a[0]);
        assert((a + b).len() > 0);
        let ra = a.subrange(1, a.len() as int);
        assert(forall|i: int| 0 <= i < ra.len() ==> ra[i] != 0);
        assert((a + b).subrange(1, (a + b).len() as int) =~= ra + b);
        match scan_step(s, a[0]) {
            ScanStep::Reject => {},
            ScanStep::HaltChunk => {
                assert(a[0] != 0);
            },
            ScanStep::Next { state, out } => {
                lemma_scan_chunk_append(state, ra, b);
                match scan_chunk_spec(state, ra) {
                    ScanChunk::Rejected => {},
                    ScanChunk::Flattened { state: s1, out: o1 } => {
                        match scan_chunk_spec(s1, b) {
                            ScanChunk::Rejected => {},
                            ScanChunk::Flattened { state: s2, out: o2 } => {
                                assert(out + (o1 + o2) =~= (out + o1) + o2);
                            },
                        }
                    },
                }
            },
        }
    }
}

/// Consecutive top-level arrays are independent: once a NUL-free stream
/// has flattened completely, whatever the source delivers next is
/// flattened as if from a fresh start, and the two outputs are simply
/// concatenated.
pub proof fn lemma_flattened_streams_concatenate(x: Seq<u8>, y: Seq<u8>)
    requires
        forall|i: int| 0 <= i < x.len() ==> x[i] != 0,
        flatten_spec(x) is Ok,
    ensures
        flatten_spec(x + y) == (match flatten_spec(y) {
            Ok(oy) => Ok::<Seq<u8>, FlattenError>(flatten_spec(x)->Ok_0 + oy),
            Err(e) => Err::<Seq<u8>, FlattenError>(e),
        }),
{
    lemma_scan_preserves_wf(ScanState::initial(), x);
    lemma_scan_chunk_append(ScanState::initial(), x, y);
    match scan_chunk_spec(ScanState::initial(), x) {
        ScanChunk::Rejected => {},
        ScanChunk::Flattened { state: s1, out: o1 } => {
            assert(s1.depth is None);
            assert(s1 == ScanState::initial());
        },
    }
}

/// Whatever a chunk contributes to the flattened stream never exceeds the
/// chunk itself in length: every byte becomes at most one byte.
proof fn lemma_scan_output_no_longer(s: ScanState, chunk: Seq<u8>)
    ensures
        (scan_chunk_spec(s, chunk) matches ScanChunk::Flattened { out, .. } ==> out.len()
            <= chunk.len()),
    decreases chunk.len(),
{
    if chunk.len() > 0 {
        match scan_step(s, chunk[0]) {
            ScanStep::Next { state, out } => {
                lemma_scan_output_no_longer(state, chunk.subrange(1, chunk.len() as int));
            },
            _ => {},
        }
    }
}

/// The transform is one-directional: a NUL-free stream that flattens
/// successfully comes out strictly shorter than it went in, so the output
/// can never be fed back through a fresh scanner to reproduce the input —
/// the outer brackets are gone.
pub proof fn lemma_flatten_strictly_shrinks(input: Seq<u8>)
    requires
        input.len() > 0,
        forall|i: int| 0 <= i < input.len() ==> input[i] != 0,
        flatten_spec(input) is Ok,
    ensures
        flatten_spec(input)->Ok_0.len() < input.len(),
{
    let rest = input.subrange(1, input.len() as int);
    assert(forall|i: int| 0 <= i < rest.len() ==> rest[i] != 0);
    match scan_step(ScanState::initial(), input[0]) {
        ScanStep::Next { state, out } => {
            assert(out.len() == 0);
            lemma_scan_output_no_longer(state, rest);
        },
        _ => {},
    }
}

/// Feeding the transducer's own output back through a fresh scanner is
/// not expected to succeed, since the outer brackets are gone: whenever
/// the output's first non-whitespace byte is neither an opening bracket
/// nor the NUL end-of-chunk marker, re-reading it is rejected as
/// malformed.
pub proof fn lemma_output_cannot_be_re_read(input: Seq<u8>, i: int)
    requires
        flatten_spec(input) is Ok,
        0 <= i < flatten_spec(input)->Ok_0.len(),
        forall|j: int| 0 <= j < i ==> is_json_whitespace(#[trigger] flatten_spec(input)->Ok_0[j]),
        !is_json_whitespace(flatten_spec(input)->Ok_0[i]),
        flatten_spec(input)->Ok_0[i] != OPEN_BRACKET,
        flatten_spec(input)->Ok_0[i] != 0,
    ensures
        flatten_spec(flatten_spec(input)->Ok_0) == Err::<Seq<u8>, FlattenError>(
            FlattenError::MalformedInput,
        ),
{
    lemma_missing_outer_array_is_malformed(flatten_spec(input)->Ok_0, i);
}

} // verus!
