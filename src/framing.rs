//! Frames: single lines of bytes terminated by `\n`.

use vstd::prelude::*;
use vstd::string::StringSliceAdditionalSpecFns;

verus! {

/// The line terminator `\n`.
pub const NEWLINE: u8 = 10;

/// `k` is the position of the first `\n` in `s`.
pub open spec fn is_first_newline(s: Seq<u8>, k: int) -> bool {
    &&& 0 <= k < s.len()
    &&& s[k] == NEWLINE
    &&& forall|j: int| 0 <= j < k ==> s[j] != NEWLINE
}

pub open spec fn has_newline(s: Seq<u8>) -> bool {
    exists|k: int| is_first_newline(s, k)
}

/// The first complete frame of `s` and the number of bytes it occupies, terminator
/// included; `None` where `s` holds no `\n`.
pub open spec fn first_frame(s: Seq<u8>) -> Option<(Seq<u8>, nat)> {
    if has_newline(s) {
        let k = choose|k: int| is_first_newline(s, k);
        Some((s.subrange(0, k), (k + 1) as nat))
    } else {
        None
    }
}

/// There is only one first newline.
pub proof fn lemma_first_newline_unique(s: Seq<u8>, k1: int, k2: int)
    requires
        is_first_newline(s, k1),
        is_first_newline(s, k2),
    ensures
        k1 == k2,
{
}

/// Where `k` is the first newline, `first_frame` splits there.
pub proof fn lemma_first_frame_at(s: Seq<u8>, k: int)
    requires
        is_first_newline(s, k),
    ensures
        first_frame(s) == Some((s.subrange(0, k), (k + 1) as nat)),
{
    assert(has_newline(s));
    let c = choose|c: int| is_first_newline(s, c);
    lemma_first_newline_unique(s, k, c);
}

/// Why no frame could be taken from a buffer.
#[derive(Debug, Copy, Clone, PartialEq, Eq, Structural)]
pub enum FrameError {
    /// The buffer holds no complete line yet.
    Incomplete,
}

/// A single line of the wire protocol, without its terminator.
#[derive(Debug, Clone, PartialEq, Eq)]
pub struct Frame {
    payload: Vec<u8>,
}

impl View for Frame {
    type V = Seq<u8>;

    closed spec fn view(&self) -> Seq<u8> {
        self.payload@
    }
}

impl Frame {
    /// A frame holding `payload`.
    pub fn new(payload: Vec<u8>) -> (r: Frame)
        ensures
            r@ == payload@,
    {
        Frame { payload }
    }

    /// A frame holding the UTF-8 bytes of `s`.
    pub fn new_from_string(s: &str) -> (r: Frame)
        ensures
            r@ == s.spec_bytes(),
    {
        let b = s.as_bytes();
        let mut payload: Vec<u8> = Vec::new();
        let mut i: usize = 0;
        while i < b.len()
            invariant
                i <= b@.len(),
                payload@ =~= b@.subrange(0, i as int),
            decreases b@.len() - i,
        {
            payload.push(b[i]);
            i = i + 1;
        }
        assert(payload@ =~= b@);
        Frame { payload }
    }

    /// The bytes of the frame, without terminator.
    pub fn payload(&self) -> (r: &Vec<u8>)
        ensures
            r@ == self@,
    {
        &self.payload
    }

    /// The first complete frame of `buf` and the number of bytes it occupied,
    /// terminator included. `buf` itself is left as it is.
    pub fn from_input(buf: &[u8]) -> (r: Result<(Frame, usize), FrameError>)
        ensures
            first_frame(buf@) is None ==> r == Err::<(Frame, usize), FrameError>(
                FrameError::Incomplete,
            ),
            first_frame(buf@) matches Some((f, n)) ==> r is Ok && r->Ok_0.0@ == f && r->Ok_0.1
                == n,
    {
        let r = Frame::from_input_at(buf, 0);
        assert(buf@.skip(0) =~= buf@);
        r
    }

    /// The first complete frame of `buf` from position `start` on, and the number of
    /// bytes it occupied, terminator included.
    pub fn from_input_at(buf: &[u8], start: usize) -> (r: Result<(Frame, usize), FrameError>)
        requires
            start <= buf@.len(),
        ensures
            first_frame(buf@.skip(start as int)) is None ==> r == Err::<
                (Frame, usize),
                FrameError,
            >(FrameError::Incomplete),
            first_frame(buf@.skip(start as int)) matches Some((f, n)) ==> r is Ok && r->Ok_0.0@
                == f && r->Ok_0.1 == n,
    {
        let ghost rest = buf@.skip(start as int);
        let mut payload: Vec<u8> = Vec::new();
        let mut i: usize = start;
        while i < buf.len()
            invariant
                start <= i <= buf@.len(),
                rest == buf@.skip(start as int),
                payload@ =~= rest.subrange(0, i - start),
                forall|j: int| 0 <= j < i - start ==> rest[j] != NEWLINE,
            decreases buf@.len() - i,
        {
            if buf[i] == NEWLINE {
                proof {
                    lemma_first_frame_at(rest, i - start);
                }
                return Ok((Frame { payload }, i - start + 1));
            }
            payload.push(buf[i]);
            i = i + 1;
        }
        Err(FrameError::Incomplete)
    }

    /// The frame as it goes on the wire: its bytes followed by `\n`.
    pub fn encode(&self) -> (r: Vec<u8>)
        ensures
            r@ == self@.push(NEWLINE),
    {
        let mut out = self.payload.clone();
        out.push(NEWLINE);
        out
    }
}

} // verus!
