use vstd::prelude::*;
use vstd::slice::slice_subrange;
use vstd::utf8::{encode_utf8, valid_utf8};

verus! {

use crate::errors::ClientError;
use crate::protocol::{BULK_STRING_PREFIX, CR, ERROR_PREFIX, LF, SIMPLE_STRING_PREFIX};

/// What a scan of a received byte buffer reports about its first frame.
#[derive(Clone, Copy, Debug, PartialEq, Eq, Structural)]
pub enum FrameStatus {
    /// No complete frame yet: more bytes must be read.
    Incomplete,
    /// The first frame is complete and spans exactly this many leading bytes.
    Complete(usize),
    /// The bytes cannot be the start of a supported frame.
    Invalid,
}

/// The position of the first line terminator at or after `from`.
pub open spec fn find_crlf(b: Seq<u8>, from: int) -> Option<int>
    decreases b.len() - from,
{
    if from < 0 || from + 2 > b.len() {
        None
    } else if b[from] == CR && b[from + 1] == LF {
        Some(from)
    } else {
        find_crlf(b, from + 1)
    }
}

pub open spec fn is_digit(x: u8) -> bool {
    48 <= x <= 57
}

pub open spec fn all_digits(ds: Seq<u8>) -> bool {
    forall|j: int| 0 <= j < ds.len() ==> is_digit(#[trigger] ds[j])
}

/// The number written by a sequence of decimal digit bytes.
pub open spec fn digits_val(ds: Seq<u8>) -> nat
    decreases ds.len(),
{
    if ds.len() == 0 {
        0
    } else {
        (digits_val(ds.drop_last()) * 10 + (ds.last() - 48)) as nat
    }
}

/// The header field announcing a null bulk string, `-1`.
pub open spec fn null_marker() -> Seq<u8> {
    seq![45u8, 49u8]
}

/// The length of the complete first frame held by `b`, if one is complete.
/// A simple string or error reply ends at its first line terminator; a bulk
/// string declares its body length in its header and ends with a terminator
/// of its own; a null bulk string is its header alone. Array replies are not
/// supported by this client's single-response reader.
pub open spec fn spec_frame_len(b: Seq<u8>) -> Option<int> {
    if b.len() == 0 {
        None
    } else if b[0] == SIMPLE_STRING_PREFIX || b[0] == ERROR_PREFIX {
        match find_crlf(b, 0) {
            Some(i) => Some(i + 2),
            None => None,
        }
    } else if b[0] == BULK_STRING_PREFIX {
        match find_crlf(b, 0) {
            Some(i) => {
                let field = b.subrange(1, i);
                if field == null_marker() {
                    Some(i + 2)
                } else if field.len() >= 1 && all_digits(field) {
                    let total = i + 2 + digits_val(field) + 2;
                    if b.len() >= total && b[total - 2] == CR && b[total - 1] == LF {
                        Some(total)
                    } else {
                        None
                    }
                } else {
                    None
                }
            },
            None => None,
        }
    } else {
        None
    }
}

/// Whether `b` starts with bytes that can never grow into a supported frame:
/// an unknown prefix, a bulk header whose length field is not a number, or a
/// declared bulk body that does not end with the line terminator.
pub open spec fn spec_frame_invalid(b: Seq<u8>) -> bool {
    if b.len() == 0 {
        false
    } else if b[0] == SIMPLE_STRING_PREFIX || b[0] == ERROR_PREFIX {
        false
    } else if b[0] == BULK_STRING_PREFIX {
        match find_crlf(b, 0) {
            Some(i) => {
                let field = b.subrange(1, i);
                if field == null_marker() {
                    false
                } else if field.len() >= 1 && all_digits(field) {
                    let total = i + 2 + digits_val(field) + 2;
                    b.len() >= total && !(b[total - 2] == CR && b[total - 1] == LF)
                } else {
                    true
                }
            },
            None => false,
        }
    } else {
        true
    }
}

fn find_crlf_exec(b: &[u8]) -> (r: Option<usize>)
    ensures
        match r {
            Some(i) => find_crlf(b@, 0) == Some(i as int),
            None => find_crlf(b@, 0) is None,
        },
{
    let n = b.len();
    let mut i: usize = 0;
    while n - i > 1
        invariant
            i <= n,
            n == b@.len(),
            find_crlf(b@, 0) == find_crlf(b@, i as int),
        decreases n - i,
    {
        if b[i] == CR && b[i + 1] == LF {
            return Some(i);
        }
        proof {
            assert(find_crlf(b@, i as int) == find_crlf(b@, i + 1));
        }
        i += 1;
    }
    proof {
        assert(find_crlf(b@, i as int) is None);
    }
    None
}

proof fn lemma_find_crlf_some(b: Seq<u8>, from: int, i: int)
    requires
        find_crlf(b, from) == Some(i),
    ensures
        from <= i,
        i + 2 <= b.len(),
        b[i] == CR,
        b[i + 1] == LF,
    decreases b.len() - from,
{
    if from < 0 || from + 2 > b.len() {
    } else if b[from] == CR && b[from + 1] == LF {
    } else {
        lemma_find_crlf_some(b, from + 1, i);
    }
}

/// The first length beyond what any in-memory buffer can hold; a declared
/// bulk length at or above it can never be satisfied.
const BULK_LEN_CAP: u128 = 18446744073709551616;

/// Scans a received buffer and reports whether its first response frame is
/// complete and how many bytes it spans, whether more bytes must be read, or
/// whether the bytes are not a supported frame at all.
pub fn frame_status(b: &[u8]) -> (r: FrameStatus)
    ensures
        match r {
            FrameStatus::Complete(n) => spec_frame_len(b@) == Some(n as int)
                && !spec_frame_invalid(b@),
            FrameStatus::Incomplete => spec_frame_len(b@) is None && !spec_frame_invalid(b@),
            FrameStatus::Invalid => spec_frame_invalid(b@) && spec_frame_len(b@) is None,
        },
{
    let n = b.len();
    if n == 0 {
        return FrameStatus::Incomplete;
    }
    let p = b[0];
    if p == SIMPLE_STRING_PREFIX || p == ERROR_PREFIX {
        match find_crlf_exec(b) {
            Some(i) => {
                proof {
                    lemma_find_crlf_some(b@, 0, i as int);
                }
                FrameStatus::Complete(i + 2)
            },
            None => FrameStatus::Incomplete,
        }
    } else if p == BULK_STRING_PREFIX {
        let iopt = find_crlf_exec(b);
        let i = match iopt {
            Some(i) => i,
            None => {
                return FrameStatus::Incomplete;
            },
        };
        proof {
            lemma_find_crlf_some(b@, 0, i as int);
        }
        let ghost field = b@.subrange(1, i as int);
        if i == 3 && b[1] == 45 && b[2] == 49 {
            proof {
                assert(field =~= null_marker());
            }
            return FrameStatus::Complete(5);
        }
        proof {
            assert(field != null_marker()) by {
                if field == null_marker() {
                    assert(field.len() == 2);
                    assert(field[0] == b@[1]);
                    assert(field[1] == b@[2]);
                }
            }
        }
        if i < 2 {
            proof {
                assert(field.len() == 0);
            }
            return FrameStatus::Invalid;
        }
        let mut j: usize = 1;
        let mut acc: u128 = 0;
        while j < i
            invariant
                1 <= j <= i,
                2 <= i,
                i + 2 <= n,
                n == b@.len(),
                b@[0] == BULK_STRING_PREFIX,
                find_crlf(b@, 0) == Some(i as int),
                field == b@.subrange(1, i as int),
                field != null_marker(),
                all_digits(b@.subrange(1, j as int)),
                digits_val(b@.subrange(1, j as int)) < BULK_LEN_CAP ==> acc == digits_val(
                    b@.subrange(1, j as int),
                ),
                digits_val(b@.subrange(1, j as int)) >= BULK_LEN_CAP ==> acc == BULK_LEN_CAP,
                acc <= BULK_LEN_CAP,
            decreases i - j,
        {
            let d = b[j];
            if d < 48 || d > 57 {
                proof {
                    assert(!is_digit(field[j - 1]));
                }
                return FrameStatus::Invalid;
            }
            proof {
                assert(b@.subrange(1, j + 1).drop_last() =~= b@.subrange(1, j as int));
                assert(b@.subrange(1, j + 1).last() == b@[j as int]);
                assert forall|k: int| 0 <= k < j implies is_digit(
                    #[trigger] b@.subrange(1, j + 1)[k],
                ) by {
                    assert(b@.subrange(1, j + 1)[k] == b@[1 + k]);
                    if k < j - 1 {
                        assert(b@.subrange(1, j as int)[k] == b@[1 + k]);
                        assert(is_digit(b@.subrange(1, j as int)[k]));
                    } else {
                        assert(b@[1 + k] == b@[j as int]);
                    }
                }
            }
            let t = acc * 10 + ((d - 48) as u128);
            acc = if t > BULK_LEN_CAP {
                BULK_LEN_CAP
            } else {
                t
            };
            j += 1;
        }
        let total128: u128 = (i as u128) + 4 + acc;
        proof {
            assert(b@.subrange(1, j as int) == field);
            assert((n as u128) < BULK_LEN_CAP);
        }
        if total128 > (n as u128) {
            proof {
                assert(i + 2 + digits_val(field) + 2 > b@.len());
            }
            return FrameStatus::Incomplete;
        }
        let total = total128 as usize;
        proof {
            assert(acc == digits_val(field));
            assert(total == i + 2 + digits_val(field) + 2);
        }
        if b[total - 2] == CR && b[total - 1] == LF {
            FrameStatus::Complete(total)
        } else {
            FrameStatus::Invalid
        }
    } else {
        FrameStatus::Invalid
    }
}

proof fn lemma_find_crlf_prefix(b: Seq<u8>, more: Seq<u8>, from: int)
    requires
        find_crlf(b, from) is Some,
    ensures
        find_crlf(b + more, from) == find_crlf(b, from),
    decreases b.len() - from,
{
    if from < 0 || from + 2 > b.len() {
    } else if b[from] == CR && b[from + 1] == LF {
        assert((b + more)[from] == b[from]);
        assert((b + more)[from + 1] == b[from + 1]);
    } else {
        assert((b + more)[from] == b[from]);
        assert((b + more)[from + 1] == b[from + 1]);
        lemma_find_crlf_prefix(b, more, from + 1);
    }
}

/// Law: later reads cannot change a decision already reached. Once the bytes
/// received hold a complete first frame, any bytes that arrive after them
/// neither change that frame's extent nor invalidate it; and bytes that can
/// never grow into a supported frame stay unsupported whatever follows them.
/// This is what lets a reader stop at the first complete or invalid answer.
pub proof fn lemma_frame_decision_stable(b: Seq<u8>, more: Seq<u8>)
    ensures
        spec_frame_len(b) is Some ==> spec_frame_len(b + more) == spec_frame_len(b),
        spec_frame_invalid(b) ==> spec_frame_invalid(b + more),
{
    if b.len() == 0 {
    } else {
        assert((b + more)[0] == b[0]);
        if b[0] == SIMPLE_STRING_PREFIX || b[0] == ERROR_PREFIX || b[0]
            == BULK_STRING_PREFIX {
            match find_crlf(b, 0) {
                Some(i) => {
                    lemma_find_crlf_prefix(b, more, 0);
                    lemma_find_crlf_some(b, 0, i);
                    assert((b + more).subrange(1, i) =~= b.subrange(1, i));
                    let field = b.subrange(1, i);
                    if b[0] == BULK_STRING_PREFIX && field != null_marker() && field.len() >= 1
                        && all_digits(field) {
                        let total = i + 2 + digits_val(field) + 2;
                        if b.len() >= total {
                            assert((b + more)[total - 2] == b[total - 2]);
                            assert((b + more)[total - 1] == b[total - 1]);
                        }
                    }
                },
                None => {
                },
            }
        }
    }
}

proof fn lemma_frame_len_bounded(b: Seq<u8>, n: int)
    requires
        spec_frame_len(b) == Some(n),
    ensures
        2 <= n <= b.len(),
{
    if b.len() == 0 {
    } else if b[0] == SIMPLE_STRING_PREFIX || b[0] == ERROR_PREFIX {
        let i = find_crlf(b, 0)->0;
        lemma_find_crlf_some(b, 0, i);
    } else if b[0] == BULK_STRING_PREFIX {
        let i = find_crlf(b, 0)->0;
        lemma_find_crlf_some(b, 0, i);
    }
}

/// Relies on `str::from_utf8`: decoding succeeds exactly on valid UTF-8
/// input, and the decoded text is backed by those same bytes.
#[verifier::external_body]
fn decode_text(b: &[u8]) -> (r: Option<String>)
    ensures
        r is Some <==> valid_utf8(b@),
        r matches Some(s) ==> encode_utf8(s@) == b@,
{
    match core::str::from_utf8(b) {
        Ok(s) => Some(s.to_string()),
        Err(_) => None,
    }
}

/// Accumulates the bytes read from the stream, one bounded read at a time,
/// until they hold one complete response frame.
pub struct ResponseBuffer {
    data: Vec<u8>,
}

impl View for ResponseBuffer {
    type V = Seq<u8>;

    closed spec fn view(&self) -> Seq<u8> {
        self.data@
    }
}

impl ResponseBuffer {
    /// An empty buffer, ready for the first read.
    pub fn new() -> (r: Self)
        ensures
            r@ == Seq::<u8>::empty(),
    {
        ResponseBuffer { data: Vec::new() }
    }

    /// Appends the bytes that one read returned.
    pub fn feed(&mut self, chunk: &[u8])
        ensures
            final(self)@ == old(self)@ + chunk@,
    {
        let m = chunk.len();
        let mut i: usize = 0;
        while i < m
            invariant
                i <= m,
                m == chunk@.len(),
                self.data@ == old(self).data@ + chunk@.take(i as int),
            decreases m - i,
        {
            self.data.push(chunk[i]);
            proof {
                assert(old(self).data@ + chunk@.take(i + 1) =~= (old(self).data@ + chunk@.take(
                    i as int,
                )).push(chunk@[i as int]));
            }
            i += 1;
        }
        proof {
            assert(chunk@.take(m as int) =~= chunk@);
        }
    }

    /// Reports the state of the first frame in what has arrived so far.
    pub fn status(&self) -> (r: FrameStatus)
        ensures
            match r {
                FrameStatus::Complete(n) => spec_frame_len(self@) == Some(n as int)
                    && !spec_frame_invalid(self@),
                FrameStatus::Incomplete => spec_frame_len(self@) is None && !spec_frame_invalid(
                    self@,
                ),
                FrameStatus::Invalid => spec_frame_invalid(self@) && spec_frame_len(self@)
                    is None,
            },
    {
        frame_status(self.data.as_slice())
    }

    /// The text of the complete response frame, decoded from exactly the
    /// frame's bytes. An incomplete frame reports the truncation, an
    /// unsupported one the malformed framing, and a complete frame whose
    /// bytes are not valid text the decode failure.
    pub fn frame_text(&self) -> (r: Result<String, ClientError>)
        ensures
            spec_frame_len(self@) matches Some(n) ==> (if valid_utf8(self@.take(n)) {
                r matches Ok(s) && encode_utf8(s@) == self@.take(n)
            } else {
                r == Err::<String, ClientError>(ClientError::Decode)
            }),
            spec_frame_len(self@) is None && !spec_frame_invalid(self@) ==> r == Err::<
                String,
                ClientError,
            >(ClientError::Truncated),
            spec_frame_invalid(self@) ==> r == Err::<String, ClientError>(ClientError::Malformed),
    {
        match frame_status(self.data.as_slice()) {
            FrameStatus::Complete(n) => {
                proof {
                    lemma_frame_len_bounded(self@, n as int);
                }
                let frame = slice_subrange(self.data.as_slice(), 0, n);
                proof {
                    assert(frame@ =~= self@.take(n as int));
                }
                match decode_text(frame) {
                    Some(s) => Ok(s),
                    None => Err(ClientError::Decode),
                }
            },
            FrameStatus::Incomplete => Err(ClientError::Truncated),
            FrameStatus::Invalid => Err(ClientError::Malformed),
        }
    }
}

} // verus!
