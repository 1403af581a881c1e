use vstd::prelude::*;
use vstd::string::StringExecFns;
use vstd::utf8::encode_utf8;

verus! {

use crate::protocol::crlf_chars;

/// What `str::to_uppercase` returns for a given text. The mapping is a
/// function of the input's characters alone.
pub uninterp spec fn upper_of(s: Seq<char>) -> Seq<char>;

/// Relies on `str::to_uppercase`: the Unicode uppercase mapping of the input,
/// determined by the input's characters alone, independent of any locale.
#[verifier::external_body]
fn to_upper(s: &str) -> (r: String)
    ensures
        r@ == upper_of(s@),
{
    s.to_uppercase()
}

/// The byte length of a text under UTF-8, as `str::len` reports it.
pub open spec fn byte_len(s: Seq<char>) -> nat {
    encode_utf8(s).len()
}

/// The character of a single decimal digit.
pub open spec fn digit_char(d: nat) -> char {
    if d == 0 {
        '0'
    } else if d == 1 {
        '1'
    } else if d == 2 {
        '2'
    } else if d == 3 {
        '3'
    } else if d == 4 {
        '4'
    } else if d == 5 {
        '5'
    } else if d == 6 {
        '6'
    } else if d == 7 {
        '7'
    } else if d == 8 {
        '8'
    } else {
        '9'
    }
}

/// The decimal digit characters of `n`, most significant first.
pub open spec fn dec_chars(n: nat) -> Seq<char>
    decreases n,
{
    if n < 10 {
        seq![digit_char(n)]
    } else {
        dec_chars(n / 10).push(digit_char(n % 10))
    }
}

/// One encoded argument of the wire array: `$`, the byte length of the raw
/// argument, the line terminator, the uppercased argument, the terminator.
pub open spec fn bulk_chunk(part: Seq<char>) -> Seq<char> {
    seq!['$'] + dec_chars(byte_len(part)) + crlf_chars() + upper_of(part) + crlf_chars()
}

/// The encoded arguments of the wire array, concatenated in order.
pub open spec fn chunks(parts: Seq<Seq<char>>) -> Seq<char>
    decreases parts.len(),
{
    if parts.len() == 0 {
        Seq::empty()
    } else {
        chunks(parts.drop_last()) + bulk_chunk(parts.last())
    }
}

/// The full wire form of a command: the array header `*<count>` and the
/// line terminator, followed by one encoded bulk string per argument.
pub open spec fn wire_command(parts: Seq<Seq<char>>) -> Seq<char> {
    seq!['*'] + dec_chars(parts.len()) + crlf_chars() + chunks(parts)
}

fn digit_string(d: usize) -> (r: String)
    requires
        d < 10,
    ensures
        r@ == seq![digit_char(d as nat)],
{
    let s: &str = if d == 0 {
        "0"
    } else if d == 1 {
        "1"
    } else if d == 2 {
        "2"
    } else if d == 3 {
        "3"
    } else if d == 4 {
        "4"
    } else if d == 5 {
        "5"
    } else if d == 6 {
        "6"
    } else if d == 7 {
        "7"
    } else if d == 8 {
        "8"
    } else {
        "9"
    };
    proof {
        reveal_strlit("0");
        reveal_strlit("1");
        reveal_strlit("2");
        reveal_strlit("3");
        reveal_strlit("4");
        reveal_strlit("5");
        reveal_strlit("6");
        reveal_strlit("7");
        reveal_strlit("8");
        reveal_strlit("9");
        assert(s@ =~= seq![digit_char(d as nat)]);
    }
    String::from_str(s)
}

fn dec_string(n: usize) -> (r: String)
    ensures
        r@ == dec_chars(n as nat),
    decreases n,
{
    if n < 10 {
        digit_string(n)
    } else {
        let mut s = dec_string(n / 10);
        let d = digit_string(n % 10);
        s.append(d.as_str());
        proof {
            assert(s@ =~= dec_chars(n as nat));
        }
        s
    }
}

/// The capability every concrete operation supplies: an ordered argument
/// list whose first element is the operation's verb.
pub trait Command {
    /// The ordered argument list, as a sequence of texts.
    spec fn parts_spec(&self) -> Seq<Seq<char>>;

    /// The argument list is never empty: its first element is the verb.
    proof fn parts_nonempty(&self)
        ensures
            self.parts_spec().len() >= 1,
    ;

    /// The ordered argument list as owned strings, the verb first.
    fn get_parts(&self) -> (r: Vec<String>)
        ensures
            r.deep_view() == self.parts_spec(),
    ;

    /// Encodes the argument list as a RESP array of bulk strings. Every
    /// argument, the verb included, is uppercased before it is written,
    /// while each length prefix counts the bytes of the raw argument.
    fn format_resp_command(&self) -> (r: String)
        ensures
            r@ == wire_command(self.parts_spec()),
    {
        let parts = self.get_parts();
        let mut out = String::from_str("*");
        let count = dec_string(parts.len());
        out.append(count.as_str());
        out.append("\r\n");
        proof {
            reveal_strlit("*");
            reveal_strlit("\r\n");
            assert(out@ =~= seq!['*'] + dec_chars(self.parts_spec().len()) + crlf_chars()
                + chunks(self.parts_spec().take(0)));
        }
        let n = parts.len();
        let mut idx: usize = 0;
        while idx < n
            invariant
                n == parts.len(),
                parts.deep_view() == self.parts_spec(),
                idx <= n,
                out@ == seq!['*'] + dec_chars(self.parts_spec().len()) + crlf_chars()
                    + chunks(self.parts_spec().take(idx as int)),
            decreases n - idx,
        {
            let part: &String = &parts[idx];
            out.append("$");
            let raw_bytes: &[u8] = part.as_str().as_bytes();
            proof {
                assert(raw_bytes@.len() == byte_len(part@));
            }
            let len_str = dec_string(raw_bytes.len());
            out.append(len_str.as_str());
            out.append("\r\n");
            let up = to_upper(part.as_str());
            out.append(up.as_str());
            out.append("\r\n");
            proof {
                reveal_strlit("$");
                reveal_strlit("\r\n");
                let ps = self.parts_spec();
                assert(ps[idx as int] == part@);
                assert(ps.take(idx + 1).drop_last() =~= ps.take(idx as int));
                assert(ps.take(idx + 1).last() == ps[idx as int]);
                assert(chunks(ps.take(idx + 1)) == chunks(ps.take(idx as int)) + bulk_chunk(
                    part@,
                ));
                assert(len_str@ == dec_chars(byte_len(part@)));
                assert(("$")@ =~= seq!['$']);
                assert(("\r\n")@ =~= crlf_chars());
                assert(out@ =~= seq!['*'] + dec_chars(ps.len()) + crlf_chars()
                    + chunks(ps.take(idx + 1)));
            }
            idx += 1;
        }
        proof {
            assert(self.parts_spec().take(n as int) =~= self.parts_spec());
        }
        out
    }
}

} // verus!
