use vstd::prelude::*;
use vstd::string::StringExecFns;
use vstd::utf8::{is_ascii_chars, is_ascii_chars_encode_utf8};

verus! {

use crate::command::{bulk_chunk, byte_len, chunks, dec_chars, upper_of, wire_command, Command};
use crate::protocol::crlf_chars;

/// The verb of the GET operation.
pub open spec fn get_verb() -> Seq<char> {
    seq!['G', 'E', 'T']
}

/// The verb of the SET operation.
pub open spec fn set_verb() -> Seq<char> {
    seq!['S', 'E', 'T']
}

/// Fetches the value stored under a key.
pub struct GetCommand {
    key: String,
}

impl GetCommand {
    /// The key this command asks for.
    pub closed spec fn key_spec(&self) -> Seq<char> {
        self.key@
    }

    pub fn new(key: String) -> (r: Self)
        ensures
            r.key_spec() == key@,
    {
        GetCommand { key }
    }
}

impl Command for GetCommand {
    open spec fn parts_spec(&self) -> Seq<Seq<char>> {
        seq![get_verb(), self.key_spec()]
    }

    proof fn parts_nonempty(&self) {
    }

    fn get_parts(&self) -> (r: Vec<String>) {
        let mut v: Vec<String> = Vec::new();
        v.push(String::from_str("GET"));
        v.push(self.key.clone());
        proof {
            reveal_strlit("GET");
            assert(v.deep_view()[0] =~= get_verb());
            assert(v.deep_view() =~~= self.parts_spec());
        }
        v
    }
}

/// Stores a value under a key.
pub struct SetCommand {
    key: String,
    value: String,
}

impl SetCommand {
    /// The key this command stores under.
    pub closed spec fn key_spec(&self) -> Seq<char> {
        self.key@
    }

    /// The value this command stores.
    pub closed spec fn value_spec(&self) -> Seq<char> {
        self.value@
    }

    pub fn new(key: String, value: String) -> (r: Self)
        ensures
            r.key_spec() == key@,
            r.value_spec() == value@,
    {
        SetCommand { key, value }
    }
}

impl Command for SetCommand {
    open spec fn parts_spec(&self) -> Seq<Seq<char>> {
        seq![set_verb(), self.key_spec(), self.value_spec()]
    }

    proof fn parts_nonempty(&self) {
    }

    fn get_parts(&self) -> (r: Vec<String>) {
        let mut v: Vec<String> = Vec::new();
        v.push(String::from_str("SET"));
        v.push(self.key.clone());
        v.push(self.value.clone());
        proof {
            reveal_strlit("SET");
            assert(v.deep_view()[0] =~= set_verb());
            assert(v.deep_view() =~~= self.parts_spec());
        }
        v
    }
}

proof fn lemma_verb_byte_len(v: Seq<char>)
    requires
        is_ascii_chars(v),
    ensures
        byte_len(v) == v.len(),
{
    is_ascii_chars_encode_utf8(v);
}

/// Law: for every key, a GET command's wire form is the two-element array
/// header `*2`, then the uppercased verb length-prefixed by its raw byte
/// length 3, then the uppercased key length-prefixed by the byte length of
/// its raw (pre-uppercasing) text.
pub proof fn lemma_get_wire_format(cmd: GetCommand)
    ensures
        wire_command(cmd.parts_spec()) == seq!['*', '2'] + crlf_chars() + seq!['$', '3']
            + crlf_chars() + upper_of(get_verb()) + crlf_chars() + seq!['$'] + dec_chars(
            byte_len(cmd.key_spec()),
        ) + crlf_chars() + upper_of(cmd.key_spec()) + crlf_chars(),
{
    let parts = cmd.parts_spec();
    assert(is_ascii_chars(get_verb()));
    lemma_verb_byte_len(get_verb());
    assert(dec_chars(2) =~= seq!['2']);
    assert(dec_chars(3) =~= seq!['3']);
    assert(chunks(Seq::<Seq<char>>::empty()) =~= Seq::<char>::empty());
    assert(chunks(seq![get_verb()]) =~= bulk_chunk(get_verb())) by {
        assert(seq![get_verb()].drop_last() =~= Seq::<Seq<char>>::empty());
        assert(seq![get_verb()].last() == get_verb());
    }
    assert(chunks(parts) =~= bulk_chunk(get_verb()) + bulk_chunk(cmd.key_spec())) by {
        assert(parts.drop_last() =~= seq![get_verb()]);
        assert(parts.last() == cmd.key_spec());
    }
    assert(wire_command(parts) =~= seq!['*', '2'] + crlf_chars() + seq!['$', '3'] + crlf_chars()
        + upper_of(get_verb()) + crlf_chars() + seq!['$'] + dec_chars(byte_len(cmd.key_spec()))
        + crlf_chars() + upper_of(cmd.key_spec()) + crlf_chars());
}

/// Law: for every non-empty key and value, a SET command's wire form is the
/// three-element array header `*3`, then the uppercased verb length-prefixed
/// by its raw byte length 3, then the uppercased key and the uppercased
/// value, each length-prefixed by the byte length of its raw
/// (pre-uppercasing) text.
pub proof fn lemma_set_wire_format(cmd: SetCommand)
    requires
        cmd.key_spec().len() > 0,
        cmd.value_spec().len() > 0,
    ensures
        wire_command(cmd.parts_spec()) == seq!['*', '3'] + crlf_chars() + seq!['$', '3']
            + crlf_chars() + upper_of(set_verb()) + crlf_chars() + seq!['$'] + dec_chars(
            byte_len(cmd.key_spec()),
        ) + crlf_chars() + upper_of(cmd.key_spec()) + crlf_chars() + seq!['$'] + dec_chars(
            byte_len(cmd.value_spec()),
        ) + crlf_chars() + upper_of(cmd.value_spec()) + crlf_chars(),
{
    let parts = cmd.parts_spec();
    assert(is_ascii_chars(set_verb()));
    lemma_verb_byte_len(set_verb());
    assert(dec_chars(3) =~= seq!['3']);
    assert(chunks(Seq::<Seq<char>>::empty()) =~= Seq::<char>::empty());
    assert(chunks(seq![set_verb()]) =~= bulk_chunk(set_verb())) by {
        assert(seq![set_verb()].drop_last() =~= Seq::<Seq<char>>::empty());
        assert(seq![set_verb()].last() == set_verb());
    }
    assert(chunks(seq![set_verb(), cmd.key_spec()]) =~= bulk_chunk(set_verb()) + bulk_chunk(
        cmd.key_spec(),
    )) by {
        assert(seq![set_verb(), cmd.key_spec()].drop_last() =~= seq![set_verb()]);
        assert(seq![set_verb(), cmd.key_spec()].last() == cmd.key_spec());
    }
    assert(chunks(parts) =~= bulk_chunk(set_verb()) + bulk_chunk(cmd.key_spec()) + bulk_chunk(
        cmd.value_spec(),
    )) by {
        assert(parts.drop_last() =~= seq![set_verb(), cmd.key_spec()]);
        assert(parts.last() == cmd.value_spec());
    }
    assert(wire_command(parts) =~= seq!['*', '3'] + crlf_chars() + seq!['$', '3'] + crlf_chars()
        + upper_of(set_verb()) + crlf_chars() + seq!['$'] + dec_chars(byte_len(cmd.key_spec()))
        + crlf_chars() + upper_of(cmd.key_spec()) + crlf_chars() + seq!['$'] + dec_chars(
        byte_len(cmd.value_spec()),
    ) + crlf_chars() + upper_of(cmd.value_spec()) + crlf_chars());
}

} // verus!
