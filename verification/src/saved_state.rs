//! The texts that a plugin saves with the session, as bytes: their number, and each text behind
//! the length of its field.

use crate::text::texts;
use truce_core::custom_state::{StateCursor, StateField};
use vstd::bytes::{
    lemma_auto_spec_u32_to_from_le_bytes, spec_u32_from_le_bytes, spec_u32_to_le_bytes,
    u32_from_le_bytes, u32_to_le_bytes,
};
use vstd::prelude::*;
use vstd::slice::slice_subrange;
use vstd::utf8::{
    decode_utf8, encode_utf8, encode_utf8_decode_utf8, encode_utf8_valid_utf8, valid_utf8,
};

verus! {

/// How many bytes a text may take: with its own length it still fits the length of its field.
pub const MAX_TEXT_BYTES: u32 = 0xffff_fffb;

/// Whether a text is short enough to be saved.
pub open spec fn fits(s: Seq<char>) -> bool {
    encode_utf8(s).len() <= MAX_TEXT_BYTES
}

/// Whether a text is short enough to be saved.
pub fn text_fits(s: &String) -> (r: bool)
    ensures
        r == fits(s@),
{
    let bytes: &[u8] = s.as_str().as_bytes();
    bytes.len() <= MAX_TEXT_BYTES as usize
}

/// A text behind its length.
pub open spec fn text_bytes(s: Seq<char>) -> Seq<u8> {
    spec_u32_to_le_bytes(encode_utf8(s).len() as u32) + encode_utf8(s)
}

/// The length that bytes begin with.
pub open spec fn length_in(data: Seq<u8>) -> nat {
    spec_u32_from_le_bytes(data.take(4)) as nat
}

/// How many bytes are read where a text is expected: none where there is no length, and the
/// length alone where it is too long.
pub open spec fn text_end(data: Seq<u8>) -> nat {
    if data.len() < 4 {
        0
    } else if 4 + length_in(data) > data.len() {
        4
    } else {
        4 + length_in(data)
    }
}

/// The text that bytes begin with, where there is one.
pub open spec fn text_in(data: Seq<u8>) -> Option<Seq<char>> {
    if data.len() < 4 || 4 + length_in(data) > data.len() {
        None
    } else {
        let bytes = data.subrange(4, 4 + length_in(data) as int);
        if valid_utf8(bytes) {
            Some(decode_utf8(bytes))
        } else {
            None
        }
    }
}

/// Writes a text by `StateField::write_field` of `String`: the number of its bytes in UTF-8 as
/// four bytes, the lowest first, and then these bytes.
#[verifier::external_body]
fn write_text(s: &String) -> (r: Vec<u8>)
    requires
        encode_utf8(s@).len() <= u32::MAX,
    ensures
        r@ == text_bytes(s@),
{
    let mut buf = Vec::new();
    s.write_field(&mut buf);
    buf
}

/// Reads a text by `StateField::read_field` of `String`, with a `StateCursor` at the start of
/// the bytes: the text, where there is a length, as many bytes behind it, and these are UTF-8;
/// and how many bytes `StateCursor::remaining` tells to be left.
#[verifier::external_body]
fn read_text(data: &[u8]) -> (r: (Option<String>, usize))
    requires
        data@.len() >= 4 ==> 4 + length_in(data@) <= usize::MAX,
    ensures
        match r.0 {
            Some(s) => text_in(data@) == Some(s@),
            None => text_in(data@) is None,
        },
        r.1 == data@.len() - text_end(data@),
{
    let mut cursor = StateCursor::new(data);
    let text = String::read_field(&mut cursor);
    (text, cursor.remaining())
}

/// A field: a text behind the number of its bytes.
pub open spec fn field_bytes(s: Seq<char>) -> Seq<u8> {
    spec_u32_to_le_bytes(text_bytes(s).len() as u32) + text_bytes(s)
}

/// The first `n` fields, one behind the other.
pub open spec fn fields_bytes(fields: Seq<Seq<char>>, n: nat) -> Seq<u8>
    decreases n,
{
    if n == 0 {
        Seq::empty()
    } else {
        fields_bytes(fields, (n - 1) as nat) + field_bytes(fields[n - 1])
    }
}

/// The texts as they are saved.
pub open spec fn state_bytes(fields: Seq<Seq<char>>) -> Seq<u8> {
    spec_u32_to_le_bytes(fields.len() as u32) + fields_bytes(fields, fields.len())
}

/// The bytes from a position on.
pub open spec fn from_on(data: Seq<u8>, pos: nat) -> Seq<u8> {
    data.subrange(pos as int, data.len() as int)
}

/// The text of the field at a position, where there is one.
pub open spec fn field_text(data: Seq<u8>, pos: nat) -> Option<Seq<char>> {
    if pos + 4 > data.len() {
        None
    } else {
        text_in(from_on(data, pos + 4))
    }
}

/// Where the next field begins: behind the length that the field names, where so much is there.
pub open spec fn next_field(data: Seq<u8>, pos: nat) -> nat {
    if pos + 4 > data.len() {
        pos
    } else {
        let field_len = length_in(from_on(data, pos));
        let read = text_end(from_on(data, pos + 4));
        if read < field_len && pos + 4 + field_len <= data.len() {
            pos + 4 + field_len
        } else {
            pos + 4 + read
        }
    }
}

/// Where the field of the given number begins.
pub open spec fn field_start(data: Seq<u8>, i: nat) -> nat
    decreases i,
{
    if i == 0 {
        4
    } else {
        next_field(data, field_start(data, (i - 1) as nat))
    }
}

/// The text of the field of the given number: empty where it is not there or not a text.
pub open spec fn saved_text(data: Seq<u8>, i: nat) -> Seq<char> {
    if i < length_in(data) {
        match field_text(data, field_start(data, i)) {
            Some(s) => s,
            None => Seq::empty(),
        }
    } else {
        Seq::empty()
    }
}

/// The first `n` texts of a saved state; `None` where it does not even tell how many there are.
pub open spec fn saved_texts(data: Seq<u8>, n: nat) -> Option<Seq<Seq<char>>> {
    if data.len() < 4 {
        None
    } else {
        Some(Seq::new(n, |i: int| saved_text(data, i as nat)))
    }
}

proof fn lemma_starts_inside(data: Seq<u8>, i: nat)
    requires
        data.len() >= 4,
    ensures
        4 <= field_start(data, i) <= data.len(),
    decreases i,
{
    if i > 0 {
        lemma_starts_inside(data, (i - 1) as nat);
    }
}

/// Appends bytes.
fn append_bytes(to: &mut Vec<u8>, more: &Vec<u8>)
    ensures
        final(to)@ == old(to)@ + more@,
{
    to.extend_from_slice(more.as_slice());
}

/// Writes texts as they are saved.
pub fn write_state(fields: &Vec<String>) -> (r: Vec<u8>)
    requires
        fields@.len() <= u32::MAX,
        forall|i: int| 0 <= i < fields@.len() ==> fits(#[trigger] fields@[i]@),
    ensures
        r@ == state_bytes(texts(fields@)),
{
    let ghost all = texts(fields@);
    let mut r: Vec<u8> = u32_to_le_bytes(fields.len() as u32);
    let ghost count = r@;
    proof {
        assert(r@ =~= count + fields_bytes(all, 0));
    }
    for i in 0..fields.len()
        invariant
            all == texts(fields@),
            forall|i: int| 0 <= i < fields@.len() ==> fits(#[trigger] fields@[i]@),
            r@ == count + fields_bytes(all, i as nat),
    {
        let text: Vec<u8> = write_text(&fields[i]);
        proof {
            lemma_auto_spec_u32_to_from_le_bytes();
            assert(text@.len() == 4 + encode_utf8(fields@[i as int]@).len());
            assert(all[i as int] == fields@[i as int]@);
        }
        let ghost before = r@;
        let length: Vec<u8> = u32_to_le_bytes(text.len() as u32);
        append_bytes(&mut r, &length);
        append_bytes(&mut r, &text);
        proof {
            assert(length@ + text@ == field_bytes(all[i as int]));
            assert(r@ =~= before + field_bytes(all[i as int]));
            assert(r@ =~= count + fields_bytes(all, i as nat + 1));
        }
    }
    r
}

/// Reads the field at a position: its text, and where the next one begins.
fn read_field(data: &[u8], pos: usize) -> (r: (Option<String>, usize))
    requires
        4 <= pos <= data@.len(),
    ensures
        match r.0 {
            Some(s) => field_text(data@, pos as nat) == Some(s@),
            None => field_text(data@, pos as nat) is None,
        },
        r.1 == next_field(data@, pos as nat),
{
    let len: usize = data.len();
    if len - pos < 4 {
        return (None, pos);
    }
    let head: &[u8] = slice_subrange(data, pos, pos + 4);
    let field_len: u32 = u32_from_le_bytes(head);
    let rest: &[u8] = slice_subrange(data, pos + 4, len);
    proof {
        assert(from_on(data@, pos as nat).take(4) =~= head@);
        assert(rest@ == from_on(data@, pos as nat + 4));
    }
    let (text, left): (Option<String>, usize) = if rest.len() < 4 {
        (None, rest.len())
    } else {
        let own: &[u8] = slice_subrange(rest, 0, 4);
        proof {
            assert(own@ =~= rest@.take(4));
        }
        let n: u32 = u32_from_le_bytes(own);
        if n as usize > usize::MAX - 4 {
            (None, rest.len() - 4)
        } else {
            read_text(rest)
        }
    };
    let read: usize = rest.len() - left;
    if read < field_len as usize && field_len as usize <= len - (pos + 4) {
        (text, pos + 4 + field_len as usize)
    } else {
        (text, pos + 4 + read)
    }
}

/// Reads the first `n` texts of a saved state.
pub fn read_state(data: &[u8], n: usize) -> (r: Option<Vec<String>>)
    ensures
        match r {
            Some(v) => saved_texts(data@, n as nat) == Some(texts(v@)),
            None => saved_texts(data@, n as nat) is None,
        },
{
    if data.len() < 4 {
        return None;
    }
    let head: &[u8] = slice_subrange(data, 0, 4);
    proof {
        assert(head@ =~= data@.take(4));
    }
    let count: u32 = u32_from_le_bytes(head);
    let mut r: Vec<String> = Vec::new();
    let mut pos: usize = 4;
    let ghost all = Seq::new(n as nat, |i: int| saved_text(data@, i as nat));
    proof {
        assert(texts(r@) =~= all.take(0));
    }
    for i in 0..n
        invariant
            data@.len() >= 4,
            count == length_in(data@),
            all == Seq::new(n as nat, |i: int| saved_text(data@, i as nat)),
            texts(r@) == all.take(i as int),
            i <= count ==> pos == field_start(data@, i as nat),
            i < count ==> 4 <= pos <= data@.len(),
    {
        let ghost before = r@;
        let mut text: String = String::new();
        if i < count as usize {
            let (found, next): (Option<String>, usize) = read_field(data, pos);
            if let Some(s) = found {
                text = s;
            }
            pos = next;
            proof {
                lemma_starts_inside(data@, i as nat + 1);
            }
        }
        r.push(text);
        proof {
            assert(text@ =~= all[i as int]);
            assert(texts(r@) =~= texts(before).push(text@));
            assert(all.take(i as int + 1) =~= all.take(i as int).push(all[i as int]));
        }
    }
    proof {
        assert(all.take(n as int) =~= all);
    }
    Some(r)
}

proof fn lemma_fields_in_front(fields: Seq<Seq<char>>, i: nat, n: nat)
    requires
        i <= n,
    ensures
        fields_bytes(fields, i).len() <= fields_bytes(fields, n).len(),
        fields_bytes(fields, n).take(fields_bytes(fields, i).len() as int) == fields_bytes(
            fields,
            i,
        ),
    decreases n,
{
    let k = fields_bytes(fields, i).len() as int;
    if i < n {
        lemma_fields_in_front(fields, i, (n - 1) as nat);
        let shorter = fields_bytes(fields, (n - 1) as nat);
        assert(fields_bytes(fields, n).take(k) =~= shorter.take(k));
    } else {
        assert(fields_bytes(fields, n).take(k) =~= fields_bytes(fields, n));
    }
}

/// The field of the given number stands behind those before it.
proof fn lemma_field_stands(fields: Seq<Seq<char>>, i: nat)
    requires
        fields.len() <= u32::MAX,
        i < fields.len(),
    ensures
        ({
            let start = 4 + fields_bytes(fields, i).len();
            let end = start + field_bytes(fields[i as int]).len();
            &&& end <= state_bytes(fields).len()
            &&& end == 4 + fields_bytes(fields, i + 1).len()
            &&& state_bytes(fields).subrange(start as int, end as int) == field_bytes(
                fields[i as int],
            )
        }),
{
    lemma_auto_spec_u32_to_from_le_bytes();
    lemma_fields_in_front(fields, i + 1, fields.len());
    let data = state_bytes(fields);
    let all = fields_bytes(fields, fields.len());
    let upto = fields_bytes(fields, i + 1);
    let start = 4 + fields_bytes(fields, i).len() as int;
    let end = start + field_bytes(fields[i as int]).len();
    assert(upto == fields_bytes(fields, i) + field_bytes(fields[i as int]));
    assert(data.subrange(4, end) =~= all.take(upto.len() as int));
    assert(data.subrange(start, end) =~= data.subrange(4, end).skip(
        fields_bytes(fields, i).len() as int,
    ));
    assert(upto.skip(fields_bytes(fields, i).len() as int) =~= field_bytes(fields[i as int]));
}

/// A field that stands at a position is read there.
proof fn lemma_field_is_read(data: Seq<u8>, start: nat, s: Seq<char>)
    requires
        fits(s),
        start + field_bytes(s).len() <= data.len(),
        data.subrange(start as int, start + field_bytes(s).len() as int) == field_bytes(s),
    ensures
        field_text(data, start) == Some(s),
        next_field(data, start) == start + field_bytes(s).len(),
{
    lemma_auto_spec_u32_to_from_le_bytes();
    let end = start + field_bytes(s).len();
    let field = data.subrange(start as int, end as int);
    let rest = from_on(data, start + 4);
    let own = spec_u32_to_le_bytes(encode_utf8(s).len() as u32);
    let outer = spec_u32_to_le_bytes(text_bytes(s).len() as u32);
    assert(from_on(data, start).take(4) =~= field.take(4));
    assert(field_bytes(s).take(4) =~= outer);
    assert(rest.take(4) =~= field.subrange(4, 8));
    assert(field_bytes(s).subrange(4, 8) =~= own);
    assert(length_in(rest) == encode_utf8(s).len());
    let bytes = rest.subrange(4, 4 + length_in(rest) as int);
    assert(bytes =~= field.subrange(8, field.len() as int));
    assert(field_bytes(s).subrange(8, field_bytes(s).len() as int) =~= encode_utf8(s));
    encode_utf8_valid_utf8(s);
    encode_utf8_decode_utf8(s);
}

proof fn lemma_start_of_field(fields: Seq<Seq<char>>, i: nat)
    requires
        fields.len() <= u32::MAX,
        forall|k: int| 0 <= k < fields.len() ==> fits(#[trigger] fields[k]),
        i <= fields.len(),
    ensures
        field_start(state_bytes(fields), i) == 4 + fields_bytes(fields, i).len(),
    decreases i,
{
    if i > 0 {
        let k = (i - 1) as nat;
        lemma_start_of_field(fields, k);
        lemma_field_stands(fields, k);
        assert(fits(fields[k as int]));
        lemma_field_is_read(
            state_bytes(fields),
            4 + fields_bytes(fields, k).len(),
            fields[k as int],
        );
    }
}

/// Texts that were saved come back as they were when they are read.
pub proof fn law_saved_texts_come_back(fields: Seq<Seq<char>>)
    requires
        fields.len() <= u32::MAX,
        forall|k: int| 0 <= k < fields.len() ==> fits(#[trigger] fields[k]),
    ensures
        saved_texts(state_bytes(fields), fields.len()) == Some(fields),
{
    lemma_auto_spec_u32_to_from_le_bytes();
    let data = state_bytes(fields);
    assert(data.take(4) =~= spec_u32_to_le_bytes(fields.len() as u32));
    let read = Seq::new(fields.len(), |i: int| saved_text(data, i as nat));
    assert forall|i: int| 0 <= i < fields.len() implies #[trigger] read[i] == fields[i] by {
        lemma_start_of_field(fields, i as nat);
        lemma_field_stands(fields, i as nat);
        assert(fits(fields[i]));
        lemma_field_is_read(data, 4 + fields_bytes(fields, i as nat).len(), fields[i]);
    }
    assert(read =~= fields);
}

/// A state of a version with more fields gives the fields that both have, and one of a version
/// with fewer leaves the rest empty.
pub proof fn law_other_versions_load(fields: Seq<Seq<char>>, n: nat)
    requires
        fields.len() <= u32::MAX,
        forall|k: int| 0 <= k < fields.len() ==> fits(#[trigger] fields[k]),
    ensures
        saved_texts(state_bytes(fields), n) == Some(
            Seq::new(
                n,
                |i: int|
                    if i < fields.len() {
                        fields[i]
                    } else {
                        Seq::empty()
                    },
            ),
        ),
{
    law_saved_texts_come_back(fields);
    lemma_auto_spec_u32_to_from_le_bytes();
    let data = state_bytes(fields);
    assert(data.take(4) =~= spec_u32_to_le_bytes(fields.len() as u32));
    let all = saved_texts(data, fields.len())->0;
    assert forall|i: int| 0 <= i < n implies #[trigger] saved_text(data, i as nat) == (if i
        < fields.len() {
        fields[i]
    } else {
        Seq::empty()
    }) by {
        if i < fields.len() {
            assert(all[i] == saved_text(data, i as nat));
        }
    }
    assert(saved_texts(data, n)->0 =~= Seq::new(
        n,
        |i: int|
            if i < fields.len() {
                fields[i]
            } else {
                Seq::empty()
            },
    ));
}

} // verus!
