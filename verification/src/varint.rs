//! The variable-length integers of the wire format.

use vstd::prelude::*;

use crate::bytes_le::{
    law_le_read_back, law_places, le, le_range, le_value, lemma_le_len, lemma_le_ranges,
};

verus! {

/// `v` in as few bytes as its size allows: itself below 251, and otherwise a marker byte and then
/// two, four or eight bytes.
pub open spec fn varint(v: int) -> Seq<u8> {
    if v < 251 {
        seq![v as u8]
    } else if v < 0x1_0000 {
        seq![251u8] + le(v, 2)
    } else if v < 0x1_0000_0000 {
        seq![252u8] + le(v, 4)
    } else {
        seq![253u8] + le(v, 8)
    }
}

/// How many bytes follow a marker byte, or 0 for a byte that is no marker.
pub open spec fn marked_width(marker: u8) -> nat {
    if marker == 251 {
        2
    } else if marker == 252 {
        4
    } else if marker == 253 {
        8
    } else {
        0
    }
}

/// The integer at the front of `s`, of a type of `width` bytes, and how many bytes it takes up. A
/// marker for more bytes than the type has gives none; one for more bytes than the value needs
/// is read all the same.
pub open spec fn read_varint(s: Seq<u8>, width: nat) -> Option<(int, int)> {
    if s.len() == 0 {
        None
    } else if s[0] < 251 {
        Some((s[0] as int, 1))
    } else {
        let n = marked_width(s[0]);
        if n == 0 || n > width || s.len() < 1 + n {
            None
        } else {
            Some((le_value(s.subrange(1, 1 + n as int)), 1 + n as int))
        }
    }
}

pub proof fn lemma_varint_len(v: int)
    ensures
        1 <= varint(v).len() <= 9,
{
    lemma_le_len(v, 2);
    lemma_le_len(v, 4);
    lemma_le_len(v, 8);
}

/// An integer that fits its type is read back from the front of what was written, whatever
/// follows it.
pub proof fn law_varint_read_back(v: int, width: nat, rest: Seq<u8>)
    requires
        width == 2 || width == 4 || width == 8,
        0 <= v < le_range(width),
    ensures
        read_varint(varint(v) + rest, width) == Some((v, varint(v).len() as int)),
{
    lemma_le_ranges();
    let s = varint(v) + rest;
    if v >= 251 {
        let n = marked_width(s[0]);
        law_le_read_back(v, n);
        assert(s.subrange(1, 1 + n as int) =~= le(v, n));
    }
}

/// Whether `code`, as a whole, spells `v` in a type of `width` bytes: in one byte up to 250, or
/// behind a marker in two, four or eight bytes, of which the type must have as many.
pub open spec fn spells(code: Seq<u8>, v: int, width: nat) -> bool {
    ||| code.len() == 1 && code[0] <= 250 && v == code[0]
    ||| code.len() == 3 && width >= 2 && code[0] == 251 && v == code[1] + 0x100 * code[2]
    ||| code.len() == 5 && width >= 4 && code[0] == 252 && v == code[1] + 0x100 * code[2]
        + 0x1_0000 * code[3] + 0x100_0000 * code[4]
    ||| code.len() == 9 && width >= 8 && code[0] == 253 && v == code[1] + 0x100 * code[2]
        + 0x1_0000 * code[3] + 0x100_0000 * code[4] + 0x1_0000_0000 * code[5] + 0x100_0000_0000
        * code[6] + 0x1_0000_0000_0000 * code[7] + 0x100_0000_0000_0000 * code[8]
}

/// An integer is read from the front of `s` exactly where the front of `s` spells it.
pub proof fn law_integer_is_read_where_it_is_spelt(s: Seq<u8>, width: nat, v: int, n: int)
    ensures
        read_varint(s, width) == Some((v, n)) <==> 1 <= n <= s.len() && spells(
            s.take(n),
            v,
            width,
        ),
{
    if s.len() > 0 {
        let w = marked_width(s[0]);
        if s.len() >= 1 + w {
            law_places(s.subrange(1, 1 + w as int));
        }
    }
}

/// An integer is written as a code that spells it, and no code that spells it is shorter.
pub proof fn law_integer_is_written_as_its_shortest_code(v: int, code: Seq<u8>)
    requires
        0 <= v < 0x1_0000_0000_0000_0000,
    ensures
        spells(varint(v), v, 8),
        spells(code, v, 8) ==> varint(v).len() <= code.len(),
{
    lemma_le_ranges();
    law_varint_read_back(v, 8, Seq::empty());
    assert(varint(v) + Seq::<u8>::empty() =~= varint(v));
    law_integer_is_read_where_it_is_spelt(varint(v), 8, v, varint(v).len() as int);
    assert(varint(v).take(varint(v).len() as int) =~= varint(v));
    lemma_le_len(v, 2);
    lemma_le_len(v, 4);
    lemma_le_len(v, 8);
}

} // verus!
