//! Little-endian integers as byte sequences.

use vstd::prelude::*;

verus! {

/// The `n` low bytes of `v`, least significant byte first.
pub open spec fn le(v: int, n: nat) -> Seq<u8>
    decreases n,
{
    if n == 0 {
        seq![]
    } else {
        seq![(v % 256) as u8] + le(v / 256, (n - 1) as nat)
    }
}

/// The number that `s` spells, least significant byte first.
pub open spec fn le_value(s: Seq<u8>) -> int
    decreases s.len(),
{
    if s.len() == 0 {
        0
    } else {
        s[0] + 256 * le_value(s.drop_first())
    }
}

/// How many numbers `n` bytes can spell.
pub open spec fn le_range(n: nat) -> int
    decreases n,
{
    if n == 0 {
        1
    } else {
        256 * le_range((n - 1) as nat)
    }
}

pub proof fn lemma_le_ranges()
    ensures
        le_range(2) == 0x1_0000,
        le_range(4) == 0x1_0000_0000,
        le_range(8) == 0x1_0000_0000_0000_0000,
{
    reveal_with_fuel(le_range, 9);
}

/// A number of the range is read back from its bytes.
pub proof fn law_le_read_back(v: int, n: nat)
    requires
        0 <= v < le_range(n),
    ensures
        le(v, n).len() == n,
        le_value(le(v, n)) == v,
    decreases n,
{
    if n > 0 {
        law_le_read_back(v / 256, (n - 1) as nat);
        assert(le(v, n).drop_first() =~= le(v / 256, (n - 1) as nat));
    }
}

pub proof fn lemma_le_len(v: int, n: nat)
    ensures
        le(v, n).len() == n,
    decreases n,
{
    if n > 0 {
        lemma_le_len(v / 256, (n - 1) as nat);
    }
}

/// Bytes spell a number of their range, and are written back from that number.
pub proof fn law_le_written_back(s: Seq<u8>)
    ensures
        0 <= le_value(s) < le_range(s.len()),
        le(le_value(s), s.len()) == s,
    decreases s.len(),
{
    if s.len() > 0 {
        let tail = s.drop_first();
        law_le_written_back(tail);
        assert(le_value(s) % 256 == s[0] && le_value(s) / 256 == le_value(tail));
        assert(le(le_value(s), s.len()) =~= s);
    } else {
        assert(le(le_value(s), s.len()) =~= s);
    }
}

/// The four bytes of `v`, least significant first.
pub fn u32_to_le(v: u32) -> (bytes: Vec<u8>)
    ensures
        bytes@ == le(v as int, 4),
{
    let mut bytes: Vec<u8> = Vec::with_capacity(4);
    bytes.push((v % 256) as u8);
    bytes.push(((v / 256) % 256) as u8);
    bytes.push(((v / 0x1_0000) % 256) as u8);
    bytes.push(((v / 0x100_0000) % 256) as u8);
    proof {
        reveal_with_fuel(le, 5);
        assert(bytes@ =~= le(v as int, 4));
    }
    bytes
}

/// The number that the four bytes of `s` at `at` spell, least significant first.
pub fn u32_from_le(s: &[u8], at: usize) -> (v: u32)
    requires
        at + 4 <= s@.len(),
    ensures
        v == le_value(s@.subrange(at as int, at + 4)),
{
    proof {
        reveal_with_fuel(le_value, 5);
        let w = s@.subrange(at as int, at + 4);
        assert(w.drop_first().drop_first().drop_first().drop_first().len() == 0);
        assert(w[0] == s@[at as int]);
        assert(w.drop_first()[0] == s@[at + 1]);
        assert(w.drop_first().drop_first()[0] == s@[at + 2]);
        assert(w.drop_first().drop_first().drop_first()[0] == s@[at + 3]);
    }
    s[at] as u32 + 0x100 * (s[at + 1] as u32) + 0x1_0000 * (s[at + 2] as u32) + 0x100_0000 * (s[at
        + 3] as u32)
}

/// The first byte counts ones, and what follows it counts 256 times as much.
pub proof fn law_least_significant_first(b: u8, s: Seq<u8>)
    ensures
        le_value(Seq::empty()) == 0,
        le_value(seq![b] + s) == b + 256 * le_value(s),
{
    assert((seq![b] + s).drop_first() =~= s);
}

/// What two, four and eight bytes spell.
pub proof fn law_places(s: Seq<u8>)
    ensures
        s.len() == 2 ==> le_value(s) == s[0] + 0x100 * s[1],
        s.len() == 4 ==> le_value(s) == s[0] + 0x100 * s[1] + 0x1_0000 * s[2] + 0x100_0000 * s[3],
        s.len() == 8 ==> le_value(s) == s[0] + 0x100 * s[1] + 0x1_0000 * s[2] + 0x100_0000 * s[3]
            + 0x1_0000_0000 * s[4] + 0x100_0000_0000 * s[5] + 0x1_0000_0000_0000 * s[6]
            + 0x100_0000_0000_0000 * s[7],
{
    if s.len() == 2 {
        lemma_two_places(s);
    } else if s.len() == 4 {
        lemma_four_places(s);
    } else if s.len() == 8 {
        lemma_four_places(s.skip(4));
        lemma_first_place(s);
        lemma_first_place(s.skip(1));
        lemma_first_place(s.skip(2));
        lemma_first_place(s.skip(3));
        assert(s.skip(0) =~= s);
        assert(s.skip(1).skip(1) =~= s.skip(2));
        assert(s.skip(2).skip(1) =~= s.skip(3));
        assert(s.skip(3).skip(1) =~= s.skip(4));
    }
}

proof fn lemma_first_place(s: Seq<u8>)
    requires
        s.len() > 0,
    ensures
        le_value(s) == s[0] + 256 * le_value(s.skip(1)),
{
    assert(s.drop_first() =~= s.skip(1));
}

proof fn lemma_two_places(s: Seq<u8>)
    requires
        s.len() == 2,
    ensures
        le_value(s) == s[0] + 0x100 * s[1],
{
    lemma_first_place(s);
    lemma_first_place(s.skip(1));
    assert(s.skip(1).skip(1).len() == 0);
}

proof fn lemma_four_places(s: Seq<u8>)
    requires
        s.len() == 4,
    ensures
        le_value(s) == s[0] + 0x100 * s[1] + 0x1_0000 * s[2] + 0x100_0000 * s[3],
{
    lemma_first_place(s);
    lemma_first_place(s.skip(1));
    lemma_two_places(s.skip(2));
    assert(s.skip(1).skip(1) =~= s.skip(2));
}

} // verus!
