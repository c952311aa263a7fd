//! Conversion of gray pixel rows to the printer's one-bit bitmap rows.
use vstd::prelude::*;

verus! {

/// Samples at or above this level are light; below it they are printed.
pub const WHITE_THRESHOLD: u8 = 128;

/// The weight of the bit for the `i`-th sample of a group: `2^(7 - i)`
/// for the eight samples of a group, the first sample in the top bit.
pub open spec fn weight(i: nat) -> nat
    decreases i,
{
    if i == 0 {
        128
    } else {
        weight((i - 1) as nat) / 2
    }
}

/// The sum of the weights of the light samples among the first `k` of `s`.
pub open spec fn light_weight(s: Seq<u8>, k: int) -> int
    decreases k,
{
    if k <= 0 {
        0
    } else {
        light_weight(s, k - 1) + if s[k - 1] >= WHITE_THRESHOLD {
            weight((k - 1) as nat) as int
        } else {
            0
        }
    }
}

/// The output byte of a group of at most eight samples: a bit is set for
/// each light sample, and the byte is then inverted, so that a set bit
/// means "print". Bits beyond the end of a short group come out set.
pub open spec fn group_byte(grp: Seq<u8>) -> u8 {
    (255 - light_weight(grp, grp.len() as int)) as u8
}

/// The number of groups of eight in a row of `n` samples, the last group
/// possibly short.
pub open spec fn group_count(n: int) -> int {
    (n + 7) / 8
}

/// The `g`-th group of eight samples of `row`.
pub open spec fn group_of(row: Seq<u8>, g: int) -> Seq<u8> {
    row.subrange(8 * g, if 8 * g + 8 <= row.len() { 8 * g + 8 } else { row.len() as int })
}

/// The bitmap row for a row of gray samples: one byte per group.
pub open spec fn halftone(row: Seq<u8>) -> Seq<u8> {
    Seq::new(group_count(row.len() as int) as nat, |g: int| group_byte(group_of(row, g)))
}

proof fn lemma_weight(i: nat)
    requires
        i < 8,
    ensures
        weight(i) >= 1,
        weight(i + 1) == weight(i) / 2,
        weight(i) == 1 || weight(i) % 2 == 0,
        i == 7 ==> weight(i) == 1,
{
    reveal_with_fuel(weight, 9);
    assert(weight(0) == 128);
    assert(weight(1) == 64);
    assert(weight(2) == 32);
    assert(weight(3) == 16);
    assert(weight(4) == 8);
    assert(weight(5) == 4);
    assert(weight(6) == 2);
    assert(weight(7) == 1);
    assert(weight(8) == 0);
}

/// The byte for the samples `row[start..end]`.
fn pack_group(row: &[u8], start: usize, end: usize) -> (b: u8)
    requires
        start <= end <= row@.len(),
        end - start <= 8,
    ensures
        b == group_byte(row@.subrange(start as int, end as int)),
{
    let ghost grp = row@.subrange(start as int, end as int);
    let mut acc: u8 = 0;
    let mut bit: u8 = 128;
    let mut i: usize = 0;
    while i < end - start
        invariant
            start <= end <= row@.len(),
            end - start <= 8,
            grp == row@.subrange(start as int, end as int),
            i <= end - start,
            bit == weight(i as nat),
            acc == light_weight(grp, i as int),
            i < 8 ==> acc + 2 * bit <= 256,
            i == 8 ==> acc <= 255,
        decreases end - start - i,
    {
        proof {
            lemma_weight(i as nat);
        }
        if row[start + i] >= WHITE_THRESHOLD {
            acc = acc + bit;
        }
        bit = bit / 2;
        i = i + 1;
    }
    proof {
        if i < 8 {
            lemma_weight(i as nat);
        }
    }
    255 - acc
}

/// Converts a row of gray samples to bitmap bytes, eight samples to a byte.
pub fn halftone_row(row: &[u8]) -> (r: Vec<u8>)
    ensures
        r@ == halftone(row@),
{
    let n = row.len();
    let mut out: Vec<u8> = Vec::new();
    let mut start: usize = 0;
    while start < n
        invariant
            n == row@.len(),
            start == if 8 * out@.len() <= n { 8 * out@.len() as int } else { n as int },
            8 * out@.len() < n + 8,
            forall|g: int| 0 <= g < out@.len() ==> out@[g] == group_byte(#[trigger] group_of(row@, g)),
        decreases n - start,
    {
        let end: usize = if n - start <= 8 { n } else { start + 8 };
        let b = pack_group(row, start, end);
        proof {
            assert(row@.subrange(start as int, end as int) == group_of(row@, out@.len() as int));
        }
        out.push(b);
        start = end;
    }
    proof {
        assert(out@ =~= halftone(row@));
    }
    out
}

proof fn lemma_light_weight_dark_tail(s: Seq<u8>, k: int, j: int)
    requires
        0 <= k <= j <= s.len(),
        forall|i: int| k <= i < j ==> s[i] < WHITE_THRESHOLD,
    ensures
        light_weight(s, j) == light_weight(s, k),
    decreases j - k,
{
    if j > k {
        lemma_light_weight_dark_tail(s, k, j - 1);
    }
}

proof fn lemma_light_weight_same_prefix(a: Seq<u8>, b: Seq<u8>, k: int)
    requires
        0 <= k <= a.len(),
        k <= b.len(),
        forall|i: int| 0 <= i < k ==> a[i] == b[i],
    ensures
        light_weight(a, k) == light_weight(b, k),
    decreases k,
{
    if k > 0 {
        lemma_light_weight_same_prefix(a, b, k - 1);
    }
}

/// A full group of light samples prints nothing: its byte is `0x00`.
pub proof fn lemma_light_group_is_blank(row: Seq<u8>, g: int)
    requires
        0 <= g,
        8 * g + 8 <= row.len(),
        forall|i: int| 8 * g <= i < 8 * g + 8 ==> row[i] >= WHITE_THRESHOLD,
    ensures
        halftone(row)[g] == 0,
{
    let grp = group_of(row, g);
    assert(grp.len() == 8);
    assert forall|i: int| 0 <= i < 8 implies grp[i] >= WHITE_THRESHOLD by {
        assert(grp[i] == row[8 * g + i]);
    }
    reveal_with_fuel(weight, 9);
    reveal_with_fuel(light_weight, 9);
    assert(light_weight(grp, 8) == 255);
}

/// A group of dark samples, full or short, prints every bit: its byte is
/// `0xFF`.
pub proof fn lemma_dark_group_is_solid(row: Seq<u8>, g: int)
    requires
        0 <= g < group_count(row.len() as int),
        forall|i: int| 8 * g <= i < 8 * g + 8 && i < row.len() ==> row[i] < WHITE_THRESHOLD,
    ensures
        halftone(row)[g] == 255,
{
    let grp = group_of(row, g);
    assert forall|i: int| 0 <= i < grp.len() implies grp[i] < WHITE_THRESHOLD by {
        assert(grp[i] == row[8 * g + i]);
    }
    lemma_light_weight_dark_tail(grp, 0, grp.len() as int);
}

/// A row whose length is not a multiple of eight still gives one byte per
/// group, and its short last group comes out exactly as if the missing
/// samples were dark: the trailing bits are always set ("print").
pub proof fn lemma_short_group_pads_dark(row: Seq<u8>)
    requires
        row.len() % 8 != 0,
    ensures
        halftone(row).len() == row.len() / 8 + 1,
        halftone(row) == halftone(row + Seq::new((8 - row.len() % 8) as nat, |i: int| 0u8)),
{
    let padded = row + Seq::new((8 - row.len() % 8) as nat, |i: int| 0u8);
    let h1 = halftone(row);
    let h2 = halftone(padded);
    assert(padded.len() == 8 * (row.len() / 8 + 1));
    assert(h1.len() == h2.len());
    assert forall|g: int| 0 <= g < h1.len() implies h1[g] == h2[g] by {
        let a = group_of(row, g);
        let b = group_of(padded, g);
        assert(b.len() == 8);
        assert forall|i: int| 0 <= i < a.len() implies a[i] == b[i] by {
            assert(a[i] == row[8 * g + i]);
            assert(b[i] == padded[8 * g + i]);
        }
        assert forall|i: int| a.len() <= i < 8 implies b[i] < WHITE_THRESHOLD by {
            assert(b[i] == padded[8 * g + i]);
        }
        lemma_light_weight_dark_tail(b, a.len() as int, 8);
        lemma_light_weight_same_prefix(a, b, a.len() as int);
    }
    assert(h1 =~= h2);
}

} // verus!
