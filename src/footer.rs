//! The twenty-byte member footer: CRC-32 of the data, the data's length and the
//! member's length, each little-endian.

use vstd::prelude::*;

verus! {

/// Length of the footer in bytes.
pub const FOOTER_SIZE: usize = 20;

/// The number a little-endian byte sequence stands for.
pub open spec fn le_value(b: Seq<u8>) -> nat
    decreases b.len(),
{
    if b.len() == 0 {
        0
    } else {
        b[0] as nat + 256 * le_value(b.drop_first())
    }
}

/// The `n` low bytes of `v`, least significant first.
pub open spec fn le_bytes(v: nat, n: nat) -> Seq<u8>
    decreases n,
{
    if n == 0 {
        Seq::empty()
    } else {
        seq![(v % 256) as u8] + le_bytes(v / 256, (n - 1) as nat)
    }
}

/// `256` to the power `n`.
pub open spec fn pow256(n: nat) -> nat
    decreases n,
{
    if n == 0 {
        1
    } else {
        256 * pow256((n - 1) as nat)
    }
}

/// The powers of 256 that bound a `u32` and a `u64`.
pub proof fn lemma_pow256_values()
    ensures
        pow256(4) == 0x1_0000_0000,
        pow256(8) == 0x1_0000_0000_0000_0000,
{
    assert(pow256(0) == 1);
    assert(pow256(1) == 0x100);
    assert(pow256(2) == 0x1_0000);
    assert(pow256(3) == 0x100_0000);
    assert(pow256(4) == 0x1_0000_0000);
    assert(pow256(5) == 0x100_0000_0000);
    assert(pow256(6) == 0x1_0000_0000_0000);
    assert(pow256(7) == 0x100_0000_0000_0000);
}

/// Powers of 256 grow with the exponent.
pub proof fn lemma_pow256_monotonic(a: nat, b: nat)
    requires
        a <= b,
    ensures
        pow256(a) <= pow256(b),
    decreases b,
{
    if a < b {
        lemma_pow256_monotonic(a, (b - 1) as nat);
    }
}

/// Reading back the `n` bytes written for a value below `256^n` gives the value.
pub proof fn lemma_le_round_trip(v: nat, n: nat)
    requires
        v < pow256(n),
    ensures
        le_bytes(v, n).len() == n,
        le_value(le_bytes(v, n)) == v,
    decreases n,
{
    if n > 0 {
        lemma_le_round_trip(v / 256, (n - 1) as nat);
        let b = le_bytes(v, n);
        assert(b.drop_first() =~= le_bytes(v / 256, (n - 1) as nat));
    }
}

/// A little-endian value of `n` bytes is below `256^n`.
pub proof fn lemma_le_value_bound(b: Seq<u8>)
    ensures
        le_value(b) < pow256(b.len()),
    decreases b.len(),
{
    if b.len() > 0 {
        lemma_le_value_bound(b.drop_first());
    }
}

/// A parsed footer.
#[derive(Clone, Copy, Debug, PartialEq, Eq, Structural)]
pub struct Footer {
    /// CRC-32 of the uncompressed data.
    pub crc32: u32,
    /// Length of the uncompressed data.
    pub data_size: u64,
    /// Length of the whole member: header, payload and footer.
    pub member_size: u64,
}

/// The footer that twenty bytes `b` hold.
pub open spec fn parse_footer_spec(b: Seq<u8>) -> Footer {
    Footer {
        crc32: le_value(b.subrange(0, 4)) as u32,
        data_size: le_value(b.subrange(4, 12)) as u64,
        member_size: le_value(b.subrange(12, 20)) as u64,
    }
}

/// The twenty bytes that hold footer `f`.
pub open spec fn footer_bytes(f: Footer) -> Seq<u8> {
    le_bytes(f.crc32 as nat, 4) + le_bytes(f.data_size as nat, 8) + le_bytes(
        f.member_size as nat,
        8,
    )
}

/// Reads the little-endian number held in `b[start..start + n]`.
pub fn read_le(b: &[u8], start: usize, n: usize) -> (r: u64)
    requires
        n <= 8,
        start + n <= b@.len(),
    ensures
        r as nat == le_value(b@.subrange(start as int, start + n)),
{
    let mut acc: u64 = 0;
    let mut i: usize = n;
    let len: usize = b.len();
    proof {
        lemma_pow256_values();
    }
    while i > 0
        invariant
            i <= n <= 8,
            start + n <= len == b@.len(),
            acc as nat == le_value(b@.subrange(start + i, start + n)),
            acc < pow256((n - i) as nat),
            pow256(8) == 0x1_0000_0000_0000_0000,
        decreases i,
    {
        let ghost tail = b@.subrange(start + i, start + n);
        let ghost longer = b@.subrange(start + i - 1, start + n);
        assert(longer.drop_first() =~= tail);
        assert(pow256((n - i + 1) as nat) == 256 * pow256((n - i) as nat));
        proof {
            lemma_pow256_monotonic((n - i + 1) as nat, 8);
        }
        acc = acc * 256 + b[start + i - 1] as u64;
        i = i - 1;
    }
    acc
}

/// Appends the `n` low bytes of `v`, least significant first.
pub fn write_le(output: &mut Vec<u8>, v: u64, n: usize)
    ensures
        final(output)@ == old(output)@ + le_bytes(v as nat, n as nat),
{
    let mut cur: u64 = v;
    let mut i: usize = 0;
    while i < n
        invariant
            i <= n,
            output@ + le_bytes(cur as nat, (n - i) as nat) == old(output)@ + le_bytes(
                v as nat,
                n as nat,
            ),
        decreases n - i,
    {
        let ghost rest = le_bytes((cur / 256) as nat, (n - i - 1) as nat);
        assert(le_bytes(cur as nat, (n - i) as nat) == seq![(cur % 256) as u8] + rest);
        output.push((cur % 256) as u8);
        cur = cur / 256;
        i = i + 1;
        assert(output@ + rest =~= old(output)@ + le_bytes(v as nat, n as nat));
    }
    assert(output@ =~= old(output)@ + le_bytes(v as nat, n as nat));
}

impl Footer {
    /// Parses twenty footer bytes. No field is checked here.
    pub fn parse(b: &[u8]) -> (r: Footer)
        requires
            b@.len() == FOOTER_SIZE,
        ensures
            r == parse_footer_spec(b@),
    {
        let crc32 = read_le(b, 0, 4);
        proof {
            lemma_le_value_bound(b@.subrange(0, 4));
            lemma_pow256_values();
        }
        let data_size = read_le(b, 4, 8);
        let member_size = read_le(b, 12, 8);
        Footer { crc32: crc32 as u32, data_size, member_size }
    }

    /// Appends the twenty bytes of this footer.
    pub fn write(&self, output: &mut Vec<u8>)
        ensures
            final(output)@ == old(output)@ + footer_bytes(*self),
    {
        write_le(output, self.crc32 as u64, 4);
        write_le(output, self.data_size, 8);
        write_le(output, self.member_size, 8);
        assert(output@ =~= old(output)@ + footer_bytes(*self));
    }
}

/// Parsing the bytes written for a footer gives the same footer back.
pub proof fn lemma_footer_round_trip(f: Footer)
    ensures
        footer_bytes(f).len() == FOOTER_SIZE,
        parse_footer_spec(footer_bytes(f)) == f,
{
    lemma_pow256_values();
    lemma_le_round_trip(f.crc32 as nat, 4);
    lemma_le_round_trip(f.data_size as nat, 8);
    lemma_le_round_trip(f.member_size as nat, 8);
    let b = footer_bytes(f);
    assert(b.subrange(0, 4) =~= le_bytes(f.crc32 as nat, 4));
    assert(b.subrange(4, 12) =~= le_bytes(f.data_size as nat, 8));
    assert(b.subrange(12, 20) =~= le_bytes(f.member_size as nat, 8));
}

} // verus!
