//! The 512-byte tar header block and its checksum field.
use vstd::prelude::*;

verus! {

/// Size of a tar header block.
pub const BLOCK_LEN: usize = 512;

/// Offset of the checksum field within a header block.
pub const CKSUM_START: usize = 148;

/// Length of the checksum field.
pub const CKSUM_LEN: usize = 8;

/// Sum of `s[lo..hi]`, each byte taken as an unsigned number.
pub open spec fn byte_sum(s: Seq<u8>, lo: int, hi: int) -> int
    decreases hi - lo,
{
    if hi <= lo {
        0
    } else {
        byte_sum(s, lo, hi - 1) + s[hi - 1] as int
    }
}

/// The checksum of a header block: the sum of its bytes, with the eight
/// bytes of the checksum field counted as ASCII spaces.
pub open spec fn header_sum(h: Seq<u8>) -> int {
    byte_sum(h, 0, CKSUM_START as int) + 8 * 32 + byte_sum(h, (CKSUM_START + CKSUM_LEN) as int, h.len() as int)
}

pub open spec fn pow8(n: nat) -> nat
    decreases n,
{
    if n == 0 {
        1
    } else {
        8 * pow8((n - 1) as nat)
    }
}

/// The ASCII octal digit of `v` at position `k` of a seven-digit,
/// zero-padded rendering (position 0 is the most significant).
pub open spec fn octal_digit(v: int, k: int) -> u8 {
    (48 + (v / pow8((6 - k) as nat) as int) % 8) as u8
}

/// The checksum field that records `v`: seven octal digits and a NUL.
pub open spec fn cksum_field(v: int) -> Seq<u8> {
    Seq::new(8, |k: int| if k < 7 { octal_digit(v, k) } else { 0u8 })
}

/// A header block whose checksum field agrees with its bytes.
pub open spec fn checksum_valid(h: Seq<u8>) -> bool {
    &&& h.len() == BLOCK_LEN
    &&& h.subrange(CKSUM_START as int, (CKSUM_START + CKSUM_LEN) as int) == cksum_field(header_sum(h))
}

/// `h` with its checksum field set from the other bytes.
pub open spec fn sealed(h: Seq<u8>) -> Seq<u8> {
    h.subrange(0, CKSUM_START as int) + cksum_field(header_sum(h)) + h.subrange(
        (CKSUM_START + CKSUM_LEN) as int,
        h.len() as int,
    )
}

proof fn lemma_byte_sum_agree(a: Seq<u8>, b: Seq<u8>, lo: int, hi: int)
    requires
        0 <= lo,
        hi <= a.len(),
        hi <= b.len(),
        forall|i: int| lo <= i < hi ==> a[i] == b[i],
    ensures
        byte_sum(a, lo, hi) == byte_sum(b, lo, hi),
    decreases hi - lo,
{
    if lo < hi {
        lemma_byte_sum_agree(a, b, lo, hi - 1);
    }
}

proof fn lemma_byte_sum_bound(s: Seq<u8>, lo: int, hi: int)
    requires
        0 <= lo <= hi,
    ensures
        0 <= byte_sum(s, lo, hi) <= 255 * (hi - lo),
    decreases hi - lo,
{
    if lo < hi {
        lemma_byte_sum_bound(s, lo, hi - 1);
    }
}

/// The checksum of any header block fits in the seven octal digits of its field.
pub proof fn lemma_header_sum_bound(h: Seq<u8>)
    requires
        h.len() == BLOCK_LEN,
    ensures
        0 <= header_sum(h) < pow8(7),
{
    lemma_byte_sum_bound(h, 0, CKSUM_START as int);
    lemma_byte_sum_bound(h, (CKSUM_START + CKSUM_LEN) as int, BLOCK_LEN as int);
    reveal_with_fuel(pow8, 8);
    assert(pow8(7) == 2097152);
}

/// Sealing a header block leaves it with a checksum that verifies against its
/// own bytes, and changes nothing outside the checksum field.
pub proof fn lemma_sealed_valid(h: Seq<u8>)
    requires
        h.len() == BLOCK_LEN,
    ensures
        checksum_valid(sealed(h)),
        sealed(h).len() == BLOCK_LEN,
        forall|i: int|
            0 <= i < BLOCK_LEN && !(CKSUM_START <= i < CKSUM_START + CKSUM_LEN) ==> #[trigger] sealed(h)[i]
                == h[i],
{
    let s = sealed(h);
    assert(s.len() == BLOCK_LEN);
    lemma_byte_sum_agree(h, s, 0, CKSUM_START as int);
    lemma_byte_sum_agree(h, s, (CKSUM_START + CKSUM_LEN) as int, BLOCK_LEN as int);
    assert(s.subrange(CKSUM_START as int, (CKSUM_START + CKSUM_LEN) as int) =~= cksum_field(header_sum(h)));
}

/// Sets the checksum field of a header block from the block's other bytes.
pub fn seal_header(h: &mut Vec<u8>)
    requires
        old(h)@.len() == BLOCK_LEN,
    ensures
        final(h)@ == sealed(old(h)@),
        checksum_valid(final(h)@),
{
    let ghost h0 = h@;
    let mut sum: u32 = 0;
    let mut i: usize = 0;
    while i < BLOCK_LEN
        invariant
            h@ == h0,
            h0.len() == BLOCK_LEN,
            0 <= i <= BLOCK_LEN,
            sum as int == if i <= CKSUM_START {
                byte_sum(h0, 0, i as int)
            } else if i <= CKSUM_START + CKSUM_LEN {
                byte_sum(h0, 0, CKSUM_START as int) + 32 * (i - CKSUM_START)
            } else {
                byte_sum(h0, 0, CKSUM_START as int) + 8 * 32 + byte_sum(
                    h0,
                    (CKSUM_START + CKSUM_LEN) as int,
                    i as int,
                )
            },
            sum <= 255 * i,
        decreases BLOCK_LEN - i,
    {
        if CKSUM_START <= i && i < CKSUM_START + CKSUM_LEN {
            sum = sum + 32;
        } else {
            sum = sum + h[i] as u32;
        }
        proof {
            assert(byte_sum(h0, (CKSUM_START + CKSUM_LEN) as int, (CKSUM_START + CKSUM_LEN) as int) == 0);
        }
        i = i + 1;
    }
    proof {
        lemma_header_sum_bound(h0);
        reveal_with_fuel(pow8, 7);
    }
    let mut divisor: u32 = 262144;
    let mut k: usize = 0;
    while k < 7
        invariant
            h0.len() == BLOCK_LEN,
            sum as int == header_sum(h0),
            0 <= k <= 7,
            k < 7 ==> divisor as int == pow8((6 - k) as nat),
            k < 7 ==> divisor >= 1,
            h@.len() == BLOCK_LEN,
            forall|j: int|
                0 <= j < BLOCK_LEN && !(CKSUM_START <= j < CKSUM_START + k) ==> h@[j] == h0[j],
            forall|j: int| 0 <= j < k ==> h@[CKSUM_START + j] == octal_digit(sum as int, j),
        decreases 7 - k,
    {
        let digit: u8 = (48 + (sum / divisor) % 8) as u8;
        h.set(CKSUM_START + k, digit);
        if k < 6 {
            proof {
                assert(pow8((6 - k) as nat) == 8 * pow8((6 - (k + 1)) as nat));
            }
            divisor = divisor / 8;
        }
        k = k + 1;
    }
    h.set(CKSUM_START + 7, 0);
    proof {
        lemma_sealed_valid(h0);
        assert(h@ =~= sealed(h0));
    }
}

} // verus!
