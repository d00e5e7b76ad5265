//! Planning the geometry of one combined allocation.
//!
//! A combined block stores a one-word dispatch slot followed by the payload
//! bytes.  Given the payload's size and alignment, [`compute`] returns the
//! combined size, the combined alignment and the byte offset at which the
//! payload begins.  The planner guarantees that the offset is a whole
//! multiple of the word size for every power-of-two alignment, so the
//! dispatch slot sits naturally aligned immediately before the payload.

use vstd::arithmetic::div_mod::{
    lemma_fundamental_div_mod, lemma_mod_multiples_basic, lemma_mod_self_0, lemma_small_mod,
};
use vstd::prelude::*;

verus! {

/// Width in bytes of the dispatch slot: one machine word.
pub const WORD_BYTES: usize = 8;

/// Strictly positive powers of two, the only legal alignment values.
pub open spec fn power_of_two(n: int) -> bool
    decreases n,
{
    if n <= 0 {
        false
    } else if n == 1 {
        true
    } else {
        n % 2 == 0 && power_of_two(n / 2)
    }
}

/// The geometry of one combined allocation: total size, alignment, and the
/// byte offset of the payload within the block.  The dispatch slot occupies
/// the word immediately before the payload.
#[derive(Clone, Copy, PartialEq, Eq, Structural, Debug)]
pub struct Layout {
    pub size: usize,
    pub align: usize,
    pub payload_offset: usize,
}

/// The payload offset a word-sized, word-aligned dispatch slot forces: the
/// word size rounded up to the payload's alignment, which for powers of two
/// is the larger of the two.
pub open spec fn combined_offset(payload_align: usize) -> int {
    if payload_align <= WORD_BYTES {
        WORD_BYTES as int
    } else {
        payload_align as int
    }
}

/// What the planner returns for a payload of the given size and alignment.
pub open spec fn layout_spec(payload_size: usize, payload_align: usize) -> Layout {
    Layout {
        size: (combined_offset(payload_align) + payload_size) as usize,
        align: combined_offset(payload_align) as usize,
        payload_offset: combined_offset(payload_align) as usize,
    }
}

/// Every power of two divides every larger power of two.
pub proof fn lemma_pow2_divides(a: int, b: int)
    requires
        power_of_two(a),
        power_of_two(b),
        a <= b,
    ensures
        b % a == 0,
    decreases b,
{
    if a == 1 {
        assert(b % 1 == 0);
    } else {
        let ah = a / 2;
        let bh = b / 2;
        assert(a % 2 == 0 && power_of_two(ah));
        assert(b > 1);
        assert(b % 2 == 0 && power_of_two(bh));
        lemma_pow2_divides(ah, bh);
        lemma_fundamental_div_mod(bh, ah);
        let q = bh / ah;
        lemma_fundamental_div_mod(b, 2);
        lemma_fundamental_div_mod(a, 2);
        assert(b == q * a) by (nonlinear_arith)
            requires
                b == 2 * bh,
                a == 2 * ah,
                bh == ah * q,
        ;
        lemma_mod_multiples_basic(q, a);
    }
}

/// A sum of two multiples of an alignment is itself a multiple of it.
pub proof fn lemma_aligned_sum(x: int, y: int, a: int)
    requires
        a > 0,
        x % a == 0,
        y % a == 0,
    ensures
        (x + y) % a == 0,
{
    lemma_fundamental_div_mod(x, a);
    lemma_fundamental_div_mod(y, a);
    assert(x + y == (x / a + y / a) * a) by (nonlinear_arith)
        requires
            x == a * (x / a),
            y == a * (y / a),
    ;
    lemma_mod_multiples_basic(x / a + y / a, a);
}

/// A multiple of a multiple of an alignment is a multiple of it.
pub proof fn lemma_divides_transitive(a: int, b: int, x: int)
    requires
        a > 0,
        b > 0,
        b % a == 0,
        x % b == 0,
    ensures
        x % a == 0,
{
    lemma_fundamental_div_mod(b, a);
    lemma_fundamental_div_mod(x, b);
    assert(x == ((x / b) * (b / a)) * a) by (nonlinear_arith)
        requires
            b == a * (b / a),
            x == b * (x / b),
    ;
    lemma_mod_multiples_basic((x / b) * (b / a), a);
}

/// In any half-open window one alignment wide there is exactly one multiple
/// of that alignment.
pub proof fn lemma_unique_multiple(a: int, m: int, r: int)
    requires
        a > 0,
        r % a == 0,
        m % a == 0,
        m <= r < m + a,
    ensures
        r == m,
{
    lemma_fundamental_div_mod(r, a);
    lemma_fundamental_div_mod(m, a);
    let qr = r / a;
    let qm = m / a;
    assert(r == m) by (nonlinear_arith)
        requires
            a > 0,
            r == a * qr,
            m == a * qm,
            0 <= r - m < a,
    ;
}

/// Decide whether `n` is a power of two, so callers can establish the
/// alignment precondition the planner and the registry put on them.
pub fn is_power_of_two(n: usize) -> (r: bool)
    ensures
        r == power_of_two(n as int),
{
    if n == 0 {
        return false;
    }
    let mut m: usize = n;
    while m > 1
        invariant
            1 <= m <= n,
            power_of_two(n as int) == power_of_two(m as int),
        decreases m,
    {
        if m % 2 == 1 {
            return false;
        }
        m = m / 2;
    }
    true
}

/// Round `n` up to the next multiple of `align`.
pub fn round_up(n: usize, align: usize) -> (r: usize)
    requires
        1 <= align,
        n + align <= usize::MAX,
    ensures
        n <= r < n + align,
        r as int % align as int == 0,
{
    let rem = n % align;
    if rem == 0 {
        proof {
            let a = align as int;
            let q = n as int / a;
            lemma_fundamental_div_mod(n as int, a);
            assert(n as int == q * a) by (nonlinear_arith)
                requires
                    n as int == a * q + rem as int,
                    rem as int == 0,
            ;
            lemma_mod_multiples_basic(q, a);
        }
        n
    } else {
        proof {
            let a = align as int;
            let q = n as int / a;
            lemma_fundamental_div_mod(n as int, a);
            assert(n as int + a - rem as int == (q + 1) * a) by (nonlinear_arith)
                requires
                    n as int == a * q + rem as int,
            ;
            lemma_mod_multiples_basic(q + 1, a);
        }
        n + (align - rem)
    }
}

/// Plan the combined allocation for a payload of the given size and
/// alignment: extend a one-word-sized, word-aligned dispatch slot by the
/// payload's own layout.  The resulting payload offset is always a whole
/// multiple of both the word size and the payload's alignment, so the
/// dispatch slot can be recovered from the payload address by a fixed
/// one-word subtraction.
pub fn compute(payload_size: usize, payload_align: usize) -> (l: Layout)
    requires
        power_of_two(payload_align as int),
        payload_size + payload_align + WORD_BYTES <= usize::MAX,
    ensures
        l == layout_spec(payload_size, payload_align),
        l.size == l.payload_offset + payload_size,
        l.payload_offset as int % WORD_BYTES as int == 0,
        l.payload_offset as int % payload_align as int == 0,
        WORD_BYTES <= l.payload_offset,
        payload_align <= l.align,
        l.align == l.payload_offset,
{
    proof {
        assert(payload_align >= 1);
    }
    let off = round_up(WORD_BYTES, payload_align);
    proof {
        let a = payload_align as int;
        let w = WORD_BYTES as int;
        if payload_align <= WORD_BYTES {
            assert(power_of_two(w)) by {
                reveal_with_fuel(power_of_two, 5);
            }
            lemma_pow2_divides(a, w);
            lemma_unique_multiple(a, w, off as int);
        } else {
            lemma_mod_self_0(a);
            if (off as int) < a {
                lemma_small_mod(off as nat, a as nat);
                assert(false);
            }
            lemma_unique_multiple(a, a, off as int);
        }
        assert(off as int == combined_offset(payload_align));
        assert(power_of_two(w)) by {
            reveal_with_fuel(power_of_two, 5);
        }
        if payload_align <= WORD_BYTES {
            lemma_mod_self_0(w);
        } else {
            lemma_pow2_divides(w, a);
        }
    }
    Layout { size: off + payload_size, align: off, payload_offset: off }
}

} // verus!
