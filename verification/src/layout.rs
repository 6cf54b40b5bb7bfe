//! Page-granular size arithmetic: every reservation is a whole number of
//! 4096-byte pages, and a raw byte count is rounded up to the smallest page
//! multiple that covers it.

use vstd::prelude::*;
use vstd::arithmetic::div_mod::lemma_fundamental_div_mod;
use vstd::arithmetic::div_mod::lemma_mod_bound;
use vstd::arithmetic::div_mod::lemma_mod_multiples_basic;
use vstd::arithmetic::mul::lemma_mul_inequality;

verus! {

/// The fixed unit of virtual-memory addressing on the supported platform.
pub const PAGE_SIZE: usize = 4096;

/// A size is a valid region size when it is a positive multiple of the page
/// size.
pub open spec fn is_valid_region_size(size: int) -> bool {
    &&& 1 <= size
    &&& size % (PAGE_SIZE as int) == 0
}

/// The smallest multiple of the page size that is at least `raw`.
pub open spec fn spec_round_up_to_page(raw: int) -> int {
    ((raw + (PAGE_SIZE - 1)) / (PAGE_SIZE as int)) * (PAGE_SIZE as int)
}

/// Two distinct page multiples lie at least a page apart.
pub proof fn lemma_page_multiples_apart(a: int, b: int)
    requires
        a % (PAGE_SIZE as int) == 0,
        b % (PAGE_SIZE as int) == 0,
        a < b,
    ensures
        a + PAGE_SIZE <= b,
{
    let p = PAGE_SIZE as int;
    lemma_fundamental_div_mod(a, p);
    lemma_fundamental_div_mod(b, p);
    assert(a / p < b / p) by {
        if b / p <= a / p {
            lemma_mul_inequality(b / p, a / p, p);
        }
    }
    assert(p * (a / p) + p <= p * (b / p)) by {
        lemma_mul_inequality(a / p + 1, b / p, p);
    }
}

/// The rounded size is a page multiple no smaller than `raw` and less than
/// one page beyond it.
pub proof fn lemma_round_up_props(raw: int)
    requires
        0 <= raw,
    ensures
        spec_round_up_to_page(raw) % (PAGE_SIZE as int) == 0,
        raw <= spec_round_up_to_page(raw),
        spec_round_up_to_page(raw) < raw + PAGE_SIZE,
        1 <= raw ==> is_valid_region_size(spec_round_up_to_page(raw)),
{
    let p = PAGE_SIZE as int;
    let x = raw + p - 1;
    lemma_fundamental_div_mod(x, p);
    lemma_mod_bound(x, p);
    lemma_mod_multiples_basic(x / p, p);
}

/// No smaller page multiple covers `raw`: any page multiple at least `raw`
/// is at least the rounded size.
pub proof fn lemma_round_up_minimal(raw: int, m: int)
    requires
        0 <= raw,
        m % (PAGE_SIZE as int) == 0,
        raw <= m,
    ensures
        spec_round_up_to_page(raw) <= m,
{
    let r = spec_round_up_to_page(raw);
    lemma_round_up_props(raw);
    if m < r {
        lemma_page_multiples_apart(m, r);
    }
}

/// Rounds `raw` up to the next multiple of the page size, or reports that no
/// such multiple fits in `usize`.
pub fn round_up_to_page(raw: usize) -> (r: Option<usize>)
    ensures
        r matches Some(v) ==> v == spec_round_up_to_page(raw as int),
        (r is Some) <==> spec_round_up_to_page(raw as int) <= usize::MAX,
{
    proof {
        lemma_round_up_props(raw as int);
    }
    if raw > usize::MAX - (PAGE_SIZE - 1) {
        proof {
            let top = usize::MAX - (PAGE_SIZE - 1);
            let r_spec = spec_round_up_to_page(raw as int);
            if r_spec <= usize::MAX {
                lemma_page_multiples_apart(top as int, r_spec);
            }
        }
        None
    } else {
        let q = (raw + (PAGE_SIZE - 1)) / PAGE_SIZE;
        proof {
            let x = raw as int + (PAGE_SIZE - 1);
            lemma_fundamental_div_mod(x, PAGE_SIZE as int);
            lemma_mod_bound(x, PAGE_SIZE as int);
        }
        Some(q * PAGE_SIZE)
    }
}

/// Whether an element type with the given required alignment is supported:
/// alignments beyond one page are not.
pub fn supports_alignment(align: usize) -> (r: bool)
    ensures
        r <==> align <= PAGE_SIZE,
{
    align <= PAGE_SIZE
}

} // verus!
