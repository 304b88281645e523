//! Flash planner: aligns the target address, pads the binary to whole
//! pages, and picks the minimal set of pages that must be written.
//!
//! Two deliberate choices about erased flash.  A page counts as dirty when
//! it holds any byte other than zero: all-zero pages are assumed
//! pre-erased and skippable, so an image filled with the erase value
//! `0xFF` is wholly dirty and written in full.  And the alignment gap
//! between the walk's end and the rounded-up target address is never
//! written: it is assumed to keep the flash's erased value, and the
//! terminating erase after the new binary re-establishes the chain's end
//! for the next walk.

use vstd::prelude::*;

verus! {

/// The least multiple of `size` that is not below `candidate`.
pub open spec fn spec_align_up(candidate: int, size: int) -> int {
    if candidate % size == 0 {
        candidate
    } else {
        (candidate / size + 1) * size
    }
}

/// The facts behind address alignment: the aligned address is a multiple
/// of the size, not below the candidate, and less than one size above it.
pub proof fn lemma_alignment(candidate: int, size: int)
    requires
        size > 0,
        candidate >= 0,
    ensures
        spec_align_up(candidate, size) % size == 0,
        spec_align_up(candidate, size) >= candidate,
        spec_align_up(candidate, size) < candidate + size,
        (candidate / size) * size <= candidate,
{
    let c = candidate;
    let s = size;
    vstd::arithmetic::div_mod::lemma_fundamental_div_mod(c, s);
    assert(c == s * (c / s) + c % s);
    assert(0 <= c % s < s) by (nonlinear_arith)
        requires
            s > 0,
            c >= 0,
    ;
    assert((c / s) * s == s * (c / s)) by (nonlinear_arith);
    if c % s == 0 {
        assert(spec_align_up(c, s) % s == 0);
    } else {
        assert((c / s + 1) * s == s * (c / s) + s) by (nonlinear_arith);
        assert((c / s + 1) * s == c - c % s + s);
        assert((c / s + 1) * s % s == 0) by (nonlinear_arith)
            requires
                s > 0,
        ;
    }
}

/// Round a candidate address up to the next multiple of the binary's
/// size, so that every installed application starts at a multiple of its
/// own size.
pub fn align_address(candidate: u64, size: u64) -> (r: u64)
    requires
        size > 0,
        candidate + size <= u64::MAX,
    ensures
        r == spec_align_up(candidate as int, size as int),
        r % size == 0,
        candidate <= r < candidate + size,
{
    proof {
        lemma_alignment(candidate as int, size as int);
        vstd::arithmetic::div_mod::lemma_fundamental_div_mod(candidate as int, size as int);
    }
    let multiple = candidate / size;
    if multiple * size != candidate {
        proof {
            assert(candidate as int % size as int != 0) by (nonlinear_arith)
                requires
                    size > 0,
                    (candidate as int / size as int) * size as int != candidate as int,
                    candidate as int == size as int * (candidate as int / size as int)
                        + candidate as int % size as int,
            ;
        }
        (candidate / size + 1) * size
    } else {
        proof {
            assert(candidate as int % size as int == 0) by (nonlinear_arith)
                requires
                    size > 0,
                    (candidate as int / size as int) * size as int == candidate as int,
                    candidate as int == size as int * (candidate as int / size as int)
                        + candidate as int % size as int,
            ;
        }
        candidate
    }
}

/// A binary padded with erase-value bytes (`0xFF`) up to a whole number of
/// pages.
pub open spec fn spec_pad_to_page(s: Seq<u8>, page_size: int) -> Seq<u8> {
    if s.len() as int % page_size == 0 {
        s
    } else {
        s + Seq::new((page_size - s.len() as int % page_size) as nat, |i: int| 0xFFu8)
    }
}

/// Pad a binary with `0xFF` bytes up to the next multiple of the page
/// size.
pub fn pad_binary(binary: Vec<u8>, page_size: usize) -> (r: Vec<u8>)
    requires
        page_size > 0,
        binary@.len() + page_size <= usize::MAX,
    ensures
        r@ == spec_pad_to_page(binary@, page_size as int),
        r@.len() as int % (page_size as int) == 0,
        r@.len() < binary@.len() + page_size,
{
    let mut out = binary;
    let ghost orig = out@;
    let n = out.len();
    let rem = n % page_size;
    let pad_count: usize = if rem == 0 {
        0
    } else {
        page_size - rem
    };
    let mut k: usize = 0;
    while k < pad_count
        invariant
            k <= pad_count,
            pad_count < page_size,
            n == orig.len(),
            out@.len() == n + k,
            out@.take(n as int) == orig,
            forall|j: int| n <= j < out@.len() ==> out@[j] == 0xFFu8,
        decreases pad_count - k,
    {
        out.push(0xFF);
        proof {
            assert(out@.take(n as int) =~= orig);
        }
        k += 1;
    }
    proof {
        assert(out@ =~= spec_pad_to_page(orig, page_size as int));
        if rem != 0 {
            assert((n + pad_count) as int % page_size as int == 0) by (nonlinear_arith)
                requires
                    page_size > 0,
                    rem == n as int % page_size as int,
                    rem != 0,
                    pad_count == page_size - rem,
            ;
        }
    }
    out
}

/// Whether page `i` holds any byte that is not zero, the value an erased
/// and skippable page is assumed to hold.
pub open spec fn page_dirty(s: Seq<u8>, page_size: int, i: int) -> bool {
    exists|j: int| i * page_size <= j < (i + 1) * page_size && j < s.len() && s[j] != 0
}

/// Whether any of the first `n` pages is dirty.
pub open spec fn any_page_dirty(s: Seq<u8>, page_size: int, n: int) -> bool {
    exists|i: int| 0 <= i < n && page_dirty(s, page_size, i)
}

/// Whether page `i` belongs in the write plan: every page when none is
/// dirty (the fallback, so an all-zero image is still written), else the
/// dirty pages and every page that immediately follows a dirty one.
pub open spec fn page_selected(s: Seq<u8>, page_size: int, n: int, i: int) -> bool {
    0 <= i < n && if any_page_dirty(s, page_size, n) {
        page_dirty(s, page_size, i) || (i > 0 && page_dirty(s, page_size, i - 1))
    } else {
        true
    }
}

/// Whether page `i` of the binary holds a byte that must be written.
fn page_is_dirty(binary: &Vec<u8>, page_size: usize, i: usize) -> (r: bool)
    requires
        page_size > 0,
        (i + 1) * page_size <= binary@.len(),
    ensures
        r == page_dirty(binary@, page_size as int, i as int),
{
    let total = binary.len();
    proof {
        assert((i as int + 1) * page_size as int == i as int * page_size as int
            + page_size as int) by (nonlinear_arith);
        assert((i + 1) * page_size <= total);
    }
    let start = i * page_size;
    let end = start + page_size;
    let mut j = start;
    while j < end
        invariant
            start == i * page_size,
            end == (i + 1) * page_size,
            end <= binary@.len(),
            start <= j <= end,
            forall|k: int| start <= k < j ==> binary@[k] == 0u8,
        decreases end - j,
    {
        if binary[j] != 0 {
            return true;
        }
        j += 1;
    }
    false
}

/// Indices of the pages of a padded binary that must be written, in
/// ascending order: the dirty pages and each page immediately after a
/// dirty one, or every page when none is dirty.
pub fn get_valid_pages(binary: &Vec<u8>, page_size: usize) -> (r: Vec<u8>)
    requires
        page_size > 0,
        binary@.len() < 256 * page_size,
    ensures
        ({
            let n = binary@.len() as int / page_size as int;
            &&& forall|a: int, b: int| 0 <= a < b < r@.len() ==> r@[a] < r@[b]
            &&& forall|k: int|
                0 <= k < r@.len() ==> page_selected(binary@, page_size as int, n, r@[k] as int)
            &&& forall|i: int|
                page_selected(binary@, page_size as int, n, i) ==> r@.contains(i as u8)
        }),
{
    let n = binary.len() / page_size;
    proof {
        assert(n == binary@.len() as int / page_size as int);
        assert(n <= 255) by (nonlinear_arith)
            requires
                page_size > 0,
                binary@.len() < 256 * page_size,
                n == binary@.len() as int / page_size as int,
        ;
        assert(n * page_size <= binary@.len()) by (nonlinear_arith)
            requires
                page_size > 0,
                n == binary@.len() as int / page_size as int,
        ;
    }
    let mut dirty: Vec<bool> = Vec::new();
    let mut i: usize = 0;
    while i < n
        invariant
            i <= n,
            n == binary@.len() as int / page_size as int,
            n * page_size <= binary@.len(),
            n <= 255,
            page_size > 0,
            dirty@.len() == i,
            forall|k: int|
                0 <= k < i ==> dirty@[k] == page_dirty(binary@, page_size as int, k),
        decreases n - i,
    {
        proof {
            assert((i + 1) * page_size <= n * page_size) by (nonlinear_arith)
                requires
                    i + 1 <= n,
                    page_size > 0,
            ;
        }
        let d = page_is_dirty(binary, page_size, i);
        dirty.push(d);
        i += 1;
    }
    let mut any = false;
    let mut i: usize = 0;
    while i < n
        invariant
            i <= n,
            dirty@.len() == n,
            n == binary@.len() as int / page_size as int,
            forall|k: int|
                0 <= k < n ==> dirty@[k] == page_dirty(binary@, page_size as int, k),
            any == exists|k: int| 0 <= k < i && page_dirty(binary@, page_size as int, k),
        decreases n - i,
    {
        if dirty[i] {
            any = true;
        }
        i += 1;
    }
    proof {
        assert(any == any_page_dirty(binary@, page_size as int, n as int));
    }
    let mut out: Vec<u8> = Vec::new();
    let mut i: usize = 0;
    while i < n
        invariant
            i <= n,
            n <= 255,
            dirty@.len() == n,
            n == binary@.len() as int / page_size as int,
            forall|k: int|
                0 <= k < n ==> dirty@[k] == page_dirty(binary@, page_size as int, k),
            any == any_page_dirty(binary@, page_size as int, n as int),
            forall|a: int, b: int| 0 <= a < b < out@.len() ==> out@[a] < out@[b],
            forall|k: int| 0 <= k < out@.len() ==> out@[k] < i,
            forall|k: int|
                0 <= k < out@.len() ==> page_selected(
                    binary@,
                    page_size as int,
                    n as int,
                    out@[k] as int,
                ),
            forall|p: int|
                0 <= p < i && page_selected(binary@, page_size as int, n as int, p)
                    ==> out@.contains(p as u8),
        decreases n - i,
    {
        let take = if any {
            dirty[i] || (i > 0 && dirty[i - 1])
        } else {
            true
        };
        proof {
            assert(take == page_selected(binary@, page_size as int, n as int, i as int));
        }
        let ghost before = out@;
        if take {
            out.push(i as u8);
        }
        proof {
            assert forall|p: int|
                0 <= p < i + 1 && page_selected(binary@, page_size as int, n as int, p)
                    implies out@.contains(p as u8) by {
                if p < i {
                    assert(before.contains(p as u8));
                    let k = choose|k: int| 0 <= k < before.len() && before[k] == p as u8;
                    assert(out@[k] == p as u8);
                } else {
                    assert(out@[out@.len() - 1] == i as u8);
                }
            }
        }
        i += 1;
    }
    out
}


/// A write plan for one application image: where it goes, the image
/// padded to whole pages, and which pages must be written, in ascending
/// order.  Computed fresh for each install and discarded afterwards.
pub struct FlashPlan {
    pub target_address: u64,
    pub padded_binary: Vec<u8>,
    pub page_size: usize,
    pub pages_to_write: Vec<u8>,
}

/// Everything `plan` promises of its result, in one predicate: the target
/// address is the candidate rounded up to the next multiple of the
/// binary's size, the padded binary is the binary filled with `0xFF` to
/// whole pages, and the page list is exactly the selected pages in
/// ascending order.
pub open spec fn plan_matches(
    r: FlashPlan,
    candidate: int,
    binary: Seq<u8>,
    page_size: int,
) -> bool {
    let n = r.padded_binary@.len() as int / page_size;
    &&& r.page_size == page_size
    &&& r.target_address == spec_align_up(candidate, binary.len() as int)
    &&& r.target_address as int % (binary.len() as int) == 0
    &&& candidate <= r.target_address < candidate + binary.len()
    &&& r.padded_binary@ == spec_pad_to_page(binary, page_size)
    &&& forall|a: int, b: int|
        0 <= a < b < r.pages_to_write@.len() ==> r.pages_to_write@[a] < r.pages_to_write@[b]
    &&& forall|k: int|
        0 <= k < r.pages_to_write@.len() ==> page_selected(
            r.padded_binary@,
            page_size,
            n,
            r.pages_to_write@[k] as int,
        )
    &&& forall|i: int|
        page_selected(r.padded_binary@, page_size, n, i) ==> r.pages_to_write@.contains(i as u8)
}

/// Compute the write plan for a binary: round the candidate address up to
/// the next multiple of the binary's size, pad the binary with `0xFF` to
/// whole pages, and select the pages to write in ascending order.
pub fn plan(candidate_address: u64, binary: Vec<u8>, page_size: usize) -> (r: FlashPlan)
    requires
        binary@.len() > 0,
        page_size > 0,
        candidate_address + binary@.len() <= u64::MAX,
        binary@.len() + page_size <= usize::MAX,
        binary@.len() <= 255 * page_size,
    ensures
        plan_matches(r, candidate_address as int, binary@, page_size as int),
        r.padded_binary@.len() as int % (page_size as int) == 0,
        r.padded_binary@.len() > 0,
        r.pages_to_write@.len() > 0,
        forall|k: int|
            0 <= k < r.pages_to_write@.len() ==> (r.pages_to_write@[k] + 1) * (page_size as int)
                <= r.padded_binary@.len(),
{
    let size = binary.len() as u64;
    let target_address = align_address(candidate_address, size);
    let padded_binary = pad_binary(binary, page_size);
    proof {
        assert(padded_binary@.len() < 256 * page_size) by (nonlinear_arith)
            requires
                page_size > 0,
                padded_binary@.len() as int % page_size as int == 0,
                padded_binary@.len() < size + page_size,
                size <= 255 * page_size,
        ;
    }
    let pages_to_write = get_valid_pages(&padded_binary, page_size);
    proof {
        let padded = padded_binary@;
        let ps = page_size as int;
        let n = padded.len() as int / ps;
        assert(n * ps == padded.len() && n >= 1) by (nonlinear_arith)
            requires
                ps > 0,
                padded.len() as int % ps == 0,
                padded.len() > 0,
                n == padded.len() as int / ps,
        ;
        assert forall|k: int|
            0 <= k < pages_to_write@.len() implies (pages_to_write@[k] + 1) * ps
            <= padded.len() by {
            assert(page_selected(padded, ps, n, pages_to_write@[k] as int));
            assert((pages_to_write@[k] + 1) * ps <= n * ps) by (nonlinear_arith)
                requires
                    ps > 0,
                    pages_to_write@[k] + 1 <= n,
            ;
        }
        // At least one page is selected: page 0 either is dirty, follows the
        // fallback, or some page is dirty and the first dirty page is selected.
        if any_page_dirty(padded, ps, n) {
            let d = choose|i: int| 0 <= i < n && page_dirty(padded, ps, i);
            assert(page_selected(padded, ps, n, d));
            assert(pages_to_write@.contains(d as u8));
        } else {
            assert(page_selected(padded, ps, n, 0));
            assert(pages_to_write@.contains(0u8));
        }
        assert(pages_to_write@.len() > 0);
    }
    FlashPlan { target_address, padded_binary, page_size, pages_to_write }
}

} // verus!
