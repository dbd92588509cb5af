//! Placement allocator for hardware-visible structures.
//!
//! A [`Pool`] hands out address ranges from one fixed arena. It only ever
//! moves its cursor forward, so a range that was handed out stays valid for
//! as long as the pool exists.

use vstd::arithmetic::div_mod::{
    lemma_fundamental_div_mod, lemma_mod_bound, lemma_mod_multiples_basic, lemma_mod_self_0,
};
use vstd::prelude::*;

verus! {

/// Number of bytes in the arena of the kernel's pool.
pub const POOL_SIZE: usize = 131072;

/// The multiple of `b` that follows `a`: strictly greater than `a`, also where
/// `a` is a multiple of `b` itself.
pub open spec fn spec_ceil(a: int, b: int) -> int {
    a + b - a % b
}

/// Where a cursor stands after it was moved forward for an alignment.
pub open spec fn aligned_cursor(cursor: int, alignment: int) -> int {
    if alignment > 0 {
        spec_ceil(cursor, alignment)
    } else {
        cursor
    }
}

/// Whether a region of `length` bytes at `start` reaches beyond the multiple
/// of `boundary` that follows `start`.
pub open spec fn straddles(start: int, length: int, boundary: int) -> bool {
    boundary > 0 && spec_ceil(start, boundary) < start + length
}

/// The start address of a region requested with the cursor at `cursor`.
pub open spec fn placement(cursor: int, length: int, alignment: int, boundary: int) -> int {
    let start = aligned_cursor(cursor, alignment);
    if straddles(start, length, boundary) {
        spec_ceil(start, boundary)
    } else {
        start
    }
}

/// One request to a pool.
pub struct Demand {
    pub length: usize,
    pub alignment: usize,
    pub boundary: usize,
}

impl Demand {
    /// The start address this demand would be given with the cursor at `cursor`.
    pub open spec fn start(self, cursor: int) -> int {
        placement(cursor, self.length as int, self.alignment as int, self.boundary as int)
    }

    /// Whether the demand can be served from an arena that ends at `end`.
    pub open spec fn fits(self, cursor: int, end: int) -> bool {
        self.start(cursor) + self.length <= end
    }

    /// The cursor after the demand was handled, served or not.
    pub open spec fn cursor_after(self, cursor: int, end: int) -> int {
        if self.fits(cursor, end) {
            self.start(cursor) + self.length
        } else if self.start(cursor) <= usize::MAX {
            self.start(cursor)
        } else {
            usize::MAX as int
        }
    }
}

/// The cursor after the first `n` of `demands` were handled in order.
pub open spec fn cursor_after_all(cursor: int, end: int, demands: Seq<Demand>, n: int) -> int
    decreases n,
{
    if n <= 0 {
        cursor
    } else {
        demands[n - 1].cursor_after(cursor_after_all(cursor, end, demands, n - 1), end)
    }
}

/// Computes the multiple of `b` that follows `a`.
pub fn ceil(a: usize, b: usize) -> (r: usize)
    requires
        b > 0,
        spec_ceil(a as int, b as int) <= usize::MAX,
    ensures
        r == spec_ceil(a as int, b as int),
        r > a,
        r - a <= b,
{
    a + (b - a % b)
}

/// A fixed arena with a cursor that only moves forward.
pub struct Pool {
    base: usize,
    size: usize,
    cursor: usize,
}

impl Pool {
    /// The arena lies inside the address space and the cursor is not before it.
    pub closed spec fn wf(&self) -> bool {
        &&& self.base + self.size <= usize::MAX
        &&& self.base <= self.cursor
    }

    /// Address of the arena's first byte.
    pub closed spec fn spec_base(&self) -> int {
        self.base as int
    }

    /// Address just past the arena's last byte.
    pub closed spec fn spec_end(&self) -> int {
        self.base + self.size
    }

    /// Address the next region is placed from.
    pub closed spec fn spec_cursor(&self) -> int {
        self.cursor as int
    }

    /// A pool over the `size` bytes that start at `base`, with nothing handed out.
    pub fn new(base: usize, size: usize) -> (pool: Pool)
        requires
            base + size <= usize::MAX,
        ensures
            pool.wf(),
            pool.spec_base() == base,
            pool.spec_end() == base + size,
            pool.spec_cursor() == base,
    {
        Pool { base, size, cursor: base }
    }

    /// Address of the arena's first byte.
    pub fn base(&self) -> (r: usize)
        ensures
            r == self.spec_base(),
    {
        self.base
    }

    /// Address the next region is placed from.
    pub fn cursor(&self) -> (r: usize)
        ensures
            r == self.spec_cursor(),
    {
        self.cursor
    }

    /// Hands out `length` bytes and returns their start address.
    ///
    /// The cursor first moves to the multiple of `alignment` that follows it
    /// (if `alignment > 0`). If `boundary > 0` and the region would reach past
    /// the multiple of `boundary` that follows the cursor, the region starts
    /// at that multiple. The request fails exactly when the region would end
    /// past the arena; the cursor then keeps the place it had moved to.
    pub fn allocate(&mut self, length: usize, alignment: usize, boundary: usize) -> (r: Option<usize>)
        requires
            old(self).wf(),
        ensures
            final(self).wf(),
            final(self).spec_base() == old(self).spec_base(),
            final(self).spec_end() == old(self).spec_end(),
            old(self).spec_base() <= old(self).spec_cursor() <= final(self).spec_cursor(),
            final(self).spec_end() <= usize::MAX,
            ({
                let d = Demand { length, alignment, boundary };
                let cursor = old(self).spec_cursor();
                let end = old(self).spec_end();
                &&& d.fits(cursor, end) ==> r.is_some() && r.unwrap() == d.start(cursor)
                &&& !d.fits(cursor, end) ==> r.is_none()
                &&& final(self).spec_cursor() == d.cursor_after(cursor, end)
            }),
    {
        let mut cursor: usize = self.cursor;
        if alignment > 0 {
            let pad: usize = alignment - cursor % alignment;
            match cursor.checked_add(pad) {
                Some(next) => {
                    cursor = next;
                },
                None => {
                    self.cursor = usize::MAX;
                    return None;
                },
            }
        }
        if boundary > 0 {
            let pad: usize = boundary - cursor % boundary;
            if pad < length {
                match cursor.checked_add(pad) {
                    Some(next) => {
                        cursor = next;
                    },
                    None => {
                        self.cursor = usize::MAX;
                        return None;
                    },
                }
            }
        }
        self.place(cursor, length)
    }

    /// Hands out room for `count` elements of `element_size` bytes each, as
    /// [`Pool::allocate`] does for their total length. Where that length does
    /// not fit the address space nothing is handed out and the pool stays as
    /// it was.
    pub fn allocate_slice(
        &mut self,
        count: usize,
        element_size: usize,
        alignment: usize,
        boundary: usize,
    ) -> (r: Option<usize>)
        requires
            old(self).wf(),
        ensures
            final(self).wf(),
            final(self).spec_base() == old(self).spec_base(),
            final(self).spec_end() == old(self).spec_end(),
            old(self).spec_base() <= old(self).spec_cursor() <= final(self).spec_cursor(),
            final(self).spec_end() <= usize::MAX,
            count * element_size > usize::MAX ==> r.is_none() && final(self).spec_cursor() == old(
                self,
            ).spec_cursor(),
            count * element_size <= usize::MAX ==> ({
                let d = Demand { length: (count * element_size) as usize, alignment, boundary };
                let cursor = old(self).spec_cursor();
                let end = old(self).spec_end();
                &&& d.fits(cursor, end) ==> r.is_some() && r.unwrap() == d.start(cursor)
                &&& !d.fits(cursor, end) ==> r.is_none()
                &&& final(self).spec_cursor() == d.cursor_after(cursor, end)
            }),
    {
        match count.checked_mul(element_size) {
            Some(length) => self.allocate(length, alignment, boundary),
            None => None,
        }
    }

    /// Ends a request whose start address is settled.
    fn place(&mut self, cursor: usize, length: usize) -> (r: Option<usize>)
        requires
            old(self).wf(),
            old(self).cursor <= cursor,
        ensures
            final(self).wf(),
            final(self).base == old(self).base,
            final(self).size == old(self).size,
            cursor + length <= old(self).base + old(self).size ==> r == Some(cursor)
                && final(self).cursor == cursor + length,
            cursor + length > old(self).base + old(self).size ==> r.is_none() && final(self).cursor
                == cursor,
    {
        let end: usize = self.base + self.size;
        match cursor.checked_add(length) {
            Some(stop) => {
                if stop <= end {
                    self.cursor = stop;
                    Some(cursor)
                } else {
                    self.cursor = cursor;
                    None
                }
            },
            None => {
                self.cursor = cursor;
                None
            },
        }
    }
}

/// The multiple that follows a cursor is a multiple, lies past the cursor and
/// at most one step away.
pub proof fn lemma_ceil_is_next_multiple(a: int, b: int)
    requires
        b > 0,
    ensures
        spec_ceil(a, b) % b == 0,
        a < spec_ceil(a, b) <= a + b,
{
    lemma_fundamental_div_mod(a, b);
    assert(spec_ceil(a, b) == (a / b + 1) * b) by (nonlinear_arith)
        requires
            a == b * (a / b) + a % b,
            spec_ceil(a, b) == a + b - a % b,
    ;
    lemma_mod_multiples_basic(a / b + 1, b);
    lemma_mod_bound(a, b);
}

/// A multiple of a multiple of `m` is a multiple of `m`.
proof fn lemma_multiple_of_multiple(x: int, b: int, m: int)
    requires
        m > 0,
        b > 0,
        b % m == 0,
        x % b == 0,
    ensures
        x % m == 0,
{
    lemma_fundamental_div_mod(x, b);
    lemma_fundamental_div_mod(b, m);
    assert(x == m * ((b / m) * (x / b))) by (nonlinear_arith)
        requires
            x == b * (x / b) + x % b,
            b == m * (b / m) + b % m,
            x % b == 0,
            b % m == 0,
    ;
    lemma_mod_multiples_basic((b / m) * (x / b), m);
    assert(m * ((b / m) * (x / b)) == ((b / m) * (x / b)) * m) by (nonlinear_arith);
}

/// Every start address is a multiple of the requested alignment, provided
/// that the boundary is itself a multiple of the alignment wherever the
/// region is moved to one.
pub proof fn lemma_start_is_aligned(cursor: int, length: int, alignment: int, boundary: int)
    requires
        alignment > 0,
        straddles(aligned_cursor(cursor, alignment), length, boundary) ==> boundary % alignment
            == 0,
    ensures
        placement(cursor, length, alignment, boundary) % alignment == 0,
{
    let start = aligned_cursor(cursor, alignment);
    lemma_ceil_is_next_multiple(cursor, alignment);
    if straddles(start, length, boundary) {
        lemma_ceil_is_next_multiple(start, boundary);
        lemma_multiple_of_multiple(spec_ceil(start, boundary), boundary, alignment);
    }
}

/// Where the region placed at the aligned cursor would reach past the next
/// multiple of the boundary, it starts exactly at that multiple.
pub proof fn lemma_start_on_boundary(cursor: int, length: int, alignment: int, boundary: int)
    requires
        straddles(aligned_cursor(cursor, alignment), length, boundary),
    ensures
        placement(cursor, length, alignment, boundary) == spec_ceil(
            aligned_cursor(cursor, alignment),
            boundary,
        ),
        placement(cursor, length, alignment, boundary) % boundary == 0,
{
    lemma_ceil_is_next_multiple(aligned_cursor(cursor, alignment), boundary);
}

/// A region no longer than the boundary never reaches past the multiple of the
/// boundary that follows its start.
pub proof fn lemma_region_within_boundary(cursor: int, length: int, alignment: int, boundary: int)
    requires
        boundary > 0,
        0 <= length <= boundary,
    ensures
        !straddles(placement(cursor, length, alignment, boundary), length, boundary),
{
    let start = aligned_cursor(cursor, alignment);
    let p = placement(cursor, length, alignment, boundary);
    lemma_ceil_is_next_multiple(start, boundary);
    if straddles(start, length, boundary) {
        lemma_mod_self_0(boundary);
        assert(p % boundary == 0);
        assert(spec_ceil(p, boundary) == p + boundary);
    }
}

/// A region starts at or after the cursor it was requested at.
pub proof fn lemma_start_not_before_cursor(cursor: int, length: int, alignment: int, boundary: int)
    ensures
        cursor <= placement(cursor, length, alignment, boundary),
{
    let start = aligned_cursor(cursor, alignment);
    if alignment > 0 {
        lemma_ceil_is_next_multiple(cursor, alignment);
    }
    if boundary > 0 {
        lemma_ceil_is_next_multiple(start, boundary);
    }
}

/// Handling a demand never moves the cursor back, and a demand that is served
/// lies between the old cursor and the new one, inside the arena.
pub proof fn lemma_cursor_advances(d: Demand, cursor: int, end: int)
    requires
        cursor <= usize::MAX,
        end <= usize::MAX,
    ensures
        cursor <= d.cursor_after(cursor, end) <= usize::MAX,
        d.fits(cursor, end) ==> cursor <= d.start(cursor) && d.start(cursor) + d.length
            == d.cursor_after(cursor, end) && d.cursor_after(cursor, end) <= end,
{
    lemma_start_not_before_cursor(cursor, d.length as int, d.alignment as int, d.boundary as int);
}

/// The cursor only grows along a sequence of demands.
pub proof fn lemma_cursor_monotonic(cursor: int, end: int, demands: Seq<Demand>, i: int, j: int)
    requires
        cursor <= usize::MAX,
        end <= usize::MAX,
        0 <= i <= j <= demands.len(),
    ensures
        cursor <= cursor_after_all(cursor, end, demands, i) <= cursor_after_all(
            cursor,
            end,
            demands,
            j,
        ) <= usize::MAX,
    decreases j,
{
    if i < j {
        lemma_cursor_monotonic(cursor, end, demands, i, j - 1);
        lemma_cursor_advances(demands[j - 1], cursor_after_all(cursor, end, demands, j - 1), end);
    } else if i > 0 {
        lemma_cursor_monotonic(cursor, end, demands, i - 1, i - 1);
        lemma_cursor_advances(demands[i - 1], cursor_after_all(cursor, end, demands, i - 1), end);
    }
}

/// Two demands of one sequence that were both served got regions that do not
/// overlap: the earlier one ends where the later one starts, or before. Both
/// lie inside the arena.
pub proof fn lemma_regions_disjoint(cursor: int, end: int, demands: Seq<Demand>, i: int, j: int)
    requires
        cursor <= usize::MAX,
        end <= usize::MAX,
        0 <= i < j < demands.len(),
        demands[i].fits(cursor_after_all(cursor, end, demands, i), end),
        demands[j].fits(cursor_after_all(cursor, end, demands, j), end),
    ensures
        cursor <= demands[i].start(cursor_after_all(cursor, end, demands, i)),
        demands[i].start(cursor_after_all(cursor, end, demands, i)) + demands[i].length
            <= demands[j].start(cursor_after_all(cursor, end, demands, j)),
        demands[j].start(cursor_after_all(cursor, end, demands, j)) + demands[j].length <= end,
{
    let ci = cursor_after_all(cursor, end, demands, i);
    let cj = cursor_after_all(cursor, end, demands, j);
    lemma_cursor_monotonic(cursor, end, demands, i, i + 1);
    lemma_cursor_monotonic(cursor, end, demands, i + 1, j);
    lemma_cursor_advances(demands[i], ci, end);
    lemma_cursor_advances(demands[j], cj, end);
    assert(cursor_after_all(cursor, end, demands, i + 1) == demands[i].cursor_after(ci, end));
}

} // verus!
