//! Pages of a list of matches, and the (page, row) cursor that moves over them.
use vstd::arithmetic::div_mod::{lemma_fundamental_div_mod, lemma_fundamental_div_mod_converse};
use vstd::arithmetic::mul::{lemma_mul_inequality, lemma_mul_is_distributive_add_other_way};
use vstd::prelude::*;

verus! {

/// Number of pages needed to show `match_count` rows with `capacity` rows per
/// page: the ceiling of their quotient, and no page at all for no rows.
pub open spec fn page_count(match_count: int, capacity: int) -> int {
    if match_count <= 0 {
        0
    } else {
        (match_count - 1) / capacity + 1
    }
}

/// The half-open range of positions that page `page` shows. A page past the end
/// shows nothing; the last page may be shorter than `capacity`.
pub open spec fn page_bounds(match_count: int, page: int, capacity: int) -> (int, int) {
    let start = page * capacity;
    if start >= match_count {
        (match_count, match_count)
    } else if match_count - start < capacity {
        (start, match_count)
    } else {
        (start, start + capacity)
    }
}

/// Number of rows that page `page` shows.
pub open spec fn page_len(match_count: int, page: int, capacity: int) -> int {
    page_bounds(match_count, page, capacity).1 - page_bounds(match_count, page, capacity).0
}

/// Rows shown by the pages `0 .. pages`, added up.
pub open spec fn rows_in_pages(match_count: int, capacity: int, pages: int) -> int
    decreases pages,
{
    if pages <= 0 {
        0
    } else {
        rows_in_pages(match_count, capacity, pages - 1) + page_len(match_count, pages - 1, capacity)
    }
}

/// The highlighted row: a page, and a row inside that page.
#[derive(Clone, Copy, Debug, PartialEq, Eq, Structural)]
pub struct Cursor {
    pub page: usize,
    pub index: usize,
}

impl Cursor {
    /// Position of the highlighted row in the whole list of matches.
    pub open spec fn position(self, capacity: int) -> int {
        self.page * capacity + self.index
    }

    /// With no matches the cursor rests at `(0, 0)`; otherwise it names a row
    /// of its page and a position inside the list.
    pub open spec fn valid(self, capacity: int, match_count: int) -> bool {
        if match_count <= 0 {
            self.page == 0 && self.index == 0
        } else {
            self.index < capacity && self.position(capacity) < match_count
        }
    }

    /// The cursor on the first row of the first page.
    pub fn start() -> (r: Cursor)
        ensures
            r.page == 0,
            r.index == 0,
    {
        Cursor { page: 0, index: 0 }
    }
}

/// The cursor that shows `position`: its page and its row in that page.
pub open spec fn cursor_at(position: int, capacity: int) -> Cursor {
    Cursor { page: (position / capacity) as usize, index: (position % capacity) as usize }
}

/// A cursor whose row lies inside its page is fixed by its position.
pub proof fn lemma_cursor_of_position(c: Cursor, capacity: int)
    requires
        capacity > 0,
        c.index < capacity,
    ensures
        c == cursor_at(c.position(capacity), capacity),
{
    lemma_fundamental_div_mod_converse(c.position(capacity), capacity, c.page as int, c.index as int);
}

/// A page before the last one starts before the end of the list.
proof fn lemma_page_start_inside(match_count: int, page: int, capacity: int)
    requires
        capacity > 0,
        0 <= page < page_count(match_count, capacity),
    ensures
        page * capacity < match_count,
        page * capacity >= 0,
{
    let q = (match_count - 1) / capacity;
    lemma_fundamental_div_mod(match_count - 1, capacity);
    lemma_mul_inequality(page, q, capacity);
    lemma_mul_inequality(0, page, capacity);
    assert(q * capacity == capacity * q) by (nonlinear_arith);
}

/// Pages from `page_count` on start at or past the end of the list.
proof fn lemma_page_start_past(match_count: int, page: int, capacity: int)
    requires
        capacity > 0,
        match_count >= 0,
        page >= page_count(match_count, capacity),
    ensures
        page * capacity >= match_count,
{
    if match_count > 0 {
        let q = (match_count - 1) / capacity;
        lemma_fundamental_div_mod(match_count - 1, capacity);
        lemma_mul_inequality(q + 1, page, capacity);
        lemma_mul_is_distributive_add_other_way(capacity, q, 1);
        assert(q * capacity == capacity * q) by (nonlinear_arith);
    } else {
        lemma_mul_inequality(0, page, capacity);
    }
}

/// Number of pages for `match_count` rows, `capacity` rows per page.
pub fn total_pages(match_count: usize, capacity: usize) -> (r: usize)
    requires
        capacity > 0,
    ensures
        r == page_count(match_count as int, capacity as int),
{
    if match_count == 0 {
        0
    } else {
        (match_count - 1) / capacity + 1
    }
}


/// The positions `start .. end` that page `page` shows, clamped to the list:
/// never past `match_count`, and empty for a page past the end.
pub fn visible_range(match_count: usize, page: usize, capacity: usize) -> (r: (usize, usize))
    requires
        capacity > 0,
    ensures
        r.0 == page_bounds(match_count as int, page as int, capacity as int).0,
        r.1 == page_bounds(match_count as int, page as int, capacity as int).1,
        r.0 <= r.1 <= match_count,
{
    if page >= total_pages(match_count, capacity) {
        proof {
            lemma_page_start_past(match_count as int, page as int, capacity as int);
        }
        (match_count, match_count)
    } else {
        proof {
            lemma_page_start_inside(match_count as int, page as int, capacity as int);
        }
        let start = page * capacity;
        if match_count - start < capacity {
            (start, match_count)
        } else {
            (start, start + capacity)
        }
    }
}

/// The rows that page `page` of `matches` shows, in order.
pub fn visible_slice(matches: &Vec<String>, page: usize, capacity: usize) -> (r: Vec<String>)
    requires
        capacity > 0,
    ensures
        r@ == matches@.subrange(
            page_bounds(matches@.len() as int, page as int, capacity as int).0,
            page_bounds(matches@.len() as int, page as int, capacity as int).1,
        ),
{
    let (start, end) = visible_range(matches.len(), page, capacity);
    let mut out: Vec<String> = Vec::new();
    let mut k: usize = start;
    while k < end
        invariant
            start <= k <= end <= matches@.len(),
            out@ == matches@.subrange(start as int, k as int),
        decreases end - k,
    {
        out.push(matches[k].clone());
        k = k + 1;
        assert(out@ =~= matches@.subrange(start as int, k as int));
    }
    out
}


/// Moves the cursor one row down. From the last row of a full page it goes to
/// the first row of the next page; on the last match it stays where it is.
pub fn advance_down(c: Cursor, capacity: usize, match_count: usize) -> (r: Cursor)
    requires
        capacity > 0,
        c.valid(capacity as int, match_count as int),
    ensures
        r.valid(capacity as int, match_count as int),
        r.position(capacity as int) == if c.position(capacity as int) + 1 < match_count {
            c.position(capacity as int) + 1
        } else {
            c.position(capacity as int)
        },
{
    if match_count == 0 {
        return c;
    }
    let start = c.page * capacity;
    let rest = match_count - start;
    if c.index + 1 >= rest {
        c
    } else if c.index + 1 < capacity {
        Cursor { page: c.page, index: c.index + 1 }
    } else {
        proof {
            lemma_mul_is_distributive_add_other_way(capacity as int, c.page as int, 1);
            assert(c.page as int <= c.page as int * capacity as int) by (nonlinear_arith)
                requires
                    capacity as int >= 1,
                    c.page as int >= 0,
            ;
        }
        Cursor { page: c.page + 1, index: 0 }
    }
}

/// Moves the cursor one row up. From the first row of a page it goes to the
/// last row of the page before; on the first match it stays where it is.
pub fn advance_up(c: Cursor, capacity: usize, match_count: usize) -> (r: Cursor)
    requires
        capacity > 0,
        c.valid(capacity as int, match_count as int),
    ensures
        r.valid(capacity as int, match_count as int),
        r.position(capacity as int) == if c.position(capacity as int) > 0 {
            c.position(capacity as int) - 1
        } else {
            0
        },
{
    if c.index > 0 {
        Cursor { page: c.page, index: c.index - 1 }
    } else if c.page > 0 {
        proof {
            lemma_mul_is_distributive_add_other_way(capacity as int, (c.page - 1) as int, 1);
        }
        Cursor { page: c.page - 1, index: capacity - 1 }
    } else {
        c
    }
}

/// The cursor for a requested page and row. A request that names no match
/// (a row past the page, or past a short last page) is clamped to the last
/// match; with no matches the cursor is `(0, 0)`.
pub fn clamp(page: usize, index: usize, capacity: usize, match_count: usize) -> (r: Cursor)
    requires
        capacity > 0,
    ensures
        r.valid(capacity as int, match_count as int),
        (Cursor { page, index }).valid(capacity as int, match_count as int) ==> r == (Cursor {
            page,
            index,
        }),
        !(Cursor { page, index }).valid(capacity as int, match_count as int) && match_count > 0
            ==> r.position(capacity as int) == match_count - 1,
{
    if match_count == 0 {
        return Cursor { page: 0, index: 0 };
    }
    if index < capacity && page < total_pages(match_count, capacity) {
        proof {
            lemma_page_start_inside(match_count as int, page as int, capacity as int);
        }
        if index < match_count - page * capacity {
            return Cursor { page, index };
        }
    } else {
        proof {
            if index < capacity {
                lemma_page_start_past(match_count as int, page as int, capacity as int);
                lemma_mul_inequality(0, page as int, capacity as int);
            }
        }
    }
    let last = match_count - 1;
    proof {
        lemma_fundamental_div_mod(last as int, capacity as int);
        assert((last / capacity) * capacity == capacity * (last / capacity)) by (nonlinear_arith);
    }
    Cursor { page: last / capacity, index: last % capacity }
}

/// Every page shows between one row and `capacity` rows, all pages but the
/// last are full, pages past the last show nothing, and the rows of all pages
/// add up to the number of matches.
pub proof fn lemma_pages_partition(match_count: int, capacity: int)
    requires
        capacity > 0,
        match_count >= 0,
    ensures
        rows_in_pages(match_count, capacity, page_count(match_count, capacity)) == match_count,
        forall|p: int|
            0 <= p < page_count(match_count, capacity) ==> 0 < #[trigger] page_len(
                match_count,
                p,
                capacity,
            ) <= capacity,
        forall|p: int|
            0 <= p < page_count(match_count, capacity) - 1 ==> #[trigger] page_len(
                match_count,
                p,
                capacity,
            ) == capacity,
        forall|p: int|
            p >= page_count(match_count, capacity) ==> #[trigger] page_len(match_count, p, capacity)
                == 0,
{
    let n = page_count(match_count, capacity);
    assert forall|p: int| 0 <= p < n implies 0 < #[trigger] page_len(match_count, p, capacity)
        <= capacity by {
        lemma_page_start_inside(match_count, p, capacity);
    }
    assert forall|p: int| 0 <= p < n - 1 implies #[trigger] page_len(match_count, p, capacity)
        == capacity by {
        lemma_mul_is_distributive_add_other_way(capacity, p, 1);
        lemma_page_start_inside(match_count, n - 1, capacity);
        lemma_mul_inequality(p + 1, n - 1, capacity);
        lemma_page_start_inside(match_count, p, capacity);
    }
    assert forall|p: int| p >= n implies #[trigger] page_len(match_count, p, capacity) == 0 by {
        lemma_page_start_past(match_count, p, capacity);
    }
    lemma_rows_in_pages(match_count, capacity, n);
    lemma_page_start_past(match_count, n, capacity);
}

/// The first `pages` pages show the first `pages * capacity` matches, or all
/// of them when there are fewer.
proof fn lemma_rows_in_pages(match_count: int, capacity: int, pages: int)
    requires
        capacity > 0,
        match_count >= 0,
        pages >= 0,
    ensures
        rows_in_pages(match_count, capacity, pages) == if pages * capacity < match_count {
            pages * capacity
        } else {
            match_count
        },
    decreases pages,
{
    if pages > 0 {
        lemma_rows_in_pages(match_count, capacity, pages - 1);
        assert(pages * capacity == (pages - 1) * capacity + capacity) by (nonlinear_arith);
        lemma_mul_inequality(0, pages - 1, capacity);
        let a = (pages - 1) * capacity;
        assert(page_len(match_count, pages - 1, capacity) == if a >= match_count {
            0
        } else if match_count - a < capacity {
            match_count - a
        } else {
            capacity
        });
    } else {
        assert(pages * capacity == 0) by (nonlinear_arith)
            requires
                pages == 0,
        ;
    }
}

} // verus!
