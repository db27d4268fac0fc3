use std::collections::VecDeque;
use vstd::prelude::*;

verus! {

/// Rows that a line of `len` characters takes when wrapped at `width` columns.
pub open spec fn rows_of(len: int, width: int) -> int {
    1 + len / width
}

/// Sum of the wrapped rows of all `lines` at `width`.
pub open spec fn total_rows(lines: Seq<Seq<char>>, width: int) -> int
    decreases lines.len(),
{
    if lines.len() == 0 {
        0
    } else {
        total_rows(lines.drop_last(), width) + rows_of(lines.last().len() as int, width)
    }
}

/// Index of the oldest line that stays when the newest lines are kept while
/// their rows fit in `budget`.
pub open spec fn keep_from(lines: Seq<Seq<char>>, width: int, budget: int) -> int
    decreases lines.len(),
{
    if lines.len() == 0 {
        0
    } else if rows_of(lines.last().len() as int, width) > budget {
        lines.len() as int
    } else {
        keep_from(lines.drop_last(), width, budget - rows_of(lines.last().len() as int, width))
    }
}

/// The newest lines whose rows fit in `area`: what is left once the oldest
/// lines have been evicted one by one until the rest fits.
pub open spec fn retained(lines: Seq<Seq<char>>, width: int, area: int) -> Seq<Seq<char>> {
    lines.subrange(keep_from(lines, width, area), lines.len() as int)
}

proof fn lemma_keep_from_bounds(lines: Seq<Seq<char>>, width: int, budget: int)
    requires
        width > 0,
    ensures
        0 <= keep_from(lines, width, budget) <= lines.len(),
    decreases lines.len(),
{
    if lines.len() > 0 {
        lemma_keep_from_bounds(
            lines.drop_last(),
            width,
            budget - rows_of(lines.last().len() as int, width),
        );
    }
}

/// A line always takes at least one row.
pub proof fn lemma_rows_positive(len: int, width: int)
    requires
        len >= 0,
        width > 0,
    ensures
        rows_of(len, width) >= 1,
{
    assert(len / width >= 0) by (nonlinear_arith)
        requires
            len >= 0,
            width > 0,
    ;
}

/// The rows of the first `i` lines never exceed those of all lines.
pub proof fn lemma_prefix_rows(lines: Seq<Seq<char>>, width: int, i: int)
    requires
        width > 0,
        0 <= i <= lines.len(),
    ensures
        0 <= total_rows(lines.subrange(0, i), width) <= total_rows(lines, width),
    decreases lines.len(),
{
    if lines.len() > 0 {
        lemma_rows_positive(lines.last().len() as int, width);
        if i == lines.len() {
            assert(lines.subrange(0, i) =~= lines);
            lemma_prefix_rows(lines.drop_last(), width, i - 1);
            assert(lines.drop_last().subrange(0, i - 1) =~= lines.subrange(0, i).drop_last());
        } else {
            lemma_prefix_rows(lines.drop_last(), width, i);
            assert(lines.drop_last().subrange(0, i) =~= lines.subrange(0, i));
        }
    } else {
        assert(lines.subrange(0, i) =~= lines);
    }
}

/// Whatever lines were appended, the rows of the lines that stay never
/// exceed the output region.
pub proof fn lemma_retained_fits(lines: Seq<Seq<char>>, width: int, area: int)
    requires
        width > 0,
        area >= 0,
    ensures
        total_rows(retained(lines, width, area), width) <= area,
    decreases lines.len(),
{
    let kept = retained(lines, width, area);
    if lines.len() == 0 {
        assert(kept =~= Seq::<Seq<char>>::empty());
    } else {
        let r = rows_of(lines.last().len() as int, width);
        if r > area {
            assert(kept =~= Seq::<Seq<char>>::empty());
        } else {
            let rest = lines.drop_last();
            lemma_retained_fits(rest, width, area - r);
            lemma_keep_from_bounds(rest, width, area - r);
            assert(kept.drop_last() =~= retained(rest, width, area - r));
            assert(kept.last() == lines.last());
        }
    }
}

/// Eviction is first in, first out: the lines that stay are the newest ones,
/// in their order, and the evicted ones are all older than any that stays.
pub proof fn lemma_eviction_is_fifo(lines: Seq<Seq<char>>, width: int, area: int)
    requires
        width > 0,
    ensures
        exists|k: int|
            0 <= k <= lines.len() && #[trigger] lines.subrange(k, lines.len() as int) == retained(
                lines,
                width,
                area,
            ),
{
    lemma_keep_from_bounds(lines, width, area);
    let k = keep_from(lines, width, area);
    assert(lines.subrange(k, lines.len() as int) == retained(lines, width, area));
}

/// Number of characters in `input`.
pub fn string_to_char_length(input: &String) -> (r: usize)
    ensures
        r == input@.len(),
{
    input.as_str().unicode_len()
}

/// Rows that `line` takes when wrapped at `width` columns.
pub fn row_count(line: &str, width: i16) -> (r: usize)
    requires
        width > 0,
        line@.len() < usize::MAX,
    ensures
        r == rows_of(line@.len() as int, width as int),
{
    let n = line.unicode_len();
    n / (width as usize) + 1
}

/// Chronological history of displayed lines, oldest first.
pub struct ScrollbackBuffer {
    lines: VecDeque<String>,
}

impl ScrollbackBuffer {
    pub closed spec fn lines(&self) -> Seq<Seq<char>> {
        self.lines@.map_values(|s: String| s@)
    }

    pub fn new() -> (r: ScrollbackBuffer)
        ensures
            r.lines() == Seq::<Seq<char>>::empty(),
    {
        let r = ScrollbackBuffer { lines: VecDeque::new() };
        assert(r.lines() =~= Seq::<Seq<char>>::empty());
        r
    }

    pub fn len(&self) -> (r: usize)
        ensures
            r == self.lines().len(),
    {
        self.lines.len()
    }

    /// The line at position `i`, oldest first.
    pub fn line(&self, i: usize) -> (r: &String)
        requires
            i < self.lines().len(),
        ensures
            r@ == self.lines()[i as int],
    {
        &self.lines[i]
    }

    /// Index of the oldest line that is kept at this geometry.
    fn keep_index(&self, width: i16, area: i32) -> (k: usize)
        requires
            width > 0,
        ensures
            k as int == keep_from(self.lines(), width as int, area as int),
    {
        let ghost all = self.lines();
        let mut i: usize = self.lines.len();
        let mut budget: i32 = area;
        assert(all.subrange(0, i as int) =~= all);
        while i > 0
            invariant
                i <= self.lines@.len(),
                all == self.lines(),
                width > 0,
                keep_from(all, width as int, area as int) == keep_from(
                    all.subrange(0, i as int),
                    width as int,
                    budget as int,
                ),
            decreases i,
        {
            let ghost pre = all.subrange(0, i as int);
            assert(pre.drop_last() =~= all.subrange(0, i - 1));
            assert(pre.last() == self.lines@[i - 1]@);
            let q: usize = self.lines[i - 1].as_str().unicode_len() / (width as usize);
            if budget <= 0 || q >= budget as usize {
                return i;
            }
            budget = budget - (q as i32 + 1);
            i = i - 1;
        }
        assert(all.subrange(0, 0) =~= Seq::<Seq<char>>::empty());
        0
    }

    /// Evicts the oldest lines until the rest fits in `area` rows at `width`.
    pub fn fit(&mut self, width: i16, area: i32)
        requires
            width > 0,
        ensures
            final(self).lines() == retained(old(self).lines(), width as int, area as int),
    {
        let ghost start = self.lines@;
        let k = self.keep_index(width, area);
        proof {
            lemma_keep_from_bounds(self.lines(), width as int, area as int);
        }
        let mut j: usize = 0;
        while j < k
            invariant
                j <= k,
                k <= start.len(),
                self.lines@ == start.subrange(j as int, start.len() as int),
            decreases k - j,
        {
            let _ = self.lines.pop_front();
            j = j + 1;
        }
        assert(self.lines() =~= retained(
            start.map_values(|s: String| s@),
            width as int,
            area as int,
        ));
    }

    /// Appends `line` as the newest, then evicts the oldest lines until the
    /// rest fits in `area` rows at `width`.
    pub fn append(&mut self, line: String, width: i16, area: i32)
        requires
            width > 0,
        ensures
            final(self).lines() == retained(
                old(self).lines().push(line@),
                width as int,
                area as int,
            ),
    {
        self.lines.push_back(line);
        assert(self.lines() =~= old(self).lines().push(line@));
        self.fit(width, area);
    }
}

} // verus!
