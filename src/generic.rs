use vstd::prelude::*;
use crate::dezoomer::{DezoomerError, DezoomerInput, TileFetchResult, TileReference, Vec2d};
use crate::text::{contains_str, decimal, decimal_string, occurs_in, replace_all, replaced};

verus! {

/// Phase of the grid discovery.
#[derive(Clone, Copy, Debug, PartialEq, Eq, Structural)]
pub enum Stage {
    /// Nothing has been learned yet.
    Init,
    /// Row 0 grows one column at a time; `current_x` is the column probed last.
    FirstLine { current_x: u32 },
    /// The width is known (columns `0..=max_x`); rows grow one at a time and
    /// `current_y` is the row probed last.
    NextLines { max_x: u32, current_y: u32 },
}

/// The column placeholder of an address template.
pub open spec fn x_token() -> Seq<char> {
    seq!['{', '{', 'X', '}', '}']
}

/// The row placeholder of an address template.
pub open spec fn y_token() -> Seq<char> {
    seq!['{', '{', 'Y', '}', '}']
}

/// The address of cell `(x, y)`: both placeholders replaced by the decimal indices.
pub open spec fn tile_url(template: Seq<char>, x: nat, y: nat) -> Seq<char> {
    replaced(replaced(template, x_token(), decimal(x)), y_token(), decimal(y))
}

/// The tile size in use: zero until one is known.
pub open spec fn size_or_zero(size: Option<Vec2d>) -> Vec2d {
    match size {
        Some(s) => s,
        None => Vec2d { x: 0, y: 0 },
    }
}

/// Cells `(0, y) .. (max_x, y)`, in order.
pub open spec fn row_coords(max_x: int, y: int) -> Seq<(int, int)> {
    Seq::new((max_x + 1) as nat, |i: int| (i, y))
}

/// The cells that the engine asks for next, from its stage and the outcome of
/// the previous batch.
pub open spec fn next_coords(stage: Stage, previous: Option<TileFetchResult>) -> Seq<(int, int)> {
    match previous {
        None => seq![(0int, 0int)],
        Some(res) => match stage {
            Stage::Init => if res.succeeded() {
                seq![(1int, 0int)]
            } else {
                Seq::empty()
            },
            Stage::FirstLine { current_x } => if res.succeeded() {
                seq![(current_x + 1, 0int)]
            } else {
                row_coords(current_x - 1, 1)
            },
            Stage::NextLines { max_x, current_y } => if res.succeeded() {
                row_coords(max_x as int, current_y + 1)
            } else {
                Seq::empty()
            },
        },
    }
}

/// The stage that follows `stage` once `previous` is received.
pub open spec fn next_stage(stage: Stage, previous: Option<TileFetchResult>) -> Stage {
    match previous {
        None => stage,
        Some(res) => match stage {
            Stage::Init => if res.succeeded() {
                Stage::FirstLine { current_x: 1 }
            } else {
                stage
            },
            Stage::FirstLine { current_x } => if res.succeeded() {
                Stage::FirstLine { current_x: (current_x + 1) as u32 }
            } else {
                Stage::NextLines { max_x: (current_x - 1) as u32, current_y: 1 }
            },
            Stage::NextLines { max_x, current_y } => if res.succeeded() {
                Stage::NextLines { max_x, current_y: (current_y + 1) as u32 }
            } else {
                stage
            },
        },
    }
}

/// The tile size known after `previous`: taken from the first successful
/// outcome, and kept from then on.
pub open spec fn next_tile_size(
    stage: Stage,
    size: Option<Vec2d>,
    previous: Option<TileFetchResult>,
) -> Option<Vec2d> {
    match (previous, stage) {
        (Some(res), Stage::Init) => if res.succeeded() {
            res.tile_size
        } else {
            size
        },
        _ => size,
    }
}

impl TileReference {
    /// This reference is cell `c` of `template`, placed with tile size `size`.
    pub open spec fn refers_to(&self, template: Seq<char>, c: (int, int), size: Option<Vec2d>) -> bool {
        &&& c.0 >= 0 && c.1 >= 0
        &&& self.url@ == tile_url(template, c.0 as nat, c.1 as nat)
        &&& self.position.x == c.0 * size_or_zero(size).x
        &&& self.position.y == c.1 * size_or_zero(size).y
    }
}

/// Cell `c` lies in the `w` by `h` grid.
pub open spec fn in_grid(c: (int, int), w: int, h: int) -> bool {
    0 <= c.0 < w && 0 <= c.1 < h
}

/// How many cells of `s` lie in the `w` by `h` grid.
pub open spec fn count_in_grid(s: Seq<(int, int)>, w: int, h: int) -> nat
    decreases s.len(),
{
    if s.len() == 0 {
        0
    } else {
        count_in_grid(s.drop_last(), w, h) + if in_grid(s.last(), w, h) {
            1nat
        } else {
            0nat
        }
    }
}

/// The outcome that a host reports for `batch` when exactly the cells of the
/// `w` by `h` grid exist, each of pixel size `size`.
pub open spec fn grid_outcome(batch: Seq<(int, int)>, w: int, h: int, size: Vec2d) -> TileFetchResult {
    TileFetchResult {
        count: batch.len() as u64,
        successes: count_in_grid(batch, w, h) as u64,
        tile_size: Some(size),
    }
}

/// Rows `lo .. hi` of a grid `w` wide, row after row.
pub open spec fn grid_rows(w: int, lo: int, hi: int) -> Seq<(int, int)>
    decreases hi - lo,
{
    if lo >= hi {
        Seq::empty()
    } else {
        row_coords(w - 1, lo) + grid_rows(w, lo + 1, hi)
    }
}

/// Drives the engine from `stage`, answering each batch as a host would for
/// the `w` by `h` grid, for at most `fuel` batches. Gives the cells of the
/// batches that succeeded, whether an empty batch ended the run, and the
/// stage reached.
pub open spec fn discovery(
    stage: Stage,
    previous: Option<TileFetchResult>,
    w: int,
    h: int,
    size: Vec2d,
    fuel: nat,
) -> (Seq<(int, int)>, bool, Stage)
    decreases fuel,
{
    let batch = next_coords(stage, previous);
    if batch.len() == 0 {
        (Seq::empty(), true, stage)
    } else if fuel == 0 {
        (Seq::empty(), false, stage)
    } else {
        let res = grid_outcome(batch, w, h, size);
        let rest = discovery(next_stage(stage, previous), Some(res), w, h, size, (fuel - 1) as nat);
        (if res.succeeded() {
            batch + rest.0
        } else {
            rest.0
        }, rest.1, rest.2)
    }
}

proof fn lemma_count_in_grid(s: Seq<(int, int)>, w: int, h: int)
    ensures
        count_in_grid(s, w, h) <= s.len(),
        count_in_grid(s, w, h) == s.len() <==> forall|i: int| 0 <= i < s.len() ==> in_grid(#[trigger] s[i], w, h),
    decreases s.len(),
{
    if s.len() > 0 {
        lemma_count_in_grid(s.drop_last(), w, h);
        if count_in_grid(s, w, h) == s.len() {
            assert forall|i: int| 0 <= i < s.len() implies in_grid(#[trigger] s[i], w, h) by {
                if i < s.len() - 1 {
                    assert(s.drop_last()[i] == s[i]);
                }
            }
        }
        if forall|i: int| 0 <= i < s.len() ==> in_grid(#[trigger] s[i], w, h) {
            assert forall|i: int| 0 <= i < s.drop_last().len() implies in_grid(#[trigger] s.drop_last()[i], w, h) by {
                assert(s.drop_last()[i] == s[i]);
            }
            assert(in_grid(s[s.len() - 1], w, h));
        }
    }
}

proof fn lemma_row_outcome(w: int, h: int, y: int, size: Vec2d)
    requires
        1 <= w <= u32::MAX,
        0 <= y,
    ensures
        grid_outcome(row_coords(w - 1, y), w, h, size).succeeded() <==> y < h,
{
    let s = row_coords(w - 1, y);
    lemma_count_in_grid(s, w, h);
    if y >= h {
        assert(!in_grid(s[0], w, h));
    }
}

proof fn lemma_cell_outcome(w: int, h: int, x: int, size: Vec2d)
    requires
        1 <= h,
        0 <= x,
    ensures
        grid_outcome(seq![(x, 0int)], w, h, size).succeeded() <==> x < w,
{
    let s = seq![(x, 0int)];
    lemma_count_in_grid(s, w, h);
    assert(s[0] == (x, 0int));
}

proof fn lemma_grid_rows_len(w: int, lo: int, hi: int)
    requires
        1 <= w,
        lo <= hi,
    ensures
        grid_rows(w, lo, hi).len() == (hi - lo) * w,
    decreases hi - lo,
{
    if lo < hi {
        lemma_grid_rows_len(w, lo + 1, hi);
        assert(row_coords(w - 1, lo).len() == w);
        assert((hi - lo) * w == w + (hi - (lo + 1)) * w) by (nonlinear_arith);
    } else {
        assert((hi - lo) * w == 0) by (nonlinear_arith)
            requires
                lo == hi,
        ;
    }
}

proof fn lemma_next_lines(w: int, h: int, r: int, size: Vec2d, fuel: nat)
    requires
        1 <= w <= u32::MAX,
        1 <= h <= u32::MAX,
        1 <= r <= h,
        fuel >= h - r,
    ensures
        discovery(
            Stage::NextLines { max_x: (w - 1) as u32, current_y: r as u32 },
            Some(grid_outcome(row_coords(w - 1, r), w, h, size)),
            w,
            h,
            size,
            fuel,
        ) == (grid_rows(w, r + 1, h), true, Stage::NextLines { max_x: (w - 1) as u32, current_y: h as u32 }),
    decreases h - r,
{
    let stage = Stage::NextLines { max_x: (w - 1) as u32, current_y: r as u32 };
    let prev = Some(grid_outcome(row_coords(w - 1, r), w, h, size));
    lemma_row_outcome(w, h, r, size);
    if r < h {
        let batch = next_coords(stage, prev);
        assert(batch == row_coords(w - 1, r + 1));
        lemma_row_outcome(w, h, r + 1, size);
        lemma_next_lines(w, h, r + 1, size, (fuel - 1) as nat);
        assert(next_stage(stage, prev) == Stage::NextLines { max_x: (w - 1) as u32, current_y: (r + 1) as u32 });
        if r + 1 < h {
            assert(grid_rows(w, r + 1, h) == row_coords(w - 1, r + 1) + grid_rows(w, r + 2, h));
        }
    }
}

proof fn lemma_first_line(w: int, h: int, k: int, size: Vec2d, fuel: nat)
    requires
        1 <= w <= u32::MAX,
        1 <= h <= u32::MAX,
        1 <= k <= w,
        fuel >= (w - k) + h,
    ensures
        discovery(
            Stage::FirstLine { current_x: k as u32 },
            Some(grid_outcome(seq![(k, 0int)], w, h, size)),
            w,
            h,
            size,
            fuel,
        ) == (row_span(k + 1, w) + grid_rows(w, 1, h), true, Stage::NextLines { max_x: (w - 1) as u32, current_y: h as u32 }),
    decreases w - k,
{
    let stage = Stage::FirstLine { current_x: k as u32 };
    let prev = Some(grid_outcome(seq![(k, 0int)], w, h, size));
    lemma_cell_outcome(w, h, k, size);
    if k < w {
        let batch = next_coords(stage, prev);
        assert(batch == seq![(k + 1, 0int)]);
        lemma_cell_outcome(w, h, k + 1, size);
        lemma_first_line(w, h, k + 1, size, (fuel - 1) as nat);
        if k + 1 < w {
            assert(seq![(k + 1, 0int)] + row_span(k + 2, w) =~= row_span(k + 1, w));
            assert(seq![(k + 1, 0int)] + (row_span(k + 2, w) + grid_rows(w, 1, h))
                =~= row_span(k + 1, w) + grid_rows(w, 1, h));
        } else {
            assert(row_span(k + 2, w) =~= row_span(k + 1, w));
        }
    } else {
        let batch = next_coords(stage, prev);
        assert(batch == row_coords(w - 1, 1));
        lemma_row_outcome(w, h, 1, size);
        lemma_next_lines(w, h, 1, size, (fuel - 1) as nat);
        assert(row_span(k + 1, w) =~= Seq::<(int, int)>::empty());
        assert(row_span(k + 1, w) + grid_rows(w, 1, h) =~= grid_rows(w, 1, h));
        if 1 < h {
            assert(grid_rows(w, 1, h) == row_coords(w - 1, 1) + grid_rows(w, 2, h));
        }
    }
}

/// Cells `(lo, 0) .. (hi, 0)` of the first row.
pub open spec fn row_span(lo: int, hi: int) -> Seq<(int, int)> {
    Seq::new(if hi > lo { (hi - lo) as nat } else { 0 }, |i: int| (lo + i, 0int))
}

/// On a complete `w` by `h` grid, with success meaning that every tile of a
/// batch was found, the engine started fresh ends with an empty batch within
/// `w + h + 1` batches; the batches that succeeded hold exactly the `w * h`
/// cells of the grid, row after row; and the engine ends having fixed the
/// width at columns `0 ..= w - 1` and having probed row `h`, the first one
/// past the grid.
pub proof fn lemma_discovers_rectangle(w: int, h: int, size: Vec2d, fuel: nat)
    requires
        1 <= w <= u32::MAX,
        1 <= h <= u32::MAX,
        fuel >= w + h + 1,
    ensures
        ({
            let run = discovery(Stage::Init, None, w, h, size, fuel);
            &&& run.1
            &&& run.0 == grid_rows(w, 0, h)
            &&& run.0.len() == w * h
            &&& run.2 == Stage::NextLines { max_x: (w - 1) as u32, current_y: h as u32 }
        }),
{
    let first = seq![(0int, 0int)];
    let res0 = grid_outcome(first, w, h, size);
    lemma_count_in_grid(first, w, h);
    assert(first[0] == (0int, 0int));
    assert(next_coords(Stage::Init, None) == first);
    let f1 = (fuel - 1) as nat;
    assert(next_coords(Stage::Init, Some(res0)) == seq![(1int, 0int)]);
    lemma_cell_outcome(w, h, 1, size);
    lemma_first_line(w, h, 1, size, (f1 - 1) as nat);
    let tail = row_span(2, w) + grid_rows(w, 1, h);
    let res1 = grid_outcome(seq![(1int, 0int)], w, h, size);
    assert(next_stage(Stage::Init, Some(res0)) == Stage::FirstLine { current_x: 1 });
    let after = discovery(Stage::FirstLine { current_x: 1 }, Some(res1), w, h, size, (f1 - 1) as nat);
    assert(discovery(Stage::Init, Some(res0), w, h, size, f1) == (
        if 1 < w { seq![(1int, 0int)] + after.0 } else { after.0 },
        after.1,
        after.2,
    ));
    assert(next_stage(Stage::Init, None) == Stage::Init);
    assert(in_grid(first[0], w, h));
    assert(res0.succeeded());
    let whole = discovery(Stage::Init, Some(res0), w, h, size, f1);
    assert(discovery(Stage::Init, None, w, h, size, fuel) == (first + whole.0, whole.1, whole.2));
    if 1 < w {
        assert(first + (seq![(1int, 0int)] + tail) =~= row_span(0, w) + grid_rows(w, 1, h));
    } else {
        assert(first + tail =~= row_span(0, w) + grid_rows(w, 1, h));
    }
    assert(row_span(0, w) =~= row_coords(w - 1, 0));
    assert(grid_rows(w, 0, h) == row_coords(w - 1, 0) + grid_rows(w, 1, h));
    assert(after == (tail, true, Stage::NextLines { max_x: (w - 1) as u32, current_y: h as u32 }));
    assert(first + whole.0 == grid_rows(w, 0, h));
    lemma_grid_rows_len(w, 0, h);
    assert((h - 0) * w == w * h) by (nonlinear_arith);
}

/// Once the engine has left `Init` it never returns there, and the tile size
/// it holds stays as it is, whatever later outcomes report: every later
/// position is placed with the size recorded at the first successful fetch.
pub proof fn lemma_tile_size_kept(stage: Stage, size: Option<Vec2d>, previous: Option<TileFetchResult>)
    requires
        !(stage is Init),
    ensures
        !(next_stage(stage, previous) is Init),
        next_tile_size(stage, size, previous) == size,
{
}

/// The adaptive grid-discovery engine for one image.
pub struct ZoomLevel {
    pub url_template: String,
    pub stage: Stage,
    pub tile_size: Option<Vec2d>,
}

impl ZoomLevel {
    pub open spec fn wf(&self) -> bool {
        match self.stage {
            Stage::FirstLine { current_x } => current_x >= 1,
            _ => true,
        }
    }

    /// The next batch's cells, and their pixel positions, fit in `u32`.
    pub open spec fn step_fits(&self, previous: Option<TileFetchResult>) -> bool {
        let cs = next_coords(self.stage, previous);
        let size = size_or_zero(next_tile_size(self.stage, self.tile_size, previous));
        forall|i: int|
            0 <= i < cs.len() ==> {
                &&& #[trigger] cs[i].0 <= u32::MAX
                &&& cs[i].1 <= u32::MAX
                &&& cs[i].0 * size.x <= u32::MAX
                &&& cs[i].1 * size.y <= u32::MAX
            }
    }

    /// Whether the engine may be called with `previous`: it is well formed and
    /// the next batch's cells and positions fit in `u32`.
    pub fn can_step(&self, previous: Option<TileFetchResult>) -> (r: bool)
        ensures
            r == (self.wf() && self.step_fits(previous)),
    {
        let ghost cs = next_coords(self.stage, previous);
        if let Stage::FirstLine { current_x } = self.stage {
            if current_x < 1 {
                return false;
            }
        }
        let size = match (previous, self.stage) {
            (Some(res), Stage::Init) => if res.is_success() {
                res.tile_size
            } else {
                self.tile_size
            },
            _ => self.tile_size,
        };
        let size = match size {
            Some(s) => s,
            None => Vec2d { x: 0, y: 0 },
        };
        let ghost gsize = size_or_zero(next_tile_size(self.stage, self.tile_size, previous));
        assert(size == gsize);
        // The batch is empty, or a row `y` with cells `0..=last_x` or a single cell `(last_x, y)`.
        let (nonempty, whole_row, last_x, y): (bool, bool, u64, u64) = match previous {
            None => (true, false, 0, 0),
            Some(res) => match self.stage {
                Stage::Init => (res.is_success(), false, 1, 0),
                Stage::FirstLine { current_x } => {
                    if res.is_success() {
                        (true, false, current_x as u64 + 1, 0)
                    } else {
                        (true, true, current_x as u64 - 1, 1)
                    }
                },
                Stage::NextLines { max_x, current_y } => (
                    res.is_success(),
                    true,
                    max_x as u64,
                    current_y as u64 + 1,
                ),
            },
        };
        if !nonempty {
            assert(cs.len() == 0);
            return true;
        }
        assert(cs.len() > 0 && cs[cs.len() - 1] == (last_x as int, y as int));
        assert(forall|i: int| 0 <= i < cs.len() ==> #[trigger] cs[i].1 == y && 0 <= cs[i].0 <= last_x);
        let ghost last: int = cs.len() - 1;
        assert(cs[last].0 == last_x);
        if last_x > u32::MAX as u64 || y > u32::MAX as u64 {
            return false;
        }
        assert((last_x as int) * (size.x as int) <= (u32::MAX as int) * (u32::MAX as int)) by (nonlinear_arith)
            requires
                last_x <= u32::MAX,
                size.x <= u32::MAX,
        ;
        assert((y as int) * (size.y as int) <= (u32::MAX as int) * (u32::MAX as int)) by (nonlinear_arith)
            requires
                y <= u32::MAX,
                size.y <= u32::MAX,
        ;
        let fits = last_x * (size.x as u64) <= u32::MAX as u64 && y * (size.y as u64) <= u32::MAX as u64;
        if fits {
            assert forall|i: int| 0 <= i < cs.len() implies {
                &&& #[trigger] cs[i].0 <= u32::MAX
                &&& cs[i].1 <= u32::MAX
                &&& cs[i].0 * size.x <= u32::MAX
                &&& cs[i].1 * size.y <= u32::MAX
            } by {
                vstd::arithmetic::mul::lemma_mul_inequality(cs[i].0, last_x as int, size.x as int);
            }
        } else {
            assert(!(cs[last].0 * size.x <= u32::MAX && cs[last].1 * size.y <= u32::MAX));
        }
        fits
    }

    /// A fresh engine for `url_template`.
    pub fn new(url_template: String) -> (r: ZoomLevel)
        ensures
            r.wf(),
            r.url_template == url_template,
            r.stage == Stage::Init,
            r.tile_size is None,
    {
        ZoomLevel { url_template, stage: Stage::Init, tile_size: None }
    }

    /// The address of cell `(x, y)`.
    pub fn tile_url_at(&self, x: u32, y: u32) -> (r: String)
        ensures
            r@ == tile_url(self.url_template@, x as nat, y as nat),
    {
        proof {
            reveal_strlit("{{X}}");
            reveal_strlit("{{Y}}");
            assert("{{X}}"@ =~= x_token());
            assert("{{Y}}"@ =~= y_token());
        }
        let xs = decimal_string(x);
        let ys = decimal_string(y);
        let with_x = replace_all(self.url_template.as_str(), "{{X}}", xs.as_str());
        replace_all(with_x.as_str(), "{{Y}}", ys.as_str())
    }

    /// The reference to cell `(x, y)`, placed with the tile size known so far.
    pub fn tile_ref_at(&self, x: u32, y: u32) -> (r: TileReference)
        requires
            x * size_or_zero(self.tile_size).x <= u32::MAX,
            y * size_or_zero(self.tile_size).y <= u32::MAX,
        ensures
            r.refers_to(self.url_template@, (x as int, y as int), self.tile_size),
    {
        let tile_size = match self.tile_size {
            Some(s) => s,
            None => Vec2d { x: 0, y: 0 },
        };
        let position = Vec2d { x, y }.times(tile_size);
        TileReference { url: self.tile_url_at(x, y), position }
    }

    /// References to the cells `(0, y) ..= (max_x, y)`.
    fn row_refs(&self, max_x: u32, y: u32) -> (r: Vec<TileReference>)
        requires
            forall|i: int|
                0 <= i <= max_x ==> #[trigger] (i * size_or_zero(self.tile_size).x) <= u32::MAX,
            y * size_or_zero(self.tile_size).y <= u32::MAX,
        ensures
            r@.len() == row_coords(max_x as int, y as int).len(),
            forall|i: int|
                0 <= i < r@.len() ==> #[trigger] r@[i].refers_to(
                    self.url_template@,
                    row_coords(max_x as int, y as int)[i],
                    self.tile_size,
                ),
    {
        let mut refs: Vec<TileReference> = Vec::new();
        let mut x: u64 = 0;
        while x <= max_x as u64
            invariant
                x <= max_x as u64 + 1,
                refs@.len() == x,
                forall|i: int|
                    0 <= i <= max_x ==> #[trigger] (i * size_or_zero(self.tile_size).x) <= u32::MAX,
                y * size_or_zero(self.tile_size).y <= u32::MAX,
                forall|i: int|
                    0 <= i < refs@.len() ==> #[trigger] refs@[i].refers_to(
                        self.url_template@,
                        row_coords(max_x as int, y as int)[i],
                        self.tile_size,
                    ),
            decreases max_x as u64 + 1 - x,
        {
            assert((x as int) * size_or_zero(self.tile_size).x <= u32::MAX);
            let t = self.tile_ref_at(x as u32, y);
            refs.push(t);
            x = x + 1;
        }
        refs
    }

    /// The next batch of tiles to fetch, given the outcome of the previous batch
    /// (`None` on the first call). An empty batch means that the grid is
    /// complete; the engine must not be called again after that, and what it
    /// returns if it is is left open.
    pub fn next_tiles(&mut self, previous: Option<TileFetchResult>) -> (r: Vec<TileReference>)
        requires
            old(self).wf(),
            old(self).step_fits(previous),
        ensures
            final(self).wf(),
            final(self).url_template == old(self).url_template,
            final(self).stage == next_stage(old(self).stage, previous),
            final(self).tile_size == next_tile_size(old(self).stage, old(self).tile_size, previous),
            !(old(self).stage is Init) ==> final(self).tile_size == old(self).tile_size,
            r@.len() == next_coords(old(self).stage, previous).len(),
            forall|i: int|
                0 <= i < r@.len() ==> #[trigger] r@[i].refers_to(
                    old(self).url_template@,
                    next_coords(old(self).stage, previous)[i],
                    final(self).tile_size,
                ),
    {
        let ghost cs = next_coords(self.stage, previous);
        match previous {
            None => {
                assert(cs[0] == (0int, 0int));
                vec![self.tile_ref_at(0, 0)]
            },
            Some(res) => match self.stage {
                Stage::Init => {
                    if !res.is_success() {
                        Vec::new()
                    } else {
                        self.stage = Stage::FirstLine { current_x: 1 };
                        self.tile_size = res.tile_size;
                        assert(cs[0] == (1int, 0int));
                        vec![self.tile_ref_at(1, 0)]
                    }
                },
                Stage::FirstLine { current_x } => {
                    if res.is_success() {
                        assert(cs[0] == (current_x + 1, 0int));
                        assert(cs[0].0 <= u32::MAX && cs[0].0 * size_or_zero(self.tile_size).x <= u32::MAX);
                        let current_x = current_x + 1;
                        self.stage = Stage::FirstLine { current_x };
                        vec![self.tile_ref_at(current_x, 0)]
                    } else {
                        let max_x = current_x - 1;
                        self.stage = Stage::NextLines { max_x, current_y: 1 };
                        assert forall|i: int| 0 <= i <= max_x implies #[trigger] (i * size_or_zero(self.tile_size).x) <= u32::MAX by {
                            assert(cs[i].0 == i);
                        }
                        assert(cs[0].1 == 1);
                        self.row_refs(max_x, 1)
                    }
                },
                Stage::NextLines { max_x, current_y } => {
                    if res.is_success() {
                        assert(cs[0].1 == current_y + 1);
                        assert(cs[0].1 <= u32::MAX && cs[0].1 * size_or_zero(self.tile_size).y <= u32::MAX);
                        let current_y = current_y + 1;
                        self.stage = Stage::NextLines { max_x, current_y };
                        assert forall|i: int| 0 <= i <= max_x implies #[trigger] (i * size_or_zero(self.tile_size).x) <= u32::MAX by {
                            assert(cs[i].0 == i);
                        }
                        self.row_refs(max_x, current_y)
                    } else {
                        Vec::new()
                    }
                },
            },
        }
    }

    /// A readable name that shows the address template.
    pub fn name(&self) -> (r: String)
        ensures
            r@ == seq!['G', 'e', 'n', 'e', 'r', 'i', 'c', ' ', 'i', 'm', 'a', 'g', 'e', ' ',
                'w', 'i', 't', 'h', ' ', 't', 'e', 'm', 'p', 'l', 'a', 't', 'e', ' ']
                + self.url_template@,
    {
        let mut r = String::from_str("Generic image with template ");
        r.append(self.url_template.as_str());
        proof {
            reveal_strlit("Generic image with template ");
        }
        r
    }
}

/// The strategy that walks an unknown grid given an address template.
#[derive(Clone, Copy, Debug, Default)]
pub struct GenericDezoomer;

impl GenericDezoomer {
    pub fn name(&self) -> (r: String)
        ensures
            r@ == seq!['g', 'e', 'n', 'e', 'r', 'i', 'c'],
    {
        proof {
            reveal_strlit("generic");
        }
        String::from_str("generic")
    }

    /// Accepts an address that holds the column placeholder, and yields one
    /// engine for it.
    pub fn zoom_levels(&mut self, data: &DezoomerInput) -> (r: Result<Vec<ZoomLevel>, DezoomerError>)
        ensures
            occurs_in(data.uri@, x_token()) ==> (r matches Ok(levels) && levels@.len() == 1
                && levels@[0].wf() && levels@[0].url_template@ == data.uri@
                && levels@[0].stage == Stage::Init && levels@[0].tile_size is None),
            !occurs_in(data.uri@, x_token()) ==> (r matches Err(DezoomerError::WrongDezoomer { name })
                && name@ == seq!['g', 'e', 'n', 'e', 'r', 'i', 'c']),
    {
        proof {
            reveal_strlit("{{X}}");
            assert("{{X}}"@ =~= x_token());
        }
        if !contains_str(data.uri.as_str(), "{{X}}") {
            return Err(DezoomerError::WrongDezoomer { name: self.name() });
        }
        let level = ZoomLevel::new(data.uri.clone());
        Ok(vec![level])
    }
}

} // verus!
