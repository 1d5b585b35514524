use vstd::prelude::*;

use crate::color::{
    lemma_rgb_sums_fit, pointwise_sum, sums_fit, unit, zeros, Color, ColorChannel, Count,
};
use crate::image::{cell_index, Image};

verus! {

/// Relies on num_cpus::get: the number of CPUs available to this process,
/// documented to be at least one.
#[verifier::external_body]
fn available_workers() -> (r: usize)
    ensures
        r >= 1,
{
    num_cpus::get()
}

/// `a / b` rounded up.
pub open spec fn ceil_div(a: int, b: int) -> int {
    (a + b - 1) / b
}

proof fn lemma_ceil_div(a: int, b: int)
    requires
        a >= 0,
        b > 0,
    ensures
        ceil_div(a, b) == a / b + if a % b == 0 {
            0int
        } else {
            1int
        },
        a % b != 0 ==> a / b < a,
{
    let q = a / b;
    let rem = a % b;
    vstd::arithmetic::div_mod::lemma_fundamental_div_mod(a, b);
    if rem == 0 {
        assert(a + b - 1 == b * q + (b - 1));
        vstd::arithmetic::div_mod::lemma_div_multiples_vanish_fancy(q, b - 1, b);
    } else {
        assert(a + b - 1 == b * (q + 1) + (rem - 1)) by (nonlinear_arith)
            requires
                a == b * q + rem,
        ;
        vstd::arithmetic::div_mod::lemma_div_multiples_vanish_fancy(q + 1, rem - 1, b);
        assert(q < a) by (nonlinear_arith)
            requires
                a == b * q + rem,
                rem > 0,
                rem < b,
                q >= 0,
        ;
    }
}

/// How one render divides its samples among the workers.
#[derive(Clone, Copy, Debug, PartialEq, Eq, Structural)]
pub struct WorkPlan {
    /// The number of workers.
    pub workers: usize,
    /// The number of cells of the image.
    pub size: usize,
    /// The length of a row of the image.
    pub width: usize,
    /// The number of rows of the image, `size / width` rounded down.
    pub height: usize,
    /// The number of samples asked for, `size * m`.
    pub iters: usize,
    /// The samples each worker draws: `iters / workers` rounded up.
    pub per_worker: usize,
    /// The number of samples between two progress reports.
    pub progress_update: usize,
    /// The share of `progress_update` by which each worker's reports are staggered.
    pub progress_step: usize,
}

/// The plan for an image of `size` cells in rows `width` long, `m` samples per
/// cell, reporting progress every `progress_update` samples over `workers` workers.
pub open spec fn planned(size: usize, width: usize, m: u32, progress_update: usize, workers: usize) -> WorkPlan {
    WorkPlan {
        workers,
        size,
        width,
        height: (size / width) as usize,
        iters: (size * m) as usize,
        per_worker: ceil_div(size * m, workers as int) as usize,
        progress_update,
        progress_step: (progress_update / workers) as usize,
    }
}

/// The plan of a render over `workers` workers.
pub fn plan_for(size: usize, width: usize, m: u32, progress_update: usize, workers: usize) -> (r: WorkPlan)
    requires
        width > 0,
        workers > 0,
        size * m <= usize::MAX,
    ensures
        r == planned(size, width, m, progress_update, workers),
{
    let iters = size * (m as usize);
    proof {
        lemma_ceil_div(iters as int, workers as int);
    }
    let per_worker = if iters % workers == 0 {
        iters / workers
    } else {
        iters / workers + 1
    };
    WorkPlan {
        workers,
        size,
        width,
        height: size / width,
        iters,
        per_worker,
        progress_update,
        progress_step: progress_update / workers,
    }
}

/// The plan of a render over every CPU available to this process.
pub fn plan(size: usize, width: usize, m: u32, progress_update: usize) -> (r: WorkPlan)
    requires
        width > 0,
        size * m <= usize::MAX,
    ensures
        r.workers >= 1,
        r == planned(size, width, m, progress_update, r.workers),
{
    let workers = available_workers();
    plan_for(size, width, m, progress_update, workers)
}

/// Whether worker `id` reports progress after its sample `i`: never after its
/// first sample, then whenever `i` plus the worker's offset is a multiple of
/// `progress_update`.
pub fn progress_due(plan: &WorkPlan, id: usize, i: usize) -> (r: bool)
    requires
        plan.progress_update > 0,
        i + id * plan.progress_step <= usize::MAX,
    ensures
        r == (i != 0 && (i + id * plan.progress_step) % (plan.progress_update as int) == 0),
{
    if i == 0 {
        return false;
    }
    let offset = id * plan.progress_step;
    (i + offset) % plan.progress_update == 0
}

/// Whether the pixel `p` lies inside a grid `width` by `height`.
pub open spec fn lands(p: (i32, i32), width: int, height: int) -> bool {
    0 <= p.0 < width && 0 <= p.1 < height
}

/// The pixel `(px, py)` as grid coordinates, or `None` where it lies outside
/// a grid `width` by `height`.
pub fn pixel_in_bounds(px: i32, py: i32, width: usize, height: usize) -> (r: Option<(usize, usize)>)
    ensures
        r == (if lands((px, py), width as int, height as int) {
            Some((px as usize, py as usize))
        } else {
            None
        }),
{
    if px < 0 || py < 0 {
        return None;
    }
    let x = px as usize;
    let y = py as usize;
    if x >= width || y >= height {
        return None;
    }
    Some((x, y))
}

/// How many of `points` land on the cell at position `cell` of a grid `width`
/// by `height`.
pub open spec fn hits(points: Seq<(i32, i32)>, width: int, height: int, cell: int) -> nat
    decreases points.len(),
{
    if points.len() == 0 {
        0
    } else {
        let p = points.last();
        hits(points.drop_last(), width, height, cell) + if lands(p, width, height) && cell_index(
            p.0 as int,
            p.1 as int,
            width,
        ) == cell {
            1nat
        } else {
            0nat
        }
    }
}

proof fn lemma_hits_bounded(points: Seq<(i32, i32)>, width: int, height: int, cell: int)
    ensures
        hits(points, width, height, cell) <= points.len(),
    decreases points.len(),
{
    if points.len() > 0 {
        lemma_hits_bounded(points.drop_last(), width, height, cell);
    }
}

/// The channels `c` with `n` more hits in the red channel, which is the first.
pub open spec fn with_red_hits(c: Seq<int>, n: int) -> Seq<int> {
    c.update(0, c[0] + n)
}

/// Plots the pixels of one trajectory: each of `points` that lies inside the
/// grid adds one to the red channel of its cell.
pub fn plot_trajectory<T: Color>(image: &mut Image<T>, points: &Vec<(i32, i32)>)
    requires
        old(image).wf(),
        old(image).spec_width() > 0,
        forall|c: int|
            0 <= c < old(image).spec_size() ==> #[trigger] old(image).cells()[c].channels()[0]
                + points@.len() <= Count::MAX,
    ensures
        final(image).wf(),
        final(image).spec_size() == old(image).spec_size(),
        final(image).spec_width() == old(image).spec_width(),
        forall|c: int|
            0 <= c < old(image).spec_size() ==> (#[trigger] final(image).cells()[c]).channels()
                == with_red_hits(
                old(image).cells()[c].channels(),
                hits(
                    points@,
                    old(image).spec_width(),
                    old(image).spec_size() / old(image).spec_width(),
                    c,
                ) as int,
            ),
{
    let width = image.width();
    let height = image.size() / width;
    let ghost w = width as int;
    let ghost h = height as int;
    let ghost start = image.cells();
    let ghost sz = image.spec_size();
    assert forall|c: int| 0 <= c < sz implies (#[trigger] image.cells()[c]).channels() == with_red_hits(
        start[c].channels(),
        hits(points@.take(0), w, h, c) as int,
    ) by {
        T::lemma_channels(start[c]);
        assert(points@.take(0).len() == 0);
        assert(with_red_hits(start[c].channels(), 0) =~= start[c].channels());
    }
    let mut k: usize = 0;
    while k < points.len()
        invariant
            image.wf(),
            image.spec_size() == old(image).spec_size(),
            image.spec_width() == w,
            w == width,
            h == height,
            w > 0,
            h == old(image).spec_size() / w,
            start == old(image).cells(),
            sz == old(image).spec_size(),
            k <= points@.len(),
            forall|c: int|
                0 <= c < old(image).spec_size() ==> #[trigger] start[c].channels()[0] + points@.len()
                    <= Count::MAX,
            forall|c: int|
                0 <= c < old(image).spec_size() ==> (#[trigger] image.cells()[c]).channels()
                    == with_red_hits(start[c].channels(), hits(points@.take(k as int), w, h, c) as int),
        decreases points@.len() - k,
    {
        let p = points[k];
        let ghost before = image.cells();
        assert(points@.take(k as int + 1).drop_last() =~= points@.take(k as int));
        match pixel_in_bounds(p.0, p.1, width, height) {
            Some((x, y)) => {
                let ghost idx = cell_index(x as int, y as int, w);
                proof {
                    assert(y * w + x < (y + 1) * w) by (nonlinear_arith)
                        requires
                            x < w,
                    ;
                    assert((y + 1) * w <= h * w) by (nonlinear_arith)
                        requires
                            y < h,
                            w > 0,
                    ;
                    vstd::arithmetic::div_mod::lemma_fundamental_div_mod(sz, w);
                    assert(h * w <= sz) by (nonlinear_arith)
                        requires
                            h == sz / w,
                            w > 0,
                            sz == w * (sz / w) + sz % w,
                            sz % w >= 0,
                    ;
                    T::lemma_channels(before[idx]);
                    lemma_hits_bounded(points@.take(k as int), w, h, idx);
                    T::lemma_channels(start[idx]);
                    let u = unit(T::arity(), 0);
                    assert(u[0] == 1);
                    assert(sums_fit(before[idx].channels(), u));
                }
                let one = T::one(ColorChannel::Red);
                image.add((x, y), one);
                proof {
                    T::lemma_channels(start[idx]);
                    assert(image.cells()[idx].channels() =~= with_red_hits(
                        start[idx].channels(),
                        hits(points@.take(k as int + 1), w, h, idx) as int,
                    ));
                    assert forall|c: int| 0 <= c < old(image).spec_size() implies (
                    #[trigger] image.cells()[c]).channels() == with_red_hits(
                        start[c].channels(),
                        hits(points@.take(k as int + 1), w, h, c) as int,
                    ) by {
                        if c != idx {
                            assert(image.cells()[c] == before[c]);
                        }
                    }
                }
            },
            None => {
                proof {
                    assert forall|c: int| 0 <= c < old(image).spec_size() implies (
                    #[trigger] image.cells()[c]).channels() == with_red_hits(
                        start[c].channels(),
                        hits(points@.take(k as int + 1), w, h, c) as int,
                    ) by {
                        assert(hits(points@.take(k as int + 1), w, h, c) == hits(
                            points@.take(k as int),
                            w,
                            h,
                            c,
                        ));
                    }
                }
            },
        }
        k = k + 1;
    }
    assert(points@.take(points@.len() as int) =~= points@);
}

/// How many of `points` land inside a grid `width` by `height`.
pub open spec fn landed(points: Seq<(i32, i32)>, width: int, height: int) -> nat
    decreases points.len(),
{
    if points.len() == 0 {
        0
    } else {
        landed(points.drop_last(), width, height) + if lands(points.last(), width, height) {
            1nat
        } else {
            0nat
        }
    }
}

/// The hits of `points` summed over the first `n` cells.
pub open spec fn total_hits(points: Seq<(i32, i32)>, width: int, height: int, n: nat) -> nat
    decreases n,
{
    if n == 0 {
        0
    } else {
        total_hits(points, width, height, (n - 1) as nat) + hits(points, width, height, n - 1)
    }
}

proof fn lemma_total_hits_empty(points: Seq<(i32, i32)>, width: int, height: int, n: nat)
    requires
        points.len() == 0,
    ensures
        total_hits(points, width, height, n) == 0,
    decreases n,
{
    if n > 0 {
        lemma_total_hits_empty(points, width, height, (n - 1) as nat);
    }
}

proof fn lemma_total_hits_step(points: Seq<(i32, i32)>, width: int, height: int, n: nat)
    requires
        points.len() > 0,
        width > 0,
    ensures
        total_hits(points, width, height, n) == total_hits(points.drop_last(), width, height, n) + if lands(
            points.last(),
            width,
            height,
        ) && cell_index(points.last().0 as int, points.last().1 as int, width) < n {
            1nat
        } else {
            0nat
        },
    decreases n,
{
    let p = points.last();
    if n > 0 {
        lemma_total_hits_step(points, width, height, (n - 1) as nat);
    } else if lands(p, width, height) {
        assert(p.1 as int * width >= 0) by (nonlinear_arith)
            requires
                p.1 >= 0,
                width > 0,
        ;
    }
}

/// Over a grid whose `width * height` cells all lie within its `size` cells,
/// the hits of every cell add up to the number of points that land inside it:
/// plotting a trajectory adds exactly that many to the red channels in all.
pub proof fn lemma_hits_total(points: Seq<(i32, i32)>, width: int, height: int, size: nat)
    requires
        width > 0,
        height >= 0,
        width * height <= size,
    ensures
        total_hits(points, width, height, size) == landed(points, width, height),
    decreases points.len(),
{
    if points.len() == 0 {
        lemma_total_hits_empty(points, width, height, size);
    } else {
        let p = points.last();
        lemma_hits_total(points.drop_last(), width, height, size);
        lemma_total_hits_step(points, width, height, size);
        if lands(p, width, height) {
            let x = p.0 as int;
            let y = p.1 as int;
            assert(y * width + x < width * height) by (nonlinear_arith)
                requires
                    0 <= x < width,
                    0 <= y < height,
            ;
        }
    }
}

/// Whether `local` can be merged into `image` with no channel of any cell
/// exceeding the range of `Count`.
pub fn merge_fits<T: Color>(image: &Image<T>, local: &Image<T>) -> (r: bool)
    requires
        image.wf(),
        local.wf(),
        local.spec_size() == image.spec_size(),
        local.spec_width() == image.spec_width(),
        image.spec_width() > 0,
    ensures
        r == forall|c: int|
            0 <= c < image.spec_size() ==> sums_fit(
                #[trigger] image.cells()[c].channels(),
                local.cells()[c].channels(),
            ),
{
    let width = image.width();
    let size = image.size();
    let mut i: usize = 0;
    while i < size
        invariant
            image.wf(),
            local.wf(),
            local.spec_size() == image.spec_size(),
            local.spec_width() == image.spec_width(),
            width == image.spec_width(),
            size == image.spec_size(),
            width > 0,
            i <= size,
            forall|c: int|
                0 <= c < i ==> sums_fit(#[trigger] image.cells()[c].channels(), local.cells()[c].channels()),
        decreases size - i,
    {
        let x = i % width;
        let y = i / width;
        proof {
            let ii = i as int;
            let w = width as int;
            vstd::arithmetic::div_mod::lemma_fundamental_div_mod(ii, w);
            vstd::arithmetic::mul::lemma_mul_is_commutative(w, ii / w);
            assert(cell_index(x as int, y as int, w) == ii);
            T::lemma_channels(image.cells()[ii]);
            T::lemma_channels(local.cells()[ii]);
            lemma_rgb_sums_fit(image.cells()[ii].channels(), local.cells()[ii].channels());
        }
        let a = image.get((x, y)).to_tuple_rgb();
        let b = local.get((x, y)).to_tuple_rgb();
        if a.0 > Count::MAX - b.0 || a.1 > Count::MAX - b.1 || a.2 > Count::MAX - b.2 {
            return false;
        }
        i = i + 1;
    }
    true
}

/// `after` is `before` with `local` added to it cell by cell.
pub open spec fn merged<T: Color>(before: Image<T>, local: Image<T>, after: Image<T>) -> bool {
    &&& after.wf()
    &&& after.spec_size() == before.spec_size()
    &&& after.spec_width() == before.spec_width()
    &&& forall|c: int|
        0 <= c < before.spec_size() ==> (#[trigger] after.cells()[c]).channels() == pointwise_sum(
            before.cells()[c].channels(),
            local.cells()[c].channels(),
        )
}

/// Merges a worker-local grid into the shared one: every cell of `local`,
/// enumerated with its coordinates, is added to the cell of `image` at the
/// same coordinates.
pub fn merge<T: Color>(image: &mut Image<T>, local: Image<T>)
    requires
        old(image).wf(),
        local.wf(),
        local.spec_size() == old(image).spec_size(),
        local.spec_width() == old(image).spec_width(),
        old(image).spec_width() > 0,
        forall|c: int|
            0 <= c < old(image).spec_size() ==> sums_fit(
                #[trigger] old(image).cells()[c].channels(),
                local.cells()[c].channels(),
            ),
    ensures
        merged(*old(image), local, *final(image)),
{
    let ghost start = image.cells();
    let ghost src = local.cells();
    let ghost w = local.spec_width();
    let ghost sz = local.spec_size();
    let pixels = local.into_enumerate_pixels();
    let mut k: usize = 0;
    while k < pixels.len()
        invariant
            image.wf(),
            image.spec_size() == sz,
            image.spec_width() == w,
            sz == old(image).spec_size(),
            w == old(image).spec_width(),
            start == old(image).cells(),
            w > 0,
            pixels@.len() == sz,
            forall|i: int|
                0 <= i < sz ==> #[trigger] pixels@[i] == ((i % w) as usize, (i / w) as usize, src[i]),
            forall|c: int| 0 <= c < sz ==> sums_fit(#[trigger] start[c].channels(), src[c].channels()),
            k <= sz,
            forall|c: int|
                0 <= c < k ==> (#[trigger] image.cells()[c]).channels() == pointwise_sum(
                    start[c].channels(),
                    src[c].channels(),
                ),
            forall|c: int| k <= c < sz ==> #[trigger] image.cells()[c] == start[c],
        decreases sz - k,
    {
        let (x, y, px) = pixels[k];
        proof {
            let ki = k as int;
            assert(pixels@[ki] == ((ki % w) as usize, (ki / w) as usize, src[ki]));
            vstd::arithmetic::div_mod::lemma_fundamental_div_mod(ki, w);
            vstd::arithmetic::div_mod::lemma_mod_pos_bound(ki, w);
            vstd::arithmetic::div_mod::lemma_div_pos_is_pos(ki, w);
            vstd::arithmetic::mul::lemma_mul_is_commutative(w, ki / w);
            assert(cell_index(x as int, y as int, w) == ki);
        }
        image.add((x, y), px);
        k = k + 1;
    }
}

/// Each channel of `a` twice over.
pub open spec fn doubled(a: Seq<int>) -> Seq<int> {
    Seq::new(a.len(), |i: int| 2 * a[i])
}

/// Merging the same worker-local grid twice adds each of its cells twice, so
/// that merged twice into an empty grid, every cell comes out doubled.
pub proof fn lemma_merge_twice_doubles<T: Color>(
    start: Image<T>,
    local: Image<T>,
    once: Image<T>,
    twice: Image<T>,
)
    requires
        merged(start, local, once),
        merged(once, local, twice),
    ensures
        forall|c: int, i: int|
            0 <= c < start.spec_size() && 0 <= i < T::arity() ==> #[trigger] twice.cells()[c].channels()[i]
                == start.cells()[c].channels()[i] + 2 * local.cells()[c].channels()[i],
        (forall|c: int| 0 <= c < start.spec_size() ==> (#[trigger] start.cells()[c]).channels() == zeros(T::arity()))
            ==> forall|c: int|
            0 <= c < start.spec_size() ==> (#[trigger] twice.cells()[c]).channels() == doubled(
                local.cells()[c].channels(),
            ),
{
    assert forall|c: int, i: int|
        0 <= c < start.spec_size() && 0 <= i < T::arity() implies #[trigger] twice.cells()[c].channels()[i]
        == start.cells()[c].channels()[i] + 2 * local.cells()[c].channels()[i] by {
        T::lemma_channels(start.cells()[c]);
        T::lemma_channels(local.cells()[c]);
        assert(once.cells()[c].channels()[i] == start.cells()[c].channels()[i] + local.cells()[c].channels()[i]);
    }
    if forall|c: int| 0 <= c < start.spec_size() ==> (#[trigger] start.cells()[c]).channels() == zeros(T::arity()) {
        assert forall|c: int| 0 <= c < start.spec_size() implies (#[trigger] twice.cells()[c]).channels()
            == doubled(local.cells()[c].channels()) by {
            T::lemma_channels(twice.cells()[c]);
            T::lemma_channels(local.cells()[c]);
            assert forall|i: int| 0 <= i < T::arity() implies twice.cells()[c].channels()[i] == doubled(
                local.cells()[c].channels(),
            )[i] by {
                assert(twice.cells()[c].channels()[i] == start.cells()[c].channels()[i] + 2 * local.cells()[c].channels()[i]);
            }
            assert(twice.cells()[c].channels() =~= doubled(local.cells()[c].channels()));
        }
    }
}

} // verus!
