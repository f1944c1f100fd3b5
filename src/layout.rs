//! The integer geometry of the box-layout engine: flow sizes and slots,
//! aspect-locked resizing, container anchors, hit tests and scissors.
//!
//! Element sizes are `(width, height)` pairs of pixels. Offsets that can
//! fall on half pixels (the centre of a slot of odd extent) are given in
//! half-pixel units, so that every result stays an exact integer.

use crate::element::{Direction, Three};
use vstd::arithmetic::div_mod::lemma_fundamental_div_mod;
use vstd::prelude::*;

verus! {

/// The extent of a size along the horizontal axis (its width) or along the
/// vertical one (its height).
pub open spec fn extent(size: (i32, i32), horizontal: bool) -> int {
    if horizontal {
        size.0 as int
    } else {
        size.1 as int
    }
}

/// The sum of the extents of all sizes along one axis.
pub open spec fn total(sizes: Seq<(i32, i32)>, horizontal: bool) -> int
    decreases sizes.len(),
{
    if sizes.len() == 0 {
        0
    } else {
        total(sizes.drop_last(), horizontal) + extent(sizes.last(), horizontal)
    }
}

/// The largest extent along one axis; zero when there are no sizes.
pub open spec fn largest(sizes: Seq<(i32, i32)>, horizontal: bool) -> int
    decreases sizes.len(),
{
    if sizes.len() == 0 {
        0
    } else if sizes.len() == 1 {
        extent(sizes[0], horizontal)
    } else {
        let m = largest(sizes.drop_last(), horizontal);
        let e = extent(sizes.last(), horizontal);
        if e > m {
            e
        } else {
            m
        }
    }
}

/// Whether a flow in `dir` lays its children along the horizontal axis.
pub open spec fn is_horizontal(dir: Direction) -> bool {
    dir is Left || dir is Right
}

/// Whether a flow in `dir` stacks its children one over another.
pub open spec fn is_layered(dir: Direction) -> bool {
    dir is In || dir is Out
}

/// The size of a flow of children with the given sizes: along the flow axis
/// the extents add up, across it the largest one is taken, and a layered
/// flow takes the largest extent on both axes. No children give `(0, 0)`.
pub open spec fn flow_size_spec(dir: Direction, sizes: Seq<(i32, i32)>) -> (int, int) {
    match dir {
        Direction::Up | Direction::Down => (largest(sizes, true), total(sizes, false)),
        Direction::Left | Direction::Right => (total(sizes, true), largest(sizes, false)),
        Direction::In | Direction::Out => (largest(sizes, true), largest(sizes, false)),
    }
}

/// The sum that a flow in `dir` computes fits in an `i32`.
pub open spec fn flow_fits(dir: Direction, sizes: Seq<(i32, i32)>) -> bool {
    is_layered(dir) || (i32::MIN <= total(sizes, is_horizontal(dir)) <= i32::MAX)
}

proof fn lemma_total_bounds(sizes: Seq<(i32, i32)>, horizontal: bool)
    ensures
        -(sizes.len() as int) * 0x8000_0000 <= total(sizes, horizontal) <= (sizes.len() as int)
            * 0x8000_0000,
    decreases sizes.len(),
{
    if sizes.len() > 0 {
        lemma_total_bounds(sizes.drop_last(), horizontal);
    }
}

/// Sums and maxima over the first `i + 1` sizes follow from those over the
/// first `i`.
proof fn lemma_prefix_step(sizes: Seq<(i32, i32)>, i: int, horizontal: bool)
    requires
        0 <= i < sizes.len(),
    ensures
        total(sizes.take(i + 1), horizontal) == total(sizes.take(i), horizontal) + extent(
            sizes[i],
            horizontal,
        ),
        largest(sizes.take(i + 1), horizontal) == if i == 0 {
            extent(sizes[0], horizontal)
        } else if extent(sizes[i], horizontal) > largest(sizes.take(i), horizontal) {
            extent(sizes[i], horizontal)
        } else {
            largest(sizes.take(i), horizontal)
        },
{
    assert(sizes.take(i + 1).drop_last() =~= sizes.take(i));
    assert(sizes.take(i + 1).last() == sizes[i]);
}

/// The size of a flow of children with the given sizes.
pub fn flow_size(dir: Direction, sizes: &Vec<(i32, i32)>) -> (r: (i32, i32))
    requires
        flow_fits(dir, sizes@),
    ensures
        r.0 == flow_size_spec(dir, sizes@).0,
        r.1 == flow_size_spec(dir, sizes@).1,
        sizes@.len() == 0 ==> r == (0i32, 0i32),
{
    let n = sizes.len();
    let mut max_w: i32 = 0;
    let mut max_h: i32 = 0;
    let mut sum_w: i128 = 0;
    let mut sum_h: i128 = 0;
    let mut i: usize = 0;
    while i < n
        invariant
            n == sizes@.len(),
            i <= n,
            max_w == largest(sizes@.take(i as int), true),
            max_h == largest(sizes@.take(i as int), false),
            sum_w == total(sizes@.take(i as int), true),
            sum_h == total(sizes@.take(i as int), false),
        decreases n - i,
    {
        proof {
            lemma_prefix_step(sizes@, i as int, true);
            lemma_prefix_step(sizes@, i as int, false);
            lemma_total_bounds(sizes@.take(i as int), true);
            lemma_total_bounds(sizes@.take(i as int), false);
        }
        let (w, h) = sizes[i];
        if i == 0 || w > max_w {
            max_w = w;
        }
        if i == 0 || h > max_h {
            max_h = h;
        }
        sum_w = sum_w + w as i128;
        sum_h = sum_h + h as i128;
        i = i + 1;
    }
    proof {
        assert(sizes@.take(n as int) =~= sizes@);
    }
    match dir {
        Direction::Up | Direction::Down => (max_w, sum_h as i32),
        Direction::Left | Direction::Right => (sum_w as i32, max_h),
        Direction::In | Direction::Out => (max_w, max_h),
    }
}

/// Two elements stacked downwards, the first above the second, take the
/// wider of the two widths and the sum of the two heights; stacking them the
/// other way round, the second above the first, gives the same size.
pub proof fn lemma_stack_two(a: (i32, i32), b: (i32, i32))
    ensures
        flow_size_spec(Direction::Down, seq![a, b]) == (
            if a.0 >= b.0 {
                a.0 as int
            } else {
                b.0 as int
            },
            a.1 as int + b.1 as int,
        ),
        flow_size_spec(Direction::Down, seq![b, a]) == flow_size_spec(Direction::Down, seq![a, b]),
{
    reveal_with_fuel(total, 3);
    reveal_with_fuel(largest, 3);
    assert(seq![a, b].drop_last() =~= seq![a]);
    assert(seq![b, a].drop_last() =~= seq![b]);
}

/// A flow with no children takes no space, in every direction.
pub proof fn lemma_empty_flow(dir: Direction)
    ensures
        flow_size_spec(dir, Seq::<(i32, i32)>::empty()) == (0int, 0int),
{
}


/// Where a flow draws one of its children: the child's index among the
/// flow's children and the offset of its centre from the flow's first slot,
/// in half pixels.
#[derive(Clone, Copy, Debug, PartialEq, Eq, Structural)]
pub struct Slot {
    pub index: usize,
    pub dx: i128,
    pub dy: i128,
}

/// The distance, in half pixels, from the centre of the first slot to the
/// centre of slot `i` of a flow whose slots are laid edge to edge: each step
/// adds half the extent of the previous slot and half that of the next.
pub open spec fn slot_offset(sizes: Seq<(i32, i32)>, i: int, horizontal: bool) -> int
    decreases i,
{
    if i <= 0 {
        0
    } else {
        slot_offset(sizes, i - 1, horizontal) + extent(sizes[i - 1], horizontal) + extent(
            sizes[i],
            horizontal,
        )
    }
}

/// Whether a flow in `dir` steps towards lower coordinates: `Down` and
/// `Left` do, `Up` and `Right` step towards higher ones.
pub open spec fn steps_back(dir: Direction) -> bool {
    dir is Down || dir is Left
}

/// The `k`-th child that a flow of `n` children draws: `In` draws them back
/// to front, every other direction in the given order.
pub open spec fn drawn_index(dir: Direction, n: int, k: int) -> int {
    if dir is In {
        n - 1 - k
    } else {
        k
    }
}

/// The `k`-th slot that a flow in `dir` draws: layered flows put every child
/// on the first slot; the others move along their axis by `slot_offset`.
pub open spec fn slot_spec(dir: Direction, sizes: Seq<(i32, i32)>, k: int) -> Slot {
    let i = drawn_index(dir, sizes.len() as int, k);
    let o = slot_offset(sizes, i, is_horizontal(dir));
    let off = if steps_back(dir) {
        -o
    } else {
        o
    };
    if is_layered(dir) {
        Slot { index: i as usize, dx: 0, dy: 0 }
    } else if is_horizontal(dir) {
        Slot { index: i as usize, dx: off as i128, dy: 0 }
    } else {
        Slot { index: i as usize, dx: 0, dy: off as i128 }
    }
}

proof fn lemma_slot_offset_bounds(sizes: Seq<(i32, i32)>, i: int, horizontal: bool)
    requires
        0 <= i < sizes.len(),
    ensures
        -i * 0x1_0000_0000 <= slot_offset(sizes, i, horizontal) <= i * 0x1_0000_0000,
    decreases i,
{
    if i > 0 {
        lemma_slot_offset_bounds(sizes, i - 1, horizontal);
    }
}

/// The centre of slot `i` stands, in half pixels, twice the extent of the
/// slots before it plus its own extent from the first slot's near edge.
proof fn lemma_slot_offset_prefix(sizes: Seq<(i32, i32)>, i: int, horizontal: bool)
    requires
        0 <= i < sizes.len(),
    ensures
        slot_offset(sizes, i, horizontal) + extent(sizes[0], horizontal) == 2 * total(
            sizes.take(i),
            horizontal,
        ) + extent(sizes[i], horizontal),
    decreases i,
{
    if i > 0 {
        lemma_slot_offset_prefix(sizes, i - 1, horizontal);
        lemma_prefix_step(sizes, i - 1, horizontal);
    } else {
        assert(sizes.take(0) =~= Seq::<(i32, i32)>::empty());
    }
}

/// A flow's slots lie edge to edge and together cover exactly the extent
/// that the flow's size gives along its axis: from the near edge of the
/// first slot to the far edge of the last is the sum of all extents.
pub proof fn lemma_slots_tile(sizes: Seq<(i32, i32)>, horizontal: bool)
    requires
        sizes.len() > 0,
    ensures
        slot_offset(sizes, sizes.len() - 1, horizontal) + extent(sizes[0], horizontal) + extent(
            sizes.last(),
            horizontal,
        ) == 2 * total(sizes, horizontal),
{
    let n = sizes.len() as int;
    lemma_slot_offset_prefix(sizes, n - 1, horizontal);
    lemma_prefix_step(sizes, n - 1, horizontal);
    assert(sizes.take(n) =~= sizes);
}

/// The slots of a flow's children, in the order in which they are drawn.
pub fn flow_slots(dir: Direction, sizes: &Vec<(i32, i32)>) -> (r: Vec<Slot>)
    ensures
        r@.len() == sizes@.len(),
        forall|k: int| 0 <= k < r@.len() ==> r@[k] == slot_spec(dir, sizes@, k),
{
    let n = sizes.len();
    let horizontal = dir == Direction::Left || dir == Direction::Right;
    let layered = dir == Direction::In || dir == Direction::Out;
    let negative = dir == Direction::Down || dir == Direction::Left;
    let mut r: Vec<Slot> = Vec::new();
    // The offset of slot `k` from the first slot, in half pixels.
    let mut off: i128 = 0;
    let mut k: usize = 0;
    while k < n
        invariant
            n == sizes@.len(),
            k <= n,
            horizontal == is_horizontal(dir),
            layered == is_layered(dir),
            negative == steps_back(dir),
            k < n ==> off == slot_offset(sizes@, k as int, horizontal),
            r@.len() == k,
            forall|j: int| 0 <= j < k ==> r@[j] == slot_spec(dir, sizes@, j),
        decreases n - k,
    {
        proof {
            lemma_slot_offset_bounds(sizes@, k as int, horizontal);
        }
        if layered {
            let i: usize = if dir == Direction::In {
                n - 1 - k
            } else {
                k
            };
            r.push(Slot { index: i, dx: 0, dy: 0 });
        } else {
            let signed: i128 = if negative {
                -off
            } else {
                off
            };
            if horizontal {
                r.push(Slot { index: k, dx: signed, dy: 0 });
            } else {
                r.push(Slot { index: k, dx: 0, dy: signed });
            }
        }
        if k + 1 < n {
            let (pw, ph) = sizes[k];
            let (nw, nh) = sizes[k + 1];
            if horizontal {
                off = off + pw as i128 + nw as i128;
            } else {
                off = off + ph as i128 + nh as i128;
            }
        }
        k = k + 1;
    }
    r
}


/// `num / den` rounded to the nearest integer, halves away from zero.
pub open spec fn round_div(num: int, den: int) -> int
    recommends
        den != 0,
{
    let n = if num < 0 {
        -num
    } else {
        num
    };
    let d = if den < 0 {
        -den
    } else {
        den
    };
    let q = (2 * n + d) / (2 * d);
    if (num < 0) != (den < 0) {
        -q
    } else {
        q
    }
}

/// `round_div(num, den)` is an integer nearest to `num / den`: it lies
/// within half of one from the quotient, and of two such integers it is the
/// one farther from zero.
pub proof fn lemma_round_div_nearest(num: int, den: int)
    requires
        den != 0,
    ensures
        ({
            let r = round_div(num, den);
            let d = if den < 0 {
                -den
            } else {
                den
            };
            let e = 2 * (num - r * den);
            &&& -d <= e <= d
            &&& (e == d || e == -d) ==> (r * den) * (r * den) > num * num
        }),
{
    let n = if num < 0 {
        -num
    } else {
        num
    };
    let d = if den < 0 {
        -den
    } else {
        den
    };
    let q = (2 * n + d) / (2 * d);
    lemma_fundamental_div_mod(2 * n + d, 2 * d);
    let m = (2 * n + d) % (2 * d);
    assert(2 * n + d == 2 * d * q + m);
    assert(0 <= m < 2 * d);
    // |2 * (n - q * d)| <= d, with -d only on a tie.
    assert(2 * (n - q * d) == m - d) by (nonlinear_arith)
        requires
            2 * n + d == 2 * d * q + m,
    ;
    let r = round_div(num, den);
    let e = 2 * (num - r * den);
    if (num < 0) != (den < 0) {
        assert(r == -q);
        if num < 0 {
            assert(num == -n && den == d);
            assert(e == -(2 * (n - q * d))) by (nonlinear_arith)
                requires
                    num == -n,
                    den == d,
                    r == -q,
                    e == 2 * (num - r * den),
            ;
        } else {
            assert(num == n && den == -d);
            assert(e == 2 * (n - q * d)) by (nonlinear_arith)
                requires
                    num == n,
                    den == -d,
                    r == -q,
                    e == 2 * (num - r * den),
            ;
        }
    } else {
        assert(r == q);
        if num < 0 {
            assert(num == -n && den == -d);
            assert(e == -(2 * (n - q * d))) by (nonlinear_arith)
                requires
                    num == -n,
                    den == -d,
                    r == q,
                    e == 2 * (num - r * den),
            ;
        } else {
            assert(num == n && den == d);
            assert(e == 2 * (n - q * d)) by (nonlinear_arith)
                requires
                    num == n,
                    den == d,
                    r == q,
                    e == 2 * (num - r * den),
            ;
        }
    }
    if e == d || e == -d {
        // A tie: `q * d` is `n + d / 2`, beyond `n`.
        assert(m == 0);
        assert(q * d > n) by (nonlinear_arith)
            requires
                2 * (n - q * d) == -d,
                d > 0,
        ;
        assert(n >= 0);
        assert((q * d) * (q * d) > n * n) by (nonlinear_arith)
            requires
                q * d > n,
                n >= 0,
        ;
        assert((r * den) * (r * den) == (q * d) * (q * d)) by (nonlinear_arith)
            requires
                r == q || r == -q,
                den == d || den == -d,
        ;
        assert(num * num == n * n) by (nonlinear_arith)
            requires
                num == n || num == -n,
        ;
    }
}

/// `x` held to the range of an `i32`.
pub open spec fn saturate(x: int) -> int {
    if x < i32::MIN {
        i32::MIN as int
    } else if x > i32::MAX {
        i32::MAX as int
    } else {
        x
    }
}

/// The extent that keeps the aspect ratio `other : along` once `along`
/// becomes `new_along`: `other * new_along / along`, rounded half away from
/// zero and held to the range of an `i32`. With `along` zero the ratio is
/// unbounded: the result is the largest or the smallest `i32` after the
/// sign of `other * new_along`, and zero when that product is zero.
pub open spec fn proportional(other: int, along: int, new_along: int) -> int {
    if along == 0 {
        if other * new_along > 0 {
            i32::MAX as int
        } else if other * new_along < 0 {
            i32::MIN as int
        } else {
            0
        }
    } else {
        saturate(round_div(other * new_along, along))
    }
}

/// The extent that keeps an element's aspect ratio `other : along` when
/// `along` is changed to `new_along`.
pub fn scale_dimension(other: i32, along: i32, new_along: i32) -> (r: i32)
    ensures
        r == proportional(other as int, along as int, new_along as int),
{
    proof {
        assert(-0x4000_0000_0000_0000 <= (other as int) * (new_along as int)
            <= 0x4000_0000_0000_0000) by (nonlinear_arith)
            requires
                i32::MIN <= other <= i32::MAX,
                i32::MIN <= new_along <= i32::MAX,
        ;
    }
    let num: i128 = (other as i128) * (new_along as i128);
    if along == 0 {
        return if num > 0 {
            i32::MAX
        } else if num < 0 {
            i32::MIN
        } else {
            0
        };
    }
    let n: i128 = if num < 0 {
        -num
    } else {
        num
    };
    let d: i128 = if along < 0 {
        -(along as i128)
    } else {
        along as i128
    };
    let q: i128 = (2 * n + d) / (2 * d);
    let rounded: i128 = if (num < 0) != (along < 0) {
        -q
    } else {
        q
    };
    if rounded < i32::MIN as i128 {
        i32::MIN
    } else if rounded > i32::MAX as i128 {
        i32::MAX
    } else {
        rounded as i32
    }
}

/// Whether the point `(x, y)`, measured from the centre of a box of
/// `width` by `height`, lies on the box, edges included.
pub open spec fn over_spec(width: int, height: int, x: int, y: int) -> bool {
    &&& -width <= 2 * x <= width
    &&& -height <= 2 * y <= height
}

/// Whether a point, measured from a box's centre, lies on the box.
pub fn point_over(width: i32, height: i32, x: i32, y: i32) -> (r: bool)
    ensures
        r == over_spec(width as int, height as int, x as int, y as int),
{
    let (w, h) = (width as i64, height as i64);
    let (x2, y2) = (2 * x as i64, 2 * y as i64);
    -w <= x2 && x2 <= w && -h <= y2 && y2 <= h
}

/// The offset, in half pixels, of a child's centre from its container's
/// centre along one axis, counted towards the far side. The child's near
/// edge stands `offset` pixels inside the container's near edge (`N`), its
/// centre `offset` pixels past the container's centre (`Z`), or its far
/// edge `offset` pixels inside the container's far edge (`P`).
pub open spec fn anchor_spec(anchor: Three, parent: int, child: int, offset: int) -> int {
    match anchor {
        Three::N => child - parent + 2 * offset,
        Three::Z => 2 * offset,
        Three::P => parent - child - 2 * offset,
    }
}

/// Where a container puts its child along one axis, in half pixels from the
/// container's centre.
pub fn anchor_offset(anchor: Three, parent: i32, child: i32, offset: i32) -> (r: i64)
    ensures
        r == anchor_spec(anchor, parent as int, child as int, offset as int),
{
    let p = parent as i64;
    let c = child as i64;
    let o = offset as i64;
    match anchor {
        Three::N => c - p + 2 * o,
        Three::Z => 2 * o,
        Three::P => p - c - 2 * o,
    }
}

/// A scissor rectangle in the backend's pixels: `(x, y)` is its bottom-left
/// corner, `w` and `h` its extent.
#[derive(Clone, Copy, Debug, PartialEq, Eq, Structural)]
pub struct Scissor {
    pub x: u32,
    pub y: u32,
    pub w: u32,
    pub h: u32,
}

/// The part of a crop rectangle that lies at non-negative coordinates: a
/// corner below zero moves to zero and the extent loses what lay below.
pub open spec fn clip_spec(x: int, y: int, w: int, h: int) -> Scissor {
    let x_neg = if x < 0 {
        x
    } else {
        0
    };
    let y_neg = if y < 0 {
        y
    } else {
        0
    };
    Scissor {
        x: (x - x_neg) as u32,
        y: (y - y_neg) as u32,
        w: (if w + x_neg < 0 {
            0
        } else {
            w + x_neg
        }) as u32,
        h: (if h + y_neg < 0 {
            0
        } else {
            h + y_neg
        }) as u32,
    }
}

impl Scissor {
    /// Whether anything drawn under this scissor can show: an empty scissor
    /// lets nothing through, so nothing under it needs drawing.
    pub fn is_visible(&self) -> (r: bool)
        ensures
            r == !is_empty(*self),
    {
        self.w != 0 && self.h != 0
    }
}

/// Whether two scissors have no point in common, edges included.
pub open spec fn disjoint(a: Scissor, b: Scissor) -> bool {
    ||| a.x + a.w < b.x
    ||| b.x + b.w < a.x
    ||| a.y + a.h < b.y
    ||| b.y + b.h < a.y
}

/// Whether a scissor lets nothing through.
pub open spec fn is_empty(s: Scissor) -> bool {
    s.w == 0 || s.h == 0
}

/// Whether scissor `inner` lies within scissor `outer`.
pub open spec fn within(inner: Scissor, outer: Scissor) -> bool {
    &&& outer.x <= inner.x
    &&& inner.x + inner.w <= outer.x + outer.w
    &&& outer.y <= inner.y
    &&& inner.y + inner.h <= outer.y + outer.h
}

pub open spec fn max_int(a: int, b: int) -> int {
    if a > b {
        a
    } else {
        b
    }
}

pub open spec fn min_int(a: int, b: int) -> int {
    if a < b {
        a
    } else {
        b
    }
}

/// The overlap of a new scissor `a` with the active scissor `b`. Disjoint
/// scissors give `a`'s corner with no extent.
pub open spec fn intersect_spec(a: Scissor, b: Scissor) -> Scissor {
    if disjoint(a, b) {
        Scissor { x: a.x, y: a.y, w: 0, h: 0 }
    } else {
        let l = max_int(a.x as int, b.x as int);
        let r = min_int(a.x + a.w, b.x + b.w);
        let bot = max_int(a.y as int, b.y as int);
        let t = min_int(a.y + a.h, b.y + b.h);
        Scissor { x: l as u32, y: bot as u32, w: (r - l) as u32, h: (t - bot) as u32 }
    }
}

/// The overlap of scissor `a` with the active scissor `b`.
pub fn intersect(a: Scissor, b: Scissor) -> (r: Scissor)
    ensures
        r == intersect_spec(a, b),
{
    let (left_a, bottom_a, width_a, height_a) = (a.x as u64, a.y as u64, a.w as u64, a.h as u64);
    let (left_b, bottom_b, width_b, height_b) = (b.x as u64, b.y as u64, b.w as u64, b.h as u64);
    if left_a + width_a < left_b || left_b + width_b < left_a || bottom_a + height_a < bottom_b || bottom_b + height_b < bottom_a {
        Scissor { x: a.x, y: a.y, w: 0, h: 0 }
    } else {
        let l = if left_a > left_b {
            left_a
        } else {
            left_b
        };
        let r = if left_a + width_a < left_b + width_b {
            left_a + width_a
        } else {
            left_b + width_b
        };
        let bot = if bottom_a > bottom_b {
            bottom_a
        } else {
            bottom_b
        };
        let t = if bottom_a + height_a < bottom_b + height_b {
            bottom_a + height_a
        } else {
            bottom_b + height_b
        };
        Scissor { x: l as u32, y: bot as u32, w: (r - l) as u32, h: (t - bot) as u32 }
    }
}

/// The crop rectangle clipped to non-negative coordinates, then
/// intersected with the active scissor, if any.
pub open spec fn crop_spec(x: int, y: int, w: int, h: int, active: Option<Scissor>) -> Scissor {
    match active {
        None => clip_spec(x, y, w, h),
        Some(b) => intersect_spec(clip_spec(x, y, w, h), b),
    }
}

/// The scissor of an element cropped to the pixel rectangle with corner
/// `(x, y)` and extent `w` by `h`, inside the scissor already active, if
/// any.
pub fn crop_scissor(x: i32, y: i32, w: i32, h: i32, active: Option<Scissor>) -> (r: Scissor)
    ensures
        r == crop_spec(x as int, y as int, w as int, h as int, active),
{
    let x_neg: i64 = if x < 0 {
        x as i64
    } else {
        0
    };
    let y_neg: i64 = if y < 0 {
        y as i64
    } else {
        0
    };
    let cw: i64 = w as i64 + x_neg;
    let ch: i64 = h as i64 + y_neg;
    let own = Scissor {
        x: (x as i64 - x_neg) as u32,
        y: (y as i64 - y_neg) as u32,
        w: if cw < 0 {
            0
        } else {
            cw as u32
        },
        h: if ch < 0 {
            0
        } else {
            ch as u32
        },
    };
    match active {
        None => own,
        Some(b) => intersect(own, b),
    }
}

/// A crop that lies wholly outside the active scissor lets nothing through;
/// otherwise what it lets through lies within both rectangles.
pub proof fn lemma_crop_within(a: Scissor, b: Scissor)
    ensures
        disjoint(a, b) ==> is_empty(intersect_spec(a, b)),
        !disjoint(a, b) ==> within(intersect_spec(a, b), a) && within(intersect_spec(a, b), b),
{
}

} // verus!
