//! What a form's outline and path strokes are made of: the pairs of
//! vertices joined by one line segment each.

use vstd::prelude::*;

verus! {

/// How the ends of a stroked line are drawn.
#[derive(Clone, Copy, Debug, PartialEq, Eq, Structural)]
pub enum LineCap {
    Flat,
    Round,
    Padded,
}

/// The segments that trace an open path of `n` points: each point joined to
/// the next one, in order.
pub open spec fn path_segments_spec(n: nat) -> Seq<(usize, usize)> {
    Seq::new(
        if n > 0 {
            (n - 1) as nat
        } else {
            0
        },
        |i: int| (i as usize, (i + 1) as usize),
    )
}

/// The segments that outline a closed shape of `n` points: those of the
/// open path, then the closing edge from the last point back to the first,
/// which only a shape of at least three points has.
pub open spec fn outline_segments_spec(n: nat) -> Seq<(usize, usize)> {
    if n > 2 {
        path_segments_spec(n).push(((n - 1) as usize, 0usize))
    } else {
        path_segments_spec(n)
    }
}

/// The segments, as pairs of point indices, that trace an open path of `n`
/// points.
pub fn path_segments(n: usize) -> (r: Vec<(usize, usize)>)
    ensures
        r@ == path_segments_spec(n as nat),
{
    let mut r: Vec<(usize, usize)> = Vec::new();
    let mut i: usize = 0;
    let last: usize = if n > 0 {
        n - 1
    } else {
        0
    };
    while i < last
        invariant
            i <= last,
            last == path_segments_spec(n as nat).len(),
            r@ =~= path_segments_spec(n as nat).take(i as int),
        decreases last - i,
    {
        r.push((i, i + 1));
        i = i + 1;
        assert(r@ =~= path_segments_spec(n as nat).take(i as int));
    }
    assert(path_segments_spec(n as nat).take(last as int) =~= path_segments_spec(n as nat));
    r
}

/// The segments, as pairs of point indices, that outline a closed shape of
/// `n` points.
pub fn outline_segments(n: usize) -> (r: Vec<(usize, usize)>)
    ensures
        r@ == outline_segments_spec(n as nat),
        n > 2 ==> r@.len() == n,
{
    let mut r = path_segments(n);
    if n > 2 {
        r.push((n - 1, 0));
    }
    r
}

} // verus!
