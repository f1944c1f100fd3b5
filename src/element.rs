//! Elements: rectangles of known size that snap together into layouts,
//! and the directions, anchors and image styles that arrange them.

use crate::layout::{
    flow_fits, flow_size, flow_size_spec, lemma_stack_two, over_spec, point_over, proportional,
    scale_dimension, total,
};
use vstd::prelude::*;

verus! {

/// The direction for a flow of elements.
#[derive(Clone, Copy, Debug, PartialEq, Eq, Structural)]
pub enum Direction {
    Up,
    Down,
    Left,
    Right,
    In,
    Out,
}

pub fn up() -> (r: Direction)
    ensures
        r == Direction::Up,
{
    Direction::Up
}

pub fn down() -> (r: Direction)
    ensures
        r == Direction::Down,
{
    Direction::Down
}

pub fn left() -> (r: Direction)
    ensures
        r == Direction::Left,
{
    Direction::Left
}

pub fn right() -> (r: Direction)
    ensures
        r == Direction::Right,
{
    Direction::Right
}

pub fn inward() -> (r: Direction)
    ensures
        r == Direction::In,
{
    Direction::In
}

pub fn outward() -> (r: Direction)
    ensures
        r == Direction::Out,
{
    Direction::Out
}

/// An anchor along one axis: `P` is the far side (right, or top), `Z` the
/// centre and `N` the near side (left, or bottom).
#[derive(Clone, Copy, Debug, PartialEq, Eq, Structural)]
pub enum Three {
    P,
    Z,
    N,
}

/// Styling for an image element.
#[derive(Clone, Copy, Debug, PartialEq, Eq, Structural)]
pub enum ImageStyle {
    Plain,
    Fitted,
    Cropped(i32, i32),
    Tiled,
}

/// An offset along one axis: in pixels, or as a fraction `R` of the room
/// that a child leaves in its container.
#[derive(Clone, Copy, Debug, PartialEq)]
pub enum Pos<R> {
    Absolute(i32),
    Relative(R),
}

/// Where a container puts its child: an anchor and an offset on each axis.
#[derive(Clone, Copy, Debug, PartialEq)]
pub struct Position<R> {
    pub horizontal: Three,
    pub vertical: Three,
    pub x: Pos<R>,
    pub y: Pos<R>,
}

/// An element's properties. The element is `width` by `height` pixels; its
/// `opacity` (none set: fully opaque), its `crop` rectangle (centre `x`,
/// `y`, then `w`, `h`) and its background `color` are carried for drawing.
#[derive(Clone, Debug)]
pub struct Properties<C, R> {
    pub width: i32,
    pub height: i32,
    pub opacity: Option<R>,
    pub crop: Option<(R, R, R, R)>,
    pub color: Option<C>,
}

/// A rectangle of known size that snaps together with others into layouts.
/// It is generic over the colors `C`, the forms `F` of its collages and the
/// real numbers `R` of its opacity, crop and relative offsets.
#[derive(Debug)]
pub struct Element<C, F, R> {
    pub props: Properties<C, R>,
    pub element: Prim<C, F, R>,
}

/// The various kinds of elements.
#[derive(Debug)]
pub enum Prim<C, F, R> {
    /// An image of the given style and size, from the file at a path.
    Image(ImageStyle, i32, i32, String),
    Container(Position<R>, Box<Element<C, F, R>>),
    Flow(Direction, Vec<Element<C, F, R>>),
    /// A canvas of the given size holding freeform forms.
    Collage(i32, i32, Vec<F>),
    /// A child drawn after the screen is cleared to a color.
    Cleared(C, Box<Element<C, F, R>>),
    Spacer,
}

/// The properties of a new element: its size and nothing else set.
pub open spec fn plain_props<C, R>(width: i32, height: i32) -> Properties<C, R> {
    Properties { width, height, opacity: None, crop: None, color: None }
}

/// The sizes of the elements, in order.
pub open spec fn sizes<C, F, R>(elements: Seq<Element<C, F, R>>) -> Seq<(i32, i32)> {
    elements.map_values(|e: Element<C, F, R>| (e.props.width, e.props.height))
}

/// `e` is a new flow in `dir` of exactly `children`, sized by the flow rule.
pub open spec fn is_flow_of<C, F, R>(
    e: Element<C, F, R>,
    dir: Direction,
    children: Seq<Element<C, F, R>>,
) -> bool {
    &&& e.props == plain_props::<C, R>(
        flow_size_spec(dir, sizes(children)).0 as i32,
        flow_size_spec(dir, sizes(children)).1 as i32,
    )
    &&& e.element matches Prim::Flow(d, v) && d == dir && v@ == children
}

/// The properties of `e` once its width is set to `new_width`: an image or
/// a collage keeps the aspect ratio of its own size, its height following;
/// any other element keeps its properties.
pub open spec fn with_width<C, F, R>(e: Element<C, F, R>, new_width: i32) -> Properties<C, R> {
    match e.element {
        Prim::Image(_, w, h, _) => Properties {
            width: new_width,
            height: proportional(h as int, w as int, new_width as int) as i32,
            ..e.props
        },
        Prim::Collage(w, h, _) => Properties {
            width: new_width,
            height: proportional(h as int, w as int, new_width as int) as i32,
            ..e.props
        },
        _ => e.props,
    }
}

/// The properties of `e` once its height is set to `new_height`, as
/// `with_width` does for the width.
pub open spec fn with_height<C, F, R>(e: Element<C, F, R>, new_height: i32) -> Properties<C, R> {
    match e.element {
        Prim::Image(_, w, h, _) => Properties {
            width: proportional(w as int, h as int, new_height as int) as i32,
            height: new_height,
            ..e.props
        },
        Prim::Collage(w, h, _) => Properties {
            width: proportional(w as int, h as int, new_height as int) as i32,
            height: new_height,
            ..e.props
        },
        _ => e.props,
    }
}

/// Construct a new element from its width, height and kind.
pub fn new_element<C, F, R>(w: i32, h: i32, element: Prim<C, F, R>) -> (r: Element<C, F, R>)
    ensures
        r.props == plain_props::<C, R>(w, h),
        r.element == element,
{
    Element { props: Properties { width: w, height: h, opacity: None, crop: None, color: None }, element }
}

/// Return the size of the element.
pub fn size_of<C, F, R>(e: &Element<C, F, R>) -> (r: (i32, i32))
    ensures
        r == (e.props.width, e.props.height),
{
    (e.props.width, e.props.height)
}

/// An empty box: useful for spacing and borders.
pub fn spacer<C, F, R>(w: i32, h: i32) -> (r: Element<C, F, R>)
    ensures
        r.props == plain_props::<C, R>(w, h),
        r.element is Spacer,
{
    new_element(w, h, Prim::Spacer)
}

/// An element that takes up no space.
pub fn empty<C, F, R>() -> (r: Element<C, F, R>)
    ensures
        r.props == plain_props::<C, R>(0, 0),
        r.element is Spacer,
{
    spacer(0, 0)
}

/// An image of the given size from the file at `path`.
pub fn image<C, F, R>(w: i32, h: i32, path: String) -> (r: Element<C, F, R>)
    ensures
        r.props == plain_props::<C, R>(w, h),
        r.element == Prim::<C, F, R>::Image(ImageStyle::Plain, w, h, path),
{
    new_element(w, h, Prim::Image(ImageStyle::Plain, w, h, path))
}

/// An image cropped to best fill the given size.
pub fn fitted_image<C, F, R>(w: i32, h: i32, path: String) -> (r: Element<C, F, R>)
    ensures
        r.props == plain_props::<C, R>(w, h),
        r.element == Prim::<C, F, R>::Image(ImageStyle::Fitted, w, h, path),
{
    new_element(w, h, Prim::Image(ImageStyle::Fitted, w, h, path))
}

/// The rectangle of the picture of the given size whose top left corner is
/// at `(x, y)`.
pub fn cropped_image<C, F, R>(x: i32, y: i32, w: i32, h: i32, path: String) -> (r: Element<C, F, R>)
    ensures
        r.props == plain_props::<C, R>(w, h),
        r.element == Prim::<C, F, R>::Image(ImageStyle::Cropped(x, y), w, h, path),
{
    new_element(w, h, Prim::Image(ImageStyle::Cropped(x, y), w, h, path))
}

/// An image tiled over the given size.
pub fn tiled_image<C, F, R>(w: i32, h: i32, path: String) -> (r: Element<C, F, R>)
    ensures
        r.props == plain_props::<C, R>(w, h),
        r.element == Prim::<C, F, R>::Image(ImageStyle::Tiled, w, h, path),
{
    new_element(w, h, Prim::Image(ImageStyle::Tiled, w, h, path))
}

/// The sizes of the elements, in order.
fn sizes_of<C, F, R>(elements: &Vec<Element<C, F, R>>) -> (r: Vec<(i32, i32)>)
    ensures
        r@ == sizes(elements@),
{
    let mut r: Vec<(i32, i32)> = Vec::new();
    let mut i: usize = 0;
    while i < elements.len()
        invariant
            i <= elements@.len(),
            r@ == sizes(elements@.take(i as int)),
        decreases elements@.len() - i,
    {
        r.push((elements[i].props.width, elements[i].props.height));
        i = i + 1;
        proof {
            assert(r@ =~= sizes(elements@.take(i as int)));
        }
    }
    proof {
        assert(elements@.take(elements@.len() as int) =~= elements@);
    }
    r
}

/// Have the elements flow in a direction, starting from the first one. No
/// elements give an empty element.
pub fn flow<C, F, R>(dir: Direction, elements: Vec<Element<C, F, R>>) -> (r: Element<C, F, R>)
    requires
        flow_fits(dir, sizes(elements@)),
    ensures
        elements@.len() == 0 ==> r.props == plain_props::<C, R>(0, 0) && r.element is Spacer,
        elements@.len() > 0 ==> is_flow_of(r, dir, elements@),
{
    if elements.len() == 0 {
        return empty();
    }
    let (w, h) = flow_size(dir, &sizes_of(&elements));
    new_element(w, h, Prim::Flow(dir, elements))
}

/// Layer elements on top of each other, starting from the bottom.
pub fn layers<C, F, R>(elements: Vec<Element<C, F, R>>) -> (r: Element<C, F, R>)
    ensures
        is_flow_of(r, Direction::Out, elements@),
{
    let (w, h) = flow_size(Direction::Out, &sizes_of(&elements));
    new_element(w, h, Prim::Flow(Direction::Out, elements))
}

/// A pixel offset.
pub fn absolute<R>(i: i32) -> (r: Pos<R>)
    ensures
        r == Pos::<R>::Absolute(i),
{
    Pos::Absolute(i)
}

/// An offset as a fraction of the room that the child leaves.
pub fn relative<R>(f: R) -> (r: Pos<R>)
    ensures
        r == Pos::Relative(f),
{
    Pos::Relative(f)
}

fn p<R>(h: Three, v: Three, x: Pos<R>, y: Pos<R>) -> (r: Position<R>)
    ensures
        r == (Position { horizontal: h, vertical: v, x, y }),
{
    Position { horizontal: h, vertical: v, x, y }
}

pub fn top_left<R>() -> (r: Position<R>)
    ensures
        r == (Position::<R> { horizontal: Three::N, vertical: Three::P, x: Pos::Absolute(0), y: Pos::Absolute(0) }),
{
    p(Three::N, Three::P, absolute(0), absolute(0))
}

pub fn top_right<R>() -> (r: Position<R>)
    ensures
        r == (Position::<R> { horizontal: Three::P, vertical: Three::P, x: Pos::Absolute(0), y: Pos::Absolute(0) }),
{
    p(Three::P, Three::P, absolute(0), absolute(0))
}

pub fn bottom_left<R>() -> (r: Position<R>)
    ensures
        r == (Position::<R> { horizontal: Three::N, vertical: Three::N, x: Pos::Absolute(0), y: Pos::Absolute(0) }),
{
    p(Three::N, Three::N, absolute(0), absolute(0))
}

pub fn bottom_right<R>() -> (r: Position<R>)
    ensures
        r == (Position::<R> { horizontal: Three::P, vertical: Three::N, x: Pos::Absolute(0), y: Pos::Absolute(0) }),
{
    p(Three::P, Three::N, absolute(0), absolute(0))
}

pub fn middle_at<R>(x: Pos<R>, y: Pos<R>) -> (r: Position<R>)
    ensures
        r == (Position { horizontal: Three::Z, vertical: Three::Z, x, y }),
{
    p(Three::Z, Three::Z, x, y)
}

pub fn top_left_at<R>(x: Pos<R>, y: Pos<R>) -> (r: Position<R>)
    ensures
        r == (Position { horizontal: Three::N, vertical: Three::P, x, y }),
{
    p(Three::N, Three::P, x, y)
}

pub fn top_right_at<R>(x: Pos<R>, y: Pos<R>) -> (r: Position<R>)
    ensures
        r == (Position { horizontal: Three::P, vertical: Three::P, x, y }),
{
    p(Three::P, Three::P, x, y)
}

pub fn bottom_left_at<R>(x: Pos<R>, y: Pos<R>) -> (r: Position<R>)
    ensures
        r == (Position { horizontal: Three::N, vertical: Three::N, x, y }),
{
    p(Three::N, Three::N, x, y)
}

pub fn bottom_right_at<R>(x: Pos<R>, y: Pos<R>) -> (r: Position<R>)
    ensures
        r == (Position { horizontal: Three::P, vertical: Three::N, x, y }),
{
    p(Three::P, Three::N, x, y)
}

pub fn mid_left_at<R>(x: Pos<R>, y: Pos<R>) -> (r: Position<R>)
    ensures
        r == (Position { horizontal: Three::N, vertical: Three::Z, x, y }),
{
    p(Three::N, Three::Z, x, y)
}

pub fn mid_right_at<R>(x: Pos<R>, y: Pos<R>) -> (r: Position<R>)
    ensures
        r == (Position { horizontal: Three::P, vertical: Three::Z, x, y }),
{
    p(Three::P, Three::Z, x, y)
}

pub fn mid_top_at<R>(x: Pos<R>, y: Pos<R>) -> (r: Position<R>)
    ensures
        r == (Position { horizontal: Three::Z, vertical: Three::P, x, y }),
{
    p(Three::Z, Three::P, x, y)
}

pub fn mid_bottom_at<R>(x: Pos<R>, y: Pos<R>) -> (r: Position<R>)
    ensures
        r == (Position { horizontal: Three::Z, vertical: Three::N, x, y }),
{
    p(Three::Z, Three::N, x, y)
}

/// The sizes of two elements, and their heights added up.
proof fn lemma_sizes_two<C, F, R>(a: Element<C, F, R>, b: Element<C, F, R>)
    ensures
        sizes(seq![a, b]) == seq![(a.props.width, a.props.height), (b.props.width, b.props.height)],
        total(sizes(seq![a, b]), false) == a.props.height + b.props.height,
        total(sizes(seq![a, b]), true) == a.props.width + b.props.width,
{
    assert(sizes(seq![a, b]) =~= seq![(a.props.width, a.props.height), (b.props.width, b.props.height)]);
    let s = sizes(seq![a, b]);
    assert(s.drop_last() =~= seq![(a.props.width, a.props.height)]);
    assert(s.drop_last().drop_last() =~= Seq::<(i32, i32)>::empty());
    reveal_with_fuel(total, 3);
}

impl<C, F, R> Element<C, F, R> {
    /// The element at a given width: an image or a collage keeps its aspect
    /// ratio, its height following; any other element is left as it is.
    pub fn width(self, new_width: i32) -> (r: Element<C, F, R>)
        ensures
            r.props == with_width(self, new_width),
            r.element == self.element,
    {
        let Element { props, element } = self;
        let new_props = match &element {
            Prim::Image(_, w, h, _) => Properties {
                width: new_width,
                height: scale_dimension(*h, *w, new_width),
                ..props
            },
            Prim::Collage(w, h, _) => Properties {
                width: new_width,
                height: scale_dimension(*h, *w, new_width),
                ..props
            },
            _ => props,
        };
        Element { props: new_props, element }
    }

    /// The element at a given height: an image or a collage keeps its
    /// aspect ratio, its width following; any other element is left as it
    /// is.
    pub fn height(self, new_height: i32) -> (r: Element<C, F, R>)
        ensures
            r.props == with_height(self, new_height),
            r.element == self.element,
    {
        let Element { props, element } = self;
        let new_props = match &element {
            Prim::Image(_, w, h, _) => Properties {
                width: scale_dimension(*w, *h, new_height),
                height: new_height,
                ..props
            },
            Prim::Collage(w, h, _) => Properties {
                width: scale_dimension(*w, *h, new_height),
                height: new_height,
                ..props
            },
            _ => props,
        };
        Element { props: new_props, element }
    }

    /// The element at a given size: its height is set, then its width.
    pub fn size(self, new_w: i32, new_h: i32) -> (r: Element<C, F, R>)
        ensures
            r.props == with_width(
                Element { props: with_height(self, new_h), element: self.element },
                new_w,
            ),
            r.element == self.element,
    {
        self.height(new_h).width(new_w)
    }

    /// The element with a given opacity.
    pub fn opacity(self, opacity: R) -> (r: Element<C, F, R>)
        ensures
            r.props == (Properties { opacity: Some(opacity), ..self.props }),
            r.element == self.element,
    {
        let Element { props, element } = self;
        Element { props: Properties { opacity: Some(opacity), ..props }, element }
    }

    /// The element with a given background color.
    pub fn color(self, color: C) -> (r: Element<C, F, R>)
        ensures
            r.props == (Properties { color: Some(color), ..self.props }),
            r.element == self.element,
    {
        let Element { props, element } = self;
        Element { props: Properties { color: Some(color), ..props }, element }
    }

    /// The element cropped to the rectangle centred on `(x, y)` with extent
    /// `w` by `h`.
    pub fn crop(self, x: R, y: R, w: R, h: R) -> (r: Element<C, F, R>)
        ensures
            r.props == (Properties { crop: Some((x, y, w, h)), ..self.props }),
            r.element == self.element,
    {
        let Element { props, element } = self;
        Element { props: Properties { crop: Some((x, y, w, h)), ..props }, element }
    }

    /// The element in a container of the given size, at `pos`.
    pub fn container(self, w: i32, h: i32, pos: Position<R>) -> (r: Element<C, F, R>)
        ensures
            r.props == plain_props::<C, R>(w, h),
            r.element matches Prim::Container(q, child) && q == pos && *child == self,
    {
        new_element(w, h, Prim::Container(pos, Box::new(self)))
    }

    /// The element in a wrapper of its own size that clears the screen to
    /// `color` before the element is drawn.
    pub fn clear(self, color: C) -> (r: Element<C, F, R>)
        ensures
            r.props == plain_props::<C, R>(self.props.width, self.props.height),
            r.element matches Prim::Cleared(c, child) && c == color && *child == self,
    {
        let (w, h) = (self.props.width, self.props.height);
        new_element(w, h, Prim::Cleared(color, Box::new(self)))
    }

    /// Stack elements vertically: `a.above(b)` puts `a` above `b`, as a
    /// downward flow of the two does.
    pub fn above(self, other: Element<C, F, R>) -> (r: Element<C, F, R>)
        requires
            i32::MIN <= self.props.height + other.props.height <= i32::MAX,
        ensures
            is_flow_of(r, Direction::Down, seq![self, other]),
    {
        let mut v: Vec<Element<C, F, R>> = Vec::new();
        v.push(self);
        v.push(other);
        proof {
            assert(v@ =~= seq![self, other]);
            lemma_sizes_two(self, other);
        }
        flow(Direction::Down, v)
    }

    /// Stack elements vertically: `a.below(b)` puts `a` below `b`, which is
    /// `b.above(a)`.
    pub fn below(self, other: Element<C, F, R>) -> (r: Element<C, F, R>)
        requires
            i32::MIN <= self.props.height + other.props.height <= i32::MAX,
        ensures
            is_flow_of(r, Direction::Down, seq![other, self]),
    {
        other.above(self)
    }

    /// Put elements side by side: `a.beside(b)` puts `b` to the right of
    /// `a`.
    pub fn beside(self, other: Element<C, F, R>) -> (r: Element<C, F, R>)
        requires
            i32::MIN <= self.props.width + other.props.width <= i32::MAX,
        ensures
            is_flow_of(r, Direction::Right, seq![self, other]),
    {
        let mut v: Vec<Element<C, F, R>> = Vec::new();
        v.push(self);
        v.push(other);
        proof {
            assert(v@ =~= seq![self, other]);
            lemma_sizes_two(self, other);
        }
        flow(Direction::Right, v)
    }

    /// Return the width of the element.
    pub fn get_width(&self) -> (r: i32)
        ensures
            r == self.props.width,
    {
        self.props.width
    }

    /// Return the height of the element.
    pub fn get_height(&self) -> (r: i32)
        ensures
            r == self.props.height,
    {
        self.props.height
    }

    /// Return the size of the element's bounding rectangle.
    pub fn get_size(&self) -> (r: (i32, i32))
        ensures
            r == (self.props.width, self.props.height),
    {
        (self.props.width, self.props.height)
    }

    /// Whether the point `(x, y)`, measured from the element's centre, is
    /// over the element.
    pub fn is_over(&self, x: i32, y: i32) -> (r: bool)
        ensures
            r == over_spec(self.props.width as int, self.props.height as int, x as int, y as int),
    {
        point_over(self.props.width, self.props.height, x, y)
    }
}

/// Two elements stacked one above the other make an element as wide as the
/// wider of them and as tall as both together; stacking them the other way
/// round, `a.below(b)` against `a.above(b)`, gives the same size.
pub proof fn lemma_above_size<C, F, R>(e: Element<C, F, R>, a: Element<C, F, R>, b: Element<C, F, R>)
    requires
        is_flow_of(e, Direction::Down, seq![a, b]),
        i32::MIN <= a.props.height + b.props.height <= i32::MAX,
    ensures
        e.props.width == (if a.props.width >= b.props.width {
            a.props.width
        } else {
            b.props.width
        }),
        e.props.height == a.props.height + b.props.height,
        flow_size_spec(Direction::Down, sizes(seq![b, a])) == flow_size_spec(
            Direction::Down,
            sizes(seq![a, b]),
        ),
{
    lemma_sizes_two(a, b);
    lemma_sizes_two(b, a);
    lemma_stack_two((a.props.width, a.props.height), (b.props.width, b.props.height));
}

/// `b` is a copy of `a`: the same properties and kind, with copies of the
/// same children, and as many forms in each collage.
pub open spec fn is_copy<C, F, R>(a: Element<C, F, R>, b: Element<C, F, R>) -> bool
    decreases a,
{
    &&& a.props == b.props
    &&& match a.element {
        Prim::Image(s, w, h, path) => b.element == Prim::<C, F, R>::Image(s, w, h, path),
        Prim::Container(q, c) => b.element matches Prim::Container(q2, c2) && q2 == q && is_copy(
            *c,
            *c2,
        ),
        Prim::Flow(d, v) => b.element matches Prim::Flow(d2, v2) && d2 == d && v2@.len()
            == v@.len() && forall|i: int| 0 <= i < v@.len() ==> is_copy(v@[i], #[trigger] v2@[i]),
        Prim::Collage(w, h, f) => b.element matches Prim::Collage(w2, h2, f2) && w2 == w && h2 == h
            && f2@.len() == f@.len(),
        Prim::Cleared(k, c) => b.element matches Prim::Cleared(k2, c2) && k2 == k && is_copy(
            *c,
            *c2,
        ),
        Prim::Spacer => b.element is Spacer,
    }
}

impl<C: Copy, F: Clone, R: Copy> Element<C, F, R> {
    /// A copy of the element and of everything it holds; the forms of its
    /// collages are copied by their own `clone`.
    pub fn duplicate(&self) -> (r: Element<C, F, R>)
        ensures
            is_copy(*self, r),
        decreases self,
    {
        let props = Properties {
            width: self.props.width,
            height: self.props.height,
            opacity: self.props.opacity,
            crop: self.props.crop,
            color: self.props.color,
        };
        let element = match &self.element {
            Prim::Image(style, w, h, path) => Prim::Image(*style, *w, *h, path.clone()),
            Prim::Container(pos, child) => Prim::Container(*pos, Box::new(child.duplicate())),
            Prim::Flow(dir, children) => {
                let mut copies: Vec<Element<C, F, R>> = Vec::new();
                let mut i: usize = 0;
                while i < children.len()
                    invariant
                        i <= children@.len(),
                        self.element == Prim::Flow(*dir, *children),
                        copies@.len() == i,
                        forall|j: int| 0 <= j < i ==> is_copy(children@[j], #[trigger] copies@[j]),
                    decreases children@.len() - i,
                {
                    proof {
                        assert(decreases_to!(*self => self.element));
                        assert(decreases_to!(self.element => self.element->Flow_1));
                        assert(decreases_to!(*children => children@));
                        assert(decreases_to!(children@ => children@[i as int]));
                    }
                    copies.push(children[i].duplicate());
                    i = i + 1;
                }
                Prim::Flow(*dir, copies)
            },
            Prim::Collage(w, h, forms) => Prim::Collage(*w, *h, forms.clone()),
            Prim::Cleared(color, child) => Prim::Cleared(*color, Box::new(child.duplicate())),
            Prim::Spacer => Prim::Spacer,
        };
        Element { props, element }
    }
}

} // verus!
