//! Styled text: a run of units, each a string with its own style.
//!
//! Text is generic over the color `C` and the height `H` of its units: the
//! library carries them into place without reading them.

use vstd::prelude::*;
use vstd::string::StringExecFns;

verus! {

/// Lines drawn on text: under it, over it, or through it.
#[derive(Clone, Copy, Debug, PartialEq, Eq, Structural)]
pub enum Line {
    Under,
    Over,
    Through,
}

/// Where text stands relative to its centre point.
#[derive(Clone, Copy, Debug, PartialEq, Eq, Structural)]
pub enum Position {
    Center,
    ToLeft,
    ToRight,
}

/// All the ways a unit of text can be styled. An empty `typeface` (the path
/// of a typeface file) or a `height` of `None` falls back on the renderer's
/// defaults.
#[derive(Clone, Debug)]
pub struct Style<C, H> {
    pub typeface: Option<String>,
    pub height: Option<H>,
    pub color: C,
    pub bold: bool,
    pub italic: bool,
    pub line: Option<Line>,
    pub monospace: bool,
}

/// A string with one style.
#[derive(Clone, Debug)]
pub struct TextUnit<C, H> {
    pub string: String,
    pub style: Style<C, H>,
}

/// Drawable text.
#[derive(Clone, Debug)]
pub struct Text<C, H> {
    pub sequence: Vec<TextUnit<C, H>>,
    pub position: Position,
}

/// A style that sets nothing but its color.
pub open spec fn is_plain<C, H>(s: Style<C, H>) -> bool {
    &&& s.typeface is None
    &&& s.height is None
    &&& !s.bold
    &&& !s.italic
    &&& s.line is None
    &&& !s.monospace
}

/// The units of all `texts`, one text after another.
pub open spec fn all_units<C, H>(texts: Seq<Text<C, H>>) -> Seq<TextUnit<C, H>>
    decreases texts.len(),
{
    if texts.len() == 0 {
        Seq::empty()
    } else {
        all_units(texts.drop_last()) + texts.last().sequence@
    }
}

/// The units of `texts` joined by `separator`: an empty unit, then each
/// text followed by the separator.
pub open spec fn joined_units<C, H>(
    first: TextUnit<C, H>,
    separator: Seq<TextUnit<C, H>>,
    texts: Seq<Text<C, H>>,
) -> Seq<TextUnit<C, H>>
    decreases texts.len(),
{
    if texts.len() == 0 {
        seq![first]
    } else {
        joined_units(first, separator, texts.drop_last()) + texts.last().sequence@ + separator
    }
}

proof fn lemma_joined_starts_with<C, H>(
    first: TextUnit<C, H>,
    separator: Seq<TextUnit<C, H>>,
    texts: Seq<Text<C, H>>,
)
    ensures
        joined_units(first, separator, texts).len() > 0,
        joined_units(first, separator, texts)[0] == first,
    decreases texts.len(),
{
    if texts.len() > 0 {
        lemma_joined_starts_with(first, separator, texts.drop_last());
    }
}

/// One change that a builder makes to the style of every unit.
enum Change<C, H> {
    Typeface(String),
    Height(H),
    Color(C),
    Bold,
    Italic,
    Line(Line),
    Monospace,
}

/// The style `s` after `change`.
spec fn changed<C, H>(change: Change<C, H>, s: Style<C, H>) -> Style<C, H> {
    match change {
        Change::Typeface(path) => Style { typeface: Some(path), ..s },
        Change::Height(h) => Style { height: Some(h), ..s },
        Change::Color(c) => Style { color: c, ..s },
        Change::Bold => Style { bold: true, ..s },
        Change::Italic => Style { italic: true, ..s },
        Change::Line(l) => Style { line: Some(l), ..s },
        Change::Monospace => Style { monospace: true, ..s },
    }
}

/// A unit whose style is that of `u` with one field changed by `f`.
pub open spec fn restyled<C, H>(u: TextUnit<C, H>, f: spec_fn(Style<C, H>) -> Style<C, H>) -> TextUnit<
    C,
    H,
> {
    TextUnit { string: u.string, style: f(u.style) }
}

/// Every unit of `new` is the unit of `old` at the same place, its style
/// changed by `f`.
pub open spec fn broadcast<C, H>(
    old_units: Seq<TextUnit<C, H>>,
    new_units: Seq<TextUnit<C, H>>,
    f: spec_fn(Style<C, H>) -> Style<C, H>,
) -> bool {
    &&& new_units.len() == old_units.len()
    &&& forall|i: int| 0 <= i < new_units.len() ==> new_units[i] == restyled(old_units[i], f)
}

impl<C: Copy, H: Copy> Style<C, H> {
    /// A copy of the style.
    pub fn copy(&self) -> (r: Style<C, H>)
        ensures
            r == *self,
    {
        let typeface = match &self.typeface {
            Some(t) => Some(t.clone()),
            None => None,
        };
        Style {
            typeface,
            height: self.height,
            color: self.color,
            bold: self.bold,
            italic: self.italic,
            line: self.line,
            monospace: self.monospace,
        }
    }
}

impl<C: Copy + Default, H: Copy> Style<C, H> {
    /// The default style: the default color and nothing else set.
    pub fn default() -> (r: Style<C, H>)
        ensures
            is_plain(r),
    {
        Style {
            typeface: None,
            height: None,
            color: C::default(),
            bold: false,
            italic: false,
            line: None,
            monospace: false,
        }
    }
}

impl<C: Copy, H: Copy> TextUnit<C, H> {
    /// A copy of the unit.
    pub fn copy(&self) -> (r: TextUnit<C, H>)
        ensures
            r == *self,
    {
        TextUnit { string: self.string.clone(), style: self.style.copy() }
    }
}

impl<C: Copy + Default, H: Copy> Text<C, H> {
    /// Text of one string in the default style.
    pub fn from_string(string: String) -> (r: Text<C, H>)
        ensures
            r.sequence@.len() == 1,
            r.sequence@[0].string == string,
            is_plain(r.sequence@[0].style),
            r.position == Position::Center,
    {
        let mut sequence = Vec::new();
        sequence.push(TextUnit { string, style: Style::default() });
        Text { sequence, position: Position::Center }
    }

    /// Text with nothing in it: one empty string in the default style.
    pub fn empty() -> (r: Text<C, H>)
        ensures
            r.sequence@.len() == 1,
            r.sequence@[0].string@ == Seq::<char>::empty(),
            is_plain(r.sequence@[0].style),
            r.position == Position::Center,
    {
        Text::from_string(String::new())
    }

    /// Put two chunks of text together.
    pub fn append(self, other: Text<C, H>) -> (r: Text<C, H>)
        ensures
            r.sequence@ == self.sequence@ + other.sequence@,
            r.position == self.position,
    {
        let mut s = self;
        let mut o = other;
        s.sequence.append(&mut o.sequence);
        s
    }

    /// Put many chunks of text together, in the position of the first.
    pub fn concat(texts: Vec<Text<C, H>>) -> (r: Text<C, H>)
        ensures
            r.sequence@ == all_units(texts@),
            r.position == (if texts@.len() > 0 {
                texts@[0].position
            } else {
                Position::Center
            }),
    {
        let position = if texts.len() > 0 {
            texts[0].position
        } else {
            Position::Center
        };
        let ghost given = texts@;
        let mut texts = texts;
        let mut sequence: Vec<TextUnit<C, H>> = Vec::new();
        let mut i: usize = 0;
        while i < texts.len()
            invariant
                i <= texts@.len(),
                texts@.len() == given.len(),
                forall|j: int| i <= j < given.len() ==> texts@[j] == given[j],
                sequence@ == all_units(given.take(i as int)),
            decreases texts@.len() - i,
        {
            proof {
                assert(given.take(i as int + 1).drop_last() =~= given.take(i as int));
            }
            sequence.append(&mut texts[i].sequence);
            i = i + 1;
        }
        proof {
            assert(given.take(given.len() as int) =~= given);
        }
        Text { sequence, position }
    }

    /// Put many chunks of text together with a separator after each one.
    pub fn join(separator: Text<C, H>, texts: Vec<Text<C, H>>) -> (r: Text<C, H>)
        ensures
            r.sequence@.len() > 0,
            r.sequence@[0].string@ == Seq::<char>::empty(),
            is_plain(r.sequence@[0].style),
            r.sequence@ == joined_units(r.sequence@[0], separator.sequence@, texts@),
            r.position == Position::Center,
    {
        let mut r: Text<C, H> = Text::empty();
        let ghost first = r.sequence@[0];
        let ghost given = texts@;
        let mut texts = texts;
        let mut i: usize = 0;
        while i < texts.len()
            invariant
                i <= texts@.len(),
                texts@.len() == given.len(),
                forall|j: int| i <= j < given.len() ==> texts@[j] == given[j],
                r.sequence@ == joined_units(first, separator.sequence@, given.take(i as int)),
                r.position == Position::Center,
            decreases texts@.len() - i,
        {
            proof {
                assert(given.take(i as int + 1).drop_last() =~= given.take(i as int));
            }
            r.sequence.append(&mut texts[i].sequence);
            let mut j: usize = 0;
            let ghost before = r.sequence@;
            while j < separator.sequence.len()
                invariant
                    j <= separator.sequence@.len(),
                    r.sequence@ == before + separator.sequence@.take(j as int),
                    r.position == Position::Center,
                decreases separator.sequence@.len() - j,
            {
                r.sequence.push(separator.sequence[j].copy());
                j = j + 1;
                proof {
                    assert(r.sequence@ =~= before + separator.sequence@.take(j as int));
                }
            }
            proof {
                assert(separator.sequence@.take(j as int) =~= separator.sequence@);
            }
            i = i + 1;
        }
        proof {
            assert(given.take(given.len() as int) =~= given);
            lemma_joined_starts_with(first, separator.sequence@, given);
        }
        r
    }
}

impl<C: Copy, H: Copy> Text<C, H> {
    /// Give the whole text one style: the strings of its units become one
    /// string in a single unit of that style.
    pub fn style(self, style: Style<C, H>) -> (r: Text<C, H>)
        ensures
            r.sequence@.len() == 1,
            r.sequence@[0].string@ == joined(self.sequence@.map_values(|u: TextUnit<C, H>| u.string@)),
            r.sequence@[0].style == style,
            r.position == self.position,
    {
        let mut strings: Vec<String> = Vec::new();
        let mut i: usize = 0;
        while i < self.sequence.len()
            invariant
                i <= self.sequence@.len(),
                strings@.len() == i,
                forall|j: int| 0 <= j < i ==> strings@[j] == self.sequence@[j].string,
            decreases self.sequence@.len() - i,
        {
            strings.push(self.sequence[i].string.clone());
            i = i + 1;
        }
        proof {
            assert(strings@.map_values(|s: String| s@) =~= self.sequence@.map_values(
                |u: TextUnit<C, H>| u.string@,
            ));
        }
        let string = collapse(&strings);
        let mut sequence = Vec::new();
        sequence.push(TextUnit { string, style });
        Text { sequence, position: self.position }
    }

    /// Change the style of every unit by `change`.
    fn restyle(self, change: &Change<C, H>) -> (r: Text<C, H>)
        ensures
            broadcast(self.sequence@, r.sequence@, |s: Style<C, H>| changed(*change, s)),
            r.position == self.position,
    {
        let mut t = self;
        let ghost old_units = t.sequence@;
        let mut i: usize = 0;
        while i < t.sequence.len()
            invariant
                i <= t.sequence@.len(),
                t.sequence@.len() == old_units.len(),
                t.position == self.position,
                old_units == self.sequence@,
                forall|j: int| i <= j < t.sequence@.len() ==> t.sequence@[j] == old_units[j],
                forall|j: int|
                    0 <= j < i ==> t.sequence@[j] == restyled(
                        old_units[j],
                        |s: Style<C, H>| changed(*change, s),
                    ),
            decreases t.sequence@.len() - i,
        {
            match change {
                Change::Typeface(path) => {
                    t.sequence[i].style.typeface = Some(path.clone());
                },
                Change::Height(h) => {
                    t.sequence[i].style.height = Some(*h);
                },
                Change::Color(c) => {
                    t.sequence[i].style.color = *c;
                },
                Change::Bold => {
                    t.sequence[i].style.bold = true;
                },
                Change::Italic => {
                    t.sequence[i].style.italic = true;
                },
                Change::Line(l) => {
                    t.sequence[i].style.line = Some(*l);
                },
                Change::Monospace => {
                    t.sequence[i].style.monospace = true;
                },
            }
            i = i + 1;
        }
        t
    }

    /// Set the typeface of every unit to the one at `path`.
    pub fn typeface(self, path: String) -> (r: Text<C, H>)
        ensures
            broadcast(
                self.sequence@,
                r.sequence@,
                |s: Style<C, H>| Style { typeface: Some(path), ..s },
            ),
            r.position == self.position,
    {
        self.restyle(&Change::Typeface(path))
    }

    /// Switch every unit to a monospace typeface.
    pub fn monospace(self) -> (r: Text<C, H>)
        ensures
            broadcast(self.sequence@, r.sequence@, |s: Style<C, H>| Style { monospace: true, ..s }),
            r.position == self.position,
    {
        self.restyle(&Change::Monospace)
    }

    /// Set the height of every unit, in pixels.
    pub fn height(self, h: H) -> (r: Text<C, H>)
        ensures
            broadcast(self.sequence@, r.sequence@, |s: Style<C, H>| Style { height: Some(h), ..s }),
            r.position == self.position,
    {
        self.restyle(&Change::Height(h))
    }

    /// Set the color of every unit.
    pub fn color(self, color: C) -> (r: Text<C, H>)
        ensures
            broadcast(self.sequence@, r.sequence@, |s: Style<C, H>| Style { color: color, ..s }),
            r.position == self.position,
    {
        self.restyle(&Change::Color(color))
    }

    /// Make every unit bold.
    pub fn bold(self) -> (r: Text<C, H>)
        ensures
            broadcast(self.sequence@, r.sequence@, |s: Style<C, H>| Style { bold: true, ..s }),
            r.position == self.position,
    {
        self.restyle(&Change::Bold)
    }

    /// Make every unit italic.
    pub fn italic(self) -> (r: Text<C, H>)
        ensures
            broadcast(self.sequence@, r.sequence@, |s: Style<C, H>| Style { italic: true, ..s }),
            r.position == self.position,
    {
        self.restyle(&Change::Italic)
    }

    /// Put a line on every unit.
    pub fn line(self, line: Line) -> (r: Text<C, H>)
        ensures
            broadcast(self.sequence@, r.sequence@, |s: Style<C, H>| Style { line: Some(line), ..s }),
            r.position == self.position,
    {
        self.restyle(&Change::Line(line))
    }

    /// Change where the text stands relative to its centre point.
    pub fn position(self, position: Position) -> (r: Text<C, H>)
        ensures
            r.sequence@ == self.sequence@,
            r.position == position,
    {
        Text { sequence: self.sequence, position }
    }
}

/// All the characters of `parts`, one part after another.
pub open spec fn joined(parts: Seq<Seq<char>>) -> Seq<char>
    decreases parts.len(),
{
    if parts.len() == 0 {
        Seq::empty()
    } else {
        joined(parts.drop_last()) + parts.last()
    }
}

/// The strings of a run of text units put together into one, as restyling
/// text does before it gives the whole run a single style.
pub fn collapse(strings: &Vec<String>) -> (r: String)
    ensures
        r@ == joined(strings@.map_values(|s: String| s@)),
{
    let ghost views = strings@.map_values(|s: String| s@);
    let mut r = String::new();
    let mut i: usize = 0;
    while i < strings.len()
        invariant
            i <= strings@.len(),
            views == strings@.map_values(|s: String| s@),
            r@ == joined(views.take(i as int)),
        decreases strings@.len() - i,
    {
        proof {
            assert(views.take(i as int + 1).drop_last() =~= views.take(i as int));
        }
        r.append(strings[i].as_str());
        i = i + 1;
    }
    proof {
        assert(views.take(strings@.len() as int) =~= views);
    }
    r
}

} // verus!
