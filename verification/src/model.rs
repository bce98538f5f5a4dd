//! The document model: an immutable tree of pages, each a sequence of
//! transitions (reveal groups), each a sequence of content marks with their
//! styles. Image dimensions are whole pixels.

use vstd::prelude::*;

verus! {

/// Horizontal alignment of an image.
#[derive(Clone, Copy, Debug, PartialEq, Eq, Structural)]
pub enum AlignHorizontal {
    Auto,
    Left,
    Right,
    Center,
}

/// Heading level of a text mark; `H0` means no heading.
#[derive(Clone, Copy, Debug, PartialEq, Eq, Structural)]
pub enum Heading {
    H0,
    H1,
    H2,
    H3,
    H4,
    H5,
}

/// Indentation level of a listing item; `I0` means no indentation.
#[derive(Clone, Copy, Debug, PartialEq, Eq, Structural)]
pub enum IndentLevel {
    I0,
    I1,
    I2,
    I3,
    I4,
    I5,
}

impl IndentLevel {
    /// The numeric value of the level, used for indent-box widths.
    pub fn to_int(&self) -> (n: u8)
        ensures
            n == self.spec_int(),
    {
        match *self {
            IndentLevel::I0 => 0,
            IndentLevel::I1 => 1,
            IndentLevel::I2 => 2,
            IndentLevel::I3 => 3,
            IndentLevel::I4 => 4,
            IndentLevel::I5 => 5,
        }
    }

    pub open spec fn spec_int(self) -> u8 {
        match self {
            IndentLevel::I0 => 0,
            IndentLevel::I1 => 1,
            IndentLevel::I2 => 2,
            IndentLevel::I3 => 3,
            IndentLevel::I4 => 4,
            IndentLevel::I5 => 5,
        }
    }
}

/// Whether a text mark is a listing item, and of which kind.
#[derive(Clone, Copy, Debug, PartialEq, Eq, Structural)]
pub enum Listing {
    /// Not part of a list.
    Plain,
    /// Ordered list item: sequence number and indentation.
    Ordered(u8, IndentLevel),
    /// Unordered list item: indentation only.
    Unordered(IndentLevel),
}

/// Direction of a separator mark.
#[derive(Clone, Copy, Debug, PartialEq, Eq, Structural)]
pub enum SeparatorDir {
    Horizontal,
    Vertical,
}

/// Style of a text mark.
#[derive(Clone, Debug, PartialEq)]
pub struct TextStyle {
    pub bold: bool,
    /// Monospace emphasis (inline code).
    pub code: bool,
    pub heading: Heading,
    /// Hyperlink target; empty means the text is not a link.
    pub hyperlink: String,
    pub italics: bool,
    pub listing: Listing,
    pub quote: bool,
    pub small: bool,
    pub strikethrough: bool,
    pub underline: bool,
}

impl TextStyle {
    /// A plain style: no emphasis, no heading, no link, no listing.
    pub fn plain() -> (s: TextStyle)
        ensures
            s.bold == false,
            s.code == false,
            s.heading == Heading::H0,
            s.hyperlink@ == Seq::<char>::empty(),
            s.italics == false,
            s.listing == Listing::Plain,
            s.quote == false,
            s.small == false,
            s.strikethrough == false,
            s.underline == false,
    {
        TextStyle {
            bold: false,
            code: false,
            heading: Heading::H0,
            hyperlink: String::new(),
            italics: false,
            listing: Listing::Plain,
            quote: false,
            small: false,
            strikethrough: false,
            underline: false,
        }
    }
}

/// Style of an image mark. Explicit dimensions are in whole pixels.
#[derive(Clone, Copy, Debug, PartialEq)]
pub struct ImageStyle {
    pub align_h: AlignHorizontal,
    /// Explicit width, if any.
    pub width: Option<u32>,
    /// Explicit height, if any.
    pub height: Option<u32>,
}

/// A leaf content unit of a page.
#[derive(Clone, Debug, PartialEq)]
pub enum Mark {
    /// A code block: the code text and an optional language tag.
    CodeBlock(String, Option<String>),
    /// An image: resource key, hover title, and style.
    Image(String, String, ImageStyle),
    /// An explicit blank line.
    NewLine,
    /// A horizontal or vertical rule.
    Separator(SeparatorDir),
    /// Styled text.
    Text(String, TextStyle),
}

/// A reveal group: its marks become visible once the page's reveal step
/// reaches `order`. Marks are rendered in declaration order regardless of
/// `order`.
#[derive(Clone, Debug, PartialEq)]
pub struct Transition {
    pub order: usize,
    pub marks: Vec<Mark>,
}

/// One page of the document: an ordered sequence of transitions.
#[derive(Clone, Debug, PartialEq)]
pub struct Page {
    pub transitions: Vec<Transition>,
}

/// A whole presentation document: an ordered sequence of pages.
#[derive(Clone, Debug, PartialEq)]
pub struct Document {
    pub pages: Vec<Page>,
}

/// The maximum `order` over a sequence of transitions, `0` if there are none:
/// the page's highest reveal step.
pub open spec fn spec_max_step(trs: Seq<Transition>) -> int
    decreases trs.len(),
{
    if trs.len() == 0 {
        0
    } else {
        let m = spec_max_step(trs.drop_last());
        if trs.last().order > m {
            trs.last().order as int
        } else {
            m
        }
    }
}

/// A mark is visible at reveal step `step` iff its transition's `order` does
/// not exceed `step`.
pub open spec fn spec_visible(order: int, step: int) -> bool {
    order <= step
}

} // verus!
