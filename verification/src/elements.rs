//! The layout plan: the renderable elements a paper is composed of.
//! The three custom primitives — the alphabetic ordered list, the horizontal
//! split and the character filler — carry here exactly the data their
//! rendering needs; a thin back-end outside the library turns a finished
//! plan into PDF drawing calls.

use vstd::prelude::*;
use crate::chars::is_scalar_value;
use crate::errors::GenError;
use crate::locale::PaperSize;

verus! {

/// Horizontal alignment of a paragraph.
#[derive(Clone, Copy, PartialEq, Eq, Structural, Debug)]
pub enum Align {
    Left,
    Center,
    Right,
}

/// One entry of an alphabetic list: its bullet label and its text.
#[derive(Debug, PartialEq)]
pub struct BulletItem {
    pub bullet: String,
    pub text: String,
}

/// An alphabetic ordered list: each pushed entry is labelled `c)` where `c`
/// is the start character advanced by the entry's index.
#[derive(Debug, PartialEq)]
pub struct AlphabeticOrderedList {
    pub items: Vec<BulletItem>,
    pub number: u32,
    pub start_char: char,
}

/// A single-line filler that tiles one character across the available width.
#[derive(Clone, Copy, Debug, PartialEq)]
pub struct CharRepeat(pub char);

/// A single dotted filler line; the fixed-character ancestor of
/// [`CharRepeat`].
#[derive(Clone, Copy, Debug, PartialEq)]
pub struct DottedLine;

/// A horizontal two-column element. The split ratio is kept in thousandths
/// of the available width; 0 means flow layout, where the right child starts
/// at the measured width of the left one.
#[derive(Debug, PartialEq)]
pub struct SplitElement {
    pub left: Box<PlanElement>,
    pub right: Box<PlanElement>,
    pub ratio_permille: u16,
}

/// One renderable element of the plan, in document order.
#[derive(Debug, PartialEq)]
pub enum PlanElement {
    /// A wrapped paragraph of text. A size of None inherits the document's
    /// current font size.
    Paragraph { text: String, font_size: Option<u8>, align: Align },
    /// A vertical break, measured in halves of a line height.
    Break { half_lines: u8 },
    Split(SplitElement),
    List(AlphabeticOrderedList),
    /// A character filler line with symmetric vertical padding, in tenths of
    /// a millimetre.
    PaddedFill { fill: CharRepeat, vertical_margin_tenth_mm: u8 },
    /// Sets the document's font size for the elements that follow.
    FontSize { points: u8 },
}

// ---------------------------------------------------------------------------
// Views
// ---------------------------------------------------------------------------

pub struct BulletItemV {
    pub bullet: Seq<char>,
    pub text: Seq<char>,
}

pub struct ListV {
    pub items: Seq<BulletItemV>,
    pub number: u32,
    pub start_char: char,
}

pub enum PlanElementV {
    Paragraph { text: Seq<char>, font_size: Option<u8>, align: Align },
    Break { half_lines: u8 },
    Split { left: Box<PlanElementV>, right: Box<PlanElementV>, ratio_permille: u16 },
    List(ListV),
    PaddedFill { ch: char, vertical_margin_tenth_mm: u8 },
    FontSize { points: u8 },
}

impl View for BulletItem {
    type V = BulletItemV;

    open spec fn view(&self) -> BulletItemV {
        BulletItemV { bullet: self.bullet@, text: self.text@ }
    }
}

impl View for AlphabeticOrderedList {
    type V = ListV;

    open spec fn view(&self) -> ListV {
        ListV {
            items: Seq::new(self.items@.len(), |i: int| self.items@[i]@),
            number: self.number,
            start_char: self.start_char,
        }
    }
}

/// The mathematical form of a plan element.
pub open spec fn elem_view(e: PlanElement) -> PlanElementV
    decreases e,
{
    match e {
        PlanElement::Paragraph { text, font_size, align } => PlanElementV::Paragraph {
            text: text@,
            font_size,
            align,
        },
        PlanElement::Break { half_lines } => PlanElementV::Break { half_lines },
        PlanElement::Split(sp) => PlanElementV::Split {
            left: Box::new(elem_view(*sp.left)),
            right: Box::new(elem_view(*sp.right)),
            ratio_permille: sp.ratio_permille,
        },
        PlanElement::List(l) => PlanElementV::List(l@),
        PlanElement::PaddedFill { fill, vertical_margin_tenth_mm } => PlanElementV::PaddedFill {
            ch: fill.0,
            vertical_margin_tenth_mm,
        },
        PlanElement::FontSize { points } => PlanElementV::FontSize { points },
    }
}

// ---------------------------------------------------------------------------
// The alphabetic list
// ---------------------------------------------------------------------------

/// The code point of the next bullet of `l`.
pub open spec fn bullet_code(l: ListV) -> int {
    l.start_char as u32 + l.number
}

/// Whether the next bullet of `l` is a valid code point.
pub open spec fn bullet_code_valid(l: ListV) -> bool {
    bullet_code(l) <= u32::MAX && is_scalar_value(bullet_code(l) as u32)
}

/// Equal code points come from equal characters.
proof fn lemma_char_cast_injective(a: char, b: char)
    requires
        a as u32 == b as u32,
    ensures
        a == b,
{
}

/// The character with the given code point, meaningful for scalar values.
pub open spec fn char_of(v: u32) -> char {
    choose|c: char| (#[trigger] (c as u32)) == v
}

/// `l` after an entry with the given text is appended.
pub open spec fn list_push_spec(l: ListV, text: Seq<char>) -> ListV {
    ListV {
        items: l.items.push(
            BulletItemV { bullet: seq![char_of(bullet_code(l) as u32), ')'], text },
        ),
        number: (l.number + 1) as u32,
        start_char: l.start_char,
    }
}

impl AlphabeticOrderedList {
    /// An empty list whose first bullet is `ch`.
    pub fn new(ch: char) -> (r: Self)
        ensures
            r@.items == Seq::<BulletItemV>::empty(),
            r@.number == 0u32,
            r@.start_char == ch,
    {
        Self::with_start(0, ch)
    }

    /// An empty list whose first bullet is `ch` advanced by `start`.
    pub fn with_start(start: u32, ch: char) -> (r: Self)
        ensures
            r@.items == Seq::<BulletItemV>::empty(),
            r@.number == start,
            r@.start_char == ch,
    {
        let r = AlphabeticOrderedList { items: Vec::new(), number: start, start_char: ch };
        proof {
            assert(r@.items =~= Seq::<BulletItemV>::empty());
        }
        r
    }

    /// Appends an entry, labelling it with the next bullet character. The
    /// push is rejected when that character would fall outside the valid
    /// code points.
    pub fn push(&mut self, text: String) -> (r: Result<(), GenError>)
        ensures
            bullet_code_valid(old(self)@) ==> r is Ok && final(self)@ == list_push_spec(
                old(self)@,
                text@,
            ),
            !bullet_code_valid(old(self)@) ==> r is Err && final(self)@ == old(self)@,
    {
        let code64: u64 = self.start_char as u64 + self.number as u64;
        if code64 > 0x10FFFF {
            return Err(GenError::Render);
        }
        let code: u32 = code64 as u32;
        match char::from_u32(code) {
            Some(c) => {
                let mut bullet = String::new();
                bullet.push(c);
                bullet.push(')');
                proof {
                    assert(exists|d: char| (#[trigger] (d as u32)) == code) by {
                        assert((c as u32) == code);
                    }
                    assert((c as u32) == code);
                    let d = char_of(code);
                    assert((d as u32) == code);
                    lemma_char_cast_injective(c, d);
                    assert(c == d);
                    assert(bullet@ =~= seq![char_of(bullet_code(old(self)@) as u32), ')']);
                }
                self.items.push(BulletItem { bullet, text });
                self.number = self.number + 1;
                proof {
                    assert(self@.items =~= list_push_spec(old(self)@, text@).items);
                }
                Ok(())
            },
            None => Err(GenError::Render),
        }
    }
}

impl CharRepeat {
    /// A filler that tiles `ch`.
    pub fn new(ch: char) -> (r: Self)
        ensures
            r.0 == ch,
    {
        CharRepeat(ch)
    }
}

impl DottedLine {
    /// The character this line tiles.
    pub fn fill_char(&self) -> (c: char)
        ensures
            c == '.',
    {
        '.'
    }
}

impl SplitElement {
    /// A two-column element; the ratio is in thousandths of the width.
    pub fn new(left: PlanElement, right: PlanElement, ratio_permille: u16) -> (r: Self)
        requires
            ratio_permille <= 1000,
        ensures
            elem_view(*r.left) == elem_view(left),
            elem_view(*r.right) == elem_view(right),
            r.ratio_permille == ratio_permille,
    {
        SplitElement { left: Box::new(left), right: Box::new(right), ratio_permille }
    }
}

// ---------------------------------------------------------------------------
// The document plan
// ---------------------------------------------------------------------------

/// A fully laid-out paper: document metadata and the elements to render, in
/// order.
#[derive(Debug, PartialEq)]
pub struct DocPlan {
    pub title: String,
    pub paper_size: PaperSize,
    /// The page margin the decorator reserves on all sides.
    pub margin_mm: u8,
    pub elements: Vec<PlanElement>,
    /// The sum of the point values of the rendered questions.
    pub max_points: usize,
}

pub struct DocPlanV {
    pub title: Seq<char>,
    pub paper_size: PaperSize,
    pub margin_mm: u8,
    pub elements: Seq<PlanElementV>,
    pub max_points: usize,
}

impl View for DocPlan {
    type V = DocPlanV;

    open spec fn view(&self) -> DocPlanV {
        DocPlanV {
            title: self.title@,
            paper_size: self.paper_size,
            margin_mm: self.margin_mm,
            elements: self.elements@.map_values(|e: PlanElement| elem_view(e)),
            max_points: self.max_points,
        }
    }
}

} // verus!
