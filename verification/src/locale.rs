//! Paper formats and localization: the fixed strings that the rendered paper
//! uses, in each supported language.

use vstd::prelude::*;
use vstd::string::StringExecFns;
use crate::numbers::{dec_of, push_dec};

verus! {

/// The paper formats the generator understands.
#[derive(Clone, Copy, PartialEq, Eq, Structural, Debug)]
pub enum PaperSize {
    A4,
}

impl PaperSize {
    /// The page width and height in millimetres.
    pub fn dimensions_mm(&self) -> (r: (u32, u32))
        ensures
            self is A4 ==> r == (210u32, 297u32),
    {
        match self {
            PaperSize::A4 => (210, 297),
        }
    }

    /// The display name of the format.
    pub fn name(&self) -> (r: &'static str)
        ensures
            r@ == paper_size_name_spec(*self),
    {
        match self {
            PaperSize::A4 => "A4",
        }
    }
}

pub open spec fn paper_size_name_spec(p: PaperSize) -> Seq<char> {
    match p {
        PaperSize::A4 => "A4"@,
    }
}

impl Default for PaperSize {
    fn default() -> (r: Self)
        ensures
            r == PaperSize::A4,
    {
        PaperSize::A4
    }
}

/// The language a paper is produced in; it selects the fixed strings below
/// and the first bullet character of answer lists.
#[derive(Clone, Copy, PartialEq, Eq, Structural, Debug)]
pub enum Language {
    English,
    Bulgarian,
}

impl Default for Language {
    fn default() -> (r: Self)
        ensures
            r == Language::English,
    {
        Language::English
    }
}

pub open spec fn first_char_spec(l: Language) -> char {
    match l {
        Language::English => 'a',
        Language::Bulgarian => '\u{430}',
    }
}

pub open spec fn multiple_answers_hint_spec(l: Language) -> Seq<char> {
    match l {
        Language::English => "Multiple answers"@,
        Language::Bulgarian => "Повече от 1 верен отговор"@,
    }
}

pub open spec fn input_name_spec(l: Language) -> Seq<char> {
    match l {
        Language::English => "Name"@,
        Language::Bulgarian => "Име"@,
    }
}

pub open spec fn input_class_spec(l: Language) -> Seq<char> {
    match l {
        Language::English => "Class"@,
        Language::Bulgarian => "Клас"@,
    }
}

pub open spec fn input_class_num_spec(l: Language) -> Seq<char> {
    match l {
        Language::English => "No"@,
        Language::Bulgarian => "№"@,
    }
}

pub open spec fn language_name_spec(l: Language) -> Seq<char> {
    match l {
        Language::English => "English"@,
        Language::Bulgarian => "Български"@,
    }
}

pub open spec fn examiner_spec(l: Language) -> Seq<char> {
    match l {
        Language::English => "Examined by"@,
        Language::Bulgarian => "Проверено от"@,
    }
}

pub open spec fn points_sum_spec(l: Language) -> Seq<char> {
    match l {
        Language::English => "Points"@,
        Language::Bulgarian => "Точки"@,
    }
}

/// The right-aligned points tag of a question: a two-character blank, the
/// point value, and the language's points abbreviation.
pub open spec fn format_points_spec(l: Language, points: u8) -> Seq<char> {
    match l {
        Language::English => "__/"@ + dec_of(points as nat) + "pt"@,
        Language::Bulgarian => "__/"@ + dec_of(points as nat) + "т"@,
    }
}

impl Language {
    /// The points tag shown beside a question title.
    pub fn format_points(&self, points: u8) -> (r: String)
        ensures
            r@ == format_points_spec(*self, points),
    {
        let mut s = String::from_str("__/");
        push_dec(&mut s, points as u64);
        match self {
            Language::English => s.append("pt"),
            Language::Bulgarian => s.append("т"),
        }
        s
    }

    /// The code point that labels the first bullet of an answer list:
    /// the first letter of the language's alphabet.
    pub fn get_first_char(&self) -> (c: char)
        ensures
            c == first_char_spec(*self),
    {
        match self {
            Language::English => 'a',
            Language::Bulgarian => '\u{430}',
        }
    }

    /// The note appended to a title when several answers are correct.
    pub fn multiple_answers_hint(&self) -> (r: &'static str)
        ensures
            r@ == multiple_answers_hint_spec(*self),
    {
        match self {
            Language::English => "Multiple answers",
            Language::Bulgarian => "Повече от 1 верен отговор",
        }
    }

    /// The label of the name field in the header band.
    pub fn input_name(&self) -> (r: &'static str)
        ensures
            r@ == input_name_spec(*self),
    {
        match self {
            Language::English => "Name",
            Language::Bulgarian => "Име",
        }
    }

    /// The label of the class field in the header band.
    pub fn input_class(&self) -> (r: &'static str)
        ensures
            r@ == input_class_spec(*self),
    {
        match self {
            Language::English => "Class",
            Language::Bulgarian => "Клас",
        }
    }

    /// The label of the class-number field in the header band.
    pub fn input_class_num(&self) -> (r: &'static str)
        ensures
            r@ == input_class_num_spec(*self),
    {
        match self {
            Language::English => "No",
            Language::Bulgarian => "№",
        }
    }

    /// The language's own name, as shown to the user.
    pub fn get_name(&self) -> (r: &'static str)
        ensures
            r@ == language_name_spec(*self),
    {
        match self {
            Language::English => "English",
            Language::Bulgarian => "Български",
        }
    }

    /// The label of the examiner field in the footer band.
    pub fn get_examiner(&self) -> (r: &'static str)
        ensures
            r@ == examiner_spec(*self),
    {
        match self {
            Language::English => "Examined by",
            Language::Bulgarian => "Проверено от",
        }
    }

    /// The label of the points summary in the footer band.
    pub fn get_points_sum(&self) -> (r: &'static str)
        ensures
            r@ == points_sum_spec(*self),
    {
        match self {
            Language::English => "Points",
            Language::Bulgarian => "Точки",
        }
    }
}

} // verus!
