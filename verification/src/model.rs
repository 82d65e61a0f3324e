//! The project model: questions, header, settings, and the project that the
//! generator renders. Each type has a mathematical view over sequences of
//! characters, which the contracts of the codec and the generator speak of.

use vstd::prelude::*;
use vstd::string::StringExecFns;
use crate::locale::{Language, PaperSize};

verus! {

/// A multiple-choice question: declared correct and incorrect options,
/// rendered as a lettered list in shuffled order.
#[derive(Debug, PartialEq)]
pub struct SelectionQuestion {
    /// Transient editing buffer for the title; not part of the stored file.
    pub question_buf: String,
    pub question: String,
    pub correct: Vec<String>,
    pub incorrect: Vec<String>,
    pub points: u8,
    /// Carried by the model; never rendered and never stored.
    pub image: Option<String>,
}

/// A free-response question, rendered as a fixed number of dotted blank
/// lines.
#[derive(Debug, PartialEq)]
pub struct InputQuestion {
    /// Transient editing buffer for the title; not part of the stored file.
    pub question_buf: String,
    pub question: String,
    pub number_of_lines: u16,
    pub points: u8,
    /// Carried by the model; never rendered and never stored.
    pub image: Option<String>,
}

/// A question of either shape.
#[derive(Debug, PartialEq)]
pub enum Question {
    Selection(SelectionQuestion),
    Input(InputQuestion),
}

/// The paper's header: its displayed title.
#[derive(Debug, PartialEq)]
pub struct Header {
    pub title: String,
}

/// Which editor tab is open; state for an external editor front-end.
#[derive(Clone, Copy, PartialEq, Eq, Structural, Debug)]
pub enum OpenedTab {
    Questions,
    Configuration,
    Settings,
}

impl Default for OpenedTab {
    fn default() -> (r: Self)
        ensures
            r == OpenedTab::Questions,
    {
        OpenedTab::Questions
    }
}

/// Generation settings: paper, language, fonts, output path and the
/// question-selection switches.
#[derive(Debug, PartialEq)]
pub struct Settings {
    pub show_hints: bool,
    pub paper_size: PaperSize,
    pub language: Language,
    pub fonts_path: String,
    pub font: String,
    pub output: String,
    pub max_questions: u8,
    pub randomize_questions: bool,
}

/// A whole project: settings, header, and the ordered question list.
#[derive(Debug, PartialEq)]
pub struct Project {
    pub settings: Settings,
    pub header: Header,
    pub questions: Vec<Question>,
}

// ---------------------------------------------------------------------------
// Views
// ---------------------------------------------------------------------------

pub struct SelectionQuestionV {
    pub question_buf: Seq<char>,
    pub question: Seq<char>,
    pub correct: Seq<Seq<char>>,
    pub incorrect: Seq<Seq<char>>,
    pub points: u8,
    pub image: Option<Seq<char>>,
}

pub struct InputQuestionV {
    pub question_buf: Seq<char>,
    pub question: Seq<char>,
    pub number_of_lines: u16,
    pub points: u8,
    pub image: Option<Seq<char>>,
}

pub enum QuestionV {
    Selection(SelectionQuestionV),
    Input(InputQuestionV),
}

pub struct SettingsV {
    pub show_hints: bool,
    pub paper_size: PaperSize,
    pub language: Language,
    pub fonts_path: Seq<char>,
    pub font: Seq<char>,
    pub output: Seq<char>,
    pub max_questions: u8,
    pub randomize_questions: bool,
}

pub struct ProjectV {
    pub settings: SettingsV,
    pub header_title: Seq<char>,
    pub questions: Seq<QuestionV>,
}

impl View for SelectionQuestion {
    type V = SelectionQuestionV;

    open spec fn view(&self) -> SelectionQuestionV {
        SelectionQuestionV {
            question_buf: self.question_buf@,
            question: self.question@,
            correct: self.correct.deep_view(),
            incorrect: self.incorrect.deep_view(),
            points: self.points,
            image: self.image.deep_view(),
        }
    }
}

impl DeepView for SelectionQuestion {
    type V = SelectionQuestionV;

    open spec fn deep_view(&self) -> SelectionQuestionV {
        self.view()
    }
}

impl View for InputQuestion {
    type V = InputQuestionV;

    open spec fn view(&self) -> InputQuestionV {
        InputQuestionV {
            question_buf: self.question_buf@,
            question: self.question@,
            number_of_lines: self.number_of_lines,
            points: self.points,
            image: self.image.deep_view(),
        }
    }
}

impl DeepView for InputQuestion {
    type V = InputQuestionV;

    open spec fn deep_view(&self) -> InputQuestionV {
        self.view()
    }
}

impl View for Question {
    type V = QuestionV;

    open spec fn view(&self) -> QuestionV {
        match self {
            Question::Selection(q) => QuestionV::Selection(q@),
            Question::Input(q) => QuestionV::Input(q@),
        }
    }
}

impl DeepView for Question {
    type V = QuestionV;

    open spec fn deep_view(&self) -> QuestionV {
        self.view()
    }
}

impl View for Header {
    type V = Seq<char>;

    open spec fn view(&self) -> Seq<char> {
        self.title@
    }
}

impl View for Settings {
    type V = SettingsV;

    open spec fn view(&self) -> SettingsV {
        SettingsV {
            show_hints: self.show_hints,
            paper_size: self.paper_size,
            language: self.language,
            fonts_path: self.fonts_path@,
            font: self.font@,
            output: self.output@,
            max_questions: self.max_questions,
            randomize_questions: self.randomize_questions,
        }
    }
}

impl View for Project {
    type V = ProjectV;

    open spec fn view(&self) -> ProjectV {
        ProjectV {
            settings: self.settings@,
            header_title: self.header.title@,
            questions: self.questions.deep_view(),
        }
    }
}

// ---------------------------------------------------------------------------
// Spec accessors
// ---------------------------------------------------------------------------

pub open spec fn title_spec(q: QuestionV) -> Seq<char> {
    match q {
        QuestionV::Selection(s) => s.question,
        QuestionV::Input(i) => i.question,
    }
}

pub open spec fn title_buf_spec(q: QuestionV) -> Seq<char> {
    match q {
        QuestionV::Selection(s) => s.question_buf,
        QuestionV::Input(i) => i.question_buf,
    }
}

pub open spec fn points_spec(q: QuestionV) -> u8 {
    match q {
        QuestionV::Selection(s) => s.points,
        QuestionV::Input(i) => i.points,
    }
}

pub open spec fn image_spec(q: QuestionV) -> Option<Seq<char>> {
    match q {
        QuestionV::Selection(s) => s.image,
        QuestionV::Input(i) => i.image,
    }
}

/// `q` with its image path replaced.
pub open spec fn with_image_spec(q: QuestionV, image: Option<Seq<char>>) -> QuestionV {
    match q {
        QuestionV::Selection(s) => QuestionV::Selection(
            SelectionQuestionV { image, ..s },
        ),
        QuestionV::Input(i) => QuestionV::Input(InputQuestionV { image, ..i }),
    }
}

/// `q` with its title replaced.
pub open spec fn with_title_spec(q: QuestionV, title: Seq<char>) -> QuestionV {
    match q {
        QuestionV::Selection(s) => QuestionV::Selection(
            SelectionQuestionV { question: title, ..s },
        ),
        QuestionV::Input(i) => QuestionV::Input(InputQuestionV { question: title, ..i }),
    }
}

/// `q` with its editing buffer replaced.
pub open spec fn with_title_buf_spec(q: QuestionV, buf: Seq<char>) -> QuestionV {
    match q {
        QuestionV::Selection(s) => QuestionV::Selection(
            SelectionQuestionV { question_buf: buf, ..s },
        ),
        QuestionV::Input(i) => QuestionV::Input(InputQuestionV { question_buf: buf, ..i }),
    }
}

/// The data model's bounds on a question: it is worth at least one point
/// (the type already caps the value at 255).
pub open spec fn wf_question(q: QuestionV) -> bool {
    1 <= points_spec(q)
}

/// The data model's bounds on a project: every question is worth at least
/// one point, and at least one question may be rendered.
pub open spec fn wf_project(p: ProjectV) -> bool {
    &&& p.settings.max_questions >= 1
    &&& forall|i: int| 0 <= i < p.questions.len() ==> wf_question(#[trigger] p.questions[i])
}

/// Within the data model's bounds, a question is worth between 1 and 255
/// points; `get_points` returns exactly that value.
pub proof fn lemma_points_bounds(q: QuestionV)
    requires
        wf_question(q),
    ensures
        1 <= points_spec(q) <= 255,
{
}

// ---------------------------------------------------------------------------
// Methods
// ---------------------------------------------------------------------------

impl Question {
    /// The optional illustration path of the question.
    pub fn get_image(&self) -> (r: &Option<String>)
        ensures
            r.deep_view() == image_spec(self@),
    {
        match self {
            Question::Selection(q) => &q.image,
            Question::Input(q) => &q.image,
        }
    }

    /// Replaces the optional illustration path of the question.
    pub fn set_image(&mut self, path: Option<String>)
        ensures
            final(self)@ == with_image_spec(old(self)@, path.deep_view()),
    {
        match self {
            Question::Selection(q) => q.image = path,
            Question::Input(q) => q.image = path,
        }
    }

    /// The displayed question text.
    pub fn get_title(&self) -> (r: String)
        ensures
            r@ == title_spec(self@),
    {
        match self {
            Question::Selection(q) => q.question.clone(),
            Question::Input(q) => q.question.clone(),
        }
    }

    /// Exclusive access to the transient editing buffer of the title.
    pub fn get_title_buf(&mut self) -> (r: &mut String)
        ensures
            r@ == title_buf_spec(old(self)@),
            final(self)@ == with_title_buf_spec(old(self)@, final(r)@),
    {
        match self {
            Question::Selection(q) => &mut q.question_buf,
            Question::Input(q) => &mut q.question_buf,
        }
    }

    /// Commits the editing buffer as the question title.
    pub fn update_title_from_buf(&mut self)
        ensures
            final(self)@ == with_title_spec(old(self)@, title_buf_spec(old(self)@)),
    {
        match self {
            Question::Selection(q) => q.question = q.question_buf.clone(),
            Question::Input(q) => q.question = q.question_buf.clone(),
        }
    }

    /// Resets the editing buffer from the question title.
    pub fn update_buf_from_title(&mut self)
        ensures
            final(self)@ == with_title_buf_spec(old(self)@, title_spec(old(self)@)),
    {
        match self {
            Question::Selection(q) => q.question_buf = q.question.clone(),
            Question::Input(q) => q.question_buf = q.question.clone(),
        }
    }

    /// The point value of the question.
    pub fn get_points(&self) -> (r: u8)
        ensures
            r == points_spec(self@),
    {
        match self {
            Question::Selection(q) => q.points,
            Question::Input(q) => q.points,
        }
    }
}

// ---------------------------------------------------------------------------
// Cloning that contracts can see
// ---------------------------------------------------------------------------

/// A copy of a vector of strings, element for element.
pub fn clone_strings(v: &Vec<String>) -> (r: Vec<String>)
    ensures
        r@ == v@,
{
    let mut r: Vec<String> = Vec::new();
    let mut i: usize = 0;
    while i < v.len()
        invariant
            i <= v@.len(),
            r@ == v@.subrange(0, i as int),
        decreases v@.len() - i,
    {
        r.push(v[i].clone());
        proof {
            assert(r@ =~= v@.subrange(0, i as int + 1));
        }
        i = i + 1;
    }
    proof {
        assert(v@.subrange(0, v@.len() as int) =~= v@);
    }
    r
}

/// A copy of an optional string.
pub fn clone_opt_string(v: &Option<String>) -> (r: Option<String>)
    ensures
        r == v,
{
    match v {
        Some(s) => Some(s.clone()),
        None => None,
    }
}

impl Clone for SelectionQuestion {
    fn clone(&self) -> (r: Self)
        ensures
            r@ == self@,
    {
        SelectionQuestion {
            question_buf: self.question_buf.clone(),
            question: self.question.clone(),
            correct: clone_strings(&self.correct),
            incorrect: clone_strings(&self.incorrect),
            points: self.points,
            image: clone_opt_string(&self.image),
        }
    }
}

impl Clone for InputQuestion {
    fn clone(&self) -> (r: Self)
        ensures
            r@ == self@,
    {
        InputQuestion {
            question_buf: self.question_buf.clone(),
            question: self.question.clone(),
            number_of_lines: self.number_of_lines,
            points: self.points,
            image: clone_opt_string(&self.image),
        }
    }
}

impl Clone for Question {
    fn clone(&self) -> (r: Self)
        ensures
            r@ == self@,
    {
        match self {
            Question::Selection(q) => Question::Selection(q.clone()),
            Question::Input(q) => Question::Input(q.clone()),
        }
    }
}

impl Clone for Header {
    fn clone(&self) -> (r: Self)
        ensures
            r@ == self@,
    {
        Header { title: self.title.clone() }
    }
}

impl Clone for Settings {
    fn clone(&self) -> (r: Self)
        ensures
            r@ == self@,
    {
        Settings {
            show_hints: self.show_hints,
            paper_size: self.paper_size,
            language: self.language,
            fonts_path: self.fonts_path.clone(),
            font: self.font.clone(),
            output: self.output.clone(),
            max_questions: self.max_questions,
            randomize_questions: self.randomize_questions,
        }
    }
}

/// A copy of a vector of questions, element for element.
pub fn clone_questions(v: &Vec<Question>) -> (r: Vec<Question>)
    ensures
        r.deep_view() == v.deep_view(),
{
    let mut r: Vec<Question> = Vec::new();
    let mut i: usize = 0;
    while i < v.len()
        invariant
            i <= v@.len(),
            r@.len() == i,
            forall|j: int| 0 <= j < i ==> #[trigger] r@[j]@ == v@[j]@,
        decreases v@.len() - i,
    {
        r.push(v[i].clone());
        i = i + 1;
    }
    proof {
        assert(r.deep_view() =~= v.deep_view());
    }
    r
}

impl Clone for Project {
    fn clone(&self) -> (r: Self)
        ensures
            r@ == self@,
    {
        Project {
            settings: self.settings.clone(),
            header: self.header.clone(),
            questions: clone_questions(&self.questions),
        }
    }
}

// ---------------------------------------------------------------------------
// Defaults
// ---------------------------------------------------------------------------

impl Default for SelectionQuestion {
    fn default() -> (r: Self)
        ensures
            r@.question == "New selection question"@,
            r@.question_buf == "New selection question"@,
            r@.correct == Seq::<Seq<char>>::empty(),
            r@.incorrect == Seq::<Seq<char>>::empty(),
            r@.points == 1u8,
            r@.image is None,
    {
        let q = String::from_str("New selection question");
        let r = SelectionQuestion {
            question_buf: q.clone(),
            question: q,
            correct: Vec::new(),
            incorrect: Vec::new(),
            points: 1,
            image: None,
        };
        proof {
            assert(r@.correct =~= Seq::<Seq<char>>::empty());
            assert(r@.incorrect =~= Seq::<Seq<char>>::empty());
        }
        r
    }
}

impl Default for InputQuestion {
    fn default() -> (r: Self)
        ensures
            r@.question == "New input question"@,
            r@.question_buf == "New input question"@,
            r@.number_of_lines == 4u16,
            r@.points == 1u8,
            r@.image is None,
    {
        let q = String::from_str("New input question");
        InputQuestion {
            question_buf: q.clone(),
            question: q,
            number_of_lines: 4,
            points: 1,
            image: None,
        }
    }
}

impl Default for Header {
    fn default() -> (r: Self)
        ensures
            r@ == "Test Header"@,
    {
        Header { title: String::from_str("Test Header") }
    }
}

/// The settings a fresh project starts from.
pub open spec fn default_settings_spec() -> SettingsV {
    SettingsV {
        show_hints: true,
        paper_size: PaperSize::A4,
        language: Language::English,
        fonts_path: "./assets/fonts"@,
        font: "TimesNewRoman"@,
        output: "output.pdf"@,
        max_questions: 20,
        randomize_questions: false,
    }
}

impl Default for Settings {
    fn default() -> (r: Self)
        ensures
            r@ == default_settings_spec(),
    {
        Settings {
            show_hints: true,
            paper_size: PaperSize::A4,
            language: Language::English,
            fonts_path: String::from_str("./assets/fonts"),
            font: String::from_str("TimesNewRoman"),
            output: String::from_str("output.pdf"),
            max_questions: 20,
            randomize_questions: false,
        }
    }
}

impl Default for Project {
    fn default() -> (r: Self)
        ensures
            r@.settings == default_settings_spec(),
            r@.header_title == "Test Header"@,
            r@.questions == Seq::<QuestionV>::empty(),
    {
        let r = Project {
            settings: Settings::default(),
            header: Header::default(),
            questions: Vec::new(),
        };
        proof {
            assert(r@.questions =~= Seq::<QuestionV>::empty());
        }
        r
    }
}

} // verus!
