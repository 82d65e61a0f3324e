use testgen::chars::ends_with_punctuation;
use testgen::errors::GenError;
use testgen::locale::{Language, PaperSize};
use testgen::model::{
    Header, InputQuestion, Project, Question, SelectionQuestion, Settings,
};
use testgen::navigate::StatefulList;

fn selection(title: &str) -> Question {
    Question::Selection(SelectionQuestion {
        question_buf: title.to_string(),
        question: title.to_string(),
        correct: vec!["a1".to_string()],
        incorrect: vec!["b1".to_string()],
        points: 3,
        image: None,
    })
}

#[test]
fn default_settings_values() {
    let s = Settings::default();
    assert_eq!(s.show_hints, true);
    assert_eq!(s.paper_size, PaperSize::A4);
    assert_eq!(s.language, Language::English);
    assert_eq!(s.fonts_path, "./assets/fonts");
    assert_eq!(s.font, "TimesNewRoman");
    assert_eq!(s.output, "output.pdf");
    assert_eq!(s.max_questions, 20);
    assert_eq!(s.randomize_questions, false);
}

#[test]
fn default_project_is_empty() {
    let p = Project::default();
    assert_eq!(p.header.title, "Test Header");
    assert!(p.questions.is_empty());
}

#[test]
fn default_questions() {
    let s = SelectionQuestion::default();
    assert_eq!(s.question, "New selection question");
    assert_eq!(s.question_buf, "New selection question");
    assert_eq!(s.points, 1);
    assert!(s.correct.is_empty());
    assert!(s.incorrect.is_empty());
    let i = InputQuestion::default();
    assert_eq!(i.question, "New input question");
    assert_eq!(i.number_of_lines, 4);
    assert_eq!(i.points, 1);
}

#[test]
fn question_accessors() {
    let mut q = selection("What?");
    assert_eq!(q.get_title(), "What?");
    assert_eq!(q.get_points(), 3);
    assert!(q.get_image().is_none());
    q.set_image(Some("pic.png".to_string()));
    assert_eq!(q.get_image().as_deref(), Some("pic.png"));
    q.set_image(None);
    assert!(q.get_image().is_none());
}

#[test]
fn title_buffer_round_trip() {
    let mut q = selection("Old");
    *q.get_title_buf() = "New".to_string();
    assert_eq!(q.get_title(), "Old");
    q.update_title_from_buf();
    assert_eq!(q.get_title(), "New");
    *q.get_title_buf() = "Scratch".to_string();
    q.update_buf_from_title();
    assert_eq!(q.get_title_buf().as_str(), "New");
}

#[test]
fn clone_preserves_project() {
    let p = Project {
        settings: Settings::default(),
        header: Header { title: "T".to_string() },
        questions: vec![selection("q1"), Question::Input(InputQuestion::default())],
    };
    let c = p.clone();
    assert_eq!(p, c);
}

#[test]
fn paper_size_dimensions() {
    assert_eq!(PaperSize::A4.dimensions_mm(), (210, 297));
    assert_eq!(PaperSize::A4.name(), "A4");
    assert_eq!(PaperSize::default(), PaperSize::A4);
}

#[test]
fn localization_strings_english() {
    let l = Language::English;
    assert_eq!(l.get_first_char(), 'a');
    assert_eq!(l.multiple_answers_hint(), "Multiple answers");
    assert_eq!(l.format_points(1), "__/1pt");
    assert_eq!(l.format_points(255), "__/255pt");
    assert_eq!(l.input_name(), "Name");
    assert_eq!(l.input_class(), "Class");
    assert_eq!(l.input_class_num(), "No");
    assert_eq!(l.get_name(), "English");
    assert_eq!(l.get_examiner(), "Examined by");
    assert_eq!(l.get_points_sum(), "Points");
}

#[test]
fn localization_strings_bulgarian() {
    let l = Language::Bulgarian;
    assert_eq!(l.get_first_char(), 'а');
    assert_eq!(l.multiple_answers_hint(), "Повече от 1 верен отговор");
    assert_eq!(l.format_points(2), "__/2т");
    assert_eq!(l.input_name(), "Име");
    assert_eq!(l.input_class(), "Клас");
    assert_eq!(l.input_class_num(), "№");
    assert_eq!(l.get_name(), "Български");
    assert_eq!(l.get_examiner(), "Проверено от");
    assert_eq!(l.get_points_sum(), "Точки");
    assert_eq!(Language::default(), Language::English);
}

#[test]
fn error_messages() {
    assert_eq!(
        GenError::TooManyAnswers { index: 2 }.message(),
        "a question declares more than 16 answers"
    );
    assert_eq!(GenError::Font.message(), "the font family could not be loaded");
    assert_eq!(GenError::Render.message(), "a layout element was rejected");
    assert_eq!(GenError::Io.message(), "the output file could not be written");
}

#[test]
fn stateful_list_navigation() {
    let mut l = StatefulList::with_items(vec![10, 20, 30]);
    assert_eq!(l.get_state(), None);
    l.next();
    assert_eq!(l.get_state(), Some(0));
    l.next();
    assert_eq!(l.get_state(), Some(1));
    l.next();
    l.next();
    assert_eq!(l.get_state(), Some(0));
    l.previous();
    assert_eq!(l.get_state(), Some(2));
    l.previous();
    assert_eq!(l.get_state(), Some(1));
    assert_eq!(l.iter().as_slice(), &[10, 20, 30]);
    l.unselect();
    assert_eq!(l.get_state(), None);
    l.previous();
    assert_eq!(l.get_state(), Some(0));
}

#[test]
fn punctuation_detection() {
    assert!(ends_with_punctuation("2+2?"));
    assert!(ends_with_punctuation("Go!"));
    assert!(ends_with_punctuation("End."));
    assert!(!ends_with_punctuation("plain"));
    assert!(!ends_with_punctuation(""));
}
