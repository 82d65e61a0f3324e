use testgen::codec::serialize_project;
use testgen::locale::Language;
use testgen::model::{Header, InputQuestion, Project, Question, SelectionQuestion, Settings};
use testgen::parse::parse_project;

fn sample_project() -> Project {
    Project {
        settings: Settings {
            show_hints: true,
            paper_size: testgen::locale::PaperSize::A4,
            language: Language::English,
            fonts_path: "./assets/fonts".to_string(),
            font: "TimesNewRoman".to_string(),
            output: "out.pdf".to_string(),
            max_questions: 20,
            randomize_questions: false,
        },
        header: Header { title: "Algebra Test".to_string() },
        questions: vec![
            Question::Selection(SelectionQuestion {
                question_buf: "2+2?".to_string(),
                question: "2+2?".to_string(),
                correct: vec!["4".to_string()],
                incorrect: vec!["3".to_string(), "5".to_string()],
                points: 1,
                image: None,
            }),
            Question::Input(InputQuestion {
                question_buf: "Explain.".to_string(),
                question: "Explain.".to_string(),
                number_of_lines: 3,
                points: 2,
                image: None,
            }),
        ],
    }
}

#[test]
fn serialize_exact_text() {
    let text = serialize_project(&sample_project());
    let expected = "[settings]\n\
show_hints = true\n\
paper_size = \"A4\"\n\
language = \"English\"\n\
fonts_path = \"./assets/fonts\"\n\
font = \"TimesNewRoman\"\n\
output = \"out.pdf\"\n\
max_questions = 20\n\
randomize_questions = false\n\
\n\
[header]\n\
title = \"Algebra Test\"\n\
\n\
[[questions]]\n\
question = \"2+2?\"\n\
correct = [\"4\"]\n\
incorrect = [\"3\", \"5\"]\n\
points = 1\n\
\n\
[[questions]]\n\
question = \"Explain.\"\n\
number_of_lines = 3\n\
points = 2\n";
    assert_eq!(text, expected);
}

#[test]
fn round_trip_sample() {
    let p = sample_project();
    let text = serialize_project(&p);
    let back = parse_project(&text).expect("parse failed");
    assert_eq!(back, p);
}

#[test]
fn round_trip_with_escapes() {
    let mut p = sample_project();
    p.header.title = "Quote \" backslash \\ and\nnewline".to_string();
    p.questions = vec![Question::Selection(SelectionQuestion {
        question_buf: "a\\b\"c".to_string(),
        question: "a\\b\"c".to_string(),
        correct: vec!["x\ny".to_string(), "\"\"".to_string()],
        incorrect: vec![],
        points: 5,
        image: None,
    })];
    let text = serialize_project(&p);
    let back = parse_project(&text).expect("parse failed");
    assert_eq!(back, p);
}

#[test]
fn round_trip_bulgarian() {
    let mut p = sample_project();
    p.settings.language = Language::Bulgarian;
    p.header.title = "Контролно по математика".to_string();
    let text = serialize_project(&p);
    assert!(text.contains("language = \"Bulgarian\""));
    let back = parse_project(&text).expect("parse failed");
    assert_eq!(back, p);
}

#[test]
fn round_trip_clears_transient_fields() {
    let mut p = sample_project();
    if let Question::Selection(q) = &mut p.questions[0] {
        q.question_buf = "scratch".to_string();
        q.image = Some("pic.png".to_string());
    }
    let text = serialize_project(&p);
    let back = parse_project(&text).expect("parse failed");
    if let Question::Selection(q) = &back.questions[0] {
        assert_eq!(q.question_buf, q.question);
        assert!(q.image.is_none());
    } else {
        panic!("wrong variant");
    }
}

#[test]
fn round_trip_empty_questions() {
    let mut p = sample_project();
    p.questions.clear();
    let back = parse_project(&serialize_project(&p)).expect("parse failed");
    assert_eq!(back, p);
}

#[test]
fn round_trip_empty_answer_lists() {
    let mut p = sample_project();
    p.questions = vec![Question::Selection(SelectionQuestion {
        question_buf: "Open?".to_string(),
        question: "Open?".to_string(),
        correct: vec![],
        incorrect: vec![],
        points: 1,
        image: None,
    })];
    let text = serialize_project(&p);
    assert!(text.contains("correct = []"));
    let back = parse_project(&text).expect("parse failed");
    assert_eq!(back, p);
}

#[test]
fn parse_applies_defaults() {
    let text = "[settings]\n\
paper_size = \"A4\"\n\
fonts_path = \"f\"\n\
font = \"g\"\n\
output = \"o\"\n\
max_questions = 10\n\
randomize_questions = false\n\
\n\
[header]\n\
title = \"T\"\n\
\n\
[[questions]]\n\
question = \"Q\"\n\
number_of_lines = 2\n";
    let p = parse_project(text).expect("parse failed");
    assert_eq!(p.settings.show_hints, true);
    assert_eq!(p.settings.language, Language::English);
    match &p.questions[0] {
        Question::Input(q) => assert_eq!(q.points, 1),
        _ => panic!("wrong variant"),
    }
}

#[test]
fn round_trip_extreme_values() {
    let mut p = sample_project();
    p.settings.max_questions = 255;
    p.questions = vec![
        Question::Input(InputQuestion {
            question_buf: "big".to_string(),
            question: "big".to_string(),
            number_of_lines: 65535,
            points: 255,
            image: None,
        }),
        Question::Selection(SelectionQuestion {
            question_buf: "empty".to_string(),
            question: "".to_string(),
            correct: vec!["".to_string()],
            incorrect: vec!["\\".to_string()],
            points: 1,
            image: None,
        }),
    ];
    let text = serialize_project(&p);
    let back = parse_project(&text).expect("parse failed");
    let mut expected = p;
    if let Question::Selection(q) = &mut expected.questions[1] {
        q.question_buf = q.question.clone();
    }
    assert_eq!(back, expected);
}

#[test]
fn parse_rejects_malformed() {
    assert!(parse_project("").is_err());
    assert!(parse_project("[settings]").is_err());
    assert!(parse_project("[settings]\nnonsense\n").is_err());
    let unterminated = "[settings]\npaper_size = \"A4\nfonts_path = \"f\"\n";
    assert!(parse_project(unterminated).is_err());
}

#[test]
fn parse_rejects_bad_numbers() {
    let text = "[settings]\n\
paper_size = \"A4\"\n\
fonts_path = \"f\"\n\
font = \"g\"\n\
output = \"o\"\n\
max_questions = 300\n\
randomize_questions = false\n\
\n\
[header]\n\
title = \"T\"\n";
    assert!(parse_project(text).is_err());
    let huge = "[settings]\n\
paper_size = \"A4\"\n\
fonts_path = \"f\"\n\
font = \"g\"\n\
output = \"o\"\n\
max_questions = 99999999999\n\
randomize_questions = false\n\
\n\
[header]\n\
title = \"T\"\n";
    assert!(parse_project(huge).is_err());
}

#[test]
fn parse_rejects_zero_points() {
    let text = "[settings]\n\
paper_size = \"A4\"\n\
fonts_path = \"f\"\n\
font = \"g\"\n\
output = \"o\"\n\
max_questions = 1\n\
randomize_questions = false\n\
\n\
[header]\n\
title = \"T\"\n\
\n\
[[questions]]\n\
question = \"Q\"\n\
number_of_lines = 2\n\
points = 0\n";
    assert!(parse_project(text).is_err());
}

#[test]
fn parse_rejects_zero_max_questions() {
    let text = "[settings]\n\
paper_size = \"A4\"\n\
fonts_path = \"f\"\n\
font = \"g\"\n\
output = \"o\"\n\
max_questions = 0\n\
randomize_questions = false\n\
\n\
[header]\n\
title = \"T\"\n";
    assert!(parse_project(text).is_err());
}

#[test]
fn parse_rejects_unknown_language() {
    let text = "[settings]\n\
language = \"Latin\"\n\
paper_size = \"A4\"\n\
fonts_path = \"f\"\n\
font = \"g\"\n\
output = \"o\"\n\
max_questions = 1\n\
randomize_questions = false\n\
\n\
[header]\n\
title = \"T\"\n";
    assert!(parse_project(text).is_err());
}

#[test]
fn parse_rejects_trailing_garbage() {
    let p = sample_project();
    let mut text = serialize_project(&p);
    text.push_str("extra");
    assert!(parse_project(&text).is_err());
}

#[test]
fn parse_rejects_question_without_variant_keys() {
    let text = "[settings]\n\
paper_size = \"A4\"\n\
fonts_path = \"f\"\n\
font = \"g\"\n\
output = \"o\"\n\
max_questions = 1\n\
randomize_questions = false\n\
\n\
[header]\n\
title = \"T\"\n\
\n\
[[questions]]\n\
question = \"Q\"\n\
points = 1\n";
    assert!(parse_project(text).is_err());
}
