use testgen::elements::{Align, DocPlan, PlanElement, SplitElement};
use testgen::errors::GenError;
use testgen::locale::{Language, PaperSize};
use testgen::model::{Header, InputQuestion, Project, Question, SelectionQuestion, Settings};
use testgen::pdfgen::generate_plan;

fn settings(language: Language) -> Settings {
    Settings {
        show_hints: true,
        paper_size: PaperSize::A4,
        language,
        fonts_path: "./assets/fonts".to_string(),
        font: "TimesNewRoman".to_string(),
        output: "out.pdf".to_string(),
        max_questions: 20,
        randomize_questions: false,
    }
}

fn selection(title: &str, correct: &[&str], incorrect: &[&str], points: u8) -> Question {
    Question::Selection(SelectionQuestion {
        question_buf: title.to_string(),
        question: title.to_string(),
        correct: correct.iter().map(|s| s.to_string()).collect(),
        incorrect: incorrect.iter().map(|s| s.to_string()).collect(),
        points,
        image: None,
    })
}

fn input(title: &str, lines: u16, points: u8) -> Question {
    Question::Input(InputQuestion {
        question_buf: title.to_string(),
        question: title.to_string(),
        number_of_lines: lines,
        points,
        image: None,
    })
}

fn project(language: Language, questions: Vec<Question>) -> Project {
    Project {
        settings: settings(language),
        header: Header { title: "Paper".to_string() },
        questions,
    }
}

fn paragraph_text(e: &PlanElement) -> &str {
    match e {
        PlanElement::Paragraph { text, .. } => text,
        _ => panic!("expected a paragraph, got {:?}", e),
    }
}

/// The question rows of a plan: each Split with a 900-permille ratio.
fn question_rows(plan: &DocPlan) -> Vec<&SplitElement> {
    plan.elements
        .iter()
        .filter_map(|e| match e {
            PlanElement::Split(sp) if sp.ratio_permille == 900 => Some(sp),
            _ => None,
        })
        .collect()
}

fn footer_points_text(plan: &DocPlan) -> &str {
    match plan.elements.last().expect("empty plan") {
        PlanElement::Split(sp) => {
            assert_eq!(sp.ratio_permille, 700);
            paragraph_text(&sp.right)
        }
        e => panic!("expected the footer split, got {:?}", e),
    }
}

#[test]
fn minimal_selection() {
    let p = project(Language::English, vec![selection("2+2?", &["4"], &["3", "5", "6"], 1)]);
    let plan = generate_plan(&p, 0).expect("generation failed");

    let rows = question_rows(&plan);
    assert_eq!(rows.len(), 1);
    assert_eq!(paragraph_text(&rows[0].left), "1. 2+2?");
    match &*rows[0].right {
        PlanElement::Paragraph { text, align, .. } => {
            assert_eq!(text, "__/1pt");
            assert_eq!(*align, Align::Right);
        }
        e => panic!("expected the points paragraph, got {:?}", e),
    }

    let list = plan
        .elements
        .iter()
        .find_map(|e| match e {
            PlanElement::List(l) => Some(l),
            _ => None,
        })
        .expect("no answer list");
    let bullets: Vec<&str> = list.items.iter().map(|b| b.bullet.as_str()).collect();
    assert_eq!(bullets, vec!["a)", "b)", "c)", "d)"]);
    let mut texts: Vec<&str> = list.items.iter().map(|b| b.text.as_str()).collect();
    texts.sort();
    assert_eq!(texts, vec!["3", "4", "5", "6"]);

    assert_eq!(plan.max_points, 1);
    assert_eq!(footer_points_text(&plan), "Points: __/1");
    assert_eq!(plan.title, "Paper");
    assert_eq!(plan.margin_mm, 10);
}

#[test]
fn hinted_selection() {
    let p = project(
        Language::English,
        vec![selection("Capital of France?", &["Paris", "France"], &["Berlin", "Madrid"], 1)],
    );
    let plan = generate_plan(&p, 0).expect("generation failed");
    let rows = question_rows(&plan);
    assert_eq!(paragraph_text(&rows[0].left), "1. Capital of France? (Multiple answers)");
    let list = plan
        .elements
        .iter()
        .find_map(|e| match e {
            PlanElement::List(l) => Some(l),
            _ => None,
        })
        .expect("no answer list");
    let bullets: Vec<&str> = list.items.iter().map(|b| b.bullet.as_str()).collect();
    assert_eq!(bullets, vec!["a)", "b)", "c)", "d)"]);
}

#[test]
fn hint_needs_two_correct_and_hints_on() {
    let one_correct = project(Language::English, vec![selection("Q?", &["x"], &["y", "z"], 1)]);
    let plan = generate_plan(&one_correct, 0).unwrap();
    assert_eq!(paragraph_text(&question_rows(&plan)[0].left), "1. Q?");

    let mut hidden = project(Language::English, vec![selection("Q?", &["x", "y"], &[], 1)]);
    hidden.settings.show_hints = false;
    let plan = generate_plan(&hidden, 0).unwrap();
    assert_eq!(paragraph_text(&question_rows(&plan)[0].left), "1. Q?");
}

#[test]
fn input_question_bulgarian() {
    let p = project(Language::Bulgarian, vec![input("Обясни.", 3, 2)]);
    let plan = generate_plan(&p, 0).expect("generation failed");
    let rows = question_rows(&plan);
    assert_eq!(paragraph_text(&rows[0].left), "1. Обясни.");
    assert_eq!(paragraph_text(&rows[0].right), "__/2т");

    let fills: Vec<&PlanElement> = plan
        .elements
        .iter()
        .filter(|e| matches!(e, PlanElement::PaddedFill { .. }))
        .collect();
    assert_eq!(fills.len(), 3);
    match fills[0] {
        PlanElement::PaddedFill { fill, vertical_margin_tenth_mm } => {
            assert_eq!(fill.0, '.');
            assert_eq!(*vertical_margin_tenth_mm, 15);
        }
        _ => unreachable!(),
    }

    match plan.elements.last().unwrap() {
        PlanElement::Split(sp) => {
            match &*sp.left {
                PlanElement::Split(inner) => {
                    assert_eq!(inner.ratio_permille, 0);
                    assert_eq!(paragraph_text(&inner.left), "Проверено от: ");
                    assert_eq!(
                        paragraph_text(&inner.right),
                        "______________________________"
                    );
                }
                e => panic!("expected the examiner split, got {:?}", e),
            }
            assert_eq!(paragraph_text(&sp.right), "Точки: __/2");
        }
        e => panic!("expected the footer split, got {:?}", e),
    }
}

#[test]
fn bulgarian_bullets() {
    let p = project(Language::Bulgarian, vec![selection("В?", &["да"], &["не"], 1)]);
    let plan = generate_plan(&p, 0).unwrap();
    let list = plan
        .elements
        .iter()
        .find_map(|e| match e {
            PlanElement::List(l) => Some(l),
            _ => None,
        })
        .expect("no answer list");
    let bullets: Vec<&str> = list.items.iter().map(|b| b.bullet.as_str()).collect();
    assert_eq!(bullets, vec!["а)", "б)"]);
}

#[test]
fn over_answer_rejection() {
    let many: Vec<String> = (0..10).map(|i| format!("a{}", i)).collect();
    let many_refs: Vec<&str> = many.iter().map(|s| s.as_str()).collect();
    let p = project(
        Language::English,
        vec![selection("Too many", &many_refs, &many_refs, 1)],
    );
    match generate_plan(&p, 0) {
        Err(GenError::TooManyAnswers { index }) => assert_eq!(index, 0),
        other => panic!("expected a rejection, got {:?}", other),
    }
}

#[test]
fn sixteen_answers_pass() {
    let eight: Vec<String> = (0..8).map(|i| format!("a{}", i)).collect();
    let refs: Vec<&str> = eight.iter().map(|s| s.as_str()).collect();
    let p = project(Language::English, vec![selection("Edge", &refs, &refs, 1)]);
    assert!(generate_plan(&p, 0).is_ok());
}

#[test]
fn truncation() {
    let questions: Vec<Question> = (0..30).map(|i| input(&format!("q{}", i), 1, (i + 1) as u8)).collect();
    let mut p = project(Language::English, questions);
    p.settings.max_questions = 5;
    let plan = generate_plan(&p, 7).expect("generation failed");
    let rows = question_rows(&plan);
    assert_eq!(rows.len(), 5);
    for (i, row) in rows.iter().enumerate() {
        assert_eq!(paragraph_text(&row.left), format!("{}. q{}", i + 1, i));
    }
    assert_eq!(plan.max_points, 1 + 2 + 3 + 4 + 5);
    assert_eq!(footer_points_text(&plan), "Points: ___/15");
}

#[test]
fn deterministic_random() {
    let p = project(
        Language::English,
        vec![
            selection("q1", &["a", "b"], &["c", "d", "e"], 2),
            input("q2", 4, 1),
            selection("q3", &["x"], &["y", "z"], 3),
        ],
    );
    let mut p2 = p.clone();
    p2.settings.randomize_questions = true;
    let first = generate_plan(&p2, 42).expect("generation failed");
    let second = generate_plan(&p2, 42).expect("generation failed");
    assert_eq!(first, second);
    let third = generate_plan(&p, 42).unwrap();
    let fourth = generate_plan(&p, 42).unwrap();
    assert_eq!(third, fourth);
}

#[test]
fn shuffle_preserves_answer_bag() {
    for seed in 0..20u64 {
        let p = project(
            Language::English,
            vec![selection("q", &["1", "2", "3"], &["4", "5", "6", "7"], 1)],
        );
        let plan = generate_plan(&p, seed).unwrap();
        let list = plan
            .elements
            .iter()
            .find_map(|e| match e {
                PlanElement::List(l) => Some(l),
                _ => None,
            })
            .unwrap();
        let mut texts: Vec<&str> = list.items.iter().map(|b| b.text.as_str()).collect();
        texts.sort();
        assert_eq!(texts, vec!["1", "2", "3", "4", "5", "6", "7"]);
    }
}

#[test]
fn shuffle_actually_rearranges() {
    let mut saw_other_order = false;
    for seed in 0..20u64 {
        let p = project(
            Language::English,
            vec![selection("q", &["1", "2", "3"], &["4", "5", "6", "7"], 1)],
        );
        let plan = generate_plan(&p, seed).unwrap();
        let list = plan
            .elements
            .iter()
            .find_map(|e| match e {
                PlanElement::List(l) => Some(l),
                _ => None,
            })
            .unwrap();
        let texts: Vec<&str> = list.items.iter().map(|b| b.text.as_str()).collect();
        if texts != vec!["1", "2", "3", "4", "5", "6", "7"] {
            saw_other_order = true;
        }
    }
    assert!(saw_other_order);
}

#[test]
fn randomized_order_preserves_question_set() {
    let questions: Vec<Question> = (0..8).map(|i| input(&format!("q{}", i), 1, 1)).collect();
    let mut p = project(Language::English, questions);
    p.settings.randomize_questions = true;
    let plan = generate_plan(&p, 5).unwrap();
    let rows = question_rows(&plan);
    assert_eq!(rows.len(), 8);
    let mut titles: Vec<String> = rows
        .iter()
        .map(|r| paragraph_text(&r.left).split(". ").nth(1).unwrap().to_string())
        .collect();
    titles.sort();
    let expected: Vec<String> = (0..8).map(|i| format!("q{}", i)).collect();
    assert_eq!(titles, expected);
    assert_eq!(plan.max_points, 8);
}

#[test]
fn header_band_structure() {
    let p = project(Language::English, vec![]);
    let plan = generate_plan(&p, 0).unwrap();
    match &plan.elements[0] {
        PlanElement::Paragraph { text, font_size, align } => {
            assert_eq!(text, "Paper");
            assert_eq!(*font_size, Some(18));
            assert_eq!(*align, Align::Center);
        }
        e => panic!("expected the title paragraph, got {:?}", e),
    }
    assert_eq!(plan.elements[1], PlanElement::Break { half_lines: 2 });
    match &plan.elements[2] {
        PlanElement::Split(sp) => {
            assert_eq!(sp.ratio_permille, 700);
            assert_eq!(
                paragraph_text(&sp.left),
                "Name: ________________________________________"
            );
            match &*sp.right {
                PlanElement::Split(inner) => {
                    assert_eq!(inner.ratio_permille, 500);
                    assert_eq!(paragraph_text(&inner.left), "Class: _____");
                    assert_eq!(paragraph_text(&inner.right), "No: _____");
                }
                e => panic!("expected the class split, got {:?}", e),
            }
        }
        e => panic!("expected the name/class split, got {:?}", e),
    }
    assert_eq!(plan.elements[3], PlanElement::Break { half_lines: 1 });
    assert_eq!(plan.elements[4], PlanElement::FontSize { points: 12 });
    assert_eq!(plan.paper_size, PaperSize::A4);
}

#[test]
fn zero_questions_footer() {
    let p = project(Language::English, vec![]);
    let plan = generate_plan(&p, 0).unwrap();
    assert_eq!(plan.max_points, 0);
    assert_eq!(footer_points_text(&plan), "Points: __/0");
}
