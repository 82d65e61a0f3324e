//! The PDF composition pipeline: header band, numbered questions with
//! shuffled answers, and the footer band, laid out as a deterministic plan.
//! Given the same project and the same seed, the produced plan is the same;
//! the seeded answer and question orders come from the shuffle module.

use vstd::prelude::*;
use vstd::string::StringExecFns;
use crate::chars::repeat_char;
use crate::chars::push_repeat;
use crate::elements::{
    Align, AlphabeticOrderedList, BulletItemV, CharRepeat, DocPlan, ListV, PlanElement,
    PlanElementV, SplitElement, char_of, elem_view, bullet_code_valid, list_push_spec,
};
use crate::errors::GenError;
use crate::locale::{
    Language, examiner_spec, first_char_spec, format_points_spec, input_class_num_spec,
    input_class_spec, input_name_spec, multiple_answers_hint_spec, points_sum_spec,
};
use crate::model::{Project, ProjectV, Question, QuestionV, SelectionQuestionV, SettingsV,
    points_spec, title_spec, clone_strings};
use crate::numbers::{dec_of, log10_floor, log10, push_dec, lemma_log10_floor_le_self};
use crate::shuffle::{
    identity_seq, identity_vec, lemma_permutation_in_range, lemma_select_permutation, select_seq,
    select_strings, shuffle_of, shuffled_permutation,
};

verus! {

// ---------------------------------------------------------------------------
// What one question contributes
// ---------------------------------------------------------------------------

/// Whether the multiple-answers hint is appended to the question's title.
pub open spec fn shows_hint(q: QuestionV, show_hints: bool) -> bool {
    &&& q matches QuestionV::Selection(s)
    &&& s.correct.len() >= 2
    &&& show_hints
}

/// The numbered title of the question at rendered position `pos`, without
/// any hint.
pub open spec fn plain_title_spec(pos: nat, q: QuestionV) -> Seq<char> {
    dec_of(pos + 1) + ". "@ + title_spec(q)
}

/// The parenthesised multiple-answers note.
pub open spec fn hint_suffix_spec(lang: Language) -> Seq<char> {
    " ("@ + multiple_answers_hint_spec(lang) + ")"@
}

/// The full title line of the question at rendered position `pos`.
pub open spec fn title_line_spec(pos: nat, q: QuestionV, lang: Language, show_hints: bool) -> Seq<
    char,
> {
    if shows_hint(q, show_hints) {
        plain_title_spec(pos, q) + hint_suffix_spec(lang)
    } else {
        plain_title_spec(pos, q)
    }
}

/// A plain left-aligned paragraph in the document's current font size.
pub open spec fn par(text: Seq<char>) -> PlanElementV {
    PlanElementV::Paragraph { text, font_size: None, align: Align::Left }
}

/// The title/points row of the question at rendered position `pos`: the
/// title line split against the right-aligned points tag at nine tenths of
/// the width.
pub open spec fn points_row_spec(pos: nat, q: QuestionV, lang: Language, show_hints: bool) -> PlanElementV {
    PlanElementV::Split {
        left: Box::new(par(title_line_spec(pos, q, lang, show_hints))),
        right: Box::new(
            (PlanElementV::Paragraph {
                text: format_points_spec(lang, points_spec(q)),
                font_size: None,
                align: Align::Right,
            }),
        ),
        ratio_permille: 900,
    }
}

/// How many answers the question declares.
pub open spec fn answers_count(q: QuestionV) -> nat {
    match q {
        QuestionV::Selection(s) => s.correct.len() + s.incorrect.len(),
        QuestionV::Input(_) => 0,
    }
}

/// The declared answers of a Selection question, correct before incorrect.
pub open spec fn all_answers(s: SelectionQuestionV) -> Seq<Seq<char>> {
    s.correct + s.incorrect
}

/// The seed of the answer shuffle of the question at rendered position
/// `pos`, derived from the generation seed.
pub open spec fn answers_seed_spec(seed: u64, pos: nat) -> u64 {
    vstd::wrapping::u64_specs::wrapping_add(seed, (pos + 1) as u64)
}

/// The answers of `s` in the order the paper shows them.
pub open spec fn shuffled_answers_spec(s: SelectionQuestionV, seed: u64, pos: nat) -> Seq<
    Seq<char>,
> {
    select_seq(
        all_answers(s),
        shuffle_of(identity_seq(all_answers(s).len()), answers_seed_spec(seed, pos)),
    )
}

/// The lettered list of the shuffled answers of `s`.
pub open spec fn answer_list_spec(s: SelectionQuestionV, lang: Language, seed: u64, pos: nat) -> ListV {
    let answers = shuffled_answers_spec(s, seed, pos);
    ListV {
        items: Seq::new(
            answers.len(),
            |i: int| BulletItemV {
                bullet: seq![char_of((first_char_spec(lang) as u32 + i) as u32), ')'],
                text: answers[i],
            },
        ),
        number: answers.len() as u32,
        start_char: first_char_spec(lang),
    }
}

/// The dotted blank lines of an Input question.
pub open spec fn fill_lines_spec(n: nat) -> Seq<PlanElementV> {
    Seq::new(n, |i: int| PlanElementV::PaddedFill { ch: '.', vertical_margin_tenth_mm: 15 })
}

/// Every element the question at rendered position `pos` contributes, in
/// order.
pub open spec fn question_block_spec(q: QuestionV, pos: nat, st: SettingsV, seed: u64) -> Seq<
    PlanElementV,
> {
    let row = points_row_spec(pos, q, st.language, st.show_hints);
    match q {
        QuestionV::Selection(s) => seq![
            row,
            PlanElementV::List(answer_list_spec(s, st.language, seed, pos)),
            PlanElementV::Break { half_lines: 2 },
        ],
        QuestionV::Input(iq) => seq![row, PlanElementV::Break { half_lines: 1 }] + fill_lines_spec(
            iq.number_of_lines as nat,
        ) + seq![PlanElementV::Break { half_lines: 2 }],
    }
}

// ---------------------------------------------------------------------------
// Which questions are rendered
// ---------------------------------------------------------------------------

/// How many questions the paper renders.
pub open spec fn rendered_count(p: ProjectV) -> nat {
    if p.questions.len() <= p.settings.max_questions as nat {
        p.questions.len()
    } else {
        p.settings.max_questions as nat
    }
}

/// The order the questions are visited in: shuffled when the settings ask
/// for it, declaration order otherwise.
pub open spec fn question_order_spec(p: ProjectV, seed: u64) -> Seq<usize> {
    if p.settings.randomize_questions {
        shuffle_of(identity_seq(p.questions.len()), seed)
    } else {
        identity_seq(p.questions.len())
    }
}

/// The questions the paper renders, in rendered order.
pub open spec fn rendered_questions_spec(p: ProjectV, seed: u64) -> Seq<QuestionV> {
    select_seq(p.questions, question_order_spec(p, seed)).take(rendered_count(p) as int)
}

/// The sum of the point values of `qs`.
pub open spec fn sum_points(qs: Seq<QuestionV>) -> nat
    decreases qs.len(),
{
    if qs.len() == 0 {
        0
    } else {
        sum_points(qs.drop_last()) + points_spec(qs.last()) as nat
    }
}

/// Whether every question of `qs` declares at most 16 answers.
pub open spec fn all_fit(qs: Seq<QuestionV>) -> bool {
    forall|i: int| 0 <= i < qs.len() ==> answers_count(#[trigger] qs[i]) <= 16
}

/// The first position of `qs` whose question declares more than 16 answers,
/// or the length of `qs` if none does.
pub open spec fn first_oversized_from(qs: Seq<QuestionV>, i: nat) -> nat
    decreases qs.len() - i,
{
    if i >= qs.len() {
        qs.len()
    } else if answers_count(qs[i as int]) > 16 {
        i
    } else {
        first_oversized_from(qs, i + 1)
    }
}

// ---------------------------------------------------------------------------
// The whole document
// ---------------------------------------------------------------------------

/// The header band: centred title, a break, the name/class row, a half
/// break.
pub open spec fn header_elements_spec(title: Seq<char>, lang: Language) -> Seq<PlanElementV> {
    seq![
        (PlanElementV::Paragraph { text: title, font_size: Some(18u8), align: Align::Center }),
        (PlanElementV::Break { half_lines: 2 }),
        (PlanElementV::Split {
            left: Box::new(
                (PlanElementV::Paragraph {
                    text: input_name_spec(lang) + ": ________________________________________"@,
                    font_size: Some(14u8),
                    align: Align::Left,
                }),
            ),
            right: Box::new(
                (PlanElementV::Split {
                    left: Box::new(
                        (PlanElementV::Paragraph {
                            text: input_class_spec(lang) + ": _____"@,
                            font_size: Some(14u8),
                            align: Align::Left,
                        }),
                    ),
                    right: Box::new(
                        (PlanElementV::Paragraph {
                            text: input_class_num_spec(lang) + ": _____"@,
                            font_size: Some(14u8),
                            align: Align::Left,
                        }),
                    ),
                    ratio_permille: 500,
                }),
            ),
            ratio_permille: 700,
        }),
        (PlanElementV::Break { half_lines: 1 }),
    ]
}

/// The footer band: the examiner row split against the points summary. The
/// blank before the total is two underscores longer than the total's
/// magnitude.
pub open spec fn footer_elements_spec(lang: Language, max_points: nat) -> Seq<PlanElementV> {
    seq![
        (PlanElementV::Split {
            left: Box::new(
                (PlanElementV::Split {
                    left: Box::new(par(examiner_spec(lang) + ": "@)),
                    right: Box::new(par("______________________________"@)),
                    ratio_permille: 0,
                }),
            ),
            right: Box::new(
                par(
                    points_sum_spec(lang) + ": "@ + repeat_char('_', log10_floor(max_points) + 2)
                        + "/"@ + dec_of(max_points),
                ),
            ),
            ratio_permille: 700,
        }),
    ]
}

/// Every element of the paper, in document order.
pub open spec fn doc_elements_spec(p: ProjectV, seed: u64) -> Seq<PlanElementV> {
    let rendered = rendered_questions_spec(p, seed);
    header_elements_spec(p.header_title, p.settings.language) + seq![
        (PlanElementV::FontSize { points: 12u8 }),
    ] + question_blocks_spec(rendered, p.settings, seed) + footer_elements_spec(
        p.settings.language,
        sum_points(rendered),
    )
}

/// The elements of the questions `qs`, question after question.
pub open spec fn question_blocks_spec(qs: Seq<QuestionV>, st: SettingsV, seed: u64) -> Seq<
    PlanElementV,
>
    decreases qs.len(),
{
    if qs.len() == 0 {
        Seq::empty()
    } else {
        question_blocks_spec(qs.drop_last(), st, seed) + question_block_spec(
            qs.last(),
            (qs.len() - 1) as nat,
            st,
            seed,
        )
    }
}

// ---------------------------------------------------------------------------
// Executable pipeline
// ---------------------------------------------------------------------------

/// The title/points row of `question` at rendered position `i`.
fn gen_points_element(i: usize, question: &Question, project: &Project) -> (r: PlanElement)
    requires
        i < 255,
    ensures
        elem_view(r) == points_row_spec(
            i as nat,
            question@,
            project@.settings.language,
            project@.settings.show_hints,
        ),
{
    let show_hint = match question {
        Question::Selection(q) => q.correct.len() >= 2 && project.settings.show_hints,
        Question::Input(_) => false,
    };
    let language = &project.settings.language;

    let mut title = String::new();
    push_dec(&mut title, i as u64 + 1);
    title.append(". ");
    let t = question.get_title();
    title.append(t.as_str());
    if show_hint {
        title.append(" (");
        title.append(language.multiple_answers_hint());
        title.append(")");
    }
    proof {
        assert(title@ == title_line_spec(
            i as nat,
            question@,
            project@.settings.language,
            project@.settings.show_hints,
        ));
    }

    let points_element = PlanElement::Paragraph {
        text: language.format_points(question.get_points()),
        font_size: None,
        align: Align::Right,
    };
    let title_element = PlanElement::Paragraph { text: title, font_size: None, align: Align::Left };
    let r = PlanElement::Split(SplitElement::new(title_element, points_element, 900));
    r
}

/// Appends the header band to `doc`.
fn gen_header(doc: &mut DocPlan, project: &Project)
    ensures
        final(doc)@.elements == old(doc)@.elements + header_elements_spec(
            project@.header_title,
            project@.settings.language,
        ),
        final(doc)@.title == old(doc)@.title,
        final(doc)@.paper_size == old(doc)@.paper_size,
        final(doc)@.margin_mm == old(doc)@.margin_mm,
        final(doc)@.max_points == old(doc)@.max_points,
{
    let language = &project.settings.language;

    let mut title_text = String::new();
    title_text.append(project.header.title.as_str());
    doc.elements.push(
        PlanElement::Paragraph { text: title_text, font_size: Some(18), align: Align::Center },
    );

    doc.elements.push(PlanElement::Break { half_lines: 2 });

    let mut name_text = String::from_str(language.input_name());
    name_text.append(": ________________________________________");
    let name = PlanElement::Paragraph { text: name_text, font_size: Some(14), align: Align::Left };

    let mut class_text = String::from_str(language.input_class());
    class_text.append(": _____");
    let mut class_num_text = String::from_str(language.input_class_num());
    class_num_text.append(": _____");
    let class = PlanElement::Split(
        SplitElement::new(
            PlanElement::Paragraph { text: class_text, font_size: Some(14), align: Align::Left },
            PlanElement::Paragraph {
                text: class_num_text,
                font_size: Some(14),
                align: Align::Left,
            },
            500,
        ),
    );

    doc.elements.push(PlanElement::Split(SplitElement::new(name, class, 700)));

    doc.elements.push(PlanElement::Break { half_lines: 1 });

    proof {
        assert(doc@.elements =~= old(doc)@.elements + header_elements_spec(
            project@.header_title,
            project@.settings.language,
        ));
    }
}

/// Appends the footer band to `doc`.
fn gen_footer(doc: &mut DocPlan, project: &Project, max_points: usize)
    requires
        max_points <= 0xFFFF,
    ensures
        final(doc)@.elements == old(doc)@.elements + footer_elements_spec(
            project@.settings.language,
            max_points as nat,
        ),
        final(doc)@.title == old(doc)@.title,
        final(doc)@.paper_size == old(doc)@.paper_size,
        final(doc)@.margin_mm == old(doc)@.margin_mm,
        final(doc)@.max_points == old(doc)@.max_points,
{
    proof {
        lemma_log10_floor_le_self(max_points as nat);
    }
    let points_needed_space = log10(max_points) + 2;

    let mut examiner_text = String::from_str(project.settings.language.get_examiner());
    examiner_text.append(": ");
    let examiner = PlanElement::Split(
        SplitElement::new(
            PlanElement::Paragraph { text: examiner_text, font_size: None, align: Align::Left },
            PlanElement::Paragraph {
                text: String::from_str("______________________________"),
                font_size: None,
                align: Align::Left,
            },
            0,
        ),
    );

    let mut points_text = String::from_str(project.settings.language.get_points_sum());
    points_text.append(": ");
    push_repeat(&mut points_text, '_', points_needed_space);
    points_text.append("/");
    push_dec(&mut points_text, max_points as u64);
    let points = PlanElement::Paragraph { text: points_text, font_size: None, align: Align::Left };

    doc.elements.push(PlanElement::Split(SplitElement::new(examiner, points, 700)));

    proof {
        assert(doc@.elements =~= old(doc)@.elements + footer_elements_spec(
            project@.settings.language,
            max_points as nat,
        ));
    }
}

/// The bag of answers shown for the question at rendered position `pos`
/// equals the bag it declares.
pub open spec fn answers_preserved(q: QuestionV, pos: nat, seed: u64) -> bool {
    q matches QuestionV::Selection(s) ==> shuffled_answers_spec(s, seed, pos).to_multiset()
        == all_answers(s).to_multiset()
}

/// Taking one more question appends exactly its block.
proof fn lemma_blocks_take_succ(qs: Seq<QuestionV>, i: int, st: SettingsV, seed: u64)
    requires
        0 <= i < qs.len(),
    ensures
        question_blocks_spec(qs.take(i + 1), st, seed) == question_blocks_spec(
            qs.take(i),
            st,
            seed,
        ) + question_block_spec(qs[i], i as nat, st, seed),
{
    assert(qs.take(i + 1).drop_last() =~= qs.take(i));
    assert(qs.take(i + 1).last() == qs[i]);
}

/// Taking one more question adds exactly its points.
proof fn lemma_sum_take_succ(qs: Seq<QuestionV>, i: int)
    requires
        0 <= i < qs.len(),
    ensures
        sum_points(qs.take(i + 1)) == sum_points(qs.take(i)) + points_spec(qs[i]),
{
    assert(qs.take(i + 1).drop_last() =~= qs.take(i));
    assert(qs.take(i + 1).last() == qs[i]);
}

proof fn lemma_first_oversized_aux(qs: Seq<QuestionV>, j: nat, i: nat)
    requires
        j <= i < qs.len(),
        forall|k: int| j <= k < i ==> answers_count(#[trigger] qs[k]) <= 16,
        answers_count(qs[i as int]) > 16,
    ensures
        first_oversized_from(qs, j) == i,
    decreases i - j,
{
    if j < i {
        lemma_first_oversized_aux(qs, j + 1, i);
    }
}

/// The position an oversized question is reported at is the first one.
proof fn lemma_first_oversized(qs: Seq<QuestionV>, i: nat)
    requires
        i < qs.len(),
        forall|k: int| 0 <= k < i ==> answers_count(#[trigger] qs[k]) <= 16,
        answers_count(qs[i as int]) > 16,
    ensures
        first_oversized_from(qs, 0) == i,
{
    lemma_first_oversized_aux(qs, 0, i);
}

/// When every question fits, no position is reported.
proof fn lemma_none_oversized(qs: Seq<QuestionV>, j: nat)
    requires
        forall|k: int| 0 <= k < qs.len() ==> answers_count(#[trigger] qs[k]) <= 16,
        j <= qs.len(),
    ensures
        first_oversized_from(qs, j) == qs.len(),
    decreases qs.len() - j,
{
    if j < qs.len() {
        lemma_none_oversized(qs, j + 1);
    }
}

/// Appends the body font size and every rendered question's elements to
/// `doc`; returns the summed points, or the position of the first rendered
/// question that declares more than 16 answers.
fn gen_questions(doc: &mut DocPlan, project: &Project, seed: u64) -> (r: Result<usize, GenError>)
    ensures
        r is Ok <==> all_fit(rendered_questions_spec(project@, seed)),
        r matches Ok(total) ==> {
            let rendered = rendered_questions_spec(project@, seed);
            &&& final(doc)@.elements == old(doc)@.elements + seq![
                (PlanElementV::FontSize { points: 12u8 }),
            ] + question_blocks_spec(rendered, project@.settings, seed)
            &&& total as nat == sum_points(rendered)
            &&& total <= 0xFFFF
            &&& forall|j: int|
                0 <= j < rendered.len() ==> answers_preserved(#[trigger] rendered[j], j as nat, seed)
        },
        r matches Err(e) ==> {
            let rendered = rendered_questions_spec(project@, seed);
            &&& e matches GenError::TooManyAnswers { index }
            &&& index as nat == first_oversized_from(rendered, 0)
            &&& answers_count(rendered[index as int]) > 16
        },
        final(doc)@.title == old(doc)@.title,
        final(doc)@.paper_size == old(doc)@.paper_size,
        final(doc)@.margin_mm == old(doc)@.margin_mm,
        final(doc)@.max_points == old(doc)@.max_points,
{
    doc.elements.push(PlanElement::FontSize { points: 12 });

    let n = project.questions.len();
    let order: Vec<usize> = if project.settings.randomize_questions {
        shuffled_permutation(n, seed)
    } else {
        identity_vec(n)
    };
    proof {
        if project@.settings.randomize_questions {
            lemma_permutation_in_range(order@, n as nat);
        }
        assert(order@ == question_order_spec(project@, seed));
        assert(forall|j: int| 0 <= j < order@.len() ==> (#[trigger] order@[j]) < n);
    }

    let mq = project.settings.max_questions as usize;
    let count = if n <= mq {
        n
    } else {
        mq
    };
    let ghost rendered = rendered_questions_spec(project@, seed);
    proof {
        assert(count as nat == rendered_count(project@));
        assert(rendered.len() == count);
        assert(forall|j: int|
            0 <= j < count ==> #[trigger] rendered[j] == project@.questions[order@[j] as int]);
    }

    let mut total: usize = 0;
    let mut i: usize = 0;
    while i < count
        invariant
            i <= count,
            count <= 255,
            count <= n,
            count <= order@.len(),
            n == project@.questions.len(),
            rendered == rendered_questions_spec(project@, seed),
            rendered.len() == count,
            forall|j: int| 0 <= j < order@.len() ==> (#[trigger] order@[j]) < n,
            forall|j: int|
                0 <= j < count ==> #[trigger] rendered[j] == project@.questions[order@[j] as int],
            doc@.elements == old(doc)@.elements + seq![
                (PlanElementV::FontSize { points: 12u8 }),
            ] + question_blocks_spec(rendered.take(i as int), project@.settings, seed),
            total as nat == sum_points(rendered.take(i as int)),
            total <= i * 255,
            forall|j: int| 0 <= j < i ==> answers_count(#[trigger] rendered[j]) <= 16,
            forall|j: int| 0 <= j < i ==> answers_preserved(#[trigger] rendered[j], j as nat, seed),
            doc@.title == old(doc)@.title,
            doc@.paper_size == old(doc)@.paper_size,
            doc@.margin_mm == old(doc)@.margin_mm,
            doc@.max_points == old(doc)@.max_points,
        decreases count - i,
    {
        let qi = order[i];
        let question = &project.questions[qi];
        proof {
            assert(question@ == rendered[i as int]);
        }

        let oversized = match question {
            Question::Selection(q) => q.correct.len() > 16 || q.incorrect.len() > 16 || q.correct.len()
                + q.incorrect.len() > 16,
            Question::Input(_) => false,
        };
        if oversized {
            proof {
                lemma_first_oversized(rendered, i as nat);
            }
            return Err(GenError::TooManyAnswers { index: i });
        }

        let ghost pre = doc@.elements;
        let row_el = gen_points_element(i, question, project);
        let ghost row_v = elem_view(row_el);
        doc.elements.push(row_el);
        proof {
            assert(doc@.elements =~= pre + seq![row_v]);
        }
        let p = question.get_points();
        total = total + p as usize;

        match question {
            Question::Selection(q) => {
                let ghost sv = match rendered[i as int] {
                    QuestionV::Selection(s) => s,
                    QuestionV::Input(iv) => arbitrary(),
                };
                let mut answers = clone_strings(&q.correct);
                let mut inc = clone_strings(&q.incorrect);
                answers.append(&mut inc);
                let k = answers.len();
                proof {
                    assert(k == all_answers(sv).len());
                    assert(forall|m: int|
                        0 <= m < k ==> (#[trigger] answers@[m])@ == all_answers(sv)[m]);
                }
                let sub_seed = seed.wrapping_add(i as u64 + 1);
                proof {
                    assert(sub_seed == answers_seed_spec(seed, i as nat));
                }
                let perm = shuffled_permutation(k, sub_seed);
                proof {
                    lemma_permutation_in_range(perm@, k as nat);
                    lemma_select_permutation(all_answers(sv), perm@);
                }
                let shuffled = select_strings(&answers, &perm);
                proof {
                    assert(forall|m: int|
                        0 <= m < k ==> (#[trigger] shuffled@[m])@ == shuffled_answers_spec(
                            sv,
                            seed,
                            i as nat,
                        )[m]);
                    assert(shuffled_answers_spec(sv, seed, i as nat).to_multiset() == all_answers(
                        sv,
                    ).to_multiset());
                }

                let mut list = AlphabeticOrderedList::new(project.settings.language.get_first_char());
                let ghost list_spec = answer_list_spec(
                    sv,
                    project@.settings.language,
                    seed,
                    i as nat,
                );
                let mut j: usize = 0;
                while j < shuffled.len()
                    invariant
                        j <= k,
                        k <= 16,
                        k == shuffled@.len(),
                        k == all_answers(sv).len(),
                        list_spec == answer_list_spec(sv, project@.settings.language, seed, i as nat),
                        list_spec.items.len() == k,
                        forall|m: int|
                            0 <= m < k ==> (#[trigger] shuffled@[m])@ == shuffled_answers_spec(
                                sv,
                                seed,
                                i as nat,
                            )[m],
                        list@.start_char == first_char_spec(project@.settings.language),
                        list@.number == j,
                        list@.items == list_spec.items.take(j as int),
                    decreases k - j,
                {
                    proof {
                        assert(first_char_spec(project@.settings.language) as u32 == 0x61
                            || first_char_spec(project@.settings.language) as u32 == 0x430);
                        assert(bullet_code_valid(list@));
                    }
                    let ghost old_list = list@;
                    match list.push(shuffled[j].clone()) {
                        Ok(_) => {},
                        Err(_) => {
                            proof {
                                assert(false);
                            }
                        },
                    }
                    proof {
                        assert(list@ == list_push_spec(old_list, shuffled@[j as int]@));
                        assert(list@.items.last() == list_spec.items[j as int]);
                        assert(list@.items =~= list_spec.items.take(j as int + 1));
                    }
                    j = j + 1;
                }
                proof {
                    assert(list@.items =~= list_spec.items);
                    assert(list@ == list_spec);
                }
                let ghost list_v = PlanElementV::List(list@);
                doc.elements.push(PlanElement::List(list));
                doc.elements.push(PlanElement::Break { half_lines: 2 });
                proof {
                    assert(doc@.elements =~= pre + seq![
                        row_v,
                        list_v,
                        (PlanElementV::Break { half_lines: 2u8 }),
                    ]);
                    assert(seq![row_v, list_v, (PlanElementV::Break { half_lines: 2u8 })]
                        =~= question_block_spec(rendered[i as int], i as nat, project@.settings, seed));
                }
            },
            Question::Input(q) => {
                doc.elements.push(PlanElement::Break { half_lines: 1 });
                proof {
                    assert(doc@.elements =~= pre + seq![
                        row_v,
                        (PlanElementV::Break { half_lines: 1u8 }),
                    ]);
                }
                let ghost base = doc@.elements;
                let lines = q.number_of_lines;
                let mut j: u16 = 0;
                while j < lines
                    invariant
                        j <= lines,
                        doc@.elements == base + fill_lines_spec(j as nat),
                        doc@.title == old(doc)@.title,
                        doc@.paper_size == old(doc)@.paper_size,
                        doc@.margin_mm == old(doc)@.margin_mm,
                        doc@.max_points == old(doc)@.max_points,
                    decreases lines - j,
                {
                    let fill_el = PlanElement::PaddedFill {
                        fill: CharRepeat::new('.'),
                        vertical_margin_tenth_mm: 15,
                    };
                    let ghost fv = elem_view(fill_el);
                    proof {
                        assert(fv == (PlanElementV::PaddedFill {
                            ch: '.',
                            vertical_margin_tenth_mm: 15u8,
                        }));
                    }
                    doc.elements.push(fill_el);
                    proof {
                        assert(doc@.elements == (base + fill_lines_spec(j as nat)).push(fv));
                        assert((base + fill_lines_spec(j as nat)).push(fv) =~= base
                            + fill_lines_spec(j as nat + 1));
                        assert(doc@.elements =~= base + fill_lines_spec(j as nat + 1));
                    }
                    j = j + 1;
                }
                doc.elements.push(PlanElement::Break { half_lines: 2 });
                proof {
                    let b2 = (PlanElementV::Break { half_lines: 2u8 });
                    assert(doc@.elements == (base + fill_lines_spec(lines as nat)).push(b2));
                    assert(base == pre + seq![row_v, (PlanElementV::Break { half_lines: 1u8 })]);
                    assert((pre + seq![row_v, (PlanElementV::Break { half_lines: 1u8 })]
                        + fill_lines_spec(lines as nat)).push(b2) =~= pre + (seq![
                        row_v,
                        (PlanElementV::Break { half_lines: 1u8 }),
                    ] + fill_lines_spec(lines as nat) + seq![b2]));
                    assert(doc@.elements =~= pre + (seq![
                        row_v,
                        (PlanElementV::Break { half_lines: 1u8 }),
                    ] + fill_lines_spec(lines as nat) + seq![
                        (PlanElementV::Break { half_lines: 2u8 }),
                    ]));
                    assert(seq![row_v, (PlanElementV::Break { half_lines: 1u8 })] + fill_lines_spec(
                        lines as nat,
                    ) + seq![(PlanElementV::Break { half_lines: 2u8 })]
                        =~= question_block_spec(rendered[i as int], i as nat, project@.settings, seed));
                }
            },
        }

        proof {
            lemma_blocks_take_succ(rendered, i as int, project@.settings, seed);
            lemma_sum_take_succ(rendered, i as int);
            assert(doc@.elements =~= old(doc)@.elements + seq![
                (PlanElementV::FontSize { points: 12u8 }),
            ] + question_blocks_spec(rendered.take(i as int + 1), project@.settings, seed));
        }
        i = i + 1;
    }

    proof {
        assert(rendered.take(count as int) =~= rendered);
        lemma_none_oversized(rendered, 0);
    }
    Ok(total)
}

/// Lays the whole paper out: header band, rendered questions, footer band.
/// The plan is a function of the project and the seed alone; rendering it
/// twice from equal inputs yields equal plans.
pub fn generate_plan(project: &Project, seed: u64) -> (r: Result<DocPlan, GenError>)
    ensures
        r is Ok <==> all_fit(rendered_questions_spec(project@, seed)),
        r matches Ok(plan) ==> {
            let rendered = rendered_questions_spec(project@, seed);
            &&& plan@.elements == doc_elements_spec(project@, seed)
            &&& plan@.max_points as nat == sum_points(rendered)
            &&& plan@.title == project@.header_title
            &&& plan@.paper_size == project@.settings.paper_size
            &&& plan@.margin_mm == 10u8
            &&& forall|j: int|
                0 <= j < rendered.len() ==> answers_preserved(#[trigger] rendered[j], j as nat, seed)
        },
        r matches Err(e) ==> {
            let rendered = rendered_questions_spec(project@, seed);
            &&& e matches GenError::TooManyAnswers { index }
            &&& index as nat == first_oversized_from(rendered, 0)
            &&& answers_count(rendered[index as int]) > 16
        },
{
    let mut title = String::new();
    title.append(project.header.title.as_str());
    let mut doc = DocPlan {
        title,
        paper_size: project.settings.paper_size,
        margin_mm: 10,
        elements: Vec::new(),
        max_points: 0,
    };
    proof {
        assert(doc@.elements =~= Seq::<PlanElementV>::empty());
    }

    gen_header(&mut doc, project);
    let total = match gen_questions(&mut doc, project, seed) {
        Ok(total) => total,
        Err(e) => {
            return Err(e);
        },
    };
    doc.max_points = total;
    gen_footer(&mut doc, project, total);

    proof {
        assert(doc@.elements =~= doc_elements_spec(project@, seed));
    }
    Ok(doc)
}

// ---------------------------------------------------------------------------
// Laws
// ---------------------------------------------------------------------------

/// Hint gating: the multiple-answers suffix stands at the end of a title
/// line exactly when the question is a Selection with at least two correct
/// options and hints are switched on; otherwise the line is the plain
/// numbered title.
pub proof fn lemma_hint_gating(pos: nat, q: QuestionV, lang: Language, show_hints: bool)
    ensures
        shows_hint(q, show_hints) <==> title_line_spec(pos, q, lang, show_hints)
            == plain_title_spec(pos, q) + hint_suffix_spec(lang),
        !shows_hint(q, show_hints) ==> title_line_spec(pos, q, lang, show_hints)
            == plain_title_spec(pos, q),
{
    reveal_strlit(" (");
    if !shows_hint(q, show_hints) {
        assert(hint_suffix_spec(lang).len() >= 2);
        assert((plain_title_spec(pos, q) + hint_suffix_spec(lang)).len() > plain_title_spec(
            pos,
            q,
        ).len());
    }
}

/// Truncation: when the question order is not randomized, the rendered
/// questions are exactly the declared ones up to the configured maximum, in
/// declaration order.
pub proof fn lemma_truncation(p: ProjectV, seed: u64)
    requires
        !p.settings.randomize_questions,
        p.questions.len() <= usize::MAX,
    ensures
        rendered_questions_spec(p, seed) == p.questions.take(rendered_count(p) as int),
{
    let n = p.questions.len();
    assert forall|i: int| 0 <= i < n implies select_seq(p.questions, identity_seq(n))[i]
        == p.questions[i] by {
        assert(identity_seq(n)[i] == i as usize);
    }
    assert(select_seq(p.questions, identity_seq(n)) =~= p.questions);
}

/// Deterministic rendering: the element sequence is a function of the
/// project and the seed alone, so equal projects rendered with equal seeds
/// give equal papers.
pub proof fn lemma_deterministic(p1: ProjectV, p2: ProjectV, seed1: u64, seed2: u64)
    requires
        p1 == p2,
        seed1 == seed2,
    ensures
        doc_elements_spec(p1, seed1) == doc_elements_spec(p2, seed2),
{
}

/// Point accounting: the paper ends with the footer band, whose points
/// summary shows the sum of the point values of the rendered questions.
pub proof fn lemma_point_accounting(p: ProjectV, seed: u64)
    ensures
        doc_elements_spec(p, seed).len() >= 1,
        doc_elements_spec(p, seed).last() == footer_elements_spec(
            p.settings.language,
            sum_points(rendered_questions_spec(p, seed)),
        )[0],
{
}

} // verus!
