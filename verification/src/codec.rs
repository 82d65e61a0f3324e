//! The project file codec: a sectioned key/value text form of a project,
//! with a serializer and a parser that are exact inverses on user-visible
//! fields. Strings are quoted with backslash escapes; the transient editing
//! buffers and the illustration paths are not stored.

use vstd::prelude::*;
use vstd::string::StrSliceExecFns;
use vstd::string::StringExecFns;
use crate::locale::{Language, PaperSize};
use crate::model::{
    InputQuestionV, Project, ProjectV, Question, QuestionV, SelectionQuestionV, SettingsV,
    wf_project, wf_question,
};
use crate::numbers::{dec_of, digit_val, digits_val, push_dec};

verus! {

// ---------------------------------------------------------------------------
// Serialized form, at the spec level
// ---------------------------------------------------------------------------

/// The escape of one character inside a quoted string.
pub open spec fn escape_char(c: char) -> Seq<char> {
    if c == '\\' {
        seq!['\\', '\\']
    } else if c == '"' {
        seq!['\\', '"']
    } else if c == '\n' {
        seq!['\\', 'n']
    } else {
        seq![c]
    }
}

/// The escaped body of a quoted string.
pub open spec fn escape(s: Seq<char>) -> Seq<char>
    decreases s.len(),
{
    if s.len() == 0 {
        Seq::empty()
    } else {
        escape_char(s[0]) + escape(s.drop_first())
    }
}

/// A quoted, escaped string value.
pub open spec fn quoted(s: Seq<char>) -> Seq<char> {
    seq!['"'] + escape(s) + seq!['"']
}

/// A boolean value's text.
pub open spec fn bool_str(b: bool) -> Seq<char> {
    if b {
        "true"@
    } else {
        "false"@
    }
}

/// One `key = value` line.
pub open spec fn kv_line(key: Seq<char>, value: Seq<char>) -> Seq<char> {
    key + " = "@ + value + "\n"@
}

/// The comma-separated items of a string array.
pub open spec fn str_list_items(items: Seq<Seq<char>>) -> Seq<char>
    decreases items.len(),
{
    if items.len() == 0 {
        Seq::empty()
    } else if items.len() == 1 {
        quoted(items[0])
    } else {
        quoted(items[0]) + ", "@ + str_list_items(items.drop_first())
    }
}

/// A bracketed string array value.
pub open spec fn str_list(items: Seq<Seq<char>>) -> Seq<char> {
    seq!['['] + str_list_items(items) + seq![']']
}

/// The name a language is stored under.
pub open spec fn language_key_spec(l: Language) -> Seq<char> {
    match l {
        Language::English => "English"@,
        Language::Bulgarian => "Bulgarian"@,
    }
}

/// The stored form of the settings section.
pub open spec fn ser_settings(st: SettingsV) -> Seq<char> {
    "[settings]\n"@ + kv_line("show_hints"@, bool_str(st.show_hints)) + kv_line(
        "paper_size"@,
        quoted("A4"@),
    ) + kv_line("language"@, quoted(language_key_spec(st.language))) + kv_line(
        "fonts_path"@,
        quoted(st.fonts_path),
    ) + kv_line("font"@, quoted(st.font)) + kv_line("output"@, quoted(st.output)) + kv_line(
        "max_questions"@,
        dec_of(st.max_questions as nat),
    ) + kv_line("randomize_questions"@, bool_str(st.randomize_questions))
}

/// The stored form of the header section.
pub open spec fn ser_header(title: Seq<char>) -> Seq<char> {
    seq!['\n'] + "[header]\n"@ + kv_line("title"@, quoted(title))
}

/// The stored form of one question block.
pub open spec fn ser_question(q: QuestionV) -> Seq<char> {
    match q {
        QuestionV::Selection(s) => seq!['\n'] + "[[questions]]\n"@ + kv_line("question"@, quoted(s.question))
            + kv_line("correct"@, str_list(s.correct)) + kv_line(
            "incorrect"@,
            str_list(s.incorrect),
        ) + kv_line("points"@, dec_of(s.points as nat)),
        QuestionV::Input(i) => seq!['\n'] + "[[questions]]\n"@ + kv_line("question"@, quoted(i.question))
            + kv_line("number_of_lines"@, dec_of(i.number_of_lines as nat)) + kv_line(
            "points"@,
            dec_of(i.points as nat),
        ),
    }
}

/// The stored form of the question list.
pub open spec fn ser_questions(qs: Seq<QuestionV>) -> Seq<char>
    decreases qs.len(),
{
    if qs.len() == 0 {
        Seq::empty()
    } else {
        ser_question(qs[0]) + ser_questions(qs.drop_first())
    }
}

/// The stored form of a whole project.
pub open spec fn ser_project(p: ProjectV) -> Seq<char> {
    ser_settings(p.settings) + ser_header(p.header_title) + ser_questions(p.questions)
}

// ---------------------------------------------------------------------------
// Normal form: what a freshly loaded project looks like
// ---------------------------------------------------------------------------

/// `q` with its editing buffer synced to the title and no illustration:
/// the shape a question has right after loading.
pub open spec fn normalize_question(q: QuestionV) -> QuestionV {
    match q {
        QuestionV::Selection(s) => QuestionV::Selection(
            SelectionQuestionV { question_buf: s.question, image: None, ..s },
        ),
        QuestionV::Input(i) => QuestionV::Input(
            InputQuestionV { question_buf: i.question, image: None, ..i },
        ),
    }
}

/// `p` with every question in loaded shape.
pub open spec fn normalize_project(p: ProjectV) -> ProjectV {
    ProjectV {
        settings: p.settings,
        header_title: p.header_title,
        questions: p.questions.map_values(|q: QuestionV| normalize_question(q)),
    }
}

// ---------------------------------------------------------------------------
// Executable serializer
// ---------------------------------------------------------------------------

/// `escape` grows one character at a time at the back.
proof fn lemma_escape_push(s: Seq<char>, c: char)
    ensures
        escape(s.push(c)) == escape(s) + escape_char(c),
    decreases s.len(),
{
    if s.len() == 0 {
        assert(s.push(c)[0] == c);
        assert(s.push(c).drop_first() =~= Seq::<char>::empty());
        assert(escape(Seq::<char>::empty()) == Seq::<char>::empty());
        assert(escape(s.push(c)) == escape_char(c) + Seq::<char>::empty());
        assert(escape_char(c) + Seq::<char>::empty() =~= escape_char(c));
        assert(escape(s) == Seq::<char>::empty());
        assert(escape(s) + escape_char(c) =~= escape_char(c));
    } else {
        assert(s.push(c).drop_first() =~= s.drop_first().push(c));
        lemma_escape_push(s.drop_first(), c);
        assert(escape(s.push(c)) == escape_char(s[0]) + (escape(s.drop_first()) + escape_char(c)));
        assert(escape_char(s[0]) + (escape(s.drop_first()) + escape_char(c)) =~= (escape_char(s[0])
            + escape(s.drop_first())) + escape_char(c));
    }
}

/// Appends the quoted, escaped form of `s` to `out`.
fn push_quoted(out: &mut String, s: &str)
    ensures
        final(out)@ == old(out)@ + quoted(s@),
{
    out.push('"');
    proof {
        assert(out@ =~= old(out)@ + seq!['"'] + escape(s@.take(0)));
    }
    let n = s.unicode_len();
    let mut i: usize = 0;
    while i < n
        invariant
            i <= n,
            n == s@.len(),
            out@ == old(out)@ + seq!['"'] + escape(s@.take(i as int)),
        decreases n - i,
    {
        let c = s.get_char(i);
        if c == '\\' {
            out.push('\\');
            out.push('\\');
        } else if c == '"' {
            out.push('\\');
            out.push('"');
        } else if c == '\n' {
            out.push('\\');
            out.push('n');
        } else {
            out.push(c);
        }
        proof {
            lemma_escape_push(s@.take(i as int), c);
            assert(s@.take(i as int).push(c) =~= s@.take(i as int + 1));
            assert(out@ =~= old(out)@ + seq!['"'] + escape(s@.take(i as int + 1)));
        }
        i = i + 1;
    }
    out.push('"');
    proof {
        assert(s@.take(n as int) =~= s@);
        assert(out@ =~= old(out)@ + quoted(s@));
    }
}

/// Appends one `key = <quoted string>` line to `out`.
fn push_kv_quoted(out: &mut String, key: &str, value: &str)
    ensures
        final(out)@ == old(out)@ + kv_line(key@, quoted(value@)),
{
    out.append(key);
    out.append(" = ");
    push_quoted(out, value);
    out.push('\n');
    proof {
        reveal_strlit("\n");
        assert(out@ =~= old(out)@ + kv_line(key@, quoted(value@)));
    }
}

/// Appends one `key = <bool>` line to `out`.
fn push_kv_bool(out: &mut String, key: &str, value: bool)
    ensures
        final(out)@ == old(out)@ + kv_line(key@, bool_str(value)),
{
    out.append(key);
    out.append(" = ");
    if value {
        out.append("true");
    } else {
        out.append("false");
    }
    out.push('\n');
    proof {
        reveal_strlit("\n");
        assert(out@ =~= old(out)@ + kv_line(key@, bool_str(value)));
    }
}

/// Appends one `key = <number>` line to `out`.
fn push_kv_number(out: &mut String, key: &str, value: u64)
    ensures
        final(out)@ == old(out)@ + kv_line(key@, dec_of(value as nat)),
{
    out.append(key);
    out.append(" = ");
    push_dec(out, value);
    out.push('\n');
    proof {
        reveal_strlit("\n");
        assert(out@ =~= old(out)@ + kv_line(key@, dec_of(value as nat)));
    }
}

/// Appends a bracketed string array to `out`.
#[verifier::rlimit(40)]
fn push_str_list(out: &mut String, items: &Vec<String>)
    ensures
        final(out)@ == old(out)@ + str_list(items.deep_view()),
{
    out.push('[');
    proof {
        assert(out@ =~= old(out)@ + seq!['['] + str_list_items(items.deep_view().take(0)));
    }
    let n = items.len();
    let mut i: usize = 0;
    while i < n
        invariant
            i <= n,
            n == items@.len(),
            out@ == old(out)@ + seq!['['] + str_list_items(items.deep_view().take(i as int)) + (
            if 0 < i < n {
                ", "@
            } else {
                Seq::<char>::empty()
            }),
        decreases n - i,
    {
        push_quoted(out, items[i].as_str());
        if i + 1 < n {
            out.append(", ");
        }
        proof {
            lemma_str_list_items_push(items.deep_view(), i as int);
            if i + 1 < n {
                assert(out@ =~= old(out)@ + seq!['['] + str_list_items(
                    items.deep_view().take(i as int + 1),
                ) + ", "@);
            } else {
                assert(out@ =~= old(out)@ + seq!['['] + str_list_items(
                    items.deep_view().take(i as int + 1),
                ));
            }
        }
        i = i + 1;
    }
    out.push(']');
    proof {
        assert(items.deep_view().take(n as int) =~= items.deep_view());
        assert(out@ =~= old(out)@ + str_list(items.deep_view()));
    }
}

/// Taking one more item appends a separator (when one is due) and the
/// item's quoted form.
proof fn lemma_str_list_items_push(items: Seq<Seq<char>>, i: int)
    requires
        0 <= i < items.len(),
    ensures
        i == 0 ==> str_list_items(items.take(1)) == quoted(items[0]),
        i > 0 ==> str_list_items(items.take(i + 1)) == str_list_items(items.take(i)) + ", "@
            + quoted(items[i]),
    decreases i,
{
    if i == 0 {
        assert(items.take(1).len() == 1);
        assert(items.take(1)[0] == items[0]);
    } else {
        lemma_str_list_items_push(items.drop_first(), i - 1);
        assert(items.take(i + 1).drop_first() =~= items.drop_first().take(i));
        assert(items.take(i).drop_first() =~= items.drop_first().take(i - 1));
        assert(items.take(i + 1).len() >= 2);
        assert(items.take(i + 1)[0] == items[0]);
        assert(items.take(i)[0] == items[0]);
        if i == 1 {
            assert(str_list_items(items.take(2)) == quoted(items[0]) + ", "@ + quoted(items[1]))
                by {
                assert(items.drop_first().take(1)[0] == items[1]);
                assert(str_list_items(items.drop_first().take(1)) == quoted(items[1]));
            }
            assert(str_list_items(items.take(1)) == quoted(items[0]));
        } else {
            assert(str_list_items(items.take(i + 1)) == quoted(items[0]) + ", "@ + str_list_items(
                items.drop_first().take(i),
            ));
            assert(str_list_items(items.take(i)) == quoted(items[0]) + ", "@ + str_list_items(
                items.drop_first().take(i - 1),
            ));
            assert((quoted(items[0]) + ", "@ + (str_list_items(items.drop_first().take(i - 1))
                + ", "@ + quoted(items.drop_first()[i - 1]))) =~= ((quoted(items[0]) + ", "@
                + str_list_items(items.drop_first().take(i - 1))) + ", "@ + quoted(items[i])));
        }
    }
}

/// Appends one question block to `out`.
fn push_question(out: &mut String, q: &Question)
    ensures
        final(out)@ == old(out)@ + ser_question(q@),
{
    match q {
        Question::Selection(sq) => {
            out.push('\n');
            out.append("[[questions]]\n");
            push_kv_quoted(out, "question", sq.question.as_str());
            out.append("correct");
            out.append(" = ");
            push_str_list(out, &sq.correct);
            out.push('\n');
            out.append("incorrect");
            out.append(" = ");
            push_str_list(out, &sq.incorrect);
            out.push('\n');
            push_kv_number(out, "points", sq.points as u64);
            proof {
                reveal_strlit("\n");
                assert(out@ =~= old(out)@ + ser_question(q@));
            }
        },
        Question::Input(iq) => {
            out.push('\n');
            out.append("[[questions]]\n");
            push_kv_quoted(out, "question", iq.question.as_str());
            push_kv_number(out, "number_of_lines", iq.number_of_lines as u64);
            push_kv_number(out, "points", iq.points as u64);
            proof {
                assert(out@ =~= old(out)@ + ser_question(q@));
            }
        },
    }
}

/// The stored text of a whole project. Editing buffers and illustration
/// paths are not stored.
pub fn serialize_project(p: &Project) -> (r: String)
    ensures
        r@ == ser_project(p@),
{
    let mut out = String::new();

    out.append("[settings]\n");
    push_kv_bool(&mut out, "show_hints", p.settings.show_hints);
    match p.settings.paper_size {
        PaperSize::A4 => push_kv_quoted(&mut out, "paper_size", "A4"),
    }
    match p.settings.language {
        Language::English => push_kv_quoted(&mut out, "language", "English"),
        Language::Bulgarian => push_kv_quoted(&mut out, "language", "Bulgarian"),
    }
    push_kv_quoted(&mut out, "fonts_path", p.settings.fonts_path.as_str());
    push_kv_quoted(&mut out, "font", p.settings.font.as_str());
    push_kv_quoted(&mut out, "output", p.settings.output.as_str());
    push_kv_number(&mut out, "max_questions", p.settings.max_questions as u64);
    push_kv_bool(&mut out, "randomize_questions", p.settings.randomize_questions);
    proof {
        assert(out@ =~= ser_settings(p@.settings));
    }

    out.push('\n');
    out.append("[header]\n");
    push_kv_quoted(&mut out, "title", p.header.title.as_str());
    proof {
        assert(out@ =~= ser_settings(p@.settings) + ser_header(p@.header_title));
    }

    proof {
        assert(out@ =~= ser_settings(p@.settings) + ser_header(p@.header_title) + ser_questions_to(
            p@.questions,
            0,
        ));
    }
    let n = p.questions.len();
    let mut i: usize = 0;
    while i < n
        invariant
            i <= n,
            n == p@.questions.len(),
            out@ == ser_settings(p@.settings) + ser_header(p@.header_title) + ser_questions_to(
                p@.questions,
                i as int,
            ),
        decreases n - i,
    {
        push_question(&mut out, &p.questions[i]);
        proof {
            lemma_ser_questions_to_push(p@.questions, i as int);
            assert(out@ =~= ser_settings(p@.settings) + ser_header(p@.header_title)
                + ser_questions_to(p@.questions, i as int + 1));
        }
        i = i + 1;
    }
    proof {
        lemma_ser_questions_to_all(p@.questions);
        assert(out@ =~= ser_project(p@));
    }
    out
}

/// The stored form of the first `i` questions.
pub open spec fn ser_questions_to(qs: Seq<QuestionV>, i: int) -> Seq<char> {
    ser_questions(qs.take(i))
}

proof fn lemma_ser_questions_push(qs: Seq<QuestionV>, i: int)
    requires
        0 <= i < qs.len(),
    ensures
        ser_questions(qs.take(i + 1)) == ser_questions(qs.take(i)) + ser_question(qs[i]),
    decreases i,
{
    if i == 0 {
        assert(qs.take(1)[0] == qs[0]);
        assert(qs.take(1).drop_first() =~= Seq::<QuestionV>::empty());
        assert(ser_questions(qs.take(1)) == ser_question(qs[0]) + ser_questions(
            Seq::<QuestionV>::empty(),
        ));
        assert(ser_question(qs[0]) + Seq::<char>::empty() =~= ser_question(qs[0]));
        assert(ser_questions(qs.take(0)) + ser_question(qs[0]) =~= ser_question(qs[0]));
    } else {
        lemma_ser_questions_push(qs.drop_first(), i - 1);
        assert(qs.take(i + 1).drop_first() =~= qs.drop_first().take(i));
        assert(qs.take(i).drop_first() =~= qs.drop_first().take(i - 1));
        assert(qs.take(i + 1)[0] == qs[0]);
        assert(qs.take(i)[0] == qs[0]);
        assert(qs.drop_first()[i - 1] == qs[i]);
        assert((ser_question(qs[0]) + (ser_questions(qs.drop_first().take(i - 1)) + ser_question(
            qs[i],
        ))) =~= ((ser_question(qs[0]) + ser_questions(qs.drop_first().take(i - 1))) + ser_question(
            qs[i],
        )));
    }
}

proof fn lemma_ser_questions_to_push(qs: Seq<QuestionV>, i: int)
    requires
        0 <= i < qs.len(),
    ensures
        ser_questions_to(qs, i + 1) == ser_questions_to(qs, i) + ser_question(qs[i]),
{
    lemma_ser_questions_push(qs, i);
}

proof fn lemma_ser_questions_to_all(qs: Seq<QuestionV>)
    ensures
        ser_questions_to(qs, qs.len() as int) == ser_questions(qs),
{
    assert(qs.take(qs.len() as int) =~= qs);
}


// ---------------------------------------------------------------------------
// Parsed form, at the spec level
// ---------------------------------------------------------------------------

/// Whether the text `lit` stands in `v` at `pos`.
pub open spec fn matches_lit(v: Seq<char>, pos: int, lit: Seq<char>) -> bool {
    0 <= pos && pos + lit.len() <= v.len() && v.subrange(pos, pos + lit.len()) == lit
}

/// Consumes the exact text `lit`.
pub open spec fn sp_lit(v: Seq<char>, pos: int, lit: Seq<char>) -> Option<int> {
    if matches_lit(v, pos, lit) {
        Some(pos + lit.len())
    } else {
        None
    }
}

/// The character an escape code stands for.
pub open spec fn unescape_char(c: char) -> Option<char> {
    if c == '\\' {
        Some('\\')
    } else if c == '"' {
        Some('"')
    } else if c == 'n' {
        Some('\n')
    } else {
        None
    }
}

/// Consumes the body of a quoted string up to and including the closing
/// quote.
pub open spec fn sp_string_body(v: Seq<char>, pos: int) -> Option<(Seq<char>, int)>
    decreases v.len() - pos,
{
    if pos < 0 || pos >= v.len() {
        None
    } else if v[pos] == '"' {
        Some((Seq::empty(), pos + 1))
    } else if v[pos] == '\\' {
        if pos + 2 > v.len() {
            None
        } else {
            match unescape_char(v[pos + 1]) {
                Some(c) => match sp_string_body(v, pos + 2) {
                    Some((s, p)) => Some((seq![c] + s, p)),
                    None => None,
                },
                None => None,
            }
        }
    } else {
        match sp_string_body(v, pos + 1) {
            Some((s, p)) => Some((seq![v[pos]] + s, p)),
            None => None,
        }
    }
}

/// Consumes a quoted string.
pub open spec fn sp_string(v: Seq<char>, pos: int) -> Option<(Seq<char>, int)> {
    if 0 <= pos < v.len() && v[pos] == '"' {
        sp_string_body(v, pos + 1)
    } else {
        None
    }
}

/// The end of the digit run starting at `pos`.
pub open spec fn digit_run_end(v: Seq<char>, pos: int) -> int
    decreases v.len() - pos,
{
    if 0 <= pos < v.len() && digit_val(v[pos]) is Some {
        digit_run_end(v, pos + 1)
    } else {
        pos
    }
}

/// Consumes an unsigned decimal number; values above 32 bits are refused.
pub open spec fn sp_number(v: Seq<char>, pos: int) -> Option<(nat, int)> {
    if 0 <= pos < v.len() && digit_val(v[pos]) is Some {
        let end = digit_run_end(v, pos);
        let value = digits_val(v.subrange(pos, end));
        if value > 0xFFFF_FFFF {
            None
        } else {
            Some((value, end))
        }
    } else {
        None
    }
}

/// Consumes `true` or `false`.
pub open spec fn sp_bool(v: Seq<char>, pos: int) -> Option<(bool, int)> {
    if matches_lit(v, pos, "true"@) {
        Some((true, pos + "true"@.len()))
    } else if matches_lit(v, pos, "false"@) {
        Some((false, pos + "false"@.len()))
    } else {
        None
    }
}

/// Consumes one `key = <quoted string>` line.
pub open spec fn sp_kv_string(v: Seq<char>, pos: int, key: Seq<char>) -> Option<(Seq<char>, int)> {
    match sp_lit(v, pos, key + " = "@) {
        Some(p1) => match sp_string(v, p1) {
            Some((s, p2)) => match sp_lit(v, p2, seq!['\n']) {
                Some(p3) => Some((s, p3)),
                None => None,
            },
            None => None,
        },
        None => None,
    }
}

/// Consumes one `key = <bool>` line.
pub open spec fn sp_kv_bool(v: Seq<char>, pos: int, key: Seq<char>) -> Option<(bool, int)> {
    match sp_lit(v, pos, key + " = "@) {
        Some(p1) => match sp_bool(v, p1) {
            Some((b, p2)) => match sp_lit(v, p2, seq!['\n']) {
                Some(p3) => Some((b, p3)),
                None => None,
            },
            None => None,
        },
        None => None,
    }
}

/// Consumes one `key = <number>` line.
pub open spec fn sp_kv_number(v: Seq<char>, pos: int, key: Seq<char>) -> Option<(nat, int)> {
    match sp_lit(v, pos, key + " = "@) {
        Some(p1) => match sp_number(v, p1) {
            Some((n, p2)) => match sp_lit(v, p2, seq!['\n']) {
                Some(p3) => Some((n, p3)),
                None => None,
            },
            None => None,
        },
        None => None,
    }
}

/// Consumes the comma-separated items of a nonempty string array, up to and
/// including the closing bracket.
pub open spec fn sp_strlist_items(v: Seq<char>, pos: int) -> Option<(Seq<Seq<char>>, int)>
    decreases v.len() - pos,
{
    match sp_string(v, pos) {
        Some((s, p)) => {
            if p <= pos {
                None
            } else if matches_lit(v, p, seq![',', ' ']) {
                match sp_strlist_items(v, p + 2) {
                    Some((rest, p2)) => Some((seq![s] + rest, p2)),
                    None => None,
                }
            } else if matches_lit(v, p, seq![']']) {
                Some((seq![s], p + 1))
            } else {
                None
            }
        },
        None => None,
    }
}

/// Consumes a bracketed string array.
pub open spec fn sp_strlist(v: Seq<char>, pos: int) -> Option<(Seq<Seq<char>>, int)> {
    match sp_lit(v, pos, seq!['[']) {
        Some(p1) => {
            if matches_lit(v, p1, seq![']']) {
                Some((Seq::empty(), p1 + 1))
            } else {
                sp_strlist_items(v, p1)
            }
        },
        None => None,
    }
}

/// Consumes one `key = [..]` line.
pub open spec fn sp_kv_strlist(v: Seq<char>, pos: int, key: Seq<char>) -> Option<(
    Seq<Seq<char>>,
    int,
)> {
    match sp_lit(v, pos, key + " = "@) {
        Some(p1) => match sp_strlist(v, p1) {
            Some((items, p2)) => match sp_lit(v, p2, seq!['\n']) {
                Some(p3) => Some((items, p3)),
                None => None,
            },
            None => None,
        },
        None => None,
    }
}

/// The first position at or after `pos` that does not hold a newline.
pub open spec fn skip_newlines(v: Seq<char>, pos: int) -> int
    decreases v.len() - pos,
{
    if 0 <= pos < v.len() && v[pos] == '\n' {
        skip_newlines(v, pos + 1)
    } else {
        pos
    }
}

/// Consumes the settings section. The hint switch defaults to on and the
/// language to English when their lines are absent; a question limit
/// outside 1..=255 is rejected.
pub open spec fn sp_settings(v: Seq<char>, pos: int) -> Option<(SettingsV, int)> {
    match sp_lit(v, pos, "[settings]\n"@) {
        Some(p0) => match sp_opt_bool(v, p0, "show_hints"@, true) {
            Some((show_hints, p1)) => match sp_kv_string(v, p1, "paper_size"@) {
                Some((ps, p2)) => {
                    if ps != "A4"@ {
                        None
                    } else {
                        match sp_opt_language(v, p2) {
                            Some((language, p3)) => match sp_kv_string(v, p3, "fonts_path"@) {
                                Some((fonts_path, p4)) => match sp_kv_string(v, p4, "font"@) {
                                    Some((font, p5)) => match sp_kv_string(v, p5, "output"@) {
                                        Some((output, p6)) => match sp_kv_number(
                                            v,
                                            p6,
                                            "max_questions"@,
                                        ) {
                                            Some((mq, p7)) => {
                                                if mq > 255 || mq < 1 {
                                                    None
                                                } else {
                                                    match sp_kv_bool(
                                                        v,
                                                        p7,
                                                        "randomize_questions"@,
                                                    ) {
                                                        Some((rq, p8)) => Some(
                                                            (
                                                                SettingsV {
                                                                    show_hints,
                                                                    paper_size: PaperSize::A4,
                                                                    language,
                                                                    fonts_path,
                                                                    font,
                                                                    output,
                                                                    max_questions: mq as u8,
                                                                    randomize_questions: rq,
                                                                },
                                                                p8,
                                                            ),
                                                        ),
                                                        None => None,
                                                    }
                                                }
                                            },
                                            None => None,
                                        },
                                        None => None,
                                    },
                                    None => None,
                                },
                                None => None,
                            },
                            None => None,
                        }
                    }
                },
                None => None,
            },
            None => None,
        },
        None => None,
    }
}

/// Consumes an optional `key = <bool>` line.
pub open spec fn sp_opt_bool(v: Seq<char>, pos: int, key: Seq<char>, default: bool) -> Option<(
    bool,
    int,
)> {
    if matches_lit(v, pos, key) {
        sp_kv_bool(v, pos, key)
    } else {
        Some((default, pos))
    }
}

/// Consumes an optional `language = ".."` line.
pub open spec fn sp_opt_language(v: Seq<char>, pos: int) -> Option<(Language, int)> {
    if matches_lit(v, pos, "language"@) {
        match sp_kv_string(v, pos, "language"@) {
            Some((s, p)) => {
                if s == "English"@ {
                    Some((Language::English, p))
                } else if s == "Bulgarian"@ {
                    Some((Language::Bulgarian, p))
                } else {
                    None
                }
            },
            None => None,
        }
    } else {
        Some((Language::English, pos))
    }
}

/// Consumes an optional `points = <n>` line; the value defaults to 1, and
/// a value outside 1..=255 is rejected (a question is worth at least one
/// point).
pub open spec fn sp_points(v: Seq<char>, pos: int) -> Option<(u8, int)> {
    if matches_lit(v, pos, "points"@) {
        match sp_kv_number(v, pos, "points"@) {
            Some((n, p)) => {
                if n > 255 || n < 1 {
                    None
                } else {
                    Some((n as u8, p))
                }
            },
            None => None,
        }
    } else {
        Some((1u8, pos))
    }
}

/// Consumes one question block. The variant is chosen by its structural
/// keys: answer lists make a Selection, a line count makes an Input.
pub open spec fn sp_question(v: Seq<char>, pos: int) -> Option<(QuestionV, int)> {
    match sp_lit(v, pos, "[[questions]]\n"@) {
        Some(p0) => match sp_kv_string(v, p0, "question"@) {
            Some((title, p1)) => {
                if matches_lit(v, p1, "correct"@) {
                    match sp_kv_strlist(v, p1, "correct"@) {
                        Some((correct, p2)) => match sp_kv_strlist(v, p2, "incorrect"@) {
                            Some((incorrect, p3)) => match sp_points(v, p3) {
                                Some((points, p4)) => Some(
                                    (
                                        QuestionV::Selection(
                                            SelectionQuestionV {
                                                question_buf: title,
                                                question: title,
                                                correct,
                                                incorrect,
                                                points,
                                                image: None,
                                            },
                                        ),
                                        p4,
                                    ),
                                ),
                                None => None,
                            },
                            None => None,
                        },
                        None => None,
                    }
                } else if matches_lit(v, p1, "number_of_lines"@) {
                    match sp_kv_number(v, p1, "number_of_lines"@) {
                        Some((lines, p2)) => {
                            if lines > 0xFFFF {
                                None
                            } else {
                                match sp_points(v, p2) {
                                    Some((points, p3)) => Some(
                                        (
                                            QuestionV::Input(
                                                InputQuestionV {
                                                    question_buf: title,
                                                    question: title,
                                                    number_of_lines: lines as u16,
                                                    points,
                                                    image: None,
                                                },
                                            ),
                                            p3,
                                        ),
                                    ),
                                    None => None,
                                }
                            }
                        },
                        None => None,
                    }
                } else {
                    None
                }
            },
            None => None,
        },
        None => None,
    }
}

/// Consumes question blocks separated by blank lines, up to the end of the
/// text.
pub open spec fn sp_questions(v: Seq<char>, pos: int) -> Option<(Seq<QuestionV>, int)>
    decreases v.len() - pos,
{
    if pos < 0 {
        None
    } else {
        let p = skip_newlines(v, pos);
        if p < pos || p > v.len() {
            None
        } else if p >= v.len() {
            Some((Seq::empty(), p))
        } else {
            match sp_question(v, p) {
                Some((q, p2)) => {
                    if p2 <= p || p2 > v.len() {
                        None
                    } else {
                        match sp_questions(v, p2) {
                            Some((rest, p3)) => Some((seq![q] + rest, p3)),
                            None => None,
                        }
                    }
                },
                None => None,
            }
        }
    }
}

/// Parses a whole project text. The result, when there is one, is in loaded
/// shape: editing buffers synced and no illustration paths.
pub open spec fn sp_project(v: Seq<char>) -> Option<ProjectV> {
    match sp_settings(v, 0) {
        Some((st, p1)) => {
            let p1b = skip_newlines(v, p1);
            match sp_lit(v, p1b, "[header]\n"@) {
                Some(p2) => match sp_kv_string(v, p2, "title"@) {
                    Some((title, p3)) => match sp_questions(v, p3) {
                        Some((qs, p4)) => {
                            if p4 == v.len() {
                                Some(ProjectV { settings: st, header_title: title, questions: qs })
                            } else {
                                None
                            }
                        },
                        None => None,
                    },
                    None => None,
                },
                None => None,
            }
        },
        None => None,
    }
}


// ---------------------------------------------------------------------------
// Facts about the parsed form
// ---------------------------------------------------------------------------

/// A parsed question is within the data model's bounds: the points line is
/// refused outside 1..=255 and defaults to 1.
proof fn lemma_sp_question_wf(v: Seq<char>, pos: int)
    ensures
        sp_question(v, pos) matches Some(r) ==> wf_question(r.0),
{
}

/// Skipping blank lines never moves backwards.
proof fn lemma_skip_newlines_ge(v: Seq<char>, pos: int)
    requires
        pos >= 0,
    ensures
        skip_newlines(v, pos) >= pos,
    decreases v.len() - pos,
{
    if 0 <= pos < v.len() && v[pos] == '\n' {
        lemma_skip_newlines_ge(v, pos + 1);
    }
}

/// Every question of a parsed question list is within the data model's
/// bounds.
proof fn lemma_sp_questions_wf(v: Seq<char>, pos: int)
    ensures
        sp_questions(v, pos) matches Some(r) ==> forall|i: int|
            0 <= i < r.0.len() ==> wf_question(#[trigger] r.0[i]),
    decreases v.len() - pos,
{
    if pos >= 0 {
        let p = skip_newlines(v, pos);
        lemma_skip_newlines_ge(v, pos);
        if 0 <= p <= v.len() && p < v.len() {
            if let Some((q, p2)) = sp_question(v, p) {
                if p < p2 <= v.len() {
                    lemma_sp_question_wf(v, p);
                    lemma_sp_questions_wf(v, p2);
                    if let Some((rest, p3)) = sp_questions(v, p2) {
                        assert forall|i: int|
                            0 <= i < (seq![q] + rest).len() implies wf_question(
                            #[trigger] (seq![q] + rest)[i],
                        ) by {
                            if i > 0 {
                                assert((seq![q] + rest)[i] == rest[i - 1]);
                            }
                        }
                    }
                }
            }
        }
    }
}

/// Everything the parser yields is within the data model's bounds.
pub proof fn lemma_sp_project_wf(v: Seq<char>)
    ensures
        sp_project(v) matches Some(pv) ==> wf_project(pv),
{
    if let Some((st, p1)) = sp_settings(v, 0) {
        let p1b = skip_newlines(v, p1);
        if let Some(p2) = sp_lit(v, p1b, "[header]\n"@) {
            if let Some((title, p3)) = sp_kv_string(v, p2, "title"@) {
                lemma_sp_questions_wf(v, p3);
            }
        }
    }
}

/// A successful string body parse moves the cursor forward, at most to the
/// end of the text.
pub proof fn lemma_sp_string_body_advance(v: Seq<char>, pos: int)
    requires
        sp_string_body(v, pos) is Some,
    ensures
        sp_string_body(v, pos) matches Some(r) ==> pos < r.1 <= v.len(),
    decreases v.len() - pos,
{
    if pos < 0 || pos >= v.len() {
    } else if v[pos] == '"' {
    } else if v[pos] == '\\' {
        lemma_sp_string_body_advance(v, pos + 2);
    } else {
        lemma_sp_string_body_advance(v, pos + 1);
    }
}

/// A successful string parse consumes at least the two quotes.
pub proof fn lemma_sp_string_advance(v: Seq<char>, pos: int)
    requires
        sp_string(v, pos) is Some,
    ensures
        sp_string(v, pos) matches Some(r) ==> pos + 2 <= r.1 <= v.len(),
{
    lemma_sp_string_body_advance(v, pos + 1);
}

/// Splitting a literal match at a concatenation.
pub proof fn lemma_matches_concat(v: Seq<char>, pos: int, a: Seq<char>, b: Seq<char>)
    ensures
        matches_lit(v, pos, a + b) <==> matches_lit(v, pos, a) && matches_lit(
            v,
            pos + a.len(),
            b,
        ),
{
    if matches_lit(v, pos, a + b) {
        assert forall|i: int| 0 <= i < a.len() implies v.subrange(pos, pos + a.len())[i]
            == a[i] by {
            assert(v.subrange(pos, pos + (a + b).len())[i] == (a + b)[i]);
        }
        assert(v.subrange(pos, pos + a.len()) =~= a);
        assert forall|i: int| 0 <= i < b.len() implies v.subrange(
            pos + a.len(),
            pos + a.len() + b.len(),
        )[i] == b[i] by {
            assert(v.subrange(pos, pos + (a + b).len())[a.len() + i] == (a + b)[a.len() + i]);
        }
        assert(v.subrange(pos + a.len(), pos + a.len() + b.len()) =~= b);
    }
    if matches_lit(v, pos, a) && matches_lit(v, pos + a.len(), b) {
        assert forall|i: int| 0 <= i < (a + b).len() implies v.subrange(
            pos,
            pos + (a + b).len(),
        )[i] == (a + b)[i] by {
            if i < a.len() {
                assert(v.subrange(pos, pos + a.len())[i] == a[i]);
            } else {
                assert(v.subrange(pos + a.len(), pos + a.len() + b.len())[i - a.len()] == b[i
                    - a.len()]);
            }
        }
        assert(v.subrange(pos, pos + (a + b).len()) =~= a + b);
    }
}

/// An option-valued parse with a prefix joined onto its text result.
pub open spec fn with_prefix(prefix: Seq<char>, o: Option<(Seq<char>, int)>) -> Option<(
    Seq<char>,
    int,
)> {
    match o {
        Some((s, e)) => Some((prefix + s, e)),
        None => None,
    }
}

/// An empty prefix changes nothing.
pub proof fn lemma_with_prefix_empty(o: Option<(Seq<char>, int)>)
    ensures
        with_prefix(Seq::empty(), o) == o,
{
    if let Some((s, e)) = o {
        assert(Seq::empty() + s =~= s);
        assert(with_prefix(Seq::empty(), o) == Some((s, e)));
    }
}

/// Growing the prefix by the head the parse would have produced.
pub proof fn lemma_with_prefix_step(prefix: Seq<char>, c: char, o: Option<(Seq<char>, int)>)
    ensures
        with_prefix(prefix, match o {
            Some((s, e)) => Some((seq![c] + s, e)),
            None => None,
        }) == with_prefix(prefix.push(c), o),
{
    if let Some((s, e)) = o {
        assert(prefix + (seq![c] + s) =~= prefix.push(c) + s);
    }
}

} // verus!
