//! The round-trip law: parsing a serialized project yields the project
//! back, in loaded shape, on every project. The proof follows the stored
//! form piece by piece: each lemma shows that the parser consumes exactly
//! what the serializer emitted and returns the serialized value.

use vstd::prelude::*;
use crate::codec::{
    bool_str, escape, escape_char, kv_line, language_key_spec, lemma_matches_concat, matches_lit,
    normalize_project, normalize_question, quoted, ser_project, ser_question, ser_questions,
    ser_settings, skip_newlines, sp_bool, sp_kv_bool, sp_kv_number, sp_kv_string, sp_kv_strlist,
    sp_number, sp_opt_language, sp_points, sp_project, sp_question, sp_questions, sp_settings,
    sp_string, sp_string_body, sp_strlist, sp_strlist_items, str_list, str_list_items,
    unescape_char, digit_run_end,
};
use crate::locale::{Language, PaperSize};
use crate::model::{ProjectV, QuestionV, SettingsV, wf_project, wf_question};
use crate::numbers::{dec_of, digit_val, lemma_dec_of_digits, lemma_digits_val_dec_of};

verus! {

/// One character under a literal match, at a caller-chosen offset.
proof fn lemma_matches_char(v: Seq<char>, pos: int, s: Seq<char>, i: int)
    requires
        matches_lit(v, pos, s),
        0 <= i < s.len(),
    ensures
        v[pos + i] == s[i],
{
    assert(v.subrange(pos, pos + s.len())[i] == s[i]);
}

/// The first character under a literal match.
proof fn lemma_matches_first(v: Seq<char>, pos: int, s: Seq<char>)
    requires
        matches_lit(v, pos, s),
        s.len() >= 1,
    ensures
        v[pos] == s[0],
{
    assert(v.subrange(pos, pos + s.len())[0] == s[0]);
}

/// The string-body parser reads back exactly an escaped string followed by
/// its closing quote.
proof fn lemma_sp_string_body_ser(v: Seq<char>, pos: int, s: Seq<char>)
    requires
        matches_lit(v, pos, escape(s) + seq!['"']),
    ensures
        sp_string_body(v, pos) == Some((s, pos + escape(s).len() + 1)),
    decreases s.len(),
{
    if s.len() == 0 {
        lemma_matches_first(v, pos, escape(s) + seq!['"']);
        assert((escape(s) + seq!['"'])[0] == '"');
        assert(v[pos] == '"');
        assert(sp_string_body(v, pos) == Some((Seq::<char>::empty(), pos + 1)));
        assert(Seq::<char>::empty() =~= s);
    } else {
        let c = s[0];
        let rest = s.drop_first();
        assert(escape(s) == escape_char(c) + escape(rest));
        assert((escape_char(c) + escape(rest)) + seq!['"'] =~= escape_char(c) + (escape(rest)
            + seq!['"']));
        lemma_matches_concat(v, pos, escape_char(c), escape(rest) + seq!['"']);
        let p2 = pos + escape_char(c).len();
        lemma_sp_string_body_ser(v, p2, rest);
        lemma_matches_first(v, pos, escape(s) + seq!['"']);
        assert((escape(s) + seq!['"'])[0] == escape_char(c)[0]);
        if c == '\\' || c == '"' || c == '\n' {
            lemma_matches_char(v, pos, escape(s) + seq!['"'], 1);
            assert((escape(s) + seq!['"'])[1] == escape_char(c)[1]);
            assert(v[pos] == '\\');
            assert(unescape_char(v[pos + 1]) == Some(c));
            assert(seq![c] + rest =~= s);
        } else {
            assert(v[pos] == c);
            assert(seq![v[pos]] + rest =~= s);
        }
    }
}

/// The string parser reads back exactly a quoted string.
proof fn lemma_sp_string_ser(v: Seq<char>, pos: int, s: Seq<char>)
    requires
        matches_lit(v, pos, quoted(s)),
    ensures
        sp_string(v, pos) == Some((s, pos + quoted(s).len())),
{
    assert(quoted(s) =~= seq!['"'] + (escape(s) + seq!['"']));
    lemma_matches_concat(v, pos, seq!['"'], escape(s) + seq!['"']);
    lemma_matches_first(v, pos, quoted(s));
    assert(quoted(s)[0] == '"');
    assert(v[pos] == '"');
    lemma_sp_string_body_ser(v, pos + 1, s);
}

/// The boolean parser reads back exactly a boolean's text.
proof fn lemma_sp_bool_ser(v: Seq<char>, pos: int, b: bool)
    requires
        matches_lit(v, pos, bool_str(b)),
    ensures
        sp_bool(v, pos) == Some((b, pos + bool_str(b).len())),
{
    reveal_strlit("true");
    reveal_strlit("false");
    if !b {
        lemma_matches_first(v, pos, "false"@);
        assert(v[pos] == 'f');
        if matches_lit(v, pos, "true"@) {
            lemma_matches_first(v, pos, "true"@);
            assert(v[pos] == 't');
        }
    }
}

/// The digit run under a serialized numeral ends exactly at its end.
proof fn lemma_digit_run_ser(v: Seq<char>, pos: int, ds: Seq<char>)
    requires
        matches_lit(v, pos, ds),
        forall|i: int| 0 <= i < ds.len() ==> digit_val(#[trigger] ds[i]) is Some,
        pos + ds.len() == v.len() || digit_val(v[pos + ds.len()]) is None,
    ensures
        digit_run_end(v, pos) == pos + ds.len(),
    decreases ds.len(),
{
    if ds.len() == 0 {
        assert(v.subrange(pos, pos) =~= Seq::<char>::empty());
    } else {
        lemma_matches_first(v, pos, ds);
        assert(digit_val(v[pos]) is Some);
        assert(ds =~= seq![ds[0]] + ds.drop_first());
        lemma_matches_concat(v, pos, seq![ds[0]], ds.drop_first());
        lemma_digit_run_ser(v, pos + 1, ds.drop_first());
    }
}

/// The number parser reads back exactly a serialized numeral.
proof fn lemma_sp_number_ser(v: Seq<char>, pos: int, n: nat)
    requires
        matches_lit(v, pos, dec_of(n)),
        pos + dec_of(n).len() == v.len() || digit_val(v[pos + dec_of(n).len()]) is None,
        n <= 0xFFFF_FFFF,
    ensures
        sp_number(v, pos) == Some((n, pos + dec_of(n).len())),
{
    lemma_dec_of_digits(n);
    lemma_digit_run_ser(v, pos, dec_of(n));
    lemma_matches_first(v, pos, dec_of(n));
    assert(digit_val(dec_of(n)[0]) is Some);
    assert(digit_val(v[pos]) is Some);
    assert(v.subrange(pos, pos + dec_of(n).len()) == dec_of(n));
    lemma_digits_val_dec_of(n);
}

/// A `key = <quoted string>` line parses back to its string.
proof fn lemma_sp_kv_string_ser(v: Seq<char>, pos: int, key: Seq<char>, s: Seq<char>)
    requires
        matches_lit(v, pos, kv_line(key, quoted(s))),
    ensures
        sp_kv_string(v, pos, key) == Some((s, pos + kv_line(key, quoted(s)).len())),
{
    reveal_strlit("\n");
    assert(kv_line(key, quoted(s)) =~= (key + " = "@) + (quoted(s) + "\n"@));
    lemma_matches_concat(v, pos, key + " = "@, quoted(s) + "\n"@);
    let p1 = pos + (key + " = "@).len();
    lemma_matches_concat(v, p1, quoted(s), "\n"@);
    lemma_sp_string_ser(v, p1, s);
    let p2 = p1 + quoted(s).len();
    assert("\n"@ =~= seq!['\n']);
    assert(matches_lit(v, p2, seq!['\n']));
}

/// A `key = <bool>` line parses back to its boolean.
proof fn lemma_sp_kv_bool_ser(v: Seq<char>, pos: int, key: Seq<char>, b: bool)
    requires
        matches_lit(v, pos, kv_line(key, bool_str(b))),
    ensures
        sp_kv_bool(v, pos, key) == Some((b, pos + kv_line(key, bool_str(b)).len())),
{
    reveal_strlit("\n");
    assert(kv_line(key, bool_str(b)) =~= (key + " = "@) + (bool_str(b) + "\n"@));
    lemma_matches_concat(v, pos, key + " = "@, bool_str(b) + "\n"@);
    let p1 = pos + (key + " = "@).len();
    lemma_matches_concat(v, p1, bool_str(b), "\n"@);
    lemma_sp_bool_ser(v, p1, b);
    let p2 = p1 + bool_str(b).len();
    assert("\n"@ =~= seq!['\n']);
    assert(matches_lit(v, p2, seq!['\n']));
}

/// A `key = <number>` line parses back to its value.
proof fn lemma_sp_kv_number_ser(v: Seq<char>, pos: int, key: Seq<char>, n: nat)
    requires
        matches_lit(v, pos, kv_line(key, dec_of(n))),
        n <= 0xFFFF_FFFF,
    ensures
        sp_kv_number(v, pos, key) == Some((n, pos + kv_line(key, dec_of(n)).len())),
{
    reveal_strlit("\n");
    assert(kv_line(key, dec_of(n)) =~= (key + " = "@) + (dec_of(n) + "\n"@));
    lemma_matches_concat(v, pos, key + " = "@, dec_of(n) + "\n"@);
    let p1 = pos + (key + " = "@).len();
    lemma_matches_concat(v, p1, dec_of(n), "\n"@);
    lemma_matches_first(v, p1 + dec_of(n).len(), "\n"@);
    assert("\n"@[0] == '\n');
    assert(v[p1 + dec_of(n).len()] == '\n');
    assert(digit_val('\n') is None);
    lemma_sp_number_ser(v, p1, n);
    let p2 = p1 + dec_of(n).len();
    assert("\n"@ =~= seq!['\n']);
    assert(matches_lit(v, p2, seq!['\n']));
}

/// The items of a nonempty serialized array parse back to the items.
proof fn lemma_sp_strlist_items_ser(v: Seq<char>, pos: int, items: Seq<Seq<char>>)
    requires
        items.len() >= 1,
        matches_lit(v, pos, str_list_items(items) + seq![']']),
    ensures
        sp_strlist_items(v, pos) == Some((items, pos + str_list_items(items).len() + 1)),
    decreases items.len(),
{
    if items.len() == 1 {
        assert(str_list_items(items) == quoted(items[0]));
        lemma_matches_concat(v, pos, quoted(items[0]), seq![']']);
        lemma_sp_string_ser(v, pos, items[0]);
        let p = pos + quoted(items[0]).len();
        lemma_matches_first(v, p, seq![']']);
        assert(v[p] == ']');
        if matches_lit(v, p, seq![',', ' ']) {
            lemma_matches_first(v, p, seq![',', ' ']);
            assert(v[p] == ',');
        }
        assert(p > pos);
        assert(seq![items[0]] =~= items);
    } else {
        assert(str_list_items(items) == quoted(items[0]) + ", "@ + str_list_items(
            items.drop_first(),
        ));
        assert(str_list_items(items) + seq![']'] =~= quoted(items[0]) + (", "@ + (str_list_items(
            items.drop_first(),
        ) + seq![']'])));
        lemma_matches_concat(
            v,
            pos,
            quoted(items[0]),
            ", "@ + (str_list_items(items.drop_first()) + seq![']']),
        );
        lemma_sp_string_ser(v, pos, items[0]);
        let p = pos + quoted(items[0]).len();
        lemma_matches_concat(v, p, ", "@, str_list_items(items.drop_first()) + seq![']']);
        reveal_strlit(", ");
        assert(", "@ =~= seq![',', ' ']);
        assert(matches_lit(v, p, seq![',', ' ']));
        assert(p > pos);
        lemma_sp_strlist_items_ser(v, p + 2, items.drop_first());
        assert(seq![items[0]] + items.drop_first() =~= items);
    }
}

/// A serialized array parses back to its items.
proof fn lemma_sp_strlist_ser(v: Seq<char>, pos: int, items: Seq<Seq<char>>)
    requires
        matches_lit(v, pos, str_list(items)),
    ensures
        sp_strlist(v, pos) == Some((items, pos + str_list(items).len())),
{
    assert(str_list(items) =~= seq!['['] + (str_list_items(items) + seq![']']));
    lemma_matches_concat(v, pos, seq!['['], str_list_items(items) + seq![']']);
    lemma_matches_first(v, pos, str_list(items));
    assert(str_list(items)[0] == '[');
    assert(v[pos] == '[');
    assert(v.subrange(pos, pos + 1) =~= seq!['[']);
    assert(matches_lit(v, pos, seq!['[']));
    let p1 = pos + 1;
    if items.len() == 0 {
        assert(str_list_items(items) == Seq::<char>::empty());
        assert(Seq::<char>::empty() + seq![']'] =~= seq![']']);
        assert(matches_lit(v, p1, seq![']']));
        assert(Seq::<Seq<char>>::empty() =~= items);
    } else {
        lemma_matches_concat(v, p1, str_list_items(items), seq![']']);
        assert(str_list_items(items).len() >= 1) by {
            if items.len() == 1 {
                assert(str_list_items(items) == quoted(items[0]));
            }
        }
        assert(v[p1] == str_list_items(items)[0]) by {
            lemma_matches_first(v, p1, str_list_items(items));
        }
        assert(str_list_items(items)[0] == '"') by {
            if items.len() == 1 {
                assert(str_list_items(items) == quoted(items[0]));
                assert(quoted(items[0])[0] == '"');
            } else {
                assert(str_list_items(items)[0] == quoted(items[0])[0]);
                assert(quoted(items[0])[0] == '"');
            }
        }
        if matches_lit(v, p1, seq![']']) {
            lemma_matches_first(v, p1, seq![']']);
            assert(v[p1] == ']');
        }
        lemma_sp_strlist_items_ser(v, p1, items);
    }
}

/// A `key = [..]` line parses back to its items.
proof fn lemma_sp_kv_strlist_ser(v: Seq<char>, pos: int, key: Seq<char>, items: Seq<Seq<char>>)
    requires
        matches_lit(v, pos, kv_line(key, str_list(items))),
    ensures
        sp_kv_strlist(v, pos, key) == Some((items, pos + kv_line(key, str_list(items)).len())),
{
    reveal_strlit("\n");
    assert(kv_line(key, str_list(items)) =~= (key + " = "@) + (str_list(items) + "\n"@));
    lemma_matches_concat(v, pos, key + " = "@, str_list(items) + "\n"@);
    let p1 = pos + (key + " = "@).len();
    lemma_matches_concat(v, p1, str_list(items), "\n"@);
    lemma_sp_strlist_ser(v, p1, items);
    let p2 = p1 + str_list(items).len();
    assert("\n"@ =~= seq!['\n']);
    assert(matches_lit(v, p2, seq!['\n']));
}

/// A literal match on a line beginning with `key` makes the key visible.
proof fn lemma_key_prefix(v: Seq<char>, pos: int, key: Seq<char>, value: Seq<char>)
    requires
        matches_lit(v, pos, kv_line(key, value)),
    ensures
        matches_lit(v, pos, key),
{
    assert(kv_line(key, value) =~= key + (" = "@ + value + "\n"@));
    lemma_matches_concat(v, pos, key, " = "@ + value + "\n"@);
}


/// Skipping blank lines over a single newline advances by one.
proof fn lemma_skip_one(v: Seq<char>, pos: int)
    requires
        0 <= pos < v.len(),
        v[pos] == '\n',
        pos + 1 == v.len() || v[pos + 1] != '\n',
    ensures
        skip_newlines(v, pos) == pos + 1,
{
    assert(skip_newlines(v, pos) == skip_newlines(v, pos + 1));
}

/// The optional language line parses back to its language.
proof fn lemma_sp_opt_language_ser(v: Seq<char>, pos: int, l: Language)
    requires
        matches_lit(v, pos, kv_line("language"@, quoted(language_key_spec(l)))),
    ensures
        sp_opt_language(v, pos) == Some(
            (l, pos + kv_line("language"@, quoted(language_key_spec(l))).len()),
        ),
{
    lemma_key_prefix(v, pos, "language"@, quoted(language_key_spec(l)));
    lemma_sp_kv_string_ser(v, pos, "language"@, language_key_spec(l));
    if l is Bulgarian {
        reveal_strlit("English");
        reveal_strlit("Bulgarian");
        assert(language_key_spec(l) != "English"@) by {
            assert("English"@.len() == 7);
            assert("Bulgarian"@.len() == 9);
        }
    }
}

/// The optional points line parses back to its value.
proof fn lemma_sp_points_ser(v: Seq<char>, pos: int, points: u8)
    requires
        matches_lit(v, pos, kv_line("points"@, dec_of(points as nat))),
        points >= 1,
    ensures
        sp_points(v, pos) == Some(
            (points, pos + kv_line("points"@, dec_of(points as nat)).len()),
        ),
{
    lemma_key_prefix(v, pos, "points"@, dec_of(points as nat));
    lemma_sp_kv_number_ser(v, pos, "points"@, points as nat);
}

/// The settings section parses back to its settings.
#[verifier::rlimit(100)]
proof fn lemma_sp_settings_ser(v: Seq<char>, pos: int, st: SettingsV)
    requires
        matches_lit(v, pos, ser_settings(st)),
        st.max_questions >= 1,
    ensures
        sp_settings(v, pos) == Some((st, pos + ser_settings(st).len())),
{
    let l0 = "[settings]\n"@;
    let l1 = kv_line("show_hints"@, bool_str(st.show_hints));
    let l2 = kv_line("paper_size"@, quoted("A4"@));
    let l3 = kv_line("language"@, quoted(language_key_spec(st.language)));
    let l4 = kv_line("fonts_path"@, quoted(st.fonts_path));
    let l5 = kv_line("font"@, quoted(st.font));
    let l6 = kv_line("output"@, quoted(st.output));
    let l7 = kv_line("max_questions"@, dec_of(st.max_questions as nat));
    let l8 = kv_line("randomize_questions"@, bool_str(st.randomize_questions));
    assert(ser_settings(st) =~= l0 + (l1 + (l2 + (l3 + (l4 + (l5 + (l6 + (l7 + l8))))))));
    lemma_matches_concat(v, pos, l0, l1 + (l2 + (l3 + (l4 + (l5 + (l6 + (l7 + l8)))))));
    let p0 = pos + l0.len();
    lemma_matches_concat(v, p0, l1, l2 + (l3 + (l4 + (l5 + (l6 + (l7 + l8))))));
    let p1 = p0 + l1.len();
    lemma_matches_concat(v, p1, l2, l3 + (l4 + (l5 + (l6 + (l7 + l8)))));
    let p2 = p1 + l2.len();
    lemma_matches_concat(v, p2, l3, l4 + (l5 + (l6 + (l7 + l8))));
    let p3 = p2 + l3.len();
    lemma_matches_concat(v, p3, l4, l5 + (l6 + (l7 + l8)));
    let p4 = p3 + l4.len();
    lemma_matches_concat(v, p4, l5, l6 + (l7 + l8));
    let p5 = p4 + l5.len();
    lemma_matches_concat(v, p5, l6, l7 + l8);
    let p6 = p5 + l6.len();
    lemma_matches_concat(v, p6, l7, l8);
    let p7 = p6 + l7.len();

    lemma_key_prefix(v, p0, "show_hints"@, bool_str(st.show_hints));
    lemma_sp_kv_bool_ser(v, p0, "show_hints"@, st.show_hints);
    lemma_sp_kv_string_ser(v, p1, "paper_size"@, "A4"@);
    lemma_sp_opt_language_ser(v, p2, st.language);
    lemma_sp_kv_string_ser(v, p3, "fonts_path"@, st.fonts_path);
    lemma_sp_kv_string_ser(v, p4, "font"@, st.font);
    lemma_sp_kv_string_ser(v, p5, "output"@, st.output);
    lemma_sp_kv_number_ser(v, p6, "max_questions"@, st.max_questions as nat);
    lemma_sp_kv_bool_ser(v, p7, "randomize_questions"@, st.randomize_questions);

    assert(st.paper_size == PaperSize::A4);
    assert(sp_settings(v, pos) matches Some(r) && r.0 == st);
}

/// A question block parses back, right after its leading blank line, to the
/// question in loaded shape.
#[verifier::rlimit(100)]
proof fn lemma_sp_question_ser(v: Seq<char>, pos: int, q: QuestionV)
    requires
        matches_lit(v, pos, ser_question(q)),
        wf_question(q),
    ensures
        sp_question(v, pos + 1) == Some((normalize_question(q), pos + ser_question(q).len())),
{
    reveal_strlit("correct");
    reveal_strlit("number_of_lines");
    match q {
        QuestionV::Selection(sq) => {
            let l0 = seq!['\n'];
            let l1 = "[[questions]]\n"@;
            let l2 = kv_line("question"@, quoted(sq.question));
            let l3 = kv_line("correct"@, str_list(sq.correct));
            let l4 = kv_line("incorrect"@, str_list(sq.incorrect));
            let l5 = kv_line("points"@, dec_of(sq.points as nat));
            assert(ser_question(q) =~= l0 + (l1 + (l2 + (l3 + (l4 + l5)))));
            lemma_matches_concat(v, pos, l0, l1 + (l2 + (l3 + (l4 + l5))));
            let p0 = pos + 1;
            lemma_matches_concat(v, p0, l1, l2 + (l3 + (l4 + l5)));
            let p1 = p0 + l1.len();
            lemma_matches_concat(v, p1, l2, l3 + (l4 + l5));
            let p2 = p1 + l2.len();
            lemma_matches_concat(v, p2, l3, l4 + l5);
            let p3 = p2 + l3.len();
            lemma_matches_concat(v, p3, l4, l5);
            let p4 = p3 + l4.len();

            lemma_sp_kv_string_ser(v, p1, "question"@, sq.question);
            lemma_key_prefix(v, p2, "correct"@, str_list(sq.correct));
            lemma_sp_kv_strlist_ser(v, p2, "correct"@, sq.correct);
            lemma_sp_kv_strlist_ser(v, p3, "incorrect"@, sq.incorrect);
            lemma_sp_points_ser(v, p4, sq.points);
        },
        QuestionV::Input(iq) => {
            let l0 = seq!['\n'];
            let l1 = "[[questions]]\n"@;
            let l2 = kv_line("question"@, quoted(iq.question));
            let l3 = kv_line("number_of_lines"@, dec_of(iq.number_of_lines as nat));
            let l4 = kv_line("points"@, dec_of(iq.points as nat));
            assert(ser_question(q) =~= l0 + (l1 + (l2 + (l3 + l4))));
            lemma_matches_concat(v, pos, l0, l1 + (l2 + (l3 + l4)));
            let p0 = pos + 1;
            lemma_matches_concat(v, p0, l1, l2 + (l3 + l4));
            let p1 = p0 + l1.len();
            lemma_matches_concat(v, p1, l2, l3 + l4);
            let p2 = p1 + l2.len();
            lemma_matches_concat(v, p2, l3, l4);
            let p3 = p2 + l3.len();

            lemma_sp_kv_string_ser(v, p1, "question"@, iq.question);
            lemma_key_prefix(v, p2, "number_of_lines"@, dec_of(iq.number_of_lines as nat));
            if matches_lit(v, p2, "correct"@) {
                lemma_matches_first(v, p2, "correct"@);
                lemma_matches_first(v, p2, "number_of_lines"@);
                assert(v[p2] == 'c');
                assert(v[p2] == 'n');
            }
            lemma_sp_kv_number_ser(v, p2, "number_of_lines"@, iq.number_of_lines as nat);
            lemma_sp_points_ser(v, p3, iq.points);
        },
    }
}

/// The serialized question list, standing at the end of the text, parses
/// back to the questions in loaded shape.
#[verifier::rlimit(100)]
proof fn lemma_sp_questions_ser(v: Seq<char>, pos: int, qs: Seq<QuestionV>)
    requires
        matches_lit(v, pos, ser_questions(qs)),
        pos + ser_questions(qs).len() == v.len(),
        forall|i: int| 0 <= i < qs.len() ==> wf_question(#[trigger] qs[i]),
    ensures
        sp_questions(v, pos) == Some(
            (qs.map_values(|q: QuestionV| normalize_question(q)), v.len() as int),
        ),
    decreases qs.len(),
{
    reveal_strlit("[[questions]]\n");
    if qs.len() == 0 {
        assert(pos == v.len());
        assert(skip_newlines(v, pos) == pos);
        assert(qs.map_values(|q: QuestionV| normalize_question(q)) =~= Seq::<QuestionV>::empty());
    } else {
        let q0 = qs[0];
        let rest = qs.drop_first();
        assert(ser_questions(qs) == ser_question(q0) + ser_questions(rest));
        lemma_matches_concat(v, pos, ser_question(q0), ser_questions(rest));
        let p2 = pos + ser_question(q0).len();

        // the block's leading blank line, then its opening bracket
        assert(ser_question(q0)[0] == '\n') by {
            match q0 {
                QuestionV::Selection(sq) => {},
                QuestionV::Input(iq) => {},
            }
        }
        assert(ser_question(q0).len() >= 15) by {
            match q0 {
                QuestionV::Selection(sq) => {},
                QuestionV::Input(iq) => {},
            }
        }
        assert(ser_question(q0)[1] == '[') by {
            match q0 {
                QuestionV::Selection(sq) => {
                    let l1 = "[[questions]]\n"@;
                    assert(ser_question(q0)[1] == l1[0]);
                },
                QuestionV::Input(iq) => {
                    let l1 = "[[questions]]\n"@;
                    assert(ser_question(q0)[1] == l1[0]);
                },
            }
        }
        lemma_matches_first(v, pos, ser_questions(qs));
        assert(v[pos] == '\n') by {
            assert(ser_questions(qs)[0] == ser_question(q0)[0]);
        }
        lemma_matches_char(v, pos, ser_questions(qs), 1);
        assert(v[pos + 1] == '[') by {
            assert(ser_questions(qs)[1] == ser_question(q0)[1]);
        }
        lemma_skip_one(v, pos);
        assert(skip_newlines(v, pos) == pos + 1);

        lemma_sp_question_ser(v, pos, q0);
        lemma_sp_questions_ser(v, p2, rest);
        assert(seq![normalize_question(q0)] + rest.map_values(
            |q: QuestionV| normalize_question(q),
        ) =~= qs.map_values(|q: QuestionV| normalize_question(q)));
    }
}

/// Round trip: parsing a serialized project yields the project back in
/// loaded shape — editing buffers synced to the titles, no illustration
/// paths — with every stored field unchanged, for every project within the
/// data model's bounds (every question worth at least one point, at least
/// one question renderable; the parser refuses the zero values).
#[verifier::rlimit(100)]
pub proof fn lemma_round_trip(p: ProjectV)
    requires
        wf_project(p),
    ensures
        sp_project(ser_project(p)) == Some(normalize_project(p)),
{
    reveal_strlit("[header]\n");
    let v = ser_project(p);
    let kv_title = kv_line("title"@, quoted(p.header_title));
    assert(v.subrange(0, v.len() as int) =~= v);
    assert(matches_lit(v, 0, v));
    assert(v =~= ser_settings(p.settings) + (seq!['\n'] + ("[header]\n"@ + (kv_title
        + ser_questions(p.questions)))));
    lemma_matches_concat(v, 0, ser_settings(p.settings), seq!['\n'] + ("[header]\n"@ + (kv_title
        + ser_questions(p.questions))));
    let p1 = ser_settings(p.settings).len() as int;
    lemma_matches_concat(v, p1, seq!['\n'], "[header]\n"@ + (kv_title + ser_questions(
        p.questions,
    )));
    let p1b = p1 + 1;
    lemma_matches_concat(v, p1b, "[header]\n"@, kv_title + ser_questions(p.questions));
    let p2 = p1b + "[header]\n"@.len();
    lemma_matches_concat(v, p2, kv_title, ser_questions(p.questions));
    let p3 = p2 + kv_title.len();

    lemma_sp_settings_ser(v, 0, p.settings);

    lemma_matches_first(v, p1, seq!['\n']);
    assert(v[p1] == '\n');
    lemma_matches_first(v, p1b, "[header]\n"@);
    assert("[header]\n"@[0] == '[');
    assert(v[p1b] == '[');
    lemma_skip_one(v, p1);

    lemma_sp_kv_string_ser(v, p2, "title"@, p.header_title);
    lemma_sp_questions_ser(v, p3, p.questions);
    assert(sp_project(v) == Some(normalize_project(p)));
}

} // verus!