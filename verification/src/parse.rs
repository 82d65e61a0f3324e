//! The executable project file parser. Each function computes exactly what
//! its spec-level counterpart in the codec module describes; parsing fails
//! exactly where the spec has no result.

use vstd::prelude::*;
use vstd::string::StrSliceExecFns;
use crate::chars::str_to_chars;
use crate::codec::{
    digit_run_end, lemma_matches_concat, lemma_sp_project_wf, lemma_sp_string_advance,
    lemma_with_prefix_empty,
    lemma_with_prefix_step, matches_lit, sp_bool, sp_kv_bool, sp_kv_number, sp_kv_string,
    sp_kv_strlist, sp_lit, sp_number, sp_opt_bool, sp_opt_language, sp_points, sp_project,
    sp_question, sp_questions, sp_settings, sp_string, sp_string_body, sp_strlist,
    sp_strlist_items, skip_newlines, with_prefix,
};
use crate::errors::ConfigError;
use crate::locale::{Language, PaperSize};
use crate::model::{
    Header, InputQuestion, Project, Question, QuestionV, SelectionQuestion, Settings, wf_project,
};
use crate::numbers::{digit_val, digits_val};

verus! {

/// Consumes the exact text `lit`.
fn p_lit(v: &Vec<char>, pos: usize, lit: &str) -> (r: Option<usize>)
    ensures
        r matches Some(p) ==> sp_lit(v@, pos as int, lit@) == Some(p as int) && p <= v@.len(),
        r is None ==> sp_lit(v@, pos as int, lit@) is None,
{
    let l = lit.unicode_len();
    let vn = v.len();
    if pos > vn || l > vn - pos {
        return None;
    }
    let mut i: usize = 0;
    while i < l
        invariant
            i <= l,
            l == lit@.len(),
            vn == v@.len(),
            pos + l <= vn,
            forall|j: int| 0 <= j < i ==> v@[pos + j] == lit@[j],
        decreases l - i,
    {
        if v[pos + i] != lit.get_char(i) {
            proof {
                assert(v@.subrange(pos as int, pos + l) != lit@) by {
                    assert(v@.subrange(pos as int, pos + l)[i as int] == v@[pos + i]);
                }
            }
            return None;
        }
        i = i + 1;
    }
    proof {
        assert(v@.subrange(pos as int, pos + l) =~= lit@);
    }
    Some(pos + l)
}

/// Consumes a single newline.
fn p_newline(v: &Vec<char>, pos: usize) -> (r: Option<usize>)
    ensures
        r matches Some(p) ==> sp_lit(v@, pos as int, seq!['\n']) == Some(p as int) && p
            <= v@.len(),
        r is None ==> sp_lit(v@, pos as int, seq!['\n']) is None,
{
    if pos < v.len() && v[pos] == '\n' {
        proof {
            assert(v@.subrange(pos as int, pos as int + 1) =~= seq!['\n']);
        }
        Some(pos + 1)
    } else {
        proof {
            if matches_lit(v@, pos as int, seq!['\n']) {
                assert(v@.subrange(pos as int, pos as int + 1)[0] == v@[pos as int]);
            }
        }
        None
    }
}

/// Consumes a quoted string.
fn p_string(v: &Vec<char>, pos: usize) -> (r: Option<(String, usize)>)
    ensures
        r matches Some(rp) ==> (sp_string(v@, pos as int) matches Some(sp) && rp.0@ == sp.0
            && rp.1 as int == sp.1 && rp.1 <= v@.len()),
        r is None ==> sp_string(v@, pos as int) is None,
{
    if !(pos < v.len()) || v[pos] != '"' {
        return None;
    }
    let mut acc = String::new();
    let mut p: usize = pos + 1;
    proof {
        lemma_with_prefix_empty(sp_string_body(v@, p as int));
        assert(sp_string(v@, pos as int) == with_prefix(acc@, sp_string_body(v@, p as int)));
    }
    while p < v.len()
        invariant
            pos < p <= v@.len(),
            sp_string(v@, pos as int) == with_prefix(acc@, sp_string_body(v@, p as int)),
        decreases v@.len() - p,
    {
        let c = v[p];
        if c == '"' {
            proof {
                assert(sp_string_body(v@, p as int) == Some((Seq::<char>::empty(), p + 1)));
                assert(acc@ + Seq::<char>::empty() =~= acc@);
            }
            return Some((acc, p + 1));
        } else if c == '\\' {
            if v.len() - p < 2 {
                proof {
                    assert(sp_string_body(v@, p as int) is None);
                }
                return None;
            }
            let e = v[p + 1];
            let decoded: char;
            if e == '\\' {
                decoded = '\\';
            } else if e == '"' {
                decoded = '"';
            } else if e == 'n' {
                decoded = '\n';
            } else {
                proof {
                    assert(sp_string_body(v@, p as int) is None);
                }
                return None;
            }
            proof {
                lemma_with_prefix_step(acc@, decoded, sp_string_body(v@, p + 2));
            }
            acc.push(decoded);
            p = p + 2;
        } else {
            proof {
                lemma_with_prefix_step(acc@, c, sp_string_body(v@, p + 1));
            }
            acc.push(c);
            p = p + 1;
        }
    }
    proof {
        assert(sp_string_body(v@, p as int) is None);
    }
    None
}

/// The numeric value of a digit character.
fn p_digit(c: char) -> (r: Option<u64>)
    ensures
        r matches Some(d) ==> digit_val(c) == Some(d as nat),
        r is None ==> digit_val(c) is None,
{
    if c == '0' {
        Some(0)
    } else if c == '1' {
        Some(1)
    } else if c == '2' {
        Some(2)
    } else if c == '3' {
        Some(3)
    } else if c == '4' {
        Some(4)
    } else if c == '5' {
        Some(5)
    } else if c == '6' {
        Some(6)
    } else if c == '7' {
        Some(7)
    } else if c == '8' {
        Some(8)
    } else if c == '9' {
        Some(9)
    } else {
        None
    }
}

/// Consumes an unsigned decimal number of at most 32 bits.
fn p_number(v: &Vec<char>, pos: usize) -> (r: Option<(u64, usize)>)
    ensures
        r matches Some(rp) ==> (sp_number(v@, pos as int) matches Some(sp) && rp.0 as nat == sp.0
            && rp.1 as int == sp.1 && rp.1 <= v@.len()),
        r is None ==> sp_number(v@, pos as int) is None,
{
    if !(pos < v.len()) {
        return None;
    }
    if p_digit(v[pos]).is_none() {
        return None;
    }
    let mut end: usize = pos;
    while end < v.len() && p_digit(v[end]).is_some()
        invariant
            pos <= end <= v@.len(),
            digit_run_end(v@, pos as int) == digit_run_end(v@, end as int),
            forall|j: int| pos <= j < end ==> digit_val(#[trigger] v@[j]) is Some,
        decreases v@.len() - end,
    {
        end = end + 1;
    }
    proof {
        assert(digit_run_end(v@, end as int) == end);
        assert(digit_run_end(v@, pos as int) == end);
    }
    let mut acc: u64 = 0;
    let mut over: bool = false;
    let mut k: usize = pos;
    proof {
        assert(v@.subrange(pos as int, pos as int) =~= Seq::<char>::empty());
    }
    while k < end
        invariant
            pos <= k <= end <= v@.len(),
            forall|j: int| pos <= j < end ==> digit_val(#[trigger] v@[j]) is Some,
            !over ==> acc as nat == digits_val(v@.subrange(pos as int, k as int)) && acc
                <= 0xFFFF_FFFF,
            over ==> digits_val(v@.subrange(pos as int, k as int)) > 0xFFFF_FFFF,
        decreases end - k,
    {
        let d = match p_digit(v[k]) {
            Some(d) => d,
            None => 0,
        };
        proof {
            assert(v@.subrange(pos as int, k as int + 1).drop_last() =~= v@.subrange(
                pos as int,
                k as int,
            ));
            assert(v@.subrange(pos as int, k as int + 1).last() == v@[k as int]);
        }
        if over {
        } else if acc > 0xFFFF_FFFF / 10 || (acc == 0xFFFF_FFFF / 10 && d > 0xFFFF_FFFF % 10) {
            over = true;
        } else {
            acc = acc * 10 + d;
        }
        k = k + 1;
    }
    if over {
        return None;
    }
    Some((acc, end))
}

/// Consumes `true` or `false`.
fn p_bool(v: &Vec<char>, pos: usize) -> (r: Option<(bool, usize)>)
    ensures
        r matches Some(rp) ==> (sp_bool(v@, pos as int) matches Some(sp) && rp.0 == sp.0
            && rp.1 as int == sp.1 && rp.1 <= v@.len()),
        r is None ==> sp_bool(v@, pos as int) is None,
{
    match p_lit(v, pos, "true") {
        Some(p) => Some((true, p)),
        None => match p_lit(v, pos, "false") {
            Some(p) => Some((false, p)),
            None => None,
        },
    }
}

/// Consumes `key = ` at the head of a line.
fn p_key_eq(v: &Vec<char>, pos: usize, key: &str) -> (r: Option<usize>)
    ensures
        r matches Some(p) ==> sp_lit(v@, pos as int, key@ + " = "@) == Some(p as int),
        r is None ==> sp_lit(v@, pos as int, key@ + " = "@) is None,
{
    proof {
        lemma_matches_concat(v@, pos as int, key@, " = "@);
    }
    match p_lit(v, pos, key) {
        Some(p1) => {
            proof {
                lemma_matches_concat(v@, pos as int, key@, " = "@);
            }
            match p_lit(v, p1, " = ") {
                Some(p2) => Some(p2),
                None => None,
            }
        },
        None => None,
    }
}

/// Consumes one `key = <quoted string>` line.
fn p_kv_string(v: &Vec<char>, pos: usize, key: &str) -> (r: Option<(String, usize)>)
    ensures
        r matches Some(rp) ==> (sp_kv_string(v@, pos as int, key@) matches Some(sp) && rp.0@
            == sp.0 && rp.1 as int == sp.1 && rp.1 <= v@.len()),
        r is None ==> sp_kv_string(v@, pos as int, key@) is None,
{
    match p_key_eq(v, pos, key) {
        Some(p1) => match p_string(v, p1) {
            Some((s, p2)) => match p_newline(v, p2) {
                Some(p3) => Some((s, p3)),
                None => None,
            },
            None => None,
        },
        None => None,
    }
}

/// Consumes one `key = <bool>` line.
fn p_kv_bool(v: &Vec<char>, pos: usize, key: &str) -> (r: Option<(bool, usize)>)
    ensures
        r matches Some(rp) ==> (sp_kv_bool(v@, pos as int, key@) matches Some(sp) && rp.0 == sp.0
            && rp.1 as int == sp.1 && rp.1 <= v@.len()),
        r is None ==> sp_kv_bool(v@, pos as int, key@) is None,
{
    match p_key_eq(v, pos, key) {
        Some(p1) => match p_bool(v, p1) {
            Some((b, p2)) => match p_newline(v, p2) {
                Some(p3) => Some((b, p3)),
                None => None,
            },
            None => None,
        },
        None => None,
    }
}

/// Consumes one `key = <number>` line.
fn p_kv_number(v: &Vec<char>, pos: usize, key: &str) -> (r: Option<(u64, usize)>)
    ensures
        r matches Some(rp) ==> (sp_kv_number(v@, pos as int, key@) matches Some(sp) && rp.0 as nat
            == sp.0 && rp.1 as int == sp.1 && rp.1 <= v@.len()),
        r is None ==> sp_kv_number(v@, pos as int, key@) is None,
{
    match p_key_eq(v, pos, key) {
        Some(p1) => match p_number(v, p1) {
            Some((n, p2)) => match p_newline(v, p2) {
                Some(p3) => Some((n, p3)),
                None => None,
            },
            None => None,
        },
        None => None,
    }
}

/// Consumes a bracketed string array.
fn p_strlist(v: &Vec<char>, pos: usize) -> (r: Option<(Vec<String>, usize)>)
    ensures
        r matches Some(rp) ==> (sp_strlist(v@, pos as int) matches Some(sp) && rp.0.deep_view()
            == sp.0 && rp.1 as int == sp.1 && rp.1 <= v@.len()),
        r is None ==> sp_strlist(v@, pos as int) is None,
{
    if !(pos < v.len()) || v[pos] != '[' {
        proof {
            if matches_lit(v@, pos as int, seq!['[']) {
                assert(v@.subrange(pos as int, pos as int + 1)[0] == v@[pos as int]);
            }
        }
        return None;
    }
    proof {
        assert(v@.subrange(pos as int, pos as int + 1) =~= seq!['[']);
        assert(sp_lit(v@, pos as int, seq!['[']) == Some(pos as int + 1));
    }
    let p1 = pos + 1;
    if p1 < v.len() && v[p1] == ']' {
        proof {
            assert(v@.subrange(p1 as int, p1 as int + 1) =~= seq![']']);
        }
        let empty: Vec<String> = Vec::new();
        proof {
            assert(empty.deep_view() =~= Seq::<Seq<char>>::empty());
        }
        return Some((empty, p1 + 1));
    }
    proof {
        if matches_lit(v@, p1 as int, seq![']']) {
            assert(v@.subrange(p1 as int, p1 as int + 1)[0] == v@[p1 as int]);
        }
    }
    let mut acc: Vec<String> = Vec::new();
    let mut p: usize = p1;
    proof {
        assert(acc.deep_view() =~= Seq::<Seq<char>>::empty());
        if let Some((rest, e)) = sp_strlist_items(v@, p1 as int) {
            assert(acc.deep_view() + rest =~= rest);
        }
    }
    loop
        invariant
            pos < p <= v@.len(),
            sp_strlist(v@, pos as int) == (match sp_strlist_items(v@, p as int) {
                Some((rest, e)) => Some((acc.deep_view() + rest, e)),
                None => None,
            }),
        decreases v@.len() - p,
    {
        let (s, p2) = match p_string(v, p) {
            Some(sp) => sp,
            None => {
                proof {
                    assert(sp_strlist_items(v@, p as int) is None);
                }
                return None;
            },
        };
        proof {
            lemma_sp_string_advance(v@, p as int);
        }
        if p2 < v.len() && v[p2] == ',' {
            match p_lit(v, p2, ", ") {
                Some(p3) => {
                    proof {
                        assert(", "@ =~= seq![',', ' ']) by {
                            reveal_strlit(", ");
                        }
                        let ghost prev = acc.deep_view();
                        assert(sp_strlist_items(v@, p as int) == (
                        match sp_strlist_items(v@, p3 as int) {
                            Some((rest, e)) => Some((seq![s@] + rest, e)),
                            None => None,
                        }));
                    }
                    let ghost prev_acc = acc.deep_view();
                    acc.push(s);
                    proof {
                        assert(acc.deep_view() =~= prev_acc.push(s@));
                        if let Some((rest, e)) = sp_strlist_items(v@, p3 as int) {
                            assert(prev_acc + (seq![s@] + rest) =~= prev_acc.push(s@) + rest);
                        }
                    }
                    p = p3;
                },
                None => {
                    proof {
                        reveal_strlit(", ");
                        assert(", "@ =~= seq![',', ' ']);
                        assert(!matches_lit(v@, p2 as int, seq![',', ' ']));
                        if matches_lit(v@, p2 as int, seq![']']) {
                            assert(v@.subrange(p2 as int, p2 as int + 1)[0] == v@[p2 as int]);
                        }
                        assert(sp_strlist_items(v@, p as int) is None);
                    }
                    return None;
                },
            }
        } else if p2 < v.len() && v[p2] == ']' {
            proof {
                assert(v@.subrange(p2 as int, p2 as int + 1) =~= seq![']']);
                if matches_lit(v@, p2 as int, seq![',', ' ']) {
                    assert(v@.subrange(p2 as int, p2 as int + 2)[0] == v@[p2 as int]);
                }
            }
            let ghost prev_acc = acc.deep_view();
            acc.push(s);
            proof {
                assert(acc.deep_view() =~= prev_acc.push(s@));
                assert(prev_acc + seq![s@] =~= prev_acc.push(s@));
            }
            return Some((acc, p2 + 1));
        } else {
            proof {
                if matches_lit(v@, p2 as int, seq![',', ' ']) {
                    assert(v@.subrange(p2 as int, p2 as int + 2)[0] == v@[p2 as int]);
                }
                if matches_lit(v@, p2 as int, seq![']']) {
                    assert(v@.subrange(p2 as int, p2 as int + 1)[0] == v@[p2 as int]);
                }
            }
            return None;
        }
    }
}

/// Consumes one `key = [..]` line.
fn p_kv_strlist(v: &Vec<char>, pos: usize, key: &str) -> (r: Option<(Vec<String>, usize)>)
    ensures
        r matches Some(rp) ==> (sp_kv_strlist(v@, pos as int, key@) matches Some(sp)
            && rp.0.deep_view() == sp.0 && rp.1 as int == sp.1 && rp.1 <= v@.len()),
        r is None ==> sp_kv_strlist(v@, pos as int, key@) is None,
{
    match p_key_eq(v, pos, key) {
        Some(p1) => match p_strlist(v, p1) {
            Some((items, p2)) => match p_newline(v, p2) {
                Some(p3) => Some((items, p3)),
                None => None,
            },
            None => None,
        },
        None => None,
    }
}

/// Skips blank lines.
fn p_skip_newlines(v: &Vec<char>, pos: usize) -> (r: usize)
    requires
        pos <= v@.len(),
    ensures
        r as int == skip_newlines(v@, pos as int),
        pos <= r <= v@.len(),
{
    let mut p = pos;
    while p < v.len() && v[p] == '\n'
        invariant
            pos <= p <= v@.len(),
            skip_newlines(v@, pos as int) == skip_newlines(v@, p as int),
        decreases v@.len() - p,
    {
        p = p + 1;
    }
    p
}

/// Whether the text `lit` stands at `pos`; looks ahead without consuming.
fn p_peek(v: &Vec<char>, pos: usize, lit: &str) -> (r: bool)
    ensures
        r == matches_lit(v@, pos as int, lit@),
{
    match p_lit(v, pos, lit) {
        Some(_) => true,
        None => false,
    }
}

/// Consumes an optional `show_hints` line.
fn p_opt_bool(v: &Vec<char>, pos: usize, key: &str, default: bool) -> (r: Option<(bool, usize)>)
    ensures
        r matches Some(rp) ==> (sp_opt_bool(v@, pos as int, key@, default) matches Some(sp)
            && rp.0 == sp.0 && rp.1 as int == sp.1),
        r matches Some(rp2) ==> (pos <= v@.len() ==> rp2.1 <= v@.len()),
        r is None ==> sp_opt_bool(v@, pos as int, key@, default) is None,
{
    if p_peek(v, pos, key) {
        p_kv_bool(v, pos, key)
    } else {
        Some((default, pos))
    }
}

/// Consumes an optional `language` line.
fn p_opt_language(v: &Vec<char>, pos: usize) -> (r: Option<(Language, usize)>)
    ensures
        r matches Some(rp) ==> (sp_opt_language(v@, pos as int) matches Some(sp) && rp.0 == sp.0
            && rp.1 as int == sp.1),
        r matches Some(rp2) ==> (pos <= v@.len() ==> rp2.1 <= v@.len()),
        r is None ==> sp_opt_language(v@, pos as int) is None,
{
    if p_peek(v, pos, "language") {
        match p_kv_string(v, pos, "language") {
            Some((s, p)) => {
                let is_en = p_streq(&s, "English");
                let is_bg = p_streq(&s, "Bulgarian");
                if is_en {
                    Some((Language::English, p))
                } else if is_bg {
                    Some((Language::Bulgarian, p))
                } else {
                    None
                }
            },
            None => None,
        }
    } else {
        Some((Language::English, pos))
    }
}

/// Whether a parsed string equals a fixed name.
fn p_streq(s: &String, lit: &str) -> (r: bool)
    ensures
        r == (s@ == lit@),
{
    let n = s.as_str().unicode_len();
    let l = lit.unicode_len();
    if n != l {
        proof {
            assert(s@.len() != lit@.len());
        }
        return false;
    }
    let mut i: usize = 0;
    while i < n
        invariant
            i <= n,
            n == s@.len(),
            n == lit@.len(),
            forall|j: int| 0 <= j < i ==> s@[j] == lit@[j],
        decreases n - i,
    {
        if s.as_str().get_char(i) != lit.get_char(i) {
            return false;
        }
        i = i + 1;
    }
    proof {
        assert(s@ =~= lit@);
    }
    true
}

/// Consumes an optional `points` line; zero points are refused.
fn p_points(v: &Vec<char>, pos: usize) -> (r: Option<(u8, usize)>)
    ensures
        r matches Some(rp) ==> (sp_points(v@, pos as int) matches Some(sp) && rp.0 == sp.0
            && rp.1 as int == sp.1),
        r matches Some(rp2) ==> (pos <= v@.len() ==> rp2.1 <= v@.len()),
        r is None ==> sp_points(v@, pos as int) is None,
{
    if p_peek(v, pos, "points") {
        match p_kv_number(v, pos, "points") {
            Some((n, p)) => {
                if n > 255 || n < 1 {
                    None
                } else {
                    Some((n as u8, p))
                }
            },
            None => None,
        }
    } else {
        Some((1u8, pos))
    }
}

/// Consumes the settings section.
fn p_settings(v: &Vec<char>, pos: usize) -> (r: Option<(Settings, usize)>)
    ensures
        r matches Some(rp) ==> (sp_settings(v@, pos as int) matches Some(sp) && rp.0@ == sp.0
            && rp.1 as int == sp.1 && rp.1 <= v@.len()),
        r is None ==> sp_settings(v@, pos as int) is None,
{
    let p0 = match p_lit(v, pos, "[settings]\n") {
        Some(p) => p,
        None => {
            return None;
        },
    };
    let (show_hints, p1) = match p_opt_bool(v, p0, "show_hints", true) {
        Some(x) => x,
        None => {
            return None;
        },
    };
    let (ps, p2) = match p_kv_string(v, p1, "paper_size") {
        Some(x) => x,
        None => {
            return None;
        },
    };
    if !p_streq(&ps, "A4") {
        return None;
    }
    let (language, p3) = match p_opt_language(v, p2) {
        Some(x) => x,
        None => {
            return None;
        },
    };
    let (fonts_path, p4) = match p_kv_string(v, p3, "fonts_path") {
        Some(x) => x,
        None => {
            return None;
        },
    };
    let (font, p5) = match p_kv_string(v, p4, "font") {
        Some(x) => x,
        None => {
            return None;
        },
    };
    let (output, p6) = match p_kv_string(v, p5, "output") {
        Some(x) => x,
        None => {
            return None;
        },
    };
    let (mq, p7) = match p_kv_number(v, p6, "max_questions") {
        Some(x) => x,
        None => {
            return None;
        },
    };
    if mq > 255 || mq < 1 {
        return None;
    }
    let (rq, p8) = match p_kv_bool(v, p7, "randomize_questions") {
        Some(x) => x,
        None => {
            return None;
        },
    };
    Some(
        (
            Settings {
                show_hints,
                paper_size: PaperSize::A4,
                language,
                fonts_path,
                font,
                output,
                max_questions: mq as u8,
                randomize_questions: rq,
            },
            p8,
        ),
    )
}

/// Consumes one question block.
fn p_question(v: &Vec<char>, pos: usize) -> (r: Option<(Question, usize)>)
    ensures
        r matches Some(rp) ==> (sp_question(v@, pos as int) matches Some(sp) && rp.0@ == sp.0
            && rp.1 as int == sp.1),
        r matches Some(rp2) ==> (pos <= v@.len() ==> rp2.1 <= v@.len()),
        r is None ==> sp_question(v@, pos as int) is None,
{
    let p0 = match p_lit(v, pos, "[[questions]]\n") {
        Some(p) => p,
        None => {
            return None;
        },
    };
    let (title, p1) = match p_kv_string(v, p0, "question") {
        Some(x) => x,
        None => {
            return None;
        },
    };
    if p_peek(v, p1, "correct") {
        let (correct, p2) = match p_kv_strlist(v, p1, "correct") {
            Some(x) => x,
            None => {
                return None;
            },
        };
        let (incorrect, p3) = match p_kv_strlist(v, p2, "incorrect") {
            Some(x) => x,
            None => {
                return None;
            },
        };
        let (points, p4) = match p_points(v, p3) {
            Some(x) => x,
            None => {
                return None;
            },
        };
        let q = Question::Selection(
            SelectionQuestion {
                question_buf: title.clone(),
                question: title,
                correct,
                incorrect,
                points,
                image: None,
            },
        );
        Some((q, p4))
    } else if p_peek(v, p1, "number_of_lines") {
        let (lines, p2) = match p_kv_number(v, p1, "number_of_lines") {
            Some(x) => x,
            None => {
                return None;
            },
        };
        if lines > 0xFFFF {
            return None;
        }
        let (points, p3) = match p_points(v, p2) {
            Some(x) => x,
            None => {
                return None;
            },
        };
        let q = Question::Input(
            InputQuestion {
                question_buf: title.clone(),
                question: title,
                number_of_lines: lines as u16,
                points,
                image: None,
            },
        );
        Some((q, p3))
    } else {
        None
    }
}

/// Consumes question blocks up to the end of the text.
fn p_questions(v: &Vec<char>, pos: usize) -> (r: Option<(Vec<Question>, usize)>)
    requires
        pos <= v@.len(),
    ensures
        r matches Some(rp) ==> (sp_questions(v@, pos as int) matches Some(sp)
            && rp.0.deep_view() == sp.0 && rp.1 as int == sp.1),
        r is None ==> sp_questions(v@, pos as int) is None,
{
    let mut acc: Vec<Question> = Vec::new();
    let mut p: usize = pos;
    proof {
        assert(acc.deep_view() =~= Seq::<QuestionV>::empty());
        if let Some((rest, e)) = sp_questions(v@, pos as int) {
            assert(acc.deep_view() + rest =~= rest);
        }
    }
    loop
        invariant
            pos <= p <= v@.len(),
            sp_questions(v@, pos as int) == (match sp_questions(v@, p as int) {
                Some((rest, e)) => Some((acc.deep_view() + rest, e)),
                None => None,
            }),
        decreases v@.len() - p,
    {
        let p2 = p_skip_newlines(v, p);
        if p2 >= v.len() {
            proof {
                assert(sp_questions(v@, p as int) == Some((
                    Seq::<QuestionV>::empty(),
                    p2 as int,
                )));
                assert(acc.deep_view() + Seq::<QuestionV>::empty() =~= acc.deep_view());
            }
            return Some((acc, p2));
        }
        let (q, p3) = match p_question(v, p2) {
            Some(x) => x,
            None => {
                return None;
            },
        };
        if p3 <= p2 {
            return None;
        }
        let ghost prev_acc = acc.deep_view();
        let ghost qv = q@;
        proof {
            assert(sp_questions(v@, p as int) == (match sp_questions(v@, p3 as int) {
                Some((rest, e)) => Some((seq![qv] + rest, e)),
                None => None,
            }));
        }
        acc.push(q);
        proof {
            assert(acc.deep_view() =~= prev_acc.push(qv));
            if let Some((rest, e)) = sp_questions(v@, p3 as int) {
                assert(prev_acc + (seq![qv] + rest) =~= prev_acc.push(qv) + rest);
            }
        }
        p = p3;
    }
}

/// Parses the stored text of a whole project. The result is in loaded
/// shape: editing buffers synced to the titles and no illustration paths.
/// Parsing fails exactly on texts that do not follow the stored form.
pub fn parse_project(s: &str) -> (r: Result<Project, ConfigError>)
    ensures
        r matches Ok(p) ==> (sp_project(s@) matches Some(pv) && p@ == pv),
        r matches Ok(p) ==> wf_project(p@),
        r is Err <==> sp_project(s@) is None,
{
    proof {
        lemma_sp_project_wf(s@);
    }
    let v = str_to_chars(s);
    let (settings, p1) = match p_settings(&v, 0) {
        Some(x) => x,
        None => {
            return Err(ConfigError);
        },
    };
    proof {
        assert(p1 as int <= v@.len());
    }
    let p1b = p_skip_newlines(&v, p1);
    let p2 = match p_lit(&v, p1b, "[header]\n") {
        Some(p) => p,
        None => {
            return Err(ConfigError);
        },
    };
    let (title, p3) = match p_kv_string(&v, p2, "title") {
        Some(x) => x,
        None => {
            return Err(ConfigError);
        },
    };
    proof {
        assert(p3 as int <= v@.len());
    }
    let (questions, p4) = match p_questions(&v, p3) {
        Some(x) => x,
        None => {
            return Err(ConfigError);
        },
    };
    if p4 != v.len() {
        return Err(ConfigError);
    }
    Ok(Project { settings, header: Header { title }, questions })
}

} // verus!
