//! Keyword inference of a vote from free text, for evaluators whose output
//! holds no vote object.
use vstd::prelude::*;
use vstd::string::StringExecFns;
use crate::parser::ExecutorResponse;
use crate::text::{
    chars_of, contains_str, has_sub, lower_of, split_lines, split_lines_of, starts_with,
    starts_with_str, string_of, take, take_chars, to_lower, trim, trim_chars,
};

verus! {

pub open spec fn fail_words(t: Seq<char>) -> bool {
    has_sub(t, "erro crítico"@) || has_sub(t, "bug grave"@) || has_sub(t, "vulnerabilidade"@)
        || has_sub(t, "falha de segurança"@) || has_sub(t, "critical error"@) || has_sub(
        t,
        "security vulnerability"@,
    )
}

pub open spec fn warn_words(t: Seq<char>) -> bool {
    has_sub(t, "problema"@) || has_sub(t, "issue"@) || has_sub(t, "considere"@) || has_sub(
        t,
        "sugestão"@,
    ) || has_sub(t, "atenção"@) || has_sub(t, "melhoria"@) || has_sub(t, "overflow"@) || has_sub(
        t,
        "observação"@,
    ) || has_sub(t, "consider"@) || has_sub(t, "suggestion"@)
}

/// The vote label inferred from lowercased text.
pub open spec fn inferred_label(t: Seq<char>) -> Seq<char> {
    if fail_words(t) {
        "FAIL"@
    } else if warn_words(t) {
        "WARN"@
    } else {
        "PASS"@
    }
}

/// The score band inferred from lowercased text.
pub open spec fn inferred_score(t: Seq<char>) -> u8 {
    if fail_words(t) {
        35
    } else if warn_words(t) {
        if has_sub(t, "menor"@) || has_sub(t, "minor"@) {
            70
        } else {
            60
        }
    } else if has_sub(t, "perfeito"@) || has_sub(t, "excelente"@) || has_sub(t, "perfect"@)
        || has_sub(t, "excellent"@) {
        95
    } else if has_sub(t, "bom"@) || has_sub(t, "correto"@) || has_sub(t, "idiomático"@) || has_sub(
        t,
        "good"@,
    ) || has_sub(t, "correct"@) || has_sub(t, "idiomatic"@) {
        85
    } else {
        80
    }
}

/// `t` with every leading repetition of `p` removed.
pub open spec fn strip_all(t: Seq<char>, p: Seq<char>) -> Seq<char>
    decreases t.len(),
{
    if p.len() > 0 && starts_with(t, p) {
        strip_all(t.subrange(p.len() as int, t.len() as int), p)
    } else {
        t
    }
}

pub open spec fn is_bullet(t: Seq<char>) -> bool {
    starts_with(t, "- "@) || starts_with(t, "* "@) || starts_with(t, "• "@)
}

pub open spec fn bullet_text(t: Seq<char>) -> Seq<char> {
    strip_all(strip_all(strip_all(t, "- "@), "* "@), "• "@)
}

/// Bullet items of the trimmed lines `ls`, in order.
pub open spec fn bullets(ls: Seq<Seq<char>>) -> Seq<Seq<char>>
    decreases ls.len(),
{
    if ls.len() == 0 {
        Seq::empty()
    } else if is_bullet(trim(ls.last())) {
        bullets(ls.drop_last()).push(bullet_text(trim(ls.last())))
    } else {
        bullets(ls.drop_last())
    }
}

/// Lines of `ls` whose lowercase mentions a suggestion, trimmed, in order.
pub open spec fn suggestion_lines(ls: Seq<Seq<char>>) -> Seq<Seq<char>>
    decreases ls.len(),
{
    if ls.len() == 0 {
        Seq::empty()
    } else if has_sub(lower_of(ls.last()), "sugest"@) || has_sub(lower_of(ls.last()), "consider"@) {
        suggestion_lines(ls.drop_last()).push(trim(ls.last()))
    } else {
        suggestion_lines(ls.drop_last())
    }
}

pub open spec fn first_n(s: Seq<Seq<char>>, n: nat) -> Seq<Seq<char>> {
    if s.len() <= n {
        s
    } else {
        s.subrange(0, n as int)
    }
}

pub open spec fn strings_view(v: Seq<String>) -> Seq<Seq<char>> {
    v.map_values(|s: String| s@)
}

fn strip_all_exec(t: Vec<char>, p: &str) -> (r: Vec<char>)
    requires
        p@.len() > 0,
    ensures
        r@ == strip_all(t@, p@),
{
    let pv = chars_of(p);
    let mut cur = t;
    while pv.len() <= cur.len() && crate::text::matches_at(&cur, &pv, 0)
        invariant
            pv@ == p@,
            pv@.len() > 0,
            strip_all(cur@, p@) == strip_all(t@, p@),
        decreases cur@.len(),
    {
        cur = crate::text::slice(&cur, pv.len(), cur.len());
    }
    cur
}

/// The answer inferred from free text, as plain values.
pub open spec fn inferred_response(text: Seq<char>) -> crate::parser::ResponseView {
    (
        inferred_label(lower_of(text)),
        inferred_score(lower_of(text)),
        take(text, 500),
        first_n(bullets(split_lines(text)), 5),
        first_n(suggestion_lines(split_lines(text)), 3),
    )
}

/// Infers an answer from free text: a vote from keywords, a score band,
/// up to five bulleted issues, up to three suggestion lines, and the first
/// 500 characters as reasoning.
pub fn analyze_text_response(text: &str) -> (r: ExecutorResponse)
    ensures
        r.vote@ == inferred_label(lower_of(text@)),
        r.score == inferred_score(lower_of(text@)),
        strings_view(r.issues@) == first_n(bullets(split_lines(text@)), 5),
        strings_view(r.suggestions@) == first_n(suggestion_lines(split_lines(text@)), 3),
        r.reasoning@ == take(text@, 500),
        crate::parser::response_view(r) == inferred_response(text@),
{
    let lower = to_lower(text);
    let lv = chars_of(lower.as_str());
    let fail = contains_str(&lv, "erro crítico") || contains_str(&lv, "bug grave")
        || contains_str(&lv, "vulnerabilidade") || contains_str(&lv, "falha de segurança")
        || contains_str(&lv, "critical error") || contains_str(&lv, "security vulnerability");
    let warn = contains_str(&lv, "problema") || contains_str(&lv, "issue") || contains_str(
        &lv,
        "considere",
    ) || contains_str(&lv, "sugestão") || contains_str(&lv, "atenção") || contains_str(
        &lv,
        "melhoria",
    ) || contains_str(&lv, "overflow") || contains_str(&lv, "observação") || contains_str(
        &lv,
        "consider",
    ) || contains_str(&lv, "suggestion");
    let (vote, score) = if fail {
        (String::from_str("FAIL"), 35u8)
    } else if warn {
        if contains_str(&lv, "menor") || contains_str(&lv, "minor") {
            (String::from_str("WARN"), 70u8)
        } else {
            (String::from_str("WARN"), 60u8)
        }
    } else if contains_str(&lv, "perfeito") || contains_str(&lv, "excelente") || contains_str(
        &lv,
        "perfect",
    ) || contains_str(&lv, "excellent") {
        (String::from_str("PASS"), 95u8)
    } else if contains_str(&lv, "bom") || contains_str(&lv, "correto") || contains_str(
        &lv,
        "idiomático",
    ) || contains_str(&lv, "good") || contains_str(&lv, "correct") || contains_str(
        &lv,
        "idiomatic",
    ) {
        (String::from_str("PASS"), 85u8)
    } else {
        (String::from_str("PASS"), 80u8)
    };
    let tv = chars_of(text);
    let lines = split_lines_of(&tv);
    let issues = bullet_items(&lines);
    let suggestions = suggestion_items(&lines);
    let reasoning = string_of(take_chars(&tv, 500).as_slice());
    let r = ExecutorResponse { vote, score, reasoning, issues, suggestions };
    assert(crate::types::strings_of(r.issues@) =~= strings_view(r.issues@));
    assert(crate::types::strings_of(r.suggestions@) =~= strings_view(r.suggestions@));
    r
}

fn bullet_items(lines: &Vec<Vec<char>>) -> (r: Vec<String>)
    ensures
        strings_view(r@) == first_n(bullets(lines@.map_values(|l: Vec<char>| l@)), 5),
{
    proof {
        reveal_strlit("- ");
        reveal_strlit("* ");
        reveal_strlit("• ");
    }
    let ghost ls = lines@.map_values(|l: Vec<char>| l@);
    let mut out: Vec<String> = Vec::new();
    let mut i: usize = 0;
    while i < lines.len()
        invariant
            i <= lines@.len(),
            ls == lines@.map_values(|l: Vec<char>| l@),
            strings_view(out@) == first_n(bullets(ls.subrange(0, i as int)), 5),
            "- "@.len() == 2,
            "* "@.len() == 2,
            "• "@.len() == 2,
        decreases lines.len() - i,
    {
        proof {
            assert(ls.subrange(0, i + 1).drop_last() =~= ls.subrange(0, i as int));
            assert(ls.subrange(0, i + 1).last() == lines@[i as int]@);
        }
        let t = trim_chars(&lines[i]);
        if starts_with_str(&t, "- ") || starts_with_str(&t, "* ") || starts_with_str(&t, "• ") {
            let ghost b = bullets(ls.subrange(0, i as int));
            if out.len() < 5 {
                let a = strip_all_exec(t, "- ");
                let b2 = strip_all_exec(a, "* ");
                let c = strip_all_exec(b2, "• ");
                let ghost ov = out@;
                out.push(string_of(c.as_slice()));
                proof {
                    assert(strings_view(out@) =~= strings_view(ov).push(c@));
                    assert(first_n(b.push(c@), 5) =~= first_n(b, 5).push(c@));
                }
            } else {
                proof {
                    assert(first_n(b.push(bullet_text(t@)), 5) =~= first_n(b, 5));
                }
            }
        }
        i += 1;
    }
    assert(ls.subrange(0, lines@.len() as int) =~= ls);
    out
}

fn suggestion_items(lines: &Vec<Vec<char>>) -> (r: Vec<String>)
    ensures
        strings_view(r@) == first_n(suggestion_lines(lines@.map_values(|l: Vec<char>| l@)), 3),
{
    let ghost ls = lines@.map_values(|l: Vec<char>| l@);
    let mut out: Vec<String> = Vec::new();
    let mut i: usize = 0;
    while i < lines.len()
        invariant
            i <= lines@.len(),
            ls == lines@.map_values(|l: Vec<char>| l@),
            strings_view(out@) == first_n(suggestion_lines(ls.subrange(0, i as int)), 3),
        decreases lines.len() - i,
    {
        proof {
            assert(ls.subrange(0, i + 1).drop_last() =~= ls.subrange(0, i as int));
            assert(ls.subrange(0, i + 1).last() == lines@[i as int]@);
        }
        let line = string_of(lines[i].as_slice());
        let lower = to_lower(line.as_str());
        let lv = chars_of(lower.as_str());
        if contains_str(&lv, "sugest") || contains_str(&lv, "consider") {
            let ghost b = suggestion_lines(ls.subrange(0, i as int));
            let t = trim_chars(&lines[i]);
            if out.len() < 3 {
                let ghost ov = out@;
                out.push(string_of(t.as_slice()));
                proof {
                    assert(strings_view(out@) =~= strings_view(ov).push(t@));
                    assert(first_n(b.push(t@), 3) =~= first_n(b, 3).push(t@));
                }
            } else {
                proof {
                    assert(first_n(b.push(t@), 3) =~= first_n(b, 3));
                }
            }
        }
        i += 1;
    }
    assert(ls.subrange(0, lines@.len() as int) =~= ls);
    out
}

} // verus!
