//! Code normalization, signatures, keyword extraction and language detection.
use vstd::prelude::*;
use vstd::string::StringExecFns;
use crate::digest::{hex_digest, sha256_hex};
use crate::text::{
    chars_of, contains_str, has_sub, join_lines, lower_of, split_lines, split_lines_of,
    starts_with, starts_with_str, string_of, to_lower, trim, trim_chars,
};

verus! {

/// A trimmed line that normalization keeps: not empty and not a comment.
pub open spec fn keeps(t: Seq<char>) -> bool {
    t.len() > 0 && !starts_with(t, "//"@) && !starts_with(t, "#"@) && !starts_with(t, "/*"@)
        && !starts_with(t, "*"@) && !starts_with(t, "*/"@)
}

/// The kept lines of `ls`, trimmed, in order.
pub open spec fn kept_lines(ls: Seq<Seq<char>>) -> Seq<Seq<char>>
    decreases ls.len(),
{
    if ls.len() == 0 {
        Seq::empty()
    } else if keeps(trim(ls.last())) {
        kept_lines(ls.drop_last()).push(trim(ls.last()))
    } else {
        kept_lines(ls.drop_last())
    }
}

/// Normalized code: kept lines, trimmed, joined by `'\n'`.
pub open spec fn normalized(code: Seq<char>) -> Seq<char> {
    join_lines(kept_lines(split_lines(code)))
}

/// Signature of code: hex SHA-256 of its normalized form.
pub open spec fn signature_of(code: Seq<char>) -> Seq<char> {
    hex_digest(normalized(code))
}

/// Inserting a blank or comment line anywhere among the lines leaves the
/// kept lines unchanged.
pub proof fn lemma_insert_ignored(ls: Seq<Seq<char>>, k: int, extra: Seq<char>)
    requires
        0 <= k <= ls.len(),
        !keeps(trim(extra)),
    ensures
        kept_lines(ls.insert(k, extra)) == kept_lines(ls),
    decreases ls.len(),
{
    let ins = ls.insert(k, extra);
    if k == ls.len() {
        assert(ins.drop_last() =~= ls);
    } else {
        assert(ins.drop_last() =~= ls.drop_last().insert(k, extra));
        assert(ins.last() == ls.last());
        lemma_insert_ignored(ls.drop_last(), k, extra);
    }
}

/// Adding a whitespace-only line or a comment line to code never changes its
/// normalized form, hence never its signature.
pub proof fn lemma_signature_ignores_blank_and_comment_lines(
    a: Seq<char>,
    b: Seq<char>,
    k: int,
    extra: Seq<char>,
)
    requires
        0 <= k <= split_lines(a).len(),
        split_lines(b) == split_lines(a).insert(k, extra),
        trim(extra).len() == 0 || starts_with(trim(extra), "//"@) || starts_with(
            trim(extra),
            "#"@,
        ) || starts_with(trim(extra), "/*"@) || starts_with(trim(extra), "*"@),
    ensures
        normalized(b) == normalized(a),
        signature_of(b) == signature_of(a),
{
    lemma_insert_ignored(split_lines(a), k, extra);
}

/// Keyword labels of lowercased code, in a fixed order.
pub open spec fn keywords_of(t: Seq<char>) -> Seq<Seq<char>> {
    security_keywords(t) + logic_keywords(t) + style_keywords(t)
}

pub open spec fn opt(c: bool, label: Seq<char>) -> Seq<Seq<char>> {
    if c {
        seq![label]
    } else {
        Seq::empty()
    }
}

pub open spec fn kw_sql(t: Seq<char>) -> bool {
    has_sub(t, "sql"@) || has_sub(t, "query"@)
}

pub open spec fn kw_credentials(t: Seq<char>) -> bool {
    has_sub(t, "password"@) || has_sub(t, "secret"@) || has_sub(t, "credential"@)
}

pub open spec fn kw_exec(t: Seq<char>) -> bool {
    has_sub(t, "eval"@) || has_sub(t, "exec"@)
}

pub open spec fn kw_network(t: Seq<char>) -> bool {
    has_sub(t, "http"@) || has_sub(t, "request"@) || has_sub(t, "fetch"@)
}

pub open spec fn kw_file(t: Seq<char>) -> bool {
    has_sub(t, "file"@) || has_sub(t, "read"@) || has_sub(t, "write"@)
}

pub open spec fn kw_loop(t: Seq<char>) -> bool {
    has_sub(t, "for "@) || has_sub(t, "while "@) || has_sub(t, "loop"@)
}

pub open spec fn kw_null(t: Seq<char>) -> bool {
    has_sub(t, "unwrap"@) || has_sub(t, ".get("@) || has_sub(t, "expect("@)
}

pub open spec fn kw_panic(t: Seq<char>) -> bool {
    has_sub(t, "panic"@) || has_sub(t, "crash"@)
}

pub open spec fn kw_async(t: Seq<char>) -> bool {
    has_sub(t, "async"@) || has_sub(t, "await"@)
}

pub open spec fn kw_concurrency(t: Seq<char>) -> bool {
    has_sub(t, "mutex"@) || has_sub(t, "lock"@) || has_sub(t, "atomic"@)
}

pub open spec fn kw_clone(t: Seq<char>) -> bool {
    has_sub(t, "clone()"@)
}

pub open spec fn kw_alloc(t: Seq<char>) -> bool {
    has_sub(t, "vec!"@) || has_sub(t, "push("@)
}

pub open spec fn kw_collect(t: Seq<char>) -> bool {
    has_sub(t, "collect()"@)
}

pub open spec fn kw_todo(t: Seq<char>) -> bool {
    has_sub(t, "todo"@) || has_sub(t, "fixme"@)
}

pub open spec fn security_keywords(t: Seq<char>) -> Seq<Seq<char>> {
    opt(kw_sql(t), "sql"@) + opt(kw_credentials(t), "credentials"@) + opt(
        kw_exec(t),
        "code_execution"@,
    ) + opt(kw_network(t), "network"@) + opt(kw_file(t), "file_io"@)
}

pub open spec fn logic_keywords(t: Seq<char>) -> Seq<Seq<char>> {
    opt(kw_loop(t), "loop"@) + opt(kw_null(t), "null_access"@) + opt(kw_panic(t), "panic"@) + opt(
        has_sub(t, "unsafe"@),
        "unsafe"@,
    ) + opt(kw_async(t), "async"@) + opt(kw_concurrency(t), "concurrency"@)
}

pub open spec fn style_keywords(t: Seq<char>) -> Seq<Seq<char>> {
    opt(kw_clone(t), "clone"@) + opt(kw_alloc(t), "allocation"@) + opt(kw_collect(t), "collect"@)
        + opt(kw_todo(t), "todo"@)
}

/// Language guessed from lowercased code by the first group of markers found.
pub open spec fn language_of(t: Seq<char>) -> Seq<char> {
    if has_sub(t, "fn "@) || has_sub(t, "let "@) || has_sub(t, "impl "@) || has_sub(t, "struct "@)
        || has_sub(t, "enum "@) {
        "rust"@
    } else if has_sub(t, "def "@) || has_sub(t, "import "@) || has_sub(t, "class "@) || has_sub(
        t,
        "elif "@,
    ) {
        "python"@
    } else if has_sub(t, "const "@) || has_sub(t, "function "@) || has_sub(t, "=>"@) || has_sub(
        t,
        "export "@,
    ) {
        "javascript"@
    } else if has_sub(t, "func "@) || has_sub(t, "package "@) || has_sub(t, "go "@) {
        "go"@
    } else if has_sub(t, "public class"@) || has_sub(
        t,
        "static void main"@,
    ) {
        "java"@
    } else {
        "unknown"@
    }
}

/// Broad categories of lowercased code; `general` when none applies.
pub open spec fn categories_of(t: Seq<char>) -> Seq<Seq<char>> {
    let c = opt(kw_sql(t) || kw_credentials(t) || kw_exec(t), "security"@) + opt(
        kw_network(t) || kw_file(t),
        "io"@,
    ) + opt(kw_loop(t) || kw_null(t) || kw_panic(t), "logic"@) + opt(
        kw_async(t) || kw_concurrency(t),
        "concurrency"@,
    ) + opt(kw_clone(t) || kw_alloc(t) || kw_collect(t), "performance"@);
    if c.len() == 0 {
        seq!["general"@]
    } else {
        c
    }
}

pub open spec fn strings_view(v: Seq<String>) -> Seq<Seq<char>> {
    v.map_values(|s: String| s@)
}

fn push_if(out: &mut Vec<String>, c: bool, label: &str)
    ensures
        strings_view(final(out)@) == strings_view(old(out)@) + opt(c, label@),
{
    if c {
        out.push(String::from_str(label));
    }
    assert(strings_view(out@) =~= strings_view(old(out)@) + opt(c, label@));
}

#[verifier::rlimit(50)]
fn push_security(out: &mut Vec<String>, t: &Vec<char>)
    ensures
        strings_view(final(out)@) == strings_view(old(out)@) + security_keywords(t@),
{
    push_if(out, contains_str(t, "sql") || contains_str(t, "query"), "sql");
    push_if(
        out,
        contains_str(t, "password") || contains_str(t, "secret") || contains_str(t, "credential"),
        "credentials",
    );
    push_if(out, contains_str(t, "eval") || contains_str(t, "exec"), "code_execution");
    push_if(
        out,
        contains_str(t, "http") || contains_str(t, "request") || contains_str(t, "fetch"),
        "network",
    );
    push_if(
        out,
        contains_str(t, "file") || contains_str(t, "read") || contains_str(t, "write"),
        "file_io",
    );
    assert(strings_view(out@) =~= strings_view(old(out)@) + security_keywords(t@));
}

#[verifier::rlimit(50)]
fn push_logic(out: &mut Vec<String>, t: &Vec<char>)
    ensures
        strings_view(final(out)@) == strings_view(old(out)@) + logic_keywords(t@),
{
    push_if(
        out,
        contains_str(t, "for ") || contains_str(t, "while ") || contains_str(t, "loop"),
        "loop",
    );
    push_if(
        out,
        contains_str(t, "unwrap") || contains_str(t, ".get(") || contains_str(t, "expect("),
        "null_access",
    );
    push_if(out, contains_str(t, "panic") || contains_str(t, "crash"), "panic");
    push_if(out, contains_str(t, "unsafe"), "unsafe");
    push_if(out, contains_str(t, "async") || contains_str(t, "await"), "async");
    push_if(
        out,
        contains_str(t, "mutex") || contains_str(t, "lock") || contains_str(t, "atomic"),
        "concurrency",
    );
    assert(strings_view(out@) =~= strings_view(old(out)@) + logic_keywords(t@));
}

#[verifier::rlimit(50)]
fn push_style(out: &mut Vec<String>, t: &Vec<char>)
    ensures
        strings_view(final(out)@) == strings_view(old(out)@) + style_keywords(t@),
{
    push_if(out, contains_str(t, "clone()"), "clone");
    push_if(out, contains_str(t, "vec!") || contains_str(t, "push("), "allocation");
    push_if(out, contains_str(t, "collect()"), "collect");
    push_if(out, contains_str(t, "todo") || contains_str(t, "fixme"), "todo");
    assert(strings_view(out@) =~= strings_view(old(out)@) + style_keywords(t@));
}

/// Code analysis helpers.
pub struct PatternMatcher;

impl PatternMatcher {
    /// Hex SHA-256 of the normalized code.
    pub fn compute_signature(code: &str) -> (r: String)
        ensures
            r@ == signature_of(code@),
            r@.len() == 64,
    {
        let n = Self::normalize_code(code);
        sha256_hex(n.as_str())
    }

    /// Keeps the non-empty, non-comment lines, trimmed, joined by `'\n'`.
    pub fn normalize_code(code: &str) -> (r: String)
        ensures
            r@ == normalized(code@),
    {
        let lines = split_lines_of(&chars_of(code));
        let ghost ls = lines@.map_values(|l: Vec<char>| l@);
        let mut out = String::new();
        let mut count: usize = 0;
        let mut i: usize = 0;
        while i < lines.len()
            invariant
                i <= lines@.len(),
                ls == lines@.map_values(|l: Vec<char>| l@),
                count == kept_lines(ls.subrange(0, i as int)).len(),
                out@ == join_lines(kept_lines(ls.subrange(0, i as int))),
            decreases lines.len() - i,
        {
            proof {
                assert(ls.subrange(0, i + 1).drop_last() =~= ls.subrange(0, i as int));
                assert(ls.subrange(0, i + 1).last() == lines@[i as int]@);
                lemma_kept_len(ls.subrange(0, i as int));
            }
            let t = trim_chars(&lines[i]);
            if t.len() > 0 && !starts_with_str(&t, "//") && !starts_with_str(&t, "#")
                && !starts_with_str(&t, "/*") && !starts_with_str(&t, "*") && !starts_with_str(
                &t,
                "*/",
            ) {
                let ghost prev = kept_lines(ls.subrange(0, i as int));
                if count > 0 {
                    out.append("\n");
                }
                out.append(string_of(t.as_slice()).as_str());
                count += 1;
                proof {
                    reveal_strlit("\n");
                    let nxt = prev.push(t@);
                    assert(nxt.drop_last() =~= prev);
                    assert(out@ =~= join_lines(nxt));
                }
            }
            i += 1;
        }
        assert(ls.subrange(0, lines@.len() as int) =~= ls);
        out
    }

    /// Keyword labels found in the lowercased code.
    pub fn extract_keywords(code: &str) -> (r: Vec<String>)
        ensures
            strings_view(r@) == keywords_of(lower_of(code@)),
    {
        let lower = to_lower(code);
        let t = chars_of(lower.as_str());
        let mut out: Vec<String> = Vec::new();
        push_security(&mut out, &t);
        push_logic(&mut out, &t);
        push_style(&mut out, &t);
        assert(strings_view(out@) =~= keywords_of(t@));
        out
    }

    /// The language whose markers appear first in the precedence order.
    pub fn detect_language(code: &str) -> (r: String)
        ensures
            r@ == language_of(lower_of(code@)),
    {
        let lower = to_lower(code);
        let t = chars_of(lower.as_str());
        if contains_str(&t, "fn ") || contains_str(&t, "let ") || contains_str(&t, "impl ")
            || contains_str(&t, "struct ") || contains_str(&t, "enum ") {
            String::from_str("rust")
        } else if contains_str(&t, "def ") || contains_str(&t, "import ") || contains_str(
            &t,
            "class ",
        ) || contains_str(&t, "elif ") {
            String::from_str("python")
        } else if contains_str(&t, "const ") || contains_str(&t, "function ") || contains_str(
            &t,
            "=>",
        ) || contains_str(&t, "export ") {
            String::from_str("javascript")
        } else if contains_str(&t, "func ") || contains_str(&t, "package ") || contains_str(
            &t,
            "go ",
        ) {
            String::from_str("go")
        } else if contains_str(&t, "public class") || contains_str(
            &t,
            "static void main",
        ) {
            String::from_str("java")
        } else {
            String::from_str("unknown")
        }
    }

    /// Broad categories of the code, from its keywords.
    pub fn categorize_code(code: &str) -> (r: Vec<String>)
        ensures
            strings_view(r@) == categories_of(lower_of(code@)),
    {
        let lower = to_lower(code);
        let t = chars_of(lower.as_str());
        let sql = contains_str(&t, "sql") || contains_str(&t, "query");
        let cred = contains_str(&t, "password") || contains_str(&t, "secret") || contains_str(
            &t,
            "credential",
        );
        let exec = contains_str(&t, "eval") || contains_str(&t, "exec");
        let net = contains_str(&t, "http") || contains_str(&t, "request") || contains_str(
            &t,
            "fetch",
        );
        let file = contains_str(&t, "file") || contains_str(&t, "read") || contains_str(
            &t,
            "write",
        );
        let lp = contains_str(&t, "for ") || contains_str(&t, "while ") || contains_str(
            &t,
            "loop",
        );
        let null = contains_str(&t, "unwrap") || contains_str(&t, ".get(") || contains_str(
            &t,
            "expect(",
        );
        let panic = contains_str(&t, "panic") || contains_str(&t, "crash");
        let asy = contains_str(&t, "async") || contains_str(&t, "await");
        let conc = contains_str(&t, "mutex") || contains_str(&t, "lock") || contains_str(
            &t,
            "atomic",
        );
        let clone = contains_str(&t, "clone()");
        let alloc = contains_str(&t, "vec!") || contains_str(&t, "push(");
        let collect = contains_str(&t, "collect()");
        let mut out: Vec<String> = Vec::new();
        push_if(&mut out, sql || cred || exec, "security");
        push_if(&mut out, net || file, "io");
        push_if(&mut out, lp || null || panic, "logic");
        push_if(&mut out, asy || conc, "concurrency");
        push_if(&mut out, clone || alloc || collect, "performance");
        let ghost c = strings_view(out@);
        if out.len() == 0 {
            out.push(String::from_str("general"));
            assert(strings_view(out@) =~= seq!["general"@]);
        }
        out
    }
}

/// Number of members of `a` that also occur in `b`.
pub open spec fn shared_count(a: Seq<Seq<char>>, b: Seq<Seq<char>>) -> nat
    decreases a.len(),
{
    if a.len() == 0 {
        0
    } else {
        shared_count(a.drop_last(), b) + if b.contains(a.last()) {
            1nat
        } else {
            0nat
        }
    }
}

proof fn lemma_shared_le(a: Seq<Seq<char>>, b: Seq<Seq<char>>)
    ensures
        shared_count(a, b) <= a.len(),
    decreases a.len(),
{
    if a.len() > 0 {
        lemma_shared_le(a.drop_last(), b);
    }
}

fn contains_string(v: &Vec<String>, s: &String) -> (r: bool)
    ensures
        r == strings_view(v@).contains(s@),
{
    let mut i: usize = 0;
    while i < v.len()
        invariant
            i <= v@.len(),
            forall|k: int| 0 <= k < i ==> v@[k]@ != s@,
        decreases v.len() - i,
    {
        if crate::text::eq_text(v[i].as_str(), s.as_str()) {
            assert(strings_view(v@)[i as int] == s@);
            return true;
        }
        i += 1;
    }
    assert forall|k: int| 0 <= k < strings_view(v@).len() implies strings_view(v@)[k] != s@ by {
        assert(strings_view(v@)[k] == v@[k]@);
    }
    false
}

impl PatternMatcher {
    /// Similarity of two codes as a fraction `(shared, total)`: `(1, 1)`
    /// when their signatures are equal, otherwise the keywords found in both
    /// over the keywords found in either (`(0, 0)` when neither has any).
    #[verifier::rlimit(50)]
    pub fn similarity(code1: &str, code2: &str) -> (r: (u64, u64))
        ensures
            signature_of(code1@) == signature_of(code2@) ==> r == (1u64, 1u64),
            signature_of(code1@) != signature_of(code2@) ==> ({
                let ka = keywords_of(lower_of(code1@));
                let kb = keywords_of(lower_of(code2@));
                &&& r.0 as nat == shared_count(ka, kb)
                &&& r.1 as int == ka.len() + kb.len() - shared_count(ka, kb)
            }),
    {
        let s1 = Self::compute_signature(code1);
        let s2 = Self::compute_signature(code2);
        if crate::text::eq_text(s1.as_str(), s2.as_str()) {
            return (1, 1);
        }
        let ka = Self::extract_keywords(code1);
        let kb = Self::extract_keywords(code2);
        proof {
            lemma_keywords_len(lower_of(code1@));
            lemma_keywords_len(lower_of(code2@));
        }
        jaccard_parts(&ka, &kb)
    }
}

proof fn lemma_keywords_len(t: Seq<char>)
    ensures
        keywords_of(t).len() <= 15,
{
    assert(security_keywords(t).len() <= 5);
    assert(logic_keywords(t).len() <= 6);
    assert(style_keywords(t).len() <= 4);
}

/// Members of `ka` also in `kb`, and members of either.
fn jaccard_parts(ka: &Vec<String>, kb: &Vec<String>) -> (r: (u64, u64))
    requires
        ka@.len() <= 15,
        kb@.len() <= 15,
    ensures
        r.0 as nat == shared_count(strings_view(ka@), strings_view(kb@)),
        r.1 as int == ka@.len() + kb@.len() - shared_count(strings_view(ka@), strings_view(kb@)),
{
    let mut shared: u64 = 0;
    let mut i: usize = 0;
    while i < ka.len()
        invariant
            i <= ka@.len(),
            shared as nat == shared_count(strings_view(ka@).subrange(0, i as int), strings_view(kb@)),
            shared <= i,
        decreases ka.len() - i,
    {
        proof {
            let p = strings_view(ka@).subrange(0, i + 1);
            assert(p.drop_last() =~= strings_view(ka@).subrange(0, i as int));
            assert(p.last() == ka@[i as int]@);
        }
        if contains_string(kb, &ka[i]) {
            shared = shared + 1;
        }
        i += 1;
    }
    proof {
        assert(strings_view(ka@).subrange(0, ka@.len() as int) =~= strings_view(ka@));
        lemma_shared_le(strings_view(ka@), strings_view(kb@));
    }
    (shared, (ka.len() as u64 + kb.len() as u64 - shared) as u64)
}

proof fn lemma_kept_len(ls: Seq<Seq<char>>)
    ensures
        kept_lines(ls).len() <= ls.len(),
        forall|i: int| 0 <= i < kept_lines(ls).len() ==> (#[trigger] kept_lines(ls)[i]).len() > 0,
    decreases ls.len(),
{
    if ls.len() > 0 {
        lemma_kept_len(ls.drop_last());
    }
}

} // verus!
