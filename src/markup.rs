use vstd::prelude::*;

use crate::chunker::views;
use crate::tables::{aligned_tables, convert_markdown_tables_to_aligned};
use crate::text::{chars_of, occurs_at, starts_with, string_of};

verus! {

/// The platform's rich-text tags that survive escaping.
pub open spec fn allowed_tags() -> Seq<Seq<char>> {
    seq![
        seq!['<', 'b', '>'],
        seq!['<', '/', 'b', '>'],
        seq!['<', 'i', '>'],
        seq!['<', '/', 'i', '>'],
        seq!['<', 'u', '>'],
        seq!['<', '/', 'u', '>'],
        seq!['<', 's', '>'],
        seq!['<', '/', 's', '>'],
        seq!['<', 'c', 'o', 'd', 'e', '>'],
        seq!['<', '/', 'c', 'o', 'd', 'e', '>'],
        seq!['<', 'p', 'r', 'e', '>'],
        seq!['<', '/', 'p', 'r', 'e', '>'],
    ]
}

fn tag_table() -> (r: Vec<Vec<char>>)
    ensures
        views(r@) == allowed_tags(),
{
    let r = vec![
        vec!['<', 'b', '>'],
        vec!['<', '/', 'b', '>'],
        vec!['<', 'i', '>'],
        vec!['<', '/', 'i', '>'],
        vec!['<', 'u', '>'],
        vec!['<', '/', 'u', '>'],
        vec!['<', 's', '>'],
        vec!['<', '/', 's', '>'],
        vec!['<', 'c', 'o', 'd', 'e', '>'],
        vec!['<', '/', 'c', 'o', 'd', 'e', '>'],
        vec!['<', 'p', 'r', 'e', '>'],
        vec!['<', '/', 'p', 'r', 'e', '>'],
    ];
    assert(views(r@) =~= allowed_tags());
    r
}

/// The length of the first allowed tag, from index `j` of the table on, that
/// starts `s`; 0 if none does.
pub open spec fn tag_from(s: Seq<char>, j: int) -> nat
    decreases allowed_tags().len() - j,
{
    if j < 0 || j >= allowed_tags().len() {
        0
    } else if starts_with(s, allowed_tags()[j]) {
        allowed_tags()[j].len()
    } else {
        tag_from(s, j + 1)
    }
}

/// The length of the allowed tag that starts `s`, or 0.
pub open spec fn tag_len(s: Seq<char>) -> nat {
    tag_from(s, 0)
}

pub open spec fn escape_char(c: char) -> Seq<char> {
    if c == '&' {
        seq!['&', 'a', 'm', 'p', ';']
    } else if c == '<' {
        seq!['&', 'l', 't', ';']
    } else if c == '>' {
        seq!['&', 'g', 't', ';']
    } else {
        seq![c]
    }
}

/// `s` with `&`, `<` and `>` escaped as HTML entities, except inside the
/// allowed tags, which are kept as they are.
pub open spec fn escaped(s: Seq<char>) -> Seq<char>
    decreases s.len(),
{
    if s.len() == 0 {
        seq![]
    } else if 0 < tag_len(s) <= s.len() {
        s.take(tag_len(s) as int) + escaped(s.skip(tag_len(s) as int))
    } else {
        escape_char(s[0]) + escaped(s.skip(1))
    }
}

proof fn lemma_tag_from_bound(s: Seq<char>, j: int)
    ensures
        tag_from(s, j) <= s.len(),
    decreases allowed_tags().len() - j,
{
    if 0 <= j < allowed_tags().len() && !starts_with(s, allowed_tags()[j]) {
        lemma_tag_from_bound(s, j + 1);
    }
}

/// The length of the allowed tag at index `i` of `cs`, or 0.
fn tag_at(cs: &Vec<char>, i: usize, tags: &Vec<Vec<char>>) -> (r: usize)
    requires
        i <= cs@.len(),
        views(tags@) == allowed_tags(),
    ensures
        r == tag_len(cs@.skip(i as int)),
{
    let mut j: usize = 0;
    while j < tags.len()
        invariant
            i <= cs@.len(),
            views(tags@) == allowed_tags(),
            j <= tags@.len(),
            tag_from(cs@.skip(i as int), 0) == tag_from(cs@.skip(i as int), j as int),
        decreases tags@.len() - j,
    {
        assert(tags@[j as int]@ == allowed_tags()[j as int]);
        if occurs_at(cs, i, &tags[j]) {
            return tags[j].len();
        }
        j = j + 1;
    }
    0
}

fn push_escaped(out: &mut Vec<char>, c: char)
    ensures
        final(out)@ == old(out)@ + escape_char(c),
{
    if c == '&' {
        out.push('&');
        out.push('a');
        out.push('m');
        out.push('p');
        out.push(';');
    } else if c == '<' {
        out.push('&');
        out.push('l');
        out.push('t');
        out.push(';');
    } else if c == '>' {
        out.push('&');
        out.push('g');
        out.push('t');
        out.push(';');
    } else {
        out.push(c);
    }
    assert(final(out)@ =~= old(out)@ + escape_char(c));
}

/// Escapes `&`, `<` and `>` as HTML entities, keeping the platform's
/// allowed tags (`<b>`, `<i>`, `<u>`, `<s>`, `<code>`, `<pre>` and their
/// closing forms) intact.
pub fn escape_html_except_tags(text: &str) -> (r: String)
    ensures
        r@ == escaped(text@),
{
    let cs = chars_of(text);
    let tags = tag_table();
    let mut out: Vec<char> = Vec::new();
    let mut i: usize = 0;
    assert(cs@.skip(0) =~= cs@);
    while i < cs.len()
        invariant
            i <= cs@.len(),
            views(tags@) == allowed_tags(),
            out@ + escaped(cs@.skip(i as int)) == escaped(cs@),
        decreases cs@.len() - i,
    {
        let ghost rest = cs@.skip(i as int);
        let k = tag_at(&cs, i, &tags);
        proof {
            lemma_tag_from_bound(rest, 0);
        }
        let n = cs.len();
        if k > 0 {
            let mut j: usize = 0;
            let ghost base = out@;
            while j < k
                invariant
                    n == cs@.len(),
                    i + k <= n,
                    j <= k,
                    out@ == base + cs@.subrange(i as int, i + j),
                decreases k - j,
            {
                out.push(cs[i + j]);
                j = j + 1;
                assert(out@ =~= base + cs@.subrange(i as int, i + j));
            }
            assert(cs@.subrange(i as int, i + k) =~= rest.take(k as int));
            assert(rest.skip(k as int) =~= cs@.skip(i + k));
            assert(out@ + escaped(cs@.skip(i + k)) =~= base + escaped(rest));
            i = i + k;
        } else {
            let ghost base = out@;
            push_escaped(&mut out, cs[i]);
            assert(rest.skip(1) =~= cs@.skip(i + 1));
            assert(rest[0] == cs@[i as int]);
            assert(out@ + escaped(cs@.skip(i + 1)) =~= base + escaped(rest));
            i = i + 1;
        }
    }
    assert(cs@.skip(i as int) =~= Seq::<char>::empty());
    assert(out@ + Seq::<char>::empty() =~= out@);
    assert(cs@.skip(0) =~= cs@);
    string_of(out.as_slice())
}

/// Whether `regex::Regex::new` accepts a pattern.
pub uninterp spec fn regex_valid(pattern: Seq<char>) -> bool;

/// What `regex::Regex::replace_all` makes of `text`: every non-overlapping
/// match of `pattern` replaced by `rep`, with `$1` standing for the first
/// capture group.
pub uninterp spec fn regex_replaced(pattern: Seq<char>, text: Seq<char>, rep: Seq<char>) -> Seq<
    char,
>;

/// Relies on `regex::Regex::new`, which fails only on an invalid pattern, and
/// on `regex::Regex::replace_all`, whose result depends on the pattern, the
/// text and the replacement alone.
#[verifier::external_body]
fn replace_all_matches(pattern: &str, text: &str, rep: &str) -> (r: Option<String>)
    ensures
        r is Some <==> regex_valid(pattern@),
        r matches Some(s) ==> s@ == regex_replaced(pattern@, text@, rep@),
{
    match regex::Regex::new(pattern) {
        Ok(re) => Some(re.replace_all(text, rep).into_owned()),
        Err(_) => None,
    }
}

/// One rewriting rule applied to `s`; a pattern that does not compile leaves
/// `s` as it is.
pub open spec fn rewrite(pattern: Seq<char>, rep: Seq<char>, s: Seq<char>) -> Seq<char> {
    if regex_valid(pattern) {
        regex_replaced(pattern, s, rep)
    } else {
        s
    }
}

fn apply_rule(pattern: &str, rep: &str, s: String) -> (r: String)
    ensures
        r@ == rewrite(pattern@, rep@, s@),
{
    match replace_all_matches(pattern, s.as_str(), rep) {
        Some(t) => t,
        None => s,
    }
}

/// The inline rules, in the order they apply: headings, bold, underline,
/// italics with `*` and with `_`, strike-through, fenced code blocks.
pub open spec fn inline_rules(s: Seq<char>) -> Seq<char> {
    let s1 = rewrite(r"(?m)^#{1,6} (.+)$"@, "<b>$1</b>"@, s);
    let s2 = rewrite(r"\*\*([^*]+)\*\*"@, "<b>$1</b>"@, s1);
    let s3 = rewrite(r"__([^_]+)__"@, "<u>$1</u>"@, s2);
    let s4 = rewrite(r"\*([^*]+)\*"@, "<i>$1</i>"@, s3);
    let s5 = rewrite(r"_([^_]+)_"@, "<i>$1</i>"@, s4);
    let s6 = rewrite(r"~~([^~]+)~~"@, "<s>$1</s>"@, s5);
    rewrite(r"(?s)```(?:\w+)?\n?(.*?)```"@, "<pre>$1</pre>"@, s6)
}

/// The platform's rich-text form of a markdown text.
pub open spec fn markdown_html(s: Seq<char>) -> Seq<char> {
    let t = aligned_tables(inline_rules(s));
    escaped(rewrite(r"`([^`]+)`"@, "<code>$1</code>"@, t))
}

/// Converts markdown to the platform's HTML subset: headings become bold
/// lines; `**bold**`, `__underline__`, `*italic*`, `_italic_`,
/// `~~strike~~`, fenced code blocks and `inline code` become tags; tables
/// outside code blocks become aligned text in `<pre>` tags; and the rest is
/// HTML-escaped, the generated tags excepted.
pub fn format_telegram_markdown(text: &str) -> (r: String)
    ensures
        r@ == markdown_html(text@),
{
    let mut s = text.to_owned();
    s = apply_rule(r"(?m)^#{1,6} (.+)$", "<b>$1</b>", s);
    s = apply_rule(r"\*\*([^*]+)\*\*", "<b>$1</b>", s);
    s = apply_rule(r"__([^_]+)__", "<u>$1</u>", s);
    s = apply_rule(r"\*([^*]+)\*", "<i>$1</i>", s);
    s = apply_rule(r"_([^_]+)_", "<i>$1</i>", s);
    s = apply_rule(r"~~([^~]+)~~", "<s>$1</s>", s);
    s = apply_rule(r"(?s)```(?:\w+)?\n?(.*?)```", "<pre>$1</pre>", s);
    s = convert_markdown_tables_to_aligned(s.as_str());
    s = apply_rule(r"`([^`]+)`", "<code>$1</code>", s);
    escape_html_except_tags(s.as_str())
}

} // verus!
