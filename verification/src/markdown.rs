//! The small Markdown dialect of `markdown` components: headings, rules,
//! bullet and numbered lists, and `**bold**`, `` `code` ``, `[links](url)`
//! and `*italic*` / `_italic_` inside a line.
use vstd::prelude::*;
use vstd::utf8::encode_utf8;
use crate::text::{
    chars_is, chars_of, contains_seq, occurs_at, occurs_at_exec, slice_chars, starts_with_seq,
    string_from_chars,
};

verus! {

/// The first index at or after `i` where the non-empty `p` occurs in `s`.
pub open spec fn find_at(s: Seq<char>, p: Seq<char>, i: int) -> Option<int>
    decreases s.len() - i,
{
    if i < 0 || i >= s.len() {
        None
    } else if occurs_at(s, p, i) {
        Some(i)
    } else {
        find_at(s, p, i + 1)
    }
}

/// Where `find_at` finds `p`, it occurs there, at or after `i`.
pub proof fn lemma_find_at(s: Seq<char>, p: Seq<char>, i: int)
    ensures
        match find_at(s, p, i) {
            Some(k) => i <= k && occurs_at(s, p, k) && 0 <= k < s.len(),
            None => true,
        },
    decreases s.len() - i,
{
    if 0 <= i < s.len() && !occurs_at(s, p, i) {
        lemma_find_at(s, p, i + 1);
    }
}

/// The first index at or after `from` where the non-empty `p` occurs in `s`.
pub fn find_chars(s: &[char], p: &[char], from: usize) -> (r: Option<usize>)
    ensures
        match r {
            Some(k) => find_at(s@, p@, from as int) == Some(k as int),
            None => find_at(s@, p@, from as int) is None,
        },
{
    let mut i = from;
    while i < s.len()
        invariant
            from <= i,
            find_at(s@, p@, from as int) == find_at(s@, p@, i as int),
        decreases s.len() - i,
    {
        if occurs_at_exec(s, p, i) {
            return Some(i);
        }
        i = i + 1;
    }
    None
}

/// How a piece of a line is shown.
#[derive(Debug, Clone, Copy, PartialEq, Eq, Structural)]
pub enum SpanStyle {
    Plain,
    Bold,
    Code,
    Link,
    Italic,
}

/// A piece of a line and how it is shown.
#[derive(Debug)]
pub struct InlineSpan {
    pub style: SpanStyle,
    pub text: String,
}

impl View for InlineSpan {
    type V = (SpanStyle, Seq<char>);

    open spec fn view(&self) -> (SpanStyle, Seq<char>) {
        (self.style, self.text@)
    }
}

/// The views of a list of spans.
pub open spec fn spans_view(v: Seq<InlineSpan>) -> Seq<(SpanStyle, Seq<char>)> {
    v.map_values(|x: InlineSpan| x@)
}

/// `t` as plain text, or nothing where `t` is empty (empty text is not shown).
pub open spec fn plain(t: Seq<char>) -> Seq<(SpanStyle, Seq<char>)> {
    if t.len() > 0 {
        seq![(SpanStyle::Plain, t)]
    } else {
        seq![]
    }
}

/// The pattern `**`.
pub open spec fn double_star() -> Seq<char> {
    seq!['*', '*']
}

/// Where italic text starts in `s`: the first `*` (unless it begins `**`,
/// in which case none) or the first `_`, whichever comes first, with the
/// character that opens it.
pub open spec fn italic_start(s: Seq<char>) -> Option<(char, int)> {
    let star = match find_at(s, seq!['*'], 0) {
        Some(i) => if occurs_at(s, double_star(), i) { None } else { Some(i) },
        None => None,
    };
    let under = find_at(s, seq!['_'], 0);
    match (star, under) {
        (Some(a), Some(u)) => if a <= u { Some(('*', a)) } else { Some(('_', u)) },
        (Some(a), None) => Some(('*', a)),
        (None, Some(u)) => Some(('_', u)),
        (None, None) => None,
    }
}

/// The spans of the line `r`, read from the left: first `**bold**` (with
/// the text before it plain), else `` `code` ``, else a `[link](url)`, else
/// `*italic*` or `_italic_`, else plain text. A `**` or italic mark that is
/// not closed shows the rest of the line plain, from the start of the line:
/// the text before the mark is shown once as plain text and then again at
/// the start of the rest, which is how the form window has always drawn
/// such a line. An unclosed `` ` `` shows what follows it; a `[` that starts
/// no link is shown as it is.
pub open spec fn inline_spans(r: Seq<char>) -> Seq<(SpanStyle, Seq<char>)>
    decreases r.len(),
{
    if r.len() == 0 {
        seq![]
    } else if let Some(st) = find_at(r, double_star(), 0) {
        proof {
            lemma_find_at(r, double_star(), 0);
        }
        let after = r.skip(st + 2);
        match find_at(after, double_star(), 0) {
            Some(e) => {
                proof {
                    lemma_find_at(after, double_star(), 0);
                }
                plain(r.take(st)) + seq![(SpanStyle::Bold, after.take(e))] + inline_spans(
                    after.skip(e + 2),
                )
            },
            None => plain(r.take(st)) + plain(r),
        }
    } else if let Some(st) = find_at(r, seq!['`'], 0) {
        proof {
            lemma_find_at(r, seq!['`'], 0);
        }
        let after = r.skip(st + 1);
        match find_at(after, seq!['`'], 0) {
            Some(e) => {
                proof {
                    lemma_find_at(after, seq!['`'], 0);
                }
                plain(r.take(st)) + seq![(SpanStyle::Code, after.take(e))] + inline_spans(
                    after.skip(e + 1),
                )
            },
            None => plain(r.take(st)) + plain(after),
        }
    } else if let Some(bs) = find_at(r, seq!['['], 0) {
        proof {
            lemma_find_at(r, seq!['['], 0);
        }
        let after_b = r.skip(bs + 1);
        let link = match find_at(after_b, seq![']'], 0) {
            Some(be) => {
                let after_c = after_b.skip(be + 1);
                if after_c.len() > 0 && after_c[0] == '(' {
                    match find_at(after_c, seq![')'], 0) {
                        Some(pe) => Some((after_b.take(be), after_c.skip(pe + 1))),
                        None => None,
                    }
                } else {
                    None
                }
            },
            None => None,
        };
        match link {
            Some((text, next)) => {
                proof {
                    lemma_find_at(after_b, seq![']'], 0);
                    let be = find_at(after_b, seq![']'], 0)->0;
                    lemma_find_at(after_b.skip(be + 1), seq![')'], 0);
                }
                plain(r.take(bs)) + seq![(SpanStyle::Link, text)] + inline_spans(next)
            },
            None => plain(r.take(bs)) + seq![(SpanStyle::Plain, seq!['['])] + inline_spans(after_b),
        }
    } else if let Some((d, st)) = italic_start(r) {
        proof {
            lemma_find_at(r, seq!['*'], 0);
            lemma_find_at(r, seq!['_'], 0);
        }
        let after = r.skip(st + 1);
        match find_at(after, seq![d], 0) {
            Some(e) => {
                proof {
                    lemma_find_at(after, seq![d], 0);
                }
                plain(r.take(st)) + seq![(SpanStyle::Italic, after.take(e))] + inline_spans(
                    after.skip(e + 1),
                )
            },
            None => plain(r.take(st)) + plain(r),
        }
    } else {
        plain(r)
    }
}

/// Where `s` holds no copy of `p`'s first character, `p` is not found.
proof fn lemma_find_absent(s: Seq<char>, p: Seq<char>, i: int)
    requires
        p.len() > 0,
        forall|k: int| 0 <= k < s.len() ==> s[k] != p[0],
    ensures
        find_at(s, p, i) is None,
    decreases s.len() - i,
{
    if 0 <= i < s.len() {
        if occurs_at(s, p, i) {
            assert(s.subrange(i, i + p.len())[0] == s[i]);
        }
        lemma_find_absent(s, p, i + 1);
    }
}

/// A line without `*`, `_`, `` ` `` or `[` is shown as it is, as plain text.
pub proof fn lemma_plain_line(s: Seq<char>)
    requires
        s.len() > 0,
        forall|k: int| 0 <= k < s.len() ==> s[k] != '*' && s[k] != '_' && s[k] != '`' && s[k] != '[',
    ensures
        inline_spans(s) == seq![(SpanStyle::Plain, s)],
{
    lemma_find_absent(s, double_star(), 0);
    lemma_find_absent(s, seq!['`'], 0);
    lemma_find_absent(s, seq!['['], 0);
    lemma_find_absent(s, seq!['*'], 0);
    lemma_find_absent(s, seq!['_'], 0);
}

/// Appends `t` as plain text, unless it is empty.
fn push_plain(out: &mut Vec<InlineSpan>, t: &[char])
    ensures
        spans_view(final(out)@) == spans_view(old(out)@) + plain(t@),
{
    if t.len() > 0 {
        push_span(out, SpanStyle::Plain, t);
    } else {
        assert(spans_view(out@) =~= spans_view(out@) + plain(t@));
    }
}

/// Appends `t` shown in `style`.
fn push_span(out: &mut Vec<InlineSpan>, style: SpanStyle, t: &[char])
    ensures
        spans_view(final(out)@) == spans_view(old(out)@).push((style, t@)),
{
    out.push(InlineSpan { style, text: string_from_chars(t) });
    assert(spans_view(out@) =~= spans_view(old(out)@).push((style, t@)));
}

/// The one-character pattern `c`.
fn char_pattern(c: char) -> (v: Vec<char>)
    ensures
        v@ == seq![c],
{
    let mut v: Vec<char> = Vec::new();
    v.push(c);
    assert(v@ =~= seq![c]);
    v
}

/// The pattern `**`.
fn double_star_pattern() -> (v: Vec<char>)
    ensures
        v@ == double_star(),
{
    let mut v: Vec<char> = Vec::new();
    v.push('*');
    v.push('*');
    assert(v@ =~= double_star());
    v
}

/// Where italic text starts in `s`, and the character that opens it.
fn italic_start_exec(s: &[char]) -> (r: Option<(char, usize)>)
    ensures
        match r {
            Some((d, i)) => italic_start(s@) == Some((d, i as int)),
            None => italic_start(s@) is None,
        },
{
    let star_pat = char_pattern('*');
    let under_pat = char_pattern('_');
    let dstar = double_star_pattern();
    let star = match find_chars(s, star_pat.as_slice(), 0) {
        Some(i) => if occurs_at_exec(s, dstar.as_slice(), i) { None } else { Some(i) },
        None => None,
    };
    let under = find_chars(s, under_pat.as_slice(), 0);
    match (star, under) {
        (Some(a), Some(u)) => if a <= u { Some(('*', a)) } else { Some(('_', u)) },
        (Some(a), None) => Some(('*', a)),
        (None, Some(u)) => Some(('_', u)),
        (None, None) => None,
    }
}

/// One step of reading a line: the spans that `rest` starts with are
/// appended to `out`, and what is left to read is returned.
fn inline_step(out: &mut Vec<InlineSpan>, rest: &[char]) -> (next: Vec<char>)
    requires
        rest.len() > 0,
    ensures
        next.len() < rest.len(),
        spans_view(final(out)@) + inline_spans(next@) == spans_view(old(out)@) + inline_spans(rest@),
{
    let dstar = double_star_pattern();
    let tick = char_pattern('`');
    let open_b = char_pattern('[');
    if let Some(st) = find_chars(rest, dstar.as_slice(), 0) {
        bold_step(out, rest, st)
    } else if let Some(st) = find_chars(rest, tick.as_slice(), 0) {
        code_step(out, rest, st)
    } else if let Some(bs) = find_chars(rest, open_b.as_slice(), 0) {
        link_step(out, rest, bs)
    } else if let Some((d, st)) = italic_start_exec(rest) {
        italic_step(out, rest, d, st)
    } else {
        push_plain(out, rest);
        let next: Vec<char> = Vec::new();
        assert(spans_view(out@) + inline_spans(next@) =~= spans_view(old(out)@) + inline_spans(rest@));
        next
    }
}

/// The step for a line whose first `**` is at `st`.
fn bold_step(out: &mut Vec<InlineSpan>, rest: &[char], st: usize) -> (next: Vec<char>)
    requires
        rest.len() > 0,
        find_at(rest@, double_star(), 0) == Some(st as int),
    ensures
        next.len() < rest.len(),
        spans_view(final(out)@) + inline_spans(next@) == spans_view(old(out)@) + inline_spans(rest@),
{
    let ghost r = rest@;
    proof { lemma_find_at(r, double_star(), 0); }
    let dstar = double_star_pattern();
    let pre = slice_chars(rest, 0, st);
    let after = slice_chars(rest, st + 2, rest.len());
    assert(pre@ =~= r.take(st as int));
    assert(after@ =~= r.skip(st + 2));
    push_plain(out, pre.as_slice());
    if let Some(e) = find_chars(after.as_slice(), dstar.as_slice(), 0) {
        proof { lemma_find_at(after@, double_star(), 0); }
        let inner = slice_chars(after.as_slice(), 0, e);
        push_span(out, SpanStyle::Bold, inner.as_slice());
        let next = slice_chars(after.as_slice(), e + 2, after.len());
        assert(inner@ =~= after@.take(e as int));
        assert(next@ =~= after@.skip(e + 2));
        assert(spans_view(out@) + inline_spans(next@) =~= spans_view(old(out)@) + inline_spans(r));
        next
    } else {
        push_plain(out, rest);
        let next: Vec<char> = Vec::new();
        assert(spans_view(out@) + inline_spans(next@) =~= spans_view(old(out)@) + inline_spans(r));
        next
    }
}

/// The step for a line without `**` whose first `` ` `` is at `st`.
fn code_step(out: &mut Vec<InlineSpan>, rest: &[char], st: usize) -> (next: Vec<char>)
    requires
        rest.len() > 0,
        find_at(rest@, double_star(), 0) is None,
        find_at(rest@, seq!['`'], 0) == Some(st as int),
    ensures
        next.len() < rest.len(),
        spans_view(final(out)@) + inline_spans(next@) == spans_view(old(out)@) + inline_spans(rest@),
{
    let ghost r = rest@;
    proof { lemma_find_at(r, seq!['`'], 0); }
    let tick = char_pattern('`');
    let pre = slice_chars(rest, 0, st);
    let after = slice_chars(rest, st + 1, rest.len());
    assert(pre@ =~= r.take(st as int));
    assert(after@ =~= r.skip(st + 1));
    push_plain(out, pre.as_slice());
    if let Some(e) = find_chars(after.as_slice(), tick.as_slice(), 0) {
        proof { lemma_find_at(after@, seq!['`'], 0); }
        let inner = slice_chars(after.as_slice(), 0, e);
        push_span(out, SpanStyle::Code, inner.as_slice());
        let next = slice_chars(after.as_slice(), e + 1, after.len());
        assert(inner@ =~= after@.take(e as int));
        assert(next@ =~= after@.skip(e + 1));
        assert(spans_view(out@) + inline_spans(next@) =~= spans_view(old(out)@) + inline_spans(r));
        next
    } else {
        push_plain(out, after.as_slice());
        let next: Vec<char> = Vec::new();
        assert(spans_view(out@) + inline_spans(next@) =~= spans_view(old(out)@) + inline_spans(r));
        next
    }
}

/// The step for a line without `**` or `` ` `` whose first `[` is at `bs`.
fn link_step(out: &mut Vec<InlineSpan>, rest: &[char], bs: usize) -> (next: Vec<char>)
    requires
        rest.len() > 0,
        find_at(rest@, double_star(), 0) is None,
        find_at(rest@, seq!['`'], 0) is None,
        find_at(rest@, seq!['['], 0) == Some(bs as int),
    ensures
        next.len() < rest.len(),
        spans_view(final(out)@) + inline_spans(next@) == spans_view(old(out)@) + inline_spans(rest@),
{
    let ghost r = rest@;
    proof { lemma_find_at(r, seq!['['], 0); }
    let close_b = char_pattern(']');
    let close_p = char_pattern(')');
    let pre = slice_chars(rest, 0, bs);
    let after_b = slice_chars(rest, bs + 1, rest.len());
    assert(pre@ =~= r.take(bs as int));
    assert(after_b@ =~= r.skip(bs + 1));
    push_plain(out, pre.as_slice());
    let ghost mid = spans_view(out@);
    if let Some(be) = find_chars(after_b.as_slice(), close_b.as_slice(), 0) {
        proof { lemma_find_at(after_b@, seq![']'], 0); }
        let after_c = slice_chars(after_b.as_slice(), be + 1, after_b.len());
        assert(after_c@ =~= after_b@.skip(be + 1));
        if after_c.len() > 0 && after_c[0] == '(' {
            if let Some(pe) = find_chars(after_c.as_slice(), close_p.as_slice(), 0) {
                proof { lemma_find_at(after_c@, seq![')'], 0); }
                let text = slice_chars(after_b.as_slice(), 0, be);
                push_span(out, SpanStyle::Link, text.as_slice());
                let next = slice_chars(after_c.as_slice(), pe + 1, after_c.len());
                assert(text@ =~= after_b@.take(be as int));
                assert(next@ =~= after_c@.skip(pe + 1));
                assert(spans_view(out@) + inline_spans(next@) =~= spans_view(old(out)@) + inline_spans(r));
                return next;
            }
        }
    }
    let bracket = char_pattern('[');
    push_span(out, SpanStyle::Plain, bracket.as_slice());
    assert(spans_view(out@) + inline_spans(after_b@) =~= spans_view(old(out)@) + inline_spans(r));
    after_b
}

/// The step for a line without `**`, `` ` `` or `[` whose italic text
/// opens with `d` at `st`.
fn italic_step(out: &mut Vec<InlineSpan>, rest: &[char], d: char, st: usize) -> (next: Vec<char>)
    requires
        rest.len() > 0,
        find_at(rest@, double_star(), 0) is None,
        find_at(rest@, seq!['`'], 0) is None,
        find_at(rest@, seq!['['], 0) is None,
        italic_start(rest@) == Some((d, st as int)),
    ensures
        next.len() < rest.len(),
        spans_view(final(out)@) + inline_spans(next@) == spans_view(old(out)@) + inline_spans(rest@),
{
    let ghost r = rest@;
    proof {
        lemma_find_at(r, seq!['*'], 0);
        lemma_find_at(r, seq!['_'], 0);
    }
    let dpat = char_pattern(d);
    let pre = slice_chars(rest, 0, st);
    let after = slice_chars(rest, st + 1, rest.len());
    assert(pre@ =~= r.take(st as int));
    assert(after@ =~= r.skip(st + 1));
    push_plain(out, pre.as_slice());
    if let Some(e) = find_chars(after.as_slice(), dpat.as_slice(), 0) {
        proof { lemma_find_at(after@, seq![d], 0); }
        let inner = slice_chars(after.as_slice(), 0, e);
        push_span(out, SpanStyle::Italic, inner.as_slice());
        let next = slice_chars(after.as_slice(), e + 1, after.len());
        assert(inner@ =~= after@.take(e as int));
        assert(next@ =~= after@.skip(e + 1));
        assert(spans_view(out@) + inline_spans(next@) =~= spans_view(old(out)@) + inline_spans(r));
        next
    } else {
        push_plain(out, rest);
        let next: Vec<char> = Vec::new();
        assert(spans_view(out@) + inline_spans(next@) =~= spans_view(old(out)@) + inline_spans(r));
        next
    }
}

/// `find_at` gives the first place, at or after `i`, where `p` occurs.
proof fn lemma_find_at_first(s: Seq<char>, p: Seq<char>, i: int, k: int)
    requires
        0 <= i <= k < s.len(),
        occurs_at(s, p, k),
        forall|j: int| i <= j < k ==> !occurs_at(s, p, j),
    ensures
        find_at(s, p, i) == Some(k),
    decreases k - i,
{
    if i < k {
        lemma_find_at_first(s, p, i + 1, k);
    }
}

/// In `x ++ "**" ++ y`, where `x` followed by one `*` holds no `**`, the
/// first `**` is the one right after `x`.
proof fn lemma_first_double_star(x: Seq<char>, y: Seq<char>)
    requires
        !contains_seq(x.push('*'), double_star()),
    ensures
        find_at(x + double_star() + y, double_star(), 0) == Some(x.len() as int),
{
    let s = x + double_star() + y;
    let xs = x.push('*');
    assert(s.subrange(x.len() as int, x.len() + 2int) =~= double_star());
    assert forall|j: int| 0 <= j < x.len() implies !occurs_at(s, double_star(), j) by {
        if occurs_at(s, double_star(), j) {
            assert(xs.subrange(j, j + 2) =~= s.subrange(j, j + 2)) by {
                assert forall|t: int| 0 <= t < 2 implies #[trigger] xs.subrange(j, j + 2)[t] == s.subrange(j, j + 2)[t] by {
                    if j + t < x.len() {
                        assert(xs[j + t] == x[j + t]);
                        assert(s[j + t] == x[j + t]);
                    } else {
                        assert(xs[j + t] == '*');
                        assert(s[j + t] == double_star()[0]);
                    }
                }
            }
            assert(occurs_at(xs, double_star(), j));
        }
    }
    lemma_find_at_first(s, double_star(), 0, x.len() as int);
}

/// A line that starts with plain text `p`, then `**b**`, then `rest` shows
/// `p` plain, `b` bold, and then `rest` read as a line of its own, so that
/// the text after a bold span keeps its own code, links, italics and bold.
/// (Neither `p` nor `b`, each followed by one `*`, holds a `**`.)
pub proof fn lemma_bold_then_rest(p: Seq<char>, b: Seq<char>, rest: Seq<char>)
    requires
        !contains_seq(p.push('*'), seq!['*', '*']),
        !contains_seq(b.push('*'), seq!['*', '*']),
    ensures
        inline_spans(p + seq!['*', '*'] + b + seq!['*', '*'] + rest)
            == plain(p) + seq![(SpanStyle::Bold, b)] + inline_spans(rest),
{
    let ds = double_star();
    assert(ds =~= seq!['*', '*']);
    let tail = b + ds + rest;
    let line = p + ds + b + ds + rest;
    assert(line =~= p + ds + tail);
    lemma_first_double_star(p, tail);
    lemma_first_double_star(b, rest);
    let st = p.len() as int;
    let after = line.skip(st + 2);
    assert(after =~= tail);
    assert(line.take(st) =~= p);
    assert(tail.take(b.len() as int) =~= b);
    assert(tail.skip(b.len() + 2int) =~= rest);
    assert(line.len() > 0);
}

/// The spans of one line of Markdown, in order.
pub fn inline_markdown(line: &[char]) -> (r: Vec<InlineSpan>)
    ensures
        spans_view(r@) == inline_spans(line@),
{
    let mut out: Vec<InlineSpan> = Vec::new();
    let mut rest: Vec<char> = slice_chars(line, 0, line.len());
    assert(rest@ =~= line@);
    assert(spans_view(out@) + inline_spans(rest@) =~= inline_spans(line@));
    while rest.len() > 0
        invariant
            spans_view(out@) + inline_spans(rest@) == inline_spans(line@),
        decreases rest.len(),
    {
        rest = inline_step(&mut out, rest.as_slice());
    }
    assert(spans_view(out@) + inline_spans(rest@) =~= spans_view(out@));
    out
}

/// The number of leading ASCII digits of `s`.
pub open spec fn leading_digits(s: Seq<char>) -> nat
    decreases s.len(),
{
    if s.len() > 0 && '0' <= s[0] <= '9' {
        1 + leading_digits(s.drop_first())
    } else {
        0
    }
}

/// Where a numbered list item's text starts, less two: `n` for a line of
/// `n >= 1` digits, a `.` and a space.
pub open spec fn numbered_prefix(line: Seq<char>) -> Option<int> {
    let n = leading_digits(line) as int;
    if n >= 1 && line.len() >= 2 && n <= line.len() - 2 && line[n] == '.' && line[n + 1] == ' ' {
        Some(n)
    } else {
        None
    }
}

/// The number of leading ASCII digits of `s`.
fn leading_digits_exec(s: &[char]) -> (n: usize)
    ensures
        n == leading_digits(s@),
        n <= s.len(),
{
    let mut n: usize = 0;
    assert(s@.skip(0) =~= s@);
    while n < s.len() && '0' <= s[n] && s[n] <= '9'
        invariant
            n <= s.len(),
            leading_digits(s@) == n + leading_digits(s@.skip(n as int)),
        decreases s.len() - n,
    {
        assert(s@.skip(n as int).drop_first() =~= s@.skip(n + 1));
        n = n + 1;
    }
    proof {
        if n < s.len() {
            assert(s@.skip(n as int)[0] == s@[n as int]);
        }
    }
    n
}

/// Where a numbered list item's text starts, less two.
fn numbered_prefix_exec(line: &[char]) -> (r: Option<usize>)
    ensures
        match r {
            Some(n) => numbered_prefix(line@) == Some(n as int),
            None => numbered_prefix(line@) is None,
        },
{
    assert(line@.skip(0) =~= line@);
    let n = leading_digits_exec(line);
    if n >= 1 && line.len() >= 2 && n <= line.len() - 2 && line[n] == '.' && line[n + 1] == ' ' {
        Some(n)
    } else {
        None
    }
}

/// The text of a numbered list item (`12. text`), or `None` where the line
/// is not one.
pub fn strip_numbered_list(line: &str) -> (r: Option<String>)
    ensures
        match r {
            Some(t) => numbered_prefix(line@) is Some && t@ == line@.skip(numbered_prefix(line@)->0 + 2),
            None => numbered_prefix(line@) is None,
        },
{
    let cs = chars_of(line);
    match numbered_prefix_exec(cs.as_slice()) {
        Some(n) => {
            let rest = slice_chars(cs.as_slice(), n + 2, cs.len());
            assert(rest@ =~= line@.skip(n + 2));
            Some(string_from_chars(rest.as_slice()))
        },
        None => None,
    }
}

/// The first index at or after `i` of the byte `x` in `b`.
pub open spec fn find_byte(b: Seq<u8>, x: u8, i: int) -> Option<int>
    decreases b.len() - i,
{
    if i < 0 || i >= b.len() {
        None
    } else if b[i] == x {
        Some(i)
    } else {
        find_byte(b, x, i + 1)
    }
}

/// Where italic text starts in the UTF-8 text `b`, as a byte index, and
/// the mark that opens it: the first `*` (unless `**` starts there, in which
/// case none) or the first `_`, whichever comes first.
pub open spec fn italic_start_bytes(b: Seq<u8>) -> Option<(char, int)> {
    let star = match find_byte(b, 0x2a, 0) {
        Some(i) => if i < b.len() - 1 && b[i + 1] == 0x2a { None } else { Some(i) },
        None => None,
    };
    let under = find_byte(b, 0x5f, 0);
    match (star, under) {
        (Some(a), Some(u)) => if a <= u { Some(('*', a)) } else { Some(('_', u)) },
        (Some(a), None) => Some(('*', a)),
        (None, Some(u)) => Some(('_', u)),
        (None, None) => None,
    }
}

/// The first index of the byte `x` in `b`.
fn find_byte_exec(b: &[u8], x: u8) -> (r: Option<usize>)
    ensures
        match r {
            Some(i) => find_byte(b@, x, 0) == Some(i as int),
            None => find_byte(b@, x, 0) is None,
        },
{
    let mut i: usize = 0;
    while i < b.len()
        invariant
            find_byte(b@, x, 0) == find_byte(b@, x, i as int),
        decreases b.len() - i,
    {
        if b[i] == x {
            return Some(i);
        }
        i = i + 1;
    }
    None
}

/// Where italic text starts in `text` (a byte index), with the mark (`*` or
/// `_`) that opens it.
pub fn find_italic_start(text: &str) -> (r: Option<(&'static str, usize)>)
    ensures
        match r {
            Some((d, i)) => match italic_start_bytes(encode_utf8(text@)) {
                Some((c, j)) => j == i as int && d@ == seq![c],
                None => false,
            },
            None => italic_start_bytes(encode_utf8(text@)) is None,
        },
{
    let b = text.as_bytes();
    let star = match find_byte_exec(b, 0x2a) {
        Some(i) => if i < b.len() - 1 && b[i + 1] == 0x2a { None } else { Some(i) },
        None => None,
    };
    let under = find_byte_exec(b, 0x5f);
    proof {
        reveal_strlit("*");
        reveal_strlit("_");
    }
    match (star, under) {
        (Some(a), Some(u)) => if a <= u { Some(("*", a)) } else { Some(("_", u)) },
        (Some(a), None) => Some(("*", a)),
        (None, Some(u)) => Some(("_", u)),
        (None, None) => None,
    }
}

/// One line of a Markdown text, as it is laid out.
#[derive(Debug)]
pub enum MarkdownBlock {
    /// `#`, `##` or `###` and a space: a heading of level 1, 2 or 3.
    Heading { level: u8, text: String },
    /// `---`, `***` or `___`: a horizontal rule.
    Rule,
    /// An empty line: some space.
    Blank,
    /// `- ` or `* ` and the item.
    Bullet { spans: Vec<InlineSpan> },
    /// Digits, `.`, a space and the item; `number` is the digits and the `.`.
    Numbered { number: String, spans: Vec<InlineSpan> },
    /// Any other line.
    Paragraph { spans: Vec<InlineSpan> },
}

/// The view of a `MarkdownBlock`.
pub enum BlockView {
    Heading(u8, Seq<char>),
    Rule,
    Blank,
    Bullet(Seq<(SpanStyle, Seq<char>)>),
    Numbered(Seq<char>, Seq<(SpanStyle, Seq<char>)>),
    Paragraph(Seq<(SpanStyle, Seq<char>)>),
}

impl View for MarkdownBlock {
    type V = BlockView;

    open spec fn view(&self) -> BlockView {
        match self {
            MarkdownBlock::Heading { level, text } => BlockView::Heading(*level, text@),
            MarkdownBlock::Rule => BlockView::Rule,
            MarkdownBlock::Blank => BlockView::Blank,
            MarkdownBlock::Bullet { spans } => BlockView::Bullet(spans_view(spans@)),
            MarkdownBlock::Numbered { number, spans } => BlockView::Numbered(number@, spans_view(spans@)),
            MarkdownBlock::Paragraph { spans } => BlockView::Paragraph(spans_view(spans@)),
        }
    }
}

/// `line` without the prefix `p`, where it begins with `p`.
pub open spec fn strip_prefix(line: Seq<char>, p: Seq<char>) -> Option<Seq<char>> {
    if starts_with_seq(line, p) {
        Some(line.skip(p.len() as int))
    } else {
        None
    }
}

/// How one line of Markdown is laid out.
pub open spec fn block_spec(line: Seq<char>) -> BlockView {
    if let Some(h) = strip_prefix(line, "### "@) {
        BlockView::Heading(3, h)
    } else if let Some(h) = strip_prefix(line, "## "@) {
        BlockView::Heading(2, h)
    } else if let Some(h) = strip_prefix(line, "# "@) {
        BlockView::Heading(1, h)
    } else if line == "---"@ || line == "***"@ || line == "___"@ {
        BlockView::Rule
    } else if line.len() == 0 {
        BlockView::Blank
    } else if let Some(item) = strip_prefix(line, "- "@) {
        BlockView::Bullet(inline_spans(item))
    } else if let Some(item) = strip_prefix(line, "* "@) {
        BlockView::Bullet(inline_spans(item))
    } else if let Some(n) = numbered_prefix(line) {
        BlockView::Numbered(line.take(n + 1), inline_spans(line.skip(n + 2)))
    } else {
        BlockView::Paragraph(inline_spans(line))
    }
}

/// `line` without the prefix `p`, where it begins with `p`.
fn strip_prefix_exec(line: &[char], p: &str) -> (r: Option<Vec<char>>)
    ensures
        match r {
            Some(v) => strip_prefix(line@, p@) == Some(v@),
            None => strip_prefix(line@, p@) is None,
        },
{
    let pc = chars_of(p);
    if occurs_at_exec(line, pc.as_slice(), 0) {
        let v = slice_chars(line, pc.len(), line.len());
        assert(v@ =~= line@.skip(p@.len() as int));
        Some(v)
    } else {
        None
    }
}

/// How one line of Markdown is laid out.
pub fn markdown_block(line: &[char]) -> (r: MarkdownBlock)
    ensures
        r@ == block_spec(line@),
{
    if let Some(h) = strip_prefix_exec(line, "### ") {
        MarkdownBlock::Heading { level: 3, text: string_from_chars(h.as_slice()) }
    } else if let Some(h) = strip_prefix_exec(line, "## ") {
        MarkdownBlock::Heading { level: 2, text: string_from_chars(h.as_slice()) }
    } else if let Some(h) = strip_prefix_exec(line, "# ") {
        MarkdownBlock::Heading { level: 1, text: string_from_chars(h.as_slice()) }
    } else if chars_is(line, "---") || chars_is(line, "***") || chars_is(line, "___") {
        MarkdownBlock::Rule
    } else if line.len() == 0 {
        MarkdownBlock::Blank
    } else if let Some(item) = strip_prefix_exec(line, "- ") {
        MarkdownBlock::Bullet { spans: inline_markdown(item.as_slice()) }
    } else if let Some(item) = strip_prefix_exec(line, "* ") {
        MarkdownBlock::Bullet { spans: inline_markdown(item.as_slice()) }
    } else if let Some(n) = numbered_prefix_exec(line) {
        let number = slice_chars(line, 0, n + 1);
        let text = slice_chars(line, n + 2, line.len());
        assert(number@ =~= line@.take(n + 1));
        assert(text@ =~= line@.skip(n + 2));
        MarkdownBlock::Numbered {
            number: string_from_chars(number.as_slice()),
            spans: inline_markdown(text.as_slice()),
        }
    } else {
        MarkdownBlock::Paragraph { spans: inline_markdown(line) }
    }
}

/// `t` without one final carriage return.
pub open spec fn strip_cr(t: Seq<char>) -> Seq<char> {
    if t.len() > 0 && t.last() == '\r' {
        t.drop_last()
    } else {
        t
    }
}

/// The lines of `s` (as `str::lines`): split after each `\n`, which is
/// dropped with a `\r` just before it; a final line ending adds no empty line.
pub open spec fn lines_spec(s: Seq<char>) -> Seq<Seq<char>>
    decreases s.len(),
{
    if s.len() == 0 {
        seq![]
    } else if let Some(i) = find_at(s, seq!['\n'], 0) {
        proof {
            lemma_find_at(s, seq!['\n'], 0);
        }
        seq![strip_cr(s.take(i))] + lines_spec(s.skip(i + 1))
    } else {
        seq![s]
    }
}

/// The views of a list of blocks.
pub open spec fn blocks_view(v: Seq<MarkdownBlock>) -> Seq<BlockView> {
    v.map_values(|b: MarkdownBlock| b@)
}

/// How a Markdown text is laid out, line by line.
pub fn markdown_blocks(content: &str) -> (r: Vec<MarkdownBlock>)
    ensures
        blocks_view(r@) == lines_spec(content@).map_values(|l: Seq<char>| block_spec(l)),
{
    let newline = char_pattern('\n');
    let mut out: Vec<MarkdownBlock> = Vec::new();
    let mut rest = chars_of(content);
    assert(blocks_view(out@) + lines_spec(rest@).map_values(|l: Seq<char>| block_spec(l))
        =~= lines_spec(content@).map_values(|l: Seq<char>| block_spec(l)));
    while rest.len() > 0
        invariant
            newline@ == seq!['\n'],
            blocks_view(out@) + lines_spec(rest@).map_values(|l: Seq<char>| block_spec(l))
                == lines_spec(content@).map_values(|l: Seq<char>| block_spec(l)),
        decreases rest.len(),
    {
        let ghost r = rest@;
        let ghost before = blocks_view(out@);
        match find_chars(rest.as_slice(), newline.as_slice(), 0) {
            Some(i) => {
                proof { lemma_find_at(r, seq!['\n'], 0); }
                let end = if i > 0 && rest[i - 1] == '\r' { i - 1 } else { i };
                let line = slice_chars(rest.as_slice(), 0, end);
                assert(line@ =~= strip_cr(r.take(i as int)));
                let block = markdown_block(line.as_slice());
                out.push(block);
                let next = slice_chars(rest.as_slice(), i + 1, rest.len());
                assert(next@ =~= r.skip(i + 1));
                assert(blocks_view(out@) =~= before.push(block_spec(line@)));
                assert(lines_spec(r) == seq![line@] + lines_spec(next@));
                assert(blocks_view(out@) + lines_spec(next@).map_values(|l: Seq<char>| block_spec(l))
                    =~= before + lines_spec(r).map_values(|l: Seq<char>| block_spec(l)));
                rest = next;
            },
            None => {
                let block = markdown_block(rest.as_slice());
                out.push(block);
                assert(blocks_view(out@) =~= before.push(block_spec(r)));
                let next: Vec<char> = Vec::new();
                assert(blocks_view(out@) + lines_spec(next@).map_values(|l: Seq<char>| block_spec(l))
                    =~= before + lines_spec(r).map_values(|l: Seq<char>| block_spec(l)));
                rest = next;
            },
        }
    }
    assert(blocks_view(out@) + lines_spec(rest@).map_values(|l: Seq<char>| block_spec(l)) =~= blocks_view(out@));
    out
}

} // verus!
