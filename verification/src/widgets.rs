//! What the form's widgets decide, apart from drawing: the label a dropdown
//! shows, how a checkbox toggles a choice, the summary of a multi-select,
//! how typed tags are added, which files a file dialog offers, what a button
//! does, and where an image is read from.
use vstd::prelude::*;
use crate::form::FormResult;
use crate::markdown::{find_at, find_chars, lemma_find_at};
use crate::protocol::{ButtonAction, SelectOption, SelectOptionView};
use crate::text::{
    chars_is, chars_of, decimal, occurs_at_exec, push_chars, push_decimal, push_str, slice_chars,
    starts_with_seq, string_from_chars, string_is, to_owned_string, trim_chars, trim_seq,
    trim_start_char, trim_start_char_chars,
};

verus! {

/// The views of a list of options.
pub open spec fn options_view(v: Seq<SelectOption>) -> Seq<SelectOptionView> {
    v.map_values(|o: SelectOption| o@)
}

/// The label of the first option whose value is `value`, or `-- Select --`.
pub open spec fn option_label(options: Seq<SelectOptionView>, value: Seq<char>) -> Seq<char>
    decreases options.len(),
{
    if options.len() == 0 {
        "-- Select --"@
    } else if options[0].value == value {
        options[0].label
    } else {
        option_label(options.drop_first(), value)
    }
}

/// The text a dropdown shows for its current value.
pub fn dropdown_label(options: &Vec<SelectOption>, value: &str) -> (r: String)
    ensures
        r@ == option_label(options_view(options@), value@),
{
    let ghost ov = options_view(options@);
    let mut i: usize = 0;
    assert(ov.skip(0) =~= ov);
    while i < options.len()
        invariant
            i <= options.len(),
            ov == options_view(options@),
            option_label(ov, value@) == option_label(ov.skip(i as int), value@),
        decreases options.len() - i,
    {
        assert(ov.skip(i as int)[0] == options@[i as int]@);
        if string_is(&options[i].value, value) {
            return options[i].label.clone();
        }
        assert(ov.skip(i as int).drop_first() =~= ov.skip(i + 1));
        i = i + 1;
    }
    to_owned_string("-- Select --")
}

/// `sel` without any copy of `v`.
pub open spec fn without(sel: Seq<Seq<char>>, v: Seq<char>) -> Seq<Seq<char>>
    decreases sel.len(),
{
    if sel.len() == 0 {
        sel
    } else if sel.last() == v {
        without(sel.drop_last(), v)
    } else {
        without(sel.drop_last(), v).push(sel.last())
    }
}

/// The choices after the option `v` was checked (added at the end unless
/// already chosen) or unchecked (every copy removed).
pub open spec fn toggled(sel: Seq<Seq<char>>, v: Seq<char>, checked: bool) -> Seq<Seq<char>> {
    if checked {
        if sel.contains(v) { sel } else { sel.push(v) }
    } else {
        without(sel, v)
    }
}

/// Whether `v` is one of `sel`.
fn contains_string(sel: &Vec<String>, v: &str) -> (r: bool)
    ensures
        r == sel.deep_view().contains(v@),
{
    let mut i: usize = 0;
    while i < sel.len()
        invariant
            i <= sel.len(),
            forall|k: int| 0 <= k < i ==> sel.deep_view()[k] != v@,
        decreases sel.len() - i,
    {
        assert(sel.deep_view()[i as int] == sel@[i as int]@);
        if string_is(&sel[i], v) {
            return true;
        }
        i = i + 1;
    }
    false
}

/// Checks (`checked`) or unchecks the option with value `value`.
pub fn toggle_selection(selected: &mut Vec<String>, value: &str, checked: bool)
    ensures
        final(selected).deep_view() == toggled(old(selected).deep_view(), value@, checked),
{
    if checked {
        if !contains_string(selected, value) {
            selected.push(to_owned_string(value));
            assert(selected.deep_view() =~= old(selected).deep_view().push(value@));
        }
    } else {
        let ghost sv = selected.deep_view();
        let mut kept: Vec<String> = Vec::new();
        let mut i: usize = 0;
        assert(sv.take(0) =~= Seq::<Seq<char>>::empty());
        while i < selected.len()
            invariant
                i <= selected.len(),
                sv == selected.deep_view(),
                kept.deep_view() == without(sv.take(i as int), value@),
            decreases selected.len() - i,
        {
            assert(sv.take(i + 1).drop_last() =~= sv.take(i as int));
            assert(sv.take(i + 1).last() == selected@[i as int]@);
            if !string_is(&selected[i], value) {
                let ghost before = kept.deep_view();
                kept.push(selected[i].clone());
                assert(kept.deep_view() =~= before.push(selected@[i as int]@));
            }
            i = i + 1;
        }
        assert(sv.take(selected.len() as int) =~= sv);
        *selected = kept;
    }
}

proof fn lemma_push_contains(s: Seq<Seq<char>>, x: Seq<char>, w: Seq<char>)
    ensures
        s.push(x).contains(w) <==> (s.contains(w) || x == w),
{
    if s.push(x).contains(w) {
        let k = choose|k: int| 0 <= k < s.push(x).len() && s.push(x)[k] == w;
        if k < s.len() {
            assert(s[k] == w);
        }
    }
    if s.contains(w) {
        let k = choose|k: int| 0 <= k < s.len() && s[k] == w;
        assert(s.push(x)[k] == w);
    }
    if x == w {
        assert(s.push(x)[s.len() as int] == w);
    }
}

proof fn lemma_without(sel: Seq<Seq<char>>, v: Seq<char>, w: Seq<char>)
    ensures
        without(sel, v).contains(w) <==> (sel.contains(w) && w != v),
    decreases sel.len(),
{
    if sel.len() > 0 {
        let d = sel.drop_last();
        let l = sel.last();
        lemma_without(d, v, w);
        assert(sel =~= d.push(l));
        lemma_push_contains(d, l, w);
        if l != v {
            lemma_push_contains(without(d, v), l, w);
        }
    }
}

/// After checking an option it is chosen, after unchecking it is not, and
/// the other options stay chosen or not as they were.
pub proof fn lemma_toggle_effect(sel: Seq<Seq<char>>, v: Seq<char>, checked: bool, w: Seq<char>)
    ensures
        toggled(sel, v, checked).contains(v) == checked,
        w != v ==> (toggled(sel, v, checked).contains(w) == sel.contains(w)),
{
    lemma_without(sel, v, v);
    lemma_without(sel, v, w);
    lemma_push_contains(sel, v, v);
    lemma_push_contains(sel, v, w);
}

/// Adding a value that is not in a list without repeats keeps it without
/// repeats.
proof fn lemma_push_no_duplicates(s: Seq<Seq<char>>, x: Seq<char>)
    requires
        no_duplicates(s),
        !s.contains(x),
    ensures
        no_duplicates(s.push(x)),
{
    assert forall|i: int, j: int| 0 <= i < j < s.push(x).len() implies s.push(x)[i] != s.push(x)[j] by {
        if j == s.len() {
            assert(s.push(x)[i] == s[i]);
        }
    }
}

proof fn lemma_without_no_duplicates(sel: Seq<Seq<char>>, v: Seq<char>)
    requires
        no_duplicates(sel),
    ensures
        no_duplicates(without(sel, v)),
    decreases sel.len(),
{
    if sel.len() > 0 {
        let d = sel.drop_last();
        let l = sel.last();
        assert(no_duplicates(d)) by {
            assert forall|i: int, j: int| 0 <= i < j < d.len() implies d[i] != d[j] by {
                assert(d[i] == sel[i] && d[j] == sel[j]);
            }
        }
        lemma_without_no_duplicates(d, v);
        if l != v {
            lemma_without(d, v, l);
            if d.contains(l) {
                let k = choose|k: int| 0 <= k < d.len() && d[k] == l;
                assert(sel[k] == sel[sel.len() - 1]);
            }
            lemma_push_no_duplicates(without(d, v), l);
        }
    }
}

/// Checking or unchecking an option never makes a value appear twice among
/// the chosen ones.
pub proof fn lemma_toggle_no_duplicates(sel: Seq<Seq<char>>, v: Seq<char>, checked: bool)
    requires
        no_duplicates(sel),
    ensures
        no_duplicates(toggled(sel, v, checked)),
{
    if checked {
        if !sel.contains(v) {
            lemma_push_no_duplicates(sel, v);
        }
    } else {
        lemma_without_no_duplicates(sel, v);
    }
}

/// The labels of the options whose values are chosen, in the options' order.
pub open spec fn selected_labels(options: Seq<SelectOptionView>, sel: Seq<Seq<char>>) -> Seq<Seq<char>>
    decreases options.len(),
{
    if options.len() == 0 {
        seq![]
    } else if sel.contains(options.last().value) {
        selected_labels(options.drop_last(), sel).push(options.last().label)
    } else {
        selected_labels(options.drop_last(), sel)
    }
}

/// `parts` joined with `sep` between each two.
pub open spec fn join(parts: Seq<Seq<char>>, sep: Seq<char>) -> Seq<char>
    decreases parts.len(),
{
    if parts.len() == 0 {
        seq![]
    } else if parts.len() == 1 {
        parts[0]
    } else {
        join(parts.drop_last(), sep) + sep + parts.last()
    }
}

/// The text a multi-select shows: its placeholder (or `-- Select --`) while
/// nothing is chosen; the chosen options' labels joined by `, ` for up to
/// three; else how many are chosen, as `4 selected`.
pub open spec fn summary_spec(options: Seq<SelectOptionView>, sel: Seq<Seq<char>>, placeholder: Option<Seq<char>>) -> Seq<char> {
    if sel.len() == 0 {
        match placeholder {
            Some(p) => p,
            None => "-- Select --"@,
        }
    } else {
        let ls = selected_labels(options, sel);
        if ls.len() <= 3 {
            join(ls, ", "@)
        } else {
            decimal(ls.len()) + " selected"@
        }
    }
}

/// The text a multi-select shows for the chosen values `selected`.
pub fn multi_select_summary(options: &Vec<SelectOption>, selected: &Vec<String>, placeholder: &Option<String>) -> (r: String)
    ensures
        r@ == summary_spec(
            options_view(options@),
            selected.deep_view(),
            match placeholder { Some(p) => Some(p@), None => None },
        ),
{
    if selected.len() == 0 {
        return match placeholder {
            Some(p) => p.clone(),
            None => to_owned_string("-- Select --"),
        };
    }
    let ghost ov = options_view(options@);
    let mut labels: Vec<String> = Vec::new();
    let mut i: usize = 0;
    assert(ov.take(0) =~= Seq::<SelectOptionView>::empty());
    while i < options.len()
        invariant
            i <= options.len(),
            ov == options_view(options@),
            labels.deep_view() == selected_labels(ov.take(i as int), selected.deep_view()),
        decreases options.len() - i,
    {
        assert(ov.take(i + 1).drop_last() =~= ov.take(i as int));
        assert(ov.take(i + 1).last() == options@[i as int]@);
        if contains_string(selected, options[i].value.as_str()) {
            let ghost before = labels.deep_view();
            labels.push(options[i].label.clone());
            assert(labels.deep_view() =~= before.push(options@[i as int].label@));
        }
        i = i + 1;
    }
    assert(ov.take(options.len() as int) =~= ov);
    if labels.len() <= 3 {
        let mut s = String::new();
        let mut k: usize = 0;
        assert(labels.deep_view().take(0) =~= Seq::<Seq<char>>::empty());
        while k < labels.len()
            invariant
                k <= labels.len(),
                s@ == join(labels.deep_view().take(k as int), ", "@),
            decreases labels.len() - k,
        {
            let ghost t = labels.deep_view().take(k + 1);
            assert(t.drop_last() =~= labels.deep_view().take(k as int));
            assert(t.last() == labels@[k as int]@);
            if k > 0 {
                push_str(&mut s, ", ");
            } else {
                assert(t =~= seq![labels@[0]@]);
            }
            push_str(&mut s, labels[k].as_str());
            k = k + 1;
        }
        assert(labels.deep_view().take(labels.len() as int) =~= labels.deep_view());
        s
    } else {
        let mut s = String::new();
        push_decimal(&mut s, labels.len() as u64);
        push_str(&mut s, " selected");
        assert(s@ =~= decimal(labels.len() as nat) + " selected"@);
        s
    }
}

/// The views of a list of character vectors.
pub open spec fn pieces_view(v: Seq<Vec<char>>) -> Seq<Seq<char>> {
    v.map_values(|p: Vec<char>| p@)
}

/// `s` cut at every `c` (as `str::split` with a character): the pieces
/// between the cuts, in order, empty ones included.
pub open spec fn split_on(s: Seq<char>, c: char) -> Seq<Seq<char>>
    decreases s.len(),
{
    if let Some(i) = find_at(s, seq![c], 0) {
        proof {
            lemma_find_at(s, seq![c], 0);
        }
        seq![s.take(i)] + split_on(s.skip(i + 1), c)
    } else {
        seq![s]
    }
}

/// `s` cut at every `c`.
pub fn split_chars(s: &[char], c: char) -> (r: Vec<Vec<char>>)
    ensures
        pieces_view(r@) == split_on(s@, c),
{
    let mut pat: Vec<char> = Vec::new();
    pat.push(c);
    assert(pat@ =~= seq![c]);
    let mut out: Vec<Vec<char>> = Vec::new();
    let mut rest: Vec<char> = slice_chars(s, 0, s.len());
    assert(rest@ =~= s@);
    assert(pieces_view(out@) + split_on(rest@, c) =~= split_on(s@, c));
    loop
        invariant
            pat@ == seq![c],
            pieces_view(out@) + split_on(rest@, c) == split_on(s@, c),
        decreases rest.len(),
    {
        let ghost r = rest@;
        let ghost before = pieces_view(out@);
        match find_chars(rest.as_slice(), pat.as_slice(), 0) {
            Some(i) => {
                proof { lemma_find_at(r, seq![c], 0); }
                let piece = slice_chars(rest.as_slice(), 0, i);
                let next = slice_chars(rest.as_slice(), i + 1, rest.len());
                assert(piece@ =~= r.take(i as int));
                assert(next@ =~= r.skip(i + 1));
                out.push(piece);
                assert(pieces_view(out@) =~= before.push(r.take(i as int)));
                assert(pieces_view(out@) + split_on(next@, c) =~= before + split_on(r, c));
                rest = next;
            },
            None => {
                out.push(rest);
                assert(pieces_view(out@) =~= before.push(r));
                assert(pieces_view(out@) =~= before + split_on(r, c));
                return out;
            },
        }
    }
}

/// The non-empty sequences of `s`, in order.
pub open spec fn non_empty(s: Seq<Seq<char>>) -> Seq<Seq<char>>
    decreases s.len(),
{
    if s.len() == 0 {
        s
    } else if s.last().len() > 0 {
        non_empty(s.drop_last()).push(s.last())
    } else {
        non_empty(s.drop_last())
    }
}

/// The tags typed into a tags field: the text cut at each `,`, each piece
/// without surrounding white space, empty pieces dropped.
pub open spec fn tag_pieces(buffer: Seq<char>) -> Seq<Seq<char>> {
    non_empty(split_on(buffer, ',').map_values(|p: Seq<char>| trim_seq(p)))
}

/// The tags after `pieces` were added in order: a piece already among them
/// is skipped, and adding stops once there are `max` tags (where given).
pub open spec fn commit_spec(tags: Seq<Seq<char>>, pieces: Seq<Seq<char>>, max: Option<usize>) -> Seq<Seq<char>>
    decreases pieces.len(),
{
    if pieces.len() == 0 {
        tags
    } else if max is Some && tags.len() >= max->0 {
        tags
    } else {
        let next = if tags.contains(pieces[0]) { tags } else { tags.push(pieces[0]) };
        commit_spec(next, pieces.drop_first(), max)
    }
}

/// The tags typed into a tags field's input, in order.
pub fn tag_pieces_of(buffer: &str) -> (r: Vec<String>)
    ensures
        r.deep_view() == tag_pieces(buffer@),
{
    let cs = chars_of(buffer);
    let parts = split_chars(cs.as_slice(), ',');
    let ghost pv = pieces_view(parts@);
    let ghost tv = pv.map_values(|p: Seq<char>| trim_seq(p));
    let mut out: Vec<String> = Vec::new();
    let mut i: usize = 0;
    assert(tv.take(0) =~= Seq::<Seq<char>>::empty());
    while i < parts.len()
        invariant
            i <= parts.len(),
            pv == pieces_view(parts@),
            tv == pv.map_values(|p: Seq<char>| trim_seq(p)),
            out.deep_view() == non_empty(tv.take(i as int)),
        decreases parts.len() - i,
    {
        assert(tv.take(i + 1).drop_last() =~= tv.take(i as int));
        assert(tv.take(i + 1).last() == trim_seq(parts@[i as int]@));
        let t = trim_chars(parts[i].as_slice());
        if t.len() > 0 {
            let ghost before = out.deep_view();
            out.push(string_from_chars(t.as_slice()));
            assert(out.deep_view() =~= before.push(t@));
        }
        i = i + 1;
    }
    assert(tv.take(parts.len() as int) =~= tv);
    out
}

/// Adds the tags typed into a tags field's input (`buffer`), in order,
/// skipping those already present and stopping at `max` tags.
pub fn commit_tags(tags: &mut Vec<String>, buffer: &str, max: Option<usize>)
    ensures
        final(tags).deep_view() == commit_spec(old(tags).deep_view(), tag_pieces(buffer@), max),
{
    let pieces = tag_pieces_of(buffer);
    let ghost pv = pieces.deep_view();
    let mut i: usize = 0;
    assert(pv.skip(0) =~= pv);
    while i < pieces.len()
        invariant
            i <= pieces.len(),
            pv == pieces.deep_view(),
            pv == tag_pieces(buffer@),
            commit_spec(old(tags).deep_view(), pv, max) == commit_spec(tags.deep_view(), pv.skip(i as int), max),
        decreases pieces.len() - i,
    {
        if let Some(limit) = max {
            if tags.len() >= limit {
                assert(tags.deep_view().len() == tags.len());
                assert(commit_spec(tags.deep_view(), pv.skip(i as int), max) == tags.deep_view());
                return;
            }
        }
        let ghost before = tags.deep_view();
        assert(pv.skip(i as int)[0] == pieces@[i as int]@);
        assert(pv.skip(i as int).drop_first() =~= pv.skip(i + 1));
        if !contains_string(tags, pieces[i].as_str()) {
            tags.push(pieces[i].clone());
            assert(tags.deep_view() =~= before.push(pieces@[i as int]@));
        }
        i = i + 1;
    }
    assert(pv.skip(pieces.len() as int) =~= Seq::<Seq<char>>::empty());
}

/// Whether no tag occurs twice.
pub open spec fn no_duplicates(s: Seq<Seq<char>>) -> bool {
    forall|i: int, j: int| 0 <= i < j < s.len() ==> s[i] != s[j]
}

/// Adding typed tags keeps every tag already present, in place; adds no
/// tag twice; and never grows the list past `max` (where it was not already
/// past it).
pub proof fn lemma_commit_tags(tags: Seq<Seq<char>>, pieces: Seq<Seq<char>>, max: Option<usize>)
    ensures
        commit_spec(tags, pieces, max).len() >= tags.len(),
        commit_spec(tags, pieces, max).take(tags.len() as int) == tags,
        no_duplicates(tags) ==> no_duplicates(commit_spec(tags, pieces, max)),
        max is Some && tags.len() <= max->0 ==> commit_spec(tags, pieces, max).len() <= max->0,
    decreases pieces.len(),
{
    if pieces.len() == 0 || (max is Some && tags.len() >= max->0) {
        assert(tags.take(tags.len() as int) =~= tags);
    } else {
        let next = if tags.contains(pieces[0]) { tags } else { tags.push(pieces[0]) };
        lemma_commit_tags(next, pieces.drop_first(), max);
        let r = commit_spec(tags, pieces, max);
        assert(r == commit_spec(next, pieces.drop_first(), max));
        assert(next.take(tags.len() as int) =~= tags);
        assert(r.take(tags.len() as int) =~= r.take(next.len() as int).take(tags.len() as int));
        if no_duplicates(tags) && !tags.contains(pieces[0]) {
            assert forall|i: int, j: int| 0 <= i < j < next.len() implies next[i] != next[j] by {
                if j == tags.len() {
                    assert(next[i] == tags[i]);
                }
            }
        }
    }
}

/// Checking or unchecking an option adds no value to the chosen ones but
/// that option's, and that only when it is checked.
pub proof fn lemma_toggle_adds_only_the_option(sel: Seq<Seq<char>>, v: Seq<char>, checked: bool, w: Seq<char>)
    ensures
        toggled(sel, v, checked).contains(w) && !sel.contains(w) ==> w == v && checked,
{
    lemma_toggle_effect(sel, v, checked, w);
}

/// A value kept by `non_empty` was in the list, and is not empty.
proof fn lemma_non_empty_contains(s: Seq<Seq<char>>, w: Seq<char>)
    ensures
        non_empty(s).contains(w) ==> s.contains(w) && w.len() > 0,
    decreases s.len(),
{
    if s.len() > 0 {
        let d = s.drop_last();
        lemma_non_empty_contains(d, w);
        if s.last().len() > 0 {
            lemma_push_contains(non_empty(d), s.last(), w);
        }
        if d.contains(w) {
            let k = choose|k: int| 0 <= k < d.len() && d[k] == w;
            assert(s[k] == w);
        }
        if s.last() == w {
            assert(s[s.len() - 1] == w);
        }
    }
}

/// Committing pieces adds no tag but those pieces.
proof fn lemma_commit_adds_only_pieces(tags: Seq<Seq<char>>, pieces: Seq<Seq<char>>, max: Option<usize>, w: Seq<char>)
    ensures
        commit_spec(tags, pieces, max).contains(w) ==> tags.contains(w) || pieces.contains(w),
    decreases pieces.len(),
{
    if pieces.len() > 0 && !(max is Some && tags.len() >= max->0) {
        let next = if tags.contains(pieces[0]) { tags } else { tags.push(pieces[0]) };
        lemma_commit_adds_only_pieces(next, pieces.drop_first(), max, w);
        lemma_push_contains(tags, pieces[0], w);
        if pieces.drop_first().contains(w) {
            let k = choose|k: int| 0 <= k < pieces.drop_first().len() && pieces.drop_first()[k] == w;
            assert(pieces[k + 1] == w);
        }
        if pieces[0] == w {
            assert(pieces.contains(w));
        }
    }
}

/// A tag that committing typed text adds is one of the text's pieces
/// between commas, without surrounding white space, and not empty.
pub proof fn lemma_new_tags_come_from_text(tags: Seq<Seq<char>>, buffer: Seq<char>, max: Option<usize>, w: Seq<char>)
    requires
        commit_spec(tags, tag_pieces(buffer), max).contains(w),
        !tags.contains(w),
    ensures
        w.len() > 0,
        exists|k: int| 0 <= k < split_on(buffer, ',').len() && w == trim_seq(#[trigger] split_on(buffer, ',')[k]),
{
    let parts = split_on(buffer, ',');
    let trimmed = parts.map_values(|p: Seq<char>| trim_seq(p));
    lemma_commit_adds_only_pieces(tags, tag_pieces(buffer), max, w);
    lemma_non_empty_contains(trimmed, w);
    let k = choose|k: int| 0 <= k < trimmed.len() && trimmed[k] == w;
    assert(w == trim_seq(parts[k]));
}

/// The file name extensions a file dialog offers, from a component's
/// `accept` text: cut at each `,`; each piece without surrounding white
/// space, then without leading `.` characters, then without leading `*.`.
pub open spec fn accept_extensions_spec(accept: Seq<char>) -> Seq<Seq<char>> {
    split_on(accept, ',').map_values(|p: Seq<char>| strip_star_dots(trim_start_char(trim_seq(p), '.')))
}

/// `s` without any leading copies of `*.` (as `str::trim_start_matches("*.")`).
pub open spec fn strip_star_dots(s: Seq<char>) -> Seq<char>
    decreases s.len(),
{
    if s.len() >= 2 && s[0] == '*' && s[1] == '.' {
        strip_star_dots(s.skip(2))
    } else {
        s
    }
}

/// `s` without any leading copies of `*.`.
fn strip_star_dots_exec(s: &[char]) -> (r: Vec<char>)
    ensures
        r@ == strip_star_dots(s@),
{
    let mut a: usize = 0;
    assert(s@.skip(0) =~= s@);
    while s.len() >= 2 && a <= s.len() - 2 && s[a] == '*' && s[a + 1] == '.'
        invariant
            a <= s.len(),
            strip_star_dots(s@) == strip_star_dots(s@.skip(a as int)),
        decreases s.len() - a,
    {
        assert(s@.skip(a as int).skip(2) =~= s@.skip(a + 2));
        a = a + 2;
    }
    let r = slice_chars(s, a, s.len());
    assert(r@ =~= s@.skip(a as int));
    r
}

/// The file name extensions a file dialog offers for a component's `accept` text.
pub fn accept_extensions(accept: &str) -> (r: Vec<String>)
    ensures
        r.deep_view() == accept_extensions_spec(accept@),
{
    let cs = chars_of(accept);
    let parts = split_chars(cs.as_slice(), ',');
    let ghost pv = pieces_view(parts@);
    let mut out: Vec<String> = Vec::new();
    let mut i: usize = 0;
    while i < parts.len()
        invariant
            i <= parts.len(),
            pv == pieces_view(parts@),
            out.deep_view().len() == i,
            forall|k: int| 0 <= k < i ==> #[trigger] out.deep_view()[k] == strip_star_dots(trim_start_char(trim_seq(pv[k]), '.')),
        decreases parts.len() - i,
    {
        let t = trim_chars(parts[i].as_slice());
        let u = trim_start_char_chars(t.as_slice(), '.');
        let v = strip_star_dots_exec(u.as_slice());
        let ghost before = out.deep_view();
        out.push(string_from_chars(v.as_slice()));
        assert(out.deep_view() =~= before.push(v@));
        i = i + 1;
    }
    assert(out.deep_view() =~= accept_extensions_spec(accept@));
    out
}

/// What pressing a button does to the form: a submit button submits it, a
/// cancel button cancels it, a custom button does nothing.
pub fn button_result(action: ButtonAction) -> (r: Option<FormResult>)
    ensures
        r == match action {
            ButtonAction::Submit => Some(FormResult::Submitted),
            ButtonAction::Cancel => Some(FormResult::Cancelled),
            ButtonAction::Custom => None::<FormResult>,
        },
{
    match action {
        ButtonAction::Submit => Some(FormResult::Submitted),
        ButtonAction::Cancel => Some(FormResult::Cancelled),
        ButtonAction::Custom => None,
    }
}

/// The text shown in place of an image that cannot be shown:
/// `[image: ` and its alternative text (or its source) and `]`.
pub fn image_placeholder(alt: &Option<String>, src: &str) -> (r: String)
    ensures
        r@ == "[image: "@ + match alt { Some(a) => a@, None => src@ } + "]"@,
{
    let mut s = to_owned_string("[image: ");
    match alt {
        Some(a) => push_str(&mut s, a.as_str()),
        None => push_str(&mut s, src),
    }
    push_str(&mut s, "]");
    s
}

/// Where an image is read from: nowhere for an `http://` or `https://`
/// address (only local files are shown); otherwise the source without a
/// leading `file://`.
pub open spec fn image_path_spec(src: Seq<char>) -> Option<Seq<char>> {
    if starts_with_seq(src, "http://"@) || starts_with_seq(src, "https://"@) {
        None
    } else if starts_with_seq(src, "file://"@) {
        Some(src.skip("file://"@.len() as int))
    } else {
        Some(src)
    }
}

/// Where an image is read from, before the file path itself is checked.
pub fn image_path(src: &str) -> (r: Option<String>)
    ensures
        match r {
            Some(p) => image_path_spec(src@) == Some(p@),
            None => image_path_spec(src@) is None,
        },
{
    let cs = chars_of(src);
    let http = chars_of("http://");
    let https = chars_of("https://");
    let file = chars_of("file://");
    if occurs_at_exec(cs.as_slice(), http.as_slice(), 0) || occurs_at_exec(cs.as_slice(), https.as_slice(), 0) {
        None
    } else if occurs_at_exec(cs.as_slice(), file.as_slice(), 0) {
        let rest = slice_chars(cs.as_slice(), file.len(), cs.len());
        assert(rest@ =~= src@.skip("file://"@.len() as int));
        Some(string_from_chars(rest.as_slice()))
    } else {
        Some(to_owned_string(src))
    }
}

/// Whether an image path may be read: it is relative (it does not start
/// with `/`) and no piece between `/` separators is `..`, so it stays inside
/// the working directory. These are the rules by which std's `Path` reads
/// a path on Unix (`is_absolute`, and a `ParentDir` component).
pub open spec fn is_safe_image_path(p: Seq<char>) -> bool {
    !(p.len() > 0 && p[0] == '/') && !split_on(p, '/').contains(".."@)
}

/// Whether an image path may be read.
pub fn safe_image_path(p: &str) -> (r: bool)
    ensures
        r == is_safe_image_path(p@),
{
    let cs = chars_of(p);
    if cs.len() > 0 && cs[0] == '/' {
        return false;
    }
    let pieces = split_chars(cs.as_slice(), '/');
    let ghost pv = pieces_view(pieces@);
    let mut i: usize = 0;
    while i < pieces.len()
        invariant
            i <= pieces.len(),
            pv == pieces_view(pieces@),
            pv == split_on(cs@, '/'),
            cs@ == p@,
            !(cs@.len() > 0 && cs@[0] == '/'),
            forall|k: int| 0 <= k < i ==> pv[k] != ".."@,
        decreases pieces.len() - i,
    {
        assert(pv[i as int] == pieces@[i as int]@);
        if chars_is(pieces[i].as_slice(), "..") {
            assert(pv[i as int] == ".."@);
            assert(pv.len() == pieces@.len());
            assert(pv.contains(".."@));
            assert(cs@ == p@);
            return false;
        }
        i = i + 1;
    }
    assert(!pv.contains(".."@)) by {
        if pv.contains(".."@) {
            let k = choose|k: int| 0 <= k < pv.len() && pv[k] == ".."@;
            assert(pv[k] != ".."@);
        }
    }
    true
}

/// The local file an image is read from: its path, where the source names
/// a local file by a relative path that stays inside the working directory.
pub fn image_file(src: &str) -> (r: Option<String>)
    ensures
        match r {
            Some(p) => image_path_spec(src@) == Some(p@) && is_safe_image_path(p@),
            None => match image_path_spec(src@) {
                Some(p) => !is_safe_image_path(p),
                None => true,
            },
        },
{
    match image_path(src) {
        Some(p) => {
            if safe_image_path(p.as_str()) {
                Some(p)
            } else {
                None
            }
        },
        None => None,
    }
}

} // verus!
