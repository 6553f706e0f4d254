//! What a form reports when nobody changed it: every input field's default
//! value, under the field's id.
use vstd::prelude::*;
use crate::form::{
    FormStateView, collect_one, collect_seq, f64_bits_of_nat, float_zero, init_one, init_seq,
    number_json, or_empty, default_color, datetime_parts, datetime_text, date_range_json,
    number_range_json,
};
use crate::json::{Float64Bits, JsonView};
use crate::protocol::ComponentView;

verus! {

/// Where a form keeps the value of an input field.
pub enum Store {
    Text,
    Number,
    Bools,
    Groups,
    Pairs,
    Ranges,
    /// A value given by the form itself, kept nowhere.
    Given,
}

/// The id of an input field and where its value is kept; `None` for the
/// components that hold no value (and for cards and rows).
pub open spec fn field_of(c: ComponentView) -> Option<(Seq<char>, Store)> {
    match c {
        ComponentView::TextField { id, .. }
        | ComponentView::Textarea { id, .. }
        | ComponentView::DatePicker { id, .. }
        | ComponentView::TimePicker { id, .. }
        | ComponentView::Dropdown { id, .. }
        | ComponentView::RadioGroup { id, .. }
        | ComponentView::FileUpload { id, .. }
        | ComponentView::Password { id, .. }
        | ComponentView::Email { id, .. }
        | ComponentView::Url { id, .. }
        | ComponentView::Combobox { id, .. }
        | ComponentView::ColorPicker { id, .. } => Some((id, Store::Text)),
        ComponentView::DatetimePicker { id, .. } | ComponentView::DateRange { id, .. } =>
            Some((id, Store::Pairs)),
        ComponentView::RangeSlider { id, .. } => Some((id, Store::Ranges)),
        ComponentView::Hidden { id, .. } => Some((id, Store::Given)),
        ComponentView::NumberInput { id, .. }
        | ComponentView::Slider { id, .. }
        | ComponentView::Rating { id, .. } => Some((id, Store::Number)),
        ComponentView::Checkbox { id, .. } | ComponentView::Toggle { id, .. } => Some((id, Store::Bools)),
        ComponentView::CheckboxGroup { id, .. }
        | ComponentView::MultiSelect { id, .. }
        | ComponentView::Tags { id, .. } => Some((id, Store::Groups)),
        _ => None,
    }
}

/// The output value of an input field that still holds its default.
pub open spec fn default_json(c: ComponentView) -> JsonView {
    match c {
        ComponentView::TextField { default_value, .. }
        | ComponentView::Textarea { default_value, .. }
        | ComponentView::DatePicker { default_value, .. }
        | ComponentView::TimePicker { default_value, .. }
        | ComponentView::Dropdown { default_value, .. }
        | ComponentView::RadioGroup { default_value, .. }
        | ComponentView::Email { default_value, .. }
        | ComponentView::Url { default_value, .. }
        | ComponentView::Combobox { default_value, .. } => JsonView::Str(or_empty(default_value)),
        ComponentView::ColorPicker { default_value, .. } =>
            JsonView::Str(match default_value { Some(v) => v, None => default_color() }),
        ComponentView::DatetimePicker { default_value, .. } =>
            JsonView::Str(datetime_text(datetime_parts(or_empty(default_value)))),
        ComponentView::DateRange { default_start, default_end, .. } =>
            date_range_json((or_empty(default_start), or_empty(default_end))),
        ComponentView::RangeSlider { min, max, default_min, default_max, .. } => number_range_json(
            (match default_min { Some(f) => f, None => min }, match default_max { Some(f) => f, None => max }),
        ),
        ComponentView::Hidden { value, .. } => value,
        ComponentView::FileUpload { .. } | ComponentView::Password { .. } => JsonView::Str(seq![]),
        ComponentView::NumberInput { default_value, .. } => number_json(
            match default_value { Some(f) => f, None => float_zero() },
        ),
        ComponentView::Slider { default_value, min, .. } => number_json(
            match default_value { Some(f) => f, None => min },
        ),
        ComponentView::Rating { default_value, .. } => number_json(
            Float64Bits {
                bits: f64_bits_of_nat(match default_value { Some(v) => v as nat, None => 0 }) as u64,
            },
        ),
        ComponentView::Checkbox { default_value, .. } | ComponentView::Toggle { default_value, .. } =>
            JsonView::Bool(default_value),
        ComponentView::CheckboxGroup { default_values, .. }
        | ComponentView::MultiSelect { default_values, .. }
        | ComponentView::Tags { default_values, .. } =>
            JsonView::Arr(default_values.map_values(|s: Seq<char>| JsonView::Str(s))),
        _ => JsonView::Null,
    }
}

/// The output after the default values of `c` (and of what it lays out)
/// were added to `acc`.
pub open spec fn defaults_one(acc: Map<Seq<char>, JsonView>, c: ComponentView) -> Map<Seq<char>, JsonView>
    decreases c,
{
    match c {
        ComponentView::Card { children, .. } | ComponentView::Row { children, .. } | ComponentView::Collapsible { children, .. } =>
            defaults_seq(acc, children),
        _ => match field_of(c) {
            Some((k, _)) => acc.insert(k, default_json(c)),
            None => acc,
        },
    }
}

/// The output after the default values of `cs` were added to `acc`, in order.
pub open spec fn defaults_seq(acc: Map<Seq<char>, JsonView>, cs: Seq<ComponentView>) -> Map<Seq<char>, JsonView>
    decreases cs,
{
    if cs.len() == 0 {
        acc
    } else {
        defaults_one(defaults_seq(acc, cs.drop_last()), cs.last())
    }
}

/// The ids of the input fields of `c` and of what it lays out.
pub open spec fn ids_one(c: ComponentView) -> Set<Seq<char>>
    decreases c,
{
    match c {
        ComponentView::Card { children, .. } | ComponentView::Row { children, .. } | ComponentView::Collapsible { children, .. } => ids_seq(children),
        _ => match field_of(c) {
            Some((k, _)) => set![k],
            None => Set::empty(),
        },
    }
}

/// The ids of the input fields of `cs` and of what they lay out.
pub open spec fn ids_seq(cs: Seq<ComponentView>) -> Set<Seq<char>>
    decreases cs,
{
    if cs.len() == 0 {
        Set::empty()
    } else {
        ids_seq(cs.drop_last()).union(ids_one(cs.last()))
    }
}

/// Whether two maps hold the same keys and values outside `ks`.
pub open spec fn agree<V>(m1: Map<Seq<char>, V>, m2: Map<Seq<char>, V>, ks: Set<Seq<char>>) -> bool {
    forall|j: Seq<char>|
        !ks.contains(j) ==> (#[trigger] m1.contains_key(j) == m2.contains_key(j) && (m1.contains_key(j) ==> m1[j] == m2[j]))
}

/// Whether two form states hold the same values outside the ids `ks`.
pub open spec fn states_agree(t1: FormStateView, t2: FormStateView, ks: Set<Seq<char>>) -> bool {
    &&& agree(t1.text, t2.text, ks)
    &&& agree(t1.number, t2.number, ks)
    &&& agree(t1.bools, t2.bools, ks)
    &&& agree(t1.groups, t2.groups, ks)
    &&& agree(t1.pairs, t2.pairs, ks)
    &&& agree(t1.ranges, t2.ranges, ks)
}

/// Whether `t` holds a value for the field `k` kept in `s`.
pub open spec fn holds(t: FormStateView, k: Seq<char>, s: Store) -> bool {
    match s {
        Store::Text => t.text.contains_key(k),
        Store::Number => t.number.contains_key(k),
        Store::Bools => t.bools.contains_key(k),
        Store::Groups => t.groups.contains_key(k),
        Store::Pairs => t.pairs.contains_key(k),
        Store::Ranges => t.ranges.contains_key(k),
        Store::Given => true,
    }
}

/// Whether `t` holds a value for every input field of `c`.
pub open spec fn present_one(t: FormStateView, c: ComponentView) -> bool
    decreases c,
{
    match c {
        ComponentView::Card { children, .. } | ComponentView::Row { children, .. } | ComponentView::Collapsible { children, .. } => present_seq(t, children),
        _ => match field_of(c) {
            Some((k, s)) => holds(t, k, s),
            None => true,
        },
    }
}

/// Whether `t` holds a value for every input field of `cs`.
pub open spec fn present_seq(t: FormStateView, cs: Seq<ComponentView>) -> bool
    decreases cs,
{
    if cs.len() == 0 {
        true
    } else {
        present_seq(t, cs.drop_last()) && present_one(t, cs.last())
    }
}

/// Whether `t2` holds a value wherever `t1` does.
pub open spec fn grows(t1: FormStateView, t2: FormStateView) -> bool {
    &&& t1.text.dom().subset_of(t2.text.dom())
    &&& t1.number.dom().subset_of(t2.number.dom())
    &&& t1.bools.dom().subset_of(t2.bools.dom())
    &&& t1.groups.dom().subset_of(t2.groups.dom())
    &&& t1.pairs.dom().subset_of(t2.pairs.dom())
    &&& t1.ranges.dom().subset_of(t2.ranges.dom())
}

proof fn lemma_agree_trans<V>(a: Map<Seq<char>, V>, b: Map<Seq<char>, V>, c: Map<Seq<char>, V>, k1: Set<Seq<char>>, k2: Set<Seq<char>>)
    requires
        agree(a, b, k1),
        agree(b, c, k2),
    ensures
        agree(a, c, k1.union(k2)),
{
    assert forall|j: Seq<char>| !k1.union(k2).contains(j) implies (#[trigger] a.contains_key(j) == c.contains_key(j)
        && (a.contains_key(j) ==> a[j] == c[j])) by {
        assert(!k1.contains(j) && !k2.contains(j));
        assert(a.contains_key(j) == b.contains_key(j));
        assert(b.contains_key(j) == c.contains_key(j));
    }
}

proof fn lemma_agree_refl<V>(a: Map<Seq<char>, V>, ks: Set<Seq<char>>)
    ensures
        agree(a, a, ks),
{
}

proof fn lemma_agree_sym<V>(a: Map<Seq<char>, V>, b: Map<Seq<char>, V>, ks: Set<Seq<char>>)
    requires
        agree(a, b, ks),
    ensures
        agree(b, a, ks),
{
    assert forall|j: Seq<char>| !ks.contains(j) implies (#[trigger] b.contains_key(j) == a.contains_key(j)
        && (b.contains_key(j) ==> b[j] == a[j])) by {
        assert(a.contains_key(j) == b.contains_key(j));
    }
}

proof fn lemma_agree_insert<V>(a: Map<Seq<char>, V>, k: Seq<char>, v: V, ks: Set<Seq<char>>)
    requires
        ks.contains(k),
    ensures
        agree(a.insert(k, v), a, ks),
{
    assert forall|j: Seq<char>| !ks.contains(j) implies (#[trigger] a.insert(k, v).contains_key(j) == a.contains_key(j)
        && (a.insert(k, v).contains_key(j) ==> a.insert(k, v)[j] == a[j])) by {
        assert(j != k);
    }
}

proof fn lemma_states_agree_trans(a: FormStateView, b: FormStateView, c: FormStateView, k1: Set<Seq<char>>, k2: Set<Seq<char>>)
    requires
        states_agree(a, b, k1),
        states_agree(b, c, k2),
    ensures
        states_agree(a, c, k1.union(k2)),
{
    lemma_agree_trans(a.text, b.text, c.text, k1, k2);
    lemma_agree_trans(a.number, b.number, c.number, k1, k2);
    lemma_agree_trans(a.bools, b.bools, c.bools, k1, k2);
    lemma_agree_trans(a.groups, b.groups, c.groups, k1, k2);
    lemma_agree_trans(a.pairs, b.pairs, c.pairs, k1, k2);
    lemma_agree_trans(a.ranges, b.ranges, c.ranges, k1, k2);
}

/// Setting the initial values of `c` changes the state only at the ids of
/// its input fields, and only adds values.
proof fn lemma_init_one(st: FormStateView, c: ComponentView)
    ensures
        states_agree(init_one(st, c), st, ids_one(c)),
        grows(st, init_one(st, c)),
        present_one(init_one(st, c), c),
    decreases c,
{
    match c {
        ComponentView::Card { children, .. } | ComponentView::Row { children, .. } | ComponentView::Collapsible { children, .. } => {
            lemma_init_seq(st, children);
        },
        _ => {
            let t = init_one(st, c);
            match field_of(c) {
                Some((k, s)) => {
                    assert(ids_one(c).contains(k));
                    lemma_agree_insert(st.text, k, if t.text.contains_key(k) { t.text[k] } else { seq![] }, ids_one(c));
                    lemma_agree_insert(st.number, k, if t.number.contains_key(k) { t.number[k] } else { float_zero() }, ids_one(c));
                    lemma_agree_insert(st.bools, k, if t.bools.contains_key(k) { t.bools[k] } else { false }, ids_one(c));
                    lemma_agree_insert(st.groups, k, if t.groups.contains_key(k) { t.groups[k] } else { seq![] }, ids_one(c));
                    lemma_agree_sym(st.text.insert(k, if t.text.contains_key(k) { t.text[k] } else { seq![] }), st.text, ids_one(c));
                    lemma_agree_sym(st.number.insert(k, if t.number.contains_key(k) { t.number[k] } else { float_zero() }), st.number, ids_one(c));
                    lemma_agree_sym(st.bools.insert(k, if t.bools.contains_key(k) { t.bools[k] } else { false }), st.bools, ids_one(c));
                    lemma_agree_sym(st.groups.insert(k, if t.groups.contains_key(k) { t.groups[k] } else { seq![] }), st.groups, ids_one(c));
                    let p0: (Seq<char>, Seq<char>) = (seq![], seq![]);
                    let r0: (Float64Bits, Float64Bits) = (float_zero(), float_zero());
                    lemma_agree_insert(st.pairs, k, if t.pairs.contains_key(k) { t.pairs[k] } else { p0 }, ids_one(c));
                    lemma_agree_insert(st.ranges, k, if t.ranges.contains_key(k) { t.ranges[k] } else { r0 }, ids_one(c));
                    lemma_agree_sym(st.pairs.insert(k, if t.pairs.contains_key(k) { t.pairs[k] } else { p0 }), st.pairs, ids_one(c));
                    lemma_agree_sym(st.ranges.insert(k, if t.ranges.contains_key(k) { t.ranges[k] } else { r0 }), st.ranges, ids_one(c));
                    assert(states_agree(init_one(st, c), st, ids_one(c)));
                },
                None => {},
            }
        },
    }
}

/// Setting the initial values of `cs` changes the state only at the ids of
/// their input fields, only adds values, and leaves a value for each field.
proof fn lemma_init_seq(st: FormStateView, cs: Seq<ComponentView>)
    ensures
        states_agree(init_seq(st, cs), st, ids_seq(cs)),
        grows(st, init_seq(st, cs)),
        present_seq(init_seq(st, cs), cs),
    decreases cs,
{
    if cs.len() > 0 {
        let prev = init_seq(st, cs.drop_last());
        lemma_init_seq(st, cs.drop_last());
        lemma_init_one(prev, cs.last());
        lemma_states_agree_trans(init_seq(st, cs), prev, st, ids_one(cs.last()), ids_seq(cs.drop_last()));
        assert(ids_one(cs.last()).union(ids_seq(cs.drop_last())) =~= ids_seq(cs));
        lemma_present_grows_seq(prev, init_seq(st, cs), cs.drop_last());
    }
}

/// Where `t1` holds a value for every field of `c`, so does a state with
/// more values.
proof fn lemma_present_grows_one(t1: FormStateView, t2: FormStateView, c: ComponentView)
    requires
        present_one(t1, c),
        grows(t1, t2),
    ensures
        present_one(t2, c),
    decreases c,
{
    match c {
        ComponentView::Card { children, .. } | ComponentView::Row { children, .. } | ComponentView::Collapsible { children, .. } => {
            lemma_present_grows_seq(t1, t2, children);
        },
        _ => {},
    }
}

/// Where `t1` holds a value for every field of `cs`, so does a state with
/// more values.
proof fn lemma_present_grows_seq(t1: FormStateView, t2: FormStateView, cs: Seq<ComponentView>)
    requires
        present_seq(t1, cs),
        grows(t1, t2),
    ensures
        present_seq(t2, cs),
    decreases cs,
{
    if cs.len() > 0 {
        lemma_present_grows_seq(t1, t2, cs.drop_last());
        lemma_present_grows_one(t1, t2, cs.last());
    }
}

/// Collecting `c` from two states that agree outside `ks`, into two outputs
/// that agree outside `ks`, gives outputs that agree outside `ks`.
proof fn lemma_collect_agree_one(a1: Map<Seq<char>, JsonView>, a2: Map<Seq<char>, JsonView>, t1: FormStateView, t2: FormStateView, ks: Set<Seq<char>>, c: ComponentView)
    requires
        agree(a1, a2, ks),
        states_agree(t1, t2, ks),
    ensures
        agree(collect_one(a1, t1, c), collect_one(a2, t2, c), ks),
    decreases c,
{
    match c {
        ComponentView::Card { children, .. } | ComponentView::Row { children, .. } | ComponentView::Collapsible { children, .. } => {
            lemma_collect_agree_seq(a1, a2, t1, t2, ks, children);
        },
        _ => {
            match field_of(c) {
                Some((k, s)) => {
                    let r1 = collect_one(a1, t1, c);
                    let r2 = collect_one(a2, t2, c);
                    assert forall|j: Seq<char>| !ks.contains(j) implies (#[trigger] r1.contains_key(j) == r2.contains_key(j)
                        && (r1.contains_key(j) ==> r1[j] == r2[j])) by {
                        assert(a1.contains_key(j) == a2.contains_key(j));
                        if j == k {
                            assert(t1.text.contains_key(j) == t2.text.contains_key(j));
                            assert(t1.number.contains_key(j) == t2.number.contains_key(j));
                            assert(t1.bools.contains_key(j) == t2.bools.contains_key(j));
                            assert(t1.groups.contains_key(j) == t2.groups.contains_key(j));
                            assert(t1.pairs.contains_key(j) == t2.pairs.contains_key(j));
                            assert(t1.ranges.contains_key(j) == t2.ranges.contains_key(j));
                        }
                    }
                },
                None => {},
            }
        },
    }
}

/// Collecting `cs` from two states that agree outside `ks`, into two outputs
/// that agree outside `ks`, gives outputs that agree outside `ks`.
proof fn lemma_collect_agree_seq(a1: Map<Seq<char>, JsonView>, a2: Map<Seq<char>, JsonView>, t1: FormStateView, t2: FormStateView, ks: Set<Seq<char>>, cs: Seq<ComponentView>)
    requires
        agree(a1, a2, ks),
        states_agree(t1, t2, ks),
    ensures
        agree(collect_seq(a1, t1, cs), collect_seq(a2, t2, cs), ks),
    decreases cs,
{
    if cs.len() > 0 {
        lemma_collect_agree_seq(a1, a2, t1, t2, ks, cs.drop_last());
        lemma_collect_agree_one(collect_seq(a1, t1, cs.drop_last()), collect_seq(a2, t2, cs.drop_last()), t1, t2, ks, cs.last());
    }
}

/// Collecting `c` from a state that holds all its fields' values decides
/// the output at those fields' ids, whatever the output was before.
proof fn lemma_collect_inside_one(a1: Map<Seq<char>, JsonView>, a2: Map<Seq<char>, JsonView>, t: FormStateView, c: ComponentView, j: Seq<char>)
    requires
        present_one(t, c),
        ids_one(c).contains(j) || (a1.contains_key(j) == a2.contains_key(j) && (a1.contains_key(j) ==> a1[j] == a2[j])),
    ensures
        collect_one(a1, t, c).contains_key(j) == collect_one(a2, t, c).contains_key(j),
        collect_one(a1, t, c).contains_key(j) ==> collect_one(a1, t, c)[j] == collect_one(a2, t, c)[j],
    decreases c,
{
    match c {
        ComponentView::Card { children, .. } | ComponentView::Row { children, .. } | ComponentView::Collapsible { children, .. } => {
            lemma_collect_inside_seq(a1, a2, t, children, j);
        },
        _ => {},
    }
}

/// Collecting `cs` from a state that holds all their fields' values decides
/// the output at those fields' ids, whatever the output was before.
proof fn lemma_collect_inside_seq(a1: Map<Seq<char>, JsonView>, a2: Map<Seq<char>, JsonView>, t: FormStateView, cs: Seq<ComponentView>, j: Seq<char>)
    requires
        present_seq(t, cs),
        ids_seq(cs).contains(j) || (a1.contains_key(j) == a2.contains_key(j) && (a1.contains_key(j) ==> a1[j] == a2[j])),
    ensures
        collect_seq(a1, t, cs).contains_key(j) == collect_seq(a2, t, cs).contains_key(j),
        collect_seq(a1, t, cs).contains_key(j) ==> collect_seq(a1, t, cs)[j] == collect_seq(a2, t, cs)[j],
    decreases cs,
{
    if cs.len() > 0 {
        let b1 = collect_seq(a1, t, cs.drop_last());
        let b2 = collect_seq(a2, t, cs.drop_last());
        if ids_one(cs.last()).contains(j) {
            if ids_seq(cs.drop_last()).contains(j) || (a1.contains_key(j) == a2.contains_key(j) && (a1.contains_key(j) ==> a1[j] == a2[j])) {
                lemma_collect_inside_seq(a1, a2, t, cs.drop_last(), j);
            }
            lemma_collect_inside_one(b1, b2, t, cs.last(), j);
        } else {
            lemma_collect_inside_seq(a1, a2, t, cs.drop_last(), j);
            lemma_collect_inside_one(b1, b2, t, cs.last(), j);
        }
    }
}

/// The id of an input field.
pub open spec fn field_id(c: ComponentView) -> Seq<char> {
    match field_of(c) {
        Some((k, _)) => k,
        None => seq![],
    }
}

/// Collecting an input field right after its initial value was set gives
/// its default value.
proof fn lemma_collect_after_init(x: Map<Seq<char>, JsonView>, prev: FormStateView, c: ComponentView)
    requires
        field_of(c) is Some,
    ensures
        collect_one(x, init_one(prev, c), c) == x.insert(field_id(c), default_json(c)),
{
    match c {
        ComponentView::Rating { id, default_value, .. } => {
            assert(collect_one(x, init_one(prev, c), c) =~= x.insert(id, default_json(c)));
        },
        _ => {},
    }
}

/// Submitting a form that nobody changed reports every input field's
/// default value under its id (where ids repeat, the last field's).
pub proof fn lemma_untouched_form_reports_defaults(acc: Map<Seq<char>, JsonView>, st: FormStateView, cs: Seq<ComponentView>)
    ensures
        collect_seq(acc, init_seq(st, cs), cs) == defaults_seq(acc, cs),
    decreases cs,
{
    if cs.len() > 0 {
        let prev = init_seq(st, cs.drop_last());
        let c = cs.last();
        let t = init_one(prev, c);
        assert(t == init_seq(st, cs));
        lemma_untouched_form_reports_defaults(acc, st, cs.drop_last());
        let x = collect_seq(acc, t, cs.drop_last());
        let d = defaults_seq(acc, cs.drop_last());
        assert(collect_seq(acc, prev, cs.drop_last()) == d);
        lemma_init_one(prev, c);
        lemma_agree_refl(acc, ids_one(c));
        lemma_collect_agree_seq(acc, acc, t, prev, ids_one(c), cs.drop_last());
        assert(agree(x, d, ids_one(c)));
        assert(collect_seq(acc, t, cs) == collect_one(x, t, c));
        assert(defaults_seq(acc, cs) == defaults_one(d, c));
        match c {
            ComponentView::Card { children, .. } | ComponentView::Row { children, .. } | ComponentView::Collapsible { children, .. } => {
                assert(t == init_seq(prev, children));
                assert(ids_one(c) == ids_seq(children));
                lemma_untouched_form_reports_defaults(d, prev, children);
                assert forall|j: Seq<char>| #![trigger collect_seq(x, t, children).contains_key(j)]
                    collect_seq(x, t, children).contains_key(j) == collect_seq(d, t, children).contains_key(j)
                    && (collect_seq(x, t, children).contains_key(j) ==> collect_seq(x, t, children)[j] == collect_seq(d, t, children)[j]) by {
                    if !ids_seq(children).contains(j) {
                        assert(x.contains_key(j) == d.contains_key(j));
                    }
                    lemma_collect_inside_seq(x, d, t, children, j);
                }
                assert(collect_seq(x, t, children) =~= collect_seq(d, t, children));
            },
            _ => {
                match field_of(c) {
                    Some((k, s)) => {
                        lemma_collect_after_init(x, prev, c);
                        assert(ids_one(c) == set![k]);
                        assert forall|j: Seq<char>| #![trigger x.insert(k, default_json(c)).contains_key(j)]
                            x.insert(k, default_json(c)).contains_key(j) == d.insert(k, default_json(c)).contains_key(j)
                            && (x.insert(k, default_json(c)).contains_key(j) ==> x.insert(k, default_json(c))[j] == d.insert(k, default_json(c))[j]) by {
                            if j != k {
                                assert(!ids_one(c).contains(j));
                                assert(x.contains_key(j) == d.contains_key(j));
                            }
                        }
                        assert(x.insert(k, default_json(c)) =~= d.insert(k, default_json(c)));
                    },
                    None => {
                        assert(t == prev);
                        assert(x == d);
                    },
                }
            },
        }
    }
}

} // verus!
