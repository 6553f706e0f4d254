//! The state of a form being filled in: the initial value of each input
//! field, and the result values collected from it.
use vstd::prelude::*;
use vstd::arithmetic::power2::{pow2, lemma_pow2_unfold, lemma2_to64};
use crate::json::{Float64Bits, JsonNumber, JsonValue, JsonView, NumberRepr, number_from_f64, number_zero};
use crate::protocol::{
    A2NInput, ButtonAction, Component, ComponentView, component_view, components_view,
    lemma_components_view,
};
use crate::strmap::StrMap;
use crate::markdown::{find_at, find_chars};
use crate::text::{chars_of, slice_chars, string_from_chars, to_owned_string, push_str, push_char};

verus! {

/// The largest `k` with `2^k <= n`, for `n >= 1`.
pub open spec fn log2_floor(n: nat) -> nat
    decreases n,
{
    if n <= 1 { 0 } else { 1 + log2_floor(n / 2) }
}

/// The binary64 bit pattern of a whole number `n < 2^53`: sign 0, biased
/// exponent `1023 + k` for `k = log2_floor(n)`, and fraction
/// `(n - 2^k) * 2^(52 - k)`; zero for `n == 0`.
pub open spec fn f64_bits_of_nat(n: nat) -> nat {
    if n == 0 {
        0
    } else {
        let k = log2_floor(n);
        ((1023 + k) * pow2(52) + (n - pow2(k)) * pow2((52 - k) as nat)) as nat
    }
}

proof fn lemma_log2_floor(n: nat, k: nat)
    requires
        pow2(k) <= n < pow2(k + 1),
    ensures
        log2_floor(n) == k,
    decreases k,
{
    lemma_pow2_unfold(k + 1);
    if k == 0 {
        assert(pow2(0) == 1) by { lemma2_to64(); }
    } else {
        lemma_pow2_unfold(k);
        lemma_log2_floor(n / 2, (k - 1) as nat);
    }
}

/// The binary64 value of `n` (as `n as f64`).
pub fn u32_to_float(n: u32) -> (r: Float64Bits)
    ensures
        r.bits == f64_bits_of_nat(n as nat),
{
    if n == 0 {
        return Float64Bits { bits: 0 };
    }
    proof {
        lemma2_to64();
        vstd::arithmetic::power2::lemma2_to64_rest();
    }
    let nn = n as u64;
    let mut k: u64 = 0;
    let mut p: u64 = 1;
    while p <= nn / 2
        invariant
            1 <= p <= nn,
            nn <= 0xffff_ffff,
            p == pow2(k as nat),
            k <= 31,
            pow2(31) == 0x8000_0000,
        decreases nn - p,
    {
        proof {
            lemma_pow2_unfold((k + 1) as nat);
            if k == 31 {
                assert(p * 2 > nn);
            }
        }
        p = p * 2;
        k = k + 1;
    }
    proof {
        lemma_pow2_unfold((k + 1) as nat);
        lemma_log2_floor(nn as nat, k as nat);
    }
    let mut q: u64 = 1;
    let mut j: u64 = 0;
    while j < 52 - k
        invariant
            j <= 52 - k,
            k <= 31,
            q == pow2(j as nat),
            pow2(52) == 0x10_0000_0000_0000,
        decreases 52 - k - j,
    {
        proof {
            lemma_pow2_unfold((j + 1) as nat);
            vstd::arithmetic::power2::lemma_pow2_strictly_increases(j as nat, 52);
        }
        q = q * 2;
        j = j + 1;
    }
    proof {
        vstd::arithmetic::power2::lemma_pow2_adds(k as nat, (52 - k) as nat);
        assert((nn - p) * q < 0x10_0000_0000_0000) by (nonlinear_arith)
            requires
                nn - p < p,
                p * q == 0x10_0000_0000_0000,
                q > 0;
    }
    let bits = (1023 + k) * 0x10_0000_0000_0000 + (nn - p) * q;
    Float64Bits { bits }
}

/// How a form ended, as decided by the user or the clock.
#[derive(Debug, Clone, Copy, PartialEq, Eq, Structural)]
pub enum FormResult {
    Submitted,
    Cancelled,
    Timeout,
}

/// The values of a form's input fields while it is filled in, by component id.
#[derive(Debug)]
pub struct FormState {
    pub text_values: StrMap<String>,
    pub number_values: StrMap<Float64Bits>,
    pub bool_values: StrMap<bool>,
    pub checkbox_group_values: StrMap<Vec<String>>,
    /// The two texts of a date-and-time picker (date, time) or of a date
    /// range (start, end).
    pub pair_text_values: StrMap<(String, String)>,
    /// The two ends of a range slider (low, high).
    pub pair_number_values: StrMap<(Float64Bits, Float64Bits)>,
    pub result: Option<FormResult>,
}

/// The view of a `FormState`.
pub struct FormStateView {
    pub text: Map<Seq<char>, Seq<char>>,
    pub number: Map<Seq<char>, Float64Bits>,
    pub bools: Map<Seq<char>, bool>,
    pub groups: Map<Seq<char>, Seq<Seq<char>>>,
    pub pairs: Map<Seq<char>, (Seq<char>, Seq<char>)>,
    pub ranges: Map<Seq<char>, (Float64Bits, Float64Bits)>,
    pub result: Option<FormResult>,
}

impl View for FormState {
    type V = FormStateView;

    open spec fn view(&self) -> FormStateView {
        FormStateView {
            text: self.text_values@,
            number: self.number_values@,
            bools: self.bool_values@,
            groups: self.checkbox_group_values@,
            pairs: self.pair_text_values@,
            ranges: self.pair_number_values@,
            result: self.result,
        }
    }
}

/// An optional string, or the empty string.
pub open spec fn or_empty(o: Option<Seq<char>>) -> Seq<char> {
    match o {
        Some(s) => s,
        None => seq![],
    }
}

/// The zero of binary64.
pub open spec fn float_zero() -> Float64Bits {
    Float64Bits { bits: 0 }
}

/// The colour a colour picker starts with when the form gives none.
pub open spec fn default_color() -> Seq<char> {
    "#6C63FF"@
}

/// The date and the time of a `YYYY-MM-DD HH:MM` text: the parts before
/// and after its first space, or the whole text and no time.
pub open spec fn datetime_parts(v: Seq<char>) -> (Seq<char>, Seq<char>) {
    match find_at(v, seq![' '], 0) {
        Some(k) => (v.subrange(0, k), v.subrange(k + 1, v.len() as int)),
        None => (v, seq![]),
    }
}

/// The `YYYY-MM-DD HH:MM` text of a date and a time: the date alone where
/// no time is given.
pub open spec fn datetime_text(p: (Seq<char>, Seq<char>)) -> Seq<char> {
    if p.1.len() == 0 { p.0 } else { p.0 + seq![' '] + p.1 }
}

/// The JSON object `{"start": s, "end": e}` of a date range.
pub open spec fn date_range_json(p: (Seq<char>, Seq<char>)) -> JsonView {
    JsonView::Obj(seq![("start"@, JsonView::Str(p.0)), ("end"@, JsonView::Str(p.1))])
}

/// The JSON object `{"min": lo, "max": hi}` of a range slider.
pub open spec fn number_range_json(p: (Float64Bits, Float64Bits)) -> JsonView {
    JsonView::Obj(seq![("min"@, number_json(p.0)), ("max"@, number_json(p.1))])
}

/// The state after the initial value of component `c` (and of the
/// components that it lays out) has been set.
pub open spec fn init_one(st: FormStateView, c: ComponentView) -> FormStateView
    decreases c,
{
    match c {
        ComponentView::TextField { id, default_value, .. }
        | ComponentView::Textarea { id, default_value, .. }
        | ComponentView::DatePicker { id, default_value, .. }
        | ComponentView::TimePicker { id, default_value, .. }
        | ComponentView::Dropdown { id, default_value, .. }
        | ComponentView::RadioGroup { id, default_value, .. }
        | ComponentView::Email { id, default_value, .. }
        | ComponentView::Url { id, default_value, .. }
        | ComponentView::Combobox { id, default_value, .. } =>
            FormStateView { text: st.text.insert(id, or_empty(default_value)), ..st },
        ComponentView::ColorPicker { id, default_value, .. } => FormStateView {
            text: st.text.insert(id, match default_value { Some(v) => v, None => default_color() }),
            ..st
        },
        ComponentView::DatetimePicker { id, default_value, .. } =>
            FormStateView { pairs: st.pairs.insert(id, datetime_parts(or_empty(default_value))), ..st },
        ComponentView::DateRange { id, default_start, default_end, .. } => FormStateView {
            pairs: st.pairs.insert(id, (or_empty(default_start), or_empty(default_end))),
            ..st
        },
        ComponentView::RangeSlider { id, min, max, default_min, default_max, .. } => FormStateView {
            ranges: st.ranges.insert(
                id,
                (match default_min { Some(f) => f, None => min }, match default_max { Some(f) => f, None => max }),
            ),
            ..st
        },
        ComponentView::MultiSelect { id, default_values, .. }
        | ComponentView::Tags { id, default_values, .. } =>
            FormStateView { groups: st.groups.insert(id, default_values), ..st },
        ComponentView::NumberInput { id, default_value, .. } => FormStateView {
            number: st.number.insert(id, match default_value { Some(f) => f, None => float_zero() }),
            ..st
        },
        ComponentView::Checkbox { id, default_value, .. }
        | ComponentView::Toggle { id, default_value, .. } =>
            FormStateView { bools: st.bools.insert(id, default_value), ..st },
        ComponentView::CheckboxGroup { id, default_values, .. } =>
            FormStateView { groups: st.groups.insert(id, default_values), ..st },
        ComponentView::Slider { id, default_value, min, .. } => FormStateView {
            number: st.number.insert(id, match default_value { Some(f) => f, None => min }),
            ..st
        },
        ComponentView::FileUpload { id, .. } | ComponentView::Password { id, .. } =>
            FormStateView { text: st.text.insert(id, seq![]), ..st },
        ComponentView::Rating { id, default_value, .. } => FormStateView {
            number: st.number.insert(
                id,
                Float64Bits {
                    bits: f64_bits_of_nat(match default_value { Some(v) => v as nat, None => 0 }) as u64,
                },
            ),
            ..st
        },
        ComponentView::Card { children, .. }
        | ComponentView::Row { children, .. }
        | ComponentView::Collapsible { children, .. } =>
            init_seq(st, children),
        _ => st,
    }
}

/// The state after the initial values of `cs` have been set, in order.
pub open spec fn init_seq(st: FormStateView, cs: Seq<ComponentView>) -> FormStateView
    decreases cs,
{
    if cs.len() == 0 {
        st
    } else {
        init_one(init_seq(st, cs.drop_last()), cs.last())
    }
}

/// The state with no values and no result.
pub open spec fn empty_state() -> FormStateView {
    FormStateView {
        text: Map::empty(),
        number: Map::empty(),
        bools: Map::empty(),
        groups: Map::empty(),
        pairs: Map::empty(),
        ranges: Map::empty(),
        result: None,
    }
}

/// The JSON form of a number field's value: the number, or 0 where it is
/// not finite (as `Number::from_f64(v).unwrap_or(Number::from(0))`).
pub open spec fn number_json(f: Float64Bits) -> JsonView {
    if f.spec_is_finite() {
        JsonView::Num(JsonNumber { repr: NumberRepr::Float, float: f })
    } else {
        JsonView::Num(JsonNumber { repr: NumberRepr::PosInt(0), float: Float64Bits { bits: 0 } })
    }
}

/// The output values after those of component `c` (and of the components
/// that it lays out) have been collected from `st`.
pub open spec fn collect_one(acc: Map<Seq<char>, JsonView>, st: FormStateView, c: ComponentView) -> Map<Seq<char>, JsonView>
    decreases c,
{
    match c {
        ComponentView::TextField { id, .. }
        | ComponentView::Textarea { id, .. }
        | ComponentView::DatePicker { id, .. }
        | ComponentView::TimePicker { id, .. }
        | ComponentView::Dropdown { id, .. }
        | ComponentView::RadioGroup { id, .. }
        | ComponentView::FileUpload { id, .. }
        | ComponentView::Password { id, .. }
        | ComponentView::Email { id, .. }
        | ComponentView::Url { id, .. }
        | ComponentView::Combobox { id, .. }
        | ComponentView::ColorPicker { id, .. } =>
            if st.text.contains_key(id) { acc.insert(id, JsonView::Str(st.text[id])) } else { acc },
        ComponentView::NumberInput { id, .. }
        | ComponentView::Slider { id, .. }
        | ComponentView::Rating { id, .. } =>
            if st.number.contains_key(id) { acc.insert(id, number_json(st.number[id])) } else { acc },
        ComponentView::Checkbox { id, .. } | ComponentView::Toggle { id, .. } =>
            if st.bools.contains_key(id) { acc.insert(id, JsonView::Bool(st.bools[id])) } else { acc },
        ComponentView::CheckboxGroup { id, .. }
        | ComponentView::MultiSelect { id, .. }
        | ComponentView::Tags { id, .. } =>
            if st.groups.contains_key(id) {
                acc.insert(id, JsonView::Arr(st.groups[id].map_values(|s: Seq<char>| JsonView::Str(s))))
            } else {
                acc
            },
        ComponentView::DatetimePicker { id, .. } =>
            if st.pairs.contains_key(id) { acc.insert(id, JsonView::Str(datetime_text(st.pairs[id]))) } else { acc },
        ComponentView::DateRange { id, .. } =>
            if st.pairs.contains_key(id) { acc.insert(id, date_range_json(st.pairs[id])) } else { acc },
        ComponentView::RangeSlider { id, .. } =>
            if st.ranges.contains_key(id) { acc.insert(id, number_range_json(st.ranges[id])) } else { acc },
        ComponentView::Hidden { id, value } => acc.insert(id, value),
        ComponentView::Card { children, .. }
        | ComponentView::Row { children, .. }
        | ComponentView::Collapsible { children, .. } =>
            collect_seq(acc, st, children),
        _ => acc,
    }
}

/// The output values after those of `cs` have been collected from `st`, in order.
pub open spec fn collect_seq(acc: Map<Seq<char>, JsonView>, st: FormStateView, cs: Seq<ComponentView>) -> Map<Seq<char>, JsonView>
    decreases cs,
{
    if cs.len() == 0 {
        acc
    } else {
        collect_one(collect_seq(acc, st, cs.drop_last()), st, cs.last())
    }
}

/// Whether component `c` is, or lays out, a submit button.
pub open spec fn has_submit_one(c: ComponentView) -> bool
    decreases c,
{
    match c {
        ComponentView::Button { action, .. } => action == ButtonAction::Submit,
        ComponentView::Card { children, .. } | ComponentView::Row { children, .. } =>
            has_submit_seq(children),
        _ => false,
    }
}

/// Whether one of `cs` is, or lays out, a submit button.
pub open spec fn has_submit_seq(cs: Seq<ComponentView>) -> bool
    decreases cs,
{
    if cs.len() == 0 {
        false
    } else {
        has_submit_seq(cs.drop_last()) || has_submit_one(cs.last())
    }
}

/// A copy of a list of strings.
pub fn clone_strings(v: &Vec<String>) -> (r: Vec<String>)
    ensures
        r.deep_view() == v.deep_view(),
        r.deep_view() == v@.map_values(|s: String| s@),
{
    let mut r: Vec<String> = Vec::new();
    let mut i: usize = 0;
    while i < v.len()
        invariant
            i <= v.len(),
            r@.len() == i,
            forall|k: int| 0 <= k < i ==> #[trigger] r@[k]@ == v@[k]@,
        decreases v.len() - i,
    {
        r.push(v[i].clone());
        i = i + 1;
    }
    assert(r.deep_view() =~= v.deep_view());
    assert(r.deep_view() =~= v@.map_values(|s: String| s@));
    r
}

/// An optional string, or the empty string.
pub fn string_or_empty(o: &Option<String>) -> (r: String)
    ensures
        r@ == or_empty(crate::protocol::opt_str_view(*o)),
{
    match o {
        Some(s) => s.clone(),
        None => String::new(),
    }
}

impl FormState {
    /// The initial state of the form `input`: every input field holds its
    /// default value.
    pub fn from_input(input: &A2NInput) -> (r: FormState)
        ensures
            r@ == init_seq(empty_state(), input@.components),
    {
        let mut state = FormState {
            text_values: StrMap::new(),
            number_values: StrMap::new(),
            bool_values: StrMap::new(),
            checkbox_group_values: StrMap::new(),
            pair_text_values: StrMap::new(),
            pair_number_values: StrMap::new(),
            result: None,
        };
        Self::init_from_components(&mut state, &input.components);
        state
    }

    /// Sets the initial values of `components`, in order.
    pub fn init_from_components(state: &mut FormState, components: &Vec<Component>)
        ensures
            final(state)@ == init_seq(old(state)@, components_view(components@)),
        decreases components@,
    {
        let ghost cv = components_view(components@);
        proof {
            lemma_components_view(components@);
        }
        let mut i: usize = 0;
        assert(cv.take(0) =~= Seq::<ComponentView>::empty());
        while i < components.len()
            invariant
                i <= components.len(),
                cv == components_view(components@),
                cv.len() == components.len(),
                forall|k: int| 0 <= k < components.len() ==> #[trigger] cv[k] == component_view(components@[k]),
                state@ == init_seq(old(state)@, cv.take(i as int)),
            decreases components.len() - i,
        {
            let ghost before = state@;
            assert(cv.take(i + 1).drop_last() =~= cv.take(i as int));
            assert(cv.take(i + 1).last() == component_view(components@[i as int]));
            match &components[i] {
                Component::TextField { id, default_value, .. } => {
                    state.text_values.insert(id.clone(), string_or_empty(default_value));
                },
                Component::Textarea { id, default_value, .. } => {
                    state.text_values.insert(id.clone(), string_or_empty(default_value));
                },
                Component::DatePicker { id, default_value, .. } => {
                    state.text_values.insert(id.clone(), string_or_empty(default_value));
                },
                Component::TimePicker { id, default_value, .. } => {
                    state.text_values.insert(id.clone(), string_or_empty(default_value));
                },
                Component::Dropdown { id, default_value, .. } => {
                    state.text_values.insert(id.clone(), string_or_empty(default_value));
                },
                Component::RadioGroup { id, default_value, .. } => {
                    state.text_values.insert(id.clone(), string_or_empty(default_value));
                },
                Component::NumberInput { id, default_value, .. } => {
                    let v = match default_value {
                        Some(f) => *f,
                        None => Float64Bits { bits: 0 },
                    };
                    state.number_values.insert(id.clone(), v);
                },
                Component::Checkbox { id, default_value, .. } => {
                    state.bool_values.insert(id.clone(), *default_value);
                },
                Component::Toggle { id, default_value, .. } => {
                    state.bool_values.insert(id.clone(), *default_value);
                },
                Component::CheckboxGroup { id, default_values, .. } => {
                    state.checkbox_group_values.insert(id.clone(), clone_strings(default_values));
                },
                Component::Slider { id, default_value, min, .. } => {
                    let v = match default_value {
                        Some(f) => *f,
                        None => *min,
                    };
                    state.number_values.insert(id.clone(), v);
                },
                Component::FileUpload { id, .. } => {
                    state.text_values.insert(id.clone(), String::new());
                },
                Component::Password { id, .. } => {
                    state.text_values.insert(id.clone(), String::new());
                },
                Component::Rating { id, default_value, .. } => {
                    let n = match default_value {
                        Some(v) => *v,
                        None => 0,
                    };
                    state.number_values.insert(id.clone(), u32_to_float(n));
                },
                Component::Email { id, default_value, .. } => {
                    state.text_values.insert(id.clone(), string_or_empty(default_value));
                },
                Component::Url { id, default_value, .. } => {
                    state.text_values.insert(id.clone(), string_or_empty(default_value));
                },
                Component::Combobox { id, default_value, .. } => {
                    state.text_values.insert(id.clone(), string_or_empty(default_value));
                },
                Component::ColorPicker { id, default_value, .. } => {
                    let v = match default_value {
                        Some(c) => c.clone(),
                        None => to_owned_string("#6C63FF"),
                    };
                    state.text_values.insert(id.clone(), v);
                },
                Component::DatetimePicker { id, default_value, .. } => {
                    let v = string_or_empty(default_value);
                    state.pair_text_values.insert(id.clone(), split_datetime(&v));
                },
                Component::DateRange { id, default_start, default_end, .. } => {
                    state.pair_text_values.insert(
                        id.clone(),
                        (string_or_empty(default_start), string_or_empty(default_end)),
                    );
                },
                Component::RangeSlider { id, min, max, default_min, default_max, .. } => {
                    let lo = match default_min {
                        Some(f) => *f,
                        None => *min,
                    };
                    let hi = match default_max {
                        Some(f) => *f,
                        None => *max,
                    };
                    state.pair_number_values.insert(id.clone(), (lo, hi));
                },
                Component::MultiSelect { id, default_values, .. } => {
                    state.checkbox_group_values.insert(id.clone(), clone_strings(default_values));
                },
                Component::Tags { id, default_values, .. } => {
                    state.checkbox_group_values.insert(id.clone(), clone_strings(default_values));
                },
                Component::Collapsible { children, .. } => {
                    assert(decreases_to!(components@ => components@[i as int]));
                    Self::init_from_components(state, children);
                },
                Component::Card { children, .. } => {
                    assert(decreases_to!(components@ => components@[i as int]));
                    Self::init_from_components(state, children);
                },
                Component::Row { children, .. } => {
                    assert(decreases_to!(components@ => components@[i as int]));
                    Self::init_from_components(state, children);
                },
                _ => {
                },
            }
            assert(state@ == init_one(before, component_view(components@[i as int])));
            i = i + 1;
        }
        assert(cv.take(components.len() as int) =~= cv);
    }

    /// The output value of every input field of `components`, by id.
    pub fn collect_output(&self, components: &Vec<Component>) -> (r: StrMap<JsonValue>)
        ensures
            r@ == collect_seq(Map::empty(), self@, components_view(components@)),
    {
        let mut values = StrMap::new();
        self.collect_from_components(&mut values, components);
        values
    }

    /// Adds the output value of every input field of `components`, in order.
    pub fn collect_from_components(&self, values: &mut StrMap<JsonValue>, components: &Vec<Component>)
        ensures
            final(values)@ == collect_seq(old(values)@, self@, components_view(components@)),
        decreases components@,
    {
        let ghost cv = components_view(components@);
        proof {
            lemma_components_view(components@);
        }
        let mut i: usize = 0;
        assert(cv.take(0) =~= Seq::<ComponentView>::empty());
        while i < components.len()
            invariant
                i <= components.len(),
                cv == components_view(components@),
                cv.len() == components.len(),
                forall|k: int| 0 <= k < components.len() ==> #[trigger] cv[k] == component_view(components@[k]),
                values@ == collect_seq(old(values)@, self@, cv.take(i as int)),
            decreases components.len() - i,
        {
            assert(cv.take(i + 1).drop_last() =~= cv.take(i as int));
            assert(cv.take(i + 1).last() == component_view(components@[i as int]));
            let ghost before = values@;
            match &components[i] {
                Component::TextField { id, .. } => {
                    self.collect_text(values, id);
                },
                Component::Textarea { id, .. } => {
                    self.collect_text(values, id);
                },
                Component::DatePicker { id, .. } => {
                    self.collect_text(values, id);
                },
                Component::TimePicker { id, .. } => {
                    self.collect_text(values, id);
                },
                Component::Dropdown { id, .. } => {
                    self.collect_text(values, id);
                },
                Component::RadioGroup { id, .. } => {
                    self.collect_text(values, id);
                },
                Component::FileUpload { id, .. } => {
                    self.collect_text(values, id);
                },
                Component::Password { id, .. } => {
                    self.collect_text(values, id);
                },
                Component::NumberInput { id, .. } => {
                    self.collect_number(values, id);
                },
                Component::Slider { id, .. } => {
                    self.collect_number(values, id);
                },
                Component::Rating { id, .. } => {
                    self.collect_number(values, id);
                },
                Component::Checkbox { id, .. } => {
                    self.collect_bool(values, id);
                },
                Component::Toggle { id, .. } => {
                    self.collect_bool(values, id);
                },
                Component::CheckboxGroup { id, .. } => {
                    self.collect_group(values, id);
                },
                Component::Email { id, .. } => {
                    self.collect_text(values, id);
                },
                Component::Url { id, .. } => {
                    self.collect_text(values, id);
                },
                Component::Combobox { id, .. } => {
                    self.collect_text(values, id);
                },
                Component::ColorPicker { id, .. } => {
                    self.collect_text(values, id);
                },
                Component::MultiSelect { id, .. } => {
                    self.collect_group(values, id);
                },
                Component::Tags { id, .. } => {
                    self.collect_group(values, id);
                },
                Component::DatetimePicker { id, .. } => {
                    self.collect_datetime(values, id);
                },
                Component::DateRange { id, .. } => {
                    self.collect_date_range(values, id);
                },
                Component::RangeSlider { id, .. } => {
                    self.collect_number_range(values, id);
                },
                Component::Hidden { id, value } => {
                    values.insert(id.clone(), crate::json::json_clone(value));
                },
                Component::Collapsible { children, .. } => {
                    assert(decreases_to!(components@ => components@[i as int]));
                    self.collect_from_components(values, children);
                },
                Component::Card { children, .. } => {
                    assert(decreases_to!(components@ => components@[i as int]));
                    self.collect_from_components(values, children);
                },
                Component::Row { children, .. } => {
                    assert(decreases_to!(components@ => components@[i as int]));
                    self.collect_from_components(values, children);
                },
                _ => {
                },
            }
            assert(values@ == collect_one(before, self@, component_view(components@[i as int])));
            i = i + 1;
        }
        assert(cv.take(components.len() as int) =~= cv);
    }

    fn collect_text(&self, values: &mut StrMap<JsonValue>, id: &String)
        ensures
            final(values)@ == (if self@.text.contains_key(id@) {
                old(values)@.insert(id@, JsonView::Str(self@.text[id@]))
            } else {
                old(values)@
            }),
    {
        match self.text_values.get(id.as_str()) {
            Some(v) => {
                values.insert(id.clone(), JsonValue::Str(v.clone()));
            },
            None => {},
        }
    }

    fn collect_number(&self, values: &mut StrMap<JsonValue>, id: &String)
        ensures
            final(values)@ == (if self@.number.contains_key(id@) {
                old(values)@.insert(id@, number_json(self@.number[id@]))
            } else {
                old(values)@
            }),
    {
        match self.number_values.get(id.as_str()) {
            Some(v) => {
                values.insert(id.clone(), number_value(*v));
            },
            None => {},
        }
    }

    fn collect_datetime(&self, values: &mut StrMap<JsonValue>, id: &String)
        ensures
            final(values)@ == (if self@.pairs.contains_key(id@) {
                old(values)@.insert(id@, JsonView::Str(datetime_text(self@.pairs[id@])))
            } else {
                old(values)@
            }),
    {
        match self.pair_text_values.get(id.as_str()) {
            Some(p) => {
                values.insert(id.clone(), JsonValue::Str(join_datetime(&p.0, &p.1)));
            },
            None => {},
        }
    }

    fn collect_date_range(&self, values: &mut StrMap<JsonValue>, id: &String)
        ensures
            final(values)@ == (if self@.pairs.contains_key(id@) {
                old(values)@.insert(id@, date_range_json(self@.pairs[id@]))
            } else {
                old(values)@
            }),
    {
        match self.pair_text_values.get(id.as_str()) {
            Some(p) => {
                let v = two_entries(
                    to_owned_string("start"),
                    JsonValue::Str(p.0.clone()),
                    to_owned_string("end"),
                    JsonValue::Str(p.1.clone()),
                );
                proof {
                    reveal_strlit("start");
                    reveal_strlit("end");
                }
                assert(v@ == date_range_json(self@.pairs[id@]));
                values.insert(id.clone(), v);
            },
            None => {},
        }
    }

    fn collect_number_range(&self, values: &mut StrMap<JsonValue>, id: &String)
        ensures
            final(values)@ == (if self@.ranges.contains_key(id@) {
                old(values)@.insert(id@, number_range_json(self@.ranges[id@]))
            } else {
                old(values)@
            }),
    {
        match self.pair_number_values.get(id.as_str()) {
            Some(p) => {
                let v = two_entries(
                    to_owned_string("min"),
                    number_value(p.0),
                    to_owned_string("max"),
                    number_value(p.1),
                );
                assert(v@ == number_range_json(self@.ranges[id@]));
                values.insert(id.clone(), v);
            },
            None => {},
        }
    }

    fn collect_bool(&self, values: &mut StrMap<JsonValue>, id: &String)
        ensures
            final(values)@ == (if self@.bools.contains_key(id@) {
                old(values)@.insert(id@, JsonView::Bool(self@.bools[id@]))
            } else {
                old(values)@
            }),
    {
        match self.bool_values.get(id.as_str()) {
            Some(v) => {
                values.insert(id.clone(), JsonValue::Bool(*v));
            },
            None => {},
        }
    }

    fn collect_group(&self, values: &mut StrMap<JsonValue>, id: &String)
        ensures
            final(values)@ == (if self@.groups.contains_key(id@) {
                old(values)@.insert(id@, JsonView::Arr(self@.groups[id@].map_values(|s: Seq<char>| JsonView::Str(s))))
            } else {
                old(values)@
            }),
    {
        match self.checkbox_group_values.get(id.as_str()) {
            Some(v) => {
                values.insert(id.clone(), JsonValue::Arr(strings_to_json(v)));
            },
            None => {},
        }
    }
}

/// The JSON form of a number field's value.
fn number_value(f: Float64Bits) -> (r: JsonValue)
    ensures
        r@ == number_json(f),
{
    let n = match number_from_f64(f) {
        Some(n) => n,
        None => number_zero(),
    };
    JsonValue::Num(n)
}

/// The JSON object with the two entries `k1: v1` and `k2: v2`, in that order.
fn two_entries(k1: String, v1: JsonValue, k2: String, v2: JsonValue) -> (r: JsonValue)
    ensures
        r@ == JsonView::Obj(seq![(k1@, v1@), (k2@, v2@)]),
{
    let ghost a = (k1@, v1@);
    let ghost b = (k2@, v2@);
    let mut entries: Vec<(String, JsonValue)> = Vec::new();
    entries.push((k1, v1));
    entries.push((k2, v2));
    proof {
        crate::json::lemma_json_entries_view(entries@);
        assert(crate::json::json_entries_view(entries@) =~= seq![a, b]);
    }
    JsonValue::Obj(entries)
}

/// The date and the time of a `YYYY-MM-DD HH:MM` text.
pub fn split_datetime(v: &String) -> (r: (String, String))
    ensures
        (r.0@, r.1@) == datetime_parts(v@),
{
    let cs = chars_of(v.as_str());
    let sp = vec![' '];
    assert(sp@ =~= seq![' ']);
    match find_chars(cs.as_slice(), sp.as_slice(), 0) {
        Some(k) => {
            proof {
                crate::markdown::lemma_find_at(cs@, sp@, 0);
                assert(find_at(cs@, sp@, 0) == Some(k as int));
                assert(k < cs.len());
            }
            let date = slice_chars(cs.as_slice(), 0, k);
            let time = slice_chars(cs.as_slice(), k + 1, cs.len());
            (string_from_chars(date.as_slice()), string_from_chars(time.as_slice()))
        },
        None => (v.clone(), String::new()),
    }
}

/// The `YYYY-MM-DD HH:MM` text of a date and a time.
pub fn join_datetime(date: &String, time: &String) -> (r: String)
    ensures
        r@ == datetime_text((date@, time@)),
{
    let mut r = date.clone();
    if time.as_str().is_empty() {
        return r;
    }
    push_char(&mut r, ' ');
    push_str(&mut r, time.as_str());
    assert(r@ =~= date@ + seq![' '] + time@);
    r
}

/// JSON strings for a list of strings.
pub fn strings_to_json(v: &Vec<String>) -> (r: Vec<JsonValue>)
    ensures
        crate::json::json_seq_view(r@) == v.deep_view().map_values(|s: Seq<char>| JsonView::Str(s)),
{
    let mut r: Vec<JsonValue> = Vec::new();
    let mut i: usize = 0;
    while i < v.len()
        invariant
            i <= v.len(),
            r@.len() == i,
            forall|k: int| 0 <= k < i ==> #[trigger] crate::json::json_view(r@[k]) == JsonView::Str(v@[k]@),
        decreases v.len() - i,
    {
        r.push(JsonValue::Str(v[i].clone()));
        i = i + 1;
    }
    proof {
        crate::json::lemma_json_seq_view(r@);
        assert(crate::json::json_seq_view(r@) =~= v.deep_view().map_values(|s: Seq<char>| JsonView::Str(s)));
    }
    r
}

/// Whether `components` hold a submit button, directly or inside cards and rows.
pub fn check_has_submit(components: &Vec<Component>) -> (r: bool)
    ensures
        r == has_submit_seq(components_view(components@)),
    decreases components@,
{
    let ghost cv = components_view(components@);
    proof {
        lemma_components_view(components@);
    }
    let mut i: usize = 0;
    assert(cv.take(0) =~= Seq::<ComponentView>::empty());
    while i < components.len()
        invariant
            i <= components.len(),
            cv == components_view(components@),
            cv.len() == components.len(),
            forall|k: int| 0 <= k < components.len() ==> #[trigger] cv[k] == component_view(components@[k]),
            !has_submit_seq(cv.take(i as int)),
        decreases components.len() - i,
    {
        assert(cv.take(i + 1).drop_last() =~= cv.take(i as int));
        assert(cv.take(i + 1).last() == component_view(components@[i as int]));
        let found = match &components[i] {
            Component::Button { action, .. } => {
                let b = *action == ButtonAction::Submit;
                assert(has_submit_one(component_view(components@[i as int])) == b);
                b
            },
            Component::Card { children, .. } => {
                assert(decreases_to!(components@ => components@[i as int]));
                let b = check_has_submit(children);
                assert(has_submit_one(component_view(components@[i as int])) == b);
                b
            },
            Component::Row { children, .. } => {
                assert(decreases_to!(components@ => components@[i as int]));
                let b = check_has_submit(children);
                assert(has_submit_one(component_view(components@[i as int])) == b);
                b
            },
            _ => {
                assert(has_submit_one(component_view(components@[i as int])) == false);
                false
            },
        };
        if found {
            proof {
                lemma_has_submit_extends(cv, (i + 1) as int);
            }
            return true;
        }
        i = i + 1;
    }
    assert(cv.take(components.len() as int) =~= cv);
    false
}

proof fn lemma_has_submit_extends(cs: Seq<ComponentView>, n: int)
    requires
        0 <= n <= cs.len(),
        has_submit_seq(cs.take(n)),
    ensures
        has_submit_seq(cs),
    decreases cs.len() - n,
{
    if n < cs.len() {
        assert(cs.take(n + 1).drop_last() =~= cs.take(n));
        lemma_has_submit_extends(cs, n + 1);
    } else {
        assert(cs.take(n) =~= cs);
    }
}

} // verus!
