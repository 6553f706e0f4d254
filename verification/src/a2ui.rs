//! Google A2UI support: detection, conversion of `surfaceUpdate` /
//! `beginRendering` messages into an a2native form, and the `userAction`
//! reply.
use vstd::prelude::*;
use crate::json::{
    Float64Bits, JsonValue, JsonView, json_get, json_as_str, json_as_bool, json_as_array,
    json_as_i64, json_as_f64, jget, jidx, jas_str, jas_bool, jas_array, jas_i64, jas_f64,
    opt_json_view, json_view, is_record, record_field, optional_field, is_record_exec,
    record_field_exec, optional_field_exec, json_seq_view, lemma_json_seq_view, json_clone,
};
use crate::protocol::{
    A2NOutput, OutputStatus,
    A2NInput, A2NInputView, ButtonAction, Component, ComponentView, SelectOption,
    SelectOptionView, Theme, ThemeView, component_view, components_view, lemma_components_view,
    opt_str_view,
};
use crate::strmap::{StrMap, clone_json_map};
use crate::date::{days_to_ymd, is_valid_date, days_since_epoch};
use crate::text::{starts_with_seq, zero_pad, decimal, push_decimal_padded, str_contains, contains_seq, string_is, push_str, push_chars, chars_of, trim_chars, trim_start_char_chars, trim_seq, trim_start_char, to_owned_string};

verus! {

/// Whether `input` looks like A2UI JSONL: it holds `"surfaceUpdate"` or
/// `"beginRendering"`, quotes included.
pub fn is_a2ui(input: &str) -> (r: bool)
    ensures
        r == (contains_seq(input@, "\"surfaceUpdate\""@) || contains_seq(input@, "\"beginRendering\""@)),
{
    str_contains(input, "\"surfaceUpdate\"") || str_contains(input, "\"beginRendering\"")
}

/// The value of a string binding `{"literalString": "..."}`; `None` for any
/// other value (path bindings included).
pub open spec fn lit_str_spec(v: JsonView) -> Option<Seq<char>> {
    match jget(v, "literalString"@) {
        Some(x) => jas_str(x),
        None => None,
    }
}

/// The value of a string binding.
pub fn lit_str(v: &JsonValue) -> (r: Option<String>)
    ensures
        opt_str_view(r) == lit_str_spec(v@),
{
    match json_get(v, "literalString") {
        Some(x) => match json_as_str(x) {
            Some(s) => Some(s.clone()),
            None => None,
        },
        None => None,
    }
}

/// `Null` in place of a missing value.
pub open spec fn or_null(o: Option<JsonView>) -> JsonView {
    match o {
        Some(x) => x,
        None => JsonView::Null,
    }
}

/// The member `key` of `v`, or of nothing.
pub fn get_opt<'a>(v: Option<&'a JsonValue>, key: &str) -> (r: Option<&'a JsonValue>)
    ensures
        opt_json_view(r) == jget(or_null(opt_json_view(v)), key@),
{
    match v {
        Some(x) => json_get(x, key),
        None => None,
    }
}

/// The value of the string binding held by `v`, or by nothing.
pub fn lit_str_opt(v: Option<&JsonValue>) -> (r: Option<String>)
    ensures
        opt_str_view(r) == lit_str_spec(or_null(opt_json_view(v))),
{
    match v {
        Some(x) => lit_str(x),
        None => None,
    }
}

/// The string held by `v`, if it holds one.
pub fn str_opt(v: Option<&JsonValue>) -> (r: Option<&String>)
    ensures
        match r {
            Some(s) => jas_str(or_null(opt_json_view(v))) == Some(s@),
            None => jas_str(or_null(opt_json_view(v))) is None,
        },
{
    match v {
        Some(x) => json_as_str(x),
        None => None,
    }
}

/// The boolean held by `v`, if it holds one.
pub fn bool_opt(v: Option<&JsonValue>) -> (r: Option<bool>)
    ensures
        r == jas_bool(or_null(opt_json_view(v))),
{
    match v {
        Some(x) => json_as_bool(x),
        None => None,
    }
}

/// The number held by `v` as binary64, if it holds one.
pub fn f64_opt(v: Option<&JsonValue>) -> (r: Option<Float64Bits>)
    ensures
        r == jas_f64(or_null(opt_json_view(v))),
{
    match v {
        Some(x) => json_as_f64(x),
        None => None,
    }
}

/// A string, or a default.
pub open spec fn str_or(o: Option<Seq<char>>, d: Seq<char>) -> Seq<char> {
    match o {
        Some(s) => s,
        None => d,
    }
}

/// A flat component definition: id, type name and properties.
pub type FlatSpec = (Seq<char>, Seq<char>, JsonView);

/// The type name and properties of the last definition with id `id`.
pub open spec fn lookup(m: Seq<FlatSpec>, id: Seq<char>) -> Option<(Seq<char>, JsonView)>
    decreases m.len(),
{
    if m.len() == 0 {
        None
    } else if m.last().0 == id {
        Some((m.last().1, m.last().2))
    } else {
        lookup(m.drop_last(), id)
    }
}

/// The string elements of `props["children"]["explicitList"]`, in order.
pub open spec fn explicit_list(props: JsonView) -> Seq<Seq<char>> {
    match jas_array(jidx(jidx(props, "children"@), "explicitList"@)) {
        Some(a) => strings_of(a),
        None => seq![],
    }
}

/// The strings among `a`, in order.
pub open spec fn strings_of(a: Seq<JsonView>) -> Seq<Seq<char>>
    decreases a.len(),
{
    if a.len() == 0 {
        seq![]
    } else {
        let prev = strings_of(a.drop_last());
        match jas_str(a.last()) {
            Some(s) => prev.push(s),
            None => prev,
        }
    }
}

/// The component for an A2UI `Text`.
pub open spec fn text_spec(id: Seq<char>, props: JsonView) -> ComponentView {
    let text = str_or(lit_str_spec(jidx(props, "text"@)), seq![]);
    let hint = str_or(jas_str(jidx(props, "usageHint"@)), "body"@);
    let content = if hint == "h1"@ {
        "# "@ + text
    } else if hint == "h2"@ {
        "## "@ + text
    } else if hint == "h3"@ || hint == "h4"@ || hint == "h5"@ {
        "### "@ + text
    } else {
        text
    };
    if hint.len() > 0 && hint[0] == 'h' {
        ComponentView::Markdown { id, content }
    } else {
        ComponentView::Text { id, content }
    }
}

/// The component for an A2UI `Image`.
pub open spec fn image_spec(id: Seq<char>, props: JsonView) -> ComponentView {
    ComponentView::Image {
        id,
        src: str_or(lit_str_spec(jidx(props, "url"@)), seq![]),
        alt: lit_str_spec(jidx(props, "altText"@)),
    }
}

/// The component for an A2UI `Button`; its label is the text of the
/// component named by `child`.
pub open spec fn button_spec(id: Seq<char>, props: JsonView, m: Seq<FlatSpec>) -> ComponentView {
    let child_id = jas_str(jidx(props, "child"@));
    let from_child = match child_id {
        Some(cid) => match lookup(m, cid) {
            Some(entry) => lit_str_spec(jidx(entry.1, "text"@)),
            None => None,
        },
        None => None,
    };
    let label = match from_child {
        Some(l) => l,
        None => str_or(child_id, "Submit"@),
    };
    let action_name = str_or(jas_str(jidx(jidx(props, "action"@), "name"@)), "submit"@);
    ComponentView::Button {
        id,
        label,
        action: if action_name == "cancel"@ { ButtonAction::Cancel } else { ButtonAction::Submit },
    }
}

/// The component for an A2UI `TextField`.
pub open spec fn text_field_spec(id: Seq<char>, props: JsonView) -> ComponentView {
    let label = lit_str_spec(jidx(props, "label"@));
    let default_value = lit_str_spec(jidx(props, "text"@));
    let tf_type = str_or(jas_str(jidx(props, "textFieldType"@)), "singleline"@);
    if tf_type == "multiline"@ {
        ComponentView::Textarea {
            id,
            label,
            placeholder: None,
            required: false,
            default_value,
            min_length: None,
            max_length: None,
            pattern: None,
            error_message: None,
        }
    } else {
        ComponentView::TextField {
            id,
            label,
            placeholder: None,
            required: false,
            default_value,
            min_length: None,
            max_length: None,
            pattern: None,
            error_message: None,
        }
    }
}

/// The component for an A2UI `CheckBox`.
pub open spec fn check_box_spec(id: Seq<char>, props: JsonView) -> ComponentView {
    ComponentView::Checkbox {
        id,
        label: lit_str_spec(jidx(props, "label"@)),
        default_value: match jas_bool(jidx(jidx(props, "value"@), "literalBoolean"@)) {
            Some(b) => b,
            None => false,
        },
    }
}

/// The choices of an A2UI `MultipleChoice`: those with a string `value`,
/// labelled by their string binding `label`, or else by the value.
pub open spec fn options_spec(a: Seq<JsonView>) -> Seq<SelectOptionView>
    decreases a.len(),
{
    if a.len() == 0 {
        seq![]
    } else {
        let prev = options_spec(a.drop_last());
        let o = a.last();
        match jas_str(jidx(o, "value"@)) {
            Some(value) => prev.push(SelectOptionView {
                value,
                label: str_or(lit_str_spec(jidx(o, "label"@)), value),
            }),
            None => prev,
        }
    }
}

/// The component for an A2UI `MultipleChoice`: a dropdown or radio group
/// when one selection is allowed, a checkbox group otherwise.
pub open spec fn multiple_choice_spec(id: Seq<char>, props: JsonView) -> ComponentView {
    let options = match jas_array(jidx(props, "options"@)) {
        Some(a) => options_spec(a),
        None => seq![],
    };
    let max = match jas_i64(jidx(props, "maxAllowedSelections"@)) {
        Some(n) => n,
        None => i64::MAX,
    };
    let variant = str_or(jas_str(jidx(props, "variant"@)), "list"@);
    if max == 1 {
        if variant == "dropdown"@ {
            ComponentView::Dropdown { id, label: None, options, required: false, default_value: None }
        } else {
            ComponentView::RadioGroup { id, label: None, options, required: false, default_value: None }
        }
    } else {
        ComponentView::CheckboxGroup { id, label: None, options, default_values: seq![] }
    }
}

/// Binary64 `100.0`.
pub open spec fn float_hundred() -> Float64Bits {
    Float64Bits { bits: 0x4059_0000_0000_0000 }
}

/// The component for an A2UI `Slider`.
pub open spec fn slider_spec(id: Seq<char>, props: JsonView) -> ComponentView {
    ComponentView::Slider {
        id,
        label: lit_str_spec(jidx(props, "label"@)),
        min: match jas_f64(jidx(props, "minValue"@)) {
            Some(f) => f,
            None => Float64Bits { bits: 0 },
        },
        max: match jas_f64(jidx(props, "maxValue"@)) {
            Some(f) => f,
            None => float_hundred(),
        },
        step: None,
        default_value: jas_f64(jidx(jidx(props, "value"@), "literalNumber"@)),
    }
}

/// The component for an A2UI `DateTimeInput`: a time picker when only the
/// time is enabled, a date picker otherwise.
pub open spec fn date_time_spec(id: Seq<char>, props: JsonView) -> ComponentView {
    let enable_time = match jas_bool(jidx(props, "enableTime"@)) {
        Some(b) => b,
        None => false,
    };
    let enable_date = match jas_bool(jidx(props, "enableDate"@)) {
        Some(b) => b,
        None => true,
    };
    let default_value = lit_str_spec(jidx(props, "value"@));
    if enable_time && !enable_date {
        ComponentView::TimePicker { id, label: None, required: false, default_value }
    } else {
        ComponentView::DatePicker { id, label: None, required: false, default_value }
    }
}

/// Whether `t` names an A2UI layout container.
pub open spec fn is_container(t: Seq<char>) -> bool {
    t == "Column"@ || t == "Row"@ || t == "List"@
}

/// The ids of the definitions in `m`.
pub open spec fn defined_ids(m: Seq<FlatSpec>) -> Set<Seq<char>> {
    m.map_values(|f: FlatSpec| f.0).to_set()
}

/// How many defined ids are not on `path`; it shrinks at each step into
/// the children of a component.
pub open spec fn unvisited(m: Seq<FlatSpec>, path: Set<Seq<char>>) -> nat {
    defined_ids(m).difference(path).len()
}

/// A defined id is among the defined ids.
pub proof fn lemma_lookup_defined(m: Seq<FlatSpec>, id: Seq<char>)
    requires
        lookup(m, id) is Some,
    ensures
        defined_ids(m).contains(id),
    decreases m.len(),
{
    if m.last().0 == id {
        assert(m.map_values(|f: FlatSpec| f.0)[m.len() - 1] == id);
    } else {
        lemma_lookup_defined(m.drop_last(), id);
        let s = m.drop_last().map_values(|f: FlatSpec| f.0);
        assert(s.contains(id));
        let k = choose|k: int| 0 <= k < s.len() && #[trigger] s[k] == id;
        assert(m.map_values(|f: FlatSpec| f.0)[k] == id);
    }
}

/// Stepping into the children of a defined component that is not on the
/// path leaves fewer ids unvisited.
pub proof fn lemma_unvisited_shrinks(m: Seq<FlatSpec>, path: Set<Seq<char>>, id: Seq<char>)
    requires
        lookup(m, id) is Some,
        !path.contains(id),
    ensures
        unvisited(m, path.insert(id)) < unvisited(m, path),
{
    lemma_lookup_defined(m, id);
    let d = defined_ids(m);
    vstd::seq_lib::seq_to_set_is_finite(m.map_values(|f: FlatSpec| f.0));
    vstd::set::axiom_set_difference_finite(d, path);
    assert(d.difference(path.insert(id)) =~= d.difference(path).remove(id));
    vstd::set::axiom_set_remove_len(d.difference(path), id);
}

/// The conversion of the A2UI component `id`, inside the conversions of the
/// components on `path` (those whose children are being converted): `None`
/// when `id` is on the path, so that the component would contain itself and
/// its conversion would never end; `Some(None)` when `id` is unknown, of an
/// unsupported type, or a container without convertible children;
/// `Some(Some(c))` otherwise.
pub open spec fn convert_spec(id: Seq<char>, m: Seq<FlatSpec>, path: Set<Seq<char>>) -> Option<Option<ComponentView>>
    decreases unvisited(m, path), 0int,
{
    if path.contains(id) {
        None
    } else {
        match lookup(m, id) {
            None => Some(None),
            Some(entry) => {
                let t = entry.0;
                let props = entry.1;
                if t == "Text"@ {
                    Some(Some(text_spec(id, props)))
                } else if t == "Image"@ {
                    Some(Some(image_spec(id, props)))
                } else if t == "Divider"@ {
                    Some(Some(ComponentView::Divider { id }))
                } else if t == "Button"@ {
                    Some(Some(button_spec(id, props, m)))
                } else if t == "TextField"@ {
                    Some(Some(text_field_spec(id, props)))
                } else if t == "CheckBox"@ {
                    Some(Some(check_box_spec(id, props)))
                } else if t == "MultipleChoice"@ {
                    Some(Some(multiple_choice_spec(id, props)))
                } else if t == "Slider"@ {
                    Some(Some(slider_spec(id, props)))
                } else if t == "DateTimeInput"@ {
                    Some(Some(date_time_spec(id, props)))
                } else if is_container(t) {
                    proof {
                        lemma_unvisited_shrinks(m, path, id);
                    }
                    match convert_all(explicit_list(props), m, path.insert(id)) {
                        None => None,
                        Some(children) => if children.len() == 0 {
                            Some(None)
                        } else {
                            Some(Some(ComponentView::Card { id, title: None, children }))
                        },
                    }
                } else if t == "Card"@ {
                    match jas_str(jidx(props, "child"@)) {
                        None => Some(None),
                        Some(cid) => {
                            proof {
                                lemma_unvisited_shrinks(m, path, id);
                            }
                            match convert_spec(cid, m, path.insert(id)) {
                                None => None,
                                Some(None) => Some(None),
                                Some(Some(c)) => Some(Some(ComponentView::Card { id, title: None, children: seq![c] })),
                            }
                        },
                    }
                } else {
                    Some(None)
                }
            },
        }
    }
}

/// The conversions of `ids` that yield a component, in order; `None` when
/// one of them would contain itself.
pub open spec fn convert_all(ids: Seq<Seq<char>>, m: Seq<FlatSpec>, path: Set<Seq<char>>) -> Option<Seq<ComponentView>>
    decreases unvisited(m, path), ids.len() + 1,
{
    if ids.len() == 0 {
        Some(seq![])
    } else {
        match convert_all(ids.drop_last(), m, path) {
            None => None,
            Some(prev) => match convert_spec(ids.last(), m, path) {
                None => None,
                Some(None) => Some(prev),
                Some(Some(c)) => Some(prev.push(c)),
            },
        }
    }
}

/// An A2UI `DateTimeInput` becomes a time picker exactly when its
/// `enableTime` is `true` and its `enableDate` is `false`; otherwise (the
/// date enabled or not said, or the time not enabled) a date picker. Either
/// way it keeps the entry's id, has no label, is not required, and starts
/// with the text of its `value` literal.
pub proof fn lemma_date_time_input(id: Seq<char>, m: Seq<FlatSpec>, path: Set<Seq<char>>, props: JsonView)
    requires
        lookup(m, id) == Some(("DateTimeInput"@, props)),
        !path.contains(id),
    ensures
        jidx(props, "enableTime"@) == JsonView::Bool(true) && jidx(props, "enableDate"@) == JsonView::Bool(false)
            ==> convert_spec(id, m, path) == Some(Some(ComponentView::TimePicker {
                id,
                label: None,
                required: false,
                default_value: lit_str_spec(jidx(props, "value"@)),
            })),
        !(jidx(props, "enableTime"@) == JsonView::Bool(true) && jidx(props, "enableDate"@) == JsonView::Bool(false))
            ==> convert_spec(id, m, path) == Some(Some(ComponentView::DatePicker {
                id,
                label: None,
                required: false,
                default_value: lit_str_spec(jidx(props, "value"@)),
            })),
{
    reveal_strlit("DateTimeInput");
    reveal_strlit("Text");
    reveal_strlit("Image");
    reveal_strlit("Divider");
    reveal_strlit("Button");
    reveal_strlit("TextField");
    reveal_strlit("CheckBox");
    reveal_strlit("MultipleChoice");
    reveal_strlit("Slider");
    let t: Seq<char> = "DateTimeInput"@;
    assert(t != "Text"@ && t != "Image"@ && t != "Divider"@ && t != "Button"@) by {
        assert(t.len() == 13);
    }
    assert(t != "TextField"@ && t != "CheckBox"@ && t != "Slider"@) by {
        assert(t.len() == 13);
    }
    assert(t != "MultipleChoice"@) by {
        assert(t[0] == 'D');
    }
    assert(convert_spec(id, m, path) == Some(Some(date_time_spec(id, props))));
}

/// The view of a list of flat component definitions.
pub open spec fn flat_view(m: Seq<(String, String, JsonValue)>) -> Seq<FlatSpec> {
    m.map_values(|e: (String, String, JsonValue)| (e.0@, e.1@, json_view(e.2)))
}

/// The type name and properties of the last definition with id `id`.
pub fn lookup_exec<'a>(m: &'a Vec<(String, String, JsonValue)>, id: &str) -> (r: Option<(&'a String, &'a JsonValue)>)
    ensures
        match r {
            Some(e) => lookup(flat_view(m@), id@) == Some((e.0@, e.1@)),
            None => lookup(flat_view(m@), id@) is None,
        },
{
    let ghost fv = flat_view(m@);
    let mut i = m.len();
    assert(fv.take(i as int) =~= fv);
    while i > 0
        invariant
            i <= m.len(),
            fv == flat_view(m@),
            lookup(fv, id@) == lookup(fv.take(i as int), id@),
        decreases i,
    {
        let ghost t = fv.take(i as int);
        assert(t.drop_last() =~= fv.take(i - 1));
        assert(t.last() == fv[i - 1]);
        if string_is(&m[i - 1].0, id) {
            return Some((&m[i - 1].1, &m[i - 1].2));
        }
        i = i - 1;
    }
    assert(fv.take(0) =~= Seq::<FlatSpec>::empty());
    None
}

/// A string, or a default literal.
pub fn string_or(o: Option<&String>, d: &str) -> (r: String)
    ensures
        r@ == str_or(match o { Some(s) => Some(s@), None => None }, d@),
{
    match o {
        Some(s) => s.clone(),
        None => to_owned_string(d),
    }
}

/// A string, or a default literal.
pub fn owned_string_or(o: Option<String>, d: &str) -> (r: String)
    ensures
        r@ == str_or(opt_str_view(o), d@),
{
    match o {
        Some(s) => s,
        None => to_owned_string(d),
    }
}

/// The strings among the elements of `a`, in order.
pub fn strings_of_exec(a: &Vec<JsonValue>) -> (r: Vec<String>)
    ensures
        r@.map_values(|s: String| s@) == strings_of(json_seq_view(a@)),
{
    let ghost av = json_seq_view(a@);
    proof {
        lemma_json_seq_view(a@);
    }
    let mut r: Vec<String> = Vec::new();
    let mut i: usize = 0;
    assert(av.take(0) =~= Seq::<JsonView>::empty());
    assert(r@.map_values(|s: String| s@) =~= Seq::<Seq<char>>::empty());
    while i < a.len()
        invariant
            i <= a.len(),
            av == json_seq_view(a@),
            av.len() == a.len(),
            forall|k: int| 0 <= k < a.len() ==> #[trigger] av[k] == json_view(a@[k]),
            r@.map_values(|s: String| s@) == strings_of(av.take(i as int)),
        decreases a.len() - i,
    {
        let ghost t = av.take(i + 1);
        assert(t.drop_last() =~= av.take(i as int));
        assert(t.last() == json_view(a@[i as int]));
        match json_as_str(&a[i]) {
            Some(x) => {
                let ghost before = r@;
                r.push(x.clone());
                assert(r@.map_values(|s: String| s@) =~= before.map_values(|s: String| s@).push(x@));
            },
            None => {},
        }
        i = i + 1;
    }
    assert(av.take(a.len() as int) =~= av);
    r
}

/// The string elements of `props["children"]["explicitList"]`, in order.
pub fn explicit_list_exec(props: &JsonValue) -> (r: Vec<String>)
    ensures
        r@.map_values(|s: String| s@) == explicit_list(props@),
{
    let l = get_opt(json_get(props, "children"), "explicitList");
    match l {
        Some(x) => match json_as_array(x) {
            Some(a) => strings_of_exec(a),
            None => {
                let r: Vec<String> = Vec::new();
                assert(r@.map_values(|s: String| s@) =~= Seq::<Seq<char>>::empty());
                r
            },
        },
        None => {
            let r: Vec<String> = Vec::new();
            assert(r@.map_values(|s: String| s@) =~= Seq::<Seq<char>>::empty());
            r
        },
    }
}

/// The component for an A2UI `Text`.
pub fn text_exec(id: &String, props: &JsonValue) -> (r: Component)
    ensures
        r@ == text_spec(id@, props@),
{
    proof {
        reveal_strlit("");
    }
    let text = owned_string_or(lit_str_opt(json_get(props, "text")), "");
    let hint = string_or(str_opt(json_get(props, "usageHint")), "body");
    let mut content = String::new();
    if string_is(&hint, "h1") {
        push_str(&mut content, "# ");
        push_str(&mut content, text.as_str());
    } else if string_is(&hint, "h2") {
        push_str(&mut content, "## ");
        push_str(&mut content, text.as_str());
    } else if string_is(&hint, "h3") || string_is(&hint, "h4") || string_is(&hint, "h5") {
        push_str(&mut content, "### ");
        push_str(&mut content, text.as_str());
    } else {
        push_str(&mut content, text.as_str());
    }
    let hc = chars_of(hint.as_str());
    if hc.len() > 0 && hc[0] == 'h' {
        Component::Markdown { id: id.clone(), content }
    } else {
        Component::Text { id: id.clone(), content }
    }
}

/// The component for an A2UI `Image`.
pub fn image_exec(id: &String, props: &JsonValue) -> (r: Component)
    ensures
        r@ == image_spec(id@, props@),
{
    proof {
        reveal_strlit("");
    }
    let src = owned_string_or(lit_str_opt(json_get(props, "url")), "");
    let alt = lit_str_opt(json_get(props, "altText"));
    assert(src@ == str_or(lit_str_spec(jidx(props@, "url"@)), seq![]));
    Component::Image { id: id.clone(), src, alt }
}

/// The component for an A2UI `Button`.
pub fn button_exec(id: &String, props: &JsonValue, m: &Vec<(String, String, JsonValue)>) -> (r: Component)
    ensures
        r@ == button_spec(id@, props@, flat_view(m@)),
{
    let child_id = str_opt(json_get(props, "child"));
    let from_child = match child_id {
        Some(cid) => match lookup_exec(m, cid.as_str()) {
            Some(entry) => lit_str_opt(json_get(entry.1, "text")),
            None => None,
        },
        None => None,
    };
    let label = match from_child {
        Some(l) => l,
        None => string_or(child_id, "Submit"),
    };
    let action_name = string_or(str_opt(get_opt(json_get(props, "action"), "name")), "submit");
    let action = if string_is(&action_name, "cancel") {
        ButtonAction::Cancel
    } else {
        ButtonAction::Submit
    };
    Component::Button { id: id.clone(), label, action }
}

/// The component for an A2UI `TextField`.
pub fn text_field_exec(id: &String, props: &JsonValue) -> (r: Component)
    ensures
        r@ == text_field_spec(id@, props@),
{
    let label = lit_str_opt(json_get(props, "label"));
    let default_value = lit_str_opt(json_get(props, "text"));
    let tf_type = string_or(str_opt(json_get(props, "textFieldType")), "singleline");
    if string_is(&tf_type, "multiline") {
        Component::Textarea {
            id: id.clone(),
            label,
            placeholder: None,
            required: false,
            default_value,
            min_length: None,
            max_length: None,
            pattern: None,
            error_message: None,
        }
    } else {
        Component::TextField {
            id: id.clone(),
            label,
            placeholder: None,
            required: false,
            default_value,
            min_length: None,
            max_length: None,
            pattern: None,
            error_message: None,
        }
    }
}

/// The component for an A2UI `CheckBox`.
pub fn check_box_exec(id: &String, props: &JsonValue) -> (r: Component)
    ensures
        r@ == check_box_spec(id@, props@),
{
    let default_value = match bool_opt(get_opt(json_get(props, "value"), "literalBoolean")) {
        Some(b) => b,
        None => false,
    };
    Component::Checkbox { id: id.clone(), label: lit_str_opt(json_get(props, "label")), default_value }
}

/// The choices of an A2UI `MultipleChoice`.
pub fn options_exec(a: &Vec<JsonValue>) -> (r: Vec<SelectOption>)
    ensures
        r@.map_values(|o: SelectOption| o@) == options_spec(json_seq_view(a@)),
{
    let ghost av = json_seq_view(a@);
    proof {
        lemma_json_seq_view(a@);
    }
    let mut r: Vec<SelectOption> = Vec::new();
    let mut i: usize = 0;
    assert(av.take(0) =~= Seq::<JsonView>::empty());
    assert(r@.map_values(|o: SelectOption| o@) =~= Seq::<SelectOptionView>::empty());
    while i < a.len()
        invariant
            i <= a.len(),
            av == json_seq_view(a@),
            av.len() == a.len(),
            forall|k: int| 0 <= k < a.len() ==> #[trigger] av[k] == json_view(a@[k]),
            r@.map_values(|o: SelectOption| o@) == options_spec(av.take(i as int)),
        decreases a.len() - i,
    {
        let ghost t = av.take(i + 1);
        assert(t.drop_last() =~= av.take(i as int));
        assert(t.last() == json_view(a@[i as int]));
        let o = &a[i];
        match str_opt(json_get(o, "value")) {
            Some(value) => {
                let label = match lit_str_opt(json_get(o, "label")) {
                    Some(l) => l,
                    None => value.clone(),
                };
                let ghost before = r@;
                let opt = SelectOption { value: value.clone(), label };
                let ghost ov = opt@;
                r.push(opt);
                assert(r@.map_values(|o: SelectOption| o@) =~= before.map_values(|o: SelectOption| o@).push(ov));
            },
            None => {},
        }
        i = i + 1;
    }
    assert(av.take(a.len() as int) =~= av);
    r
}

/// The component for an A2UI `MultipleChoice`.
pub fn multiple_choice_exec(id: &String, props: &JsonValue) -> (r: Component)
    ensures
        r@ == multiple_choice_spec(id@, props@),
{
    let options = match json_get(props, "options") {
        Some(x) => match json_as_array(x) {
            Some(a) => options_exec(a),
            None => {
                let v: Vec<SelectOption> = Vec::new();
                assert(v@.map_values(|o: SelectOption| o@) =~= Seq::<SelectOptionView>::empty());
                v
            },
        },
        None => {
            let v: Vec<SelectOption> = Vec::new();
            assert(v@.map_values(|o: SelectOption| o@) =~= Seq::<SelectOptionView>::empty());
            v
        },
    };
    let max = match json_get(props, "maxAllowedSelections") {
        Some(x) => match json_as_i64(x) {
            Some(n) => n,
            None => 0x7fff_ffff_ffff_ffffi64,
        },
        None => 0x7fff_ffff_ffff_ffffi64,
    };
    let variant = string_or(str_opt(json_get(props, "variant")), "list");
    if max == 1 {
        if string_is(&variant, "dropdown") {
            Component::Dropdown { id: id.clone(), label: None, options, required: false, default_value: None }
        } else {
            Component::RadioGroup { id: id.clone(), label: None, options, required: false, default_value: None }
        }
    } else {
        let default_values: Vec<String> = Vec::new();
        assert(default_values@.map_values(|s: String| s@) =~= Seq::<Seq<char>>::empty());
        Component::CheckboxGroup { id: id.clone(), label: None, options, default_values }
    }
}

/// The component for an A2UI `Slider`.
pub fn slider_exec(id: &String, props: &JsonValue) -> (r: Component)
    ensures
        r@ == slider_spec(id@, props@),
{
    let min = match f64_opt(json_get(props, "minValue")) {
        Some(f) => f,
        None => Float64Bits { bits: 0 },
    };
    let max = match f64_opt(json_get(props, "maxValue")) {
        Some(f) => f,
        None => Float64Bits { bits: 0x4059_0000_0000_0000 },
    };
    Component::Slider {
        id: id.clone(),
        label: lit_str_opt(json_get(props, "label")),
        min,
        max,
        step: None,
        default_value: f64_opt(get_opt(json_get(props, "value"), "literalNumber")),
    }
}

/// The component for an A2UI `DateTimeInput`.
pub fn date_time_exec(id: &String, props: &JsonValue) -> (r: Component)
    ensures
        r@ == date_time_spec(id@, props@),
{
    let enable_time = match bool_opt(json_get(props, "enableTime")) {
        Some(b) => b,
        None => false,
    };
    let enable_date = match bool_opt(json_get(props, "enableDate")) {
        Some(b) => b,
        None => true,
    };
    let default_value = lit_str_opt(json_get(props, "value"));
    if enable_time && !enable_date {
        Component::TimePicker { id: id.clone(), label: None, required: false, default_value }
    } else {
        Component::DatePicker { id: id.clone(), label: None, required: false, default_value }
    }
}

/// The view of a conversion result.
pub open spec fn conv_view(r: Option<Option<Component>>) -> Option<Option<ComponentView>> {
    match r {
        None => None,
        Some(None) => Some(None),
        Some(Some(c)) => Some(Some(c@)),
    }
}

/// The view of a list of strings.
pub open spec fn strings_view(v: Seq<String>) -> Seq<Seq<char>> {
    v.map_values(|s: String| s@)
}

proof fn lemma_components_view_push(s: Seq<Component>, c: Component)
    ensures
        components_view(s.push(c)) == components_view(s).push(c@),
{
    lemma_components_view(s);
    lemma_components_view(s.push(c));
    assert(components_view(s.push(c)) =~= components_view(s).push(c@));
}

proof fn lemma_convert_all_stuck(ids: Seq<Seq<char>>, m: Seq<FlatSpec>, path: Set<Seq<char>>, n: int)
    requires
        0 <= n <= ids.len(),
        convert_all(ids.take(n), m, path) is None,
    ensures
        convert_all(ids, m, path) is None,
    decreases ids.len() - n,
{
    if n < ids.len() {
        assert(ids.take(n + 1).drop_last() =~= ids.take(n));
        lemma_convert_all_stuck(ids, m, path, n + 1);
    } else {
        assert(ids.take(n) =~= ids);
    }
}

/// Whether `id` is one of `path`.
fn on_path(path: &Vec<String>, id: &str) -> (r: bool)
    ensures
        r == strings_view(path@).contains(id@),
{
    let mut i: usize = 0;
    while i < path.len()
        invariant
            i <= path.len(),
            forall|k: int| 0 <= k < i ==> strings_view(path@)[k] != id@,
        decreases path.len() - i,
    {
        if string_is(&path[i], id) {
            assert(strings_view(path@)[i as int] == id@);
            return true;
        }
        i = i + 1;
    }
    false
}

/// `path` with `id` added.
fn extend_path(path: &Vec<String>, id: &String) -> (r: Vec<String>)
    ensures
        strings_view(r@).to_set() == strings_view(path@).to_set().insert(id@),
{
    let mut r = crate::form::clone_strings(path);
    r.push(id.clone());
    proof {
        assert(strings_view(r@) =~= strings_view(path@) + seq![id@]);
        Seq::<Seq<char>>::lemma_to_set_insert_commutes(strings_view(path@), id@);
    }
    r
}

/// Converts the A2UI component `id` inside the conversions of the
/// components on `path`.
pub fn convert(id: &String, m: &Vec<(String, String, JsonValue)>, path: &Vec<String>) -> (r: Option<Option<Component>>)
    ensures
        conv_view(r) == convert_spec(id@, flat_view(m@), strings_view(path@).to_set()),
    decreases unvisited(flat_view(m@), strings_view(path@).to_set()), 0int,
{
    if on_path(path, id.as_str()) {
        return None;
    }
    match lookup_exec(m, id.as_str()) {
        None => Some(None),
        Some(entry) => {
            let t = entry.0;
            let props = entry.1;
            if string_is(t, "Text") {
                Some(Some(text_exec(id, props)))
            } else if string_is(t, "Image") {
                Some(Some(image_exec(id, props)))
            } else if string_is(t, "Divider") {
                Some(Some(Component::Divider { id: id.clone() }))
            } else if string_is(t, "Button") {
                Some(Some(button_exec(id, props, m)))
            } else if string_is(t, "TextField") {
                Some(Some(text_field_exec(id, props)))
            } else if string_is(t, "CheckBox") {
                Some(Some(check_box_exec(id, props)))
            } else if string_is(t, "MultipleChoice") {
                Some(Some(multiple_choice_exec(id, props)))
            } else if string_is(t, "Slider") {
                Some(Some(slider_exec(id, props)))
            } else if string_is(t, "DateTimeInput") {
                Some(Some(date_time_exec(id, props)))
            } else if string_is(t, "Column") || string_is(t, "Row") || string_is(t, "List") {
                proof {
                    lemma_unvisited_shrinks(flat_view(m@), strings_view(path@).to_set(), id@);
                }
                let ids = explicit_list_exec(props);
                let inner = extend_path(path, id);
                match convert_all_exec(&ids, m, &inner) {
                    None => None,
                    Some(children) => {
                        if children.len() == 0 {
                            Some(None)
                        } else {
                            Some(Some(Component::Card { id: id.clone(), title: None, children }))
                        }
                    },
                }
            } else if string_is(t, "Card") {
                match str_opt(json_get(props, "child")) {
                    None => Some(None),
                    Some(cid) => {
                        proof {
                            lemma_unvisited_shrinks(flat_view(m@), strings_view(path@).to_set(), id@);
                        }
                        let inner = extend_path(path, id);
                        match convert(cid, m, &inner) {
                            None => None,
                            Some(None) => Some(None),
                            Some(Some(c)) => {
                                let ghost cv = c@;
                                let children = vec![c];
                                proof {
                                    lemma_components_view(children@);
                                    assert(components_view(children@) =~= seq![cv]);
                                }
                                Some(Some(Component::Card { id: id.clone(), title: None, children }))
                            },
                        }
                    },
                }
            } else {
                Some(None)
            }
        },
    }
}

/// Converts each of `ids` inside the conversions of the components on
/// `path`, keeping the components that result.
pub fn convert_all_exec(ids: &Vec<String>, m: &Vec<(String, String, JsonValue)>, path: &Vec<String>) -> (r: Option<Vec<Component>>)
    ensures
        match r {
            Some(v) => convert_all(strings_view(ids@), flat_view(m@), strings_view(path@).to_set()) == Some(components_view(v@)),
            None => convert_all(strings_view(ids@), flat_view(m@), strings_view(path@).to_set()) is None,
        },
    decreases unvisited(flat_view(m@), strings_view(path@).to_set()), ids@.len() + 1,
{
    let ghost iv = strings_view(ids@);
    let ghost fm = flat_view(m@);
    let ghost ps = strings_view(path@).to_set();
    let mut out: Vec<Component> = Vec::new();
    let mut i: usize = 0;
    assert(iv.take(0) =~= Seq::<Seq<char>>::empty());
    assert(components_view(out@) =~= Seq::<ComponentView>::empty());
    while i < ids.len()
        invariant
            i <= ids.len(),
            iv == strings_view(ids@),
            fm == flat_view(m@),
            ps == strings_view(path@).to_set(),
            convert_all(iv.take(i as int), fm, ps) == Some(components_view(out@)),
        decreases ids.len() - i,
    {
        let ghost t = iv.take(i + 1);
        assert(t.drop_last() =~= iv.take(i as int));
        assert(t.last() == ids@[i as int]@);
        match convert(&ids[i], m, path) {
            None => {
                proof {
                    lemma_convert_all_stuck(iv, fm, ps, i + 1);
                }
                return None;
            },
            Some(None) => {},
            Some(Some(c)) => {
                proof {
                    lemma_components_view_push(out@, c);
                }
                out.push(c);
            },
        }
        i = i + 1;
    }
    assert(iv.take(ids.len() as int) =~= iv);
    Some(out)
}

/// One entry of an A2UI flat component list.  `component` is an object
/// whose first key is the type name and whose value holds the properties.
#[derive(Debug)]
pub struct A2UIComponent {
    pub id: String,
    pub component: JsonValue,
}

/// The view of an `A2UIComponent`.
pub struct A2UIComponentView {
    pub id: Seq<char>,
    pub component: JsonView,
}

impl View for A2UIComponent {
    type V = A2UIComponentView;

    open spec fn view(&self) -> A2UIComponentView {
        A2UIComponentView { id: self.id@, component: json_view(self.component) }
    }
}

/// Provides a flat list of component definitions for a surface.
#[derive(Debug)]
pub struct SurfaceUpdate {
    pub surface_id: String,
    pub components: Vec<A2UIComponent>,
}

/// The view of a `SurfaceUpdate`.
pub struct SurfaceUpdateView {
    pub surface_id: Seq<char>,
    pub components: Seq<A2UIComponentView>,
}

impl View for SurfaceUpdate {
    type V = SurfaceUpdateView;

    open spec fn view(&self) -> SurfaceUpdateView {
        SurfaceUpdateView {
            surface_id: self.surface_id@,
            components: self.components@.map_values(|c: A2UIComponent| c@),
        }
    }
}

/// Signals the client to start rendering from a named root component.
#[derive(Debug)]
pub struct BeginRendering {
    pub surface_id: String,
    pub root: String,
    pub styles: Option<JsonValue>,
}

/// The view of a `BeginRendering`.
pub struct BeginRenderingView {
    pub surface_id: Seq<char>,
    pub root: Seq<char>,
    pub styles: Option<JsonView>,
}

/// The view of an optional JSON value.
pub open spec fn opt_json(o: Option<JsonValue>) -> Option<JsonView> {
    match o {
        Some(v) => Some(json_view(v)),
        None => None,
    }
}

impl View for BeginRendering {
    type V = BeginRenderingView;

    open spec fn view(&self) -> BeginRenderingView {
        BeginRenderingView { surface_id: self.surface_id@, root: self.root@, styles: opt_json(self.styles) }
    }
}

/// One A2UI server-to-client message.
#[derive(Debug)]
pub struct A2UIMessage {
    pub surface_update: Option<SurfaceUpdate>,
    pub begin_rendering: Option<BeginRendering>,
}

/// The view of an `A2UIMessage`.
pub struct A2UIMessageView {
    pub surface_update: Option<SurfaceUpdateView>,
    pub begin_rendering: Option<BeginRenderingView>,
}

impl View for A2UIMessage {
    type V = A2UIMessageView;

    open spec fn view(&self) -> A2UIMessageView {
        A2UIMessageView {
            surface_update: match self.surface_update {
                Some(u) => Some(u@),
                None => None,
            },
            begin_rendering: match self.begin_rendering {
                Some(b) => Some(b@),
                None => None,
            },
        }
    }
}

/// What a parse carries over to the reply: the surface and the ids of the
/// submit and cancel buttons.
#[derive(Debug)]
pub struct A2UIContext {
    pub surface_id: String,
    pub submit_button_id: String,
    pub cancel_button_id: String,
}

/// The view of an `A2UIContext`.
pub struct A2UIContextView {
    pub surface_id: Seq<char>,
    pub submit_button_id: Seq<char>,
    pub cancel_button_id: Seq<char>,
}

impl View for A2UIContext {
    type V = A2UIContextView;

    open spec fn view(&self) -> A2UIContextView {
        A2UIContextView {
            surface_id: self.surface_id@,
            submit_button_id: self.submit_button_id@,
            cancel_button_id: self.cancel_button_id@,
        }
    }
}

/// What the messages of a stream add up to.
pub struct ParseAcc {
    pub comps: Seq<FlatSpec>,
    pub surface_id: Seq<char>,
    pub root: Option<Seq<char>>,
    pub styles: Option<JsonView>,
}

/// The flat definition of an entry: its id, the first key of its
/// `component` object and that key's value; `None` when `component` is
/// not a non-empty object.
pub open spec fn unwrap_spec(c: A2UIComponentView) -> Option<FlatSpec> {
    match c.component {
        JsonView::Obj(e) => if e.len() > 0 { Some((c.id, e[0].0, e[0].1)) } else { None },
        _ => None,
    }
}

/// The flat definitions of a component list, in order.
pub open spec fn flat_of(cs: Seq<A2UIComponentView>) -> Seq<FlatSpec>
    decreases cs.len(),
{
    if cs.len() == 0 {
        seq![]
    } else {
        match unwrap_spec(cs.last()) {
            Some(f) => flat_of(cs.drop_last()).push(f),
            None => flat_of(cs.drop_last()),
        }
    }
}

/// One message applied: a surface update adds its definitions and names
/// the surface; a begin-rendering names the surface, the root and the styles.
pub open spec fn step(acc: ParseAcc, msg: A2UIMessageView) -> ParseAcc {
    let acc1 = match msg.surface_update {
        Some(su) => ParseAcc { comps: acc.comps + flat_of(su.components), surface_id: su.surface_id, ..acc },
        None => acc,
    };
    match msg.begin_rendering {
        Some(br) => ParseAcc { surface_id: br.surface_id, root: Some(br.root), styles: br.styles, ..acc1 },
        None => acc1,
    }
}

/// The messages `msgs` applied in order.
pub open spec fn fold_msgs(msgs: Seq<A2UIMessageView>) -> ParseAcc
    decreases msgs.len(),
{
    if msgs.len() == 0 {
        ParseAcc { comps: seq![], surface_id: "surface-1"@, root: None, styles: None }
    } else {
        step(fold_msgs(msgs.drop_last()), msgs.last())
    }
}

/// The ids to render from root `rid`: the children of a container, or the root itself.
pub open spec fn flatten_spec(rid: Seq<char>, m: Seq<FlatSpec>) -> Seq<Seq<char>> {
    match lookup(m, rid) {
        Some(e) => if is_container(e.0) { explicit_list(e.1) } else { seq![rid] },
        None => seq![rid],
    }
}

/// The id of the first of `cs` that is a button with `action`.
pub open spec fn first_button(cs: Seq<ComponentView>, action: ButtonAction) -> Option<Seq<char>>
    decreases cs.len(),
{
    if cs.len() == 0 {
        None
    } else {
        match cs[0] {
            ComponentView::Button { id, action: a, .. } => if a == action {
                Some(id)
            } else {
                first_button(cs.drop_first(), action)
            },
            _ => first_button(cs.drop_first(), action),
        }
    }
}

/// The title given by the first of `cs` that is a Markdown heading: its
/// text without the leading `#`s and surrounding white space.
pub open spec fn first_heading(cs: Seq<ComponentView>) -> Option<Seq<char>>
    decreases cs.len(),
{
    if cs.len() == 0 {
        None
    } else {
        match cs[0] {
            ComponentView::Markdown { content, .. } => if content.len() > 0 && content[0] == '#' {
                Some(trim_seq(trim_start_char(content, '#')))
            } else {
                first_heading(cs.drop_first())
            },
            _ => first_heading(cs.drop_first()),
        }
    }
}

/// The theme given by `beginRendering.styles`.
pub open spec fn theme_spec(styles: Option<JsonView>) -> Option<ThemeView> {
    match styles {
        Some(s) => Some(ThemeView {
            dark_mode: jas_bool(jidx(s, "darkMode"@)),
            accent_color: jas_str(jidx(s, "primaryColor"@)),
        }),
        None => None,
    }
}

/// The form and context that `msgs` describe; `None` when a component to
/// render contains itself, directly or through its children.
pub open spec fn parse_spec(msgs: Seq<A2UIMessageView>) -> Option<(A2NInputView, A2UIContextView)> {
    let acc = fold_msgs(msgs);
    let ids = match acc.root {
        Some(rid) => flatten_spec(rid, acc.comps),
        None => acc.comps.map_values(|f: FlatSpec| f.0),
    };
    match convert_all(ids, acc.comps, Set::empty()) {
        None => None,
        Some(components) => Some((
            A2NInputView {
                title: first_heading(components),
                timeout: None,
                theme: theme_spec(acc.styles),
                components,
            },
            A2UIContextView {
                surface_id: acc.surface_id,
                submit_button_id: str_or(first_button(components, ButtonAction::Submit), "submit"@),
                cancel_button_id: str_or(first_button(components, ButtonAction::Cancel), "cancel"@),
            },
        )),
    }
}

/// The type name and properties of an A2UI component entry: the first key
/// of its `component` object and that key's value.
pub fn unwrap_component(component: &JsonValue) -> (r: Option<(String, JsonValue)>)
    ensures
        match r {
            Some(p) => match json_view(*component) {
                JsonView::Obj(e) => e.len() > 0 && e[0].0 == p.0@ && e[0].1 == json_view(p.1),
                _ => false,
            },
            None => !(json_view(*component) matches JsonView::Obj(e) && e.len() > 0),
        },
{
    match component {
        JsonValue::Obj(entries) => {
            proof {
                crate::json::lemma_json_entries_view(entries@);
            }
            if entries.len() > 0 {
                Some((entries[0].0.clone(), json_clone(&entries[0].1)))
            } else {
                None
            }
        },
        _ => None,
    }
}

/// The view of a list of flat definitions held by the library.
proof fn lemma_flat_view_push(m: Seq<(String, String, JsonValue)>, e: (String, String, JsonValue))
    ensures
        flat_view(m.push(e)) == flat_view(m).push((e.0@, e.1@, json_view(e.2))),
{
    assert(flat_view(m.push(e)) =~= flat_view(m).push((e.0@, e.1@, json_view(e.2))));
}

/// Adds the flat definitions of `cs` to `out`, in order.
pub fn add_flat(out: &mut Vec<(String, String, JsonValue)>, cs: &Vec<A2UIComponent>)
    ensures
        flat_view(final(out)@) == flat_view(old(out)@) + flat_of(cs@.map_values(|c: A2UIComponent| c@)),
{
    let ghost cv = cs@.map_values(|c: A2UIComponent| c@);
    let ghost start = flat_view(out@);
    let mut i: usize = 0;
    assert(cv.take(0) =~= Seq::<A2UIComponentView>::empty());
    assert(start + flat_of(cv.take(0)) =~= start);
    while i < cs.len()
        invariant
            i <= cs.len(),
            cv == cs@.map_values(|c: A2UIComponent| c@),
            flat_view(out@) == start + flat_of(cv.take(i as int)),
        decreases cs.len() - i,
    {
        let ghost t = cv.take(i + 1);
        assert(t.drop_last() =~= cv.take(i as int));
        assert(t.last() == cs@[i as int]@);
        match unwrap_component(&cs[i].component) {
            Some(p) => {
                let ghost before = out@;
                let e = (cs[i].id.clone(), p.0, p.1);
                proof {
                    lemma_flat_view_push(before, e);
                }
                out.push(e);
                assert(flat_view(out@) =~= start + flat_of(t));
            },
            None => {},
        }
        i = i + 1;
    }
    assert(cv.take(cs.len() as int) =~= cv);
}

/// The view of a message list.
pub open spec fn msgs_view(msgs: Seq<A2UIMessage>) -> Seq<A2UIMessageView> {
    msgs.map_values(|m: A2UIMessage| m@)
}

/// Copies an optional JSON value.
pub fn opt_json_clone(o: &Option<JsonValue>) -> (r: Option<JsonValue>)
    ensures
        opt_json(r) == opt_json(*o),
{
    match o {
        Some(v) => Some(json_clone(v)),
        None => None,
    }
}

/// Applies the messages in order: the flat definitions, the surface id, the
/// root id and the styles they give.
pub fn fold_messages(msgs: &Vec<A2UIMessage>) -> (r: (Vec<(String, String, JsonValue)>, String, Option<String>, Option<JsonValue>))
    ensures
        ({
            let acc = fold_msgs(msgs_view(msgs@));
            &&& flat_view(r.0@) == acc.comps
            &&& r.1@ == acc.surface_id
            &&& opt_str_view(r.2) == acc.root
            &&& opt_json(r.3) == acc.styles
        }),
{
    let ghost mv = msgs_view(msgs@);
    let mut comps: Vec<(String, String, JsonValue)> = Vec::new();
    let mut surface_id = to_owned_string("surface-1");
    let mut root: Option<String> = None;
    let mut styles: Option<JsonValue> = None;
    let mut i: usize = 0;
    assert(mv.take(0) =~= Seq::<A2UIMessageView>::empty());
    assert(flat_view(comps@) =~= Seq::<FlatSpec>::empty());
    while i < msgs.len()
        invariant
            i <= msgs.len(),
            mv == msgs_view(msgs@),
            ({
                let acc = fold_msgs(mv.take(i as int));
                &&& flat_view(comps@) == acc.comps
                &&& surface_id@ == acc.surface_id
                &&& opt_str_view(root) == acc.root
                &&& opt_json(styles) == acc.styles
            }),
        decreases msgs.len() - i,
    {
        let ghost t = mv.take(i + 1);
        assert(t.drop_last() =~= mv.take(i as int));
        assert(t.last() == msgs@[i as int]@);
        let msg = &msgs[i];
        match &msg.surface_update {
            Some(su) => {
                surface_id = su.surface_id.clone();
                add_flat(&mut comps, &su.components);
            },
            None => {},
        }
        match &msg.begin_rendering {
            Some(br) => {
                surface_id = br.surface_id.clone();
                root = Some(br.root.clone());
                styles = opt_json_clone(&br.styles);
            },
            None => {},
        }
        i = i + 1;
    }
    assert(mv.take(msgs.len() as int) =~= mv);
    (comps, surface_id, root, styles)
}

/// The ids to render from the root `rid`: the children of a container
/// (Column, Row or List), or else the root itself.
pub fn flatten_container(rid: &String, m: &Vec<(String, String, JsonValue)>) -> (r: Vec<String>)
    ensures
        strings_view(r@) == flatten_spec(rid@, flat_view(m@)),
{
    match lookup_exec(m, rid.as_str()) {
        Some(entry) => {
            if string_is(entry.0, "Column") || string_is(entry.0, "Row") || string_is(entry.0, "List") {
                return explicit_list_exec(entry.1);
            }
        },
        None => {},
    }
    let r = vec![rid.clone()];
    assert(strings_view(r@) =~= seq![rid@]);
    r
}

/// The ids of all flat definitions, in order.
pub fn all_ids(m: &Vec<(String, String, JsonValue)>) -> (r: Vec<String>)
    ensures
        strings_view(r@) == flat_view(m@).map_values(|f: FlatSpec| f.0),
{
    let mut r: Vec<String> = Vec::new();
    let mut i: usize = 0;
    while i < m.len()
        invariant
            i <= m.len(),
            r@.len() == i,
            forall|k: int| 0 <= k < i ==> #[trigger] r@[k]@ == m@[k].0@,
        decreases m.len() - i,
    {
        r.push(m[i].0.clone());
        i = i + 1;
    }
    assert(strings_view(r@) =~= flat_view(m@).map_values(|f: FlatSpec| f.0));
    r
}

/// The id of the first of `components` that is a button with `target`.
pub fn find_button_id(components: &Vec<Component>, target: ButtonAction) -> (r: Option<String>)
    ensures
        opt_str_view(r) == first_button(components_view(components@), target),
{
    let ghost cv = components_view(components@);
    proof {
        lemma_components_view(components@);
    }
    let mut i: usize = 0;
    assert(cv.skip(0) =~= cv);
    while i < components.len()
        invariant
            i <= components.len(),
            cv == components_view(components@),
            cv.len() == components.len(),
            forall|k: int| 0 <= k < components.len() ==> #[trigger] cv[k] == component_view(components@[k]),
            first_button(cv, target) == first_button(cv.skip(i as int), target),
        decreases components.len() - i,
    {
        assert(cv.skip(i as int)[0] == cv[i as int]);
        assert(cv.skip(i as int).drop_first() =~= cv.skip(i + 1));
        match &components[i] {
            Component::Button { id, action, .. } => {
                if *action == target {
                    return Some(id.clone());
                }
            },
            _ => {},
        }
        i = i + 1;
    }
    None
}

/// The window title given by the first Markdown heading among `components`.
pub fn heading_title(components: &Vec<Component>) -> (r: Option<String>)
    ensures
        opt_str_view(r) == first_heading(components_view(components@)),
{
    let ghost cv = components_view(components@);
    proof {
        lemma_components_view(components@);
    }
    let mut i: usize = 0;
    assert(cv.skip(0) =~= cv);
    while i < components.len()
        invariant
            i <= components.len(),
            cv == components_view(components@),
            cv.len() == components.len(),
            forall|k: int| 0 <= k < components.len() ==> #[trigger] cv[k] == component_view(components@[k]),
            first_heading(cv) == first_heading(cv.skip(i as int)),
        decreases components.len() - i,
    {
        assert(cv.skip(i as int)[0] == cv[i as int]);
        assert(cv.skip(i as int).drop_first() =~= cv.skip(i + 1));
        match &components[i] {
            Component::Markdown { content, .. } => {
                let cc = chars_of(content.as_str());
                if cc.len() > 0 && cc[0] == '#' {
                    let stripped = trim_start_char_chars(cc.as_slice(), '#');
                    let t = trim_chars(stripped.as_slice());
                    return Some(crate::text::string_from_chars(t.as_slice()));
                }
            },
            _ => {},
        }
        i = i + 1;
    }
    None
}

/// The theme given by `beginRendering.styles`.
pub fn theme_from_styles(styles: &Option<JsonValue>) -> (r: Option<Theme>)
    ensures
        crate::protocol::opt_theme_view(r) == theme_spec(opt_json(*styles)),
{
    match styles {
        Some(s) => {
            let dark_mode = bool_opt(json_get(s, "darkMode"));
            let accent_color = match str_opt(json_get(s, "primaryColor")) {
                Some(c) => Some(c.clone()),
                None => None,
            };
            Some(Theme { accent_color, dark_mode })
        },
        None => None,
    }
}

/// Converts A2UI messages into a form and the context of its reply.
/// `None` when a component to render contains itself, directly or through
/// its children.
pub fn parse_messages(msgs: &Vec<A2UIMessage>) -> (r: Option<(A2NInput, A2UIContext)>)
    ensures
        match r {
            Some(p) => parse_spec(msgs_view(msgs@)) == Some((p.0@, p.1@)),
            None => parse_spec(msgs_view(msgs@)) is None,
        },
{
    let (comps, surface_id, root, styles) = fold_messages(msgs);
    let ids = match &root {
        Some(rid) => flatten_container(rid, &comps),
        None => all_ids(&comps),
    };
    let path: Vec<String> = Vec::new();
    assert(strings_view(path@).to_set() =~= Set::<Seq<char>>::empty());
    match convert_all_exec(&ids, &comps, &path) {
        None => None,
        Some(components) => {
            let submit_button_id = owned_string_or(find_button_id(&components, ButtonAction::Submit), "submit");
            let cancel_button_id = owned_string_or(find_button_id(&components, ButtonAction::Cancel), "cancel");
            let title = heading_title(&components);
            let theme = theme_from_styles(&styles);
            Some((
                A2NInput { title, timeout: None, theme, components },
                A2UIContext { surface_id, submit_button_id, cancel_button_id },
            ))
        },
    }
}

/// Messages read from JSON values, in order; `None` if one is malformed.
pub open spec fn decode_messages_spec(vs: Seq<JsonView>) -> Option<Seq<A2UIMessageView>>
    decreases vs.len(),
{
    if vs.len() == 0 {
        Some(seq![])
    } else {
        match (decode_messages_spec(vs.drop_last()), decode_message_spec(vs.last())) {
            (Some(ms), Some(m)) => Some(ms.push(m)),
            _ => None,
        }
    }
}

/// Where a prefix of `vs` holds a malformed message, so does `vs`.
proof fn lemma_decode_messages_prefix(vs: Seq<JsonView>, k: int)
    requires
        0 <= k <= vs.len(),
        decode_messages_spec(vs.take(k)) is None,
    ensures
        decode_messages_spec(vs) is None,
    decreases vs.len(),
{
    if k == vs.len() {
        assert(vs.take(k) =~= vs);
    } else {
        assert(vs.drop_last().take(k) =~= vs.take(k));
        lemma_decode_messages_prefix(vs.drop_last(), k);
    }
}

/// The form and context described by an A2UI JSONL text, given as the JSON
/// value of each of its messages: `None` where a message is malformed or
/// where the components refer to each other in a cycle.
pub open spec fn parse_json_spec(vs: Seq<JsonView>) -> Option<(A2NInputView, A2UIContextView)> {
    match decode_messages_spec(vs) {
        Some(ms) => parse_spec(ms),
        None => None,
    }
}

/// Reads the form and its context from the JSON values of an A2UI JSONL
/// text, in order. A malformed message gives `A2UI parse error: ` and what
/// is wrong with it; components that refer to each other in a cycle give
/// `A2UI parse error: component references form a cycle`.
pub fn parse(values: &Vec<JsonValue>) -> (r: Result<(A2NInput, A2UIContext), String>)
    ensures
        match r {
            Ok(p) => parse_json_spec(json_seq_view(values@)) == Some((p.0@, p.1@)),
            Err(e) => parse_json_spec(json_seq_view(values@)) is None && match decode_messages_spec(json_seq_view(values@)) {
                None => starts_with_seq(e@, "A2UI parse error: "@),
                Some(_) => e@ == "A2UI parse error: component references form a cycle"@,
            },
        },
{
    let ghost vs = json_seq_view(values@);
    proof {
        lemma_json_seq_view(values@);
    }
    let mut msgs: Vec<A2UIMessage> = Vec::new();
    let mut i: usize = 0;
    assert(vs.take(0) =~= Seq::<JsonView>::empty());
    assert(msgs_view(msgs@) =~= Seq::<A2UIMessageView>::empty());
    while i < values.len()
        invariant
            i <= values.len(),
            vs == json_seq_view(values@),
            vs.len() == values.len(),
            forall|k: int| 0 <= k < values.len() ==> #[trigger] vs[k] == json_view(values@[k]),
            decode_messages_spec(vs.take(i as int)) == Some(msgs_view(msgs@)),
        decreases values.len() - i,
    {
        assert(vs.take(i + 1).drop_last() =~= vs.take(i as int));
        assert(vs.take(i + 1).last() == json_view(values@[i as int]));
        match decode_message(&values[i]) {
            Ok(m) => {
                let ghost before = msgs@;
                msgs.push(m);
                assert(msgs_view(msgs@) =~= msgs_view(before).push(m@));
            },
            Err(e) => {
                proof {
                    lemma_decode_messages_prefix(vs, i + 1);
                }
                let mut err = to_owned_string("A2UI parse error: ");
                push_str(&mut err, e.as_str());
                assert(err@.subrange(0, "A2UI parse error: "@.len() as int) =~= "A2UI parse error: "@);
                return Err(err);
            },
        }
        i = i + 1;
    }
    assert(vs.take(values.len() as int) =~= vs);
    match parse_messages(&msgs) {
        Some(p) => Ok(p),
        None => Err(to_owned_string("A2UI parse error: component references form a cycle")),
    }
}

/// An A2UI component entry read from JSON: a record (see `is_record`) of a
/// string `id` and a `component`.
pub open spec fn decode_component_spec(v: JsonView) -> Option<A2UIComponentView> {
    if is_record(v, 2) {
        match (record_field(v, 0, "id"@), record_field(v, 1, "component"@)) {
            (Some(JsonView::Str(id)), Some(c)) => Some(A2UIComponentView { id, component: c }),
            _ => None,
        }
    } else {
        None
    }
}

/// A list of component entries read from JSON; `None` if one is malformed.
pub open spec fn decode_components_spec(a: Seq<JsonView>) -> Option<Seq<A2UIComponentView>>
    decreases a.len(),
{
    if a.len() == 0 {
        Some(seq![])
    } else {
        match (decode_components_spec(a.drop_last()), decode_component_spec(a.last())) {
            (Some(prev), Some(c)) => Some(prev.push(c)),
            _ => None,
        }
    }
}

/// A `surfaceUpdate` read from JSON: a record of a string `surfaceId` and
/// an array of component entries.
pub open spec fn decode_surface_update_spec(v: JsonView) -> Option<SurfaceUpdateView> {
    if is_record(v, 2) {
        match (record_field(v, 0, "surfaceId"@), record_field(v, 1, "components"@)) {
            (Some(JsonView::Str(sid)), Some(JsonView::Arr(a))) => match decode_components_spec(a) {
                Some(cs) => Some(SurfaceUpdateView { surface_id: sid, components: cs }),
                None => None,
            },
            _ => None,
        }
    } else {
        None
    }
}

/// A `beginRendering` read from JSON: a record of a string `surfaceId`, a
/// string `root` and optional `styles`.
pub open spec fn decode_begin_rendering_spec(v: JsonView) -> Option<BeginRenderingView> {
    if is_record(v, 3) {
        match (record_field(v, 0, "surfaceId"@), record_field(v, 1, "root"@)) {
            (Some(JsonView::Str(sid)), Some(JsonView::Str(root))) => Some(BeginRenderingView {
                surface_id: sid,
                root,
                styles: optional_field(v, 2, "styles"@),
            }),
            _ => None,
        }
    } else {
        None
    }
}

/// An A2UI message read from JSON: a record of an optional `surfaceUpdate`
/// and an optional `beginRendering`; other object members are ignored.
pub open spec fn decode_message_spec(v: JsonView) -> Option<A2UIMessageView> {
    if is_record(v, 2) {
        {
            let su = match optional_field(v, 0, "surfaceUpdate"@) {
                None => Some(None),
                Some(x) => match decode_surface_update_spec(x) {
                    Some(u) => Some(Some(u)),
                    None => None,
                },
            };
            let br = match optional_field(v, 1, "beginRendering"@) {
                None => Some(None),
                Some(x) => match decode_begin_rendering_spec(x) {
                    Some(b) => Some(Some(b)),
                    None => None,
                },
            };
            match (su, br) {
                (Some(su), Some(br)) => Some(A2UIMessageView { surface_update: su, begin_rendering: br }),
                _ => None,
            }
        }
    } else {
        None
    }
}

/// Reads a component entry.
pub fn decode_component(v: &JsonValue) -> (r: Result<A2UIComponent, String>)
    ensures
        match r {
            Ok(c) => decode_component_spec(v@) == Some(c@),
            Err(_) => decode_component_spec(v@) is None,
        },
{
    if !is_record_exec(v, 2) {
        return Err(to_owned_string("invalid type: expected a component entry"));
    }
    let id = match record_field_exec(v, 0, "id") {
        Some(JsonValue::Str(s)) => s.clone(),
        Some(_) => return Err(to_owned_string("invalid type for field `id`: expected a string")),
        None => return Err(to_owned_string("missing field `id`")),
    };
    match record_field_exec(v, 1, "component") {
        Some(c) => Ok(A2UIComponent { id, component: json_clone(c) }),
        None => Err(to_owned_string("missing field `component`")),
    }
}

/// Reads a `surfaceUpdate`.
pub fn decode_surface_update(v: &JsonValue) -> (r: Result<SurfaceUpdate, String>)
    ensures
        match r {
            Ok(u) => decode_surface_update_spec(v@) == Some(u@),
            Err(_) => decode_surface_update_spec(v@) is None,
        },
{
    if !is_record_exec(v, 2) {
        return Err(to_owned_string("invalid type: expected a surfaceUpdate"));
    }
    let surface_id = match record_field_exec(v, 0, "surfaceId") {
        Some(JsonValue::Str(s)) => s.clone(),
        Some(_) => return Err(to_owned_string("invalid type for field `surfaceId`: expected a string")),
        None => return Err(to_owned_string("missing field `surfaceId`")),
    };
    let a = match record_field_exec(v, 1, "components") {
        Some(JsonValue::Arr(a)) => a,
        Some(_) => return Err(to_owned_string("invalid type for field `components`: expected an array")),
        None => return Err(to_owned_string("missing field `components`")),
    };
    let ghost av = json_seq_view(a@);
    proof {
        lemma_json_seq_view(a@);
    }
    let mut components: Vec<A2UIComponent> = Vec::new();
    let mut i: usize = 0;
    assert(av.take(0) =~= Seq::<JsonView>::empty());
    assert(components@.map_values(|c: A2UIComponent| c@) =~= Seq::<A2UIComponentView>::empty());
    assert(decode_surface_update_spec(v@) == (match decode_components_spec(av) {
        Some(cs) => Some(SurfaceUpdateView { surface_id: surface_id@, components: cs }),
        None => None,
    }));
    while i < a.len()
        invariant
            i <= a.len(),
            av == json_seq_view(a@),
            decode_surface_update_spec(v@) == (match decode_components_spec(av) {
                Some(cs) => Some(SurfaceUpdateView { surface_id: surface_id@, components: cs }),
                None => None,
            }),
            av.len() == a.len(),
            forall|k: int| 0 <= k < a.len() ==> #[trigger] av[k] == json_view(a@[k]),
            decode_components_spec(av.take(i as int)) == Some(components@.map_values(|c: A2UIComponent| c@)),
        decreases a.len() - i,
    {
        let ghost t = av.take(i + 1);
        assert(t.drop_last() =~= av.take(i as int));
        assert(t.last() == json_view(a@[i as int]));
        let ghost before = components@;
        match decode_component(&a[i]) {
            Ok(c) => {
                let ghost cv = c@;
                components.push(c);
                assert(components@.map_values(|c: A2UIComponent| c@) =~= before.map_values(|c: A2UIComponent| c@).push(cv));
            },
            Err(e) => {
                proof {
                    lemma_decode_components_stuck(av, i + 1);
                }
                return Err(e);
            },
        }
        i = i + 1;
    }
    assert(av.take(a.len() as int) =~= av);
    Ok(SurfaceUpdate { surface_id, components })
}

proof fn lemma_decode_components_stuck(a: Seq<JsonView>, n: int)
    requires
        0 <= n <= a.len(),
        decode_components_spec(a.take(n)) is None,
    ensures
        decode_components_spec(a) is None,
    decreases a.len() - n,
{
    if n < a.len() {
        assert(a.take(n + 1).drop_last() =~= a.take(n));
        lemma_decode_components_stuck(a, n + 1);
    } else {
        assert(a.take(n) =~= a);
    }
}

/// Reads a `beginRendering`.
pub fn decode_begin_rendering(v: &JsonValue) -> (r: Result<BeginRendering, String>)
    ensures
        match r {
            Ok(b) => decode_begin_rendering_spec(v@) == Some(b@),
            Err(_) => decode_begin_rendering_spec(v@) is None,
        },
{
    if !is_record_exec(v, 3) {
        return Err(to_owned_string("invalid type: expected a beginRendering"));
    }
    let surface_id = match record_field_exec(v, 0, "surfaceId") {
        Some(JsonValue::Str(s)) => s.clone(),
        Some(_) => return Err(to_owned_string("invalid type for field `surfaceId`: expected a string")),
        None => return Err(to_owned_string("missing field `surfaceId`")),
    };
    let root = match record_field_exec(v, 1, "root") {
        Some(JsonValue::Str(s)) => s.clone(),
        Some(_) => return Err(to_owned_string("invalid type for field `root`: expected a string")),
        None => return Err(to_owned_string("missing field `root`")),
    };
    let styles = match optional_field_exec(v, 2, "styles") {
        Some(x) => Some(json_clone(x)),
        None => None,
    };
    Ok(BeginRendering { surface_id, root, styles })
}

/// Reads one A2UI message.
pub fn decode_message(v: &JsonValue) -> (r: Result<A2UIMessage, String>)
    ensures
        match r {
            Ok(m) => decode_message_spec(v@) == Some(m@),
            Err(_) => decode_message_spec(v@) is None,
        },
{
    if !is_record_exec(v, 2) {
        return Err(to_owned_string("invalid type: expected an A2UI message"));
    }
    let surface_update = match optional_field_exec(v, 0, "surfaceUpdate") {
        None => None,
        Some(x) => match decode_surface_update(x) {
            Ok(u) => Some(u),
            Err(e) => return Err(e),
        },
    };
    let begin_rendering = match optional_field_exec(v, 1, "beginRendering") {
        None => None,
        Some(x) => match decode_begin_rendering(x) {
            Ok(b) => Some(b),
            Err(e) => return Err(e),
        },
    };
    Ok(A2UIMessage { surface_update, begin_rendering })
}

/// A user action reported to the A2UI server.
#[derive(Debug)]
pub struct UserAction {
    /// `"submit"` or `"cancel"`.
    pub name: String,
    pub surface_id: String,
    pub source_component_id: String,
    pub timestamp: String,
    /// Form field values, by component id.
    pub context: StrMap<JsonValue>,
}

/// The A2UI client-to-server event that wraps a `userAction`.
#[derive(Debug)]
pub struct A2UIOutput {
    pub user_action: UserAction,
}

/// The `userAction` reply to a form that ended with `output`, stamped
/// `timestamp`: a submitted form reports `"submit"` from the submit
/// button, a cancelled or timed-out one `"cancel"` from the cancel button,
/// and the context is the form's values.
pub fn to_output_at(output: &A2NOutput, ctx: &A2UIContext, timestamp: String) -> (r: A2UIOutput)
    ensures
        r.user_action.name@ == (if output.status == OutputStatus::Submitted { "submit"@ } else { "cancel"@ }),
        r.user_action.source_component_id@ == (if output.status == OutputStatus::Submitted {
            ctx.submit_button_id@
        } else {
            ctx.cancel_button_id@
        }),
        r.user_action.surface_id@ == ctx.surface_id@,
        r.user_action.timestamp@ == timestamp@,
        r.user_action.context@ == output.values@,
{
    let (name, comp_id) = match output.status {
        OutputStatus::Submitted => (to_owned_string("submit"), ctx.submit_button_id.clone()),
        OutputStatus::Cancelled | OutputStatus::Timeout => (to_owned_string("cancel"), ctx.cancel_button_id.clone()),
    };
    A2UIOutput {
        user_action: UserAction {
            name,
            surface_id: ctx.surface_id.clone(),
            source_component_id: comp_id,
            timestamp,
            context: clone_json_map(&output.values),
        },
    }
}

/// The `userAction` reply to a form that ended with `output`, stamped with
/// the current time.
pub fn to_output(output: &A2NOutput, ctx: &A2UIContext) -> (r: A2UIOutput)
    ensures
        r.user_action.name@ == (if output.status == OutputStatus::Submitted { "submit"@ } else { "cancel"@ }),
        r.user_action.source_component_id@ == (if output.status == OutputStatus::Submitted {
            ctx.submit_button_id@
        } else {
            ctx.cancel_button_id@
        }),
        r.user_action.surface_id@ == ctx.surface_id@,
        r.user_action.context@ == output.values@,
        exists|secs: nat| is_timestamp_of(r.user_action.timestamp@, secs),
{
    to_output_at(output, ctx, now_rfc3339())
}

#[verifier::external_type_specification]
#[verifier::external_body]
pub struct ExSystemTime(std::time::SystemTime);

/// The system clock's current time: std's `SystemTime::now`. It depends on
/// the clock, so nothing is claimed of it.
#[verifier::external_body]
fn system_time_now() -> (r: std::time::SystemTime) {
    std::time::SystemTime::now()
}

/// How long after 1970-01-01T00:00:00Z the time `t` is: std's
/// `SystemTime::duration_since` with `UNIX_EPOCH`, `None` where it errs (for
/// a time before then). The duration is opaque here, so nothing is claimed
/// of it.
#[verifier::external_body]
fn since_unix_epoch(t: &std::time::SystemTime) -> (r: Option<std::time::Duration>) {
    match t.duration_since(std::time::UNIX_EPOCH) {
        Ok(d) => Some(d),
        Err(_) => None,
    }
}

/// The whole seconds of `d`: std's `Duration::as_secs`. The duration is
/// opaque here, so nothing is claimed of the result.
#[verifier::external_body]
fn whole_seconds(d: &std::time::Duration) -> (r: u64) {
    d.as_secs()
}

/// Seconds since 1970-01-01T00:00:00Z by the system clock, or 0 for a clock
/// set earlier.
fn unix_now_secs() -> u64 {
    match since_unix_epoch(&system_time_now()) {
        Some(d) => whole_seconds(&d),
        None => 0,
    }
}

/// The current time as `YYYY-MM-DDTHH:MM:SSZ`.
pub fn now_rfc3339() -> (r: String)
    ensures
        exists|secs: nat| is_timestamp_of(r@, secs),
{
    let secs = unix_now_secs();
    rfc3339_from_secs(secs)
}

/// `YYYY-MM-DDTHH:MM:SSZ` for the given fields, each zero-padded.
pub open spec fn timestamp_text(y: nat, mo: nat, d: nat, h: nat, mi: nat, s: nat) -> Seq<char> {
    zero_pad(decimal(y), 4) + "-"@ + zero_pad(decimal(mo), 2) + "-"@ + zero_pad(decimal(d), 2) + "T"@
        + zero_pad(decimal(h), 2) + ":"@ + zero_pad(decimal(mi), 2) + ":"@ + zero_pad(decimal(s), 2)
        + "Z"@
}

/// Whether `t` is the timestamp of the second `secs` after the epoch.
pub open spec fn is_timestamp_of(t: Seq<char>, secs: nat) -> bool {
    exists|y: nat, mo: nat, d: nat|
        is_valid_date(y as int, mo as int, d as int) && days_since_epoch(y as int, mo as int, d as int) == secs / 86400
            && t == timestamp_text(y, mo, d, (secs % 86400) / 3600, (secs % 3600) / 60, secs % 60)
}

/// The timestamp `YYYY-MM-DDTHH:MM:SSZ` of the second `secs` after the epoch.
pub fn rfc3339_from_secs(secs: u64) -> (r: String)
    ensures
        is_timestamp_of(r@, secs as nat),
{
    let h = (secs % 86400) / 3600;
    let mi = (secs % 3600) / 60;
    let s = secs % 60;
    let (y, mo, d) = days_to_ymd(secs / 86400);
    let mut t = String::new();
    push_decimal_padded(&mut t, y, 4);
    push_str(&mut t, "-");
    push_decimal_padded(&mut t, mo, 2);
    push_str(&mut t, "-");
    push_decimal_padded(&mut t, d, 2);
    push_str(&mut t, "T");
    push_decimal_padded(&mut t, h, 2);
    push_str(&mut t, ":");
    push_decimal_padded(&mut t, mi, 2);
    push_str(&mut t, ":");
    push_decimal_padded(&mut t, s, 2);
    push_str(&mut t, "Z");
    assert(t@ =~= timestamp_text(y as nat, mo as nat, d as nat, h as nat, mi as nat, s as nat));
    t
}

} // verus!
