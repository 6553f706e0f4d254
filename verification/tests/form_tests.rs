use a2native::form::{check_has_submit, FormState};
use a2native::json::{Float64Bits, JsonValue, NumberRepr};
use a2native::protocol::{A2NInput, ButtonAction, Component, SelectOption};

fn make_input(components: Vec<Component>) -> A2NInput {
    A2NInput { title: None, timeout: None, theme: None, components }
}

fn f(x: f64) -> Float64Bits {
    Float64Bits { bits: x.to_bits() }
}

fn text_field(id: &str, default_value: Option<&str>) -> Component {
    Component::TextField {
        id: id.to_string(),
        label: None,
        placeholder: None,
        required: false,
        default_value: default_value.map(|s| s.to_string()),
        min_length: None,
        max_length: None,
        pattern: None,
        error_message: None,
    }
}

fn number_input(id: &str, default_value: Option<f64>) -> Component {
    Component::NumberInput {
        id: id.to_string(),
        label: None,
        min: None,
        max: None,
        step: None,
        default_value: default_value.map(f),
    }
}

fn is_float(v: Option<&JsonValue>, x: f64) -> bool {
    matches!(v, Some(JsonValue::Num(n)) if n.repr == NumberRepr::Float && n.float.bits == x.to_bits())
}

#[test]
fn test_form_state_init_text_defaults() {
    let input = make_input(vec![text_field("name", Some("Alice"))]);
    let state = FormState::from_input(&input);
    assert_eq!(state.text_values.get("name").map(|s| s.as_str()), Some("Alice"));
}

#[test]
fn test_form_state_init_number_defaults() {
    let input = make_input(vec![number_input("age", Some(25.0))]);
    let state = FormState::from_input(&input);
    assert_eq!(state.number_values.get("age"), Some(&f(25.0)));
}

#[test]
fn test_form_state_init_checkbox() {
    let input = make_input(vec![Component::Checkbox {
        id: "agree".to_string(),
        label: None,
        default_value: true,
    }]);
    let state = FormState::from_input(&input);
    assert_eq!(state.bool_values.get("agree"), Some(&true));
}

#[test]
fn test_form_state_init_checkbox_group() {
    let input = make_input(vec![Component::CheckboxGroup {
        id: "tags".to_string(),
        label: None,
        options: vec![
            SelectOption { value: "a".to_string(), label: "A".to_string() },
            SelectOption { value: "b".to_string(), label: "B".to_string() },
        ],
        default_values: vec!["a".to_string()],
    }]);
    let state = FormState::from_input(&input);
    assert_eq!(state.checkbox_group_values.get("tags"), Some(&vec!["a".to_string()]));
}

#[test]
fn test_form_state_init_slider_uses_min_as_default() {
    let input = make_input(vec![Component::Slider {
        id: "vol".to_string(),
        label: None,
        min: f(10.0),
        max: f(50.0),
        step: None,
        default_value: None,
    }]);
    let state = FormState::from_input(&input);
    assert_eq!(state.number_values.get("vol"), Some(&f(10.0)));
}

#[test]
fn test_form_state_collect_output() {
    let components = vec![
        text_field("name", None),
        Component::Checkbox { id: "ok".to_string(), label: None, default_value: false },
        number_input("count", Some(3.0)),
    ];
    let input = make_input(vec![
        text_field("name", None),
        Component::Checkbox { id: "ok".to_string(), label: None, default_value: false },
        number_input("count", Some(3.0)),
    ]);
    let mut state = FormState::from_input(&input);
    assert!(state.text_values.get("name").is_some());
    assert!(state.bool_values.get("ok").is_some());
    state.text_values.insert("name".to_string(), "Bob".to_string());
    state.bool_values.insert("ok".to_string(), true);
    let values = state.collect_output(&components);
    assert!(matches!(values.get("name"), Some(JsonValue::Str(s)) if s == "Bob"));
    assert!(matches!(values.get("ok"), Some(JsonValue::Bool(true))));
    assert!(is_float(values.get("count"), 3.0));
}

#[test]
fn test_check_has_submit_true() {
    let components = vec![Component::Button {
        id: "s".to_string(),
        label: "Submit".to_string(),
        action: ButtonAction::Submit,
    }];
    let input = make_input(components);
    assert!(check_has_submit(&input.components));
}

#[test]
fn test_check_has_submit_false() {
    let components = vec![Component::Text { id: "t".to_string(), content: "hello".to_string() }];
    let input = make_input(components);
    assert!(!check_has_submit(&input.components));
}

#[test]
fn test_check_has_submit_in_card() {
    let components = vec![Component::Card {
        id: "c".to_string(),
        title: None,
        children: vec![Component::Button {
            id: "b".to_string(),
            label: "Go".to_string(),
            action: ButtonAction::Submit,
        }],
    }];
    let input = make_input(components);
    assert!(check_has_submit(&input.components));
}

#[test]
fn cancel_and_custom_buttons_are_not_submit() {
    let components = vec![
        Component::Button { id: "c".to_string(), label: "No".to_string(), action: ButtonAction::Cancel },
        Component::Row {
            id: "r".to_string(),
            children: vec![Component::Button {
                id: "x".to_string(),
                label: "X".to_string(),
                action: ButtonAction::Custom,
            }],
        },
    ];
    assert!(!check_has_submit(&components));
}

#[test]
fn untouched_form_reports_defaults() {
    let components = vec![
        text_field("name", Some("Ann")),
        Component::Card {
            id: "c".to_string(),
            title: None,
            children: vec![
                Component::Toggle { id: "t".to_string(), label: None, default_value: true },
                Component::Rating { id: "stars".to_string(), label: None, max: 5, default_value: Some(4) },
            ],
        },
        Component::Password {
            id: "pw".to_string(),
            label: None,
            placeholder: None,
            required: false,
            min_length: None,
            max_length: None,
            pattern: None,
            error_message: None,
        },
        Component::Text { id: "txt".to_string(), content: "hi".to_string() },
    ];
    let state = FormState::from_input(&make_input(vec![
        text_field("name", Some("Ann")),
        Component::Card {
            id: "c".to_string(),
            title: None,
            children: vec![
                Component::Toggle { id: "t".to_string(), label: None, default_value: true },
                Component::Rating { id: "stars".to_string(), label: None, max: 5, default_value: Some(4) },
            ],
        },
        Component::Password {
            id: "pw".to_string(),
            label: None,
            placeholder: None,
            required: false,
            min_length: None,
            max_length: None,
            pattern: None,
            error_message: None,
        },
        Component::Text { id: "txt".to_string(), content: "hi".to_string() },
    ]));
    let values = state.collect_output(&components);
    assert!(matches!(values.get("name"), Some(JsonValue::Str(s)) if s == "Ann"));
    assert!(matches!(values.get("t"), Some(JsonValue::Bool(true))));
    assert!(is_float(values.get("stars"), 4.0));
    assert!(matches!(values.get("pw"), Some(JsonValue::Str(s)) if s.is_empty()));
    assert!(values.get("txt").is_none());
    assert!(values.get("c").is_none());
}

#[test]
fn rating_without_default_starts_at_zero() {
    let input = make_input(vec![Component::Rating {
        id: "r".to_string(),
        label: None,
        max: 5,
        default_value: None,
    }]);
    let state = FormState::from_input(&input);
    assert_eq!(state.number_values.get("r"), Some(&f(0.0)));
    assert!(state.result.is_none());
}

#[test]
fn non_finite_number_is_reported_as_zero() {
    let components = vec![number_input("n", None)];
    let mut state = FormState::from_input(&make_input(vec![number_input("n", None)]));
    state.number_values.insert("n".to_string(), f(f64::NAN));
    let values = state.collect_output(&components);
    assert!(matches!(values.get("n"), Some(JsonValue::Num(n)) if n.repr == NumberRepr::PosInt(0)));
}

fn str_of(v: Option<&JsonValue>) -> Option<&str> {
    match v {
        Some(JsonValue::Str(s)) => Some(s.as_str()),
        _ => None,
    }
}

fn strings_of(v: Option<&JsonValue>) -> Option<Vec<&str>> {
    match v {
        Some(JsonValue::Arr(a)) => a
            .iter()
            .map(|x| match x {
                JsonValue::Str(s) => Some(s.as_str()),
                _ => None,
            })
            .collect(),
        _ => None,
    }
}

fn entry<'a>(v: Option<&'a JsonValue>, key: &str) -> Option<&'a JsonValue> {
    match v {
        Some(JsonValue::Obj(es)) => es.iter().find(|(k, _)| k == key).map(|(_, x)| x),
        _ => None,
    }
}

#[test]
fn hidden_value_is_passed_through_verbatim() {
    let value = JsonValue::Obj(vec![
        ("trace".to_string(), JsonValue::Str("abc".to_string())),
        ("n".to_string(), JsonValue::Arr(vec![JsonValue::Bool(true), JsonValue::Null])),
    ]);
    let copy = JsonValue::Obj(vec![
        ("trace".to_string(), JsonValue::Str("abc".to_string())),
        ("n".to_string(), JsonValue::Arr(vec![JsonValue::Bool(true), JsonValue::Null])),
    ]);
    let comps = vec![Component::Hidden { id: "ctx".to_string(), value }];
    let state = FormState::from_input(&make_input(vec![Component::Hidden { id: "ctx".to_string(), value: copy }]));
    let values = state.collect_output(&comps);
    let out = values.get("ctx");
    assert_eq!(str_of(entry(out, "trace")), Some("abc"));
    assert!(matches!(entry(out, "n"), Some(JsonValue::Arr(a)) if a.len() == 2
        && matches!(a[0], JsonValue::Bool(true)) && matches!(a[1], JsonValue::Null)));
}

fn newer_components() -> Vec<Component> {
    vec![
        Component::Email {
            id: "mail".to_string(),
            label: None,
            placeholder: None,
            required: false,
            default_value: Some("a@b.c".to_string()),
            error_message: None,
        },
        Component::Url {
            id: "site".to_string(),
            label: None,
            placeholder: None,
            required: false,
            default_value: None,
            error_message: None,
        },
        Component::Combobox {
            id: "lang".to_string(),
            label: None,
            placeholder: None,
            options: vec![SelectOption { value: "rs".to_string(), label: "Rust".to_string() }],
            required: false,
            default_value: Some("rs".to_string()),
        },
        Component::ColorPicker { id: "col".to_string(), label: None, default_value: None },
        Component::DatetimePicker {
            id: "when".to_string(),
            label: None,
            required: false,
            default_value: Some("2024-05-06 07:08".to_string()),
        },
        Component::DateRange {
            id: "trip".to_string(),
            label: None,
            required: false,
            default_start: Some("2024-01-01".to_string()),
            default_end: None,
        },
        Component::RangeSlider {
            id: "price".to_string(),
            label: None,
            min: f(0.0),
            max: f(100.0),
            step: None,
            default_min: Some(f(10.0)),
            default_max: None,
        },
        Component::MultiSelect {
            id: "picks".to_string(),
            label: None,
            options: vec![],
            default_values: vec!["x".to_string(), "y".to_string()],
            placeholder: None,
        },
        Component::Tags {
            id: "tags".to_string(),
            label: None,
            placeholder: None,
            default_values: vec!["t1".to_string()],
            max: None,
        },
    ]
}

#[test]
fn newer_components_report_their_defaults() {
    let state = FormState::from_input(&make_input(newer_components()));
    let values = state.collect_output(&newer_components());
    assert_eq!(str_of(values.get("mail")), Some("a@b.c"));
    assert_eq!(str_of(values.get("site")), Some(""));
    assert_eq!(str_of(values.get("lang")), Some("rs"));
    assert_eq!(str_of(values.get("col")), Some("#6C63FF"));
    assert_eq!(str_of(values.get("when")), Some("2024-05-06 07:08"));
    assert_eq!(str_of(entry(values.get("trip"), "start")), Some("2024-01-01"));
    assert_eq!(str_of(entry(values.get("trip"), "end")), Some(""));
    assert!(is_float(entry(values.get("price"), "min"), 10.0));
    assert!(is_float(entry(values.get("price"), "max"), 100.0));
    assert_eq!(strings_of(values.get("picks")), Some(vec!["x", "y"]));
    assert_eq!(strings_of(values.get("tags")), Some(vec!["t1"]));
}

#[test]
fn newer_components_report_edited_values() {
    let mut state = FormState::from_input(&make_input(newer_components()));
    assert_eq!(state.text_values.get("mail").map(|s| s.as_str()), Some("a@b.c"));
    assert_eq!(
        state.pair_text_values.get("when").map(|p| (p.0.as_str(), p.1.as_str())),
        Some(("2024-05-06", "07:08"))
    );
    state.text_values.insert("mail".to_string(), "me@example.com".to_string());
    state.text_values.insert("col".to_string(), "#112233".to_string());
    state.pair_text_values.insert("when".to_string(), ("2025-01-02".to_string(), "".to_string()));
    state.pair_number_values.insert("price".to_string(), (f(20.0), f(30.0)));
    let values = state.collect_output(&newer_components());
    assert_eq!(str_of(values.get("mail")), Some("me@example.com"));
    assert_eq!(str_of(values.get("col")), Some("#112233"));
    assert_eq!(str_of(values.get("when")), Some("2025-01-02"));
    assert!(is_float(entry(values.get("price"), "min"), 20.0));
    assert!(is_float(entry(values.get("price"), "max"), 30.0));
}

#[test]
fn fields_inside_a_collapsible_are_reported() {
    let comps = vec![Component::Collapsible {
        id: "more".to_string(),
        title: "More".to_string(),
        open: false,
        children: vec![text_field("inner", Some("v"))],
    }];
    let comps2 = vec![Component::Collapsible {
        id: "more".to_string(),
        title: "More".to_string(),
        open: false,
        children: vec![text_field("inner", Some("v"))],
    }];
    let state = FormState::from_input(&make_input(comps));
    let values = state.collect_output(&comps2);
    assert_eq!(str_of(values.get("inner")), Some("v"));
}
