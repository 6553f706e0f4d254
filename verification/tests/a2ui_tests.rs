use a2native::a2ui::{is_a2ui, parse, rfc3339_from_secs, to_output, to_output_at, A2UIContext};
use a2native::date::days_to_ymd;
use a2native::json::{Float64Bits, JsonNumber, JsonValue, NumberRepr};
use a2native::protocol::{A2NOutput, ButtonAction, Component, OutputStatus};
use a2native::strmap::StrMap;

fn to_json(v: &serde_json::Value) -> JsonValue {
    match v {
        serde_json::Value::Null => JsonValue::Null,
        serde_json::Value::Bool(b) => JsonValue::Bool(*b),
        serde_json::Value::Number(n) => {
            let float = Float64Bits { bits: n.as_f64().unwrap_or(0.0).to_bits() };
            let repr = if let Some(u) = n.as_u64() {
                NumberRepr::PosInt(u)
            } else if let Some(i) = n.as_i64() {
                NumberRepr::NegInt(i)
            } else {
                NumberRepr::Float
            };
            JsonValue::Num(JsonNumber { repr, float })
        }
        serde_json::Value::String(s) => JsonValue::Str(s.clone()),
        serde_json::Value::Array(a) => JsonValue::Arr(a.iter().map(to_json).collect()),
        serde_json::Value::Object(o) => {
            JsonValue::Obj(o.iter().map(|(k, v)| (k.clone(), to_json(v))).collect())
        }
    }
}

fn values_of<S: AsRef<str>>(text: S) -> Vec<JsonValue> {
    serde_json::Deserializer::from_str(text.as_ref())
        .into_iter::<serde_json::Value>()
        .map(|r| to_json(&r.unwrap()))
        .collect()
}

fn is_str(v: Option<&JsonValue>, s: &str) -> bool {
    matches!(v, Some(JsonValue::Str(x)) if x == s)
}

#[test]
fn test_is_a2ui_positive() {
    assert!(is_a2ui(r#"{"surfaceUpdate":{"surfaceId":"s1","components":[]}}"#));
    assert!(is_a2ui(r#"{"beginRendering":{"surfaceId":"s1","root":"r"}}"#));
}

#[test]
fn test_is_a2ui_negative() {
    assert!(!is_a2ui(r#"{"components":[{"id":"f","type":"text-field"}]}"#));
}

#[test]
fn test_parse_simple_form() {
    let json = r#"{"surfaceUpdate":{"surfaceId":"form1","components":[
            {"id":"lbl","component":{"Text":{"text":{"literalString":"Your name"},"usageHint":"body"}}},
            {"id":"name","component":{"TextField":{"label":{"literalString":"Name"}}}},
            {"id":"btn-lbl","component":{"Text":{"text":{"literalString":"Submit"}}}},
            {"id":"btn","component":{"Button":{"child":"btn-lbl","action":{"name":"submit"}}}}
        ]}}"#;
    let (input, ctx) = parse(&values_of(json)).unwrap();
    assert_eq!(ctx.surface_id, "form1");
    assert_eq!(ctx.submit_button_id, "btn");
    let has_textfield =
        input.components.iter().any(|c| matches!(c, Component::TextField { id, .. } if id == "name"));
    assert!(has_textfield);
    let has_button =
        input.components.iter().any(|c| matches!(c, Component::Button { label, .. } if label == "Submit"));
    assert!(has_button);
}

#[test]
fn test_parse_with_begin_rendering() {
    let jsonl = [
        r#"{"surfaceUpdate":{"surfaceId":"s","components":[{"id":"col","component":{"Column":{"children":{"explicitList":["f1","btn"]}}}},{"id":"f1","component":{"TextField":{"label":{"literalString":"Email"}}}},{"id":"btn-t","component":{"Text":{"text":{"literalString":"OK"}}}},{"id":"btn","component":{"Button":{"child":"btn-t","action":{"name":"submit"}}}}]}}"#,
        "\n",
        r#"{"beginRendering":{"surfaceId":"s","root":"col"}}"#
    ].concat();
    let (input, ctx) = parse(&values_of(jsonl)).unwrap();
    assert_eq!(ctx.surface_id, "s");
    assert!(input.components.iter().any(|c| matches!(c, Component::TextField { .. })));
}

#[test]
fn test_parse_multiple_choice_single() {
    let json = r#"{"surfaceUpdate":{"surfaceId":"s","components":[
            {"id":"mc","component":{"MultipleChoice":{"selections":{"literalArray":[]},"options":[{"label":{"literalString":"Red"},"value":"red"},{"label":{"literalString":"Blue"},"value":"blue"}],"maxAllowedSelections":1,"variant":"dropdown"}}}
        ]}}"#;
    let (input, _) = parse(&values_of(json)).unwrap();
    assert!(input.components.iter().any(|c| matches!(c, Component::Dropdown { .. })));
}

#[test]
fn test_parse_multiple_choice_multi() {
    let json = r#"{"surfaceUpdate":{"surfaceId":"s","components":[
            {"id":"mc","component":{"MultipleChoice":{"selections":{"literalArray":[]},"options":[{"label":{"literalString":"A"},"value":"a"}]}}}
        ]}}"#;
    let (input, _) = parse(&values_of(json)).unwrap();
    assert!(input.components.iter().any(|c| matches!(c, Component::CheckboxGroup { .. })));
}

#[test]
fn test_to_output_submit() {
    let mut values = StrMap::new();
    values.insert("name".to_string(), JsonValue::Str("Alice".to_string()));
    let a2n_out = A2NOutput { status: OutputStatus::Submitted, values };
    let ctx = A2UIContext {
        surface_id: "form1".to_string(),
        submit_button_id: "btn-submit".to_string(),
        cancel_button_id: "btn-cancel".to_string(),
    };
    let out = to_output(&a2n_out, &ctx);
    assert_eq!(out.user_action.name, "submit");
    assert_eq!(out.user_action.surface_id, "form1");
    assert_eq!(out.user_action.source_component_id, "btn-submit");
    assert!(is_str(out.user_action.context.get("name"), "Alice"));
}

#[test]
fn test_to_output_cancel() {
    let a2n_out = A2NOutput { status: OutputStatus::Cancelled, values: StrMap::new() };
    let ctx = A2UIContext {
        surface_id: "s".to_string(),
        submit_button_id: "s-btn".to_string(),
        cancel_button_id: "c-btn".to_string(),
    };
    let out = to_output(&a2n_out, &ctx);
    assert_eq!(out.user_action.name, "cancel");
    assert_eq!(out.user_action.source_component_id, "c-btn");
}

#[test]
fn test_days_to_ymd_epoch() {
    assert_eq!(days_to_ymd(0), (1970, 1, 1));
}

#[test]
fn test_days_to_ymd_2024() {
    assert_eq!(days_to_ymd(19723), (2024, 1, 1));
}

#[test]
fn days_to_ymd_leap_day_and_year_end() {
    // 2000-02-29 is day 11016; 1999-12-31 is day 10956; 2100-03-01 is day 47541.
    assert_eq!(days_to_ymd(11016), (2000, 2, 29));
    assert_eq!(days_to_ymd(10956), (1999, 12, 31));
    assert_eq!(days_to_ymd(47541), (2100, 3, 1));
}

#[test]
fn rfc3339_timestamp_text() {
    assert_eq!(rfc3339_from_secs(0), "1970-01-01T00:00:00Z");
    assert_eq!(rfc3339_from_secs(1_704_067_199), "2023-12-31T23:59:59Z");
    assert_eq!(rfc3339_from_secs(1_709_210_096), "2024-02-29T12:34:56Z");
}

#[test]
fn to_output_timeout_reports_cancel_button() {
    let a2n_out = A2NOutput { status: OutputStatus::Timeout, values: StrMap::new() };
    let ctx = A2UIContext {
        surface_id: "s".to_string(),
        submit_button_id: "ok".to_string(),
        cancel_button_id: "no".to_string(),
    };
    let out = to_output_at(&a2n_out, &ctx, "T".to_string());
    assert_eq!(out.user_action.name, "cancel");
    assert_eq!(out.user_action.source_component_id, "no");
    assert_eq!(out.user_action.timestamp, "T");
}

#[test]
fn to_output_timestamp_has_rfc3339_shape() {
    let a2n_out = A2NOutput { status: OutputStatus::Submitted, values: StrMap::new() };
    let ctx = A2UIContext {
        surface_id: "s".to_string(),
        submit_button_id: "ok".to_string(),
        cancel_button_id: "no".to_string(),
    };
    let ts = to_output(&a2n_out, &ctx).user_action.timestamp;
    assert_eq!(ts.len(), 20);
    assert!(ts.ends_with('Z'));
    assert_eq!(&ts[4..5], "-");
    assert_eq!(&ts[10..11], "T");
}

#[test]
fn parse_defaults_when_no_buttons() {
    let json = r#"{"surfaceUpdate":{"surfaceId":"s","components":[
        {"id":"f","component":{"TextField":{"label":{"literalString":"F"}}}}]}}"#;
    let (input, ctx) = parse(&values_of(json)).unwrap();
    assert_eq!(ctx.submit_button_id, "submit");
    assert_eq!(ctx.cancel_button_id, "cancel");
    assert_eq!(input.components.len(), 1);
    assert!(input.title.is_none());
}

#[test]
fn parse_heading_becomes_title_and_cancel_button() {
    let json = r#"{"surfaceUpdate":{"surfaceId":"s","components":[
        {"id":"h","component":{"Text":{"text":{"literalString":"Deploy"},"usageHint":"h1"}}},
        {"id":"c-l","component":{"Text":{"text":{"literalString":"Stop"}}}},
        {"id":"c","component":{"Button":{"child":"c-l","action":{"name":"cancel"}}}}]}}"#;
    let (input, ctx) = parse(&values_of(json)).unwrap();
    assert_eq!(input.title.as_deref(), Some("Deploy"));
    assert_eq!(ctx.cancel_button_id, "c");
    assert!(input
        .components
        .iter()
        .any(|c| matches!(c, Component::Button { action: ButtonAction::Cancel, .. })));
}

#[test]
fn parse_malformed_message_is_an_error() {
    let err = parse(&values_of(r#"{"surfaceUpdate":{"components":[]}}"#)).unwrap_err();
    assert!(err.starts_with("A2UI parse error: "));
    let err = parse(&values_of(r#"[1,2]"#)).unwrap_err();
    assert!(err.starts_with("A2UI parse error: "));
}

#[test]
fn parse_reference_cycle_is_an_error() {
    let json = r#"{"surfaceUpdate":{"surfaceId":"s","components":[
        {"id":"a","component":{"Column":{"children":{"explicitList":["b"]}}}},
        {"id":"b","component":{"Card":{"child":"a"}}}]}}
{"beginRendering":{"surfaceId":"s","root":"b"}}"#;
    let err = parse(&values_of(json)).unwrap_err();
    assert_eq!(err, "A2UI parse error: component references form a cycle");
}

#[test]
fn parse_shared_child_is_not_a_cycle() {
    let json = r#"{"surfaceUpdate":{"surfaceId":"s","components":[
        {"id":"x","component":{"Card":{"child":"t"}}},
        {"id":"y","component":{"Card":{"child":"t"}}},
        {"id":"t","component":{"Text":{"text":{"literalString":"hi"}}}}]}}"#;
    let (input, _) = parse(&values_of(json)).unwrap();
    assert_eq!(input.components.len(), 3);
}

#[test]
fn next_day_number_is_next_calendar_day() {
    for (z, next) in [
        (0u64, (1970u64, 1u64, 2u64)),
        (30, (1970, 2, 1)),
        (58, (1970, 3, 1)),
        (10956, (2000, 1, 1)),
        (11015, (2000, 2, 29)),
        (11016, (2000, 3, 1)),
        (47540, (2100, 3, 1)),
    ] {
        assert_eq!(days_to_ymd(z + 1), next);
    }
}

#[test]
fn parse_accepts_records_written_as_arrays() {
    let (input, ctx) = parse(&values_of(r#"{"surfaceUpdate":["s1",[]]}"#)).unwrap();
    assert_eq!(ctx.surface_id, "s1");
    assert!(input.components.is_empty());
    let json = r#"{"surfaceUpdate":["s2",[["f",{"TextField":{"label":{"literalString":"F"}}}]]]}
[null,["s2","f",null]]"#;
    let (input, ctx) = parse(&values_of(json)).unwrap();
    assert_eq!(ctx.surface_id, "s2");
    assert_eq!(input.components.len(), 1);
}

#[test]
fn parse_rejects_arrays_of_the_wrong_length() {
    let err = parse(&values_of(r#"{"surfaceUpdate":["s1"]}"#)).unwrap_err();
    assert!(err.starts_with("A2UI parse error: "));
    let err = parse(&values_of(r#"{"surfaceUpdate":["s1",[],1]}"#)).unwrap_err();
    assert!(err.starts_with("A2UI parse error: "));
    let err = parse(&values_of(r#"{"beginRendering":["s","r"]}"#)).unwrap_err();
    assert!(err.starts_with("A2UI parse error: "));
}
