use a2native::agui::{is_agui, parse, to_output, AGUIContext};
use a2native::json::{Float64Bits, JsonNumber, JsonValue, NumberRepr};

fn to_json(v: &serde_json::Value) -> JsonValue {
    match v {
        serde_json::Value::Null => JsonValue::Null,
        serde_json::Value::Bool(b) => JsonValue::Bool(*b),
        serde_json::Value::Number(n) => {
            let float = Float64Bits { bits: n.as_f64().unwrap_or(0.0).to_bits() };
            let repr = if let Some(u) = n.as_u64() {
                NumberRepr::PosInt(u)
            } else if let Some(i) = n.as_i64() {
                NumberRepr::NegInt(i)
            } else {
                NumberRepr::Float
            };
            JsonValue::Num(JsonNumber { repr, float })
        }
        serde_json::Value::String(s) => JsonValue::Str(s.clone()),
        serde_json::Value::Array(a) => JsonValue::Arr(a.iter().map(to_json).collect()),
        serde_json::Value::Object(o) => {
            JsonValue::Obj(o.iter().map(|(k, v)| (k.clone(), to_json(v))).collect())
        }
    }
}

/// The event as the JSON object it is sent as.
fn event_json(out: &a2native::agui::AGUIOutput) -> serde_json::Value {
    let mut m = serde_json::Map::new();
    m.insert("type".to_string(), serde_json::Value::String(out.event_type.clone()));
    m.insert("messageId".to_string(), serde_json::Value::String(out.message_id.clone()));
    m.insert("toolCallId".to_string(), serde_json::Value::String(out.tool_call_id.clone()));
    m.insert("content".to_string(), serde_json::Value::String(out.content.clone()));
    m.insert("role".to_string(), serde_json::Value::String(out.role.clone()));
    serde_json::Value::Object(m)
}

fn values_of<S: AsRef<str>>(text: S) -> Vec<JsonValue> {
    serde_json::Deserializer::from_str(text.as_ref())
        .into_iter::<serde_json::Value>()
        .map(|r| to_json(&r.unwrap()))
        .collect()
}

#[test]
fn test_is_agui_positive() {
    let input = r#"{"type":"TOOL_CALL_START","toolCallId":"tc1","toolCallName":"show_form"}"#;
    assert!(is_agui(input));
}

#[test]
fn test_is_agui_negative_legacy() {
    let input = r#"{"title":"Deploy","components":[]}"#;
    assert!(!is_agui(input));
}

#[test]
fn test_is_agui_negative_a2ui() {
    let input = r#"{"surfaceUpdate":{"surfaceId":"s1","components":[]}}"#;
    assert!(!is_agui(input));
}

#[test]
fn test_parse_single_line_jsonl() {
    let input = [
        r#"{"type":"RUN_STARTED","threadId":"t1","runId":"r1"}"#,
        "\n",
        r#"{"type":"TOOL_CALL_START","toolCallId":"tc1","toolCallName":"show_form"}"#,
        "\n",
        r#"{"type":"TOOL_CALL_ARGS","toolCallId":"tc1","delta":"{\"title\":\"Deploy\"}"}"#,
        "\n",
        r#"{"type":"TOOL_CALL_END","toolCallId":"tc1"}"#
    ].concat();
    let (args, ctx) = parse(&values_of(input)).expect("parse should succeed");
    assert_eq!(args, r#"{"title":"Deploy"}"#);
    assert_eq!(ctx.tool_call_id, "tc1");
    assert_eq!(ctx.tool_call_name, "show_form");
    assert_eq!(ctx.thread_id.as_deref(), Some("t1"));
    assert_eq!(ctx.run_id.as_deref(), Some("r1"));
}

#[test]
fn test_parse_streaming_args_concatenated() {
    let input = [
        r#"{"type":"TOOL_CALL_START","toolCallId":"tc2","toolCallName":"a2n_form"}"#,
        "\n",
        r#"{"type":"TOOL_CALL_ARGS","toolCallId":"tc2","delta":"{\"title\":"}"#,
        "\n",
        r#"{"type":"TOOL_CALL_ARGS","toolCallId":"tc2","delta":"\"Confirm\"}"}"#,
        "\n",
        r#"{"type":"TOOL_CALL_END","toolCallId":"tc2"}"#
    ].concat();
    let (args, ctx) = parse(&values_of(input)).expect("parse should succeed");
    assert_eq!(args, r#"{"title":"Confirm"}"#);
    assert_eq!(ctx.tool_call_id, "tc2");
}

#[test]
fn test_parse_no_tool_call_error() {
    let input = r#"{"type":"RUN_STARTED","threadId":"t1","runId":"r1"}"#;
    assert!(parse(&values_of(input)).is_err());
}

#[test]
fn test_to_output() {
    let ctx = AGUIContext {
        tool_call_id: "tc1".into(),
        tool_call_name: "show_form".into(),
        thread_id: Some("t1".into()),
        run_id: Some("r1".into()),
    };
    let result = r#"{"status":"submitted","values":{"env":"prod"}}"#;
    let out = to_output(result, &ctx);
    assert_eq!(out.event_type, "TOOL_CALL_RESULT");
    assert_eq!(out.tool_call_id, "tc1");
    assert_eq!(out.message_id, "tc1-result");
    assert_eq!(out.role, "tool");
    assert_eq!(out.content, result);

    let json = serde_json::to_string(&event_json(&out)).unwrap();
    assert!(json.contains("\"TOOL_CALL_RESULT\""));
    assert!(json.contains("\"toolCallId\":\"tc1\""));
    assert!(json.contains("\"messageId\":\"tc1-result\""));
}

#[test]
fn test_ignores_other_events() {
    let input = [
        r#"{"type":"TEXT_MESSAGE_START","messageId":"m1","role":"assistant"}"#,
        "\n",
        r#"{"type":"TEXT_MESSAGE_CONTENT","messageId":"m1","delta":"Fill this form:"}"#,
        "\n",
        r#"{"type":"TEXT_MESSAGE_END","messageId":"m1"}"#,
        "\n",
        r#"{"type":"TOOL_CALL_START","toolCallId":"tc3","toolCallName":"form"}"#,
        "\n",
        r#"{"type":"TOOL_CALL_ARGS","toolCallId":"tc3","delta":"{\"title\":\"Test\"}"}"#,
        "\n",
        r#"{"type":"TOOL_CALL_END","toolCallId":"tc3"}"#
    ].concat();
    let (args, ctx) = parse(&values_of(input)).expect("parse should succeed");
    assert_eq!(args, r#"{"title":"Test"}"#);
    assert_eq!(ctx.tool_call_id, "tc3");
}

#[test]
fn parse_malformed_event_is_an_error() {
    let err = parse(&values_of(r#"{"toolCallId":"tc1"}"#)).unwrap_err();
    assert!(err.starts_with("AG-UI parse error: "));
    let err = parse(&values_of(r#"{"type":"TOOL_CALL_START","toolCallId":5}"#)).unwrap_err();
    assert!(err.starts_with("AG-UI parse error: "));
}

#[test]
fn parse_without_start_names_the_problem() {
    let err = parse(&values_of(r#"{"type":"TOOL_CALL_ARGS","delta":"x"}"#)).unwrap_err();
    assert_eq!(err, "No TOOL_CALL_START found in AG-UI event stream");
}

#[test]
fn args_are_the_deltas_in_order() {
    let input = [
        r#"{"type":"TOOL_CALL_ARGS","delta":"a"}"#,
        r#"{"type":"TOOL_CALL_START","toolCallId":"t"}"#,
        r#"{"type":"TEXT_MESSAGE_CONTENT","delta":"zzz"}"#,
        r#"{"type":"TOOL_CALL_ARGS","delta":"b"}"#,
        r#"{"type":"TOOL_CALL_ARGS"}"#,
        r#"{"type":"TOOL_CALL_ARGS","delta":"c"}"#
    ].concat();
    let (args, ctx) = parse(&values_of(input)).unwrap();
    assert_eq!(args, "abc");
    assert_eq!(ctx.tool_call_name, "");
    assert!(ctx.thread_id.is_none());
}

#[test]
fn parse_accepts_events_written_as_arrays() {
    let input = [
        r#"["TOOL_CALL_START","tc1","show_form",null,null,null]"#,
        "\n",
        r#"["TOOL_CALL_ARGS","tc1",null,"{}",null,null]"#,
    ]
    .concat();
    let (args, ctx) = parse(&values_of(input)).expect("parse should succeed");
    assert_eq!(args, "{}");
    assert_eq!(ctx.tool_call_id, "tc1");
    assert_eq!(ctx.tool_call_name, "show_form");
}

#[test]
fn parse_rejects_event_arrays_of_the_wrong_length() {
    let err = parse(&values_of(r#"["TOOL_CALL_START","tc1","show_form"]"#)).unwrap_err();
    assert!(err.starts_with("AG-UI parse error: "));
}
