use a2native::format::{detect_format, spec_format, InputFormat, SpecFormat};

#[test]
fn formats_are_told_apart() {
    assert_eq!(detect_format(r#"{"type":"TOOL_CALL_START","toolCallId":"x"}"#), InputFormat::Agui);
    assert_eq!(
        detect_format(r#"{"surfaceUpdate":{"surfaceId":"s","components":[]}}"#),
        InputFormat::Spec(SpecFormat::A2ui)
    );
    assert_eq!(detect_format(r#"{"components":[]}"#), InputFormat::Spec(SpecFormat::A2native));
    assert_eq!(
        detect_format(r#"{"type":"TOOL_CALL_START","delta":"\"surfaceUpdate\""}"#),
        InputFormat::Agui
    );
    assert_eq!(spec_format(r#"{"beginRendering":{}}"#), SpecFormat::A2ui);
    assert_eq!(spec_format("{}"), SpecFormat::A2native);
}
