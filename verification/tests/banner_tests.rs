use a2native::banner::{
    dashed_string, detect_ui_language, security_banner_text, ui_language_tag, BANNER_CHINESE_SIMPLIFIED,
    BANNER_CHINESE_TRADITIONAL, BANNER_ENGLISH, BANNER_FRENCH,
};

#[test]
fn test_security_banner_english() {
    let text = security_banner_text("en-US");
    assert!(text.contains("AI agent"));
}

#[test]
fn test_security_banner_zh_cn() {
    let text = security_banner_text("zh-CN");
    assert!(text.contains("敏感信息"));
}

#[test]
fn test_security_banner_zh_tw() {
    let text = security_banner_text("zh-TW");
    assert!(text.contains("敏感資訊"));
}

#[test]
fn test_security_banner_ja() {
    let text = security_banner_text("ja-JP");
    assert!(text.contains("機密情報"));
}

#[test]
fn test_security_banner_de() {
    let text = security_banner_text("de-DE");
    assert!(text.contains("KI-Agenten"));
}

#[test]
fn test_security_banner_unknown_falls_back_to_en() {
    let text = security_banner_text("xx-UNKNOWN");
    assert!(text.contains("AI agent"));
}

#[test]
fn banner_subtags_and_case() {
    assert_eq!(security_banner_text("zh-Hant-TW"), BANNER_CHINESE_TRADITIONAL);
    assert_eq!(security_banner_text("zh_hk"), BANNER_CHINESE_TRADITIONAL);
    assert_eq!(security_banner_text("ZH-mo"), BANNER_CHINESE_TRADITIONAL);
    assert_eq!(security_banner_text("zh-Hans-CN"), BANNER_CHINESE_SIMPLIFIED);
    assert_eq!(security_banner_text("zh"), BANNER_CHINESE_SIMPLIFIED);
    assert_eq!(security_banner_text("FR_ca"), BANNER_FRENCH);
    assert_eq!(security_banner_text(""), BANNER_ENGLISH);
    assert_eq!(security_banner_text("-fr"), BANNER_ENGLISH);
}

#[test]
fn language_tag_prefers_a_non_empty_override() {
    assert_eq!(ui_language_tag(Some("pt_BR".to_string()), Some("de_DE".to_string())), "pt-BR");
    assert_eq!(ui_language_tag(Some(String::new()), Some("de_DE".to_string())), "de-DE");
    assert_eq!(ui_language_tag(None, None), "en");
    assert_eq!(detect_ui_language(Some("zh_TW".to_string())), "zh-TW");
    assert!(!detect_ui_language(None).contains('_'));
    assert_eq!(dashed_string("a_b_c"), "a-b-c");
}
