//! The security banner shown at the top of every form, in the user's language.
use vstd::prelude::*;
use crate::text::{chars_is, chars_of, push_char, to_owned_string, lower_chars, upper_chars, slice_chars, ascii_lower, ascii_upper};
use crate::protocol::opt_str_view;

verus! {

/// The banner in English, also used for every language not listed below.
pub const BANNER_ENGLISH: &'static str = "⚠  This interface was generated by an AI agent. Your input will be sent to the agent and may be seen by others — do not enter sensitive information.";

/// The banner in Simplified Chinese.
pub const BANNER_CHINESE_SIMPLIFIED: &'static str = "⚠  此界面由 AI 代理生成。您输入的内容将发送给 AI 代理，且可能被他人看到——请勿输入敏感信息。";

/// The banner in Traditional Chinese (Taiwan, Hong Kong, Macau, `Hant` script).
pub const BANNER_CHINESE_TRADITIONAL: &'static str = "⚠  此介面由 AI 代理程式生成。您輸入的內容將傳送給 AI 代理，且可能被他人看到——請勿輸入敏感資訊。";
/// The banner in Japanese.
pub const BANNER_JAPANESE: &'static str = "⚠  このインターフェースはAIエージェントが生成しました。入力内容はエージェントに送信され、他の人に見られる可能性があります——機密情報を入力しないでください。";
/// The banner in Korean.
pub const BANNER_KOREAN: &'static str = "⚠  이 인터페이스는 AI 에이전트가 생성했습니다. 입력한 내용은 에이전트에게 전송되며 타인이 볼 수 있습니다——민감한 정보를 입력하지 마세요。";
/// The banner in French.
pub const BANNER_FRENCH: &'static str = "⚠  Cette interface a été générée par un agent IA. Vos saisies seront envoyées à l'agent et pourraient être vues par d'autres — ne saisissez pas d'informations sensibles.";
/// The banner in German.
pub const BANNER_GERMAN: &'static str = "⚠  Diese Oberfläche wurde von einem KI-Agenten generiert. Ihre Eingaben werden an den Agenten gesendet und könnten von anderen eingesehen werden — geben Sie keine vertraulichen Daten ein.";
/// The banner in Spanish.
pub const BANNER_SPANISH: &'static str = "⚠  Esta interfaz fue generada por un agente de IA. Sus entradas se enviarán al agente y pueden ser vistas por otros — no introduzca información sensible.";
/// The banner in Portuguese.
pub const BANNER_PORTUGUESE: &'static str = "⚠  Esta interface foi gerada por um agente de IA. Suas entradas serão enviadas ao agente e podem ser vistas por outros — não insira informações sensíveis.";
/// The banner in Italian.
pub const BANNER_ITALIAN: &'static str = "⚠  Questa interfaccia è stata generata da un agente IA. I tuoi dati verranno inviati all'agente e potrebbero essere visti da altri — non inserire informazioni sensibili.";
/// The banner in Russian.
pub const BANNER_RUSSIAN: &'static str = "⚠  Этот интерфейс создан агентом ИИ. Введённые вами данные будут отправлены агенту и могут быть видны другим — не вводите конфиденциальные данные.";
/// The banner in Arabic.
pub const BANNER_ARABIC: &'static str = "⚠  تم إنشاء هذه الواجهة بواسطة وكيل ذكاء اصطناعي. ستُرسَل مدخلاتك إلى الوكيل وقد يراها الآخرون — لا تُدخل معلومات حساسة.";
/// The banner in Hindi.
pub const BANNER_HINDI: &'static str = "⚠  यह इंटरफ़ेस एक AI एजेंट द्वारा बनाया गया है। आपका इनपुट एजेंट को भेजा जाएगा और दूसरों द्वारा देखा जा सकता है — संवेदनशील जानकारी न डालें।";
/// The banner in Turkish.
pub const BANNER_TURKISH: &'static str = "⚠  Bu arayüz bir yapay zeka ajanı tarafından oluşturuldu. Girişleriniz ajana gönderilecek ve başkaları tarafından görülebilir — hassas bilgi girmeyin.";
/// The banner in Dutch.
pub const BANNER_DUTCH: &'static str = "⚠  Deze interface is gegenereerd door een AI-agent. Uw invoer wordt naar de agent verzonden en kan door anderen worden gezien — voer geen gevoelige informatie in.";
/// The banner in Polish.
pub const BANNER_POLISH: &'static str = "⚠  Ten interfejs został wygenerowany przez agenta AI. Twoje dane zostaną wysłane do agenta i mogą być widoczne dla innych — nie wprowadzaj poufnych danych.";
/// The banner in Vietnamese.
pub const BANNER_VIETNAMESE: &'static str = "⚠  Giao diện này được tạo bởi tác nhân AI. Thông tin bạn nhập sẽ được gửi đến tác nhân và có thể bị người khác xem — không nhập thông tin nhạy cảm.";
/// The banner in Thai.
pub const BANNER_THAI: &'static str = "⚠  อินเทอร์เฟซนี้สร้างโดย AI agent ข้อมูลที่คุณป้อนจะถูกส่งไปยัง agent และอาจถูกผู้อื่นเห็น — อย่าป้อนข้อมูลที่ละเอียดอ่อน";
/// Whether `c` separates the subtags of a locale name (`zh-CN`, `zh_CN`).
pub open spec fn is_locale_sep(c: char) -> bool {
    c == '-' || c == '_'
}

/// The number of leading characters of `s` before its first separator.
pub open spec fn subtag_len(s: Seq<char>) -> nat
    decreases s.len(),
{
    if s.len() == 0 || is_locale_sep(s[0]) {
        0
    } else {
        1 + subtag_len(s.drop_first())
    }
}

/// The first subtag of a locale name: the language.
pub open spec fn first_subtag(s: Seq<char>) -> Seq<char> {
    s.take(subtag_len(s) as int)
}

/// The second subtag of a locale name (a region or script), or the empty
/// sequence where there is none.
pub open spec fn second_subtag(s: Seq<char>) -> Seq<char> {
    let n = subtag_len(s);
    if n < s.len() {
        let rest = s.skip(n + 1 as int);
        rest.take(subtag_len(rest) as int)
    } else {
        seq![]
    }
}

/// Whether a Chinese locale's second subtag selects Traditional Chinese.
pub open spec fn is_traditional_region(sub: Seq<char>) -> bool {
    sub == "TW"@ || sub == "HK"@ || sub == "MO"@ || sub == "HANT"@
}

/// The banner for a lower-case language subtag and an upper-case second subtag.
pub open spec fn banner_for(lang: Seq<char>, sub: Seq<char>) -> Seq<char> {
    if lang == "zh"@ {
        if is_traditional_region(sub) { BANNER_CHINESE_TRADITIONAL@ } else { BANNER_CHINESE_SIMPLIFIED@ }
    } else if lang == "ja"@ {
        BANNER_JAPANESE@
    } else if lang == "ko"@ {
        BANNER_KOREAN@
    } else if lang == "fr"@ {
        BANNER_FRENCH@
    } else if lang == "de"@ {
        BANNER_GERMAN@
    } else if lang == "es"@ {
        BANNER_SPANISH@
    } else if lang == "pt"@ {
        BANNER_PORTUGUESE@
    } else if lang == "it"@ {
        BANNER_ITALIAN@
    } else if lang == "ru"@ {
        BANNER_RUSSIAN@
    } else if lang == "ar"@ {
        BANNER_ARABIC@
    } else if lang == "hi"@ {
        BANNER_HINDI@
    } else if lang == "tr"@ {
        BANNER_TURKISH@
    } else if lang == "nl"@ {
        BANNER_DUTCH@
    } else if lang == "pl"@ {
        BANNER_POLISH@
    } else if lang == "vi"@ {
        BANNER_VIETNAMESE@
    } else if lang == "th"@ {
        BANNER_THAI@
    } else {
        BANNER_ENGLISH@
    }
}

/// The banner for a locale name such as `zh-CN`, `zh_TW`, `zh-Hant-TW` or
/// `fr`: chosen by its language subtag (compared in ASCII lower case) and, for
/// Chinese, by its second subtag (compared in ASCII upper case).
pub open spec fn banner_spec(locale: Seq<char>) -> Seq<char> {
    banner_for(
        first_subtag(locale).map_values(|c: char| ascii_lower(c)),
        second_subtag(locale).map_values(|c: char| ascii_upper(c)),
    )
}

/// The language subtag of a locale name, in ASCII lower case.
pub open spec fn language_of(locale: Seq<char>) -> Seq<char> {
    first_subtag(locale).map_values(|c: char| ascii_lower(c))
}

/// The banner table: a locale whose language is one of zh, ja, ko, fr, de,
/// es, pt, it, ru, ar, hi, tr, nl, pl, vi, th gets that language's banner
/// (Chinese in its traditional script for Taiwan, Hong Kong, Macau and the
/// `Hant` script, simplified otherwise); every other language gets the
/// English one.
pub proof fn lemma_banner_table(locale: Seq<char>)
    ensures
        ({
            let lang = language_of(locale);
            let region = second_subtag(locale).map_values(|c: char| ascii_upper(c));
            let traditional = region == "TW"@ || region == "HK"@ || region == "MO"@ || region == "HANT"@;
            &&& lang == "zh"@ && traditional ==> banner_spec(locale) == BANNER_CHINESE_TRADITIONAL@
            &&& lang == "zh"@ && !traditional ==> banner_spec(locale) == BANNER_CHINESE_SIMPLIFIED@
            &&& lang == "ja"@ ==> banner_spec(locale) == BANNER_JAPANESE@
            &&& lang == "ko"@ ==> banner_spec(locale) == BANNER_KOREAN@
            &&& lang == "fr"@ ==> banner_spec(locale) == BANNER_FRENCH@
            &&& lang == "de"@ ==> banner_spec(locale) == BANNER_GERMAN@
            &&& lang == "es"@ ==> banner_spec(locale) == BANNER_SPANISH@
            &&& lang == "pt"@ ==> banner_spec(locale) == BANNER_PORTUGUESE@
            &&& lang == "it"@ ==> banner_spec(locale) == BANNER_ITALIAN@
            &&& lang == "ru"@ ==> banner_spec(locale) == BANNER_RUSSIAN@
            &&& lang == "ar"@ ==> banner_spec(locale) == BANNER_ARABIC@
            &&& lang == "hi"@ ==> banner_spec(locale) == BANNER_HINDI@
            &&& lang == "tr"@ ==> banner_spec(locale) == BANNER_TURKISH@
            &&& lang == "nl"@ ==> banner_spec(locale) == BANNER_DUTCH@
            &&& lang == "pl"@ ==> banner_spec(locale) == BANNER_POLISH@
            &&& lang == "vi"@ ==> banner_spec(locale) == BANNER_VIETNAMESE@
            &&& lang == "th"@ ==> banner_spec(locale) == BANNER_THAI@
            &&& lang != "zh"@ && lang != "ja"@ && lang != "ko"@ && lang != "fr"@ && lang != "de"@ && lang != "es"@ && lang != "pt"@ && lang != "it"@ && lang != "ru"@ && lang != "ar"@ && lang != "hi"@ && lang != "tr"@ && lang != "nl"@ && lang != "pl"@ && lang != "vi"@ && lang != "th"@ ==> banner_spec(locale) == BANNER_ENGLISH@
        }),
{
    let lang = language_of(locale);
    reveal_strlit("zh");
    reveal_strlit("ja");
    reveal_strlit("ko");
    reveal_strlit("fr");
    reveal_strlit("de");
    reveal_strlit("es");
    reveal_strlit("pt");
    reveal_strlit("it");
    reveal_strlit("ru");
    reveal_strlit("ar");
    reveal_strlit("hi");
    reveal_strlit("tr");
    reveal_strlit("nl");
    reveal_strlit("pl");
    reveal_strlit("vi");
    reveal_strlit("th");
    if lang == "zh"@ {
        assert(lang[0] == 'z' && lang[1] == 'h');
    }
    if lang == "ja"@ {
        assert(lang[0] == 'j' && lang[1] == 'a');
    }
    if lang == "ko"@ {
        assert(lang[0] == 'k' && lang[1] == 'o');
    }
    if lang == "fr"@ {
        assert(lang[0] == 'f' && lang[1] == 'r');
    }
    if lang == "de"@ {
        assert(lang[0] == 'd' && lang[1] == 'e');
    }
    if lang == "es"@ {
        assert(lang[0] == 'e' && lang[1] == 's');
    }
    if lang == "pt"@ {
        assert(lang[0] == 'p' && lang[1] == 't');
    }
    if lang == "it"@ {
        assert(lang[0] == 'i' && lang[1] == 't');
    }
    if lang == "ru"@ {
        assert(lang[0] == 'r' && lang[1] == 'u');
    }
    if lang == "ar"@ {
        assert(lang[0] == 'a' && lang[1] == 'r');
    }
    if lang == "hi"@ {
        assert(lang[0] == 'h' && lang[1] == 'i');
    }
    if lang == "tr"@ {
        assert(lang[0] == 't' && lang[1] == 'r');
    }
    if lang == "nl"@ {
        assert(lang[0] == 'n' && lang[1] == 'l');
    }
    if lang == "pl"@ {
        assert(lang[0] == 'p' && lang[1] == 'l');
    }
    if lang == "vi"@ {
        assert(lang[0] == 'v' && lang[1] == 'i');
    }
    if lang == "th"@ {
        assert(lang[0] == 't' && lang[1] == 'h');
    }
}

proof fn lemma_subtag_len(s: Seq<char>, i: int)
    requires
        0 <= i <= s.len(),
        forall|j: int| 0 <= j < i ==> !is_locale_sep(#[trigger] s[j]),
        i == s.len() || is_locale_sep(s[i]),
    ensures
        subtag_len(s) == i,
    decreases i,
{
    if i > 0 {
        assert forall|j: int| 0 <= j < i - 1 implies !is_locale_sep(#[trigger] s.drop_first()[j]) by {
            assert(s.drop_first()[j] == s[j + 1]);
        }
        lemma_subtag_len(s.drop_first(), i - 1);
    }
}

/// The index of the first separator in `s` at or after `from`, or its length.
fn subtag_end(s: &[char], from: usize) -> (r: usize)
    requires
        from <= s.len(),
    ensures
        from <= r <= s.len(),
        subtag_len(s@.skip(from as int)) == r - from,
{
    let mut i = from;
    while i < s.len() && !(s[i] == '-' || s[i] == '_')
        invariant
            from <= i <= s.len(),
            forall|j: int| from <= j < i ==> !is_locale_sep(#[trigger] s@[j]),
        decreases s.len() - i,
    {
        i = i + 1;
    }
    proof {
        let t = s@.skip(from as int);
        assert forall|j: int| 0 <= j < i - from implies !is_locale_sep(#[trigger] t[j]) by {
            assert(t[j] == s@[from + j]);
        }
        if i < s.len() {
            assert(t[i - from] == s@[i as int]);
        }
        lemma_subtag_len(t, i - from);
    }
    i
}

/// The banner for a lower-case language subtag and an upper-case second subtag.
fn banner_for_exec(lang: &[char], sub: &[char]) -> (r: &'static str)
    ensures
        r@ == banner_for(lang@, sub@),
{
    if chars_is(lang, "zh") {
        if chars_is(sub, "TW") || chars_is(sub, "HK") || chars_is(sub, "MO") || chars_is(sub, "HANT") {
            BANNER_CHINESE_TRADITIONAL
        } else {
            BANNER_CHINESE_SIMPLIFIED
        }
    } else if chars_is(lang, "ja") {
        BANNER_JAPANESE
    } else if chars_is(lang, "ko") {
        BANNER_KOREAN
    } else if chars_is(lang, "fr") {
        BANNER_FRENCH
    } else if chars_is(lang, "de") {
        BANNER_GERMAN
    } else if chars_is(lang, "es") {
        BANNER_SPANISH
    } else if chars_is(lang, "pt") {
        BANNER_PORTUGUESE
    } else if chars_is(lang, "it") {
        BANNER_ITALIAN
    } else if chars_is(lang, "ru") {
        BANNER_RUSSIAN
    } else if chars_is(lang, "ar") {
        BANNER_ARABIC
    } else if chars_is(lang, "hi") {
        BANNER_HINDI
    } else if chars_is(lang, "tr") {
        BANNER_TURKISH
    } else if chars_is(lang, "nl") {
        BANNER_DUTCH
    } else if chars_is(lang, "pl") {
        BANNER_POLISH
    } else if chars_is(lang, "vi") {
        BANNER_VIETNAMESE
    } else if chars_is(lang, "th") {
        BANNER_THAI
    } else {
        BANNER_ENGLISH
    }
}

/// The security banner text for the locale name `locale`.
pub fn security_banner_text(locale: &str) -> (r: &'static str)
    ensures
        r@ == banner_spec(locale@),
{
    let cs = chars_of(locale);
    let n = subtag_end(cs.as_slice(), 0);
    assert(cs@.skip(0) =~= cs@);
    let lang_raw = slice_chars(cs.as_slice(), 0, n);
    let lang = lower_chars(lang_raw.as_slice());
    let sub = if n < cs.len() {
        let m = subtag_end(cs.as_slice(), n + 1);
        let sub_raw = slice_chars(cs.as_slice(), n + 1, m);
        proof {
            let rest = cs@.skip(n + 1);
            assert(sub_raw@ =~= rest.take(subtag_len(rest) as int));
            assert(sub_raw@ == second_subtag(locale@));
        }
        upper_chars(sub_raw.as_slice())
    } else {
        let empty: Vec<char> = Vec::new();
        assert(empty@.map_values(|c: char| ascii_upper(c)) =~= second_subtag(locale@).map_values(|c: char| ascii_upper(c)));
        empty
    };
    assert(lang_raw@ =~= first_subtag(locale@));
    assert(sub@ == second_subtag(locale@).map_values(|c: char| ascii_upper(c)));
    banner_for_exec(lang.as_slice(), sub.as_slice())
}

/// `s` with every `_` replaced by `-` (as `str::replace('_', "-")`).
pub open spec fn dashed(s: Seq<char>) -> Seq<char> {
    s.map_values(|c: char| if c == '_' { '-' } else { c })
}

/// The language tag used for the banner: a non-empty override, else the
/// system's locale name, else `en`; with `_` written as `-` (`zh_CN` is `zh-CN`).
pub open spec fn language_tag(override_lang: Option<Seq<char>>, system: Option<Seq<char>>) -> Seq<char> {
    if override_lang is Some && override_lang->0.len() > 0 {
        dashed(override_lang->0)
    } else {
        match system {
            Some(s) => dashed(s),
            None => dashed("en"@),
        }
    }
}

/// `s` with every `_` replaced by `-`.
pub fn dashed_string(s: &str) -> (r: String)
    ensures
        r@ == dashed(s@),
{
    let cs = chars_of(s);
    let mut r = String::new();
    let mut i: usize = 0;
    while i < cs.len()
        invariant
            i <= cs.len(),
            r@ == dashed(cs@.take(i as int)),
        decreases cs.len() - i,
    {
        let c = cs[i];
        push_char(&mut r, if c == '_' { '-' } else { c });
        i = i + 1;
        assert(dashed(cs@.take(i as int)) =~= dashed(cs@.take(i - 1)).push(if c == '_' { '-' } else { c }));
    }
    assert(cs@.take(cs.len() as int) =~= cs@);
    r
}

/// The language tag from an override (the `A2N_LANG` setting) and the
/// system's locale name, either of which may be missing.
pub fn ui_language_tag(override_lang: Option<String>, system: Option<String>) -> (r: String)
    ensures
        r@ == language_tag(
            match override_lang { Some(o) => Some(o@), None => None },
            match system { Some(s) => Some(s@), None => None },
        ),
{
    if let Some(o) = &override_lang {
        if !o.as_str().is_empty() {
            return dashed_string(o.as_str());
        }
    }
    match system {
        Some(s) => dashed_string(s.as_str()),
        None => dashed_string("en"),
    }
}

/// The system's locale name: `sys_locale::get_locale`. It depends on the
/// machine's settings, so nothing is claimed of what it returns.
#[verifier::external_body]
fn system_locale() -> (r: Option<String>) {
    sys_locale::get_locale()
}

/// The language tag for the banner: the override where it is given and not
/// empty; otherwise the system's locale name (asked only then), or `en`.
/// Which locale the system reports is not known here, so the result is the
/// tag of the override and of some system locale name, or none.
pub fn detect_ui_language(override_lang: Option<String>) -> (r: String)
    ensures
        override_lang is Some && override_lang->0@.len() > 0 ==> r@ == dashed(override_lang->0@),
        exists|sys: Option<Seq<char>>| r@ == #[trigger] language_tag(opt_str_view(override_lang), sys),
        forall|i: int| 0 <= i < r@.len() ==> r@[i] != '_',
{
    let wanted = match &override_lang {
        Some(o) => !o.as_str().is_empty(),
        None => false,
    };
    let system = if wanted { None } else { system_locale() };
    let ghost sys: Option<Seq<char>> = if system is Some { Some(system->0@) } else { None };
    let ghost ov: Option<Seq<char>> = if override_lang is Some { Some(override_lang->0@) } else { None };
    let r = ui_language_tag(override_lang, system);
    assert(r@ == language_tag(ov, sys));
    r
}

} // verus!
