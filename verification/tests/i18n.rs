use m_guitar::{I18n, Lang};

#[test]
fn all_keys_present_and_distinct() {
    let es = I18n::new(Lang::Es);
    let en = I18n::new(Lang::En);
    let keys = [
        "file",
        "new",
        "open",
        "close",
        "exit",
        "app_title",
        "lang_toggle",
        "style",
        "input_hint",
        "new_score",
        "open_success",
        "open_error",
        "play_wasm_unavailable",
        "no_instrument",
    ];
    for key in keys {
        let es_val = es.t(key);
        let en_val = en.t(key);
        assert_ne!(es_val, key, "missing ES: {key}");
        assert_ne!(en_val, key, "missing EN: {key}");
        assert_ne!(es_val, en_val, "same value ES/EN: {key}");
    }
}

#[test]
fn unknown_key_fallback() {
    let i18n = I18n::new(Lang::Es);
    assert_eq!(i18n.t("nonexistent"), "nonexistent");
}

#[test]
fn translations_of_known_keys() {
    assert_eq!(I18n::new(Lang::Es).t("open"), "Abrir");
    assert_eq!(I18n::new(Lang::En).t("open"), "Open");
    assert_eq!(I18n::new(Lang::Es).t("play"), "▶");
    assert_eq!(I18n::new(Lang::En).t("lang_toggle"), "ES");
}

#[test]
fn unknown_key_fallback_in_english() {
    assert_eq!(I18n::new(Lang::En).t(""), "");
    assert_eq!(I18n::new(Lang::En).t("File"), "File");
}
