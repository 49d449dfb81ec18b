use lemon_colonies_client::i18n::{join_key, Locale, Translatable};
use lemon_colonies_client::ui::windows::WindowId;

#[test]
fn locale_ids() {
    assert_eq!(Locale::from_id("en"), Some(Locale::English));
    assert_eq!(Locale::from_id("de"), Some(Locale::German));
    assert_eq!(Locale::from_id("fr"), None);
    assert_eq!(Locale::from_id(""), None);
    assert_eq!(Locale::from_id("EN"), None);
    assert_eq!(Locale::English.id(), "en");
    assert_eq!(Locale::German.id(), "de");
    assert_eq!(Locale::from_id(Locale::German.id()), Some(Locale::German));
}

#[test]
fn locale_names_and_default() {
    assert_eq!(Locale::English.name(), "English");
    assert_eq!(Locale::German.name(), "Deutsch");
    assert_eq!(Locale::default(), Locale::English);
    assert_eq!(Locale::from_id_or_default("de"), Locale::German);
    assert_eq!(Locale::from_id_or_default("xx"), Locale::English);
}

#[test]
fn applied_locale_is_read_back() {
    Locale::German.apply();
    assert_eq!(Locale::get(), Locale::German);
    Locale::English.apply();
    assert_eq!(Locale::get(), Locale::English);
}

#[test]
fn translation_keys() {
    assert_eq!(join_key("window", "debug"), "window.debug");
    assert_eq!(join_key("", ""), ".");
    assert_eq!(WindowId::Debug.key(), "window.debug");
    assert_eq!(WindowId::Settings.key(), "window.settings");
}
