use scanner_core::catalog::{flatten_into, node_key, Catalog, YamlNode};
use scanner_core::i18n::{
    language_for_locale, language_for_sources, load_messages, locale_from_sources, LOCALE_VARIABLES,
};
use scanner_core::{EnhancementPreset, I18n, Language, LanguagePreference};

#[test]
fn locale_resources_have_the_same_keys() {
    let english = load_messages(Language::English);
    let chinese = load_messages(Language::Chinese);
    assert_eq!(english.len(), chinese.len());
    let missing: Vec<String> = english
        .keys()
        .into_iter()
        .filter(|key| !chinese.contains_key(key))
        .collect();
    assert!(missing.is_empty(), "zh-CN is missing keys: {missing:?}");
    let extra: Vec<String> = chinese
        .keys()
        .into_iter()
        .filter(|key| !english.contains_key(key))
        .collect();
    assert!(extra.is_empty(), "zh-CN has unknown keys: {extra:?}");
}

#[test]
fn locale_values_are_never_empty() {
    for language in [Language::English, Language::Chinese] {
        for (key, value) in load_messages(language).entries() {
            assert!(!value.trim().is_empty(), "{key} is empty");
        }
    }
}

#[test]
fn interpolation_replaces_named_values() {
    let i18n = I18n::new(LanguagePreference::English);
    let text = i18n.text("messages.exported", &[("file", "page-01.png".to_owned())]);
    assert_eq!(text, "Exported page-01.png");
}

#[test]
fn interpolation_keeps_placeholders_for_missing_values() {
    let i18n = I18n::new(LanguagePreference::English);
    let text = i18n.text("messages.session", &[]);
    assert_eq!(text, "Session: {file}");
}

#[test]
fn unknown_keys_fall_back_to_the_key() {
    let i18n = I18n::new(LanguagePreference::Chinese);
    assert_eq!(i18n.tr("does.not.exist"), "does.not.exist");
}

#[test]
fn every_enhancement_preset_has_a_label() {
    let i18n = I18n::new(LanguagePreference::English);
    for preset in EnhancementPreset::ALL {
        let label = i18n.preset_label(preset);
        assert!(!label.starts_with("preset."), "missing label for {preset:?}");
        assert!(!label.trim().is_empty());
    }
}

#[test]
fn explicit_preference_overrides_auto() {
    let i18n = I18n::new(LanguagePreference::Chinese);
    assert_eq!(i18n.language(), Language::Chinese);
    assert_eq!(i18n.preference(), LanguagePreference::Chinese);
}

#[test]
fn nested_keys_are_joined_with_dots() {
    let i18n = I18n::new(LanguagePreference::English);
    assert_eq!(i18n.tr("toolbar.open_files"), "Open files");
    assert_eq!(i18n.tr("app.title"), "Document Scanner");
    assert_eq!(i18n.tr("toolbar"), "toolbar");
}

#[test]
fn chinese_catalog_translates_messages() {
    let i18n = I18n::new(LanguagePreference::Chinese);
    assert_eq!(i18n.tr("toolbar.cancel"), "取消");
    assert_eq!(
        i18n.text("messages.exported", &[("file", "a.png".to_owned())]),
        "已导出 a.png"
    );
}

#[test]
fn interpolation_replaces_every_occurrence_in_order() {
    let i18n = I18n::new(LanguagePreference::English);
    let text = i18n.text(
        "inspector.channels",
        &[
            ("width", "640".to_owned()),
            ("height", "480".to_owned()),
            ("channels", "3".to_owned()),
            ("unused", "x".to_owned()),
        ],
    );
    assert_eq!(text, "640 × 480 · 3 channels");
    let chained = i18n.text("does.{a}", &[("a", "{b}".to_owned()), ("b", "c".to_owned())]);
    assert_eq!(chained, "does.c");
}

#[test]
fn setting_the_same_preference_changes_nothing() {
    let mut i18n = I18n::new(LanguagePreference::English);
    i18n.set_preference(LanguagePreference::English);
    assert_eq!(i18n.language(), Language::English);
    assert_eq!(i18n.tr("toolbar.cancel"), "Cancel");
    i18n.set_preference(LanguagePreference::Chinese);
    assert_eq!(i18n.preference(), LanguagePreference::Chinese);
    assert_eq!(i18n.language(), Language::Chinese);
    assert_eq!(i18n.tr("toolbar.cancel"), "取消");
}

#[test]
fn language_options_have_native_labels() {
    let i18n = I18n::new(LanguagePreference::English);
    assert_eq!(LanguagePreference::English.label(&i18n), "English");
    assert_eq!(LanguagePreference::Chinese.label(&i18n), "简体中文");
    assert_eq!(LanguagePreference::ALL.len(), 3);
    assert_eq!(LanguagePreference::default(), LanguagePreference::Auto);
}

#[test]
fn locale_tags_starting_with_zh_select_chinese() {
    assert_eq!(language_for_locale(Some("zh-CN".to_owned())), Language::Chinese);
    assert_eq!(language_for_locale(Some("ZH_tw".to_owned())), Language::Chinese);
    assert_eq!(language_for_locale(Some("en-US".to_owned())), Language::English);
    assert_eq!(language_for_locale(Some("z".to_owned())), Language::English);
    assert_eq!(language_for_locale(None), Language::English);
}

#[test]
fn catalog_keys_are_distinct_and_complete() {
    let english = load_messages(Language::English);
    let keys = english.keys();
    assert_eq!(keys.len(), english.len());
    let mut sorted = keys.clone();
    sorted.sort();
    sorted.dedup();
    assert_eq!(sorted.len(), keys.len());
    assert!(english.contains_key("preset.magic_color"));
    assert_eq!(english.get("messages.session"), Some("Session: {file}".to_owned()));
}

#[test]
fn language_names_keep_their_native_spelling() {
    let english = I18n::new(LanguagePreference::English);
    let chinese = I18n::new(LanguagePreference::Chinese);
    for preference in [LanguagePreference::English, LanguagePreference::Chinese] {
        assert_eq!(preference.label(&english), preference.label(&chinese));
    }
    assert_eq!(LanguagePreference::Auto.label(&english), english.tr("language.auto"));
    assert_eq!(LanguagePreference::Chinese.label(&chinese), chinese.tr("language.chinese"));
}

#[test]
fn the_system_locale_comes_before_the_environment() {
    assert_eq!(LOCALE_VARIABLES, ["LC_ALL", "LC_MESSAGES", "LANG", "LANGUAGE"]);
    let environment = [None, Some("zh_CN.UTF-8".to_owned()), Some("en_US".to_owned()), None];
    assert_eq!(
        locale_from_sources(Some("en-GB".to_owned()), &environment),
        Some("en-GB".to_owned())
    );
    assert_eq!(locale_from_sources(None, &environment), Some("zh_CN.UTF-8".to_owned()));
    assert_eq!(locale_from_sources(None, &[None, None]), None);
    assert_eq!(language_for_sources(None, &environment), Language::Chinese);
    assert_eq!(language_for_sources(Some("en-US".to_owned()), &environment), Language::English);
    assert_eq!(language_for_sources(None, &[]), Language::English);
}

#[test]
fn explicit_preferences_ignore_the_environment() {
    let environment = [Some("zh_CN".to_owned())];
    assert_eq!(LanguagePreference::English.resolve_with(&environment), Language::English);
    let i18n = I18n::with_environment(LanguagePreference::English, &environment);
    assert_eq!(i18n.language(), Language::English);
    let mut switched = I18n::with_environment(LanguagePreference::English, &[]);
    switched.set_preference_with(LanguagePreference::Chinese, &[]);
    assert_eq!(switched.language(), Language::Chinese);
}

#[test]
fn tagged_keys_count_and_tagged_messages_do_not() {
    let text = |s: &str| YamlNode::Text(s.to_owned());
    let tagged = |node: YamlNode| YamlNode::Tagged(Box::new(node));
    assert_eq!(node_key(&tagged(tagged(text("deep")))), Some("deep".to_owned()));
    assert_eq!(node_key(&YamlNode::Other), None);
    let document = YamlNode::Mapping(vec![
        (tagged(text("a")), text("kept")),
        (text("b"), tagged(text("dropped"))),
        (YamlNode::Other, text("no key")),
    ]);
    let mut catalog = Catalog::new();
    flatten_into(&[], &document, &mut catalog);
    assert_eq!(catalog.get("a"), Some("kept".to_owned()));
    assert_eq!(catalog.get("b"), None);
    assert_eq!(catalog.len(), 1);
}
