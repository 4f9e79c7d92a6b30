//! User-interface languages: the preference a user picks, the language it
//! resolves to, and the message catalog of that language with lookup,
//! key fallback and `{name}` interpolation.
use vstd::prelude::*;

use crate::catalog::{catalog_of_document, flatten_into, parse_yaml, yaml_document, Catalog};
use crate::model::EnhancementPreset;
use crate::text::{
    ascii_lower, ascii_lower_seq, ascii_lowercase_chars, chars_of, replace_all, replace_all_chars,
    string_from_chars,
};

verus! {

/// English messages, as a YAML document of nested mappings.
pub const EN_US_LOCALE: &'static str = "app:
  title: \"Document Scanner\"
toolbar:
  open_files: \"Open files\"
  open_files_hint: \"Open files (O)\"
  open_folder: \"Open folder\"
  previous: \"Previous\"
  previous_hint: \"Previous page (P)\"
  next: \"Next\"
  next_hint: \"Next page (N)\"
  accept_next: \"Accept & next\"
  accept_next_hint: \"Accept current page and move to next (Enter)\"
  save_session: \"Save session\"
  save_session_hint: \"Save session (Ctrl/Cmd+S)\"
  load_session: \"Load session\"
  export_selected: \"Export selected\"
  export_selected_hint: \"Export selected page (Ctrl/Cmd+E)\"
  export_all: \"Export all\"
  cancel: \"Cancel\"
  language: \"Language\"
language:
  auto: \"System\"
  english: \"English\"
  chinese: \"简体中文\"
inspector:
  title: \"Inspector\"
  channels: \"{width} × {height} · {channels} channels\"
  enhancement: \"Enhancement\"
  output: \"Output\"
  jpeg_quality: \"JPEG quality\"
  apply_all: \"Apply to all pages\"
preset:
  original: \"Original\"
  adaptive_black_and_white: \"Adaptive black and white\"
  enhanced_color: \"Enhanced color\"
  magic_color: \"Magic color\"
  original_hint: \"The page is exported without enhancement.\"
  block_size: \"Block size\"
  offset: \"Offset\"
  brightness: \"Brightness\"
  contrast: \"Contrast\"
  denoise: \"Denoise\"
  sharpen: \"Sharpen\"
  local_contrast: \"Local contrast\"
  saturation: \"Saturation\"
messages:
  exported: \"Exported {file}\"
  session: \"Session: {file}\"
  preferences_save_failed: \"Could not save preferences: {error}\"
";

/// Simplified Chinese messages, with the same keys as the English ones.
pub const ZH_CN_LOCALE: &'static str = "app:
  title: \"文档扫描\"
toolbar:
  open_files: \"打开文件\"
  open_files_hint: \"打开文件 (O)\"
  open_folder: \"打开文件夹\"
  previous: \"上一页\"
  previous_hint: \"上一页 (P)\"
  next: \"下一页\"
  next_hint: \"下一页 (N)\"
  accept_next: \"确认并继续\"
  accept_next_hint: \"确认当前页并前往下一页 (Enter)\"
  save_session: \"保存会话\"
  save_session_hint: \"保存会话 (Ctrl/Cmd+S)\"
  load_session: \"载入会话\"
  export_selected: \"导出所选\"
  export_selected_hint: \"导出所选页面 (Ctrl/Cmd+E)\"
  export_all: \"全部导出\"
  cancel: \"取消\"
  language: \"语言\"
language:
  auto: \"跟随系统\"
  english: \"English\"
  chinese: \"简体中文\"
inspector:
  title: \"检查器\"
  channels: \"{width} × {height} · {channels} 个通道\"
  enhancement: \"增强\"
  output: \"输出\"
  jpeg_quality: \"JPEG 质量\"
  apply_all: \"应用到所有页面\"
preset:
  original: \"原图\"
  adaptive_black_and_white: \"自适应黑白\"
  enhanced_color: \"增强彩色\"
  magic_color: \"魔法彩色\"
  original_hint: \"页面将不经增强直接导出。\"
  block_size: \"块大小\"
  offset: \"偏移\"
  brightness: \"亮度\"
  contrast: \"对比度\"
  denoise: \"降噪\"
  sharpen: \"锐化\"
  local_contrast: \"局部对比度\"
  saturation: \"饱和度\"
messages:
  exported: \"已导出 {file}\"
  session: \"会话：{file}\"
  preferences_save_failed: \"无法保存偏好设置：{error}\"
";

/// The language setting a user chooses; `Auto` follows the system locale.
#[derive(Debug, Clone, Copy, PartialEq, Eq, Hash, Structural)]
pub enum LanguagePreference {
    Auto,
    English,
    Chinese,
}

/// The language the interface is rendered in.
#[derive(Debug, Clone, Copy, PartialEq, Eq, Hash, Structural)]
pub enum Language {
    English,
    Chinese,
}

impl Default for LanguagePreference {
    fn default() -> (preference: Self)
        ensures
            preference == LanguagePreference::Auto,
    {
        LanguagePreference::Auto
    }
}

/// The YAML source of the built-in catalog of `language`.
pub open spec fn locale_source(language: Language) -> Seq<char> {
    match language {
        Language::English => EN_US_LOCALE@,
        Language::Chinese => ZH_CN_LOCALE@,
    }
}

/// The built-in catalog of `language`: its YAML source, parsed and flattened.
pub open spec fn builtin_catalog(language: Language) -> Map<Seq<char>, Seq<char>> {
    catalog_of_document(yaml_document(locale_source(language)))
}

/// The language an explicit preference names.
pub open spec fn explicit_language(preference: LanguagePreference) -> Option<Language> {
    match preference {
        LanguagePreference::Auto => None,
        LanguagePreference::English => Some(Language::English),
        LanguagePreference::Chinese => Some(Language::Chinese),
    }
}

/// The language of a locale tag: Chinese when the tag, ASCII-lowercased,
/// starts with `zh`; English otherwise, and when there is no tag.
pub open spec fn language_for_locale_tag(locale: Option<Seq<char>>) -> Language {
    match locale {
        Some(tag) => {
            let lower = ascii_lower_seq(tag);
            if lower.len() >= 2 && lower[0] == 'z' && lower[1] == 'h' {
                Language::Chinese
            } else {
                Language::English
            }
        },
        None => Language::English,
    }
}

/// The message stored under `key`, or the key itself when there is none.
pub open spec fn message_or_key(messages: Map<Seq<char>, Seq<char>>, key: Seq<char>) -> Seq<char> {
    if messages.contains_key(key) {
        messages[key]
    } else {
        key
    }
}

/// The placeholder `{name}`.
pub open spec fn placeholder(name: Seq<char>) -> Seq<char> {
    seq!['{'] + name + seq!['}']
}

/// `message` with, for each (name, value) in order, every `{name}` replaced
/// by `value`.
pub open spec fn interpolate(message: Seq<char>, values: Seq<(Seq<char>, Seq<char>)>) -> Seq<char>
    decreases values.len(),
{
    if values.len() == 0 {
        message
    } else {
        replace_all(
            interpolate(message, values.drop_last()),
            placeholder(values.last().0),
            values.last().1,
        )
    }
}

/// The (name, value) views of interpolation arguments.
pub open spec fn value_views(values: Seq<(&str, String)>) -> Seq<(Seq<char>, Seq<char>)> {
    values.map_values(|v: (&str, String)| (v.0@, v.1@))
}

/// The catalog key of a preset's label.
pub open spec fn preset_key(preset: EnhancementPreset) -> Seq<char> {
    match preset {
        EnhancementPreset::Original => "preset.original"@,
        EnhancementPreset::AdaptiveBlackAndWhite => "preset.adaptive_black_and_white"@,
        EnhancementPreset::EnhancedColor => "preset.enhanced_color"@,
        EnhancementPreset::MagicColor => "preset.magic_color"@,
    }
}

/// The catalog key of a language option's label.
pub open spec fn preference_key(preference: LanguagePreference) -> Seq<char> {
    match preference {
        LanguagePreference::Auto => "language.auto"@,
        LanguagePreference::English => "language.english"@,
        LanguagePreference::Chinese => "language.chinese"@,
    }
}

/// The most preferred locale of the system or application
/// (`sys_locale::get_locale`). Trusted; the result depends on the
/// environment of the process, so nothing is stated of it.
#[verifier::external_body]
fn system_locale() -> Option<String> {
    sys_locale::get_locale()
}

/// The language of a locale tag: Chinese exactly when the ASCII-lowercased
/// tag starts with `zh`.
pub fn language_for_locale(locale: Option<String>) -> (language: Language)
    ensures
        language == language_for_locale_tag(
            match locale {
                Some(tag) => Some(tag@),
                None => None,
            },
        ),
{
    match locale {
        Some(tag) => {
            let lower = ascii_lowercase_chars(tag.as_str());
            if lower.len() >= 2 && lower[0] == 'z' && lower[1] == 'h' {
                Language::Chinese
            } else {
                Language::English
            }
        },
        None => Language::English,
    }
}

/// The environment variables consulted, in this order, when the system
/// reports no locale.
pub const LOCALE_VARIABLES: [&'static str; 4] = ["LC_ALL", "LC_MESSAGES", "LANG", "LANGUAGE"];

/// The text views of optional strings.
pub open spec fn option_views(values: Seq<Option<String>>) -> Seq<Option<Seq<char>>> {
    values.map_values(|v: Option<String>| option_view(v))
}

/// The text view of an optional string.
pub open spec fn option_view(value: Option<String>) -> Option<Seq<char>> {
    match value {
        Some(s) => Some(s@),
        None => None,
    }
}

/// The first value that is set.
pub open spec fn first_set(values: Seq<Option<Seq<char>>>) -> Option<Seq<char>>
    decreases values.len(),
{
    if values.len() == 0 {
        None
    } else if values[0] is Some {
        values[0]
    } else {
        first_set(values.skip(1))
    }
}

/// The locale the language is detected from: the system locale when there
/// is one, else the first environment value that is set.
pub open spec fn chosen_locale(system: Option<Seq<char>>, environment: Seq<Option<Seq<char>>>) -> Option<
    Seq<char>,
> {
    match system {
        Some(tag) => Some(tag),
        None => first_set(environment),
    }
}

proof fn lemma_first_set_step(values: Seq<Option<Seq<char>>>, i: int)
    requires
        0 <= i < values.len(),
        values[i] is None,
    ensures
        first_set(values.skip(i)) == first_set(values.skip(i + 1)),
{
    assert(values.skip(i)[0] == values[i]);
    assert(values.skip(i).skip(1) =~= values.skip(i + 1));
}

/// The locale the language is detected from, given the system locale and
/// the values of `LOCALE_VARIABLES` in order.
pub fn locale_from_sources(system: Option<String>, environment: &[Option<String>]) -> (locale:
    Option<String>)
    ensures
        option_view(locale) == chosen_locale(option_view(system), option_views(environment@)),
{
    if system.is_some() {
        return system;
    }
    let ghost views = option_views(environment@);
    proof {
        assert(views.skip(0) =~= views);
    }
    let mut i: usize = 0;
    while i < environment.len()
        invariant
            i <= environment@.len(),
            system is None,
            views == option_views(environment@),
            first_set(views.skip(i as int)) == first_set(views),
        decreases environment@.len() - i,
    {
        match &environment[i] {
            Some(value) => {
                let found = value.clone();
                proof {
                    assert(views[i as int] == option_view(environment@[i as int]));
                    assert(views[i as int] == Some(found@));
                    assert(views.skip(i as int)[0] == views[i as int]);
                    assert(first_set(views.skip(i as int)) == Some(found@));
                }
                return Some(found);
            },
            None => {
                proof {
                    assert(views[i as int] is None);
                    lemma_first_set_step(views, i as int);
                }
            },
        }
        i = i + 1;
    }
    proof {
        assert(views.skip(i as int).len() == 0);
        assert(first_set(views.skip(i as int)) is None);
    }
    None
}

/// The language detected from the system locale, else from the first
/// environment value that is set.
pub fn language_for_sources(system: Option<String>, environment: &[Option<String>]) -> (language:
    Language)
    ensures
        language == language_for_locale_tag(
            chosen_locale(option_view(system), option_views(environment@)),
        ),
{
    let locale = locale_from_sources(system, environment);
    proof {
        assert(option_view(locale) == match locale {
            Some(tag) => Some(tag@),
            None => None,
        });
    }
    language_for_locale(locale)
}

/// The language of the system locale (`sys_locale`), else of the first set
/// value among `environment`, the values of `LOCALE_VARIABLES` in order.
/// The system locale depends on the process's environment, so which
/// language comes back is not stated; `language_for_sources` states what
/// is made of it.
pub fn detect_system_language(environment: &[Option<String>]) -> (language: Language) {
    language_for_sources(system_locale(), environment)
}

impl LanguagePreference {
    /// Every option, in the order the language picker shows them.
    pub const ALL: [LanguagePreference; 3] = [
        LanguagePreference::Auto,
        LanguagePreference::English,
        LanguagePreference::Chinese,
    ];

    /// The language this preference selects: itself when explicit, the
    /// language of the system locale for `Auto`.
    pub fn resolve(self) -> (language: Language)
        ensures
            explicit_language(self) matches Some(l) ==> language == l,
    {
        self.resolve_with(&[])
    }

    /// The language this preference selects: itself when explicit; for
    /// `Auto`, the language of the system locale, else of the first set value
    /// among `environment` (the values of `LOCALE_VARIABLES`, in order).
    pub fn resolve_with(self, environment: &[Option<String>]) -> (language: Language)
        ensures
            explicit_language(self) matches Some(l) ==> language == l,
    {
        match self {
            LanguagePreference::English => Language::English,
            LanguagePreference::Chinese => Language::Chinese,
            LanguagePreference::Auto => detect_system_language(environment),
        }
    }

    /// The label of this option in the active language.
    pub fn label(self, i18n: &I18n) -> (label: String)
        ensures
            label@ == message_or_key(i18n.messages(), preference_key(self)),
    {
        let key = match self {
            LanguagePreference::Auto => "language.auto",
            LanguagePreference::English => "language.english",
            LanguagePreference::Chinese => "language.chinese",
        };
        i18n.tr(key)
    }
}

/// The built-in catalog of `language`: its YAML source parsed with
/// `serde_yaml` and flattened into dotted keys. A source that does not parse
/// yields an empty catalog.
pub fn load_messages(language: Language) -> (catalog: Catalog)
    ensures
        catalog.messages() == builtin_catalog(language),
{
    let source = match language {
        Language::English => EN_US_LOCALE,
        Language::Chinese => ZH_CN_LOCALE,
    };
    let mut catalog = Catalog::new();
    match parse_yaml(source) {
        Some(document) => {
            let prefix: Vec<char> = Vec::new();
            flatten_into(prefix.as_slice(), &document, &mut catalog);
            proof {
                assert(prefix@ =~= Seq::<char>::empty());
            }
        },
        None => {},
    }
    catalog
}

/// The message catalog of the resolved language.
#[derive(Debug)]
pub struct I18n {
    preference: LanguagePreference,
    language: Language,
    messages: Catalog,
}

impl Clone for I18n {
    /// A copy with the same preference, language and messages.
    fn clone(&self) -> (copy: Self)
        ensures
            copy.chosen_preference() == self.chosen_preference(),
            copy.active_language() == self.active_language(),
            copy.messages() == self.messages(),
    {
        I18n { preference: self.preference, language: self.language, messages: self.messages.clone() }
    }
}

impl I18n {
    /// The preference the catalog was chosen for.
    pub closed spec fn chosen_preference(&self) -> LanguagePreference {
        self.preference
    }

    /// The language the catalog is in.
    pub closed spec fn active_language(&self) -> Language {
        self.language
    }

    /// The catalog's messages by key.
    pub closed spec fn messages(&self) -> Map<Seq<char>, Seq<char>> {
        self.messages.messages()
    }

    /// The catalog for `preference`: its resolved language and that
    /// language's built-in messages.
    pub fn new(preference: LanguagePreference) -> (i18n: I18n)
        ensures
            i18n.chosen_preference() == preference,
            explicit_language(preference) matches Some(l) ==> i18n.active_language() == l,
            i18n.messages() == builtin_catalog(i18n.active_language()),
    {
        I18n::with_environment(preference, &[])
    }

    /// The catalog for `preference`, where `Auto` falls back on the
    /// environment values (those of `LOCALE_VARIABLES`, in order) when the
    /// system reports no locale.
    pub fn with_environment(preference: LanguagePreference, environment: &[Option<String>]) -> (i18n:
        I18n)
        ensures
            i18n.chosen_preference() == preference,
            explicit_language(preference) matches Some(l) ==> i18n.active_language() == l,
            i18n.messages() == builtin_catalog(i18n.active_language()),
    {
        let language = preference.resolve_with(environment);
        I18n { preference, language, messages: load_messages(language) }
    }

    /// The preference the catalog was chosen for.
    pub fn preference(&self) -> (preference: LanguagePreference)
        ensures
            preference == self.chosen_preference(),
    {
        self.preference
    }

    /// The language the catalog is in.
    pub fn language(&self) -> (language: Language)
        ensures
            language == self.active_language(),
    {
        self.language
    }

    /// Switches to `preference`; choosing the current preference again
    /// changes nothing.
    pub fn set_preference(&mut self, preference: LanguagePreference)
        ensures
            old(self).chosen_preference() == preference ==> final(self).chosen_preference()
                == old(self).chosen_preference() && final(self).active_language() == old(
                self,
            ).active_language() && final(self).messages() == old(self).messages(),
            final(self).chosen_preference() == preference,
            old(self).chosen_preference() != preference ==> final(self).messages()
                == builtin_catalog(final(self).active_language()),
            old(self).chosen_preference() != preference ==> (explicit_language(preference) matches Some(l)
                ==> final(self).active_language() == l),
    {
        self.set_preference_with(preference, &[]);
    }

    /// Switches to `preference`, where `Auto` falls back on the environment
    /// values (those of `LOCALE_VARIABLES`, in order) when the system
    /// reports no locale; choosing the current preference again changes
    /// nothing.
    pub fn set_preference_with(&mut self, preference: LanguagePreference, environment: &[Option<String>])
        ensures
            old(self).chosen_preference() == preference ==> final(self).chosen_preference()
                == old(self).chosen_preference() && final(self).active_language() == old(
                self,
            ).active_language() && final(self).messages() == old(self).messages(),
            final(self).chosen_preference() == preference,
            old(self).chosen_preference() != preference ==> final(self).messages()
                == builtin_catalog(final(self).active_language()),
            old(self).chosen_preference() != preference ==> (explicit_language(preference) matches Some(l)
                ==> final(self).active_language() == l),
    {
        if self.preference == preference {
            return;
        }
        self.preference = preference;
        self.language = preference.resolve_with(environment);
        self.messages = load_messages(self.language);
    }

    /// The message stored under `key`; a key without a message renders as
    /// the key itself.
    pub fn tr(&self, key: &str) -> (message: String)
        ensures
            message@ == message_or_key(self.messages(), key@),
    {
        match self.messages.get(key) {
            Some(message) => message,
            None => key.to_owned(),
        }
    }

    /// The message under `key` with each `{name}` placeholder replaced by
    /// its value, in the order the values are given; placeholders without a
    /// value stay as they are.
    pub fn text(&self, key: &str, values: &[(&str, String)]) -> (message: String)
        ensures
            message@ == interpolate(message_or_key(self.messages(), key@), value_views(values@)),
    {
        let mut message = chars_of(self.tr(key).as_str());
        let mut i: usize = 0;
        proof {
            assert(value_views(values@).take(0) =~= Seq::empty());
        }
        while i < values.len()
            invariant
                i <= values@.len(),
                message@ == interpolate(
                    message_or_key(self.messages(), key@),
                    value_views(values@).take(i as int),
                ),
            decreases values@.len() - i,
        {
            let (name, value) = &values[i];
            let mut pattern: Vec<char> = Vec::new();
            pattern.push('{');
            let name_chars = chars_of(name);
            let mut k: usize = 0;
            while k < name_chars.len()
                invariant
                    k <= name_chars@.len(),
                    pattern@ == seq!['{'] + name_chars@.take(k as int),
                decreases name_chars@.len() - k,
            {
                pattern.push(name_chars[k]);
                proof {
                    assert(name_chars@.take(k + 1) =~= name_chars@.take(k as int).push(
                        name_chars@[k as int],
                    ));
                }
                k = k + 1;
            }
            pattern.push('}');
            proof {
                assert(name_chars@.take(name_chars@.len() as int) =~= name_chars@);
                assert(pattern@ =~= placeholder(name@));
            }
            let value_chars = chars_of(value.as_str());
            message = replace_all_chars(message.as_slice(), pattern.as_slice(), value_chars.as_slice());
            proof {
                let vs = value_views(values@);
                assert(vs.take(i + 1).drop_last() =~= vs.take(i as int));
                assert(vs.take(i + 1).last() == (name@, value@));
            }
            i = i + 1;
        }
        proof {
            assert(value_views(values@).take(values@.len() as int) =~= value_views(values@));
        }
        string_from_chars(message.as_slice())
    }

    /// The label of a preset in the active language.
    pub fn preset_label(&self, preset: EnhancementPreset) -> (label: String)
        ensures
            label@ == message_or_key(self.messages(), preset_key(preset)),
    {
        let key = match preset {
            EnhancementPreset::Original => "preset.original",
            EnhancementPreset::AdaptiveBlackAndWhite => "preset.adaptive_black_and_white",
            EnhancementPreset::EnhancedColor => "preset.enhanced_color",
            EnhancementPreset::MagicColor => "preset.magic_color",
        };
        self.tr(key)
    }
}

/// A language option's label is the message `tr` gives for the option's key:
/// `language.auto`, `language.english` or `language.chinese`, in the active
/// catalog (the labels' contract and `tr`'s state the same lookup).
pub proof fn lemma_labels_are_lookups(preference: LanguagePreference, i18n: &I18n)
    ensures
        message_or_key(i18n.messages(), preference_key(preference)) == message_or_key(
            i18n.messages(),
            match preference {
                LanguagePreference::Auto => "language.auto"@,
                LanguagePreference::English => "language.english"@,
                LanguagePreference::Chinese => "language.chinese"@,
            },
        ),
{
}

/// When the system reports a locale, the environment values play no part:
/// the language is Chinese exactly when that locale starts with `zh` in any
/// ASCII case, English otherwise. Only without a system locale does the
/// first set environment value decide, and with neither the language is
/// English.
pub proof fn lemma_system_locale_decides_first(
    system: Seq<char>,
    environment: Seq<Option<Seq<char>>>,
    other: Seq<Option<Seq<char>>>,
)
    ensures
        language_for_locale_tag(chosen_locale(Some(system), environment)) == language_for_locale_tag(
            chosen_locale(Some(system), other),
        ),
        language_for_locale_tag(chosen_locale(Some(system), environment)) == if system.len() >= 2
            && (system[0] == 'z' || system[0] == 'Z') && (system[1] == 'h' || system[1] == 'H') {
            Language::Chinese
        } else {
            Language::English
        },
        chosen_locale(None, Seq::empty()) is None,
        language_for_locale_tag(chosen_locale(None, Seq::empty())) == Language::English,
        environment.len() > 0 && environment[0] is Some ==> chosen_locale(None, environment)
            == environment[0],
{
    let lower = ascii_lower_seq(system);
    if system.len() >= 2 {
        assert(lower[0] == ascii_lower(system[0]));
        assert(lower[1] == ascii_lower(system[1]));
    }
}

} // verus!
