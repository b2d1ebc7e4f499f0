use std::collections::BTreeSet;

use syntect::highlighting::{Theme, ThemeSet};
use two_face::theme::{EmbeddedLazyThemeSet, EmbeddedThemeName, LazyThemeSet};

fn default_theme_set() -> ThemeSet {
    ThemeSet::load_defaults()
}

#[test]
fn theme_set_roundtrip() {
    let theme_set: ThemeSet = default_theme_set();
    let lazy: LazyThemeSet = LazyThemeSet::from_theme_set(&theme_set);
    let theme_set_again: ThemeSet = lazy.to_theme_set();
    assert_eq!(theme_set.themes.len(), theme_set_again.themes.len());
    let eq = theme_set
        .themes
        .into_iter()
        .zip(theme_set_again.themes.into_iter())
        .all(|(pair1, pair2)| pair1 == pair2);
    assert!(eq);
}

#[test]
fn embedded_theme_is_exhaustive() {
    let names = EmbeddedLazyThemeSet::theme_names();
    assert_eq!(names.len(), 32);

    let all_unique: BTreeSet<_> = names.iter().map(|n| n.as_name()).collect();
    assert_eq!(all_unique.len(), names.len());

    let variants_unique: BTreeSet<_> = names.iter().collect();
    assert_eq!(variants_unique.len(), names.len());
}

#[test]
fn lazy_get_is_idempotent() {
    let theme_set = default_theme_set();
    let lazy = LazyThemeSet::from_theme_set(&theme_set);
    let first = lazy.get("InspiredGitHub").unwrap().clone();
    let second = lazy.get("InspiredGitHub").unwrap().clone();
    assert_eq!(first, second);
    assert_eq!(first, theme_set.themes["InspiredGitHub"]);
}

#[test]
fn lazy_get_unknown_name_is_absent() {
    let theme_set = default_theme_set();
    let lazy = LazyThemeSet::from_theme_set(&theme_set);
    assert!(lazy.get("No Such Theme").is_none());
}

#[test]
fn lazy_theme_names_match_source_set_in_order() {
    let theme_set = default_theme_set();
    let lazy = LazyThemeSet::from_theme_set(&theme_set);
    let names = lazy.theme_names();
    let expected: Vec<String> = theme_set.themes.keys().cloned().collect();
    assert_eq!(names, expected);
}

#[test]
fn dump_entries_roundtrip() {
    let theme_set = default_theme_set();
    let lazy = LazyThemeSet::from_theme_set(&theme_set);
    let entries = lazy.to_dump_entries();
    let rebuilt = LazyThemeSet::from_dump_entries(entries).unwrap();
    let back = rebuilt.to_theme_set();
    assert_eq!(ThemeSet::load_defaults().themes, back.themes);
}

#[test]
fn from_dump_entries_rejects_duplicates() {
    let theme = Theme::default();
    let dump = syntect::dumps::dump_binary(&theme);
    let entries = vec![
        ("One".to_owned(), dump.clone()),
        ("One".to_owned(), dump.clone()),
    ];
    assert!(LazyThemeSet::from_dump_entries(entries).is_none());
}

#[test]
fn from_dump_entries_rejects_unsorted_names() {
    let theme = Theme::default();
    let dump = syntect::dumps::dump_binary(&theme);
    let entries = vec![
        ("Later".to_owned(), dump.clone()),
        ("Earlier".to_owned(), dump.clone()),
    ];
    assert!(LazyThemeSet::from_dump_entries(entries).is_none());
}

#[test]
fn from_dump_entries_restores_theme() {
    let mut theme = Theme::default();
    theme.name = Some("A Test Theme".to_owned());
    let dump = syntect::dumps::dump_binary(&theme);
    let lazy = LazyThemeSet::from_dump_entries(vec![("A Test Theme".to_owned(), dump)]).unwrap();
    let got = lazy.get("A Test Theme").unwrap();
    assert_eq!(*got, theme);
}

fn full_embedded_theme_set() -> EmbeddedLazyThemeSet {
    let mut theme_set = ThemeSet::load_defaults();
    for name in EmbeddedLazyThemeSet::theme_names() {
        let mut theme = Theme::default();
        theme.name = Some(name.as_name().to_owned());
        theme_set.themes.insert(name.as_name().to_owned(), theme);
    }
    let lazy = LazyThemeSet::from_theme_set(&theme_set);
    EmbeddedLazyThemeSet::new(lazy).unwrap()
}

#[test]
fn embedded_lookup_succeeds_for_every_variant() {
    let embedded = full_embedded_theme_set();
    for name in EmbeddedLazyThemeSet::theme_names() {
        let theme = embedded.get(name);
        assert_eq!(theme.name.as_deref(), Some(name.as_name()));
    }
}

#[test]
fn embedded_set_rejects_stray_theme_names() {
    let mut theme_set = ThemeSet::load_defaults();
    for name in EmbeddedLazyThemeSet::theme_names() {
        let mut theme = Theme::default();
        theme.name = Some(name.as_name().to_owned());
        theme_set.themes.insert(name.as_name().to_owned(), theme);
    }
    theme_set
        .themes
        .insert("Stray Theme".to_owned(), Theme::default());
    let lazy = LazyThemeSet::from_theme_set(&theme_set);
    assert!(EmbeddedLazyThemeSet::new(lazy).is_none());
}

#[test]
fn embedded_set_requires_every_theme() {
    // The engine's bundled defaults alone do not cover the full embedded
    // listing.
    let lazy = LazyThemeSet::from_theme_set(&ThemeSet::load_defaults());
    assert!(EmbeddedLazyThemeSet::new(lazy).is_none());
}

#[test]
fn as_name_documents_expected_keys() {
    assert_eq!(EmbeddedThemeName::Leet.as_name(), "1337");
    assert_eq!(EmbeddedThemeName::Nord.as_name(), "Nord");
    assert_eq!(EmbeddedThemeName::SolarizedDark.as_name(), "Solarized (dark)");
    assert_eq!(
        EmbeddedThemeName::Base16EightiesDark.as_name(),
        "base16-eighties.dark"
    );
}

#[test]
fn staged_corpus_compiles_and_renders() {
    // One syntax definition and one theme, straight through the engine: the
    // syntax is found by extension and reports its name, and the theme
    // renders sample input to a styled document.
    const TOML_SYNTAX: &str = "\
name: TOML
file_extensions:
  - toml
scope: source.toml
contexts:
  main:
    - match: '\\d+'
      scope: constant.numeric.toml
";
    const TOML_TEXT: &str = "[section]\nkey = 123\n";

    let mut builder = syntect::parsing::SyntaxSetBuilder::new();
    builder.add_plain_text_syntax();
    let definition =
        syntect::parsing::SyntaxDefinition::load_from_str(TOML_SYNTAX, true, Some("TOML"))
            .unwrap();
    builder.add(definition);
    let syn_set = builder.build();

    let syn_ref = syn_set.find_syntax_by_extension("toml").unwrap();
    assert_eq!(syn_ref.name, "TOML");

    let mut nord = Theme::default();
    nord.name = Some("Nord".to_owned());
    let mut theme_set = ThemeSet::new();
    theme_set.themes.insert("Nord".to_owned(), nord);
    let lazy = LazyThemeSet::from_theme_set(&theme_set);
    let theme = lazy.get("Nord").unwrap();

    let html =
        syntect::html::highlighted_html_for_string(TOML_TEXT, &syn_set, syn_ref, theme).unwrap();
    assert!(!html.is_empty());
    assert!(html.contains("section"));
}
