use tauri_plugin_i18n::catalog::PluginI18n;
use tauri_plugin_i18n::decode::{format_of, normalize, parse_file, Format, ParseError};
use tauri_plugin_i18n::flatten::{flatten_keys, format_keys};
use tauri_plugin_i18n::load::{load_data, load_locales, FlatTable, SourceRecord};
use tauri_plugin_i18n::merge::merge_value;
use tauri_plugin_i18n::schema::get_version;
use tauri_plugin_i18n::value::StructuredValue;

fn s(t: &str) -> StructuredValue {
    StructuredValue::Str(t.to_string())
}

fn num(n: u64) -> StructuredValue {
    StructuredValue::Number(n.to_string(), Some(n))
}

fn obj(entries: Vec<(&str, StructuredValue)>) -> StructuredValue {
    StructuredValue::Object(entries.into_iter().map(|(k, v)| (k.to_string(), v)).collect())
}

fn src(path: &str, locale: &str, ext: &str, content: &str) -> SourceRecord {
    SourceRecord {
        path: path.to_string(),
        locale: locale.to_string(),
        ext: ext.to_string(),
        content: content.to_string(),
    }
}

fn pairs(v: &[(&str, &str)]) -> Vec<(String, String)> {
    v.iter().map(|(k, t)| (k.to_string(), t.to_string())).collect()
}

fn locale_pairs<'a>(t: &'a FlatTable, locale: &str) -> &'a Vec<(String, String)> {
    &t.iter().find(|(l, _)| l == locale).expect("locale present").1
}

fn text_of(ps: &[(String, String)], key: &str) -> Option<String> {
    ps.iter().rev().find(|(k, _)| k == key).map(|(_, t)| t.clone())
}

#[test]
fn v1_document_goes_to_the_fallback_locale() {
    let doc = obj(vec![("welcome", s("Welcome")), ("foo", s("Foo bar"))]);
    let r = normalize(&doc, "fr").expect("v1 is accepted");
    assert_eq!(r, vec![("fr".to_string(), doc.duplicate())]);
}

#[test]
fn v2_single_leaf_flattens_to_one_translation() {
    let content = "_version: 2\nwelcome.first:\n  en: Welcome\n";
    let trs = parse_file(content, "yml", "xx").expect("parses");
    assert_eq!(trs.len(), 1);
    assert_eq!(trs[0].0, "en");
    assert_eq!(flatten_keys("", &trs[0].1), pairs(&[("welcome.first", "Welcome")]));
}

#[test]
fn v2_pivots_several_locales() {
    let content = "_version: 2\nwelcome:\n  en: Welcome\n  zh-CN: Huan ying\nbye:\n  en: Bye\n";
    let trs = parse_file(content, "yaml", "xx").expect("parses");
    assert_eq!(trs.len(), 2);
    let en = trs.iter().find(|(l, _)| l == "en").expect("en").1.duplicate();
    let zh = trs.iter().find(|(l, _)| l == "zh-CN").expect("zh").1.duplicate();
    let mut en_flat = flatten_keys("", &en);
    en_flat.sort();
    assert_eq!(en_flat, pairs(&[("bye", "Bye"), ("welcome", "Welcome")]));
    assert_eq!(flatten_keys("", &zh), pairs(&[("welcome", "Huan ying")]));
}

#[test]
fn merge_with_itself_is_unchanged() {
    let d = obj(vec![("a", num(1)), ("b", obj(vec![("x", s("one")), ("y", StructuredValue::Null)]))]);
    let mut m = d.duplicate();
    merge_value(&mut m, &d);
    assert_eq!(m, d);
}

#[test]
fn merge_is_right_biased_and_unites_objects() {
    let mut a = obj(vec![("a", num(1)), ("b", obj(vec![("x", num(1))]))]);
    let b = obj(vec![("b", obj(vec![("y", num(2))])), ("c", num(3))]);
    merge_value(&mut a, &b);
    let expected = obj(vec![
        ("a", num(1)),
        ("b", obj(vec![("x", num(1)), ("y", num(2))])),
        ("c", num(3)),
    ]);
    assert_eq!(a, expected);
}

#[test]
fn merge_replaces_scalars_and_arrays() {
    let mut a = obj(vec![("k", StructuredValue::Array(vec![num(1), num(2)]))]);
    let b = obj(vec![("k", StructuredValue::Array(vec![num(3)]))]);
    merge_value(&mut a, &b);
    assert_eq!(a, b);
    let mut c = obj(vec![("k", s("x"))]);
    merge_value(&mut c, &s("plain"));
    assert_eq!(c, s("plain"));
}

#[test]
fn flatten_nested_object() {
    let d = obj(vec![("a", obj(vec![("b", s("x")), ("c", num(5))]))]);
    assert_eq!(flatten_keys("", &d), pairs(&[("a.b", "x"), ("a.c", "5")]));
}

#[test]
fn flatten_null_and_bool_leaves() {
    let d = obj(vec![("a", StructuredValue::Null), ("b", StructuredValue::Bool(true))]);
    assert_eq!(flatten_keys("", &d), pairs(&[("a", ""), ("b", "true")]));
}

#[test]
fn flatten_array_and_prefix() {
    let d = obj(vec![("list", StructuredValue::Array(vec![s("x")])), ("f", StructuredValue::Bool(false))]);
    assert_eq!(flatten_keys("root", &d), pairs(&[("root.list", ""), ("root.f", "false")]));
}

#[test]
fn format_keys_skips_empty_parts() {
    assert_eq!(format_keys(&["", "a", "", "b"]), "a.b");
    assert_eq!(format_keys(&["", ""]), "");
    assert_eq!(format_keys(&["x"]), "x");
}

#[test]
fn later_source_overrides_and_keeps_other_keys() {
    let sources = vec![
        src("locales/en.yml", "en", "yml", "welcome: Hello\nbye: Bye\n"),
        src("locales/more/en.json", "en", "json", "{\"welcome\": \"Hi\"}"),
    ];
    let t = load_locales(&sources).expect("loads");
    assert_eq!(t.len(), 1);
    let en = locale_pairs(&t, "en");
    assert_eq!(text_of(en, "welcome"), Some("Hi".to_string()));
    assert_eq!(text_of(en, "bye"), Some("Bye".to_string()));
}

#[test]
fn unparsable_file_fails_the_whole_load() {
    let sources = vec![
        src("locales/en.yml", "en", "yml", "welcome: Hello\n"),
        src("locales/fr.yml", "fr", "yml", "a: [unclosed\n"),
        src("locales/de.json", "de", "json", "{\"x\": \"y\"}"),
    ];
    let e = load_locales(&sources).expect_err("fails");
    assert_eq!(e.path, "locales/fr.yml");
    assert!(matches!(e.error, ParseError::InvalidFormat(Format::Yaml, _)));
    assert!(e.error.message().starts_with("Invalid YAML format, "));
}

#[test]
fn invalid_json_and_toml_are_reported() {
    assert!(matches!(parse_file("{", "json", "en"), Err(ParseError::InvalidFormat(Format::Json, _))));
    assert!(matches!(parse_file("a = ", "toml", "en"), Err(ParseError::InvalidFormat(Format::Toml, _))));
}

#[test]
fn unknown_extension_is_an_error() {
    assert!(matches!(parse_file("a: b", "txt", "en"), Err(ParseError::InvalidExtension)));
    assert_eq!(ParseError::InvalidExtension.message(), "Invalid file extension");
    assert_eq!(format_of("yaml"), Some(Format::Yaml));
    assert_eq!(format_of("toml"), Some(Format::Toml));
    assert_eq!(format_of("md"), None);
}

#[test]
fn v2_without_locale_leaves_is_empty_schema() {
    let r = parse_file("_version: 2\nfoo: bar\nnested:\n  deep: 3\n", "yml", "en");
    assert!(matches!(r, Err(ParseError::EmptySchema)));
    assert_eq!(
        ParseError::EmptySchema.message(),
        "Invalid locale file format, please check the version field"
    );
}

#[test]
fn empty_runtime_sources_change_nothing() {
    let bundled = vec![src("en.yml", "en", "yml", "a: b\n")];
    let with = load_data(bundled.clone(), Some(vec![])).expect("loads");
    let without = load_data(bundled, None).expect("loads");
    assert_eq!(with, without);
    assert_eq!(without, vec![("en".to_string(), pairs(&[("a", "b")]))]);
}

#[test]
fn runtime_sources_merge_on_top() {
    let bundled = vec![src("en.yml", "en", "yml", "a: b\nc: d\n")];
    let runtime = vec![src("rt/en.toml", "en", "toml", "a = \"z\"\n")];
    let t = load_data(bundled, Some(runtime)).expect("loads");
    assert_eq!(t, vec![("en".to_string(), pairs(&[("a", "z"), ("c", "d")]))]);
}

#[test]
fn version_is_read_from_the_root() {
    assert_eq!(get_version(&obj(vec![("_version", num(2))])), 2);
    assert_eq!(get_version(&obj(vec![("_version", s("2"))])), 1);
    assert_eq!(get_version(&obj(vec![])), 1);
    assert_eq!(get_version(&s("x")), 1);
}

#[test]
fn decoders_read_numbers_and_nesting() {
    let trs = parse_file("[a]\nb = 5\n", "toml", "en").expect("parses");
    assert_eq!(flatten_keys("", &trs[0].1), pairs(&[("a.b", "5")]));
    let trs = parse_file("{\"n\": -3, \"t\": true}", "json", "en").expect("parses");
    assert_eq!(trs[0].1, obj(vec![("n", StructuredValue::Number("-3".to_string(), None)), ("t", StructuredValue::Bool(true))]));
}

#[test]
fn catalog_translates_for_the_selected_locale() {
    let sources = vec![
        src("en.yml", "en", "yml", "hello: Hello\n"),
        src("fr.yml", "fr", "yml", "hello: Bonjour\n"),
    ];
    let t = load_locales(&sources).expect("loads");
    let mut c = PluginI18n::new("en".to_string(), t);
    assert_eq!(c.translate("hello"), Some("Hello".to_string()));
    assert_eq!(c.translate("missing"), None);
    c.set_locale("fr");
    assert_eq!(c.get_locale(), "fr");
    assert_eq!(c.translate("hello"), Some("Bonjour".to_string()));
    assert_eq!(c.available_locales(), vec!["en".to_string(), "fr".to_string()]);
    assert_eq!(c.get_translations_data().len(), 2);
    c.set_locale("de");
    assert_eq!(c.translate("hello"), None);
}

#[test]
fn v2_nested_locale_maps_recurse() {
    let content = "_version: 2\nmenu:\n  file:\n    en: File\n    zh-CN: Wenjian\n";
    let trs = parse_file(content, "yml", "xx").expect("parses");
    let en = &trs.iter().find(|(l, _)| l == "en").expect("en").1;
    let zh = &trs.iter().find(|(l, _)| l == "zh-CN").expect("zh").1;
    assert_eq!(flatten_keys("", en), pairs(&[("menu.file", "File")]));
    assert_eq!(flatten_keys("", zh), pairs(&[("menu.file", "Wenjian")]));
}

#[test]
fn no_sources_give_an_empty_table() {
    let t = load_locales(&vec![]).expect("loads");
    assert!(t.is_empty());
}

#[test]
fn locales_from_several_files_accumulate() {
    let sources = vec![
        src("a/en.yml", "en", "yml", "menu:\n  open: Open\n"),
        src("b/en.yml", "en", "yml", "menu:\n  close: Close\n"),
        src("c/fr.json", "fr", "json", "{\"menu\": {\"open\": \"Ouvrir\"}}"),
    ];
    let t = load_locales(&sources).expect("loads");
    assert_eq!(
        t,
        vec![
            ("en".to_string(), pairs(&[("menu.open", "Open"), ("menu.close", "Close")])),
            ("fr".to_string(), pairs(&[("menu.open", "Ouvrir")])),
        ]
    );
}
