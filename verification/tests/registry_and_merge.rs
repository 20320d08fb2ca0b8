use liquers_core::assets::is_bytes_identifier;
use liquers_core::command_metadata::{
    replace_underscores, ArgumentGUIInfo, ArgumentInfo, ArgumentType, CommandDefinition, CommandKey,
    CommandMetadata, CommandMetadataRegistry, CommandParameterValue, CommandPreset, EnumArgument,
    ParameterPreset,
};
use liquers_core::declaration::{derive_label, is_all_caps, split_camel_case, CommandDeclaration};
use liquers_core::error::ErrorType;
use liquers_core::json::{JsonMember, JsonValue};
use liquers_core::merge::{command_message, merge_object};
use liquers_core::metadata_json::{read_gui, read_metadata, write_gui, write_metadata};
use liquers_core::text::decimal_string;

fn j(text: &str) -> JsonValue {
    let v: serde_json::Value = serde_json::from_str(text).expect("valid JSON");
    from_serde(&v)
}

fn from_serde(v: &serde_json::Value) -> JsonValue {
    match v {
        serde_json::Value::Null => JsonValue::Null,
        serde_json::Value::Bool(b) => JsonValue::Bool(*b),
        serde_json::Value::Number(n) => match n.as_i64() {
            Some(i) => JsonValue::Int(i),
            None => JsonValue::Number(n.to_string()),
        },
        serde_json::Value::String(s) => JsonValue::Str(s.clone()),
        serde_json::Value::Array(a) => JsonValue::Array(a.iter().map(from_serde).collect()),
        serde_json::Value::Object(m) => JsonValue::Object(
            m.iter()
                .map(|(k, v)| JsonMember { key: k.clone(), value: from_serde(v) })
                .collect(),
        ),
    }
}

fn to_serde(v: &JsonValue) -> serde_json::Value {
    match v {
        JsonValue::Null => serde_json::Value::Null,
        JsonValue::Bool(b) => serde_json::Value::Bool(*b),
        JsonValue::Int(i) => serde_json::Value::from(*i),
        JsonValue::Number(s) => serde_json::from_str(s).expect("a number"),
        JsonValue::Str(s) => serde_json::Value::String(s.clone()),
        JsonValue::Array(a) => serde_json::Value::Array(a.iter().map(to_serde).collect()),
        JsonValue::Object(ms) => {
            let mut m = serde_json::Map::new();
            for member in ms {
                assert!(!m.contains_key(&member.key), "duplicate key {}", member.key);
                m.insert(member.key.clone(), to_serde(&member.value));
            }
            serde_json::Value::Object(m)
        }
    }
}

/// Same members, whatever their order.
fn same(a: &JsonValue, b: &JsonValue) -> bool {
    to_serde(a) == to_serde(b)
}

fn command(name: &str, label: &str) -> CommandMetadata {
    let mut c = CommandMetadata::new(name);
    c.with_label(label);
    c
}

fn keyed(namespace: &str, name: &str, label: &str) -> (CommandKey, CommandMetadata) {
    let key = CommandKey::new("", namespace, name);
    let mut c = CommandMetadata::from_key(key.clone());
    c.with_label(label);
    (key, c)
}

#[test]
fn get_after_add_finds_the_command() {
    let mut r = CommandMetadataRegistry::new();
    let (key, c) = keyed("text", "hello", "Hello");
    r.add_command(&c);
    let found = r.get(key).expect("added");
    assert_eq!(found.label, "Hello");
    assert!(r.get(CommandKey::new("", "text", "other")).is_none());
    assert!(r.get(CommandKey::new("", "other", "hello")).is_none());
}

#[test]
fn root_namespace_keys_name_the_empty_namespace() {
    let mut r = CommandMetadataRegistry::new();
    r.add_command(&command("hello", "Hello"));
    assert!(r.get(CommandKey::new("", "root", "hello")).is_none());
    assert!(r.find_command("", "root", "hello").is_some());
    let (key, c) = keyed("root", "bye", "Bye");
    assert_eq!(key.namespace, "");
    r.add_command(&c);
    assert_eq!(r.get(CommandKey::new("main", "root", "bye")).unwrap().label, "Bye");
}

#[test]
fn adding_under_a_held_key_replaces_in_place() {
    let mut r = CommandMetadataRegistry::new();
    r.add_command(&command("a", "first"));
    r.add_command(&command("b", "B"));
    r.add_command(&command("a", "second"));
    assert_eq!(r.commands.len(), 2);
    assert_eq!(r.commands[0].name, "a");
    assert_eq!(r.commands[0].label, "second");
    assert_eq!(r.commands[1].name, "b");
}

#[test]
fn get_after_remove_finds_nothing() {
    let mut r = CommandMetadataRegistry::new();
    let (ka, a) = keyed("ns", "a", "A");
    let (kb, b) = keyed("ns", "b", "B");
    r.add_command(&a);
    r.add_command(&b);
    let removed = r.remove_command(ka.clone()).expect("present");
    assert_eq!(removed.label, "A");
    assert!(r.get(ka.clone()).is_none());
    assert!(r.get(kb).is_some());
    assert!(r.remove_command(ka).is_none());
}

#[test]
fn namespaces_are_searched_in_order() {
    let mut r = CommandMetadataRegistry::new();
    let mut in_root = command("x", "root x");
    in_root.with_namespace("root");
    let mut in_other = command("x", "other x");
    in_other.with_namespace("other");
    r.add_command(&in_root);
    r.add_command(&in_other);
    let ns = vec!["other".to_string(), "root".to_string()];
    assert_eq!(r.find_command_in_namespaces("", &ns, "x").unwrap().label, "other x");
    let ns = vec!["none".to_string(), "root".to_string()];
    assert_eq!(r.find_command_in_namespaces("", &ns, "x").unwrap().label, "root x");
    assert!(r.find_command_in_namespaces("", &vec!["none".to_string()], "x").is_none());
    assert_eq!(r.find_command("", "other", "x").unwrap().label, "other x");
}

#[test]
fn merging_nothing_changes_nothing() {
    let base = j(r#"{"name": "f", "label": "F", "arguments": [{"name": "a"}]}"#);
    let (m, ok) = merge_object(base.duplicate(), &j("{}"), "f");
    assert!(ok.is_ok());
    assert_eq!(m, base);
    let (m, ok) = merge_object(base.duplicate(), &JsonValue::Null, "f");
    assert!(ok.is_ok());
    assert_eq!(m, base);
}

#[test]
fn declared_value_replaces_or_is_added() {
    let base = j(r#"{"name": "f", "label": "F"}"#);
    let (m, ok) = merge_object(base, &j(r#"{"label": "G", "doc": "d", "cache": null}"#), "f");
    assert!(ok.is_ok());
    assert!(same(&m, &j(r#"{"name": "f", "label": "G", "doc": "d", "cache": null}"#)));
}

#[test]
fn objects_merge_recursively() {
    let base = j(r#"{"name": "f", "extra": {"a": 1, "b": {"c": 2}}}"#);
    let (m, ok) = merge_object(base, &j(r#"{"extra": {"b": {"d": 3}, "e": 4}}"#), "f");
    assert!(ok.is_ok());
    assert!(same(&m, &j(r#"{"name": "f", "extra": {"a": 1, "b": {"c": 2, "d": 3}, "e": 4}}"#)));
}

#[test]
fn declared_arguments_establish_the_list() {
    let base = j(r#"{"name": "f"}"#);
    let (m, ok) = merge_object(base, &j(r#"{"arguments": [{"name": "x"}]}"#), "f");
    assert!(ok.is_ok());
    assert!(same(&m, &j(r#"{"name": "f", "arguments": [{"name": "x"}]}"#)));
}

#[test]
fn argument_entries_merge_by_name() {
    let base = j(r#"{"name": "f", "arguments": [{"name": "x", "label": "X"}, {"name": "y"}]}"#);
    let (m, ok) = merge_object(base, &j(r#"{"arguments": [{"name": "y", "label": "Why"}]}"#), "f");
    assert!(ok.is_ok());
    assert!(same(
        &m,
        &j(r#"{"name": "f", "arguments": [{"name": "x", "label": "X"}, {"name": "y", "label": "Why"}]}"#)
    ));
}

#[test]
fn unknown_argument_is_refused() {
    let base = j(r#"{"name": "f", "arguments": [{"name": "x"}]}"#);
    let (_, ok) = merge_object(base, &j(r#"{"arguments": [{"name": "z"}]}"#), "f");
    let e = ok.unwrap_err();
    assert_eq!(e.error_type, ErrorType::ParameterError);
    assert_eq!(
        e.message,
        "command \"f\": declared argument \"z\" does not exist; the callable declares [\"x\"]"
    );
}

#[test]
fn conventions_applied_twice_are_applied_once() {
    let doc = j(r#"{"name": "f", "arguments": [{"name": "context"}, {"name": "state"}, {"name": "n"}]}"#);
    let mut once = CommandDeclaration::from_document(doc.duplicate());
    once.apply_conventions().unwrap();
    let mut twice = CommandDeclaration::from_document(doc);
    twice.apply_conventions().unwrap();
    twice.apply_conventions().unwrap();
    assert_eq!(once.as_value(), twice.as_value());
    assert_eq!(once.warnings().len(), twice.warnings().len());
}

#[test]
fn filling_defaults_twice_is_filling_once() {
    let doc = j(r#"{"name": "to_text", "arguments": [{"name": "max_len"}, {"name": "x", "label": "Kept"}]}"#);
    let mut once = CommandDeclaration::from_document(doc.duplicate());
    once.fill_defaults();
    let mut twice = CommandDeclaration::from_document(doc);
    twice.fill_defaults();
    twice.fill_defaults();
    assert_eq!(once.as_value(), twice.as_value());
    let v = once.as_value();
    assert_eq!(v.get_str("label").map(|s| s.as_str()), Some("To text"));
    let args = v.get("arguments").and_then(|a| a.as_array()).unwrap();
    assert_eq!(args[0].get_str("label").map(|s| s.as_str()), Some("Max len"));
    assert_eq!(args[1].get_str("label").map(|s| s.as_str()), Some("Kept"));
    assert!(args[0].get("gui_info").is_some());
}

#[test]
fn filling_defaults_keeps_a_declared_label() {
    let mut d = CommandDeclaration::from_document(j(r#"{"name": "to_text", "label": "Mine"}"#));
    d.fill_defaults();
    assert_eq!(d.as_value().get_str("label").map(|s| s.as_str()), Some("Mine"));
}

#[test]
fn written_metadata_reads_back() {
    let mut m = CommandMetadata::new("to_text");
    m.with_label("To text");
    m.with_doc("Turns a value into text");
    m.with_argument(ArgumentInfo::integer_argument("max_len", false));
    m.with_argument(ArgumentInfo::string_argument("sep").with_label("Separator"));
    let back = read_metadata(&write_metadata(&m)).expect("reads back");
    assert_eq!(back.name, m.name);
    assert_eq!(back.namespace, m.namespace);
    assert_eq!(back.label, m.label);
    assert_eq!(back.doc, m.doc);
    assert_eq!(back.arguments.len(), 2);
    assert_eq!(back.arguments[0].name, "max_len");
    assert_eq!(back.arguments[0].argument_type, m.arguments[0].argument_type);
    assert_eq!(back.arguments[1].label, "Separator");
    assert_eq!(back.cache, m.cache);
    assert_eq!(back.volatile, m.volatile);
}

#[test]
fn command_message_quotes_the_name() {
    assert_eq!(command_message("hello", "bad"), "command \"hello\": bad");
    assert_eq!(command_message("a\"b", "x"), "command \"a\\\"b\": x");
    assert_eq!(command_message("tab\there", ""), "command \"tab\\there\": ");
}

#[test]
fn decimal_rendering() {
    assert_eq!(decimal_string(0), "0");
    assert_eq!(decimal_string(7), "7");
    assert_eq!(decimal_string(1234), "1234");
    assert_eq!(decimal_string(1000000), "1000000");
}

#[test]
fn keys_and_labels_render() {
    assert_eq!(CommandKey::new("r", "ns", "n").to_text(), "r-ns-n");
    assert_eq!(CommandKey::new_name("n").to_text(), "--n");
    assert_eq!(replace_underscores("to_text_now"), "to text now");
    assert_eq!(CommandMetadata::new("to_text").label, "to text");
}

#[test]
fn labels_of_non_ascii_identifiers() {
    assert_eq!(derive_label("großÄnderung"), "Groß änderung");
    assert_eq!(derive_label("ßig_wert"), "SSig wert");
    assert_eq!(derive_label("ÄrgerText"), "Ärger text");
    assert_eq!(derive_label("__"), "");
    assert_eq!(derive_label("HTTP"), "HTTP");
}

#[test]
fn camel_case_and_capitals() {
    assert_eq!(split_camel_case("parseHTTPResponse"), vec!["parse", "HTTP", "Response"]);
    assert_eq!(split_camel_case("v2Value"), vec!["v2", "Value"]);
    assert!(is_all_caps("HTTP2"));
    assert!(!is_all_caps("Http"));
    assert!(!is_all_caps("123"));
}

#[test]
fn unicode_whitespace_is_trimmed_from_type_identifiers() {
    assert!(is_bytes_identifier("\u{00A0}bytes\u{2003}"));
    assert!(is_bytes_identifier("\nB\r"));
}

#[test]
fn richly_described_metadata_reads_back() {
    let mut m = CommandMetadata::new("plot");
    m.with_realm("gfx");
    m.with_namespace("charts");
    m.with_module("plots");
    m.with_filename("plot.py");
    let colour = EnumArgument::new("colour").with_string_value("red", "#f00").with_int_value("one", 1);
    let mut a = ArgumentInfo::argument("colour").with_type(ArgumentType::Enum(colour));
    a.gui_info = ArgumentGUIInfo::IntegerSlider { min: -3, max: 9, step: 2 };
    a.presets.push(ParameterPreset {
        name: "warm".to_string(),
        value: CommandParameterValue::Value(JsonValue::Str("red".to_string())),
        description: "Warm".to_string(),
    });
    m.with_argument(a);
    m.with_argument(ArgumentInfo::boolean_argument("grid").set_multiple());
    m.presets.push(CommandPreset::new("plot-red-3", "Red", "A red plot").unwrap());
    m.definition = CommandDefinition::Alias {
        command: CommandKey::new("gfx", "charts", "draw"),
        head_parameters: vec![CommandParameterValue::Nothing],
    };
    m.cache = false;
    let back = read_metadata(&write_metadata(&m)).expect("reads back");
    assert_eq!(back, m);
}

#[test]
fn a_null_default_reads_back_as_no_default() {
    let mut m = CommandMetadata::new("f");
    m.with_argument(ArgumentInfo::argument("x").with_default(JsonValue::Null));
    let back = read_metadata(&write_metadata(&m)).expect("reads back");
    assert_eq!(back.arguments[0].default, CommandParameterValue::Nothing);
    assert_eq!(m.arguments[0].default, CommandParameterValue::Value(JsonValue::Null));
}

#[test]
fn widget_sizes_beyond_i64_read_back() {
    let g = ArgumentGUIInfo::TextField(usize::MAX);
    let written = write_gui(&g);
    assert_eq!(read_gui(&written).unwrap(), g);
    let doc = j(r#"{"TextArea": [18446744073709551615, 3]}"#);
    assert_eq!(read_gui(&doc).unwrap(), ArgumentGUIInfo::TextArea(usize::MAX, 3));
    assert!(read_gui(&j(r#"{"TextField": 18446744073709551616}"#)).is_err());
    assert!(read_gui(&j(r#"{"TextField": -1}"#)).is_err());
    assert!(read_gui(&j(r#"{"TextField": 2.5}"#)).is_err());
    assert_eq!(read_gui(&j(r#"{"TextField": 40}"#)).unwrap(), ArgumentGUIInfo::TextField(40));
}

#[test]
fn merging_twice_is_merging_once() {
    let base = j(r#"{"name": "f", "extra": {"a": 1}, "arguments": [{"name": "x", "label": "X"}]}"#);
    let decl = j(r#"{"extra": {"b": {"c": 2}}, "label": "F", "arguments": [{"name": "x", "label": "Ex"}]}"#);
    let (once, ok) = merge_object(base, &decl, "f");
    assert!(ok.is_ok());
    let (twice, ok) = merge_object(once.duplicate(), &decl, "f");
    assert!(ok.is_ok());
    assert_eq!(twice, once);
}

#[test]
fn unnamed_nested_entries_fail_the_second_merge() {
    let decl = j(r#"{"extra": {"arguments": [{}]}}"#);
    let (once, ok) = merge_object(j(r#"{"name": "f"}"#), &decl, "f");
    assert!(ok.is_ok());
    let (_, ok) = merge_object(once, &decl, "f");
    let e = ok.unwrap_err();
    assert_eq!(e.message, "command \"f\": argument 0 must have a string `name`");
}

#[test]
fn a_command_changed_in_place() {
    let mut r = CommandMetadataRegistry::new();
    let (key, c) = keyed("ns", "a", "A");
    r.add_command(&c);
    r.get_mut(key.clone()).expect("held").with_label("Changed");
    assert_eq!(r.get(key).unwrap().label, "Changed");
    assert!(r.get_mut(CommandKey::new("", "ns", "b")).is_none());
    assert_eq!(r.commands.len(), 1);
}
