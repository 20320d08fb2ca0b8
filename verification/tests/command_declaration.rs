use liquers_core::command_metadata::{
    ArgumentGUIInfo, ArgumentType, CommandDefinition, CommandKey, CommandMetadata,
    CommandParameterValue,
};
use liquers_core::declaration::{derive_label, CommandDeclaration, StateDelivery, WarningKind};
use liquers_core::error::Error;
use liquers_core::json::{JsonMember, JsonValue};

/// A document from JSON text.
fn j(text: &str) -> JsonValue {
    let v: serde_json::Value = serde_json::from_str(text).expect("valid JSON");
    from_serde(&v)
}

fn from_serde(v: &serde_json::Value) -> JsonValue {
    match v {
        serde_json::Value::Null => JsonValue::Null,
        serde_json::Value::Bool(b) => JsonValue::Bool(*b),
        serde_json::Value::Number(n) => match n.as_i64() {
            Some(i) => JsonValue::Int(i),
            None => JsonValue::Number(n.to_string()),
        },
        serde_json::Value::String(s) => JsonValue::Str(s.clone()),
        serde_json::Value::Array(a) => JsonValue::Array(a.iter().map(from_serde).collect()),
        serde_json::Value::Object(m) => JsonValue::Object(
            m.iter()
                .map(|(k, v)| JsonMember { key: k.clone(), value: from_serde(v) })
                .collect(),
        ),
    }
}

fn to_serde(v: &JsonValue) -> serde_json::Value {
    match v {
        JsonValue::Null => serde_json::Value::Null,
        JsonValue::Bool(b) => serde_json::Value::Bool(*b),
        JsonValue::Int(i) => serde_json::Value::from(*i),
        JsonValue::Number(s) => serde_json::from_str(s).expect("a number"),
        JsonValue::Str(s) => serde_json::Value::String(s.clone()),
        JsonValue::Array(a) => serde_json::Value::Array(a.iter().map(to_serde).collect()),
        JsonValue::Object(ms) => {
            let mut m = serde_json::Map::new();
            for member in ms {
                if !m.contains_key(&member.key) {
                    m.insert(member.key.clone(), to_serde(&member.value));
                }
            }
            serde_json::Value::Object(m)
        }
    }
}

/// The value under a path of keys, as JSON.
fn at(v: &JsonValue, path: &[&str]) -> serde_json::Value {
    let mut cur = to_serde(v);
    for key in path {
        cur = cur.get(*key).cloned().unwrap_or(serde_json::Value::Null);
    }
    cur
}

fn sj(text: &str) -> serde_json::Value {
    serde_json::from_str(text).expect("valid JSON")
}

fn try_build(doc: &str) -> Result<CommandMetadata, Error> {
    CommandDeclaration::from_document(j(doc)).finish()
}

fn build(doc: &str) -> CommandMetadata {
    try_build(doc).expect("declaration should build")
}

fn finish(declaration: &mut CommandDeclaration) -> CommandMetadata {
    declaration.finish().expect("declaration should build")
}

fn baseline() -> JsonValue {
    j(r#"{"name": "repeat", "arguments": [
        { "name": "count", "argument_type": "int", "default": { "Value": 2 } }
    ]}"#)
}

fn kinds(declaration: &CommandDeclaration) -> Vec<WarningKind> {
    declaration.warnings().iter().map(|w| w.kind).collect()
}

// --- stage 2: the merge laws -------------------------------------------------------------------

#[test]
fn merge01_empty_declaration_is_identity() {
    let mut d = CommandDeclaration::from_introspection(baseline());
    d.enhance(&j("{}")).unwrap();
    assert_eq!(to_serde(d.as_value()), to_serde(&baseline()));
}

#[test]
fn merge02_enhance_is_idempotent() {
    let declaration = j(r#"{ "label": "Repeat text" }"#);
    let mut once = CommandDeclaration::from_introspection(baseline());
    once.enhance(&declaration).unwrap();
    let mut twice = CommandDeclaration::from_introspection(baseline());
    twice.enhance(&declaration).unwrap();
    twice.enhance(&declaration).unwrap();
    assert_eq!(to_serde(once.as_value()), to_serde(twice.as_value()));
}

#[test]
fn merge03_declared_scalar_overrides_discovered() {
    let mut d = CommandDeclaration::from_introspection(j(r#"{"name":"x","doc":"discovered"}"#));
    d.enhance(&j(r#"{ "doc": "declared" }"#)).unwrap();
    assert_eq!(at(d.as_value(), &["doc"]), sj(r#""declared""#));
}

#[test]
fn merge04_omitted_field_leaves_discovered_value() {
    let mut d = CommandDeclaration::from_introspection(j(r#"{"name":"x","doc":"discovered"}"#));
    d.enhance(&j(r#"{ "label": "X" }"#)).unwrap();
    assert_eq!(at(d.as_value(), &["doc"]), sj(r#""discovered""#));
}

#[test]
fn merge05_argument_entry_augments_by_name() {
    let mut d = CommandDeclaration::from_introspection(baseline());
    d.enhance(&j(r#"{ "arguments": [{ "name": "count", "label": "Count" }] }"#))
        .unwrap();
    let argument = to_serde(d.as_value())["arguments"][0].clone();
    assert_eq!(argument["label"], sj(r#""Count""#));
    assert_eq!(argument["argument_type"], sj(r#""int""#));
    assert_eq!(argument["default"], sj(r#"{ "Value": 2 }"#));
}

#[test]
fn merge06_unknown_argument_name_is_rejected() {
    let mut d = CommandDeclaration::from_introspection(baseline());
    let error = d
        .enhance(&j(r#"{ "arguments": [{ "name": "cnt" }] }"#))
        .unwrap_err();
    let message = error.message.clone();
    assert!(message.contains("cnt"), "names the offender: {message}");
    assert!(message.contains("repeat"), "names the command: {message}");
    assert!(message.contains("count"), "lists what exists: {message}");
}

#[test]
fn merge07_no_arguments_key_lets_the_declaration_establish_the_list() {
    let mut d = CommandDeclaration::from_introspection(j(r#"{ "name": "repeat" }"#));
    d.enhance(&j(r#"{ "arguments": [{ "name": "count", "argument_type": "int" }] }"#))
        .unwrap();
    assert_eq!(to_serde(d.as_value())["arguments"][0]["name"], sj(r#""count""#));
}

#[test]
fn merge08_empty_arguments_list_still_rejects() {
    let mut d = CommandDeclaration::from_introspection(j(r#"{"name":"f","arguments":[]}"#));
    assert!(d
        .enhance(&j(r#"{ "arguments": [{ "name": "count" }] }"#))
        .is_err());
}

#[test]
fn merge09_null_sets_rather_than_deletes() {
    let mut d = CommandDeclaration::from_introspection(j(r#"{"name":"x","filename":"a.txt"}"#));
    d.enhance(&j(r#"{ "filename": null }"#)).unwrap();
    assert!(d.as_value().get("filename").is_some(), "the key is present");
    assert_eq!(at(d.as_value(), &["filename"]), serde_json::Value::Null);
}

#[test]
fn merge10_declaration_cannot_reorder_arguments() {
    let base = j(r#"{"name":"f","arguments":[{"name":"a"},{"name":"b"}]}"#);
    let mut d = CommandDeclaration::from_introspection(base);
    d.enhance(&j(r#"{ "arguments": [
        { "name": "b", "label": "Bee" },
        { "name": "a", "label": "Ay"  }
    ]}"#))
    .unwrap();
    let value = to_serde(d.as_value());
    let arguments = value["arguments"].as_array().unwrap();
    assert_eq!(arguments[0]["name"], sj(r#""a""#));
    assert_eq!(arguments[0]["label"], sj(r#""Ay""#));
    assert_eq!(arguments[1]["name"], sj(r#""b""#));
}

#[test]
fn merge11_composition_is_associative() {
    let (first, second) = (j(r#"{ "doc": "one" }"#), j(r#"{ "label": "Two" }"#));
    let mut layered = CommandDeclaration::from_introspection(baseline());
    layered.enhance(&first).unwrap();
    layered.enhance(&second).unwrap();
    let mut combined = CommandDeclaration::from_introspection(baseline());
    combined
        .enhance(&j(r#"{ "doc": "one", "label": "Two" }"#))
        .unwrap();
    assert_eq!(to_serde(layered.as_value()), to_serde(combined.as_value()));
}

#[test]
fn merge12_nested_maps_merge_and_other_arrays_replace() {
    let base = j(r#"{"name":"f",
                      "registration":{"js":{"state":"text","variadic":"spread"}},
                      "next":["a","b"]}"#);
    let mut d = CommandDeclaration::from_introspection(base);
    d.enhance(&j(r#"{ "registration": { "js": { "state": "value" } }, "next": ["c"] }"#))
        .unwrap();
    assert_eq!(at(d.as_value(), &["registration", "js", "state"]), sj(r#""value""#));
    assert_eq!(
        at(d.as_value(), &["registration", "js", "variadic"]),
        sj(r#""spread""#),
        "the sibling survives"
    );
    assert_eq!(at(d.as_value(), &["next"]), sj(r#"["c"]"#), "a non-argument array replaces");
}

// --- stage 4: derived defaults -----------------------------------------------------------------

#[test]
fn def01_label_derivation() {
    for (name, want) in [
        ("to_text", "To text"),
        ("toText", "To text"),
        ("toHTML", "To HTML"),
        ("parseHTTPResponse", "Parse HTTP response"),
        ("x", "X"),
    ] {
        assert_eq!(derive_label(name), want, "deriving from {name:?}");
    }
}

#[test]
fn def02_derivation_never_overwrites() {
    let mut d = CommandDeclaration::from_document(j(r#"{"name":"to_text"}"#));
    d.enhance(&j(r#"{ "label": "Textify" }"#)).unwrap();
    d.fill_defaults();
    assert_eq!(at(d.as_value(), &["label"]), sj(r#""Textify""#));
}

#[test]
fn def03_fill_defaults_is_idempotent() {
    let mut once = CommandDeclaration::from_document(j(r#"{"name":"to_text"}"#));
    once.fill_defaults();
    let mut twice = CommandDeclaration::from_document(j(r#"{"name":"to_text"}"#));
    twice.fill_defaults();
    twice.fill_defaults();
    assert_eq!(to_serde(once.as_value()), to_serde(twice.as_value()));
}

#[test]
fn def04_argument_gui_info_defaults_to_text_field_40() {
    let m = build(r#"{ "name": "f", "arguments": [{ "name": "a" }] }"#);
    assert_eq!(m.arguments[0].gui_info, ArgumentGUIInfo::TextField(40));
}

#[test]
fn def05_scalar_defaults_match_from_key() {
    let m = build(r#"{ "name": "greet" }"#);
    let k = CommandMetadata::from_key(CommandKey::new("", "", "greet"));
    assert_eq!(m.cache, k.cache);
    assert_eq!(m.volatile, k.volatile);
    assert_eq!(m.definition, k.definition);
    assert_eq!(m.definition, CommandDefinition::Registered);
}

#[test]
fn def06_derive_runs_after_merge() {
    let mut d = CommandDeclaration::from_document(j(r#"{ "name": "to_text" }"#));
    d.fill_defaults();
    d.enhance(&j(r#"{ "label": "Textify" }"#)).unwrap();
    assert_eq!(at(d.as_value(), &["label"]), sj(r#""Textify""#));
}

// --- stage 5: build and validation -------------------------------------------------------------

#[test]
fn build01_minimal_declaration_builds() {
    let m = build(r#"{ "name": "greet" }"#);
    assert_eq!(m.name, "greet");
    assert_eq!(m.label, "Greet");
    assert!(m.arguments.is_empty());
}

#[test]
fn build02_type_is_accepted_for_argument_type() {
    let m = build(r#"{ "name": "f", "arguments": [{ "name": "a", "type": "int" }] }"#);
    assert_eq!(m.arguments[0].argument_type, ArgumentType::Integer);
}

#[test]
fn build03_argument_type_aliases() {
    for (spelling, want) in [
        ("str", ArgumentType::String),
        ("text", ArgumentType::String),
        ("integer", ArgumentType::Integer),
        ("number", ArgumentType::Float),
        ("boolean", ArgumentType::Boolean),
    ] {
        let doc = format!(r#"{{"name":"f","arguments":[{{"name":"a","type":"{spelling}"}}]}}"#);
        let m = build(&doc);
        assert_eq!(m.arguments[0].argument_type, want, "spelling {spelling:?}");
    }
}

#[test]
fn build04_command_parameter_value_shapes() {
    let cases = [
        ("2", CommandParameterValue::Value(j("2"))),
        (r#""hello""#, CommandParameterValue::Value(j(r#""hello""#))),
        ("true", CommandParameterValue::Value(j("true"))),
        ("null", CommandParameterValue::Value(j("null"))),
        (r#""None""#, CommandParameterValue::Nothing),
        (r#"{ "Value": 2 }"#, CommandParameterValue::Value(j("2"))),
    ];
    for (input, want) in cases {
        let doc = format!(r#"{{"name":"f","arguments":[{{"name":"a","default":{input}}}]}}"#);
        let m = build(&doc);
        assert_eq!(m.arguments[0].default, want);
    }
}

#[test]
fn build05_none_string_needs_the_tagged_form() {
    let bare = build(r#"{"name":"f","arguments":[{"name":"a","default":"None"}]}"#);
    assert_eq!(bare.arguments[0].default, CommandParameterValue::Nothing);
    let tagged = build(r#"{"name":"f","arguments":[{"name":"a","default":{"Value":"None"}}]}"#);
    assert_eq!(
        tagged.arguments[0].default,
        CommandParameterValue::Value(j(r#""None""#))
    );
}

#[test]
fn val01_empty_name_is_refused() {
    assert!(try_build(r#"{ "name": "" }"#).is_err());
    assert!(try_build("{}").is_err());
}

#[test]
fn val02_multiple_argument_must_be_last() {
    let error = try_build(r#"{"name":"f","arguments":[
        {"name":"xs","multiple":true},{"name":"y"}]}"#)
    .unwrap_err();
    let message = error.message.clone();
    assert!(message.contains("xs"), "{message}");
    assert!(message.contains('y'), "{message}");
}

#[test]
fn val04_unknown_argument_type_names_the_command() {
    let error = try_build(r#"{"name":"f","arguments":[{"name":"a","type":"zzz"}]}"#).unwrap_err();
    let message = error.message.clone();
    assert!(message.contains('f'), "names the command: {message}");
    assert!(message.contains("zzz"), "names the offending type: {message}");
}

// --- stage 3: conventions ----------------------------------------------------------------------

#[test]
fn conv01_context_leaves_arguments_and_lands_in_registration() {
    let mut d = CommandDeclaration::from_introspection(j(r#"{"name":"f","arguments":[
        { "name": "value" }, { "name": "count" }, { "name": "context" }]}"#));
    d.apply_conventions().unwrap();
    let m = finish(&mut d);
    assert_eq!(m.arguments.len(), 1, "`value` became the state, `context` is gone");
    assert_eq!(m.arguments[0].name, "count");
    assert_eq!(at(&d.registration(), &["context"]), sj("2"));
}

#[test]
fn conv02_the_first_argument_is_always_the_state() {
    for (first, want_mode) in [
        ("state", "state"),
        ("value", "value"),
        ("text", "text"),
        ("df", "df"),
    ] {
        let doc = format!(r#"{{"name":"f","arguments":[{{ "name": "{first}" }}, {{ "name": "count" }}]}}"#);
        let mut d = CommandDeclaration::from_introspection(j(&doc));
        d.apply_conventions().unwrap();
        let m = finish(&mut d);
        assert!(m.state_argument.is_some(), "first argument {first:?} is the state");
        assert_eq!(m.arguments.len(), 1, "only `count` remains ({first:?})");
        assert_eq!(at(&d.registration(), &["state"]), serde_json::Value::from(want_mode));
    }
}

#[test]
fn conv03_a_non_leading_state_name_is_an_ordinary_argument() {
    let mut d = CommandDeclaration::from_introspection(j(r#"{"name":"f","arguments":[
        { "name": "value" }, { "name": "state" }, { "name": "text" }]}"#));
    d.apply_conventions().unwrap();
    let m = finish(&mut d);
    assert_eq!(m.arguments.len(), 2);
    assert_eq!(m.arguments[0].name, "state");
    assert_eq!(m.arguments[1].name, "text");
}

#[test]
fn conv04_a_convention_can_be_disabled_by_name() {
    let mut d = CommandDeclaration::from_introspection(j(r#"{"name":"f","arguments":[
        { "name": "value" }, { "name": "context" }]}"#));
    d.enhance(&j(r#"{ "conventions": { "context": false } }"#)).unwrap();
    d.apply_conventions().unwrap();
    let m = finish(&mut d);
    assert_eq!(m.arguments.len(), 1, "a genuine `context` argument survives");
    assert_eq!(m.arguments[0].name, "context");
    assert!(m.state_argument.is_some(), "the delivery rule still applied to `value`");
}

#[test]
fn conv05_all_conventions_can_be_disabled() {
    let mut d = CommandDeclaration::from_introspection(j(r#"{"name":"f","arguments":[
        { "name": "state" }, { "name": "context" }]}"#));
    d.enhance(&j(r#"{ "conventions": false }"#)).unwrap();
    d.apply_conventions().unwrap();
    let m = finish(&mut d);
    assert_eq!(m.arguments.len(), 2);
    assert!(m.state_argument.is_none());
}

#[test]
fn conv06_declared_entry_for_a_recognised_name_merges_before_it_is_lifted() {
    let mut d = CommandDeclaration::from_introspection(j(r#"{"name":"f","arguments":[
        { "name": "state" }, { "name": "count" }]}"#));
    d.enhance(&j(r#"{ "arguments": [{ "name": "state", "label": "Input" }] }"#))
        .expect("must not be rejected as an unknown argument");
    d.apply_conventions().unwrap();
    let m = finish(&mut d);
    assert_eq!(m.state_argument.as_ref().unwrap().label, "Input");
}

#[test]
fn conv07_conventions_are_idempotent() {
    let base = r#"{"name":"f","arguments":[{ "name": "state" }, { "name": "context" }]}"#;
    let mut once = CommandDeclaration::from_introspection(j(base));
    once.apply_conventions().unwrap();
    let mut twice = CommandDeclaration::from_introspection(j(base));
    twice.apply_conventions().unwrap();
    twice.apply_conventions().unwrap();
    assert_eq!(to_serde(once.as_value()), to_serde(twice.as_value()));
    assert_eq!(once.warnings(), twice.warnings(), "warnings too");
}

#[test]
fn conv08_each_delivery_mode_is_recorded_distinctly() {
    for name in ["none", "na", "state", "value", "text"] {
        let doc = format!(r#"{{"name":"f","arguments":[{{ "name": "{name}" }}]}}"#);
        let mut d = CommandDeclaration::from_introspection(j(&doc));
        d.apply_conventions().unwrap();
        let want = if name == "na" { "none" } else { name };
        assert_eq!(at(&d.registration(), &["state"]), serde_json::Value::from(want), "name {name:?}");
    }
}

#[test]
fn conv09_none_gives_a_source_command() {
    for name in ["none", "na"] {
        let doc = format!(r#"{{"name":"f","arguments":[{{ "name": "{name}" }}, {{ "name": "count" }}]}}"#);
        let mut d = CommandDeclaration::from_introspection(j(&doc));
        d.apply_conventions().unwrap();
        let m = finish(&mut d);
        assert!(m.state_argument.is_none(), "{name:?} is a source command");
        assert_eq!(m.arguments.len(), 1, "the marker is not an argument ({name:?})");
        assert_eq!(m.arguments[0].name, "count");
    }
}

#[test]
fn conv10_explicit_state_argument_is_left_alone() {
    let mut d =
        CommandDeclaration::from_introspection(j(r#"{"name":"f","arguments":[{ "name": "df" }]}"#));
    d.enhance(&j(r#"{ "state_argument": { "name": "df" } }"#)).unwrap();
    d.apply_conventions().unwrap();
    let m = finish(&mut d);
    assert_eq!(m.state_argument.as_ref().unwrap().name, "df");
}

#[test]
fn conv11_reserved_name_behaves_as_value() {
    assert_eq!(
        StateDelivery::from_argument_name("df"),
        StateDelivery::Reserved("df".to_string())
    );
    assert_eq!(
        StateDelivery::from_argument_name("df").effective(),
        StateDelivery::Value
    );
    assert_eq!(StateDelivery::from_argument_name("na"), StateDelivery::Nothing);
}

#[test]
fn conv12_a_declared_mode_wins_over_the_derived_one() {
    let mut d = CommandDeclaration::from_introspection(j(r#"{"name":"f","arguments":[
        { "name": "value" }, { "name": "count" }]}"#));
    d.enhance(&j(r#"{ "registration": { "state": "none" } }"#)).unwrap();
    d.apply_conventions().unwrap();
    let m = finish(&mut d);
    assert!(m.state_argument.is_none(), "declared `none` beats derived `value`");
    assert_eq!(m.arguments.len(), 1, "the first argument is still consumed");
    assert_eq!(m.arguments[0].name, "count");
}

#[test]
fn conv15_an_authored_mode_still_runs_the_conventions() {
    let mut d = CommandDeclaration::from_introspection(j(r#"{"name":"f","arguments":[
        { "name": "df" }, { "name": "count" }, { "name": "context" }]}"#));
    d.enhance(&j(r#"{ "registration": { "state": "value" } }"#)).unwrap();
    d.apply_conventions().unwrap();
    let m = finish(&mut d);
    assert!(m.state_argument.is_some(), "the authored mode creates the state argument");
    assert_eq!(m.arguments.len(), 1, "the first parameter is consumed, `context` removed");
    assert_eq!(m.arguments[0].name, "count");
    assert_eq!(at(&d.registration(), &["state"]), sj(r#""value""#));
    assert_eq!(at(&d.registration(), &["context"]), sj("2"));
}

#[test]
fn conv16_a_document_can_declare_its_state_delivery() {
    let mut d = CommandDeclaration::from_document(j(r#"{ "name": "f" }"#));
    d.enhance(&j(r#"{ "arguments": [{ "name": "count" }],
                       "registration": { "state": "value" } }"#))
        .unwrap();
    d.apply_conventions().unwrap();
    let m = finish(&mut d);
    assert!(m.state_argument.is_some(), "the declared mode is honoured");
    assert_eq!(m.arguments.len(), 1, "no public argument is consumed");
    assert_eq!(m.arguments[0].name, "count");
    assert!(
        !kinds(&d).contains(&WarningKind::NoIntrospection),
        "the state is stated, so there is nothing to warn about"
    );
}

#[test]
fn conv17_a_document_can_declare_itself_a_source_command() {
    let mut d = CommandDeclaration::from_document(j(r#"{ "name": "f" }"#));
    d.enhance(&j(r#"{ "arguments": [{ "name": "count" }],
                       "registration": { "state": "none" } }"#))
        .unwrap();
    d.apply_conventions().unwrap();
    let m = finish(&mut d);
    assert!(m.state_argument.is_none());
    assert_eq!(m.arguments.len(), 1, "no public argument is consumed");
    assert!(!kinds(&d).contains(&WarningKind::NoIntrospection));
}

#[test]
fn conv13_leading_context_is_removed_before_the_delivery_rule() {
    let mut d = CommandDeclaration::from_introspection(j(r#"{"name":"f","arguments":[
        { "name": "context" }, { "name": "value" }, { "name": "count" }]}"#));
    d.apply_conventions().unwrap();
    let m = finish(&mut d);
    assert_eq!(at(&d.registration(), &["context"]), sj("0"));
    assert_eq!(at(&d.registration(), &["state"]), sj(r#""value""#), "`value`, not `context`");
    assert_eq!(m.arguments.len(), 1);
}

#[test]
fn conv14_no_introspection_means_no_delivery_rule() {
    let mut d = CommandDeclaration::from_document(j(r#"{ "name": "f" }"#));
    d.enhance(&j(r#"{ "arguments": [{ "name": "count" }] }"#)).unwrap();
    d.apply_conventions().unwrap();
    let m = finish(&mut d);
    assert!(m.state_argument.is_none());
    assert_eq!(m.arguments.len(), 1);
    assert_eq!(m.arguments[0].name, "count");
}

// --- warnings ----------------------------------------------------------------------------------

#[test]
fn warn01_a_reserved_delivery_name_warns_and_still_means_value() {
    let mut d = CommandDeclaration::from_introspection(j(r#"{"name":"f","arguments":[
        { "name": "df" }, { "name": "count" }]}"#));
    d.apply_conventions().unwrap();
    assert!(kinds(&d).contains(&WarningKind::ReservedStateDelivery));
    assert_eq!(at(&d.registration(), &["state"]), sj(r#""df""#), "recorded verbatim");
    let w = &d.warnings()[0];
    assert!(w.message.contains("df"), "{}", w.message);
    assert_eq!(w.command, "f");
}

#[test]
fn warn02_a_leading_context_warns_that_it_shifted_the_state() {
    let mut d = CommandDeclaration::from_introspection(j(r#"{"name":"f","arguments":[
        { "name": "context" }, { "name": "count" }]}"#));
    d.apply_conventions().unwrap();
    assert!(kinds(&d).contains(&WarningKind::ContextBeforeState));
    assert_eq!(at(&d.registration(), &["state"]), sj(r#""count""#), "`count` became the state");
}

#[test]
fn warn03_no_introspection_warns_only_when_the_state_is_unstated() {
    let mut noisy = CommandDeclaration::from_document(j(r#"{ "name": "f" }"#));
    noisy.enhance(&j(r#"{ "arguments": [{ "name": "count" }] }"#)).unwrap();
    noisy.apply_conventions().unwrap();
    assert!(kinds(&noisy).contains(&WarningKind::NoIntrospection));

    let mut quiet = CommandDeclaration::from_document(j(r#"{ "name": "f" }"#));
    quiet
        .enhance(&j(r#"{ "arguments": [{ "name": "count" }],
                          "state_argument": { "name": "state" } }"#))
        .unwrap();
    quiet.apply_conventions().unwrap();
    assert!(
        !kinds(&quiet).contains(&WarningKind::NoIntrospection),
        "declared, so no warning"
    );
}

#[test]
fn warn04_a_dropped_command_level_hints_key_warns() {
    let mut d = CommandDeclaration::from_document(j(r#"{"name":"f"}"#));
    d.enhance(&j(r#"{ "hints": { "category": "text" } }"#)).unwrap();
    let m = finish(&mut d);
    assert!(kinds(&d).contains(&WarningKind::DroppedKey));
    assert_eq!(to_serde(&liquers_core::metadata_json::write_metadata(&m)).get("hints"), None);
}

#[test]
fn warn05_warnings_are_deduplicated() {
    let mut d =
        CommandDeclaration::from_introspection(j(r#"{"name":"f","arguments":[{ "name": "df" }]}"#));
    d.apply_conventions().unwrap();
    d.apply_conventions().unwrap();
    assert_eq!(
        d.warnings()
            .iter()
            .filter(|w| w.kind == WarningKind::ReservedStateDelivery)
            .count(),
        1
    );
}

#[test]
fn warn06_a_warning_is_never_fatal() {
    let mut d = CommandDeclaration::from_introspection(j(r#"{"name":"f","arguments":[
        { "name": "context" }, { "name": "df" }]}"#));
    d.apply_conventions().unwrap();
    assert!(!d.warnings().is_empty());
    assert!(d.build().is_ok(), "warnings do not fail the build");
}

// --- hints, of two kinds -----------------------------------------------------------------------

#[test]
fn hint01_registration_hints_merge_like_any_map() {
    let mut d = CommandDeclaration::from_introspection(j(r#"{"name":"f"}"#));
    d.enhance(&j(r#"{ "registration": { "python": { "state": "text" } } }"#)).unwrap();
    d.enhance(&j(r#"{ "registration": { "python": { "variadic": "spread" } } }"#)).unwrap();
    assert_eq!(at(&d.registration(), &["python", "state"]), sj(r#""text""#));
    assert_eq!(at(&d.registration(), &["python", "variadic"]), sj(r#""spread""#));
}

#[test]
fn hint02_build_drops_registration() {
    let mut d = CommandDeclaration::from_document(j(r#"{"name":"f"}"#));
    d.enhance(&j(r#"{ "registration": { "python": { "state": "text" } } }"#)).unwrap();
    let m = finish(&mut d);
    assert_eq!(to_serde(&liquers_core::metadata_json::write_metadata(&m)).get("registration"), None);
    assert_eq!(at(&d.registration(), &["python", "state"]), sj(r#""text""#), "still readable");
}

#[test]
fn hint03_unknown_registration_key_is_carried_not_rejected() {
    let mut d = CommandDeclaration::from_document(j(r#"{"name":"f"}"#));
    d.enhance(&j(r#"{ "registration": { "javascript": { "stat": "text" } } }"#)).unwrap();
    assert_eq!(at(&d.registration(), &["javascript", "stat"]), sj(r#""text""#));
    assert!(d.build().is_ok());
}

#[test]
fn hint04_usage_hint_on_an_argument_reaches_the_metadata() {
    let m = build(r#"{ "name": "f", "arguments": [
        { "name": "a", "hints": { "placeholder": "how many times" } }
    ]}"#);
    let hint = m.arguments[0]
        .hints
        .iter()
        .find(|h| h.key == "placeholder")
        .map(|h| to_serde(&h.value));
    assert_eq!(hint, Some(sj(r#""how many times""#)));
}

#[test]
fn val05_global_enum_reference_is_not_resolved_and_does_not_fail() {
    let m = build(r#"{"name":"f","arguments":[
        {"name":"a","argument_type":{"GlobalEnum":"colours"}}]}"#);
    assert!(matches!(m.arguments[0].argument_type, ArgumentType::GlobalEnum(_)));
}
