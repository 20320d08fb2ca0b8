use liquers_core::command_metadata::CommandKey;
use liquers_core::commands::{
    CommandArguments, CommandRegistry, ExecutionRoute, FromParameterValue, InjectedFromContext,
    ParameterValue, ResolvedParameterValues, ValueFromJson,
};
use liquers_core::error::{Error, ErrorType, Position};
use liquers_core::json::JsonValue;

type Args = CommandArguments<String>;

fn element(name: &str, v: JsonValue, offset: usize) -> ParameterValue {
    ParameterValue::ParameterValue(name.to_string(), v, Position::new(offset, 1, offset + 1))
}

fn args_of(parameter: ParameterValue) -> Args {
    CommandArguments::new(ResolvedParameterValues(vec![parameter]))
}

fn s(v: &str) -> JsonValue {
    JsonValue::Str(v.to_string())
}

#[test]
fn returns_elements_in_order() -> Result<(), Error> {
    let args = args_of(ParameterValue::MultipleParameters(vec![
        element("columns", s("a"), 21),
        element("columns", s("b"), 23),
        element("columns", s("c"), 25),
    ]));
    let columns: Vec<String> = args.get_multiple(0, "columns")?;
    assert_eq!(columns, vec!["a", "b", "c"]);
    Ok(())
}

#[test]
fn empty_list_is_ok() -> Result<(), Error> {
    let args = args_of(ParameterValue::MultipleParameters(Vec::new()));
    let columns: Vec<String> = args.get_multiple(0, "columns")?;
    assert!(columns.is_empty());
    Ok(())
}

#[test]
fn scalar_slot_is_an_error() {
    let args = args_of(element("columns", s("a"), 21));
    let err = args
        .get_multiple::<String>(0, "columns")
        .expect_err("a scalar slot must not satisfy get_multiple");
    assert!(err.message.contains("columns"), "message: {}", err.message);
    assert!(err.message.contains("multiple"), "message: {}", err.message);
}

#[test]
fn unresolved_link_element_is_an_error() -> Result<(), Error> {
    let args = args_of(ParameterValue::MultipleParameters(vec![ParameterValue::ParameterLink(
        "columns".to_string(),
        "-R/config/colname.txt".to_string(),
        Position::new(21, 1, 22),
    )]));
    let err = args
        .get_multiple::<String>(0, "columns")
        .expect_err("an unresolved link must not convert");
    assert!(err.message.to_lowercase().contains("link"), "message: {}", err.message);
    Ok(())
}

#[test]
fn conversion_error_carries_element_position() {
    let mut args = args_of(ParameterValue::MultipleParameters(vec![
        element("rows", JsonValue::Int(1), 21),
        element("rows", s("x"), 23),
    ]));
    args.action_position = Position::new(6, 1, 7);
    let err = args
        .get_multiple::<i64>(0, "rows")
        .expect_err("\"x\" is not an i64");
    assert_eq!(err.position.offset, 23, "must point at the element, not at the action");
}

#[test]
fn converts_integers() -> Result<(), Error> {
    let args = args_of(ParameterValue::MultipleParameters(vec![
        element("rows", JsonValue::Int(1), 21),
        element("rows", JsonValue::Int(2), 23),
    ]));
    let rows: Vec<i64> = args.get_multiple(0, "rows")?;
    assert_eq!(rows, vec![1, 2]);
    Ok(())
}

type Registry = CommandRegistry<fn(i64) -> i64, fn(i64) -> i64>;

fn hello(x: i64) -> i64 {
    x + 1
}

fn registry_with_hello() -> Registry {
    let mut registry = Registry::new();
    registry.register_command(CommandKey::new("", "", "hello"), hello as fn(i64) -> i64);
    registry
}

#[test]
fn unregister01_removes_metadata_and_executors() -> Result<(), Error> {
    let mut registry = registry_with_hello();
    let key = CommandKey::new("", "", "hello");
    assert!(registry.command_metadata_registry.get(key.clone()).is_some());
    assert!(registry.executor(&key).is_some());
    assert!(registry.unregister(key.clone()));
    assert!(registry.executor(&key).is_none(), "sync executor survived");
    assert!(registry.async_executor(&key).is_none(), "async executor survived");
    assert!(registry.command_metadata_registry.get(key).is_none(), "metadata survived");
    Ok(())
}

#[test]
fn unregister02_absent_is_false_not_error() {
    let mut registry = registry_with_hello();
    assert!(!registry.unregister(CommandKey::new("", "", "nonexistent")));
    assert!(registry.unregister(CommandKey::new("", "", "hello")));
    assert!(!registry.unregister(CommandKey::new("", "", "hello")));
}

#[test]
fn unregister04_async_and_sync_both_removed() {
    let mut registry = Registry::new();
    let key = CommandKey::new("", "", "both");
    registry.register_command(key.clone(), hello as fn(i64) -> i64);
    registry.register_async_command(key.clone(), hello as fn(i64) -> i64);
    assert!(registry.executor(&key).is_some());
    assert!(registry.async_executor(&key).is_some());
    assert!(registry.unregister(key.clone()));
    assert!(registry.executor(&key).is_none(), "sync executor survived");
    assert!(registry.async_executor(&key).is_none(), "async executor survived");
}

// --- conversions and positions -----------------------------------------------------------------

#[test]
fn missing_argument_is_reported_at_the_action() {
    let mut args = args_of(element("a", JsonValue::Int(1), 3));
    args.action_position = Position::new(9, 1, 10);
    let err = args.get_parameter(1, "b").expect_err("only one parameter");
    assert_eq!(err.error_type, ErrorType::ArgumentMissing);
    assert_eq!(err.position.offset, 9);
}

#[test]
fn parameter_position_falls_back_to_the_action() {
    let mut args = CommandArguments::<String>::new(ResolvedParameterValues(vec![
        element("a", JsonValue::Int(1), 3),
        ParameterValue::DefaultValue("b".to_string(), JsonValue::Int(2)),
    ]));
    args.action_position = Position::new(9, 1, 10);
    assert_eq!(args.parameter_position(0).offset, 3);
    assert_eq!(args.parameter_position(1).offset, 9);
    assert_eq!(args.parameter_position(5).offset, 9);
}

#[test]
fn set_value_pads_with_empty_positions() {
    let mut args = args_of(element("a", JsonValue::Int(1), 3));
    args.set_value(2, "computed".to_string());
    assert_eq!(args.values, vec![None, None, Some("computed".to_string())]);
    assert_eq!(args.len(), 1);
}

#[test]
fn narrowing_integer_conversion_truncates() {
    let p = element("a", JsonValue::Int(300), 0);
    assert_eq!(<u8 as FromParameterValue<u8>>::from_parameter_value(&p).unwrap(), 44);
    let n = element("a", JsonValue::Null, 0);
    assert_eq!(<Option<i32> as FromParameterValue<Option<i32>>>::from_parameter_value(&n).unwrap(), None);
    let b = element("a", JsonValue::Bool(true), 0);
    assert!(<bool as FromParameterValue<bool>>::from_parameter_value(&b).unwrap());
    let wrong = element("a", s("x"), 7);
    let err = <bool as FromParameterValue<bool>>::from_parameter_value(&wrong).unwrap_err();
    assert_eq!(err.error_type, ErrorType::ConversionError);
    assert_eq!(err.position.offset, 7);
}

#[test]
fn injected_and_link_parameters_do_not_convert() {
    let args = CommandArguments::<String>::new(ResolvedParameterValues(vec![
        ParameterValue::Injected("payload".to_string()),
        ParameterValue::DefaultLink("l".to_string(), "-R/a".to_string()),
    ]));
    assert!(args.get::<String>(0, "payload").is_err());
    assert!(args.get::<String>(1, "l").is_err());
    assert!(args.check_injected(0, "payload").is_ok());
    assert!(args.check_injected(1, "l").is_err());
}

#[test]
fn get_name_reads_the_parameter_name() {
    let args = args_of(element("columns", s("a"), 21));
    assert_eq!(args.get_name(0).unwrap(), Some("columns".to_string()));
    assert!(args.get_name(1).is_err());
}

/// A value type for list conversions: integers only.
#[derive(Debug, PartialEq)]
struct Num(i64);

impl ValueFromJson for Num {
    fn try_from_json_value(v: &JsonValue) -> Result<Self, Error> {
        match v {
            JsonValue::Int(i) => Ok(Num(*i)),
            _ => Err(Error::conversion_error("integer expected".to_string())),
        }
    }
}

fn nums(p: &ParameterValue) -> Result<Vec<Num>, Error> {
    <Vec<Num> as FromParameterValue<Vec<Num>>>::from_parameter_value(p)
}

#[test]
fn list_argument_from_an_array_or_a_single_value() {
    let arr = JsonValue::Array(vec![JsonValue::Int(1), JsonValue::Int(2), JsonValue::Int(3)]);
    assert_eq!(nums(&element("xs", arr, 4)).unwrap(), vec![Num(1), Num(2), Num(3)]);
    assert_eq!(nums(&element("xs", JsonValue::Int(9), 4)).unwrap(), vec![Num(9)]);
    let d = ParameterValue::DefaultValue("xs".to_string(), JsonValue::Array(vec![]));
    assert!(nums(&d).unwrap().is_empty());
    let bad = JsonValue::Array(vec![JsonValue::Int(1), s("x")]);
    let err = nums(&element("xs", bad, 11)).unwrap_err();
    assert_eq!(err.error_type, ErrorType::ConversionError);
    assert_eq!(err.position.offset, 11);
}

#[test]
fn list_argument_from_a_parameter_list() {
    let p = ParameterValue::MultipleParameters(vec![
        ParameterValue::DefaultValue("xs".to_string(), JsonValue::Int(1)),
        element("xs", JsonValue::Int(2), 5),
    ]);
    assert_eq!(nums(&p).unwrap(), vec![Num(1), Num(2)]);
    let p = ParameterValue::MultipleParameters(vec![element("xs", s("no"), 8)]);
    assert_eq!(nums(&p).unwrap_err().position.offset, 8);
}

#[test]
fn list_elements_must_be_plain_values() {
    let cases = vec![
        (ParameterValue::Injected("ctx".to_string()), "Injected parameters (ctx) not allowed inside multi-parameter"),
        (ParameterValue::Nothing, "None parameter not allowed inside multi-parameter"),
        (ParameterValue::MultipleParameters(vec![]), "Nested multiple parameters not allowed"),
        (
            ParameterValue::OverrideValue("xs".to_string(), JsonValue::Int(1)),
            "Unexpected parameter type inside multi-parameter",
        ),
    ];
    for (element, message) in cases {
        let err = nums(&ParameterValue::MultipleParameters(vec![element])).unwrap_err();
        assert_eq!(err.error_type, ErrorType::UnexpectedError);
        assert_eq!(err.message, message);
    }
}

#[test]
fn list_argument_refuses_other_parameters() {
    let err = nums(&ParameterValue::Injected("ctx".to_string())).unwrap_err();
    assert_eq!(err.error_type, ErrorType::General);
    assert_eq!(err.message, "Injected parameters (ctx) not allowed");
    let err = nums(&ParameterValue::Nothing).unwrap_err();
    assert_eq!(err.message, "None parameter not allowed");
    let err = nums(&ParameterValue::DefaultLink("xs".to_string(), "-R/a".to_string())).unwrap_err();
    assert_eq!(err.error_type, ErrorType::General);
    assert_eq!(err.message, "Unexpected parameter type");
}

/// A context for injection tests: the payload text, when there is one.
struct Payload(Option<String>);

#[derive(Debug, PartialEq)]
struct Text(String);

impl InjectedFromContext<Payload> for Text {
    fn from_context(name: &str, context: Payload) -> Result<Self, Error> {
        match context.0 {
            Some(p) => Ok(Text(p)),
            None => Err(Error::general_error(format!("No payload in context for injected parameter {}", name))),
        }
    }
}

#[test]
fn injected_arguments_come_from_the_context() {
    let args = CommandArguments::<String>::new(ResolvedParameterValues(vec![
        ParameterValue::Injected("payload".to_string()),
        element("x", JsonValue::Int(1), 2),
    ]));
    let t: Text = args.get_injected(0, "payload", Payload(Some("body".to_string()))).unwrap();
    assert_eq!(t, Text("body".to_string()));
    let e = args.get_injected::<Text, Payload>(1, "x", Payload(Some("body".to_string()))).unwrap_err();
    assert_eq!(e.error_type, ErrorType::General);
    assert_eq!(e.message, "Inconsistent parameter type - value found, injected expected");
    let e = args.get_injected::<Text, Payload>(5, "y", Payload(None)).unwrap_err();
    assert_eq!(e.error_type, ErrorType::ArgumentMissing);
    assert!(args.get_injected::<Text, Payload>(0, "payload", Payload(None)).is_err());
}

type Exec = fn(&String, CommandArguments<String>, ()) -> Result<String, Error>;

fn shout(state: &String, _args: CommandArguments<String>, _context: ()) -> Result<String, Error> {
    Ok(state.to_uppercase())
}

#[test]
fn execute_runs_the_registered_executor() {
    let mut registry: CommandRegistry<Exec, Exec> = CommandRegistry::new();
    registry.register_command(CommandKey::new("", "", "shout"), shout as Exec);
    let args = CommandArguments::<String>::new(ResolvedParameterValues(vec![]));
    let out = registry.execute(&CommandKey::new("", "", "shout"), &"hi".to_string(), args, ());
    assert_eq!(out.unwrap(), "HI");
    let mut args = CommandArguments::<String>::new(ResolvedParameterValues(vec![]));
    args.action_position = Position::new(4, 1, 5);
    let e = registry
        .execute(&CommandKey::new("r", "ns", "nope"), &"hi".to_string(), args, ())
        .unwrap_err();
    assert_eq!(e.error_type, ErrorType::UnknownCommand);
    assert_eq!(e.message, "Unknown command executor r-ns-nope");
    assert_eq!(e.position.offset, 4);
}

#[test]
fn asynchronous_execution_prefers_the_asynchronous_executor() {
    let mut registry = registry_with_hello();
    assert_eq!(registry.execution_route(&CommandKey::new("", "", "hello")), ExecutionRoute::Sync);
    registry.register_async_command(CommandKey::new("", "", "hello"), hello as fn(i64) -> i64);
    assert_eq!(registry.execution_route(&CommandKey::new("", "", "hello")), ExecutionRoute::Async);
    assert_eq!(registry.execution_route(&CommandKey::new("", "", "other")), ExecutionRoute::Unknown);
}
