//! Reading command metadata from its JSON form: the shape a command declaration is written in.
//!
//! Strings are held as written; a field a declaration may omit takes its default; an argument's
//! type may be given under `argument_type` or `type`, and by several spellings; a default value
//! may be written bare, tagged as `{"Value": ...}`, or as the marker `"None"`.
use vstd::prelude::*;
use crate::error::{Error, ErrorType};
use crate::json::{
    JsonValue, JsonView, JsonMember, lookup, lookup_str, items_view, members_view, lemma_array_view,
    lemma_object_view, str_eq,
};
use crate::text::{owned, push_str};
use crate::command_metadata::{
    ArgumentGUIInfo, ArgumentInfo, ArgumentType, ActionRequest, CommandDefinition, CommandKey,
    CommandMetadata, CommandParameterValue, CommandPreset, EnumArgument, EnumArgumentAlternative,
    EnumArgumentType, ParamView, ParameterPreset,
};

verus! {

// --- fields ------------------------------------------------------------------------------------

/// Whether `key` is absent or holds a string.
pub open spec fn str_or_absent(v: JsonView, key: Seq<char>) -> bool {
    match lookup(v, key) {
        None => true,
        Some(JsonView::Str(_)) => true,
        _ => false,
    }
}

/// The string under `key`; empty when there is none.
pub open spec fn str_or_empty(v: JsonView, key: Seq<char>) -> Seq<char> {
    match lookup(v, key) {
        Some(JsonView::Str(s)) => s,
        _ => Seq::empty(),
    }
}

/// Whether `key` holds a string.
pub open spec fn has_str(v: JsonView, key: Seq<char>) -> bool {
    lookup(v, key) matches Some(JsonView::Str(_))
}

/// Whether `key` is absent or holds a boolean.
pub open spec fn bool_or_absent(v: JsonView, key: Seq<char>) -> bool {
    match lookup(v, key) {
        None => true,
        Some(JsonView::Bool(_)) => true,
        _ => false,
    }
}

/// The boolean under `key`, or `d` when there is none.
pub open spec fn bool_or(v: JsonView, key: Seq<char>, d: bool) -> bool {
    match lookup(v, key) {
        Some(JsonView::Bool(b)) => b,
        _ => d,
    }
}

fn field_error(message: String) -> (r: Error)
    ensures
        r.error_type == ErrorType::ParameterError,
{
    Error::parameter_error(message)
}

fn missing_field(key: &str) -> (r: Error)
    ensures
        r.error_type == ErrorType::ParameterError,
{
    let mut m = owned("missing field `");
    push_str(&mut m, key);
    push_str(&mut m, "`");
    field_error(m)
}

fn invalid_type(key: &str, expected: &str) -> (r: Error)
    ensures
        r.error_type == ErrorType::ParameterError,
{
    let mut m = owned("invalid type for `");
    push_str(&mut m, key);
    push_str(&mut m, "`, expected ");
    push_str(&mut m, expected);
    field_error(m)
}

/// The string a field must hold.
fn required_str(v: &JsonValue, key: &str) -> (r: Result<String, Error>)
    ensures
        r is Ok <==> has_str(v.deep(), key@),
        r matches Ok(s) ==> s@ == str_or_empty(v.deep(), key@),
        r matches Err(e) ==> e.error_type == ErrorType::ParameterError,
{
    match v.get(key) {
        Some(x) => match x.as_str() {
            Some(s) => Ok(s.clone()),
            None => Err(invalid_type(key, "a string")),
        },
        None => Err(missing_field(key)),
    }
}

/// The string a field may hold; empty when absent.
fn optional_str(v: &JsonValue, key: &str) -> (r: Result<String, Error>)
    ensures
        r is Ok <==> str_or_absent(v.deep(), key@),
        r matches Ok(s) ==> s@ == str_or_empty(v.deep(), key@),
        r matches Err(e) ==> e.error_type == ErrorType::ParameterError,
{
    match v.get(key) {
        Some(x) => match x.as_str() {
            Some(s) => Ok(s.clone()),
            None => Err(invalid_type(key, "a string")),
        },
        None => Ok(String::new()),
    }
}

/// The boolean a field may hold; `d` when absent.
fn optional_bool(v: &JsonValue, key: &str, d: bool) -> (r: Result<bool, Error>)
    ensures
        r is Ok <==> bool_or_absent(v.deep(), key@),
        r matches Ok(b) ==> b == bool_or(v.deep(), key@, d),
        r matches Err(e) ==> e.error_type == ErrorType::ParameterError,
{
    match v.get(key) {
        Some(x) => match x.as_bool() {
            Some(b) => Ok(b),
            None => Err(invalid_type(key, "a boolean")),
        },
        None => Ok(d),
    }
}

/// The single `(tag, content)` pair of an object with exactly one member.
pub open spec fn tagged(v: JsonView) -> Option<(Seq<char>, JsonView)> {
    match v {
        JsonView::Object(ms) => if ms.len() == 1 {
            Some(ms[0])
        } else {
            None
        },
        _ => None,
    }
}

fn tagged_of(v: &JsonValue) -> (r: Option<(&String, &JsonValue)>)
    ensures
        match tagged(v.deep()) {
            Some((t, c)) => r matches Some((x, y)) && x@ == t && y.deep() == c,
            None => r is None,
        },
{
    match v {
        JsonValue::Object(ms) => {
            proof {
                lemma_object_view(*ms);
            }
            if ms.len() == 1 {
                Some((&ms[0].key, &ms[0].value))
            } else {
                None
            }
        },
        _ => None,
    }
}

// --- parameter values --------------------------------------------------------------------------

/// A default value as written: the marker `"None"` is no default, `{"Value": x}` is `x`,
/// `{"Query": q}` with a string `q` is a link to the query `q`, anything else is itself.
pub open spec fn spec_read_param(v: JsonView) -> ParamView {
    match v {
        JsonView::Str(s) => if s == "None"@ {
            ParamView::Nothing
        } else {
            ParamView::Value(v)
        },
        _ => match tagged(v) {
            Some((t, c)) => if t == "Value"@ {
                ParamView::Value(c)
            } else if t == "Query"@ && c is Str {
                ParamView::Query(c->Str_0)
            } else {
                ParamView::Value(v)
            },
            None => ParamView::Value(v),
        },
    }
}

pub fn read_param(v: &JsonValue) -> (r: CommandParameterValue)
    ensures
        r.deep() == spec_read_param(v.deep()),
{
    proof {
        reveal_strlit("None");
        reveal_strlit("Value");
        reveal_strlit("Query");
    }
    match v {
        JsonValue::Str(s) => {
            if str_eq(s.as_str(), "None") {
                CommandParameterValue::Nothing
            } else {
                CommandParameterValue::Value(v.duplicate())
            }
        },
        _ => match tagged_of(v) {
            Some((t, c)) => {
                if str_eq(t.as_str(), "Value") {
                    CommandParameterValue::Value(c.duplicate())
                } else if str_eq(t.as_str(), "Query") {
                    match c.as_str() {
                        Some(q) => CommandParameterValue::Query(q.clone()),
                        None => CommandParameterValue::Value(v.duplicate()),
                    }
                } else {
                    CommandParameterValue::Value(v.duplicate())
                }
            },
            None => CommandParameterValue::Value(v.duplicate()),
        },
    }
}

// --- types -------------------------------------------------------------------------------------

/// The argument type a name spells, by its canonical name or an alias.
pub open spec fn type_for_name(s: Seq<char>) -> Option<ArgumentType> {
    if s == "string"@ || s == "str"@ || s == "text"@ {
        Some(ArgumentType::String)
    } else if s == "int"@ || s == "integer"@ {
        Some(ArgumentType::Integer)
    } else if s == "int_opt"@ {
        Some(ArgumentType::IntegerOption)
    } else if s == "float"@ || s == "number"@ {
        Some(ArgumentType::Float)
    } else if s == "float_opt"@ {
        Some(ArgumentType::FloatOption)
    } else if s == "bool"@ || s == "boolean"@ {
        Some(ArgumentType::Boolean)
    } else if s == "any"@ {
        Some(ArgumentType::Any)
    } else if s == "none"@ {
        Some(ArgumentType::Nothing)
    } else {
        None
    }
}

/// The value type of an enum a name spells.
pub open spec fn enum_type_for_name(s: Seq<char>) -> Option<EnumArgumentType> {
    if s == "string"@ {
        Some(EnumArgumentType::String)
    } else if s == "int"@ {
        Some(EnumArgumentType::Integer)
    } else if s == "int_opt"@ {
        Some(EnumArgumentType::IntegerOption)
    } else if s == "float"@ {
        Some(EnumArgumentType::Float)
    } else if s == "float_opt"@ {
        Some(EnumArgumentType::FloatOption)
    } else if s == "bool"@ {
        Some(EnumArgumentType::Boolean)
    } else if s == "any"@ {
        Some(EnumArgumentType::Any)
    } else {
        None
    }
}

fn unknown_variant(s: &str) -> (r: Error)
    ensures
        r.error_type == ErrorType::ParameterError,
{
    let mut m = owned("unknown variant `");
    push_str(&mut m, s);
    push_str(&mut m, "`");
    field_error(m)
}

fn read_type_name(s: &str) -> (r: Result<ArgumentType, Error>)
    ensures
        match type_for_name(s@) {
            Some(t) => r == Ok::<ArgumentType, Error>(t),
            None => r matches Err(e) && e.error_type == ErrorType::ParameterError,
        },
{
    proof {
        reveal_strlit("string");
        reveal_strlit("str");
        reveal_strlit("text");
        reveal_strlit("int");
        reveal_strlit("integer");
        reveal_strlit("int_opt");
        reveal_strlit("float");
        reveal_strlit("number");
        reveal_strlit("float_opt");
        reveal_strlit("bool");
        reveal_strlit("boolean");
        reveal_strlit("any");
        reveal_strlit("none");
    }
    if str_eq(s, "string") || str_eq(s, "str") || str_eq(s, "text") {
        Ok(ArgumentType::String)
    } else if str_eq(s, "int") || str_eq(s, "integer") {
        Ok(ArgumentType::Integer)
    } else if str_eq(s, "int_opt") {
        Ok(ArgumentType::IntegerOption)
    } else if str_eq(s, "float") || str_eq(s, "number") {
        Ok(ArgumentType::Float)
    } else if str_eq(s, "float_opt") {
        Ok(ArgumentType::FloatOption)
    } else if str_eq(s, "bool") || str_eq(s, "boolean") {
        Ok(ArgumentType::Boolean)
    } else if str_eq(s, "any") {
        Ok(ArgumentType::Any)
    } else if str_eq(s, "none") {
        Ok(ArgumentType::Nothing)
    } else {
        Err(unknown_variant(s))
    }
}

fn read_enum_type_name(s: &str) -> (r: Result<EnumArgumentType, Error>)
    ensures
        match enum_type_for_name(s@) {
            Some(t) => r == Ok::<EnumArgumentType, Error>(t),
            None => r matches Err(e) && e.error_type == ErrorType::ParameterError,
        },
{
    proof {
        reveal_strlit("string");
        reveal_strlit("int");
        reveal_strlit("int_opt");
        reveal_strlit("float");
        reveal_strlit("float_opt");
        reveal_strlit("bool");
        reveal_strlit("any");
    }
    if str_eq(s, "string") {
        Ok(EnumArgumentType::String)
    } else if str_eq(s, "int") {
        Ok(EnumArgumentType::Integer)
    } else if str_eq(s, "int_opt") {
        Ok(EnumArgumentType::IntegerOption)
    } else if str_eq(s, "float") {
        Ok(EnumArgumentType::Float)
    } else if str_eq(s, "float_opt") {
        Ok(EnumArgumentType::FloatOption)
    } else if str_eq(s, "bool") {
        Ok(EnumArgumentType::Boolean)
    } else if str_eq(s, "any") {
        Ok(EnumArgumentType::Any)
    } else {
        Err(unknown_variant(s))
    }
}

/// Whether an enum alternative is well formed: a string `alias` and a `value`.
pub open spec fn alternative_ok(v: JsonView) -> bool {
    has_str(v, "alias"@) && lookup(v, "value"@) is Some
}

pub open spec fn reads_alternative(v: JsonView, a: EnumArgumentAlternative) -> bool {
    a.alias@ == str_or_empty(v, "alias"@) && a.value.deep() == spec_read_param(lookup(v, "value"@)->0)
}

/// Whether an enum argument is well formed.
pub open spec fn enum_ok(v: JsonView) -> bool {
    &&& has_str(v, "name"@)
    &&& lookup(v, "values"@) matches Some(JsonView::Array(vals)) && forall|i: int|
        0 <= i < vals.len() ==> alternative_ok(#[trigger] vals[i])
    &&& lookup(v, "others_allowed"@) matches Some(JsonView::Bool(_))
    &&& lookup(v, "value_type"@) matches Some(JsonView::Str(s)) && enum_type_for_name(s) is Some
}

pub open spec fn reads_enum(v: JsonView, e: EnumArgument) -> bool {
    &&& e.name@ == str_or_empty(v, "name"@)
    &&& lookup(v, "values"@) matches Some(JsonView::Array(vals)) && e.values@.len() == vals.len()
        && forall|i: int| 0 <= i < vals.len() ==> reads_alternative(#[trigger] vals[i], e.values@[i])
    &&& e.others_allowed == bool_or(v, "others_allowed"@, false)
    &&& lookup(v, "value_type"@) matches Some(JsonView::Str(s)) && enum_type_for_name(s) == Some(e.value_type)
}

pub fn read_enum(v: &JsonValue) -> (r: Result<EnumArgument, Error>)
    ensures
        r is Ok <==> enum_ok(v.deep()),
        r matches Ok(e) ==> reads_enum(v.deep(), e),
        r matches Err(e) ==> e.error_type == ErrorType::ParameterError,
{
    proof {
        reveal_strlit("name");
        reveal_strlit("values");
        reveal_strlit("alias");
        reveal_strlit("value");
        reveal_strlit("others_allowed");
        reveal_strlit("value_type");
    }
    let name = required_str(v, "name")?;
    let vals = match v.get("values") {
        Some(x) => match x.as_array() {
            Some(a) => a,
            None => {
                return Err(invalid_type("values", "an array"));
            },
        },
        None => {
            return Err(missing_field("values"));
        },
    };
    let ghost vv = items_view(vals@);
    let mut values: Vec<EnumArgumentAlternative> = Vec::new();
    let mut i: usize = 0;
    while i < vals.len()
        invariant
            0 <= i <= vals.len(),
            vv == items_view(vals@),
            lookup(v.deep(), "values"@) == Some(JsonView::Array(vv)),
            values@.len() == i,
            forall|j: int| 0 <= j < i ==> alternative_ok(#[trigger] vv[j]),
            forall|j: int| 0 <= j < i ==> reads_alternative(#[trigger] vv[j], values@[j]),
        decreases vals.len() - i,
    {
        let item = &vals[i];
        proof {
            assert(vv[i as int] == item.deep());
        }
        let alias = match required_str(item, "alias") {
            Ok(a) => a,
            Err(e) => {
                proof {
                    assert(!alternative_ok(vv[i as int]));
                    assert(i < vv.len());
                    assert(lookup(v.deep(), "values"@) == Some(JsonView::Array(vv)));
                    if enum_ok(v.deep()) {
                        let vals = lookup(v.deep(), "values"@)->0->Array_0;
                        assert(vals == vv);
                        assert(alternative_ok(vals[i as int]));
                    }
                    assert(!enum_ok(v.deep()));
                }
                return Err(e);
            },
        };
        let value = match item.get("value") {
            Some(x) => read_param(x),
            None => {
                proof {
                    assert(!alternative_ok(vv[i as int]));
                    assert(i < vv.len());
                    assert(lookup(v.deep(), "values"@) == Some(JsonView::Array(vv)));
                    if enum_ok(v.deep()) {
                        let vals = lookup(v.deep(), "values"@)->0->Array_0;
                        assert(vals == vv);
                        assert(alternative_ok(vals[i as int]));
                    }
                    assert(!enum_ok(v.deep()));
                }
                return Err(missing_field("value"));
            },
        };
        values.push(EnumArgumentAlternative { alias, value });
        i = i + 1;
    }
    let others_allowed = match v.get("others_allowed") {
        Some(x) => match x.as_bool() {
            Some(b) => b,
            None => {
                return Err(invalid_type("others_allowed", "a boolean"));
            },
        },
        None => {
            return Err(missing_field("others_allowed"));
        },
    };
    let value_type = match v.get("value_type") {
        Some(x) => match x.as_str() {
            Some(s) => read_enum_type_name(s.as_str())?,
            None => {
                return Err(invalid_type("value_type", "a string"));
            },
        },
        None => {
            return Err(missing_field("value_type"));
        },
    };
    Ok(EnumArgument { name, values, others_allowed, value_type })
}

/// Whether an argument type is well formed: a type name, `{"Enum": ...}` or
/// `{"GlobalEnum": "name"}`.
pub open spec fn type_ok(v: JsonView) -> bool {
    match v {
        JsonView::Str(s) => type_for_name(s) is Some,
        _ => match tagged(v) {
            Some((t, c)) => (t == "Enum"@ && enum_ok(c)) || (t == "GlobalEnum"@ && c is Str),
            None => false,
        },
    }
}

pub open spec fn reads_type(v: JsonView, t: ArgumentType) -> bool {
    match v {
        JsonView::Str(s) => type_for_name(s) == Some(t),
        _ => match tagged(v) {
            Some((tag, c)) => if tag == "Enum"@ {
                t matches ArgumentType::Enum(e) && reads_enum(c, e)
            } else {
                t matches ArgumentType::GlobalEnum(n) && c == JsonView::Str(n@)
            },
            None => false,
        },
    }
}

pub fn read_type(v: &JsonValue) -> (r: Result<ArgumentType, Error>)
    ensures
        r is Ok <==> type_ok(v.deep()),
        r matches Ok(t) ==> reads_type(v.deep(), t),
        r matches Err(e) ==> e.error_type == ErrorType::ParameterError,
{
    proof {
        reveal_strlit("Enum");
        reveal_strlit("GlobalEnum");
    }
    match v {
        JsonValue::Str(s) => read_type_name(s.as_str()),
        _ => match tagged_of(v) {
            Some((t, c)) => {
                if str_eq(t.as_str(), "Enum") {
                    proof {
                        assert(t@ != "GlobalEnum"@) by {
                            assert(t@.len() != "GlobalEnum"@.len());
                        }
                    }
                    let e = read_enum(c)?;
                    Ok(ArgumentType::Enum(e))
                } else if str_eq(t.as_str(), "GlobalEnum") {
                    match c.as_str() {
                        Some(n) => Ok(ArgumentType::GlobalEnum(n.clone())),
                        None => Err(invalid_type("GlobalEnum", "a string")),
                    }
                } else {
                    Err(unknown_variant(t.as_str()))
                }
            },
            None => Err(field_error(owned("an argument type must be a name or a single-key object"))),
        },
    }
}

// --- widgets -----------------------------------------------------------------------------------

/// The widget a name spells.
pub open spec fn gui_for_name(s: Seq<char>) -> Option<ArgumentGUIInfo> {
    if s == "IntegerField"@ {
        Some(ArgumentGUIInfo::IntegerField)
    } else if s == "FloatField"@ {
        Some(ArgumentGUIInfo::FloatField)
    } else if s == "Checkbox"@ {
        Some(ArgumentGUIInfo::Checkbox)
    } else if s == "HorizontalRadioEnum"@ {
        Some(ArgumentGUIInfo::HorizontalRadioEnum)
    } else if s == "VerticalRadioEnum"@ {
        Some(ArgumentGUIInfo::VerticalRadioEnum)
    } else if s == "EnumSelector"@ {
        Some(ArgumentGUIInfo::EnumSelector)
    } else if s == "ColorString"@ {
        Some(ArgumentGUIInfo::ColorString)
    } else if s == "Hide"@ {
        Some(ArgumentGUIInfo::Hide)
    } else if s == "None"@ {
        Some(ArgumentGUIInfo::Nothing)
    } else {
        None
    }
}

/// Whether a value is a size: a non-negative integer that fits a `usize`, held as an `i64`
/// or, beyond that, by its digits.
pub open spec fn is_size(v: JsonView) -> bool {
    match v {
        JsonView::Int(i) => 0 <= i <= usize::MAX,
        JsonView::Number(t) => crate::text::all_digits(t) && crate::text::digits_value(t) <= usize::MAX,
        _ => false,
    }
}

/// The size a value holds.
pub open spec fn size_of(v: JsonView) -> int {
    match v {
        JsonView::Int(i) => i,
        JsonView::Number(t) => crate::text::digits_value(t) as int,
        _ => 0,
    }
}

pub open spec fn is_number(v: JsonView) -> bool {
    v is Int || v is Number
}

pub open spec fn int_field(v: JsonView, key: Seq<char>) -> bool {
    lookup(v, key) matches Some(JsonView::Int(_))
}

pub open spec fn int_of(v: JsonView, key: Seq<char>) -> int {
    match lookup(v, key) {
        Some(JsonView::Int(i)) => i,
        _ => 0,
    }
}

pub open spec fn number_field(v: JsonView, key: Seq<char>) -> bool {
    lookup(v, key) matches Some(x) && is_number(x)
}

/// Whether a widget is well formed: a unit widget's name, or a one-key object naming a widget
/// with its parameters.
pub open spec fn gui_ok(v: JsonView) -> bool {
    match v {
        JsonView::Str(s) => gui_for_name(s) is Some,
        _ => match tagged(v) {
            Some((t, c)) => {
                ||| t == "TextField"@ && is_size(c)
                ||| t == "TextArea"@ && (c matches JsonView::Array(a) && a.len() == 2 && is_size(a[0])
                    && is_size(a[1]))
                ||| t == "IntegerRange"@ && int_field(c, "min"@) && int_field(c, "max"@)
                ||| t == "IntegerSlider"@ && int_field(c, "min"@) && int_field(c, "max"@) && int_field(
                    c,
                    "step"@,
                )
                ||| t == "FloatSlider"@ && number_field(c, "min"@) && number_field(c, "max"@)
                    && number_field(c, "step"@)
                ||| t == "RadioBoolean"@ && has_str(c, "true_label"@) && has_str(c, "false_label"@)
            },
            None => false,
        },
    }
}

pub open spec fn reads_gui(v: JsonView, g: ArgumentGUIInfo) -> bool {
    match v {
        JsonView::Str(s) => gui_for_name(s) == Some(g),
        _ => match tagged(v) {
            Some((t, c)) => if t == "TextField"@ {
                g matches ArgumentGUIInfo::TextField(n) && n == size_of(c)
            } else if t == "TextArea"@ {
                g matches ArgumentGUIInfo::TextArea(w, h) && c matches JsonView::Array(a) && w == size_of(a[0])
                    && h == size_of(a[1])
            } else if t == "IntegerRange"@ {
                g matches ArgumentGUIInfo::IntegerRange { min, max } && min == int_of(c, "min"@) && max
                    == int_of(c, "max"@)
            } else if t == "IntegerSlider"@ {
                g matches ArgumentGUIInfo::IntegerSlider { min, max, step } && min == int_of(c, "min"@)
                    && max == int_of(c, "max"@) && step == int_of(c, "step"@)
            } else if t == "FloatSlider"@ {
                g matches ArgumentGUIInfo::FloatSlider { min, max, step } && Some(min.deep()) == lookup(
                    c,
                    "min"@,
                ) && Some(max.deep()) == lookup(c, "max"@) && Some(step.deep()) == lookup(c, "step"@)
            } else {
                g matches ArgumentGUIInfo::RadioBoolean { true_label, false_label } && true_label@
                    == str_or_empty(c, "true_label"@) && false_label@ == str_or_empty(c, "false_label"@)
            },
            None => false,
        },
    }
}

fn read_size(v: &JsonValue) -> (r: Option<usize>)
    ensures
        r is Some <==> is_size(v.deep()),
        r matches Some(n) ==> n == size_of(v.deep()),
{
    match v {
        JsonValue::Int(i) => {
            if *i >= 0 && (*i as u64) <= (usize::MAX as u64) {
                Some(*i as usize)
            } else {
                None
            }
        },
        JsonValue::Number(t) => crate::text::parse_size(t.as_str()),
        _ => None,
    }
}

fn int_member(v: &JsonValue, key: &str) -> (r: Result<i64, Error>)
    ensures
        r is Ok <==> int_field(v.deep(), key@),
        r matches Ok(i) ==> i == int_of(v.deep(), key@),
        r matches Err(e) ==> e.error_type == ErrorType::ParameterError,
{
    match v.get(key) {
        Some(JsonValue::Int(i)) => Ok(*i),
        Some(_) => Err(invalid_type(key, "an integer")),
        None => Err(missing_field(key)),
    }
}

fn number_member(v: &JsonValue, key: &str) -> (r: Result<JsonValue, Error>)
    ensures
        r is Ok <==> number_field(v.deep(), key@),
        r matches Ok(x) ==> Some(x.deep()) == lookup(v.deep(), key@),
        r matches Err(e) ==> e.error_type == ErrorType::ParameterError,
{
    match v.get(key) {
        Some(x) => match x {
            JsonValue::Int(_) | JsonValue::Number(_) => Ok(x.duplicate()),
            _ => Err(invalid_type(key, "a number")),
        },
        None => Err(missing_field(key)),
    }
}

pub fn read_gui(v: &JsonValue) -> (r: Result<ArgumentGUIInfo, Error>)
    ensures
        r is Ok <==> gui_ok(v.deep()),
        r matches Ok(g) ==> reads_gui(v.deep(), g),
        r matches Err(e) ==> e.error_type == ErrorType::ParameterError,
{
    proof {
        reveal_strlit("IntegerField");
        reveal_strlit("FloatField");
        reveal_strlit("Checkbox");
        reveal_strlit("HorizontalRadioEnum");
        reveal_strlit("VerticalRadioEnum");
        reveal_strlit("EnumSelector");
        reveal_strlit("ColorString");
        reveal_strlit("Hide");
        reveal_strlit("None");
        reveal_strlit("TextField");
        reveal_strlit("TextArea");
        reveal_strlit("IntegerRange");
        reveal_strlit("IntegerSlider");
        reveal_strlit("FloatSlider");
        reveal_strlit("RadioBoolean");
        reveal_strlit("min");
        reveal_strlit("max");
        reveal_strlit("step");
        reveal_strlit("true_label");
        reveal_strlit("false_label");
    }
    match v {
        JsonValue::Str(s) => {
            let s = s.as_str();
            if str_eq(s, "IntegerField") {
                Ok(ArgumentGUIInfo::IntegerField)
            } else if str_eq(s, "FloatField") {
                Ok(ArgumentGUIInfo::FloatField)
            } else if str_eq(s, "Checkbox") {
                Ok(ArgumentGUIInfo::Checkbox)
            } else if str_eq(s, "HorizontalRadioEnum") {
                Ok(ArgumentGUIInfo::HorizontalRadioEnum)
            } else if str_eq(s, "VerticalRadioEnum") {
                Ok(ArgumentGUIInfo::VerticalRadioEnum)
            } else if str_eq(s, "EnumSelector") {
                Ok(ArgumentGUIInfo::EnumSelector)
            } else if str_eq(s, "ColorString") {
                Ok(ArgumentGUIInfo::ColorString)
            } else if str_eq(s, "Hide") {
                Ok(ArgumentGUIInfo::Hide)
            } else if str_eq(s, "None") {
                Ok(ArgumentGUIInfo::Nothing)
            } else {
                Err(unknown_variant(s))
            }
        },
        _ => match tagged_of(v) {
            Some((t, c)) => {
                let t = t.as_str();
                proof {
                    let names = seq!["TextField"@, "TextArea"@, "IntegerRange"@, "IntegerSlider"@, "FloatSlider"@, "RadioBoolean"@];
                    assert forall|a: int, b: int| 0 <= a < 6 && 0 <= b < 6 && a != b implies names[a] != names[b] by {
                        assert(names[a].len() != names[b].len() || names[a][0] != names[b][0]);
                    }
                    assert(names[2] != names[3] && names[2] != names[5] && names[3] != names[4] && names[4] != names[3]);
                }
                if str_eq(t, "TextField") {
                    match read_size(c) {
                        Some(n) => Ok(ArgumentGUIInfo::TextField(n)),
                        None => Err(invalid_type("TextField", "a size")),
                    }
                } else if str_eq(t, "TextArea") {
                    match c.as_array() {
                        Some(a) => {
                            proof {
                                lemma_array_view(*a);
                            }
                            if a.len() == 2 {
                                match (read_size(&a[0]), read_size(&a[1])) {
                                    (Some(w), Some(h)) => Ok(ArgumentGUIInfo::TextArea(w, h)),
                                    _ => Err(invalid_type("TextArea", "two sizes")),
                                }
                            } else {
                                Err(invalid_type("TextArea", "two sizes"))
                            }
                        },
                        None => Err(invalid_type("TextArea", "two sizes")),
                    }
                } else if str_eq(t, "IntegerRange") {
                    let min = int_member(c, "min")?;
                    let max = int_member(c, "max")?;
                    Ok(ArgumentGUIInfo::IntegerRange { min, max })
                } else if str_eq(t, "IntegerSlider") {
                    let min = int_member(c, "min")?;
                    let max = int_member(c, "max")?;
                    let step = int_member(c, "step")?;
                    Ok(ArgumentGUIInfo::IntegerSlider { min, max, step })
                } else if str_eq(t, "FloatSlider") {
                    let min = number_member(c, "min")?;
                    let max = number_member(c, "max")?;
                    let step = number_member(c, "step")?;
                    Ok(ArgumentGUIInfo::FloatSlider { min, max, step })
                } else if str_eq(t, "RadioBoolean") {
                    let true_label = required_str(c, "true_label")?;
                    let false_label = required_str(c, "false_label")?;
                    Ok(ArgumentGUIInfo::RadioBoolean { true_label, false_label })
                } else {
                    Err(unknown_variant(t))
                }
            },
            None => Err(field_error(owned("a widget must be a name or a single-key object"))),
        },
    }
}


// --- arguments ---------------------------------------------------------------------------------

/// Whether a parameter preset is well formed: string `name` and `description`, and a `value`.
pub open spec fn preset_ok(v: JsonView) -> bool {
    has_str(v, "name"@) && lookup(v, "value"@) is Some && has_str(v, "description"@)
}

pub open spec fn reads_preset(v: JsonView, p: ParameterPreset) -> bool {
    p.name@ == str_or_empty(v, "name"@) && p.value.deep() == spec_read_param(lookup(v, "value"@)->0)
        && p.description@ == str_or_empty(v, "description"@)
}

fn read_preset(v: &JsonValue) -> (r: Result<ParameterPreset, Error>)
    ensures
        r is Ok <==> preset_ok(v.deep()),
        r matches Ok(p) ==> reads_preset(v.deep(), p),
        r matches Err(e) ==> e.error_type == ErrorType::ParameterError,
{
    proof {
        reveal_strlit("name");
        reveal_strlit("value");
        reveal_strlit("description");
    }
    let name = required_str(v, "name")?;
    let value = match v.get("value") {
        Some(x) => read_param(x),
        None => {
            return Err(missing_field("value"));
        },
    };
    let description = required_str(v, "description")?;
    Ok(ParameterPreset { name, value, description })
}

/// Where an argument's type is written: under `argument_type` or `type`, not both.
pub open spec fn type_entry(v: JsonView) -> Option<Option<JsonView>> {
    match (lookup(v, "argument_type"@), lookup(v, "type"@)) {
        (Some(_), Some(_)) => None,
        (Some(t), None) => Some(Some(t)),
        (None, Some(t)) => Some(Some(t)),
        (None, None) => Some(None),
    }
}

/// Whether an argument is well formed.
pub open spec fn argument_ok(v: JsonView) -> bool {
    &&& v is Object
    &&& has_str(v, "name"@)
    &&& str_or_absent(v, "label"@)
    &&& match type_entry(v) {
        Some(Some(t)) => type_ok(t),
        Some(None) => true,
        None => false,
    }
    &&& bool_or_absent(v, "multiple"@)
    &&& bool_or_absent(v, "injected"@)
    &&& match lookup(v, "gui_info"@) {
        Some(g) => gui_ok(g),
        None => true,
    }
    &&& match lookup(v, "hints"@) {
        Some(h) => h is Object,
        None => true,
    }
    &&& match lookup(v, "presets"@) {
        Some(JsonView::Array(ps)) => forall|i: int| 0 <= i < ps.len() ==> preset_ok(#[trigger] ps[i]),
        Some(_) => false,
        None => true,
    }
}

pub open spec fn reads_argument(v: JsonView, a: ArgumentInfo) -> bool {
    &&& a.name@ == str_or_empty(v, "name"@)
    &&& a.label@ == str_or_empty(v, "label"@)
    &&& a.default.deep() == match lookup(v, "default"@) {
        Some(d) => spec_read_param(d),
        None => ParamView::Nothing,
    }
    &&& match type_entry(v) {
        Some(Some(t)) => reads_type(t, a.argument_type),
        _ => a.argument_type == ArgumentType::Any,
    }
    &&& a.multiple == bool_or(v, "multiple"@, false)
    &&& a.injected == bool_or(v, "injected"@, false)
    &&& match lookup(v, "gui_info"@) {
        Some(g) => reads_gui(g, a.gui_info),
        None => a.gui_info == ArgumentGUIInfo::Nothing,
    }
    &&& members_view(a.hints@) == match lookup(v, "hints"@) {
        Some(JsonView::Object(ms)) => ms,
        _ => Seq::empty(),
    }
    &&& match lookup(v, "presets"@) {
        Some(JsonView::Array(ps)) => a.presets@.len() == ps.len() && forall|i: int|
            0 <= i < ps.len() ==> reads_preset(#[trigger] ps[i], a.presets@[i]),
        _ => a.presets@.len() == 0,
    }
}

fn hint_members(h: &JsonValue) -> (r: Option<Vec<JsonMember>>)
    ensures
        match h.deep() {
            JsonView::Object(ms) => r matches Some(x) && members_view(x@) == ms,
            _ => r is None,
        },
{
    match h {
        JsonValue::Object(ms) => {
            proof {
                lemma_object_view(*ms);
            }
            let mut out: Vec<JsonMember> = Vec::new();
            let mut i: usize = 0;
            while i < ms.len()
                invariant
                    0 <= i <= ms.len(),
                    out@.len() == i,
                    forall|j: int| 0 <= j < i ==> (#[trigger] out@[j]).deep() == ms@[j].deep(),
                decreases ms.len() - i,
            {
                out.push(JsonMember { key: ms[i].key.clone(), value: ms[i].value.duplicate() });
                i = i + 1;
            }
            proof {
                assert(members_view(out@) =~= members_view(ms@));
            }
            Some(out)
        },
        _ => None,
    }
}

pub fn read_argument(v: &JsonValue) -> (r: Result<ArgumentInfo, Error>)
    ensures
        r is Ok <==> argument_ok(v.deep()),
        r matches Ok(a) ==> reads_argument(v.deep(), a),
        r matches Err(e) ==> e.error_type == ErrorType::ParameterError,
{
    proof {
        reveal_strlit("name");
        reveal_strlit("label");
        reveal_strlit("default");
        reveal_strlit("argument_type");
        reveal_strlit("type");
        reveal_strlit("multiple");
        reveal_strlit("injected");
        reveal_strlit("gui_info");
        reveal_strlit("hints");
        reveal_strlit("presets");
    }
    if !v.is_object() {
        return Err(field_error(owned("an argument must be an object")));
    }
    let name = required_str(v, "name")?;
    let label = optional_str(v, "label")?;
    let default = match v.get("default") {
        Some(d) => read_param(d),
        None => CommandParameterValue::Nothing,
    };
    let argument_type = match (v.get("argument_type"), v.get("type")) {
        (Some(_), Some(_)) => {
            return Err(field_error(owned("duplicate field `argument_type`")));
        },
        (Some(t), None) => read_type(t)?,
        (None, Some(t)) => read_type(t)?,
        (None, None) => ArgumentType::Any,
    };
    let multiple = optional_bool(v, "multiple", false)?;
    let injected = optional_bool(v, "injected", false)?;
    let gui_info = match v.get("gui_info") {
        Some(g) => read_gui(g)?,
        None => ArgumentGUIInfo::Nothing,
    };
    let hints = match v.get("hints") {
        Some(h) => match hint_members(h) {
            Some(ms) => ms,
            None => {
                return Err(invalid_type("hints", "a map"));
            },
        },
        None => Vec::new(),
    };
    proof {
        assert(members_view(Seq::<JsonMember>::empty()) =~= Seq::empty());
    }
    let presets = match v.get("presets") {
        Some(x) => match x.as_array() {
            Some(ps) => {
                let ghost pv = items_view(ps@);
                let mut out: Vec<ParameterPreset> = Vec::new();
                let mut i: usize = 0;
                while i < ps.len()
                    invariant
                        0 <= i <= ps.len(),
                        pv == items_view(ps@),
                        lookup(v.deep(), "presets"@) == Some(JsonView::Array(pv)),
                        out@.len() == i,
                        forall|j: int| 0 <= j < i ==> preset_ok(#[trigger] pv[j]),
                        forall|j: int| 0 <= j < i ==> reads_preset(#[trigger] pv[j], out@[j]),
                    decreases ps.len() - i,
                {
                    proof {
                        assert(pv[i as int] == ps@[i as int].deep());
                    }
                    match read_preset(&ps[i]) {
                        Ok(p) => {
                            out.push(p);
                        },
                        Err(e) => {
                            proof {
                                if argument_ok(v.deep()) {
                                    let all = lookup(v.deep(), "presets"@)->0->Array_0;
                                    assert(all == pv);
                                    assert(preset_ok(all[i as int]));
                                }
                            }
                            return Err(e);
                        },
                    }
                    i = i + 1;
                }
                out
            },
            None => {
                return Err(invalid_type("presets", "an array"));
            },
        },
        None => Vec::new(),
    };
    Ok(
        ArgumentInfo {
            name,
            label,
            default,
            argument_type,
            multiple,
            injected,
            gui_info,
            hints,
            presets,
        },
    )
}

/// Whether every entry of `items` is a well-formed argument.
pub open spec fn arguments_ok(items: Seq<JsonView>) -> bool {
    forall|i: int| 0 <= i < items.len() ==> argument_ok(#[trigger] items[i])
}

pub open spec fn reads_arguments(items: Seq<JsonView>, args: Seq<ArgumentInfo>) -> bool {
    args.len() == items.len() && forall|i: int| 0 <= i < items.len() ==> reads_argument(#[trigger] items[i], args[i])
}

fn read_arguments(items: &Vec<JsonValue>) -> (r: Result<Vec<ArgumentInfo>, Error>)
    ensures
        r is Ok <==> arguments_ok(items_view(items@)),
        r matches Ok(args) ==> reads_arguments(items_view(items@), args@),
        r matches Err(e) ==> e.error_type == ErrorType::ParameterError,
{
    let ghost iv = items_view(items@);
    let mut out: Vec<ArgumentInfo> = Vec::new();
    let mut i: usize = 0;
    while i < items.len()
        invariant
            0 <= i <= items.len(),
            iv == items_view(items@),
            out@.len() == i,
            forall|j: int| 0 <= j < i ==> argument_ok(#[trigger] iv[j]),
            forall|j: int| 0 <= j < i ==> reads_argument(#[trigger] iv[j], out@[j]),
        decreases items.len() - i,
    {
        proof {
            assert(iv[i as int] == items@[i as int].deep());
        }
        match read_argument(&items[i]) {
            Ok(a) => {
                out.push(a);
            },
            Err(e) => {
                proof {
                    assert(!argument_ok(iv[i as int]));
                }
                return Err(e);
            },
        }
        i = i + 1;
    }
    Ok(out)
}

// --- commands ----------------------------------------------------------------------------------

/// Whether an action preset is well formed: an `action` object with a string `name` and
/// string `parameters`, and string `label` and `description`.
pub open spec fn action_preset_ok(v: JsonView) -> bool {
    &&& lookup(v, "action"@) matches Some(a) && has_str(a, "name"@) && match lookup(a, "parameters"@) {
        Some(JsonView::Array(ps)) => forall|i: int| 0 <= i < ps.len() ==> (#[trigger] ps[i]) is Str,
        Some(_) => false,
        None => true,
    }
    &&& has_str(v, "label"@)
    &&& has_str(v, "description"@)
}

pub open spec fn reads_action_preset(v: JsonView, p: CommandPreset) -> bool {
    let a = lookup(v, "action"@)->0;
    &&& p.action.name@ == str_or_empty(a, "name"@)
    &&& match lookup(a, "parameters"@) {
        Some(JsonView::Array(ps)) => p.action.parameters@.len() == ps.len() && forall|i: int|
            0 <= i < ps.len() ==> #[trigger] ps[i] == JsonView::Str(p.action.parameters@[i]@),
        _ => p.action.parameters@.len() == 0,
    }
    &&& p.label@ == str_or_empty(v, "label"@)
    &&& p.description@ == str_or_empty(v, "description"@)
}

fn read_action_preset(v: &JsonValue) -> (r: Result<CommandPreset, Error>)
    ensures
        r is Ok <==> action_preset_ok(v.deep()),
        r matches Ok(p) ==> reads_action_preset(v.deep(), p),
        r matches Err(e) ==> e.error_type == ErrorType::ParameterError,
{
    proof {
        reveal_strlit("action");
        reveal_strlit("name");
        reveal_strlit("parameters");
        reveal_strlit("label");
        reveal_strlit("description");
    }
    let a = match v.get("action") {
        Some(a) => a,
        None => {
            return Err(missing_field("action"));
        },
    };
    let name = required_str(a, "name")?;
    let parameters = match a.get("parameters") {
        Some(x) => match x.as_array() {
            Some(ps) => {
                let ghost pv = items_view(ps@);
                let mut out: Vec<String> = Vec::new();
                let mut i: usize = 0;
                while i < ps.len()
                    invariant
                        0 <= i <= ps.len(),
                        pv == items_view(ps@),
                        lookup(a.deep(), "parameters"@) == Some(JsonView::Array(pv)),
                        lookup(v.deep(), "action"@) == Some(a.deep()),
                        out@.len() == i,
                        forall|j: int| 0 <= j < i ==> #[trigger] pv[j] == JsonView::Str(out@[j]@),
                    decreases ps.len() - i,
                {
                    proof {
                        assert(pv[i as int] == ps@[i as int].deep());
                    }
                    match ps[i].as_str() {
                        Some(s) => {
                            out.push(s.clone());
                        },
                        None => {
                            proof {
                                if action_preset_ok(v.deep()) {
                                    let all = lookup(a.deep(), "parameters"@)->0->Array_0;
                                    assert(all == pv);
                                    assert(all[i as int] is Str);
                                }
                            }
                            return Err(invalid_type("parameters", "strings"));
                        },
                    }
                    i = i + 1;
                }
                out
            },
            None => {
                return Err(invalid_type("parameters", "an array"));
            },
        },
        None => Vec::new(),
    };
    let label = required_str(v, "label")?;
    let description = required_str(v, "description")?;
    Ok(CommandPreset { action: ActionRequest { name, parameters }, label, description })
}

pub open spec fn action_presets_ok(v: JsonView, key: Seq<char>) -> bool {
    match lookup(v, key) {
        Some(JsonView::Array(ps)) => forall|i: int| 0 <= i < ps.len() ==> action_preset_ok(#[trigger] ps[i]),
        Some(_) => false,
        None => true,
    }
}

pub open spec fn reads_action_presets(v: JsonView, key: Seq<char>, out: Seq<CommandPreset>) -> bool {
    match lookup(v, key) {
        Some(JsonView::Array(ps)) => out.len() == ps.len() && forall|i: int|
            0 <= i < ps.len() ==> reads_action_preset(#[trigger] ps[i], out[i]),
        _ => out.len() == 0,
    }
}

fn read_action_presets(v: &JsonValue, key: &str) -> (r: Result<Vec<CommandPreset>, Error>)
    ensures
        r is Ok <==> action_presets_ok(v.deep(), key@),
        r matches Ok(out) ==> reads_action_presets(v.deep(), key@, out@),
        r matches Err(e) ==> e.error_type == ErrorType::ParameterError,
{
    match v.get(key) {
        Some(x) => match x.as_array() {
            Some(ps) => {
                let ghost pv = items_view(ps@);
                let mut out: Vec<CommandPreset> = Vec::new();
                let mut i: usize = 0;
                while i < ps.len()
                    invariant
                        0 <= i <= ps.len(),
                        pv == items_view(ps@),
                        lookup(v.deep(), key@) == Some(JsonView::Array(pv)),
                        out@.len() == i,
                        forall|j: int| 0 <= j < i ==> action_preset_ok(#[trigger] pv[j]),
                        forall|j: int| 0 <= j < i ==> reads_action_preset(#[trigger] pv[j], out@[j]),
                    decreases ps.len() - i,
                {
                    proof {
                        assert(pv[i as int] == ps@[i as int].deep());
                    }
                    match read_action_preset(&ps[i]) {
                        Ok(p) => {
                            out.push(p);
                        },
                        Err(e) => {
                            proof {
                                if action_presets_ok(v.deep(), key@) {
                                    let all = lookup(v.deep(), key@)->0->Array_0;
                                    assert(all == pv);
                                    assert(action_preset_ok(all[i as int]));
                                }
                            }
                            return Err(e);
                        },
                    }
                    i = i + 1;
                }
                Ok(out)
            },
            None => Err(invalid_type(key, "an array")),
        },
        None => Ok(Vec::new()),
    }
}

/// Whether a command definition is well formed: `"Registered"`, or an alias of a command key
/// with head parameters.
pub open spec fn definition_ok(v: JsonView) -> bool {
    match v {
        JsonView::Str(s) => s == "Registered"@,
        _ => match tagged(v) {
            Some((t, c)) => t == "Alias"@ && (lookup(c, "command"@) matches Some(k) && has_str(k, "realm"@)
                && has_str(k, "namespace"@) && has_str(k, "name"@)) && (lookup(c, "head_parameters"@) matches Some(
                JsonView::Array(_),
            )),
            None => false,
        },
    }
}

pub open spec fn reads_definition(v: JsonView, d: CommandDefinition) -> bool {
    match v {
        JsonView::Str(_) => d == CommandDefinition::Registered,
        _ => {
            let c = (tagged(v)->0).1;
            let k = lookup(c, "command"@)->0;
            let hp = lookup(c, "head_parameters"@)->0->Array_0;
            d matches CommandDefinition::Alias { command, head_parameters } && command.realm@ == str_or_empty(
                k,
                "realm"@,
            ) && command.namespace@ == str_or_empty(k, "namespace"@) && command.name@ == str_or_empty(
                k,
                "name"@,
            ) && head_parameters@.len() == hp.len() && forall|i: int|
                0 <= i < hp.len() ==> (#[trigger] head_parameters@[i]).deep() == spec_read_param(hp[i])
        },
    }
}

fn read_definition(v: &JsonValue) -> (r: Result<CommandDefinition, Error>)
    ensures
        r is Ok <==> definition_ok(v.deep()),
        r matches Ok(d) ==> reads_definition(v.deep(), d),
        r matches Err(e) ==> e.error_type == ErrorType::ParameterError,
{
    proof {
        reveal_strlit("Registered");
        reveal_strlit("Alias");
        reveal_strlit("command");
        reveal_strlit("realm");
        reveal_strlit("namespace");
        reveal_strlit("name");
        reveal_strlit("head_parameters");
    }
    match v {
        JsonValue::Str(s) => {
            if str_eq(s.as_str(), "Registered") {
                Ok(CommandDefinition::Registered)
            } else {
                Err(unknown_variant(s.as_str()))
            }
        },
        _ => match tagged_of(v) {
            Some((t, c)) => {
                if !str_eq(t.as_str(), "Alias") {
                    return Err(unknown_variant(t.as_str()));
                }
                let k = match c.get("command") {
                    Some(k) => k,
                    None => {
                        return Err(missing_field("command"));
                    },
                };
                let realm = required_str(k, "realm")?;
                let namespace = required_str(k, "namespace")?;
                let name = required_str(k, "name")?;
                let hp = match c.get("head_parameters") {
                    Some(x) => match x.as_array() {
                        Some(a) => a,
                        None => {
                            return Err(invalid_type("head_parameters", "an array"));
                        },
                    },
                    None => {
                        return Err(missing_field("head_parameters"));
                    },
                };
                let mut head_parameters: Vec<CommandParameterValue> = Vec::new();
                let mut i: usize = 0;
                while i < hp.len()
                    invariant
                        0 <= i <= hp.len(),
                        head_parameters@.len() == i,
                        forall|j: int| 0 <= j < i ==> (#[trigger] head_parameters@[j]).deep() == spec_read_param(hp@[j].deep()),
                    decreases hp.len() - i,
                {
                    head_parameters.push(read_param(&hp[i]));
                    i = i + 1;
                }
                Ok(
                    CommandDefinition::Alias {
                        command: CommandKey { realm, namespace, name },
                        head_parameters,
                    },
                )
            },
            None => Err(field_error(owned("a definition must be `Registered` or an alias"))),
        },
    }
}

/// Whether a document reads as command metadata.
pub open spec fn metadata_ok(v: JsonView) -> bool {
    &&& v is Object
    &&& has_str(v, "name"@)
    &&& str_or_absent(v, "label"@)
    &&& str_or_absent(v, "realm"@)
    &&& str_or_absent(v, "namespace"@)
    &&& str_or_absent(v, "module"@)
    &&& str_or_absent(v, "doc"@)
    &&& str_or_absent(v, "filename"@)
    &&& action_presets_ok(v, "presets"@)
    &&& action_presets_ok(v, "next"@)
    &&& match lookup(v, "state_argument"@) {
        Some(JsonView::Null) => true,
        Some(a) => argument_ok(a),
        None => true,
    }
    &&& match lookup(v, "arguments"@) {
        Some(JsonView::Array(items)) => arguments_ok(items),
        Some(_) => false,
        None => true,
    }
    &&& bool_or_absent(v, "cache"@)
    &&& bool_or_absent(v, "volatile"@)
    &&& match lookup(v, "definition"@) {
        Some(d) => definition_ok(d),
        None => true,
    }
}

/// What the metadata read from a document holds.
pub open spec fn reads_metadata(v: JsonView, m: CommandMetadata) -> bool {
    &&& m.realm@ == str_or_empty(v, "realm"@)
    &&& m.namespace@ == str_or_empty(v, "namespace"@)
    &&& m.name@ == str_or_empty(v, "name"@)
    &&& m.label@ == str_or_empty(v, "label"@)
    &&& m.module@ == str_or_empty(v, "module"@)
    &&& m.doc@ == str_or_empty(v, "doc"@)
    &&& m.filename@ == str_or_empty(v, "filename"@)
    &&& reads_action_presets(v, "presets"@, m.presets@)
    &&& reads_action_presets(v, "next"@, m.next@)
    &&& match lookup(v, "state_argument"@) {
        Some(JsonView::Null) => m.state_argument is None,
        Some(a) => m.state_argument matches Some(s) && reads_argument(a, s),
        None => m.state_argument is None,
    }
    &&& match lookup(v, "arguments"@) {
        Some(JsonView::Array(items)) => reads_arguments(items, m.arguments@),
        _ => m.arguments@.len() == 0,
    }
    &&& m.cache == bool_or(v, "cache"@, true)
    &&& m.volatile == bool_or(v, "volatile"@, false)
    &&& match lookup(v, "definition"@) {
        Some(d) => reads_definition(d, m.definition),
        None => m.definition == CommandDefinition::Registered,
    }
}

/// Reads command metadata from a document: a command is cached unless it says otherwise, is
/// not volatile, and is registered; its other fields default to empty.
pub fn read_metadata(v: &JsonValue) -> (r: Result<CommandMetadata, Error>)
    ensures
        r is Ok <==> metadata_ok(v.deep()),
        r matches Ok(m) ==> reads_metadata(v.deep(), m),
        r matches Err(e) ==> e.error_type == ErrorType::ParameterError,
{
    proof {
        reveal_strlit("name");
        reveal_strlit("label");
        reveal_strlit("realm");
        reveal_strlit("namespace");
        reveal_strlit("module");
        reveal_strlit("doc");
        reveal_strlit("filename");
        reveal_strlit("presets");
        reveal_strlit("next");
        reveal_strlit("state_argument");
        reveal_strlit("arguments");
        reveal_strlit("cache");
        reveal_strlit("volatile");
        reveal_strlit("definition");
    }
    if !v.is_object() {
        return Err(field_error(owned("command metadata must be an object")));
    }
    let name = required_str(v, "name")?;
    let label = optional_str(v, "label")?;
    let realm = optional_str(v, "realm")?;
    let namespace = optional_str(v, "namespace")?;
    let module = optional_str(v, "module")?;
    let doc = optional_str(v, "doc")?;
    let filename = optional_str(v, "filename")?;
    let presets = read_action_presets(v, "presets")?;
    let next = read_action_presets(v, "next")?;
    let state_argument = match v.get("state_argument") {
        Some(a) => {
            if a.is_null() {
                None
            } else {
                Some(read_argument(a)?)
            }
        },
        None => None,
    };
    let arguments = match v.get("arguments") {
        Some(x) => match x.as_array() {
            Some(items) => read_arguments(items)?,
            None => {
                return Err(invalid_type("arguments", "an array"));
            },
        },
        None => Vec::new(),
    };
    let cache = optional_bool(v, "cache", true)?;
    let volatile = optional_bool(v, "volatile", false)?;
    let definition = match v.get("definition") {
        Some(d) => read_definition(d)?,
        None => CommandDefinition::Registered,
    };
    Ok(
        CommandMetadata {
            realm,
            namespace,
            name,
            label,
            module,
            doc,
            presets,
            next,
            filename,
            state_argument,
            arguments,
            cache,
            volatile,
            definition,
        },
    )
}

// --- writing -----------------------------------------------------------------------------------

/// `ms` with `(k, v)` appended when `cond` holds.
pub open spec fn push_if(ms: Seq<(Seq<char>, JsonView)>, cond: bool, k: Seq<char>, v: JsonView) -> Seq<(Seq<char>, JsonView)> {
    if cond {
        ms.push((k, v))
    } else {
        ms
    }
}

/// A size as JSON writes it.
pub open spec fn size_json(n: usize) -> JsonView {
    crate::declaration::json_count(n as nat)
}

/// A default value as it is written: tagged `Value` or `Query`, or the marker `"None"`.
pub open spec fn spec_write_param(p: ParamView) -> JsonView {
    match p {
        ParamView::Value(v) => JsonView::Object(seq![("Value"@, v)]),
        ParamView::Query(q) => JsonView::Object(seq![("Query"@, JsonView::Str(q))]),
        ParamView::Nothing => JsonView::Str("None"@),
    }
}

pub fn write_param(p: &CommandParameterValue) -> (r: JsonValue)
    ensures
        r.deep() == spec_write_param(p.deep()),
{
    match p {
        CommandParameterValue::Value(v) => single("Value", v.duplicate()),
        CommandParameterValue::Query(q) => single("Query", JsonValue::Str(q.clone())),
        CommandParameterValue::Nothing => JsonValue::Str(owned("None")),
    }
}

/// The one-member object `{key: v}`.
fn single(key: &str, v: JsonValue) -> (r: JsonValue)
    ensures
        r.deep() == JsonView::Object(seq![(key@, v.deep())]),
{
    let mut ms: Vec<JsonMember> = Vec::new();
    ms.push(JsonMember { key: owned(key), value: v });
    proof {
        lemma_object_view(ms);
        assert(members_view(ms@) =~= seq![(key@, ms@[0].value.deep())]);
    }
    JsonValue::Object(ms)
}

fn push_member(ms: &mut Vec<JsonMember>, key: &str, v: JsonValue)
    ensures
        members_view(final(ms)@) == members_view(old(ms)@).push((key@, v.deep())),
{
    let ghost before = members_view(ms@);
    let ghost vd = v.deep();
    ms.push(JsonMember { key: owned(key), value: v });
    proof {
        assert(members_view(ms@) =~= before.push((key@, vd)));
    }
}

fn size_value(n: usize) -> (r: JsonValue)
    ensures
        r.deep() == size_json(n),
{
    if (n as u64) <= 9223372036854775807u64 {
        JsonValue::Int(n as i64)
    } else {
        JsonValue::Number(crate::text::decimal_string(n))
    }
}

/// The name an enum's value type is written by.
pub open spec fn enum_type_name(t: EnumArgumentType) -> Seq<char> {
    match t {
        EnumArgumentType::String => "string"@,
        EnumArgumentType::Integer => "int"@,
        EnumArgumentType::IntegerOption => "int_opt"@,
        EnumArgumentType::Float => "float"@,
        EnumArgumentType::FloatOption => "float_opt"@,
        EnumArgumentType::Boolean => "bool"@,
        EnumArgumentType::Any => "any"@,
    }
}

fn enum_type_str(t: EnumArgumentType) -> (r: &'static str)
    ensures
        r@ == enum_type_name(t),
{
    match t {
        EnumArgumentType::String => "string",
        EnumArgumentType::Integer => "int",
        EnumArgumentType::IntegerOption => "int_opt",
        EnumArgumentType::Float => "float",
        EnumArgumentType::FloatOption => "float_opt",
        EnumArgumentType::Boolean => "bool",
        EnumArgumentType::Any => "any",
    }
}

pub open spec fn spec_write_enum(e: EnumArgument) -> JsonView {
    JsonView::Object(
        seq![
            ("name"@, JsonView::Str(e.name@)),
            ("values"@, JsonView::Array(Seq::new(e.values@.len(), |i: int| JsonView::Object(seq![
                ("alias"@, JsonView::Str(e.values@[i].alias@)),
                ("value"@, spec_write_param(e.values@[i].value.deep())),
            ])))),
            ("others_allowed"@, JsonView::Bool(e.others_allowed)),
            ("value_type"@, JsonView::Str(enum_type_name(e.value_type))),
        ],
    )
}

fn write_enum(e: &EnumArgument) -> (r: JsonValue)
    ensures
        r.deep() == spec_write_enum(*e),
{
    let mut values: Vec<JsonValue> = Vec::new();
    let mut i: usize = 0;
    while i < e.values.len()
        invariant
            0 <= i <= e.values.len(),
            values@.len() == i,
            forall|j: int| 0 <= j < i ==> (#[trigger] values@[j]).deep() == JsonView::Object(seq![
                ("alias"@, JsonView::Str(e.values@[j].alias@)),
                ("value"@, spec_write_param(e.values@[j].value.deep())),
            ]),
        decreases e.values.len() - i,
    {
        let mut ms: Vec<JsonMember> = Vec::new();
        push_member(&mut ms, "alias", JsonValue::Str(e.values[i].alias.clone()));
        push_member(&mut ms, "value", write_param(&e.values[i].value));
        proof {
            lemma_object_view(ms);
            assert(members_view(ms@) =~= seq![
                ("alias"@, JsonView::Str(e.values@[i as int].alias@)),
                ("value"@, spec_write_param(e.values@[i as int].value.deep())),
            ]);
        }
        values.push(JsonValue::Object(ms));
        i = i + 1;
    }
    let mut ms: Vec<JsonMember> = Vec::new();
    push_member(&mut ms, "name", JsonValue::Str(e.name.clone()));
    proof {
        lemma_array_view(values);
        assert(items_view(values@) =~= Seq::new(e.values@.len(), |i: int| JsonView::Object(seq![
            ("alias"@, JsonView::Str(e.values@[i].alias@)),
            ("value"@, spec_write_param(e.values@[i].value.deep())),
        ])));
    }
    push_member(&mut ms, "values", JsonValue::Array(values));
    push_member(&mut ms, "others_allowed", JsonValue::Bool(e.others_allowed));
    push_member(&mut ms, "value_type", JsonValue::Str(owned(enum_type_str(e.value_type))));
    proof {
        lemma_object_view(ms);
        assert(members_view(ms@) =~= spec_write_enum(*e)->Object_0);
    }
    JsonValue::Object(ms)
}

/// An argument type as it is written.
pub open spec fn spec_write_type(t: ArgumentType) -> JsonView {
    match t {
        ArgumentType::String => JsonView::Str("string"@),
        ArgumentType::Integer => JsonView::Str("int"@),
        ArgumentType::IntegerOption => JsonView::Str("int_opt"@),
        ArgumentType::Float => JsonView::Str("float"@),
        ArgumentType::FloatOption => JsonView::Str("float_opt"@),
        ArgumentType::Boolean => JsonView::Str("bool"@),
        ArgumentType::Enum(e) => JsonView::Object(seq![("Enum"@, spec_write_enum(e))]),
        ArgumentType::GlobalEnum(n) => JsonView::Object(seq![("GlobalEnum"@, JsonView::Str(n@))]),
        ArgumentType::Any => JsonView::Str("any"@),
        ArgumentType::Nothing => JsonView::Str("none"@),
    }
}

pub fn write_type(t: &ArgumentType) -> (r: JsonValue)
    ensures
        r.deep() == spec_write_type(*t),
{
    match t {
        ArgumentType::String => JsonValue::Str(owned("string")),
        ArgumentType::Integer => JsonValue::Str(owned("int")),
        ArgumentType::IntegerOption => JsonValue::Str(owned("int_opt")),
        ArgumentType::Float => JsonValue::Str(owned("float")),
        ArgumentType::FloatOption => JsonValue::Str(owned("float_opt")),
        ArgumentType::Boolean => JsonValue::Str(owned("bool")),
        ArgumentType::Enum(e) => single("Enum", write_enum(e)),
        ArgumentType::GlobalEnum(n) => single("GlobalEnum", JsonValue::Str(n.clone())),
        ArgumentType::Any => JsonValue::Str(owned("any")),
        ArgumentType::Nothing => JsonValue::Str(owned("none")),
    }
}

/// A widget as it is written.
pub open spec fn spec_write_gui(g: ArgumentGUIInfo) -> JsonView {
    match g {
        ArgumentGUIInfo::TextField(n) => JsonView::Object(seq![("TextField"@, size_json(n))]),
        ArgumentGUIInfo::TextArea(w, h) => JsonView::Object(seq![("TextArea"@, JsonView::Array(seq![size_json(w), size_json(h)]))]),
        ArgumentGUIInfo::IntegerField => JsonView::Str("IntegerField"@),
        ArgumentGUIInfo::IntegerRange { min, max } => JsonView::Object(seq![("IntegerRange"@, JsonView::Object(seq![
            ("min"@, JsonView::Int(min as int)),
            ("max"@, JsonView::Int(max as int)),
        ]))]),
        ArgumentGUIInfo::IntegerSlider { min, max, step } => JsonView::Object(seq![("IntegerSlider"@, JsonView::Object(seq![
            ("min"@, JsonView::Int(min as int)),
            ("max"@, JsonView::Int(max as int)),
            ("step"@, JsonView::Int(step as int)),
        ]))]),
        ArgumentGUIInfo::FloatField => JsonView::Str("FloatField"@),
        ArgumentGUIInfo::FloatSlider { min, max, step } => JsonView::Object(seq![("FloatSlider"@, JsonView::Object(seq![
            ("min"@, min.deep()),
            ("max"@, max.deep()),
            ("step"@, step.deep()),
        ]))]),
        ArgumentGUIInfo::Checkbox => JsonView::Str("Checkbox"@),
        ArgumentGUIInfo::RadioBoolean { true_label, false_label } => JsonView::Object(seq![("RadioBoolean"@, JsonView::Object(seq![
            ("true_label"@, JsonView::Str(true_label@)),
            ("false_label"@, JsonView::Str(false_label@)),
        ]))]),
        ArgumentGUIInfo::HorizontalRadioEnum => JsonView::Str("HorizontalRadioEnum"@),
        ArgumentGUIInfo::VerticalRadioEnum => JsonView::Str("VerticalRadioEnum"@),
        ArgumentGUIInfo::EnumSelector => JsonView::Str("EnumSelector"@),
        ArgumentGUIInfo::ColorString => JsonView::Str("ColorString"@),
        ArgumentGUIInfo::Hide => JsonView::Str("Hide"@),
        ArgumentGUIInfo::Nothing => JsonView::Str("None"@),
    }
}

pub fn write_gui(g: &ArgumentGUIInfo) -> (r: JsonValue)
    ensures
        r.deep() == spec_write_gui(*g),
{
    match g {
        ArgumentGUIInfo::TextField(n) => single("TextField", size_value(*n)),
        ArgumentGUIInfo::TextArea(w, h) => {
            let mut a: Vec<JsonValue> = Vec::new();
            a.push(size_value(*w));
            a.push(size_value(*h));
            proof {
                lemma_array_view(a);
                assert(items_view(a@) =~= seq![size_json(*w), size_json(*h)]);
            }
            single("TextArea", JsonValue::Array(a))
        },
        ArgumentGUIInfo::IntegerField => JsonValue::Str(owned("IntegerField")),
        ArgumentGUIInfo::IntegerRange { min, max } => {
            let mut ms: Vec<JsonMember> = Vec::new();
            push_member(&mut ms, "min", JsonValue::Int(*min));
            push_member(&mut ms, "max", JsonValue::Int(*max));
            proof {
                lemma_object_view(ms);
                assert(members_view(ms@) =~= seq![("min"@, JsonView::Int(*min as int)), ("max"@, JsonView::Int(*max as int))]);
            }
            single("IntegerRange", JsonValue::Object(ms))
        },
        ArgumentGUIInfo::IntegerSlider { min, max, step } => {
            let mut ms: Vec<JsonMember> = Vec::new();
            push_member(&mut ms, "min", JsonValue::Int(*min));
            push_member(&mut ms, "max", JsonValue::Int(*max));
            push_member(&mut ms, "step", JsonValue::Int(*step));
            proof {
                lemma_object_view(ms);
                assert(members_view(ms@) =~= seq![
                    ("min"@, JsonView::Int(*min as int)),
                    ("max"@, JsonView::Int(*max as int)),
                    ("step"@, JsonView::Int(*step as int)),
                ]);
            }
            single("IntegerSlider", JsonValue::Object(ms))
        },
        ArgumentGUIInfo::FloatField => JsonValue::Str(owned("FloatField")),
        ArgumentGUIInfo::FloatSlider { min, max, step } => {
            let mut ms: Vec<JsonMember> = Vec::new();
            push_member(&mut ms, "min", min.duplicate());
            push_member(&mut ms, "max", max.duplicate());
            push_member(&mut ms, "step", step.duplicate());
            proof {
                lemma_object_view(ms);
                assert(members_view(ms@) =~= seq![("min"@, min.deep()), ("max"@, max.deep()), ("step"@, step.deep())]);
            }
            single("FloatSlider", JsonValue::Object(ms))
        },
        ArgumentGUIInfo::Checkbox => JsonValue::Str(owned("Checkbox")),
        ArgumentGUIInfo::RadioBoolean { true_label, false_label } => {
            let mut ms: Vec<JsonMember> = Vec::new();
            push_member(&mut ms, "true_label", JsonValue::Str(true_label.clone()));
            push_member(&mut ms, "false_label", JsonValue::Str(false_label.clone()));
            proof {
                lemma_object_view(ms);
                assert(members_view(ms@) =~= seq![
                    ("true_label"@, JsonView::Str(true_label@)),
                    ("false_label"@, JsonView::Str(false_label@)),
                ]);
            }
            single("RadioBoolean", JsonValue::Object(ms))
        },
        ArgumentGUIInfo::HorizontalRadioEnum => JsonValue::Str(owned("HorizontalRadioEnum")),
        ArgumentGUIInfo::VerticalRadioEnum => JsonValue::Str(owned("VerticalRadioEnum")),
        ArgumentGUIInfo::EnumSelector => JsonValue::Str(owned("EnumSelector")),
        ArgumentGUIInfo::ColorString => JsonValue::Str(owned("ColorString")),
        ArgumentGUIInfo::Hide => JsonValue::Str(owned("Hide")),
        ArgumentGUIInfo::Nothing => JsonValue::Str(owned("None")),
    }
}

pub open spec fn spec_write_preset(p: ParameterPreset) -> JsonView {
    JsonView::Object(seq![
        ("name"@, JsonView::Str(p.name@)),
        ("value"@, spec_write_param(p.value.deep())),
        ("description"@, JsonView::Str(p.description@)),
    ])
}

/// An argument as it is written: fields at their defaults are left out.
pub open spec fn spec_write_argument(a: ArgumentInfo) -> JsonView {
    let m0 = seq![("name"@, JsonView::Str(a.name@)), ("label"@, JsonView::Str(a.label@))];
    let m1 = push_if(m0, a.default.deep() != ParamView::Value(JsonView::Null), "default"@, spec_write_param(a.default.deep()));
    let m2 = push_if(m1, !(a.argument_type is Any), "argument_type"@, spec_write_type(a.argument_type));
    let m3 = push_if(m2, a.multiple, "multiple"@, JsonView::Bool(true));
    let m4 = push_if(m3, a.injected, "injected"@, JsonView::Bool(true));
    let m5 = push_if(m4, !(a.gui_info is Nothing), "gui_info"@, spec_write_gui(a.gui_info));
    let m6 = push_if(m5, a.hints@.len() > 0, "hints"@, JsonView::Object(members_view(a.hints@)));
    let m7 = push_if(m6, a.presets@.len() > 0, "presets"@, JsonView::Array(a.presets@.map_values(|p: ParameterPreset| spec_write_preset(p))));
    JsonView::Object(m7)
}

fn copy_members(ms: &Vec<JsonMember>) -> (r: Vec<JsonMember>)
    ensures
        members_view(r@) == members_view(ms@),
{
    let mut out: Vec<JsonMember> = Vec::new();
    let mut i: usize = 0;
    while i < ms.len()
        invariant
            0 <= i <= ms.len(),
            out@.len() == i,
            forall|j: int| 0 <= j < i ==> (#[trigger] out@[j]).deep() == ms@[j].deep(),
        decreases ms.len() - i,
    {
        out.push(JsonMember { key: ms[i].key.clone(), value: ms[i].value.duplicate() });
        i = i + 1;
    }
    proof {
        assert(members_view(out@) =~= members_view(ms@));
    }
    out
}

pub fn write_argument(a: &ArgumentInfo) -> (r: JsonValue)
    ensures
        r.deep() == spec_write_argument(*a),
{
    let mut ms: Vec<JsonMember> = Vec::new();
    push_member(&mut ms, "name", JsonValue::Str(a.name.clone()));
    push_member(&mut ms, "label", JsonValue::Str(a.label.clone()));
    if !a.default.is_null() {
        push_member(&mut ms, "default", write_param(&a.default));
    }
    if !a.argument_type.is_any() {
        push_member(&mut ms, "argument_type", write_type(&a.argument_type));
    }
    if a.multiple {
        push_member(&mut ms, "multiple", JsonValue::Bool(true));
    }
    if a.injected {
        push_member(&mut ms, "injected", JsonValue::Bool(true));
    }
    if !a.gui_info.is_none() {
        push_member(&mut ms, "gui_info", write_gui(&a.gui_info));
    }
    if a.hints.len() > 0 {
        let h = copy_members(&a.hints);
        proof {
            lemma_object_view(h);
        }
        push_member(&mut ms, "hints", JsonValue::Object(h));
    }
    if a.presets.len() > 0 {
        let mut ps: Vec<JsonValue> = Vec::new();
        let mut i: usize = 0;
        while i < a.presets.len()
            invariant
                0 <= i <= a.presets.len(),
                ps@.len() == i,
                forall|j: int| 0 <= j < i ==> (#[trigger] ps@[j]).deep() == spec_write_preset(a.presets@[j]),
            decreases a.presets.len() - i,
        {
            let p = &a.presets[i];
            let mut pm: Vec<JsonMember> = Vec::new();
            push_member(&mut pm, "name", JsonValue::Str(p.name.clone()));
            push_member(&mut pm, "value", write_param(&p.value));
            push_member(&mut pm, "description", JsonValue::Str(p.description.clone()));
            proof {
                lemma_object_view(pm);
                assert(members_view(pm@) =~= spec_write_preset(*p)->Object_0);
            }
            ps.push(JsonValue::Object(pm));
            i = i + 1;
        }
        proof {
            lemma_array_view(ps);
            assert(items_view(ps@) =~= a.presets@.map_values(|p: ParameterPreset| spec_write_preset(p)));
        }
        push_member(&mut ms, "presets", JsonValue::Array(ps));
    }
    proof {
        lemma_object_view(ms);
        assert(members_view(ms@) =~= spec_write_argument(*a)->Object_0);
    }
    JsonValue::Object(ms)
}

pub open spec fn spec_write_action_preset(p: CommandPreset) -> JsonView {
    JsonView::Object(seq![
        ("action"@, JsonView::Object(seq![
            ("name"@, JsonView::Str(p.action.name@)),
            ("parameters"@, JsonView::Array(p.action.parameters@.map_values(|s: String| JsonView::Str(s@)))),
        ])),
        ("label"@, JsonView::Str(p.label@)),
        ("description"@, JsonView::Str(p.description@)),
    ])
}

fn write_action_preset(p: &CommandPreset) -> (r: JsonValue)
    ensures
        r.deep() == spec_write_action_preset(*p),
{
    let mut params: Vec<JsonValue> = Vec::new();
    let mut i: usize = 0;
    while i < p.action.parameters.len()
        invariant
            0 <= i <= p.action.parameters.len(),
            params@.len() == i,
            forall|j: int| 0 <= j < i ==> (#[trigger] params@[j]).deep() == JsonView::Str(p.action.parameters@[j]@),
        decreases p.action.parameters.len() - i,
    {
        params.push(JsonValue::Str(p.action.parameters[i].clone()));
        i = i + 1;
    }
    proof {
        lemma_array_view(params);
        assert(items_view(params@) =~= p.action.parameters@.map_values(|s: String| JsonView::Str(s@)));
    }
    let mut am: Vec<JsonMember> = Vec::new();
    push_member(&mut am, "name", JsonValue::Str(p.action.name.clone()));
    push_member(&mut am, "parameters", JsonValue::Array(params));
    proof {
        lemma_object_view(am);
        assert(members_view(am@) =~= seq![
            ("name"@, JsonView::Str(p.action.name@)),
            ("parameters"@, JsonView::Array(p.action.parameters@.map_values(|s: String| JsonView::Str(s@)))),
        ]);
    }
    let mut ms: Vec<JsonMember> = Vec::new();
    push_member(&mut ms, "action", JsonValue::Object(am));
    push_member(&mut ms, "label", JsonValue::Str(p.label.clone()));
    push_member(&mut ms, "description", JsonValue::Str(p.description.clone()));
    proof {
        lemma_object_view(ms);
        assert(members_view(ms@) =~= spec_write_action_preset(*p)->Object_0);
    }
    JsonValue::Object(ms)
}

fn write_action_presets(ps: &Vec<CommandPreset>) -> (r: JsonValue)
    ensures
        r.deep() == JsonView::Array(ps@.map_values(|p: CommandPreset| spec_write_action_preset(p))),
{
    let mut out: Vec<JsonValue> = Vec::new();
    let mut i: usize = 0;
    while i < ps.len()
        invariant
            0 <= i <= ps.len(),
            out@.len() == i,
            forall|j: int| 0 <= j < i ==> (#[trigger] out@[j]).deep() == spec_write_action_preset(ps@[j]),
        decreases ps.len() - i,
    {
        out.push(write_action_preset(&ps[i]));
        i = i + 1;
    }
    proof {
        lemma_array_view(out);
        assert(items_view(out@) =~= ps@.map_values(|p: CommandPreset| spec_write_action_preset(p)));
    }
    JsonValue::Array(out)
}

pub open spec fn spec_write_definition(d: CommandDefinition) -> JsonView {
    match d {
        CommandDefinition::Registered => JsonView::Str("Registered"@),
        CommandDefinition::Alias { command, head_parameters } => JsonView::Object(seq![("Alias"@, JsonView::Object(seq![
            ("command"@, JsonView::Object(seq![
                ("realm"@, JsonView::Str(command.realm@)),
                ("namespace"@, JsonView::Str(command.namespace@)),
                ("name"@, JsonView::Str(command.name@)),
            ])),
            ("head_parameters"@, JsonView::Array(head_parameters@.map_values(|p: CommandParameterValue| spec_write_param(p.deep())))),
        ]))]),
    }
}

fn write_definition(d: &CommandDefinition) -> (r: JsonValue)
    ensures
        r.deep() == spec_write_definition(*d),
{
    match d {
        CommandDefinition::Registered => JsonValue::Str(owned("Registered")),
        CommandDefinition::Alias { command, head_parameters } => {
            let mut km: Vec<JsonMember> = Vec::new();
            push_member(&mut km, "realm", JsonValue::Str(command.realm.clone()));
            push_member(&mut km, "namespace", JsonValue::Str(command.namespace.clone()));
            push_member(&mut km, "name", JsonValue::Str(command.name.clone()));
            proof {
                lemma_object_view(km);
                assert(members_view(km@) =~= seq![
                    ("realm"@, JsonView::Str(command.realm@)),
                    ("namespace"@, JsonView::Str(command.namespace@)),
                    ("name"@, JsonView::Str(command.name@)),
                ]);
            }
            let mut hp: Vec<JsonValue> = Vec::new();
            let mut i: usize = 0;
            while i < head_parameters.len()
                invariant
                    0 <= i <= head_parameters.len(),
                    hp@.len() == i,
                    forall|j: int| 0 <= j < i ==> (#[trigger] hp@[j]).deep() == spec_write_param(head_parameters@[j].deep()),
                decreases head_parameters.len() - i,
            {
                hp.push(write_param(&head_parameters[i]));
                i = i + 1;
            }
            proof {
                lemma_array_view(hp);
                assert(items_view(hp@) =~= head_parameters@.map_values(|p: CommandParameterValue| spec_write_param(p.deep())));
            }
            let mut am: Vec<JsonMember> = Vec::new();
            push_member(&mut am, "command", JsonValue::Object(km));
            push_member(&mut am, "head_parameters", JsonValue::Array(hp));
            proof {
                lemma_object_view(am);
                assert(members_view(am@) =~= (spec_write_definition(*d)->Object_0)[0].1->Object_0);
            }
            single("Alias", JsonValue::Object(am))
        },
    }
}

/// Command metadata as it is written: empty strings and lists, and an absent state argument,
/// are left out.
pub open spec fn spec_write_metadata(m: CommandMetadata) -> JsonView {
    let m0 = push_if(Seq::empty(), m.realm@.len() > 0, "realm"@, JsonView::Str(m.realm@));
    let m1 = push_if(m0, m.namespace@.len() > 0, "namespace"@, JsonView::Str(m.namespace@));
    let m2 = m1.push(("name"@, JsonView::Str(m.name@))).push(("label"@, JsonView::Str(m.label@)));
    let m3 = push_if(m2, m.module@.len() > 0, "module"@, JsonView::Str(m.module@));
    let m4 = push_if(m3, m.doc@.len() > 0, "doc"@, JsonView::Str(m.doc@));
    let m5 = push_if(m4, m.presets@.len() > 0, "presets"@, JsonView::Array(m.presets@.map_values(|p: CommandPreset| spec_write_action_preset(p))));
    let m6 = push_if(m5, m.next@.len() > 0, "next"@, JsonView::Array(m.next@.map_values(|p: CommandPreset| spec_write_action_preset(p))));
    let m7 = push_if(m6, m.filename@.len() > 0, "filename"@, JsonView::Str(m.filename@));
    let m8 = match m.state_argument {
        Some(a) => m7.push(("state_argument"@, spec_write_argument(a))),
        None => m7,
    };
    let m9 = push_if(m8, m.arguments@.len() > 0, "arguments"@, JsonView::Array(m.arguments@.map_values(|a: ArgumentInfo| spec_write_argument(a))));
    let m10 = m9.push(("cache"@, JsonView::Bool(m.cache))).push(("volatile"@, JsonView::Bool(m.volatile)));
    JsonView::Object(m10.push(("definition"@, spec_write_definition(m.definition))))
}

pub fn write_metadata(m: &CommandMetadata) -> (r: JsonValue)
    ensures
        r.deep() == spec_write_metadata(*m),
{
    let mut ms: Vec<JsonMember> = Vec::new();
    proof {
        lemma_object_view(ms);
    }
    if m.realm.as_str().unicode_len() > 0 {
        push_member(&mut ms, "realm", JsonValue::Str(m.realm.clone()));
    }
    if m.namespace.as_str().unicode_len() > 0 {
        push_member(&mut ms, "namespace", JsonValue::Str(m.namespace.clone()));
    }
    push_member(&mut ms, "name", JsonValue::Str(m.name.clone()));
    push_member(&mut ms, "label", JsonValue::Str(m.label.clone()));
    if m.module.as_str().unicode_len() > 0 {
        push_member(&mut ms, "module", JsonValue::Str(m.module.clone()));
    }
    if m.doc.as_str().unicode_len() > 0 {
        push_member(&mut ms, "doc", JsonValue::Str(m.doc.clone()));
    }
    if m.presets.len() > 0 {
        push_member(&mut ms, "presets", write_action_presets(&m.presets));
    }
    if m.next.len() > 0 {
        push_member(&mut ms, "next", write_action_presets(&m.next));
    }
    if m.filename.as_str().unicode_len() > 0 {
        push_member(&mut ms, "filename", JsonValue::Str(m.filename.clone()));
    }
    match &m.state_argument {
        Some(a) => {
            push_member(&mut ms, "state_argument", write_argument(a));
        },
        None => {},
    }
    if m.arguments.len() > 0 {
        let mut out: Vec<JsonValue> = Vec::new();
        let mut i: usize = 0;
        while i < m.arguments.len()
            invariant
                0 <= i <= m.arguments.len(),
                out@.len() == i,
                forall|j: int| 0 <= j < i ==> (#[trigger] out@[j]).deep() == spec_write_argument(m.arguments@[j]),
            decreases m.arguments.len() - i,
        {
            out.push(write_argument(&m.arguments[i]));
            i = i + 1;
        }
        proof {
            lemma_array_view(out);
            assert(items_view(out@) =~= m.arguments@.map_values(|a: ArgumentInfo| spec_write_argument(a)));
        }
        push_member(&mut ms, "arguments", JsonValue::Array(out));
    }
    push_member(&mut ms, "cache", JsonValue::Bool(m.cache));
    push_member(&mut ms, "volatile", JsonValue::Bool(m.volatile));
    push_member(&mut ms, "definition", write_definition(&m.definition));
    proof {
        lemma_object_view(ms);
        assert(members_view(ms@) =~= spec_write_metadata(*m)->Object_0);
    }
    JsonValue::Object(ms)
}

// --- what is written reads back ----------------------------------------------------------------

/// In members whose keys before position `i` differ from the key at `i`, that key finds the
/// value at `i`.
proof fn lemma_lookup_at(ms: Seq<(Seq<char>, JsonView)>, i: int)
    requires
        0 <= i < ms.len(),
        forall|j: int| 0 <= j < i ==> (#[trigger] ms[j]).0 != ms[i].0,
    ensures
        lookup(JsonView::Object(ms), ms[i].0) == Some(ms[i].1),
{
    crate::json::lemma_find_key_first(ms, ms[i].0, 0, i);
}

/// The names types are written by differ from each other and from their aliases.
proof fn lemma_type_names_differ()
    ensures
        "int"@ != "string"@, "int"@ != "str"@, "int"@ != "text"@,
        "int_opt"@ != "string"@, "int_opt"@ != "str"@, "int_opt"@ != "text"@, "int_opt"@ != "int"@,
        "int_opt"@ != "integer"@,
        "float"@ != "string"@, "float"@ != "str"@, "float"@ != "text"@, "float"@ != "int"@,
        "float"@ != "integer"@, "float"@ != "int_opt"@,
        "float_opt"@ != "string"@, "float_opt"@ != "str"@, "float_opt"@ != "text"@, "float_opt"@ != "int"@,
        "float_opt"@ != "integer"@, "float_opt"@ != "int_opt"@, "float_opt"@ != "float"@, "float_opt"@ != "number"@,
        "bool"@ != "string"@, "bool"@ != "str"@, "bool"@ != "text"@, "bool"@ != "int"@, "bool"@ != "integer"@,
        "bool"@ != "int_opt"@, "bool"@ != "float"@, "bool"@ != "number"@, "bool"@ != "float_opt"@,
        "any"@ != "string"@, "any"@ != "str"@, "any"@ != "text"@, "any"@ != "int"@, "any"@ != "integer"@,
        "any"@ != "int_opt"@, "any"@ != "float"@, "any"@ != "number"@, "any"@ != "float_opt"@,
        "any"@ != "bool"@, "any"@ != "boolean"@,
        "none"@ != "string"@, "none"@ != "str"@, "none"@ != "text"@, "none"@ != "int"@, "none"@ != "integer"@,
        "none"@ != "int_opt"@, "none"@ != "float"@, "none"@ != "number"@, "none"@ != "float_opt"@,
        "none"@ != "bool"@, "none"@ != "boolean"@, "none"@ != "any"@,
        "Enum"@ != "GlobalEnum"@,
{
    reveal_strlit("string");
    reveal_strlit("str");
    reveal_strlit("text");
    reveal_strlit("int");
    reveal_strlit("integer");
    reveal_strlit("int_opt");
    reveal_strlit("float");
    reveal_strlit("number");
    reveal_strlit("float_opt");
    reveal_strlit("bool");
    reveal_strlit("boolean");
    reveal_strlit("any");
    reveal_strlit("none");
    reveal_strlit("Enum");
    reveal_strlit("GlobalEnum");
    assert("string"@.len() == 6 && "str"@.len() == 3 && "text"@.len() == 4 && "int"@.len() == 3);
    assert("integer"@.len() == 7 && "int_opt"@.len() == 7 && "float"@.len() == 5 && "number"@.len() == 6);
    assert("float_opt"@.len() == 9 && "bool"@.len() == 4 && "boolean"@.len() == 7 && "any"@.len() == 3);
    assert("none"@.len() == 4 && "Enum"@.len() == 4 && "GlobalEnum"@.len() == 10);
    assert("int"@[0] != "str"@[0]);
    assert("int_opt"@[3] != "integer"@[3]);
    assert("bool"@[0] != "text"@[0]);
    assert("any"@[0] != "str"@[0] && "any"@[0] != "int"@[0]);
    assert("none"@[0] != "text"@[0] && "none"@[0] != "bool"@[0]);
    assert("number"@[0] != "string"@[0]);
}

/// A written default reads back as itself.
pub proof fn law_param_round_trip(p: ParamView)
    ensures
        spec_read_param(spec_write_param(p)) == p,
{
    reveal_strlit("None");
    reveal_strlit("Value");
    reveal_strlit("Query");
    assert("Query"@ != "Value"@) by {
        assert("Query"@[0] != "Value"@[0]);
    }
}

/// The value type of an enum reads back from the name it is written by.
pub proof fn law_enum_type_round_trip(t: EnumArgumentType)
    ensures
        enum_type_for_name(enum_type_name(t)) == Some(t),
{
    lemma_type_names_differ();
}

/// A written enum argument is well formed and reads back as itself.
pub proof fn law_enum_round_trip(e: EnumArgument)
    ensures
        enum_ok(spec_write_enum(e)),
        reads_enum(spec_write_enum(e), e),
{
    reveal_strlit("name");
    reveal_strlit("values");
    reveal_strlit("others_allowed");
    reveal_strlit("value_type");
    reveal_strlit("alias");
    reveal_strlit("value");
    assert("name"@.len() == 4 && "values"@.len() == 6 && "others_allowed"@.len() == 14);
    assert("value_type"@.len() == 10 && "alias"@.len() == 5 && "value"@.len() == 5);
    assert("alias"@[0] != "value"@[0]);
    let v = spec_write_enum(e);
    let ms = v->Object_0;
    lemma_lookup_at(ms, 0);
    lemma_lookup_at(ms, 1);
    lemma_lookup_at(ms, 2);
    lemma_lookup_at(ms, 3);
    law_enum_type_round_trip(e.value_type);
    let vals = Seq::new(e.values@.len(), |i: int| JsonView::Object(seq![
        ("alias"@, JsonView::Str(e.values@[i].alias@)),
        ("value"@, spec_write_param(e.values@[i].value.deep())),
    ]));
    assert(lookup(v, "values"@) == Some(JsonView::Array(vals)));
    assert forall|i: int| 0 <= i < vals.len() implies alternative_ok(#[trigger] vals[i]) && reads_alternative(vals[i], e.values@[i]) by {
        let ams = vals[i]->Object_0;
        lemma_lookup_at(ams, 0);
        lemma_lookup_at(ams, 1);
        law_param_round_trip(e.values@[i].value.deep());
    }
}

/// A written argument type is well formed and reads back as itself.
pub proof fn law_type_round_trip(t: ArgumentType)
    ensures
        type_ok(spec_write_type(t)),
        reads_type(spec_write_type(t), t),
{
    lemma_type_names_differ();
    match t {
        ArgumentType::Enum(e) => {
            law_enum_round_trip(e);
        },
        _ => {},
    }
}

/// Looking a key up after a member is appended: an earlier member with the key still wins.
proof fn lemma_lookup_push(ms: Seq<(Seq<char>, JsonView)>, k: Seq<char>, v: JsonView)
    ensures
        forall|k2: Seq<char>| #[trigger] crate::json::member_lookup(ms.push((k, v)), k2) == if crate::json::member_lookup(ms, k2) is Some {
            crate::json::member_lookup(ms, k2)
        } else if k2 == k {
            Some(v)
        } else {
            None
        },
{
    let after = ms.push((k, v));
    assert forall|k2: Seq<char>| #[trigger] crate::json::member_lookup(after, k2) == if crate::json::member_lookup(ms, k2) is Some {
        crate::json::member_lookup(ms, k2)
    } else if k2 == k {
        Some(v)
    } else {
        None
    } by {
        crate::json::lemma_find_key(ms, k2);
        crate::json::lemma_find_key(after, k2);
        match crate::json::find_key(ms, k2) {
            Some(i) => {
                assert(after[i] == ms[i]);
                match crate::json::find_key(after, k2) {
                    Some(j) => {
                        if j < i {
                            assert(after[j] == ms[j]);
                        }
                    },
                    None => {},
                }
            },
            None => {
                match crate::json::find_key(after, k2) {
                    Some(j) => {
                        if j < ms.len() {
                            assert(after[j] == ms[j]);
                        }
                    },
                    None => {
                        if k2 == k {
                            assert(after[ms.len() as int].0 == k2);
                        }
                    },
                }
            },
        }
    }
}

proof fn lemma_lookup_push_if(ms: Seq<(Seq<char>, JsonView)>, cond: bool, k: Seq<char>, v: JsonView)
    ensures
        forall|k2: Seq<char>| #[trigger] crate::json::member_lookup(push_if(ms, cond, k, v), k2) == if cond && crate::json::member_lookup(ms, k2) is None && k2 == k {
            Some(v)
        } else {
            crate::json::member_lookup(ms, k2)
        },
{
    lemma_lookup_push(ms, k, v);
}

/// Whether a widget is written as a document that reads back: a float slider's bounds and
/// step must be numbers.
pub open spec fn gui_writable(g: ArgumentGUIInfo) -> bool {
    match g {
        ArgumentGUIInfo::FloatSlider { min, max, step } => is_number(min.deep()) && is_number(max.deep())
            && is_number(step.deep()),
        _ => true,
    }
}

/// The names widgets are written by differ from each other.
proof fn lemma_gui_names_differ()
    ensures
        "FloatField"@ != "IntegerField"@,
        "Checkbox"@ != "IntegerField"@, "Checkbox"@ != "FloatField"@,
        "HorizontalRadioEnum"@ != "IntegerField"@, "HorizontalRadioEnum"@ != "FloatField"@,
        "HorizontalRadioEnum"@ != "Checkbox"@,
        "VerticalRadioEnum"@ != "IntegerField"@, "VerticalRadioEnum"@ != "FloatField"@,
        "VerticalRadioEnum"@ != "Checkbox"@, "VerticalRadioEnum"@ != "HorizontalRadioEnum"@,
        "EnumSelector"@ != "IntegerField"@, "EnumSelector"@ != "FloatField"@, "EnumSelector"@ != "Checkbox"@,
        "EnumSelector"@ != "HorizontalRadioEnum"@, "EnumSelector"@ != "VerticalRadioEnum"@,
        "ColorString"@ != "IntegerField"@, "ColorString"@ != "FloatField"@, "ColorString"@ != "Checkbox"@,
        "ColorString"@ != "HorizontalRadioEnum"@, "ColorString"@ != "VerticalRadioEnum"@,
        "ColorString"@ != "EnumSelector"@,
        "Hide"@ != "IntegerField"@, "Hide"@ != "FloatField"@, "Hide"@ != "Checkbox"@,
        "Hide"@ != "HorizontalRadioEnum"@, "Hide"@ != "VerticalRadioEnum"@, "Hide"@ != "EnumSelector"@,
        "Hide"@ != "ColorString"@,
        "None"@ != "IntegerField"@, "None"@ != "FloatField"@, "None"@ != "Checkbox"@,
        "None"@ != "HorizontalRadioEnum"@, "None"@ != "VerticalRadioEnum"@, "None"@ != "EnumSelector"@,
        "None"@ != "ColorString"@, "None"@ != "Hide"@,
        "TextArea"@ != "TextField"@,
        "IntegerRange"@ != "TextField"@, "IntegerRange"@ != "TextArea"@,
        "IntegerSlider"@ != "TextField"@, "IntegerSlider"@ != "TextArea"@, "IntegerSlider"@ != "IntegerRange"@,
        "FloatSlider"@ != "TextField"@, "FloatSlider"@ != "TextArea"@, "FloatSlider"@ != "IntegerRange"@,
        "FloatSlider"@ != "IntegerSlider"@,
        "RadioBoolean"@ != "TextField"@, "RadioBoolean"@ != "TextArea"@, "RadioBoolean"@ != "IntegerRange"@,
        "RadioBoolean"@ != "IntegerSlider"@, "RadioBoolean"@ != "FloatSlider"@,
        "max"@ != "min"@, "step"@ != "min"@, "step"@ != "max"@, "false_label"@ != "true_label"@,
{
    reveal_strlit("IntegerField");
    reveal_strlit("FloatField");
    reveal_strlit("Checkbox");
    reveal_strlit("HorizontalRadioEnum");
    reveal_strlit("VerticalRadioEnum");
    reveal_strlit("EnumSelector");
    reveal_strlit("ColorString");
    reveal_strlit("Hide");
    reveal_strlit("None");
    reveal_strlit("TextField");
    reveal_strlit("TextArea");
    reveal_strlit("IntegerRange");
    reveal_strlit("IntegerSlider");
    reveal_strlit("FloatSlider");
    reveal_strlit("RadioBoolean");
    reveal_strlit("min");
    reveal_strlit("max");
    reveal_strlit("step");
    reveal_strlit("true_label");
    reveal_strlit("false_label");
    assert("IntegerField"@.len() == 12 && "FloatField"@.len() == 10 && "Checkbox"@.len() == 8);
    assert("HorizontalRadioEnum"@.len() == 19 && "VerticalRadioEnum"@.len() == 17 && "EnumSelector"@.len() == 12);
    assert("ColorString"@.len() == 11 && "Hide"@.len() == 4 && "None"@.len() == 4);
    assert("TextField"@.len() == 9 && "TextArea"@.len() == 8 && "IntegerRange"@.len() == 12);
    assert("IntegerSlider"@.len() == 13 && "FloatSlider"@.len() == 11 && "RadioBoolean"@.len() == 12);
    assert("min"@.len() == 3 && "max"@.len() == 3 && "step"@.len() == 4);
    assert("true_label"@.len() == 10 && "false_label"@.len() == 11);
    assert("EnumSelector"@[0] != "IntegerField"@[0]);
    assert("None"@[0] != "Hide"@[0]);
    assert("RadioBoolean"@[0] != "IntegerRange"@[0]);
    assert("max"@[1] != "min"@[1]);
}

proof fn lemma_gui_range(lo: i64, hi: i64)
    ensures
        gui_ok(spec_write_gui(ArgumentGUIInfo::IntegerRange { min: lo, max: hi })),
        reads_gui(spec_write_gui(ArgumentGUIInfo::IntegerRange { min: lo, max: hi }), ArgumentGUIInfo::IntegerRange { min: lo, max: hi }),
{
    lemma_gui_names_differ();
    reveal_strlit("min");
    reveal_strlit("max");
    let g = ArgumentGUIInfo::IntegerRange { min: lo, max: hi };
    let v = spec_write_gui(g);
    let cm = seq![("min"@, JsonView::Int(lo as int)), ("max"@, JsonView::Int(hi as int))];
    let c = JsonView::Object(cm);
    lemma_lookup_at(cm, 0);
    lemma_lookup_at(cm, 1);
    assert(tagged(v) == Some(("IntegerRange"@, c)));
    assert(int_field(c, "min"@));
    assert(int_field(c, "max"@));
}

proof fn lemma_gui_slider(lo: i64, hi: i64, st: i64)
    ensures
        gui_ok(spec_write_gui(ArgumentGUIInfo::IntegerSlider { min: lo, max: hi, step: st })),
        reads_gui(
            spec_write_gui(ArgumentGUIInfo::IntegerSlider { min: lo, max: hi, step: st }),
            ArgumentGUIInfo::IntegerSlider { min: lo, max: hi, step: st },
        ),
{
    lemma_gui_names_differ();
    reveal_strlit("min");
    reveal_strlit("max");
    reveal_strlit("step");
    let v = spec_write_gui(ArgumentGUIInfo::IntegerSlider { min: lo, max: hi, step: st });
    let cm = seq![("min"@, JsonView::Int(lo as int)), ("max"@, JsonView::Int(hi as int)), ("step"@, JsonView::Int(st as int))];
    let c = JsonView::Object(cm);
    lemma_lookup_at(cm, 0);
    lemma_lookup_at(cm, 1);
    lemma_lookup_at(cm, 2);
    assert(tagged(v) == Some(("IntegerSlider"@, c)));
    assert(int_field(c, "min"@) && int_field(c, "max"@) && int_field(c, "step"@));
}

proof fn lemma_gui_float_slider(lo: JsonView, hi: JsonView, st: JsonView)
    ensures
        ({
            let c = JsonView::Object(seq![("min"@, lo), ("max"@, hi), ("step"@, st)]);
            &&& lookup(c, "min"@) == Some(lo)
            &&& lookup(c, "max"@) == Some(hi)
            &&& lookup(c, "step"@) == Some(st)
        }),
{
    lemma_gui_names_differ();
    let cm = seq![("min"@, lo), ("max"@, hi), ("step"@, st)];
    lemma_lookup_at(cm, 0);
    lemma_lookup_at(cm, 1);
    lemma_lookup_at(cm, 2);
}

proof fn lemma_gui_radio(t: Seq<char>, f: Seq<char>)
    ensures
        ({
            let c = JsonView::Object(seq![("true_label"@, JsonView::Str(t)), ("false_label"@, JsonView::Str(f))]);
            &&& lookup(c, "true_label"@) == Some(JsonView::Str(t))
            &&& lookup(c, "false_label"@) == Some(JsonView::Str(f))
        }),
{
    lemma_gui_names_differ();
    let cm = seq![("true_label"@, JsonView::Str(t)), ("false_label"@, JsonView::Str(f))];
    lemma_lookup_at(cm, 0);
    lemma_lookup_at(cm, 1);
}

/// A written size reads back as itself.
proof fn lemma_size_round_trip(n: usize)
    ensures
        is_size(size_json(n)),
        size_of(size_json(n)) == n,
{
    if n > i64::MAX {
        crate::text::lemma_decimal_digits(n as nat);
    }
}

/// A written widget is well formed and reads back as itself, when it is writable.
pub proof fn law_gui_round_trip(g: ArgumentGUIInfo)
    requires
        gui_writable(g),
    ensures
        gui_ok(spec_write_gui(g)),
        reads_gui(spec_write_gui(g), g),
{
    lemma_gui_names_differ();
    reveal_strlit("min");
    reveal_strlit("max");
    reveal_strlit("step");
    reveal_strlit("true_label");
    reveal_strlit("false_label");
    match g {
        ArgumentGUIInfo::IntegerRange { min: lo, max: hi } => {
            lemma_gui_range(lo, hi);
        },
        ArgumentGUIInfo::IntegerSlider { min: lo, max: hi, step: st } => {
            lemma_gui_slider(lo, hi, st);
        },
        ArgumentGUIInfo::FloatSlider { min: lo, max: hi, step: st } => {
            lemma_gui_float_slider(lo.deep(), hi.deep(), st.deep());
            assert(spec_write_gui(g)->Object_0[0].1 == JsonView::Object(seq![("min"@, lo.deep()), ("max"@, hi.deep()), ("step"@, st.deep())]));
        },
        ArgumentGUIInfo::RadioBoolean { true_label: t, false_label: f } => {
            lemma_gui_radio(t@, f@);
        },
        ArgumentGUIInfo::TextField(n) => {
            lemma_size_round_trip(n);
        },
        ArgumentGUIInfo::TextArea(w, h) => {
            lemma_size_round_trip(w);
            lemma_size_round_trip(h);
        },
        _ => {},
    }
}

/// The keys an argument is written with differ from each other and from `type`.
proof fn lemma_argument_keys_differ()
    ensures
        "label"@ != "name"@,
        "default"@ != "name"@, "default"@ != "label"@,
        "argument_type"@ != "name"@, "argument_type"@ != "label"@, "argument_type"@ != "default"@,
        "multiple"@ != "name"@, "multiple"@ != "label"@, "multiple"@ != "default"@, "multiple"@ != "argument_type"@,
        "injected"@ != "name"@, "injected"@ != "label"@, "injected"@ != "default"@, "injected"@ != "argument_type"@,
        "injected"@ != "multiple"@,
        "gui_info"@ != "name"@, "gui_info"@ != "label"@, "gui_info"@ != "default"@, "gui_info"@ != "argument_type"@,
        "gui_info"@ != "multiple"@, "gui_info"@ != "injected"@,
        "hints"@ != "name"@, "hints"@ != "label"@, "hints"@ != "default"@, "hints"@ != "argument_type"@,
        "hints"@ != "multiple"@, "hints"@ != "injected"@, "hints"@ != "gui_info"@,
        "presets"@ != "name"@, "presets"@ != "label"@, "presets"@ != "default"@, "presets"@ != "argument_type"@,
        "presets"@ != "multiple"@, "presets"@ != "injected"@, "presets"@ != "gui_info"@, "presets"@ != "hints"@,
        "type"@ != "name"@, "type"@ != "label"@, "type"@ != "default"@, "type"@ != "argument_type"@,
        "type"@ != "multiple"@, "type"@ != "injected"@, "type"@ != "gui_info"@, "type"@ != "hints"@,
        "type"@ != "presets"@,
        "value"@ != "name"@, "description"@ != "name"@, "description"@ != "value"@,
{
    reveal_strlit("name");
    reveal_strlit("label");
    reveal_strlit("default");
    reveal_strlit("argument_type");
    reveal_strlit("multiple");
    reveal_strlit("injected");
    reveal_strlit("gui_info");
    reveal_strlit("hints");
    reveal_strlit("presets");
    reveal_strlit("type");
    reveal_strlit("value");
    reveal_strlit("description");
    assert("name"@.len() == 4 && "label"@.len() == 5 && "default"@.len() == 7 && "argument_type"@.len() == 13);
    assert("multiple"@.len() == 8 && "injected"@.len() == 8 && "gui_info"@.len() == 8 && "hints"@.len() == 5);
    assert("presets"@.len() == 7 && "type"@.len() == 4 && "value"@.len() == 5 && "description"@.len() == 11);
    assert("hints"@[0] != "label"@[0]);
    assert("presets"@[0] != "default"@[0]);
    assert("injected"@[0] != "multiple"@[0] && "gui_info"@[0] != "multiple"@[0] && "gui_info"@[0] != "injected"@[0]);
    assert("type"@[0] != "name"@[0]);
}

/// Whether an argument is written as a document that reads back: its default is not the
/// JSON `null` (which is left out when written, and so reads back as no default), and its
/// widget is writable.
pub open spec fn argument_writable(a: ArgumentInfo) -> bool {
    a.default.deep() != ParamView::Value(JsonView::Null) && gui_writable(a.gui_info)
}

/// A written parameter preset is well formed and reads back as itself.
proof fn lemma_preset_round_trip(p: ParameterPreset)
    ensures
        preset_ok(spec_write_preset(p)),
        reads_preset(spec_write_preset(p), p),
{
    lemma_argument_keys_differ();
    let ms = spec_write_preset(p)->Object_0;
    lemma_lookup_at(ms, 0);
    lemma_lookup_at(ms, 1);
    lemma_lookup_at(ms, 2);
    law_param_round_trip(p.value.deep());
}

/// A written argument is well formed and reads back as itself, when it is writable.
pub proof fn law_argument_round_trip(a: ArgumentInfo)
    requires
        argument_writable(a),
    ensures
        argument_ok(spec_write_argument(a)),
        reads_argument(spec_write_argument(a), a),
{
    lemma_argument_keys_differ();
    let m0 = seq![("name"@, JsonView::Str(a.name@)), ("label"@, JsonView::Str(a.label@))];
    let e: Seq<(Seq<char>, JsonView)> = Seq::empty();
    assert(m0 == e.push(("name"@, JsonView::Str(a.name@))).push(("label"@, JsonView::Str(a.label@))));
    lemma_lookup_push(e, "name"@, JsonView::Str(a.name@));
    lemma_lookup_push(e.push(("name"@, JsonView::Str(a.name@))), "label"@, JsonView::Str(a.label@));
    let m1 = push_if(m0, a.default.deep() != ParamView::Value(JsonView::Null), "default"@, spec_write_param(a.default.deep()));
    let m2 = push_if(m1, !(a.argument_type is Any), "argument_type"@, spec_write_type(a.argument_type));
    let m3 = push_if(m2, a.multiple, "multiple"@, JsonView::Bool(true));
    let m4 = push_if(m3, a.injected, "injected"@, JsonView::Bool(true));
    let m5 = push_if(m4, !(a.gui_info is Nothing), "gui_info"@, spec_write_gui(a.gui_info));
    let m6 = push_if(m5, a.hints@.len() > 0, "hints"@, JsonView::Object(members_view(a.hints@)));
    let m7 = push_if(m6, a.presets@.len() > 0, "presets"@, JsonView::Array(a.presets@.map_values(|p: ParameterPreset| spec_write_preset(p))));
    lemma_lookup_push_if(m0, a.default.deep() != ParamView::Value(JsonView::Null), "default"@, spec_write_param(a.default.deep()));
    lemma_lookup_push_if(m1, !(a.argument_type is Any), "argument_type"@, spec_write_type(a.argument_type));
    lemma_lookup_push_if(m2, a.multiple, "multiple"@, JsonView::Bool(true));
    lemma_lookup_push_if(m3, a.injected, "injected"@, JsonView::Bool(true));
    lemma_lookup_push_if(m4, !(a.gui_info is Nothing), "gui_info"@, spec_write_gui(a.gui_info));
    lemma_lookup_push_if(m5, a.hints@.len() > 0, "hints"@, JsonView::Object(members_view(a.hints@)));
    lemma_lookup_push_if(m6, a.presets@.len() > 0, "presets"@, JsonView::Array(a.presets@.map_values(|p: ParameterPreset| spec_write_preset(p))));
    let v = spec_write_argument(a);
    assert(v == JsonView::Object(m7));
    assert(lookup(v, "name"@) == Some(JsonView::Str(a.name@)));
    assert(lookup(v, "label"@) == Some(JsonView::Str(a.label@)));
    assert(lookup(v, "type"@) is None);
    law_param_round_trip(a.default.deep());
    law_type_round_trip(a.argument_type);
    if !(a.gui_info is Nothing) {
        law_gui_round_trip(a.gui_info);
    }
    if a.hints@.len() == 0 {
        assert(members_view(a.hints@) =~= Seq::<(Seq<char>, JsonView)>::empty());
    }
    if a.presets@.len() > 0 {
        let ps = a.presets@.map_values(|p: ParameterPreset| spec_write_preset(p));
        assert(lookup(v, "presets"@) == Some(JsonView::Array(ps)));
        assert forall|i: int| 0 <= i < ps.len() implies preset_ok(#[trigger] ps[i]) && reads_preset(ps[i], a.presets@[i]) by {
            lemma_preset_round_trip(a.presets@[i]);
        }
    }
}

/// The keys command metadata is written with differ from each other.
proof fn lemma_metadata_keys_differ()
    ensures
        "namespace"@ != "realm"@,
        "name"@ != "realm"@, "name"@ != "namespace"@,
        "label"@ != "realm"@, "label"@ != "namespace"@, "label"@ != "name"@,
        "module"@ != "realm"@, "module"@ != "namespace"@, "module"@ != "name"@, "module"@ != "label"@,
        "doc"@ != "realm"@, "doc"@ != "namespace"@, "doc"@ != "name"@, "doc"@ != "label"@, "doc"@ != "module"@,
        "presets"@ != "realm"@, "presets"@ != "namespace"@, "presets"@ != "name"@, "presets"@ != "label"@,
        "presets"@ != "module"@, "presets"@ != "doc"@,
        "next"@ != "realm"@, "next"@ != "namespace"@, "next"@ != "name"@, "next"@ != "label"@,
        "next"@ != "module"@, "next"@ != "doc"@, "next"@ != "presets"@,
        "filename"@ != "realm"@, "filename"@ != "namespace"@, "filename"@ != "name"@, "filename"@ != "label"@,
        "filename"@ != "module"@, "filename"@ != "doc"@, "filename"@ != "presets"@, "filename"@ != "next"@,
        "state_argument"@ != "realm"@, "state_argument"@ != "namespace"@, "state_argument"@ != "name"@,
        "state_argument"@ != "label"@, "state_argument"@ != "module"@, "state_argument"@ != "doc"@,
        "state_argument"@ != "presets"@, "state_argument"@ != "next"@, "state_argument"@ != "filename"@,
        "arguments"@ != "realm"@, "arguments"@ != "namespace"@, "arguments"@ != "name"@, "arguments"@ != "label"@,
        "arguments"@ != "module"@, "arguments"@ != "doc"@, "arguments"@ != "presets"@, "arguments"@ != "next"@,
        "arguments"@ != "filename"@, "arguments"@ != "state_argument"@,
        "cache"@ != "realm"@, "cache"@ != "namespace"@, "cache"@ != "name"@, "cache"@ != "label"@,
        "cache"@ != "module"@, "cache"@ != "doc"@, "cache"@ != "presets"@, "cache"@ != "next"@,
        "cache"@ != "filename"@, "cache"@ != "state_argument"@, "cache"@ != "arguments"@,
        "volatile"@ != "realm"@, "volatile"@ != "namespace"@, "volatile"@ != "name"@, "volatile"@ != "label"@,
        "volatile"@ != "module"@, "volatile"@ != "doc"@, "volatile"@ != "presets"@, "volatile"@ != "next"@,
        "volatile"@ != "filename"@, "volatile"@ != "state_argument"@, "volatile"@ != "arguments"@,
        "volatile"@ != "cache"@,
        "definition"@ != "realm"@, "definition"@ != "namespace"@, "definition"@ != "name"@,
        "definition"@ != "label"@, "definition"@ != "module"@, "definition"@ != "doc"@,
        "definition"@ != "presets"@, "definition"@ != "next"@, "definition"@ != "filename"@,
        "definition"@ != "state_argument"@, "definition"@ != "arguments"@, "definition"@ != "cache"@,
        "definition"@ != "volatile"@,
        "parameters"@ != "name"@, "label"@ != "action"@, "description"@ != "action"@, "description"@ != "label"@,
        "head_parameters"@ != "command"@, "Alias"@ != "Registered"@,
{
    reveal_strlit("realm");
    reveal_strlit("namespace");
    reveal_strlit("name");
    reveal_strlit("label");
    reveal_strlit("module");
    reveal_strlit("doc");
    reveal_strlit("presets");
    reveal_strlit("next");
    reveal_strlit("filename");
    reveal_strlit("state_argument");
    reveal_strlit("arguments");
    reveal_strlit("cache");
    reveal_strlit("volatile");
    reveal_strlit("definition");
    reveal_strlit("parameters");
    reveal_strlit("action");
    reveal_strlit("description");
    reveal_strlit("head_parameters");
    reveal_strlit("command");
    reveal_strlit("Alias");
    reveal_strlit("Registered");
    assert("realm"@.len() == 5 && "namespace"@.len() == 9 && "name"@.len() == 4 && "label"@.len() == 5);
    assert("module"@.len() == 6 && "doc"@.len() == 3 && "presets"@.len() == 7 && "next"@.len() == 4);
    assert("filename"@.len() == 8 && "state_argument"@.len() == 14 && "arguments"@.len() == 9);
    assert("cache"@.len() == 5 && "volatile"@.len() == 8 && "definition"@.len() == 10);
    assert("parameters"@.len() == 10 && "action"@.len() == 6 && "description"@.len() == 11);
    assert("head_parameters"@.len() == 15 && "command"@.len() == 7 && "Alias"@.len() == 5 && "Registered"@.len() == 10);
    assert("label"@[0] != "realm"@[0] && "cache"@[0] != "realm"@[0] && "cache"@[0] != "label"@[0]);
    assert("arguments"@[0] != "namespace"@[0]);
    assert("next"@[1] != "name"@[1]);
    assert("volatile"@[0] != "filename"@[0]);
}

/// Whether metadata is written as a document that reads back: each of its arguments is.
pub open spec fn metadata_writable(m: CommandMetadata) -> bool {
    &&& m.state_argument matches Some(a) ==> argument_writable(a)
    &&& forall|i: int| 0 <= i < m.arguments@.len() ==> argument_writable(#[trigger] m.arguments@[i])
}

/// A written action preset is well formed and reads back as itself.
proof fn lemma_action_preset_round_trip(p: CommandPreset)
    ensures
        action_preset_ok(spec_write_action_preset(p)),
        reads_action_preset(spec_write_action_preset(p), p),
{
    lemma_metadata_keys_differ();
    let ms = spec_write_action_preset(p)->Object_0;
    lemma_lookup_at(ms, 0);
    lemma_lookup_at(ms, 1);
    lemma_lookup_at(ms, 2);
    let am = ms[0].1->Object_0;
    lemma_lookup_at(am, 0);
    lemma_lookup_at(am, 1);
}

/// A written definition is well formed and reads back as itself.
proof fn lemma_definition_round_trip(d: CommandDefinition)
    ensures
        definition_ok(spec_write_definition(d)),
        reads_definition(spec_write_definition(d), d),
{
    lemma_metadata_keys_differ();
    reveal_strlit("Registered");
    match d {
        CommandDefinition::Alias { command, head_parameters } => {
            let c = spec_write_definition(d)->Object_0[0].1;
            let cm = c->Object_0;
            lemma_lookup_at(cm, 0);
            lemma_lookup_at(cm, 1);
            let km = cm[0].1->Object_0;
            lemma_lookup_at(km, 0);
            lemma_lookup_at(km, 1);
            lemma_lookup_at(km, 2);
            let hp = head_parameters@.map_values(|p: CommandParameterValue| spec_write_param(p.deep()));
            assert forall|i: int| 0 <= i < hp.len() implies (#[trigger] head_parameters@[i]).deep() == spec_read_param(hp[i]) by {
                law_param_round_trip(head_parameters@[i].deep());
            }
        },
        CommandDefinition::Registered => {},
    }
}

/// The members of written metadata, over abstract values: each optional field is appended
/// when its condition holds.
pub open spec fn metadata_members(
    realm: (bool, JsonView), namespace: (bool, JsonView), name: JsonView, label: JsonView,
    module: (bool, JsonView), doc: (bool, JsonView), presets: (bool, JsonView), next: (bool, JsonView),
    filename: (bool, JsonView), state: (bool, JsonView), arguments: (bool, JsonView), cache: JsonView,
    volatile: JsonView, definition: JsonView,
) -> Seq<(Seq<char>, JsonView)> {
    let m0 = push_if(Seq::empty(), realm.0, "realm"@, realm.1);
    let m1 = push_if(m0, namespace.0, "namespace"@, namespace.1);
    let m2 = m1.push(("name"@, name)).push(("label"@, label));
    let m3 = push_if(m2, module.0, "module"@, module.1);
    let m4 = push_if(m3, doc.0, "doc"@, doc.1);
    let m5 = push_if(m4, presets.0, "presets"@, presets.1);
    let m6 = push_if(m5, next.0, "next"@, next.1);
    let m7 = push_if(m6, filename.0, "filename"@, filename.1);
    let m8 = push_if(m7, state.0, "state_argument"@, state.1);
    let m9 = push_if(m8, arguments.0, "arguments"@, arguments.1);
    m9.push(("cache"@, cache)).push(("volatile"@, volatile)).push(("definition"@, definition))
}

/// The value of an optional field: there when its condition holds.
pub open spec fn when(f: (bool, JsonView)) -> Option<JsonView> {
    if f.0 {
        Some(f.1)
    } else {
        None
    }
}

/// Where each field is found among the members of written metadata.
#[verifier::spinoff_prover]
#[verifier::rlimit(60)]
proof fn lemma_metadata_members_lookup(
    realm: (bool, JsonView), namespace: (bool, JsonView), name: JsonView, label: JsonView,
    module: (bool, JsonView), doc: (bool, JsonView), presets: (bool, JsonView), next: (bool, JsonView),
    filename: (bool, JsonView), state: (bool, JsonView), arguments: (bool, JsonView), cache: JsonView,
    volatile: JsonView, definition: JsonView,
)
    ensures
        ({
            let ms = metadata_members(realm, namespace, name, label, module, doc, presets, next, filename,
                state, arguments, cache, volatile, definition);
            &&& crate::json::member_lookup(ms, "realm"@) == when(realm)
            &&& crate::json::member_lookup(ms, "namespace"@) == when(namespace)
            &&& crate::json::member_lookup(ms, "name"@) == Some(name)
            &&& crate::json::member_lookup(ms, "label"@) == Some(label)
            &&& crate::json::member_lookup(ms, "module"@) == when(module)
            &&& crate::json::member_lookup(ms, "doc"@) == when(doc)
            &&& crate::json::member_lookup(ms, "presets"@) == when(presets)
            &&& crate::json::member_lookup(ms, "next"@) == when(next)
            &&& crate::json::member_lookup(ms, "filename"@) == when(filename)
            &&& crate::json::member_lookup(ms, "state_argument"@) == when(state)
            &&& crate::json::member_lookup(ms, "arguments"@) == when(arguments)
            &&& crate::json::member_lookup(ms, "cache"@) == Some(cache)
            &&& crate::json::member_lookup(ms, "volatile"@) == Some(volatile)
            &&& crate::json::member_lookup(ms, "definition"@) == Some(definition)
        }),
{
    lemma_metadata_keys_differ();
    let e: Seq<(Seq<char>, JsonView)> = Seq::empty();
    let m0 = push_if(e, realm.0, "realm"@, realm.1);
    let m1 = push_if(m0, namespace.0, "namespace"@, namespace.1);
    let m1a = m1.push(("name"@, name));
    let m2 = m1a.push(("label"@, label));
    let m3 = push_if(m2, module.0, "module"@, module.1);
    let m4 = push_if(m3, doc.0, "doc"@, doc.1);
    let m5 = push_if(m4, presets.0, "presets"@, presets.1);
    let m6 = push_if(m5, next.0, "next"@, next.1);
    let m7 = push_if(m6, filename.0, "filename"@, filename.1);
    let m8 = push_if(m7, state.0, "state_argument"@, state.1);
    let m9 = push_if(m8, arguments.0, "arguments"@, arguments.1);
    let m9a = m9.push(("cache"@, cache));
    let m10 = m9a.push(("volatile"@, volatile));
    lemma_lookup_push_if(e, realm.0, "realm"@, realm.1);
    lemma_lookup_push_if(m0, namespace.0, "namespace"@, namespace.1);
    lemma_lookup_push(m1, "name"@, name);
    lemma_lookup_push(m1a, "label"@, label);
    lemma_lookup_push_if(m2, module.0, "module"@, module.1);
    lemma_lookup_push_if(m3, doc.0, "doc"@, doc.1);
    lemma_lookup_push_if(m4, presets.0, "presets"@, presets.1);
    lemma_lookup_push_if(m5, next.0, "next"@, next.1);
    lemma_lookup_push_if(m6, filename.0, "filename"@, filename.1);
    lemma_lookup_push_if(m7, state.0, "state_argument"@, state.1);
    lemma_lookup_push_if(m8, arguments.0, "arguments"@, arguments.1);
    lemma_lookup_push(m9, "cache"@, cache);
    lemma_lookup_push(m9a, "volatile"@, volatile);
    lemma_lookup_push(m10, "definition"@, definition);
}

/// Where each field of written metadata is found.
#[verifier::spinoff_prover]
proof fn lemma_metadata_lookups(m: CommandMetadata)
    ensures
        ({
            let v = spec_write_metadata(m);
            &&& v is Object
            &&& lookup(v, "realm"@) == if m.realm@.len() > 0 { Some(JsonView::Str(m.realm@)) } else { None }
            &&& lookup(v, "namespace"@) == if m.namespace@.len() > 0 { Some(JsonView::Str(m.namespace@)) } else { None }
            &&& lookup(v, "name"@) == Some(JsonView::Str(m.name@))
            &&& lookup(v, "label"@) == Some(JsonView::Str(m.label@))
            &&& lookup(v, "module"@) == if m.module@.len() > 0 { Some(JsonView::Str(m.module@)) } else { None }
            &&& lookup(v, "doc"@) == if m.doc@.len() > 0 { Some(JsonView::Str(m.doc@)) } else { None }
            &&& lookup(v, "presets"@) == if m.presets@.len() > 0 {
                Some(JsonView::Array(m.presets@.map_values(|p: CommandPreset| spec_write_action_preset(p))))
            } else {
                None
            }
            &&& lookup(v, "next"@) == if m.next@.len() > 0 {
                Some(JsonView::Array(m.next@.map_values(|p: CommandPreset| spec_write_action_preset(p))))
            } else {
                None
            }
            &&& lookup(v, "filename"@) == if m.filename@.len() > 0 { Some(JsonView::Str(m.filename@)) } else { None }
            &&& lookup(v, "state_argument"@) == match m.state_argument {
                Some(a) => Some(spec_write_argument(a)),
                None => None,
            }
            &&& lookup(v, "arguments"@) == if m.arguments@.len() > 0 {
                Some(JsonView::Array(m.arguments@.map_values(|a: ArgumentInfo| spec_write_argument(a))))
            } else {
                None
            }
            &&& lookup(v, "cache"@) == Some(JsonView::Bool(m.cache))
            &&& lookup(v, "volatile"@) == Some(JsonView::Bool(m.volatile))
            &&& lookup(v, "definition"@) == Some(spec_write_definition(m.definition))
        }),
{
    let realm = (m.realm@.len() > 0, JsonView::Str(m.realm@));
    let namespace = (m.namespace@.len() > 0, JsonView::Str(m.namespace@));
    let module = (m.module@.len() > 0, JsonView::Str(m.module@));
    let doc = (m.doc@.len() > 0, JsonView::Str(m.doc@));
    let presets = (m.presets@.len() > 0, JsonView::Array(m.presets@.map_values(|p: CommandPreset| spec_write_action_preset(p))));
    let next = (m.next@.len() > 0, JsonView::Array(m.next@.map_values(|p: CommandPreset| spec_write_action_preset(p))));
    let filename = (m.filename@.len() > 0, JsonView::Str(m.filename@));
    let state = (m.state_argument is Some, match m.state_argument {
        Some(a) => spec_write_argument(a),
        None => JsonView::Null,
    });
    let arguments = (m.arguments@.len() > 0, JsonView::Array(m.arguments@.map_values(|a: ArgumentInfo| spec_write_argument(a))));
    let ms = metadata_members(realm, namespace, JsonView::Str(m.name@), JsonView::Str(m.label@), module, doc,
        presets, next, filename, state, arguments, JsonView::Bool(m.cache), JsonView::Bool(m.volatile),
        spec_write_definition(m.definition));
    lemma_metadata_members_lookup(realm, namespace, JsonView::Str(m.name@), JsonView::Str(m.label@), module, doc,
        presets, next, filename, state, arguments, JsonView::Bool(m.cache), JsonView::Bool(m.volatile),
        spec_write_definition(m.definition));
    assert(spec_write_metadata(m) == JsonView::Object(ms));
}

/// Written command metadata is well formed and reads back as itself, when its arguments are
/// writable.
#[verifier::spinoff_prover]
pub proof fn law_metadata_round_trip(m: CommandMetadata)
    requires
        metadata_writable(m),
    ensures
        metadata_ok(spec_write_metadata(m)),
        reads_metadata(spec_write_metadata(m), m),
{
    lemma_metadata_lookups(m);
    let empty = Seq::<char>::empty();
    assert(m.realm@.len() == 0 ==> m.realm@ =~= empty);
    assert(m.namespace@.len() == 0 ==> m.namespace@ =~= empty);
    assert(m.module@.len() == 0 ==> m.module@ =~= empty);
    assert(m.doc@.len() == 0 ==> m.doc@ =~= empty);
    assert(m.filename@.len() == 0 ==> m.filename@ =~= empty);
    let pv = m.presets@.map_values(|p: CommandPreset| spec_write_action_preset(p));
    let nv = m.next@.map_values(|p: CommandPreset| spec_write_action_preset(p));
    let av = m.arguments@.map_values(|a: ArgumentInfo| spec_write_argument(a));
    assert forall|i: int| 0 <= i < pv.len() implies action_preset_ok(#[trigger] pv[i])
        && reads_action_preset(pv[i], m.presets@[i]) by {
        lemma_action_preset_round_trip(m.presets@[i]);
    }
    assert forall|i: int| 0 <= i < nv.len() implies action_preset_ok(#[trigger] nv[i])
        && reads_action_preset(nv[i], m.next@[i]) by {
        lemma_action_preset_round_trip(m.next@[i]);
    }
    match m.state_argument {
        Some(a) => {
            law_argument_round_trip(a);
        },
        None => {},
    }
    assert forall|i: int| 0 <= i < av.len() implies argument_ok(#[trigger] av[i])
        && reads_argument(av[i], m.arguments@[i]) by {
        law_argument_round_trip(m.arguments@[i]);
    }
    lemma_definition_round_trip(m.definition);
}

} // verus!
