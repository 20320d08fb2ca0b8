//! What a command receives when it runs: its resolved parameters, by position, and the
//! conversions from a parameter to the value a command asks for.
use vstd::prelude::*;
use crate::error::{Error, ErrorType, Position};
use crate::json::{JsonValue, JsonView};
use crate::text::{owned, push_str, decimal_string};
use crate::command_metadata::CommandKey;

verus! {

/// A parameter of an action after planning: a value (from a default, from the query, or from an
/// override), a link to a query (held by its encoded text), a list for a `multiple` argument,
/// an injected argument, a placeholder still to be filled, or nothing.
#[derive(Debug)]
pub enum ParameterValue {
    DefaultValue(String, JsonValue),
    ParameterValue(String, JsonValue, Position),
    OverrideValue(String, JsonValue),
    DefaultLink(String, String),
    ParameterLink(String, String, Position),
    OverrideLink(String, String),
    EnumLink(String, String, Position),
    MultipleParameters(Vec<ParameterValue>),
    Injected(String),
    Placeholder(String),
    Nothing,
}

impl ParameterValue {
    /// The value this parameter holds, when it is a value.
    pub open spec fn spec_value(self) -> Option<JsonView> {
        match self {
            ParameterValue::DefaultValue(_, v) => Some(v.deep()),
            ParameterValue::ParameterValue(_, v, _) => Some(v.deep()),
            ParameterValue::OverrideValue(_, v) => Some(v.deep()),
            _ => None,
        }
    }

    /// The JSON value this parameter holds, when it is a value.
    pub open spec fn spec_json(self) -> Option<JsonValue> {
        match self {
            ParameterValue::DefaultValue(_, v) => Some(v),
            ParameterValue::ParameterValue(_, v, _) => Some(v),
            ParameterValue::OverrideValue(_, v) => Some(v),
            _ => None,
        }
    }

    /// The query this parameter links to, when it is a link.
    pub open spec fn spec_link(self) -> Option<Seq<char>> {
        match self {
            ParameterValue::DefaultLink(_, q) => Some(q@),
            ParameterValue::ParameterLink(_, q, _) => Some(q@),
            ParameterValue::OverrideLink(_, q) => Some(q@),
            ParameterValue::EnumLink(_, q, _) => Some(q@),
            _ => None,
        }
    }

    /// Where this parameter was written in the query; unknown for the others.
    pub open spec fn spec_position(self) -> Position {
        match self {
            ParameterValue::ParameterValue(_, _, p) => p,
            ParameterValue::ParameterLink(_, _, p) => p,
            ParameterValue::EnumLink(_, _, p) => p,
            _ => Position::unknown_spec(),
        }
    }

    /// The argument name this parameter was resolved for.
    pub open spec fn spec_name(self) -> Option<Seq<char>> {
        match self {
            ParameterValue::DefaultValue(n, _) => Some(n@),
            ParameterValue::ParameterValue(n, _, _) => Some(n@),
            ParameterValue::OverrideValue(n, _) => Some(n@),
            ParameterValue::DefaultLink(n, _) => Some(n@),
            ParameterValue::ParameterLink(n, _, _) => Some(n@),
            ParameterValue::OverrideLink(n, _) => Some(n@),
            ParameterValue::EnumLink(n, _, _) => Some(n@),
            ParameterValue::Injected(n) => Some(n@),
            ParameterValue::Placeholder(n) => Some(n@),
            _ => None,
        }
    }

    pub fn value(&self) -> (r: Option<&JsonValue>)
        ensures
            match self.spec_value() {
                Some(v) => r matches Some(x) && x.deep() == v,
                None => r is None,
            },
            self.spec_json() matches Some(j) ==> (r matches Some(x) && *x == j),
    {
        match self {
            ParameterValue::DefaultValue(_, v) => Some(v),
            ParameterValue::ParameterValue(_, v, _) => Some(v),
            ParameterValue::OverrideValue(_, v) => Some(v),
            _ => None,
        }
    }

    pub fn link(&self) -> (r: Option<&String>)
        ensures
            match self.spec_link() {
                Some(q) => r matches Some(x) && x@ == q,
                None => r is None,
            },
    {
        match self {
            ParameterValue::DefaultLink(_, q) => Some(q),
            ParameterValue::ParameterLink(_, q, _) => Some(q),
            ParameterValue::OverrideLink(_, q) => Some(q),
            ParameterValue::EnumLink(_, q, _) => Some(q),
            _ => None,
        }
    }

    pub fn is_injected(&self) -> (r: bool)
        ensures
            r == (self is Injected),
    {
        match self {
            ParameterValue::Injected(_) => true,
            _ => false,
        }
    }

    pub fn position(&self) -> (r: Position)
        ensures
            r == self.spec_position(),
    {
        match self {
            ParameterValue::ParameterValue(_, _, p) => *p,
            ParameterValue::ParameterLink(_, _, p) => *p,
            ParameterValue::EnumLink(_, _, p) => *p,
            _ => Position::unknown(),
        }
    }

    pub fn name(&self) -> (r: Option<String>)
        ensures
            match self.spec_name() {
                Some(n) => r matches Some(x) && x@ == n,
                None => r is None,
            },
    {
        match self {
            ParameterValue::DefaultValue(n, _) => Some(n.clone()),
            ParameterValue::ParameterValue(n, _, _) => Some(n.clone()),
            ParameterValue::OverrideValue(n, _) => Some(n.clone()),
            ParameterValue::DefaultLink(n, _) => Some(n.clone()),
            ParameterValue::ParameterLink(n, _, _) => Some(n.clone()),
            ParameterValue::OverrideLink(n, _) => Some(n.clone()),
            ParameterValue::EnumLink(n, _, _) => Some(n.clone()),
            ParameterValue::Injected(n) => Some(n.clone()),
            ParameterValue::Placeholder(n) => Some(n.clone()),
            _ => None,
        }
    }
}

/// The parameters of one action, by position.
#[derive(Debug)]
pub struct ResolvedParameterValues(pub Vec<ParameterValue>);

/// The arguments a command is executed with: the resolved parameters, values already computed
/// for some positions (a resolved link), and where the action stands in the query.
#[derive(Debug)]
pub struct CommandArguments<V> {
    pub parameters: ResolvedParameterValues,
    pub values: Vec<Option<V>>,
    pub action_position: Position,
}

/// The integer a JSON value holds, as `serde_json::Value::as_i64` reads it.
pub open spec fn spec_as_i64(v: JsonView) -> Option<int> {
    match v {
        JsonView::Int(i) => Some(i),
        _ => None,
    }
}

/// `Argument <i> '<name>' is declared as multiple, but was not resolved as a parameter list`.
pub open spec fn not_a_list_message(i: nat, name: Seq<char>) -> Seq<char> {
    "Argument "@ + crate::text::decimal(i) + " '"@ + name
        + "' is declared as multiple, but was not resolved as a parameter list"@
}

/// Converting a parameter to the value a command asks for.
pub trait FromParameterValue<T> {
    fn from_parameter_value(param: &ParameterValue) -> Result<T, Error>;
}

/// Building a command's value from a JSON value: implemented by each value type.
pub trait ValueFromJson: Sized {
    fn try_from_json_value(v: &JsonValue) -> Result<Self, Error>;
}

/// Building a command's argument from a computed value: implemented by the argument types of
/// each value type.
pub trait TryFromValue<V>: Sized {
    fn try_from_value(v: V) -> Result<Self, Error>;
}

/// Every value converts to its own type, unchanged.
impl<T> TryFromValue<T> for T {
    fn try_from_value(v: T) -> (r: Result<T, Error>)
        ensures
            r == Ok::<T, Error>(v),
    {
        Ok(v)
    }
}

/// Whether the conversion of a value parameter `p` to `T` may give `r`.
pub open spec fn parameter_converts_to<T: FromParameterValue<T>>(p: &ParameterValue, r: Result<T, Error>) -> bool {
    call_ensures(T::from_parameter_value, (p,), r)
}

/// Whether the elements of a list may convert, in order, to `xs`: each is a value, and the
/// conversion of each may give the matching item.
pub open spec fn elements_convert_to<T: FromParameterValue<T>>(es: Seq<ParameterValue>, xs: Seq<T>) -> bool {
    &&& xs.len() == es.len()
    &&& forall|k: int| 0 <= k < es.len() ==> (#[trigger] es[k]).spec_value() is Some
        && parameter_converts_to::<T>(&es[k], Ok::<T, Error>(xs[k]))
}

/// Whether a list element fails with `e`: a value whose conversion may give `e`; a link, as
/// an unresolved link at the element's position; anything else, as what cannot stand in a
/// list.
pub open spec fn element_fails_with<T: FromParameterValue<T>>(el: ParameterValue, e: Error) -> bool {
    if el.spec_value() is Some {
        parameter_converts_to::<T>(&el, Err::<T, Error>(e))
    } else if el.spec_link() is Some {
        e.error_type == ErrorType::General && e.position == el.spec_position()
    } else {
        e.error_type == ErrorType::UnexpectedError
    }
}

/// Whether converting the elements in turn may stop at `e`: the elements before some element
/// converted, and that element failed with `e`.
pub open spec fn elements_fail_with<T: FromParameterValue<T>>(es: Seq<ParameterValue>, e: Error) -> bool {
    exists|k: int, xs: Seq<T>| 0 <= k < es.len()
        && #[trigger] elements_convert_to::<T>(es.take(k), xs)
        && #[trigger] element_fails_with::<T>(es[k], e)
}

impl<V> CommandArguments<V> {
    /// Arguments holding `parameters`, with no computed values and an unknown position.
    pub fn new(parameters: ResolvedParameterValues) -> (r: Self)
        ensures
            r.parameters == parameters,
            r.values@.len() == 0,
            r.action_position == Position::unknown_spec(),
    {
        CommandArguments { parameters, action_position: Position::unknown(), values: Vec::new() }
    }

    /// The number of parameters.
    pub fn len(&self) -> (r: usize)
        ensures
            r == self.parameters.0@.len(),
    {
        self.parameters.0.len()
    }

    /// Records the computed value of position `i`, padding with empty positions up to it.
    pub fn set_value(&mut self, i: usize, value: V)
        ensures
            final(self).parameters == old(self).parameters,
            final(self).action_position == old(self).action_position,
            final(self).values@.len() == if i < old(self).values@.len() {
                old(self).values@.len() as int
            } else {
                i + 1
            },
            final(self).values@[i as int] == Some(value),
            forall|j: int|
                0 <= j < final(self).values@.len() && j != i ==> #[trigger] final(self).values@[j]
                    == if j < old(self).values@.len() {
                    old(self).values@[j]
                } else {
                    None
                },
    {
        while self.values.len() <= i
            invariant
                self.parameters == old(self).parameters,
                self.action_position == old(self).action_position,
                old(self).values@.len() <= self.values@.len(),
                self.values@.len() <= if i < old(self).values@.len() {
                    old(self).values@.len() as int
                } else {
                    i + 1
                },
                forall|j: int|
                    0 <= j < self.values@.len() ==> #[trigger] self.values@[j] == if j < old(
                        self,
                    ).values@.len() {
                        old(self).values@[j]
                    } else {
                        None
                    },
            decreases i + 1 - self.values.len(),
        {
            self.values.push(None);
        }
        self.values.set(i, Some(value));
    }

    /// The parameter at position `i`; a missing argument is an error naming it.
    pub fn get_parameter(&self, i: usize, name: &str) -> (r: Result<&ParameterValue, Error>)
        ensures
            i < self.parameters.0@.len() ==> r == Ok::<&ParameterValue, Error>(&self.parameters.0@[i as int]),
            i >= self.parameters.0@.len() ==> (r matches Err(e) && e.error_type == ErrorType::ArgumentMissing
                && e.position == self.action_position),
    {
        if i < self.parameters.0.len() {
            Ok(&self.parameters.0[i])
        } else {
            let mut m = owned("Missing argument ");
            let d = decimal_string(i);
            push_str(&mut m, d.as_str());
            push_str(&mut m, ": ");
            push_str(&mut m, name);
            Err(Error::new(ErrorType::ArgumentMissing, m).with_position(&self.action_position))
        }
    }

    /// The argument name of the parameter at position `i`.
    pub fn get_name(&self, i: usize) -> (r: Result<Option<String>, Error>)
        ensures
            i < self.parameters.0@.len() ==> (r matches Ok(n) && match self.parameters.0@[i as int].spec_name() {
                Some(s) => n matches Some(x) && x@ == s,
                None => n is None,
            }),
            i >= self.parameters.0@.len() ==> (r matches Err(e) && e.error_type == ErrorType::ArgumentMissing),
    {
        let p = self.get_parameter(i, "<unknown>")?;
        Ok(p.name())
    }

    /// Where parameter `i` was written, or where the action is when that is unknown.
    pub fn parameter_position(&self, i: usize) -> (r: Position)
        ensures
            r == if i < self.parameters.0@.len() && !self.parameters.0@[i as int].spec_position().spec_is_unknown() {
                self.parameters.0@[i as int].spec_position()
            } else {
                self.action_position
            },
    {
        if i < self.parameters.0.len() {
            let pos = self.parameters.0[i].position();
            if pos.is_unknown() {
                self.action_position
            } else {
                pos
            }
        } else {
            self.action_position
        }
    }

    /// The elements of the `multiple` argument at position `i`, each converted to `T`. An empty
    /// list gives an empty vector; a parameter that is not a list is an error naming the
    /// argument.
    pub fn get_multiple<T: FromParameterValue<T>>(&self, i: usize, name: &str) -> (r: Result<Vec<T>, Error>)
        ensures
            i >= self.parameters.0@.len() ==> (r matches Err(e) && e.error_type == ErrorType::ArgumentMissing),
            i < self.parameters.0@.len() ==> match self.parameters.0@[i as int] {
                ParameterValue::MultipleParameters(elements) => {
                    &&& elements@.len() == 0 ==> (r matches Ok(v) && v@.len() == 0)
                    &&& r matches Ok(v) ==> elements_convert_to::<T>(elements@, v@)
                    &&& r matches Err(e) ==> elements_fail_with::<T>(elements@, e)
                },
                _ => r matches Err(e) && e.error_type == ErrorType::General && e.message@ == not_a_list_message(i as nat, name@)
                    && e.position == self.action_position,
            },
    {
        let p = self.get_parameter(i, name)?;
        match p {
            ParameterValue::MultipleParameters(elements) => {
                let mut values: Vec<T> = Vec::new();
                let mut k: usize = 0;
                while k < elements.len()
                    invariant
                        0 <= k <= elements.len(),
                        i < self.parameters.0@.len(),
                        self.parameters.0@[i as int] == ParameterValue::MultipleParameters(*elements),
                        elements_convert_to::<T>(elements@.take(k as int), values@),
                    decreases elements.len() - k,
                {
                    match Self::convert_multiple_element::<T>(&elements[k], i, name) {
                        Ok(x) => {
                            let ghost before = values@;
                            values.push(x);
                            proof {
                                assert forall|j: int| 0 <= j < k + 1 implies (#[trigger] elements@.take(k + 1)[j]).spec_value() is Some
                                    && parameter_converts_to::<T>(&elements@.take(k + 1)[j], Ok::<T, Error>(values@[j])) by {
                                    if j < k {
                                        assert(elements@.take(k + 1)[j] == elements@.take(k as int)[j]);
                                        assert(values@[j] == before[j]);
                                    }
                                }
                            }
                        },
                        Err(e) => {
                            proof {
                                assert(elements_convert_to::<T>(elements@.take(k as int), values@));
                                assert(element_fails_with::<T>(elements@[k as int], e));
                                assert(elements_fail_with::<T>(elements@, e));
                            }
                            return Err(e);
                        },
                    }
                    k = k + 1;
                }
                proof {
                    assert(elements@.take(k as int) =~= elements@);
                }
                Ok(values)
            },
            _ => {
                let mut m = owned("Argument ");
                let d = decimal_string(i);
                push_str(&mut m, d.as_str());
                push_str(&mut m, " '");
                push_str(&mut m, name);
                push_str(&mut m, "' is declared as multiple, but was not resolved as a parameter list");
                proof {
                    reveal_strlit("Argument ");
                    reveal_strlit(" '");
                    reveal_strlit("' is declared as multiple, but was not resolved as a parameter list");
                    assert(m@ =~= not_a_list_message(i as nat, name@));
                }
                Err(Error::general_error(m).with_position(&self.action_position))
            },
        }
    }

    /// Converts one element of a `multiple` argument: a value converts, a link is an unresolved
    /// link (an error at the element's position), anything else cannot stand in a list.
    fn convert_multiple_element<T: FromParameterValue<T>>(element: &ParameterValue, i: usize, name: &str) -> (r: Result<T, Error>)
        ensures
            element.spec_value() is Some ==> parameter_converts_to::<T>(element, r),
            !(element.spec_value() is Some) ==> (r matches Err(e) && element_fails_with::<T>(*element, e)),
    {
        match element {
            ParameterValue::DefaultValue(_, _) | ParameterValue::ParameterValue(_, _, _)
            | ParameterValue::OverrideValue(_, _) => {
                let convert = T::from_parameter_value;
                convert(element)
            },
            ParameterValue::DefaultLink(_, query) | ParameterValue::ParameterLink(_, query, _)
            | ParameterValue::OverrideLink(_, query) | ParameterValue::EnumLink(_, query, _) => {
                let mut m = owned("Unresolved link parameter in multiple argument ");
                let d = decimal_string(i);
                push_str(&mut m, d.as_str());
                push_str(&mut m, " '");
                push_str(&mut m, name);
                push_str(&mut m, "': ");
                push_str(&mut m, query.as_str());
                Err(Error::general_error(m).with_position(&element.position()))
            },
            ParameterValue::MultipleParameters(_) => {
                let mut m = owned("Nested multiple parameters in argument ");
                let d = decimal_string(i);
                push_str(&mut m, d.as_str());
                push_str(&mut m, " '");
                push_str(&mut m, name);
                push_str(&mut m, "'");
                Err(Error::unexpected_error(m))
            },
            ParameterValue::Injected(injected_name) => {
                let mut m = owned("Injected parameter '");
                push_str(&mut m, injected_name.as_str());
                push_str(&mut m, "' inside multiple argument ");
                let d = decimal_string(i);
                push_str(&mut m, d.as_str());
                push_str(&mut m, " '");
                push_str(&mut m, name);
                push_str(&mut m, "'");
                Err(Error::unexpected_error(m))
            },
            ParameterValue::Placeholder(placeholder_name) => {
                let mut m = owned("Unresolved placeholder '");
                push_str(&mut m, placeholder_name.as_str());
                push_str(&mut m, "' inside multiple argument ");
                let d = decimal_string(i);
                push_str(&mut m, d.as_str());
                push_str(&mut m, " '");
                push_str(&mut m, name);
                push_str(&mut m, "'");
                Err(Error::unexpected_error(m))
            },
            ParameterValue::Nothing => {
                let mut m = owned("Unresolved parameter inside multiple argument ");
                let d = decimal_string(i);
                push_str(&mut m, d.as_str());
                push_str(&mut m, " '");
                push_str(&mut m, name);
                push_str(&mut m, "'");
                Err(Error::unexpected_error(m))
            },
        }
    }

    /// The argument at position `i` as a `T`: from its computed value when there is one, else
    /// from its parameter. An unresolved link or an injected parameter is an error.
    pub fn get<T: FromParameterValue<T> + TryFromValue<V>>(&self, i: usize, name: &str) -> (r: Result<T, Error>)
        where V: Clone,
        ensures
            i < self.values@.len() && self.values@[i as int] is Some ==> exists|c: V|
                cloned::<V>(self.values@[i as int]->0, c) && #[trigger] call_ensures(T::try_from_value, (c,), r),
            !(i < self.values@.len() && self.values@[i as int] is Some) ==> {
                &&& i >= self.parameters.0@.len() ==> (r matches Err(e) && e.error_type == ErrorType::ArgumentMissing)
                &&& i < self.parameters.0@.len() && (self.parameters.0@[i as int].spec_link() is Some
                    || self.parameters.0@[i as int] is Injected) ==> (r matches Err(e) && e.error_type
                    == ErrorType::General && e.position == self.action_position)
                &&& i < self.parameters.0@.len() && !(self.parameters.0@[i as int].spec_link() is Some)
                    && !(self.parameters.0@[i as int] is Injected) ==> parameter_converts_to::<T>(
                    &self.parameters.0@[i as int], r)
            },
    {
        if i < self.values.len() {
            match &self.values[i] {
                Some(v) => {
                    let copy = V::clone;
                    let c = copy(v);
                    let convert = T::try_from_value;
                    let r = convert(c);
                    proof {
                        assert(cloned::<V>(self.values@[i as int]->0, c));
                        assert(call_ensures(T::try_from_value, (c,), r));
                    }
                    return r;
                },
                None => {},
            }
        }
        let p = self.get_parameter(i, name)?;
        match p.link() {
            Some(link) => {
                let mut m = owned("Unresolved link parameter ");
                let d = decimal_string(i);
                push_str(&mut m, d.as_str());
                push_str(&mut m, ": ");
                push_str(&mut m, link.as_str());
                return Err(Error::general_error(m).with_position(&self.action_position));
            },
            None => {},
        }
        if p.is_injected() {
            return Err(
                Error::general_error(owned("Inconsistent parameter type - injected found, value expected"))
                    .with_position(&self.action_position),
            );
        }
        let convert = T::from_parameter_value;
        convert(p)
    }

    /// The argument at position `i` as a value: the computed value when there is one, else the
    /// parameter's value built by `V`. A parameter without a value is an error.
    pub fn get_value(&self, i: usize, name: &str) -> (r: Result<V, Error>)
        where V: Clone + ValueFromJson,
        ensures
            i < self.values@.len() && self.values@[i as int] is Some ==> (r matches Ok(x) && cloned::<V>(
                self.values@[i as int]->0, x)),
            !(i < self.values@.len() && self.values@[i as int] is Some) && i < self.parameters.0@.len()
                && self.parameters.0@[i as int].spec_json() is Some ==> converts_to::<V>(
                &self.parameters.0@[i as int].spec_json()->0, r),
            !(i < self.values@.len() && self.values@[i as int] is Some) ==> {
                &&& i >= self.parameters.0@.len() ==> (r matches Err(e) && e.error_type == ErrorType::ArgumentMissing)
                &&& i < self.parameters.0@.len() && !(self.parameters.0@[i as int].spec_value() is Some) ==> (r matches Err(e)
                    && e.error_type == ErrorType::General && e.position == self.action_position)
            },
    {
        if i < self.values.len() {
            match &self.values[i] {
                Some(v) => {
                    let copy = V::clone;
                    let c = copy(v);
                    proof {
                        assert(cloned::<V>(self.values@[i as int]->0, c));
                    }
                    return Ok(c);
                },
                None => {},
            }
        }
        let p = self.get_parameter(i, name)?;
        match p.value() {
            Some(v) => {
                let convert = V::try_from_json_value;
                convert(v)
            },
            None => {
                let mut m = match p {
                    ParameterValue::Placeholder(n) => {
                        let mut m = owned("Unresolved placeholder parameter ");
                        let d = decimal_string(i);
                        push_str(&mut m, d.as_str());
                        push_str(&mut m, ": ");
                        push_str(&mut m, n.as_str());
                        m
                    },
                    _ => {
                        let mut m = owned("Unresolved/unexpected parameter ");
                        let d = decimal_string(i);
                        push_str(&mut m, d.as_str());
                        m
                    },
                };
                Err(Error::general_error(m).with_position(&self.action_position))
            },
        }
    }

    /// Checks that parameter `i` is injected, as an argument taken from the context must be.
    pub fn check_injected(&self, i: usize, name: &str) -> (r: Result<(), Error>)
        ensures
            r is Ok <==> (i < self.parameters.0@.len() && self.parameters.0@[i as int] is Injected),
    {
        let p = self.get_parameter(i, name)?;
        if !p.is_injected() {
            return Err(Error::general_error(owned("Inconsistent parameter type - value found, injected expected")));
        }
        Ok(())
    }

    /// The injected argument `i`, built from the context; an error when parameter `i` is
    /// missing or is not injected.
    pub fn get_injected<T: InjectedFromContext<C>, C>(&self, i: usize, name: &str, context: C) -> (r: Result<T, Error>)
        ensures
            i >= self.parameters.0@.len() ==> (r matches Err(e) && e.error_type == ErrorType::ArgumentMissing),
            i < self.parameters.0@.len() && !(self.parameters.0@[i as int] is Injected) ==> (r matches Err(e)
                && e.error_type == ErrorType::General && e.message@
                == "Inconsistent parameter type - value found, injected expected"@),
            i < self.parameters.0@.len() && self.parameters.0@[i as int] is Injected ==> call_ensures(
                T::from_context, (name, context), r),
    {
        let p = self.get_parameter(i, name)?;
        if !p.is_injected() {
            return Err(Error::general_error(owned("Inconsistent parameter type - value found, injected expected")));
        }
        let build = T::from_context;
        build(name, context)
    }
}

/// The conversion error for a parameter that holds no value.
fn value_expected(kind: &str) -> (r: Error)
    ensures
        r.error_type == ErrorType::ConversionError,
{
    let mut m = owned("Parameter value expected, ");
    push_str(&mut m, kind);
    push_str(&mut m, " wanted");
    Error::conversion_error(m)
}

/// The conversion error for a value of the wrong kind, at the parameter's position.
fn kind_expected(kind: &str, param: &ParameterValue) -> (r: Error)
    ensures
        r.error_type == ErrorType::ConversionError,
        r.position == param.spec_position(),
{
    let mut m = owned(kind);
    push_str(&mut m, " parameter value expected");
    Error::conversion_error(m).with_position(&param.position())
}

impl FromParameterValue<String> for String {
    fn from_parameter_value(param: &ParameterValue) -> (r: Result<String, Error>)
        ensures
            match param.spec_value() {
                Some(JsonView::Str(s)) => r matches Ok(x) && x@ == s,
                Some(_) => r matches Err(e) && e.error_type == ErrorType::ConversionError
                    && e.position == param.spec_position(),
                None => r matches Err(e) && e.error_type == ErrorType::ConversionError,
            },
    {
        match param.value() {
            Some(p) => match p {
                JsonValue::Str(s) => Ok(s.clone()),
                _ => Err(kind_expected("String", param)),
            },
            None => Err(value_expected("String")),
        }
    }
}

impl FromParameterValue<bool> for bool {
    fn from_parameter_value(param: &ParameterValue) -> (r: Result<bool, Error>)
        ensures
            match param.spec_value() {
                Some(JsonView::Bool(b)) => r == Ok::<bool, Error>(b),
                Some(_) => r matches Err(e) && e.error_type == ErrorType::ConversionError
                    && e.position == param.spec_position(),
                None => r matches Err(e) && e.error_type == ErrorType::ConversionError,
            },
    {
        match param.value() {
            Some(p) => match p {
                JsonValue::Bool(b) => Ok(*b),
                _ => Err(kind_expected("bool", param)),
            },
            None => Err(value_expected("bool")),
        }
    }
}

impl FromParameterValue<i64> for i64 {
    fn from_parameter_value(param: &ParameterValue) -> (r: Result<i64, Error>)
        ensures
            match param.spec_value() {
                Some(JsonView::Int(i)) => r == Ok::<i64, Error>(i as i64),
                Some(_) => r matches Err(e) && e.error_type == ErrorType::ConversionError
                    && e.position == param.spec_position(),
                None => r matches Err(e) && e.error_type == ErrorType::ConversionError,
            },
    {
        match param.value() {
            Some(p) => match p {
                JsonValue::Int(x) => {
                    let x: i64 = *x;
                    Ok(x)
                },
                _ => Err(kind_expected("i64", param)),
            },
            None => Err(value_expected("i64")),
        }
    }
}

impl FromParameterValue<Option<i64>> for Option<i64> {
    fn from_parameter_value(param: &ParameterValue) -> (r: Result<Option<i64>, Error>)
        ensures
            match param.spec_value() {
                Some(JsonView::Null) => r == Ok::<Option<i64>, Error>(None),
                Some(JsonView::Int(i)) => r == Ok::<Option<i64>, Error>(Some(i as i64)),
                Some(_) => r matches Err(e) && e.error_type == ErrorType::ConversionError
                    && e.position == param.spec_position(),
                None => r matches Err(e) && e.error_type == ErrorType::ConversionError,
            },
    {
        match param.value() {
            Some(p) => match p {
                JsonValue::Null => Ok(None),
                JsonValue::Int(x) => {
                    let x: i64 = *x;
                    Ok(Some(x))
                },
                _ => Err(kind_expected("i64", param)),
            },
            None => Err(value_expected("i64")),
        }
    }
}

impl FromParameterValue<i32> for i32 {
    fn from_parameter_value(param: &ParameterValue) -> (r: Result<i32, Error>)
        ensures
            match param.spec_value() {
                Some(JsonView::Int(i)) => r == Ok::<i32, Error>((i as i64) as i32),
                Some(_) => r matches Err(e) && e.error_type == ErrorType::ConversionError
                    && e.position == param.spec_position(),
                None => r matches Err(e) && e.error_type == ErrorType::ConversionError,
            },
    {
        match param.value() {
            Some(p) => match p {
                JsonValue::Int(x) => {
                    let x: i64 = *x;
                    Ok(#[verifier::truncate] (x as i32))
                },
                _ => Err(kind_expected("i32", param)),
            },
            None => Err(value_expected("i32")),
        }
    }
}

impl FromParameterValue<Option<i32>> for Option<i32> {
    fn from_parameter_value(param: &ParameterValue) -> (r: Result<Option<i32>, Error>)
        ensures
            match param.spec_value() {
                Some(JsonView::Null) => r == Ok::<Option<i32>, Error>(None),
                Some(JsonView::Int(i)) => r == Ok::<Option<i32>, Error>(Some((i as i64) as i32)),
                Some(_) => r matches Err(e) && e.error_type == ErrorType::ConversionError
                    && e.position == param.spec_position(),
                None => r matches Err(e) && e.error_type == ErrorType::ConversionError,
            },
    {
        match param.value() {
            Some(p) => match p {
                JsonValue::Null => Ok(None),
                JsonValue::Int(x) => {
                    let x: i64 = *x;
                    Ok(Some(#[verifier::truncate] (x as i32)))
                },
                _ => Err(kind_expected("i32", param)),
            },
            None => Err(value_expected("i32")),
        }
    }
}

impl FromParameterValue<i16> for i16 {
    fn from_parameter_value(param: &ParameterValue) -> (r: Result<i16, Error>)
        ensures
            match param.spec_value() {
                Some(JsonView::Int(i)) => r == Ok::<i16, Error>((i as i64) as i16),
                Some(_) => r matches Err(e) && e.error_type == ErrorType::ConversionError
                    && e.position == param.spec_position(),
                None => r matches Err(e) && e.error_type == ErrorType::ConversionError,
            },
    {
        match param.value() {
            Some(p) => match p {
                JsonValue::Int(x) => {
                    let x: i64 = *x;
                    Ok(#[verifier::truncate] (x as i16))
                },
                _ => Err(kind_expected("i16", param)),
            },
            None => Err(value_expected("i16")),
        }
    }
}

impl FromParameterValue<Option<i16>> for Option<i16> {
    fn from_parameter_value(param: &ParameterValue) -> (r: Result<Option<i16>, Error>)
        ensures
            match param.spec_value() {
                Some(JsonView::Null) => r == Ok::<Option<i16>, Error>(None),
                Some(JsonView::Int(i)) => r == Ok::<Option<i16>, Error>(Some((i as i64) as i16)),
                Some(_) => r matches Err(e) && e.error_type == ErrorType::ConversionError
                    && e.position == param.spec_position(),
                None => r matches Err(e) && e.error_type == ErrorType::ConversionError,
            },
    {
        match param.value() {
            Some(p) => match p {
                JsonValue::Null => Ok(None),
                JsonValue::Int(x) => {
                    let x: i64 = *x;
                    Ok(Some(#[verifier::truncate] (x as i16)))
                },
                _ => Err(kind_expected("i16", param)),
            },
            None => Err(value_expected("i16")),
        }
    }
}

impl FromParameterValue<i8> for i8 {
    fn from_parameter_value(param: &ParameterValue) -> (r: Result<i8, Error>)
        ensures
            match param.spec_value() {
                Some(JsonView::Int(i)) => r == Ok::<i8, Error>((i as i64) as i8),
                Some(_) => r matches Err(e) && e.error_type == ErrorType::ConversionError
                    && e.position == param.spec_position(),
                None => r matches Err(e) && e.error_type == ErrorType::ConversionError,
            },
    {
        match param.value() {
            Some(p) => match p {
                JsonValue::Int(x) => {
                    let x: i64 = *x;
                    Ok(#[verifier::truncate] (x as i8))
                },
                _ => Err(kind_expected("i8", param)),
            },
            None => Err(value_expected("i8")),
        }
    }
}

impl FromParameterValue<Option<i8>> for Option<i8> {
    fn from_parameter_value(param: &ParameterValue) -> (r: Result<Option<i8>, Error>)
        ensures
            match param.spec_value() {
                Some(JsonView::Null) => r == Ok::<Option<i8>, Error>(None),
                Some(JsonView::Int(i)) => r == Ok::<Option<i8>, Error>(Some((i as i64) as i8)),
                Some(_) => r matches Err(e) && e.error_type == ErrorType::ConversionError
                    && e.position == param.spec_position(),
                None => r matches Err(e) && e.error_type == ErrorType::ConversionError,
            },
    {
        match param.value() {
            Some(p) => match p {
                JsonValue::Null => Ok(None),
                JsonValue::Int(x) => {
                    let x: i64 = *x;
                    Ok(Some(#[verifier::truncate] (x as i8)))
                },
                _ => Err(kind_expected("i8", param)),
            },
            None => Err(value_expected("i8")),
        }
    }
}

impl FromParameterValue<isize> for isize {
    fn from_parameter_value(param: &ParameterValue) -> (r: Result<isize, Error>)
        ensures
            match param.spec_value() {
                Some(JsonView::Int(i)) => r == Ok::<isize, Error>((i as i64) as isize),
                Some(_) => r matches Err(e) && e.error_type == ErrorType::ConversionError
                    && e.position == param.spec_position(),
                None => r matches Err(e) && e.error_type == ErrorType::ConversionError,
            },
    {
        match param.value() {
            Some(p) => match p {
                JsonValue::Int(x) => {
                    let x: i64 = *x;
                    Ok(#[verifier::truncate] (x as isize))
                },
                _ => Err(kind_expected("isize", param)),
            },
            None => Err(value_expected("isize")),
        }
    }
}

impl FromParameterValue<Option<isize>> for Option<isize> {
    fn from_parameter_value(param: &ParameterValue) -> (r: Result<Option<isize>, Error>)
        ensures
            match param.spec_value() {
                Some(JsonView::Null) => r == Ok::<Option<isize>, Error>(None),
                Some(JsonView::Int(i)) => r == Ok::<Option<isize>, Error>(Some((i as i64) as isize)),
                Some(_) => r matches Err(e) && e.error_type == ErrorType::ConversionError
                    && e.position == param.spec_position(),
                None => r matches Err(e) && e.error_type == ErrorType::ConversionError,
            },
    {
        match param.value() {
            Some(p) => match p {
                JsonValue::Null => Ok(None),
                JsonValue::Int(x) => {
                    let x: i64 = *x;
                    Ok(Some(#[verifier::truncate] (x as isize)))
                },
                _ => Err(kind_expected("isize", param)),
            },
            None => Err(value_expected("isize")),
        }
    }
}

impl FromParameterValue<u64> for u64 {
    fn from_parameter_value(param: &ParameterValue) -> (r: Result<u64, Error>)
        ensures
            match param.spec_value() {
                Some(JsonView::Int(i)) => r == Ok::<u64, Error>((i as i64) as u64),
                Some(_) => r matches Err(e) && e.error_type == ErrorType::ConversionError
                    && e.position == param.spec_position(),
                None => r matches Err(e) && e.error_type == ErrorType::ConversionError,
            },
    {
        match param.value() {
            Some(p) => match p {
                JsonValue::Int(x) => {
                    let x: i64 = *x;
                    Ok(#[verifier::truncate] (x as u64))
                },
                _ => Err(kind_expected("u64", param)),
            },
            None => Err(value_expected("u64")),
        }
    }
}

impl FromParameterValue<Option<u64>> for Option<u64> {
    fn from_parameter_value(param: &ParameterValue) -> (r: Result<Option<u64>, Error>)
        ensures
            match param.spec_value() {
                Some(JsonView::Null) => r == Ok::<Option<u64>, Error>(None),
                Some(JsonView::Int(i)) => r == Ok::<Option<u64>, Error>(Some((i as i64) as u64)),
                Some(_) => r matches Err(e) && e.error_type == ErrorType::ConversionError
                    && e.position == param.spec_position(),
                None => r matches Err(e) && e.error_type == ErrorType::ConversionError,
            },
    {
        match param.value() {
            Some(p) => match p {
                JsonValue::Null => Ok(None),
                JsonValue::Int(x) => {
                    let x: i64 = *x;
                    Ok(Some(#[verifier::truncate] (x as u64)))
                },
                _ => Err(kind_expected("u64", param)),
            },
            None => Err(value_expected("u64")),
        }
    }
}

impl FromParameterValue<u32> for u32 {
    fn from_parameter_value(param: &ParameterValue) -> (r: Result<u32, Error>)
        ensures
            match param.spec_value() {
                Some(JsonView::Int(i)) => r == Ok::<u32, Error>((i as i64) as u32),
                Some(_) => r matches Err(e) && e.error_type == ErrorType::ConversionError
                    && e.position == param.spec_position(),
                None => r matches Err(e) && e.error_type == ErrorType::ConversionError,
            },
    {
        match param.value() {
            Some(p) => match p {
                JsonValue::Int(x) => {
                    let x: i64 = *x;
                    Ok(#[verifier::truncate] (x as u32))
                },
                _ => Err(kind_expected("u32", param)),
            },
            None => Err(value_expected("u32")),
        }
    }
}

impl FromParameterValue<Option<u32>> for Option<u32> {
    fn from_parameter_value(param: &ParameterValue) -> (r: Result<Option<u32>, Error>)
        ensures
            match param.spec_value() {
                Some(JsonView::Null) => r == Ok::<Option<u32>, Error>(None),
                Some(JsonView::Int(i)) => r == Ok::<Option<u32>, Error>(Some((i as i64) as u32)),
                Some(_) => r matches Err(e) && e.error_type == ErrorType::ConversionError
                    && e.position == param.spec_position(),
                None => r matches Err(e) && e.error_type == ErrorType::ConversionError,
            },
    {
        match param.value() {
            Some(p) => match p {
                JsonValue::Null => Ok(None),
                JsonValue::Int(x) => {
                    let x: i64 = *x;
                    Ok(Some(#[verifier::truncate] (x as u32)))
                },
                _ => Err(kind_expected("u32", param)),
            },
            None => Err(value_expected("u32")),
        }
    }
}

impl FromParameterValue<u16> for u16 {
    fn from_parameter_value(param: &ParameterValue) -> (r: Result<u16, Error>)
        ensures
            match param.spec_value() {
                Some(JsonView::Int(i)) => r == Ok::<u16, Error>((i as i64) as u16),
                Some(_) => r matches Err(e) && e.error_type == ErrorType::ConversionError
                    && e.position == param.spec_position(),
                None => r matches Err(e) && e.error_type == ErrorType::ConversionError,
            },
    {
        match param.value() {
            Some(p) => match p {
                JsonValue::Int(x) => {
                    let x: i64 = *x;
                    Ok(#[verifier::truncate] (x as u16))
                },
                _ => Err(kind_expected("u16", param)),
            },
            None => Err(value_expected("u16")),
        }
    }
}

impl FromParameterValue<Option<u16>> for Option<u16> {
    fn from_parameter_value(param: &ParameterValue) -> (r: Result<Option<u16>, Error>)
        ensures
            match param.spec_value() {
                Some(JsonView::Null) => r == Ok::<Option<u16>, Error>(None),
                Some(JsonView::Int(i)) => r == Ok::<Option<u16>, Error>(Some((i as i64) as u16)),
                Some(_) => r matches Err(e) && e.error_type == ErrorType::ConversionError
                    && e.position == param.spec_position(),
                None => r matches Err(e) && e.error_type == ErrorType::ConversionError,
            },
    {
        match param.value() {
            Some(p) => match p {
                JsonValue::Null => Ok(None),
                JsonValue::Int(x) => {
                    let x: i64 = *x;
                    Ok(Some(#[verifier::truncate] (x as u16)))
                },
                _ => Err(kind_expected("u16", param)),
            },
            None => Err(value_expected("u16")),
        }
    }
}

impl FromParameterValue<u8> for u8 {
    fn from_parameter_value(param: &ParameterValue) -> (r: Result<u8, Error>)
        ensures
            match param.spec_value() {
                Some(JsonView::Int(i)) => r == Ok::<u8, Error>((i as i64) as u8),
                Some(_) => r matches Err(e) && e.error_type == ErrorType::ConversionError
                    && e.position == param.spec_position(),
                None => r matches Err(e) && e.error_type == ErrorType::ConversionError,
            },
    {
        match param.value() {
            Some(p) => match p {
                JsonValue::Int(x) => {
                    let x: i64 = *x;
                    Ok(#[verifier::truncate] (x as u8))
                },
                _ => Err(kind_expected("u8", param)),
            },
            None => Err(value_expected("u8")),
        }
    }
}

impl FromParameterValue<Option<u8>> for Option<u8> {
    fn from_parameter_value(param: &ParameterValue) -> (r: Result<Option<u8>, Error>)
        ensures
            match param.spec_value() {
                Some(JsonView::Null) => r == Ok::<Option<u8>, Error>(None),
                Some(JsonView::Int(i)) => r == Ok::<Option<u8>, Error>(Some((i as i64) as u8)),
                Some(_) => r matches Err(e) && e.error_type == ErrorType::ConversionError
                    && e.position == param.spec_position(),
                None => r matches Err(e) && e.error_type == ErrorType::ConversionError,
            },
    {
        match param.value() {
            Some(p) => match p {
                JsonValue::Null => Ok(None),
                JsonValue::Int(x) => {
                    let x: i64 = *x;
                    Ok(Some(#[verifier::truncate] (x as u8)))
                },
                _ => Err(kind_expected("u8", param)),
            },
            None => Err(value_expected("u8")),
        }
    }
}

impl FromParameterValue<usize> for usize {
    fn from_parameter_value(param: &ParameterValue) -> (r: Result<usize, Error>)
        ensures
            match param.spec_value() {
                Some(JsonView::Int(i)) => r == Ok::<usize, Error>((i as i64) as usize),
                Some(_) => r matches Err(e) && e.error_type == ErrorType::ConversionError
                    && e.position == param.spec_position(),
                None => r matches Err(e) && e.error_type == ErrorType::ConversionError,
            },
    {
        match param.value() {
            Some(p) => match p {
                JsonValue::Int(x) => {
                    let x: i64 = *x;
                    Ok(#[verifier::truncate] (x as usize))
                },
                _ => Err(kind_expected("usize", param)),
            },
            None => Err(value_expected("usize")),
        }
    }
}

impl FromParameterValue<Option<usize>> for Option<usize> {
    fn from_parameter_value(param: &ParameterValue) -> (r: Result<Option<usize>, Error>)
        ensures
            match param.spec_value() {
                Some(JsonView::Null) => r == Ok::<Option<usize>, Error>(None),
                Some(JsonView::Int(i)) => r == Ok::<Option<usize>, Error>(Some((i as i64) as usize)),
                Some(_) => r matches Err(e) && e.error_type == ErrorType::ConversionError
                    && e.position == param.spec_position(),
                None => r matches Err(e) && e.error_type == ErrorType::ConversionError,
            },
    {
        match param.value() {
            Some(p) => match p {
                JsonValue::Null => Ok(None),
                JsonValue::Int(x) => {
                    let x: i64 = *x;
                    Ok(Some(#[verifier::truncate] (x as usize)))
                },
                _ => Err(kind_expected("usize", param)),
            },
            None => Err(value_expected("usize")),
        }
    }
}


/// Whether a parameter holds a value written as a default or in the query, as every element
/// of a parameter list must.
pub open spec fn is_plain_value(p: ParameterValue) -> bool {
    p is DefaultValue || p is ParameterValue
}

/// How many items a value gives as a list: each item of an array, or the value itself.
pub open spec fn list_len(v: JsonView) -> nat {
    match v {
        JsonView::Array(items) => items.len(),
        _ => 1,
    }
}

/// Whether the conversion of `v` may give `r`.
pub open spec fn converts_to<V: ValueFromJson>(v: &JsonValue, r: Result<V, Error>) -> bool {
    call_ensures(V::try_from_json_value, (v,), r)
}

/// Whether the conversion of each of `items` may give the matching value of `xs`.
pub open spec fn all_convert_to<V: ValueFromJson>(items: Seq<JsonValue>, xs: Seq<V>) -> bool {
    &&& xs.len() == items.len()
    &&& forall|i: int| 0 <= i < items.len() ==> converts_to::<V>(&items[i], Ok::<V, Error>(#[trigger] xs[i]))
}

/// Whether converting `items` in turn may stop at the failure `e`: each item before some
/// item converted, and that item gave `e`.
pub open spec fn fails_with<V: ValueFromJson>(items: Seq<JsonValue>, e: Error) -> bool {
    exists|i: int, xs: Seq<V>| 0 <= i < items.len()
        && #[trigger] all_convert_to::<V>(items.take(i), xs)
        && #[trigger] converts_to::<V>(&items[i], Err::<V, Error>(e))
}

/// Whether a value may convert, as a list, to `xs`: each item of an array in order, or the
/// value alone.
pub open spec fn json_converts_to_list<V: ValueFromJson>(v: JsonValue, xs: Seq<V>) -> bool {
    match v {
        JsonValue::Array(items) => all_convert_to::<V>(items@, xs),
        _ => xs.len() == 1 && converts_to::<V>(&v, Ok::<V, Error>(xs[0])),
    }
}

/// Whether converting a value as a list may fail with `e`: at the first failing item of an
/// array, or in the conversion of the value alone.
pub open spec fn json_list_fails_with<V: ValueFromJson>(v: JsonValue, e: Error) -> bool {
    match v {
        JsonValue::Array(items) => fails_with::<V>(items@, e),
        _ => converts_to::<V>(&v, Err::<V, Error>(e)),
    }
}

/// Whether `e` is the error `e0` pointing at `pos`.
pub open spec fn moved_to(e: Error, e0: Error, pos: Position) -> bool {
    e.error_type == e0.error_type && e.message@ == e0.message@ && e.position == pos
}

/// Whether the elements of a parameter list, all plain values, may convert in order to `xs`.
pub open spec fn plain_values_convert_to<V: ValueFromJson>(ps: Seq<ParameterValue>, xs: Seq<V>) -> bool {
    &&& xs.len() == ps.len()
    &&& forall|k: int| 0 <= k < ps.len() ==> is_plain_value(#[trigger] ps[k])
        && converts_to::<V>(&ps[k].spec_json()->0, Ok::<V, Error>(xs[k]))
}

/// Whether an element of a parameter list fails with `e`: a default value whose conversion may
/// give `e`, a query value whose conversion may give an error that `e` places at the value, or
/// anything else, which cannot stand in a list.
pub open spec fn plain_value_fails_with<V: ValueFromJson>(p: ParameterValue, e: Error) -> bool {
    match p {
        ParameterValue::DefaultValue(_, v) => converts_to::<V>(&v, Err::<V, Error>(e)),
        ParameterValue::ParameterValue(_, v, pos) => exists|e0: Error|
            #[trigger] converts_to::<V>(&v, Err::<V, Error>(e0)) && moved_to(e, e0, pos),
        _ => e.error_type == ErrorType::UnexpectedError,
    }
}

/// Whether converting the elements in turn may stop at `e`: the elements before some element
/// converted, and that element failed with `e`.
pub open spec fn plain_values_fail_with<V: ValueFromJson>(ps: Seq<ParameterValue>, e: Error) -> bool {
    exists|k: int, xs: Seq<V>| 0 <= k < ps.len()
        && #[trigger] plain_values_convert_to::<V>(ps.take(k), xs)
        && #[trigger] plain_value_fails_with::<V>(ps[k], e)
}

/// Converts a value to a list: each item of an array, or the value itself as the only item.
fn values_from_json<V: ValueFromJson>(p: &JsonValue) -> (r: Result<Vec<V>, Error>)
    ensures
        r matches Ok(xs) ==> xs@.len() == list_len(p.deep()),
        r matches Ok(xs) ==> json_converts_to_list::<V>(*p, xs@),
        r matches Err(e) ==> json_list_fails_with::<V>(*p, e),
{
    match p {
        JsonValue::Array(items) => {
            proof {
                crate::json::lemma_deep_items(items@, items@.len());
            }
            let convert = V::try_from_json_value;
            let mut out: Vec<V> = Vec::new();
            let mut i: usize = 0;
            while i < items.len()
                invariant
                    0 <= i <= items.len(),
                    convert == V::try_from_json_value,
                    *p == JsonValue::Array(*items),
                    all_convert_to::<V>(items@.take(i as int), out@),
                decreases items.len() - i,
            {
                let res = convert(&items[i]);
                match res {
                    Ok(x) => {
                        let ghost before = out@;
                        out.push(x);
                        proof {
                            assert forall|k: int| 0 <= k < i + 1 implies converts_to::<V>(&items@.take(i + 1)[k], Ok::<V, Error>(#[trigger] out@[k])) by {
                                if k < i {
                                    assert(items@.take(i + 1)[k] == items@.take(i as int)[k]);
                                    assert(out@[k] == before[k]);
                                }
                            }
                        }
                    },
                    Err(e) => {
                        proof {
                            assert(all_convert_to::<V>(items@.take(i as int), out@));
                            assert(converts_to::<V>(&items@[i as int], Err::<V, Error>(e)));
                            assert(fails_with::<V>(items@, e));
                        }
                        return Err(e);
                    },
                }
                i = i + 1;
            }
            proof {
                assert(items@.take(i as int) =~= items@);
            }
            Ok(out)
        },
        _ => {
            let convert = V::try_from_json_value;
            match convert(p) {
                Ok(x) => {
                    let mut out: Vec<V> = Vec::new();
                    out.push(x);
                    Ok(out)
                },
                Err(e) => Err(e),
            }
        },
    }
}

/// The error for a parameter that cannot stand in a list, or that a list cannot be made of.
fn not_a_list_element(message: &str) -> (r: Error)
    ensures
        r.error_type == ErrorType::UnexpectedError,
        r.message@ == message@,
{
    Error::unexpected_error(owned(message))
}

/// Converts the elements of a parameter list, each of which must be a plain value.
fn values_from_list<V: ValueFromJson>(ps: &Vec<ParameterValue>) -> (r: Result<Vec<V>, Error>)
    ensures
        r matches Ok(xs) ==> xs@.len() == ps@.len() && forall|k: int| 0 <= k < ps@.len() ==> is_plain_value(#[trigger] ps@[k]),
        ps@.len() > 0 && !is_plain_value(ps@[0]) ==> (r matches Err(e) && e.error_type == ErrorType::UnexpectedError),
        ps@.len() == 0 ==> (r matches Ok(xs) && xs@.len() == 0),
        r matches Ok(xs) ==> plain_values_convert_to::<V>(ps@, xs@),
        r matches Err(e) ==> plain_values_fail_with::<V>(ps@, e),
{
    let mut out: Vec<V> = Vec::new();
    let mut k: usize = 0;
    while k < ps.len()
        invariant
            0 <= k <= ps.len(),
            out@.len() == k,
            forall|j: int| 0 <= j < k ==> is_plain_value(#[trigger] ps@[j]),
            plain_values_convert_to::<V>(ps@.take(k as int), out@),
        decreases ps.len() - k,
    {
        let convert = V::try_from_json_value;
        let x = match &ps[k] {
            ParameterValue::DefaultValue(_, value) => match convert(value) {
                Ok(x) => x,
                Err(e) => {
                    proof {
                        assert(plain_value_fails_with::<V>(ps@[k as int], e));
                        assert(plain_values_convert_to::<V>(ps@.take(k as int), out@));
                    }
                    return Err(e);
                },
            },
            ParameterValue::ParameterValue(_, value, position) => match convert(value) {
                Ok(x) => x,
                Err(e) => {
                    let ghost e0 = e;
                    let moved = e.with_position(position);
                    proof {
                        assert(converts_to::<V>(value, Err::<V, Error>(e0)));
                        assert(plain_value_fails_with::<V>(ps@[k as int], moved));
                        assert(plain_values_convert_to::<V>(ps@.take(k as int), out@));
                    }
                    return Err(moved);
                },
            },
            ParameterValue::MultipleParameters(_) => {
                let e = not_a_list_element("Nested multiple parameters not allowed");
                proof {
                    assert(plain_value_fails_with::<V>(ps@[k as int], e));
                    assert(plain_values_convert_to::<V>(ps@.take(k as int), out@));
                }
                return Err(e);
            },
            ParameterValue::Injected(name) => {
                let mut m = owned("Injected parameters (");
                push_str(&mut m, name.as_str());
                push_str(&mut m, ") not allowed inside multi-parameter");
                let e = Error::unexpected_error(m);
                proof {
                    assert(plain_value_fails_with::<V>(ps@[k as int], e));
                    assert(plain_values_convert_to::<V>(ps@.take(k as int), out@));
                }
                return Err(e);
            },
            ParameterValue::Nothing => {
                let e = not_a_list_element("None parameter not allowed inside multi-parameter");
                proof {
                    assert(plain_value_fails_with::<V>(ps@[k as int], e));
                    assert(plain_values_convert_to::<V>(ps@.take(k as int), out@));
                }
                return Err(e);
            },
            _ => {
                let e = not_a_list_element("Unexpected parameter type inside multi-parameter");
                proof {
                    assert(plain_value_fails_with::<V>(ps@[k as int], e));
                    assert(plain_values_convert_to::<V>(ps@.take(k as int), out@));
                }
                return Err(e);
            },
        };
        let ghost before = out@;
        out.push(x);
        proof {
            assert forall|j: int| 0 <= j < k + 1 implies is_plain_value(#[trigger] ps@.take(k + 1)[j])
                && converts_to::<V>(&ps@.take(k + 1)[j].spec_json()->0, Ok::<V, Error>(out@[j])) by {
                if j < k {
                    assert(ps@.take(k + 1)[j] == ps@.take(k as int)[j]);
                    assert(out@[j] == before[j]);
                }
            }
        }
        k = k + 1;
    }
    proof {
        assert(ps@.take(k as int) =~= ps@);
    }
    Ok(out)
}

/// A list argument: from a list parameter, element by element; from a single value, its items
/// when it is an array, else the value alone.
impl<V: ValueFromJson> FromParameterValue<Vec<V>> for Vec<V> {
    fn from_parameter_value(param: &ParameterValue) -> (r: Result<Vec<V>, Error>)
        ensures
            match *param {
                ParameterValue::DefaultValue(_, v) => {
                    &&& r matches Ok(xs) ==> xs@.len() == list_len(v.deep()) && json_converts_to_list::<V>(v, xs@)
                    &&& r matches Err(e) ==> json_list_fails_with::<V>(v, e)
                },
                ParameterValue::ParameterValue(_, v, pos) => {
                    &&& r matches Ok(xs) ==> xs@.len() == list_len(v.deep()) && json_converts_to_list::<V>(v, xs@)
                    &&& r matches Err(e) ==> e.position == pos && exists|e0: Error|
                        #[trigger] json_list_fails_with::<V>(v, e0) && moved_to(e, e0, pos)
                },
                ParameterValue::MultipleParameters(ps) => {
                    &&& r matches Ok(xs) ==> xs@.len() == ps@.len()
                        && forall|k: int| 0 <= k < ps@.len() ==> is_plain_value(#[trigger] ps@[k])
                    &&& ps@.len() > 0 && !is_plain_value(ps@[0]) ==> (r matches Err(e) && e.error_type
                        == ErrorType::UnexpectedError)
                    &&& ps@.len() == 0 ==> (r matches Ok(xs) && xs@.len() == 0)
                    &&& r matches Ok(xs) ==> plain_values_convert_to::<V>(ps@, xs@)
                    &&& r matches Err(e) ==> plain_values_fail_with::<V>(ps@, e)
                },
                ParameterValue::Injected(n) => r matches Err(e) && e.error_type == ErrorType::General
                    && e.message@ == "Injected parameters ("@ + n@ + ") not allowed"@,
                ParameterValue::Nothing => r matches Err(e) && e.error_type == ErrorType::General
                    && e.message@ == "None parameter not allowed"@,
                _ => r matches Err(e) && e.error_type == ErrorType::General && e.message@
                    == "Unexpected parameter type"@,
            },
    {
        match param {
            ParameterValue::DefaultValue(_, v) => values_from_json(v),
            ParameterValue::ParameterValue(_, v, pos) => match values_from_json(v) {
                Ok(xs) => Ok(xs),
                Err(e) => {
                    let ghost e0 = e;
                    let moved = e.with_position(pos);
                    proof {
                        assert(json_list_fails_with::<V>(*v, e0));
                    }
                    Err(moved)
                },
            },
            ParameterValue::MultipleParameters(ps) => values_from_list(ps),
            ParameterValue::Injected(name) => {
                let mut m = owned("Injected parameters (");
                push_str(&mut m, name.as_str());
                push_str(&mut m, ") not allowed");
                proof {
                    assert(m@ =~= "Injected parameters ("@ + name@ + ") not allowed"@);
                }
                Err(Error::general_error(m))
            },
            ParameterValue::Nothing => Err(Error::general_error(owned("None parameter not allowed"))),
            _ => Err(Error::general_error(owned("Unexpected parameter type"))),
        }
    }
}


/// A marker for the types a context can carry as its payload.
pub trait PayloadType: Sized {
}

impl PayloadType for () {
}

impl PayloadType for String {
}

/// Building a value from a payload: implemented by newtypes that pick a field of one.
pub trait ExtractFromPayload<P>: Sized {
    fn extract_from_payload(payload: &P) -> Result<Self, Error>;
}

/// Building an injected argument from the execution context `C`.
pub trait InjectedFromContext<C>: Sized {
    fn from_context(name: &str, context: C) -> Result<Self, Error>;
}

impl<C> InjectedFromContext<C> for () {
    fn from_context(name: &str, context: C) -> (r: Result<(), Error>)
        ensures
            r is Ok,
    {
        Ok(())
    }
}

/// Executes a command: given its key, the input state, its arguments and the context, gives
/// the resulting value.
pub trait CommandExecutor<S, V, C> {
    fn execute(&self, command_key: &CommandKey, state: &S, arguments: CommandArguments<V>, context: C) -> Result<V, Error>;
}

/// Whether two keys name the same command.
pub open spec fn same_key(a: CommandKey, b: CommandKey) -> bool {
    a.realm@ == b.realm@ && a.namespace@ == b.namespace@ && a.name@ == b.name@
}

/// Whether some entry is registered under `key`.
pub open spec fn has_entry<F>(entries: Seq<(CommandKey, F)>, key: CommandKey) -> bool {
    exists|j: int| 0 <= j < entries.len() && same_key(#[trigger] entries[j].0, key)
}

/// The first entry registered under `key`: the one a lookup finds.
pub open spec fn first_entry<F>(entries: Seq<(CommandKey, F)>, key: CommandKey) -> int {
    choose|j: int| 0 <= j < entries.len() && same_key(entries[j].0, key)
        && forall|k: int| 0 <= k < j ==> !same_key(#[trigger] entries[k].0, key)
}

/// The first entry under `key` is at `j` when no entry before it is under `key`.
proof fn lemma_first_entry<F>(entries: Seq<(CommandKey, F)>, key: CommandKey, j: int)
    requires
        0 <= j < entries.len(),
        same_key(entries[j].0, key),
        forall|k: int| 0 <= k < j ==> !same_key(#[trigger] entries[k].0, key),
    ensures
        first_entry(entries, key) == j,
{
    let q = first_entry(entries, key);
    assert(0 <= q < entries.len() && same_key(entries[q].0, key) && forall|k: int| 0 <= k < q ==> !same_key(#[trigger] entries[k].0, key));
    if q < j {
        assert(!same_key(entries[q].0, key));
    }
    if j < q {
        assert(!same_key(entries[j].0, key));
    }
}

/// `entries` without those registered under `key`, in order.
pub open spec fn without_key<F>(entries: Seq<(CommandKey, F)>, key: CommandKey) -> Seq<(CommandKey, F)> {
    entries.filter(|e: (CommandKey, F)| !same_key(e.0, key))
}

/// Commands: their metadata, and the executors registered for them, synchronous (`F`) and
/// asynchronous (`A`). An executor is kept under the key it was registered with.
pub struct CommandRegistry<F, A> {
    pub executors: Vec<(CommandKey, F)>,
    pub async_executors: Vec<(CommandKey, A)>,
    pub command_metadata_registry: crate::command_metadata::CommandMetadataRegistry,
}

fn copy_key(key: &CommandKey) -> (r: CommandKey)
    ensures
        r.realm@ == key.realm@,
        r.namespace@ == key.namespace@,
        r.name@ == key.name@,
{
    CommandKey { realm: key.realm.clone(), namespace: key.namespace.clone(), name: key.name.clone() }
}

/// Removes every entry under `key`; whether there was one.
fn remove_entries<F>(entries: &mut Vec<(CommandKey, F)>, key: &CommandKey) -> (r: bool)
    ensures
        r == has_entry(old(entries)@, *key),
        final(entries)@ == without_key(old(entries)@, *key),
{
    let ghost initial = entries@;
    let mut kept: Vec<(CommandKey, F)> = Vec::new();
    let mut found = false;
    proof {
        assert(initial.subrange(0, 0).filter(|e: (CommandKey, F)| !same_key(e.0, *key)) =~= Seq::<(CommandKey, F)>::empty());
    }
    while entries.len() > 0
        invariant
            initial.len() == entries@.len() + (initial.len() - entries@.len()),
            entries@.len() <= initial.len(),
            entries@ == initial.subrange(initial.len() - entries@.len(), initial.len() as int),
            kept@ == initial.subrange(0, initial.len() - entries@.len()).filter(|e: (CommandKey, F)| !same_key(e.0, *key)),
            found == exists|j: int| 0 <= j < initial.len() - entries@.len() && same_key(#[trigger] initial[j].0, *key),
        decreases entries.len(),
    {
        let ghost done = initial.len() - entries@.len();
        let e = entries.remove(0);
        proof {
            assert(initial[done] == e);
            assert(initial.subrange(0, done + 1) =~= initial.subrange(0, done).push(e));
            initial.subrange(0, done as int).lemma_filter_push(e, |e: (CommandKey, F)| !same_key(e.0, *key));
            assert(entries@ =~= initial.subrange(done + 1, initial.len() as int));
        }
        if e.0.same_key(key) {
            found = true;
        } else {
            kept.push(e);
        }
    }
    proof {
        assert(initial.subrange(0, initial.len() as int) =~= initial);
    }
    *entries = kept;
    found
}

impl<F, A> CommandRegistry<F, A> {
    /// A registry with no commands.
    pub fn new() -> (r: Self)
        ensures
            r.executors@.len() == 0,
            r.async_executors@.len() == 0,
            r.command_metadata_registry.commands@.len() == 0,
    {
        CommandRegistry {
            executors: Vec::new(),
            async_executors: Vec::new(),
            command_metadata_registry: crate::command_metadata::CommandMetadataRegistry::new(),
        }
    }

    /// Registers a synchronous executor under `key`, with fresh metadata for the command
    /// (replacing metadata held under the same key); an executor already held under the key
    /// is replaced.
    pub fn register_command(&mut self, key: CommandKey, f: F)
        ensures
            exists|m: crate::command_metadata::CommandMetadata| crate::command_metadata::made_from_key(m, key)
                && #[trigger] crate::command_metadata::spec_added(
                old(self).command_metadata_registry,
                final(self).command_metadata_registry,
                m,
            ),
            final(self).command_metadata_registry.spec_get(key.realm@, key.namespace@, key.name@) matches Some(x)
                && crate::command_metadata::made_from_key(x, key),
            crate::command_metadata::unique_keys(old(self).command_metadata_registry.commands@)
                ==> crate::command_metadata::unique_keys(final(self).command_metadata_registry.commands@),
            final(self).executors@ == without_key(old(self).executors@, key).push((final(self).executors@.last().0, f)),
            same_key(final(self).executors@.last().0, key),
            final(self).async_executors == old(self).async_executors,
    {
        let m = crate::command_metadata::CommandMetadata::from_key(copy_key(&key));
        self.command_metadata_registry.add_command(&m);
        proof {
            crate::command_metadata::lemma_fresh_is_made_from_key(m, key);
            crate::command_metadata::lemma_made_from_key_copy(
                m,
                self.command_metadata_registry.spec_get(key.realm@, key.namespace@, key.name@)->0,
                key,
            );
        }
        let _ = remove_entries(&mut self.executors, &key);
        self.executors.push((key, f));
    }

    /// Registers an asynchronous executor under `key`, as [`Self::register_command`] does a
    /// synchronous one.
    pub fn register_async_command(&mut self, key: CommandKey, f: A)
        ensures
            exists|m: crate::command_metadata::CommandMetadata| crate::command_metadata::made_from_key(m, key)
                && #[trigger] crate::command_metadata::spec_added(
                old(self).command_metadata_registry,
                final(self).command_metadata_registry,
                m,
            ),
            final(self).command_metadata_registry.spec_get(key.realm@, key.namespace@, key.name@) matches Some(x)
                && crate::command_metadata::made_from_key(x, key),
            crate::command_metadata::unique_keys(old(self).command_metadata_registry.commands@)
                ==> crate::command_metadata::unique_keys(final(self).command_metadata_registry.commands@),
            final(self).async_executors@ == without_key(old(self).async_executors@, key).push((final(self).async_executors@.last().0, f)),
            same_key(final(self).async_executors@.last().0, key),
            final(self).executors == old(self).executors,
    {
        let m = crate::command_metadata::CommandMetadata::from_key(copy_key(&key));
        self.command_metadata_registry.add_command(&m);
        proof {
            crate::command_metadata::lemma_fresh_is_made_from_key(m, key);
            crate::command_metadata::lemma_made_from_key_copy(
                m,
                self.command_metadata_registry.spec_get(key.realm@, key.namespace@, key.name@)->0,
                key,
            );
        }
        let _ = remove_entries(&mut self.async_executors, &key);
        self.async_executors.push((key, f));
    }

    /// Removes a command's executors and metadata; whether anything was removed.
    pub fn unregister(&mut self, key: CommandKey) -> (r: bool)
        ensures
            r == (has_entry(old(self).executors@, key) || has_entry(old(self).async_executors@, key)
                || old(self).command_metadata_registry.spec_get(key.realm@, key.namespace@, key.name@) is Some),
            final(self).executors@ == without_key(old(self).executors@, key),
            final(self).async_executors@ == without_key(old(self).async_executors@, key),
            crate::command_metadata::spec_removed(
                old(self).command_metadata_registry,
                final(self).command_metadata_registry,
                key.realm@,
                key.namespace@,
                key.name@,
            ),
            crate::command_metadata::unique_keys(old(self).command_metadata_registry.commands@) ==> {
                &&& crate::command_metadata::unique_keys(final(self).command_metadata_registry.commands@)
                &&& final(self).command_metadata_registry.spec_get(key.realm@, key.namespace@, key.name@) is None
            },
    {
        let had_sync = remove_entries(&mut self.executors, &key);
        let had_async = remove_entries(&mut self.async_executors, &key);
        let had_metadata = self.command_metadata_registry.remove_command(key).is_some();
        had_sync || had_async || had_metadata
    }

    /// The synchronous executor registered under `key`.
    pub fn executor(&self, key: &CommandKey) -> (r: Option<&F>)
        ensures
            r is Some <==> has_entry(self.executors@, *key),
            r matches Some(f) ==> exists|j: int| 0 <= j < self.executors@.len() && same_key(#[trigger] self.executors@[j].0, *key)
                && self.executors@[j].1 == *f,
            r matches Some(f) ==> *f == self.executors@[first_entry(self.executors@, *key)].1,
    {
        let mut i: usize = 0;
        while i < self.executors.len()
            invariant
                0 <= i <= self.executors.len(),
                forall|j: int| 0 <= j < i ==> !same_key(#[trigger] self.executors@[j].0, *key),
            decreases self.executors.len() - i,
        {
            if self.executors[i].0.same_key(key) {
                proof {
                    lemma_first_entry(self.executors@, *key, i as int);
                }
                return Some(&self.executors[i].1);
            }
            i = i + 1;
        }
        None
    }

    /// The asynchronous executor registered under `key`.
    pub fn async_executor(&self, key: &CommandKey) -> (r: Option<&A>)
        ensures
            r is Some <==> has_entry(self.async_executors@, *key),
            r matches Some(f) ==> exists|j: int| 0 <= j < self.async_executors@.len() && same_key(#[trigger] self.async_executors@[j].0, *key)
                && self.async_executors@[j].1 == *f,
            r matches Some(f) ==> *f == self.async_executors@[first_entry(self.async_executors@, *key)].1,
    {
        let mut i: usize = 0;
        while i < self.async_executors.len()
            invariant
                0 <= i <= self.async_executors.len(),
                forall|j: int| 0 <= j < i ==> !same_key(#[trigger] self.async_executors@[j].0, *key),
            decreases self.async_executors.len() - i,
        {
            if self.async_executors[i].0.same_key(key) {
                proof {
                    lemma_first_entry(self.async_executors@, *key, i as int);
                }
                return Some(&self.async_executors[i].1);
            }
            i = i + 1;
        }
        None
    }

    /// Executes the command registered under `key` with its synchronous executor; an
    /// unknown-command error, at the action's position, when none is registered.
    pub fn execute<S, V, C>(&self, key: &CommandKey, state: &S, arguments: CommandArguments<V>, context: C) -> (r: Result<V, Error>)
        where F: Fn(&S, CommandArguments<V>, C) -> Result<V, Error>,
        requires
            forall|j: int| 0 <= j < self.executors@.len() ==> call_requires(#[trigger] self.executors@[j].1, (state, arguments, context)),
        ensures
            !has_entry(self.executors@, *key) ==> (r matches Err(e) && e.error_type == ErrorType::UnknownCommand
                && e.position == arguments.action_position && e.message@ == unknown_executor_message(*key)),
            has_entry(self.executors@, *key) ==> exists|j: int| 0 <= j < self.executors@.len() && same_key(#[trigger] self.executors@[j].0, *key)
                && call_ensures(self.executors@[j].1, (state, arguments, context), r),
            has_entry(self.executors@, *key) ==> call_ensures(
                self.executors@[first_entry(self.executors@, *key)].1,
                (state, arguments, context),
                r,
            ),
    {
        match self.executor(key) {
            Some(f) => f(state, arguments, context),
            None => {
                let mut m = owned("Unknown command executor ");
                let t = key.to_text();
                push_str(&mut m, t.as_str());
                let position = arguments.action_position;
                Err(Error::new(ErrorType::UnknownCommand, m).with_position(&position))
            },
        }
    }

    /// How a command is executed asynchronously: by its asynchronous executor when it has one,
    /// else by its synchronous one.
    pub fn execution_route(&self, key: &CommandKey) -> (r: ExecutionRoute)
        ensures
            r == if has_entry(self.async_executors@, *key) {
                ExecutionRoute::Async
            } else if has_entry(self.executors@, *key) {
                ExecutionRoute::Sync
            } else {
                ExecutionRoute::Unknown
            },
    {
        if self.async_executor(key).is_some() {
            ExecutionRoute::Async
        } else if self.executor(key).is_some() {
            ExecutionRoute::Sync
        } else {
            ExecutionRoute::Unknown
        }
    }
}

/// `Unknown command executor <realm>-<namespace>-<name>`.
pub open spec fn unknown_executor_message(key: CommandKey) -> Seq<char> {
    "Unknown command executor "@ + key.realm@ + seq!['-'] + key.namespace@ + seq!['-'] + key.name@
}

/// Which executor runs a command asynchronously.
#[derive(Debug, Clone, Copy, PartialEq, Eq, Structural)]
pub enum ExecutionRoute {
    /// Its asynchronous executor.
    Async,
    /// Its synchronous executor, as no asynchronous one is registered.
    Sync,
    /// None: no executor is registered under the key.
    Unknown,
}

/// An executor is gone after `unregister`: nothing is left registered under the key.
pub proof fn law_unregister_removes_executors<F>(entries: Seq<(CommandKey, F)>, key: CommandKey)
    ensures
        !has_entry(without_key(entries, key), key),
{
    let kept = without_key(entries, key);
    assert forall|j: int| 0 <= j < kept.len() implies !same_key(#[trigger] kept[j].0, key) by {
        entries.lemma_filter_pred(|e: (CommandKey, F)| !same_key(e.0, key), j);
    }
}

/// Unregistering twice: the second time there is nothing to remove, so it reports `false`.
pub proof fn law_unregister_is_idempotent<F>(entries: Seq<(CommandKey, F)>, key: CommandKey)
    ensures
        without_key(without_key(entries, key), key) == without_key(entries, key),
{
    let once = without_key(entries, key);
    law_unregister_removes_executors(entries, key);
    assert(once.filter(|e: (CommandKey, F)| !same_key(e.0, key)) =~= once) by {
        assert forall|j: int| 0 <= j < once.len() implies !same_key(#[trigger] once[j].0, key) by {}
        lemma_filter_all(once, |e: (CommandKey, F)| !same_key(e.0, key));
    }
}

proof fn lemma_filter_all<T>(s: Seq<T>, p: spec_fn(T) -> bool)
    requires
        forall|j: int| 0 <= j < s.len() ==> p(#[trigger] s[j]),
    ensures
        s.filter(p) == s,
    decreases s.len(),
{
    reveal(Seq::filter);
    if s.len() > 0 {
        lemma_filter_all(s.drop_last(), p);
        assert(s.drop_last().push(s.last()) =~= s);
    } else {
        assert(s.filter(p) =~= s);
    }
}
} // verus!
