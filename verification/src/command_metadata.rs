//! Command metadata: what a command is called, what arguments it takes and how they are shown.
use vstd::prelude::*;
use crate::error::Error;
use crate::json::{JsonValue, JsonMember, JsonView, members_view, lemma_object_view, str_eq};
use crate::text::{chars_of, string_of, owned, push_str, quoted};

verus! {

/// Registry issue: a warning, or an error when `is_error` holds, about one command.
#[derive(Debug, Clone, PartialEq)]
pub struct CommandRegistryIssue {
    pub realm: String,
    pub namespace: String,
    pub name: String,
    pub is_error: bool,
    pub message: String,
}

impl CommandRegistryIssue {
    pub fn new(realm: &str, namespace: &str, name: &str, is_error: bool, message: String) -> (r: Self)
        ensures
            r.realm@ == realm@,
            r.namespace@ == namespace@,
            r.name@ == name@,
            r.is_error == is_error,
            r.message@ == message@,
    {
        CommandRegistryIssue {
            realm: owned(realm),
            namespace: owned(namespace),
            name: owned(name),
            is_error,
            message,
        }
    }

    pub fn warning(realm: &str, namespace: &str, name: &str, message: String) -> (r: Self)
        ensures
            r.realm@ == realm@,
            r.namespace@ == namespace@,
            r.name@ == name@,
            !r.is_error,
            r.message@ == message@,
    {
        CommandRegistryIssue::new(realm, namespace, name, false, message)
    }

    pub fn error(realm: &str, namespace: &str, name: &str, message: String) -> (r: Self)
        ensures
            r.realm@ == realm@,
            r.namespace@ == namespace@,
            r.name@ == name@,
            r.is_error,
            r.message@ == message@,
    {
        CommandRegistryIssue::new(realm, namespace, name, true, message)
    }
}

/// A default value of an argument: a JSON value, a link to a query, or no default.
#[derive(Debug, PartialEq)]
pub enum CommandParameterValue {
    Value(JsonValue),
    /// A query, held by its encoded text.
    Query(String),
    Nothing,
}

/// The reading of a [`CommandParameterValue`].
pub enum ParamView {
    Value(JsonView),
    Query(Seq<char>),
    Nothing,
}

impl CommandParameterValue {
    pub open spec fn deep(self) -> ParamView {
        match self {
            CommandParameterValue::Value(v) => ParamView::Value(v.deep()),
            CommandParameterValue::Query(q) => ParamView::Query(q@),
            CommandParameterValue::Nothing => ParamView::Nothing,
        }
    }

    pub fn duplicate(&self) -> (r: Self)
        ensures
            r.deep() == self.deep(),
    {
        match self {
            CommandParameterValue::Value(v) => CommandParameterValue::Value(v.duplicate()),
            CommandParameterValue::Query(q) => CommandParameterValue::Query(q.clone()),
            CommandParameterValue::Nothing => CommandParameterValue::Nothing,
        }
    }

    /// Whether this is the JSON value `null`.
    pub fn is_null(&self) -> (r: bool)
        ensures
            r == (self.deep() == ParamView::Value(JsonView::Null)),
    {
        match self {
            CommandParameterValue::Value(v) => v.is_null(),
            _ => false,
        }
    }

    pub fn null() -> (r: Self)
        ensures
            r.deep() == ParamView::Value(JsonView::Null),
    {
        CommandParameterValue::Value(JsonValue::Null)
    }
}

impl Clone for CommandParameterValue {
    fn clone(&self) -> (r: Self)
        ensures
            r.deep() == self.deep(),
    {
        self.duplicate()
    }
}

/// The type of the values of an enum argument.
#[derive(Debug, Clone, Copy, PartialEq, Eq)]
pub enum EnumArgumentType {
    String,
    Integer,
    IntegerOption,
    Float,
    FloatOption,
    Boolean,
    Any,
}

/// One alternative of an enum argument: an alias and the value it stands for.
#[derive(Debug, Clone, PartialEq)]
pub struct EnumArgumentAlternative {
    pub alias: String,
    pub value: CommandParameterValue,
}

/// An enum argument type: named aliases for values. Unless `others_allowed`, only the listed
/// values are allowed; otherwise any value of `value_type` is.
#[derive(Debug, Clone, PartialEq)]
pub struct EnumArgument {
    pub name: String,
    pub values: Vec<EnumArgumentAlternative>,
    pub others_allowed: bool,
    pub value_type: EnumArgumentType,
}

pub open spec fn alternatives_view(values: Seq<EnumArgumentAlternative>) -> Seq<(Seq<char>, ParamView)> {
    Seq::new(values.len(), |i: int| (values[i].alias@, values[i].value.deep()))
}

/// The first value whose alias is `alias`, or no default when none is.
pub open spec fn spec_expand_alias(values: Seq<(Seq<char>, ParamView)>, alias: Seq<char>) -> ParamView
    decreases values.len(),
{
    if values.len() == 0 {
        ParamView::Nothing
    } else if values[0].0 == alias {
        values[0].1
    } else {
        spec_expand_alias(values.drop_first(), alias)
    }
}

impl EnumArgument {
    pub fn new(name: &str) -> (r: Self)
        ensures
            r.name@ == name@,
            r.values@.len() == 0,
            !r.others_allowed,
            r.value_type == EnumArgumentType::Any,
    {
        EnumArgument {
            name: owned(name),
            values: Vec::new(),
            others_allowed: false,
            value_type: EnumArgumentType::Any,
        }
    }

    /// Adds a string alternative; the value type becomes `String`.
    pub fn with_string_value(self, alias: &str, value: &str) -> (r: Self)
        ensures
            r.name == self.name,
            r.others_allowed == self.others_allowed,
            r.value_type == EnumArgumentType::String,
            alternatives_view(r.values@) == alternatives_view(self.values@).push(
                (alias@, ParamView::Value(JsonView::Str(value@))),
            ),
    {
        let mut s = self;
        let ghost old_alts = alternatives_view(s.values@);
        s.value_type = EnumArgumentType::String;
        s.values.push(
            EnumArgumentAlternative {
                alias: owned(alias),
                value: CommandParameterValue::Value(JsonValue::Str(owned(value))),
            },
        );
        proof {
            assert(alternatives_view(s.values@) =~= old_alts.push(
                (alias@, ParamView::Value(JsonView::Str(value@))),
            ));
        }
        s
    }

    /// Adds an alternative whose value is its own alias.
    pub fn with_alternative(self, alias: &str) -> (r: Self)
        ensures
            r.name == self.name,
            r.others_allowed == self.others_allowed,
            r.value_type == EnumArgumentType::String,
            alternatives_view(r.values@) == alternatives_view(self.values@).push(
                (alias@, ParamView::Value(JsonView::Str(alias@))),
            ),
    {
        self.with_string_value(alias, alias)
    }

    /// Adds an integer alternative; the value type becomes `Integer`.
    pub fn with_int_value(self, alias: &str, value: i32) -> (r: Self)
        ensures
            r.name == self.name,
            r.others_allowed == self.others_allowed,
            r.value_type == EnumArgumentType::Integer,
            alternatives_view(r.values@) == alternatives_view(self.values@).push(
                (alias@, ParamView::Value(JsonView::Int(value as int))),
            ),
    {
        let mut s = self;
        let ghost old_alts = alternatives_view(s.values@);
        s.value_type = EnumArgumentType::Integer;
        s.values.push(
            EnumArgumentAlternative {
                alias: owned(alias),
                value: CommandParameterValue::Value(JsonValue::Int(value as i64)),
            },
        );
        proof {
            assert(alternatives_view(s.values@) =~= old_alts.push(
                (alias@, ParamView::Value(JsonView::Int(value as int))),
            ));
        }
        s
    }

    /// Adds an alternative with an arbitrary JSON value; the value type is unchanged.
    pub fn with_value(self, alias: &str, value: JsonValue) -> (r: Self)
        ensures
            r.name == self.name,
            r.others_allowed == self.others_allowed,
            r.value_type == self.value_type,
            alternatives_view(r.values@) == alternatives_view(self.values@).push(
                (alias@, ParamView::Value(value.deep())),
            ),
    {
        let mut s = self;
        let ghost old_alts = alternatives_view(s.values@);
        let ghost vv = value.deep();
        s.values.push(
            EnumArgumentAlternative { alias: owned(alias), value: CommandParameterValue::Value(value) },
        );
        proof {
            assert(alternatives_view(s.values@) =~= old_alts.push((alias@, ParamView::Value(vv))));
        }
        s
    }

    /// Adds an alternative that links to a query, given by its encoded text.
    pub fn with_link(self, alias: &str, query: String) -> (r: Self)
        ensures
            r.name == self.name,
            r.others_allowed == self.others_allowed,
            r.value_type == self.value_type,
            alternatives_view(r.values@) == alternatives_view(self.values@).push(
                (alias@, ParamView::Query(query@)),
            ),
    {
        let mut s = self;
        let ghost old_alts = alternatives_view(s.values@);
        let ghost qv = query@;
        s.values.push(
            EnumArgumentAlternative { alias: owned(alias), value: CommandParameterValue::Query(query) },
        );
        proof {
            assert(alternatives_view(s.values@) =~= old_alts.push((alias@, ParamView::Query(qv))));
        }
        s
    }

    pub fn with_value_type(self, value_type: EnumArgumentType) -> (r: Self)
        ensures
            r.name == self.name,
            r.values == self.values,
            r.others_allowed == self.others_allowed,
            r.value_type == value_type,
    {
        let mut s = self;
        s.value_type = value_type;
        s
    }

    pub fn with_others_allowed(self) -> (r: Self)
        ensures
            r.name == self.name,
            r.values == self.values,
            r.others_allowed,
            r.value_type == self.value_type,
    {
        let mut s = self;
        s.others_allowed = true;
        s
    }

    /// The value of the first alternative named `alias`, or no default when there is none.
    pub fn expand_alias(&self, alias: &str) -> (r: CommandParameterValue)
        ensures
            r.deep() == spec_expand_alias(alternatives_view(self.values@), alias@),
    {
        let ghost av = alternatives_view(self.values@);
        proof {
            assert(av.subrange(0, av.len() as int) =~= av);
        }
        let mut i: usize = 0;
        while i < self.values.len()
            invariant
                0 <= i <= self.values.len(),
                av == alternatives_view(self.values@),
                spec_expand_alias(av, alias@) == spec_expand_alias(av.subrange(i as int, av.len() as int), alias@),
            decreases self.values.len() - i,
        {
            let ghost rest = av.subrange(i as int, av.len() as int);
            proof {
                assert(rest.drop_first() =~= av.subrange(i + 1, av.len() as int));
            }
            if str_eq(self.values[i].alias.as_str(), alias) {
                return self.values[i].value.duplicate();
            }
            i = i + 1;
        }
        CommandParameterValue::Nothing
    }

    pub open spec fn deep_eq(self, other: EnumArgument) -> bool {
        &&& self.name@ == other.name@
        &&& alternatives_view(self.values@) == alternatives_view(other.values@)
        &&& self.others_allowed == other.others_allowed
        &&& self.value_type == other.value_type
    }

    pub fn duplicate(&self) -> (r: Self)
        ensures
            r.deep_eq(*self),
    {
        let mut values: Vec<EnumArgumentAlternative> = Vec::new();
        let mut i: usize = 0;
        while i < self.values.len()
            invariant
                0 <= i <= self.values.len(),
                values.len() == i,
                forall|j: int|
                    0 <= j < i ==> (#[trigger] values[j]).alias@ == self.values[j].alias@
                        && values[j].value.deep() == self.values[j].value.deep(),
            decreases self.values.len() - i,
        {
            values.push(
                EnumArgumentAlternative {
                    alias: self.values[i].alias.clone(),
                    value: self.values[i].value.duplicate(),
                },
            );
            i = i + 1;
        }
        proof {
            assert(alternatives_view(values@) =~= alternatives_view(self.values@));
        }
        EnumArgument {
            name: self.name.clone(),
            values,
            others_allowed: self.others_allowed,
            value_type: self.value_type,
        }
    }
}

/// The type of an argument.
#[derive(Debug, Clone, PartialEq)]
pub enum ArgumentType {
    String,
    Integer,
    IntegerOption,
    Float,
    FloatOption,
    Boolean,
    Enum(EnumArgument),
    GlobalEnum(String),
    Any,
    Nothing,
}

impl ArgumentType {
    pub open spec fn deep_eq(self, other: ArgumentType) -> bool {
        match (self, other) {
            (ArgumentType::Enum(a), ArgumentType::Enum(b)) => a.deep_eq(b),
            (ArgumentType::GlobalEnum(a), ArgumentType::GlobalEnum(b)) => a@ == b@,
            (ArgumentType::Enum(_), _) => false,
            (_, ArgumentType::Enum(_)) => false,
            (ArgumentType::GlobalEnum(_), _) => false,
            (_, ArgumentType::GlobalEnum(_)) => false,
            _ => self == other,
        }
    }

    pub fn duplicate(&self) -> (r: Self)
        ensures
            r.deep_eq(*self),
    {
        match self {
            ArgumentType::String => ArgumentType::String,
            ArgumentType::Integer => ArgumentType::Integer,
            ArgumentType::IntegerOption => ArgumentType::IntegerOption,
            ArgumentType::Float => ArgumentType::Float,
            ArgumentType::FloatOption => ArgumentType::FloatOption,
            ArgumentType::Boolean => ArgumentType::Boolean,
            ArgumentType::Enum(e) => ArgumentType::Enum(e.duplicate()),
            ArgumentType::GlobalEnum(n) => ArgumentType::GlobalEnum(n.clone()),
            ArgumentType::Any => ArgumentType::Any,
            ArgumentType::Nothing => ArgumentType::Nothing,
        }
    }

    pub fn is_option(&self) -> (r: bool)
        ensures
            r == (self is IntegerOption || self is FloatOption),
    {
        match self {
            ArgumentType::IntegerOption => true,
            ArgumentType::FloatOption => true,
            _ => false,
        }
    }

    pub fn is_any(&self) -> (r: bool)
        ensures
            r == (self is Any),
    {
        match self {
            ArgumentType::Any => true,
            _ => false,
        }
    }

    pub fn is_none(&self) -> (r: bool)
        ensures
            r == (self is Nothing),
    {
        match self {
            ArgumentType::Nothing => true,
            _ => false,
        }
    }

    /// Replaces a reference to a global enum by the enum the registry defines under that name.
    pub fn resolve_global_enums(&self, cmr: &CommandMetadataRegistry) -> (r: Result<Self, Error>)
        ensures
            match self {
                ArgumentType::GlobalEnum(name) => match cmr.spec_global_enum(name@) {
                    Some(e) => r matches Ok(t) && t matches ArgumentType::Enum(te) && te.deep_eq(e),
                    None => r matches Err(err) && err.error_type == crate::error::ErrorType::General,
                },
                _ => r matches Ok(t) && t.deep_eq(*self),
            },
    {
        match self {
            ArgumentType::GlobalEnum(name) => {
                match cmr.get_global_enum(name.as_str()) {
                    Some(global_enum) => Ok(ArgumentType::Enum(global_enum.duplicate())),
                    None => {
                        let mut m = owned("Global enum ");
                        push_str(&mut m, name.as_str());
                        push_str(&mut m, " not defined");
                        Err(Error::general_error(m))
                    },
                }
            },
            _ => Ok(self.duplicate()),
        }
    }
}

/// The widget a user interface should offer for an argument.
///
/// Numbers of a float slider are held as the JSON numbers they were written as.
#[derive(Debug, Clone, PartialEq)]
pub enum ArgumentGUIInfo {
    TextField(usize),
    TextArea(usize, usize),
    IntegerField,
    IntegerRange { min: i64, max: i64 },
    IntegerSlider { min: i64, max: i64, step: i64 },
    FloatField,
    FloatSlider { min: JsonValue, max: JsonValue, step: JsonValue },
    Checkbox,
    RadioBoolean { true_label: String, false_label: String },
    HorizontalRadioEnum,
    VerticalRadioEnum,
    EnumSelector,
    ColorString,
    Hide,
    Nothing,
}

impl ArgumentGUIInfo {
    pub open spec fn deep_eq(self, other: ArgumentGUIInfo) -> bool {
        match (self, other) {
            (
                ArgumentGUIInfo::FloatSlider { min: a, max: b, step: c },
                ArgumentGUIInfo::FloatSlider { min: x, max: y, step: z },
            ) => a.deep() == x.deep() && b.deep() == y.deep() && c.deep() == z.deep(),
            (
                ArgumentGUIInfo::RadioBoolean { true_label: a, false_label: b },
                ArgumentGUIInfo::RadioBoolean { true_label: x, false_label: y },
            ) => a@ == x@ && b@ == y@,
            (ArgumentGUIInfo::FloatSlider { .. }, _) => false,
            (_, ArgumentGUIInfo::FloatSlider { .. }) => false,
            (ArgumentGUIInfo::RadioBoolean { .. }, _) => false,
            (_, ArgumentGUIInfo::RadioBoolean { .. }) => false,
            _ => self == other,
        }
    }

    pub fn duplicate(&self) -> (r: Self)
        ensures
            r.deep_eq(*self),
    {
        match self {
            ArgumentGUIInfo::TextField(w) => ArgumentGUIInfo::TextField(*w),
            ArgumentGUIInfo::TextArea(w, h) => ArgumentGUIInfo::TextArea(*w, *h),
            ArgumentGUIInfo::IntegerField => ArgumentGUIInfo::IntegerField,
            ArgumentGUIInfo::IntegerRange { min, max } => ArgumentGUIInfo::IntegerRange {
                min: *min,
                max: *max,
            },
            ArgumentGUIInfo::IntegerSlider { min, max, step } => ArgumentGUIInfo::IntegerSlider {
                min: *min,
                max: *max,
                step: *step,
            },
            ArgumentGUIInfo::FloatField => ArgumentGUIInfo::FloatField,
            ArgumentGUIInfo::FloatSlider { min, max, step } => ArgumentGUIInfo::FloatSlider {
                min: min.duplicate(),
                max: max.duplicate(),
                step: step.duplicate(),
            },
            ArgumentGUIInfo::Checkbox => ArgumentGUIInfo::Checkbox,
            ArgumentGUIInfo::RadioBoolean { true_label, false_label } => ArgumentGUIInfo::RadioBoolean {
                true_label: true_label.clone(),
                false_label: false_label.clone(),
            },
            ArgumentGUIInfo::HorizontalRadioEnum => ArgumentGUIInfo::HorizontalRadioEnum,
            ArgumentGUIInfo::VerticalRadioEnum => ArgumentGUIInfo::VerticalRadioEnum,
            ArgumentGUIInfo::EnumSelector => ArgumentGUIInfo::EnumSelector,
            ArgumentGUIInfo::ColorString => ArgumentGUIInfo::ColorString,
            ArgumentGUIInfo::Hide => ArgumentGUIInfo::Hide,
            ArgumentGUIInfo::Nothing => ArgumentGUIInfo::Nothing,
        }
    }

    pub fn is_none(&self) -> (r: bool)
        ensures
            r == (self is Nothing),
    {
        match self {
            ArgumentGUIInfo::Nothing => true,
            _ => false,
        }
    }
}

/// The widget an argument gets unless it says otherwise: a text field 40 characters wide.
pub open spec fn default_gui() -> ArgumentGUIInfo {
    ArgumentGUIInfo::TextField(40)
}

/// A named preset of an argument's value.
#[derive(Debug, Clone, PartialEq)]
pub struct ParameterPreset {
    pub name: String,
    pub value: CommandParameterValue,
    pub description: String,
}

impl ParameterPreset {
    pub open spec fn deep_eq(self, other: ParameterPreset) -> bool {
        self.name@ == other.name@ && self.value.deep() == other.value.deep() && self.description@
            == other.description@
    }

    pub fn duplicate(&self) -> (r: Self)
        ensures
            r.deep_eq(*self),
    {
        ParameterPreset {
            name: self.name.clone(),
            value: self.value.duplicate(),
            description: self.description.clone(),
        }
    }
}

/// `s` with every `_` replaced by a space.
pub open spec fn underscores_to_spaces(s: Seq<char>) -> Seq<char> {
    s.map_values(|c: char| if c == '_' { ' ' } else { c })
}

/// `s` with every `_` replaced by a space, as `str::replace("_", " ")` gives it.
pub fn replace_underscores(s: &str) -> (r: String)
    ensures
        r@ == underscores_to_spaces(s@),
{
    let cs = chars_of(s);
    let mut out: Vec<char> = Vec::new();
    let mut i: usize = 0;
    while i < cs.len()
        invariant
            0 <= i <= cs.len(),
            cs@ == s@,
            out@ == underscores_to_spaces(s@.subrange(0, i as int)),
        decreases cs.len() - i,
    {
        let c = cs[i];
        if c == '_' {
            out.push(' ');
        } else {
            out.push(c);
        }
        proof {
            assert(underscores_to_spaces(s@.subrange(0, i + 1)) =~= underscores_to_spaces(
                s@.subrange(0, i as int),
            ).push(if c == '_' { ' ' } else { c }));
        }
        i = i + 1;
    }
    proof {
        assert(s@.subrange(0, s@.len() as int) =~= s@);
    }
    string_of(&out)
}

/// Description of one argument of a command.
#[derive(Debug, Clone, PartialEq)]
pub struct ArgumentInfo {
    pub name: String,
    pub label: String,
    pub default: CommandParameterValue,
    pub argument_type: ArgumentType,
    pub multiple: bool,
    pub injected: bool,
    pub gui_info: ArgumentGUIInfo,
    /// Free hints, as the members of a JSON object.
    pub hints: Vec<JsonMember>,
    pub presets: Vec<ParameterPreset>,
}

impl ArgumentInfo {
    pub open spec fn deep_eq(self, other: ArgumentInfo) -> bool {
        &&& self.name@ == other.name@
        &&& self.label@ == other.label@
        &&& self.default.deep() == other.default.deep()
        &&& self.argument_type.deep_eq(other.argument_type)
        &&& self.multiple == other.multiple
        &&& self.injected == other.injected
        &&& self.gui_info.deep_eq(other.gui_info)
        &&& members_view(self.hints@) == members_view(other.hints@)
        &&& self.presets@.len() == other.presets@.len()
        &&& forall|i: int|
            0 <= i < self.presets@.len() ==> (#[trigger] self.presets@[i]).deep_eq(other.presets@[i])
    }

    pub fn duplicate(&self) -> (r: Self)
        ensures
            r.deep_eq(*self),
    {
        let mut hints: Vec<JsonMember> = Vec::new();
        let mut i: usize = 0;
        while i < self.hints.len()
            invariant
                0 <= i <= self.hints.len(),
                hints.len() == i,
                forall|j: int|
                    0 <= j < i ==> (#[trigger] hints[j]).key@ == self.hints[j].key@
                        && hints[j].value.deep() == self.hints[j].value.deep(),
            decreases self.hints.len() - i,
        {
            hints.push(
                JsonMember { key: self.hints[i].key.clone(), value: self.hints[i].value.duplicate() },
            );
            i = i + 1;
        }
        proof {
            assert(members_view(hints@) =~= members_view(self.hints@));
        }
        let mut presets: Vec<ParameterPreset> = Vec::new();
        let mut k: usize = 0;
        while k < self.presets.len()
            invariant
                0 <= k <= self.presets.len(),
                presets.len() == k,
                forall|j: int| 0 <= j < k ==> (#[trigger] presets@[j]).deep_eq(self.presets@[j]),
            decreases self.presets.len() - k,
        {
            presets.push(self.presets[k].duplicate());
            k = k + 1;
        }
        ArgumentInfo {
            name: self.name.clone(),
            label: self.label.clone(),
            default: self.default.duplicate(),
            argument_type: self.argument_type.duplicate(),
            multiple: self.multiple,
            injected: self.injected,
            gui_info: self.gui_info.duplicate(),
            hints,
            presets,
        }
    }

    /// An argument of any type, labelled by its name with `_` shown as spaces.
    pub fn any_argument(name: &str) -> (r: Self)
        ensures
            r.name@ == name@,
            r.label@ == underscores_to_spaces(name@),
            r.default.deep() == ParamView::Nothing,
            r.argument_type == ArgumentType::Any,
            !r.multiple,
            !r.injected,
            r.gui_info == ArgumentGUIInfo::TextField(40),
            r.hints@.len() == 0,
            r.presets@.len() == 0,
    {
        ArgumentInfo {
            name: owned(name),
            label: replace_underscores(name),
            default: CommandParameterValue::Nothing,
            argument_type: ArgumentType::Any,
            multiple: false,
            injected: false,
            gui_info: ArgumentGUIInfo::TextField(40),
            hints: Vec::new(),
            presets: Vec::new(),
        }
    }

    /// An argument of any type; the same as [`ArgumentInfo::any_argument`].
    pub fn argument(name: &str) -> (r: Self)
        ensures
            r.name@ == name@,
            r.label@ == underscores_to_spaces(name@),
            r.default.deep() == ParamView::Nothing,
            r.argument_type == ArgumentType::Any,
            !r.multiple,
            !r.injected,
            r.gui_info == ArgumentGUIInfo::TextField(40),
            r.hints@.len() == 0,
            r.presets@.len() == 0,
    {
        ArgumentInfo::any_argument(name)
    }

    pub fn string_argument(name: &str) -> (r: Self)
        ensures
            r.name@ == name@,
            r.label@ == underscores_to_spaces(name@),
            r.default.deep() == ParamView::Nothing,
            r.argument_type == ArgumentType::String,
            !r.multiple,
            !r.injected,
            r.gui_info == ArgumentGUIInfo::TextField(40),
            r.hints@.len() == 0,
            r.presets@.len() == 0,
    {
        let mut a = ArgumentInfo::any_argument(name);
        a.argument_type = ArgumentType::String;
        a
    }

    /// An integer argument; an optional one defaults to `null`.
    pub fn integer_argument(name: &str, option: bool) -> (r: Self)
        ensures
            r.name@ == name@,
            r.label@ == underscores_to_spaces(name@),
            r.default.deep() == (if option {
                ParamView::Value(JsonView::Null)
            } else {
                ParamView::Nothing
            }),
            r.argument_type == (if option {
                ArgumentType::IntegerOption
            } else {
                ArgumentType::Integer
            }),
            !r.multiple,
            !r.injected,
            r.gui_info == ArgumentGUIInfo::IntegerField,
            r.hints@.len() == 0,
            r.presets@.len() == 0,
    {
        let mut a = ArgumentInfo::any_argument(name);
        a.default = if option {
            CommandParameterValue::null()
        } else {
            CommandParameterValue::Nothing
        };
        a.argument_type = if option {
            ArgumentType::IntegerOption
        } else {
            ArgumentType::Integer
        };
        a.gui_info = ArgumentGUIInfo::IntegerField;
        a
    }

    /// A float argument; an optional one defaults to `null`.
    pub fn float_argument(name: &str, option: bool) -> (r: Self)
        ensures
            r.name@ == name@,
            r.label@ == underscores_to_spaces(name@),
            r.default.deep() == (if option {
                ParamView::Value(JsonView::Null)
            } else {
                ParamView::Nothing
            }),
            r.argument_type == (if option {
                ArgumentType::FloatOption
            } else {
                ArgumentType::Float
            }),
            !r.multiple,
            !r.injected,
            r.gui_info == ArgumentGUIInfo::FloatField,
            r.hints@.len() == 0,
            r.presets@.len() == 0,
    {
        let mut a = ArgumentInfo::any_argument(name);
        a.default = if option {
            CommandParameterValue::null()
        } else {
            CommandParameterValue::Nothing
        };
        a.argument_type = if option {
            ArgumentType::FloatOption
        } else {
            ArgumentType::Float
        };
        a.gui_info = ArgumentGUIInfo::FloatField;
        a
    }

    pub fn boolean_argument(name: &str) -> (r: Self)
        ensures
            r.name@ == name@,
            r.label@ == underscores_to_spaces(name@),
            r.default.deep() == ParamView::Nothing,
            r.argument_type == ArgumentType::Boolean,
            !r.multiple,
            !r.injected,
            r.gui_info == ArgumentGUIInfo::Checkbox,
            r.hints@.len() == 0,
            r.presets@.len() == 0,
    {
        let mut a = ArgumentInfo::any_argument(name);
        a.argument_type = ArgumentType::Boolean;
        a.gui_info = ArgumentGUIInfo::Checkbox;
        a
    }

    pub fn with_default_none(self) -> (r: Self)
        ensures
            r.default.deep() == ParamView::Value(JsonView::Null),
            r.name == self.name,
            r.label == self.label,
            r.argument_type == self.argument_type,
            r.multiple == self.multiple,
            r.injected == self.injected,
            r.gui_info == self.gui_info,
            r.hints == self.hints,
            r.presets == self.presets,
    {
        let mut a = self;
        a.default = CommandParameterValue::null();
        a
    }

    pub fn with_type(self, argtype: ArgumentType) -> (r: Self)
        ensures
            r.argument_type == argtype,
            r.name == self.name,
            r.label == self.label,
            r.default == self.default,
            r.multiple == self.multiple,
            r.injected == self.injected,
            r.gui_info == self.gui_info,
            r.hints == self.hints,
            r.presets == self.presets,
    {
        let mut a = self;
        a.argument_type = argtype;
        a
    }

    pub fn with_default(self, value: JsonValue) -> (r: Self)
        ensures
            r.default.deep() == ParamView::Value(value.deep()),
            r.name == self.name,
            r.label == self.label,
            r.argument_type == self.argument_type,
            r.multiple == self.multiple,
            r.injected == self.injected,
            r.gui_info == self.gui_info,
            r.hints == self.hints,
            r.presets == self.presets,
    {
        let mut a = self;
        a.default = CommandParameterValue::Value(value);
        a
    }

    /// A boolean argument that defaults to `true`.
    pub fn true_by_default(self) -> (r: Self)
        ensures
            r.default.deep() == ParamView::Value(JsonView::Bool(true)),
            r.argument_type == ArgumentType::Boolean,
            r.name == self.name,
            r.label == self.label,
            r.multiple == self.multiple,
            r.injected == self.injected,
            r.gui_info == self.gui_info,
            r.hints == self.hints,
            r.presets == self.presets,
    {
        let mut a = self.with_type(ArgumentType::Boolean);
        a.default = CommandParameterValue::Value(JsonValue::Bool(true));
        a
    }

    /// A boolean argument that defaults to `false`.
    pub fn false_by_default(self) -> (r: Self)
        ensures
            r.default.deep() == ParamView::Value(JsonView::Bool(false)),
            r.argument_type == ArgumentType::Boolean,
            r.name == self.name,
            r.label == self.label,
            r.multiple == self.multiple,
            r.injected == self.injected,
            r.gui_info == self.gui_info,
            r.hints == self.hints,
            r.presets == self.presets,
    {
        let mut a = self.with_type(ArgumentType::Boolean);
        a.default = CommandParameterValue::Value(JsonValue::Bool(false));
        a
    }

    pub fn with_label(self, label: &str) -> (r: Self)
        ensures
            r.label@ == label@,
            r.name == self.name,
            r.default == self.default,
            r.argument_type == self.argument_type,
            r.multiple == self.multiple,
            r.injected == self.injected,
            r.gui_info == self.gui_info,
            r.hints == self.hints,
            r.presets == self.presets,
    {
        let mut a = self;
        a.label = owned(label);
        a
    }

    /// An argument injected by the interpreter; it has no widget.
    pub fn set_injected(self) -> (r: Self)
        ensures
            r.injected,
            r.gui_info == ArgumentGUIInfo::Nothing,
            r.name == self.name,
            r.label == self.label,
            r.default == self.default,
            r.argument_type == self.argument_type,
            r.multiple == self.multiple,
            r.hints == self.hints,
            r.presets == self.presets,
    {
        let mut a = self;
        a.injected = true;
        a.gui_info = ArgumentGUIInfo::Nothing;
        a
    }

    /// An argument that takes all remaining parameters.
    pub fn set_multiple(self) -> (r: Self)
        ensures
            r.multiple,
            r.name == self.name,
            r.label == self.label,
            r.default == self.default,
            r.argument_type == self.argument_type,
            r.injected == self.injected,
            r.gui_info == self.gui_info,
            r.hints == self.hints,
            r.presets == self.presets,
    {
        let mut a = self;
        a.multiple = true;
        a
    }

    /// Registry issues of this argument: there are none.
    pub fn check(&self, realm: &str, namespace: &str, name: &str) -> (r: Vec<CommandRegistryIssue>)
        ensures
            r@.len() == 0,
    {
        Vec::new()
    }

    /// This argument with a global-enum type replaced by the registry's enum.
    pub fn resolve_global_enums(&self, cmr: &CommandMetadataRegistry) -> (r: Result<Self, Error>)
        ensures
            match self.argument_type {
                ArgumentType::GlobalEnum(name) => match cmr.spec_global_enum(name@) {
                    Some(e) => r matches Ok(a) && a.argument_type matches ArgumentType::Enum(te)
                        && te.deep_eq(e) && a.name@ == self.name@ && a.label@ == self.label@,
                    None => r is Err,
                },
                _ => r matches Ok(a) && a.deep_eq(*self),
            },
    {
        let t = self.argument_type.resolve_global_enums(cmr)?;
        let mut a = self.duplicate();
        a.argument_type = t;
        Ok(a)
    }
}

/// A command key: realm, namespace and name.
#[derive(Debug, Clone, Default, PartialEq, Eq, Hash)]
pub struct CommandKey {
    pub realm: String,
    pub namespace: String,
    pub name: String,
}

/// The realm spelled by the empty string.
pub open spec fn default_realm() -> Seq<char> {
    "main"@
}

/// The namespace spelled by the empty string.
pub open spec fn default_namespace() -> Seq<char> {
    "root"@
}

/// A realm as a key records it: `main` is the empty realm.
pub open spec fn normal_realm(realm: Seq<char>) -> Seq<char> {
    if realm == default_realm() {
        Seq::empty()
    } else {
        realm
    }
}

/// A namespace as a key records it: `root` is the empty namespace.
pub open spec fn normal_namespace(namespace: Seq<char>) -> Seq<char> {
    if namespace == default_namespace() {
        Seq::empty()
    } else {
        namespace
    }
}

impl CommandKey {
    pub fn new(realm: &str, namespace: &str, name: &str) -> (r: Self)
        ensures
            r.realm@ == normal_realm(realm@),
            r.namespace@ == normal_namespace(namespace@),
            r.name@ == name@,
    {
        let realm_s = if str_eq(realm, "main") {
            owned("")
        } else {
            owned(realm)
        };
        let namespace_s = if str_eq(namespace, "root") {
            owned("")
        } else {
            owned(namespace)
        };
        proof {
            reveal_strlit("");
        }
        CommandKey { realm: realm_s, namespace: namespace_s, name: owned(name) }
    }

    pub fn new_name(name: &str) -> (r: Self)
        ensures
            r.realm@ == Seq::<char>::empty(),
            r.namespace@ == Seq::<char>::empty(),
            r.name@ == name@,
    {
        proof {
            reveal_strlit("");
        }
        CommandKey { realm: owned(""), namespace: owned(""), name: owned(name) }
    }

    /// `realm-namespace-name`.
    pub fn to_text(&self) -> (r: String)
        ensures
            r@ == self.realm@ + seq!['-'] + self.namespace@ + seq!['-'] + self.name@,
    {
        let mut s = self.realm.clone();
        push_str(&mut s, "-");
        push_str(&mut s, self.namespace.as_str());
        push_str(&mut s, "-");
        push_str(&mut s, self.name.as_str());
        proof {
            reveal_strlit("-");
            assert(s@ =~= self.realm@ + seq!['-'] + self.namespace@ + seq!['-'] + self.name@);
        }
        s
    }

    /// Whether two keys are the same key.
    pub fn same_key(&self, other: &CommandKey) -> (r: bool)
        ensures
            r == (self.realm@ == other.realm@ && self.namespace@ == other.namespace@ && self.name@
                == other.name@),
    {
        self.realm == other.realm && self.namespace == other.namespace && self.name == other.name
    }
}

/// How a command is defined: registered with an executor, or as an alias of another command.
#[derive(Debug, Clone, PartialEq)]
pub enum CommandDefinition {
    Registered,
    Alias { command: CommandKey, head_parameters: Vec<CommandParameterValue> },
}

impl CommandDefinition {
    pub open spec fn deep_eq(self, other: CommandDefinition) -> bool {
        match (self, other) {
            (CommandDefinition::Registered, CommandDefinition::Registered) => true,
            (
                CommandDefinition::Alias { command: a, head_parameters: p },
                CommandDefinition::Alias { command: b, head_parameters: q },
            ) => a.realm@ == b.realm@ && a.namespace@ == b.namespace@ && a.name@ == b.name@
                && p@.len() == q@.len() && forall|i: int|
                0 <= i < p@.len() ==> (#[trigger] p@[i]).deep() == q@[i].deep(),
            _ => false,
        }
    }

    pub fn duplicate(&self) -> (r: Self)
        ensures
            r.deep_eq(*self),
    {
        match self {
            CommandDefinition::Registered => CommandDefinition::Registered,
            CommandDefinition::Alias { command, head_parameters } => {
                let mut ps: Vec<CommandParameterValue> = Vec::new();
                let mut i: usize = 0;
                while i < head_parameters.len()
                    invariant
                        0 <= i <= head_parameters.len(),
                        ps.len() == i,
                        forall|j: int| 0 <= j < i ==> (#[trigger] ps@[j]).deep() == head_parameters@[j].deep(),
                    decreases head_parameters.len() - i,
                {
                    ps.push(head_parameters[i].duplicate());
                    i = i + 1;
                }
                CommandDefinition::Alias {
                    command: CommandKey {
                        realm: command.realm.clone(),
                        namespace: command.namespace.clone(),
                        name: command.name.clone(),
                    },
                    head_parameters: ps,
                }
            },
        }
    }
}

/// An action as a query writes it: a command name followed by its parameters.
#[derive(Debug, Clone, PartialEq)]
pub struct ActionRequest {
    pub name: String,
    pub parameters: Vec<String>,
}

/// The action text split at dashes: the first part and the parts after it.
pub open spec fn split_dashes(s: Seq<char>) -> Seq<Seq<char>>
    decreases s.len(),
{
    if s.len() == 0 {
        seq![Seq::empty()]
    } else {
        let rest = split_dashes(s.drop_first());
        if s[0] == '-' {
            seq![Seq::<char>::empty()] + rest
        } else {
            rest.update(0, seq![s[0]] + rest[0])
        }
    }
}

pub proof fn lemma_split_dashes_nonempty(s: Seq<char>)
    ensures
        split_dashes(s).len() >= 1,
    decreases s.len(),
{
    if s.len() > 0 {
        lemma_split_dashes_nonempty(s.drop_first());
    }
}

/// A preset of a command: an action with its parameters, a label and a description.
#[derive(Debug, Clone, PartialEq)]
pub struct CommandPreset {
    pub action: ActionRequest,
    pub label: String,
    pub description: String,
}

/// Whether a preset text is a single action: not empty, no `/`, no leading `-`.
pub open spec fn is_action_text(s: Seq<char>) -> bool {
    s.len() > 0 && s[0] != '-' && forall|i: int| 0 <= i < s.len() ==> s[i] != '/'
}

impl CommandPreset {
    /// A preset from its action text `name-param1-param2`. A text that is not a single action
    /// (empty, holding `/`, or starting with `-`) is refused.
    pub fn new(preset_action: &str, label: &str, description: &str) -> (r: Result<Self, Error>)
        ensures
            is_action_text(preset_action@) <==> r is Ok,
            r matches Ok(p) ==> {
                let parts = split_dashes(preset_action@);
                &&& p.action.name@ == parts[0]
                &&& p.action.parameters@.len() == parts.len() - 1
                &&& forall|i: int|
                    0 <= i < p.action.parameters@.len() ==> (#[trigger] p.action.parameters@[i])@
                        == parts[i + 1]
                &&& p.label@ == label@
                &&& p.description@ == description@
            },
            r matches Err(e) ==> e.error_type == crate::error::ErrorType::General,
    {
        let cs = chars_of(preset_action);
        let mut ok = cs.len() > 0 && cs[0] != '-';
        let mut k: usize = 0;
        while k < cs.len()
            invariant
                0 <= k <= cs.len(),
                cs@ == preset_action@,
                ok == (cs@.len() > 0 && cs@[0] != '-' && forall|i: int| 0 <= i < k ==> cs@[i] != '/'),
            decreases cs.len() - k,
        {
            if cs[k] == '/' {
                ok = false;
            }
            k = k + 1;
        }
        if !ok {
            let mut m = owned("Action expected as preset, got: ");
            push_str(&mut m, preset_action);
            return Err(Error::general_error(m));
        }
        let parts = split_action(&cs);
        proof {
            lemma_split_dashes_nonempty(cs@);
        }
        let mut parameters: Vec<String> = Vec::new();
        let mut i: usize = 1;
        while i < parts.len()
            invariant
                1 <= i <= parts.len(),
                parts.len() == split_dashes(cs@).len(),
                forall|j: int| 0 <= j < parts.len() ==> (#[trigger] parts@[j])@ == split_dashes(cs@)[j],
                parameters@.len() == i - 1,
                forall|j: int| 0 <= j < i - 1 ==> (#[trigger] parameters@[j])@ == split_dashes(cs@)[j + 1],
            decreases parts.len() - i,
        {
            parameters.push(parts[i].clone());
            i = i + 1;
        }
        Ok(
            CommandPreset {
                action: ActionRequest { name: parts[0].clone(), parameters },
                label: owned(label),
                description: owned(description),
            },
        )
    }
}

/// The parts of an action text between dashes.
fn split_action(cs: &Vec<char>) -> (r: Vec<String>)
    ensures
        r@.len() == split_dashes(cs@).len(),
        forall|j: int| 0 <= j < r@.len() ==> (#[trigger] r@[j])@ == split_dashes(cs@)[j],
{
    let mut parts: Vec<Vec<char>> = Vec::new();
    parts.push(Vec::new());
    let mut i: usize = cs.len();
    proof {
        assert(cs@.subrange(i as int, cs@.len() as int) =~= Seq::<char>::empty());
    }
    while i > 0
        invariant
            0 <= i <= cs.len(),
            parts@.len() == split_dashes(cs@.subrange(i as int, cs@.len() as int)).len(),
            forall|j: int| 0 <= j < parts@.len() ==> (#[trigger] parts@[j])@ == split_dashes(
                cs@.subrange(i as int, cs@.len() as int),
            )[j],
        decreases i,
    {
        let ghost tail = cs@.subrange(i as int, cs@.len() as int);
        let ghost full = cs@.subrange(i - 1, cs@.len() as int);
        proof {
            assert(full.drop_first() =~= tail);
            assert(full[0] == cs@[i - 1]);
            lemma_split_dashes_nonempty(tail);
        }
        let c = cs[i - 1];
        if c == '-' {
            let ghost before = parts@;
            parts.insert(0, Vec::new());
            proof {
                assert forall|j: int| 0 <= j < parts@.len() implies (#[trigger] parts@[j])@ == split_dashes(full)[j] by {
                    if j > 0 {
                        assert(parts@[j] == before[j - 1]);
                    }
                }
            }
        } else {
            let mut first = parts.remove(0);
            first.insert(0, c);
            parts.insert(0, first);
            proof {
                assert(first@ =~= seq![c] + split_dashes(tail)[0]);
            }
        }
        i = i - 1;
    }
    proof {
        assert(cs@.subrange(0, cs@.len() as int) =~= cs@);
    }
    let mut out: Vec<String> = Vec::new();
    let mut k: usize = 0;
    while k < parts.len()
        invariant
            0 <= k <= parts.len(),
            out@.len() == k,
            forall|j: int| 0 <= j < k ==> (#[trigger] out@[j])@ == parts@[j]@,
        decreases parts.len() - k,
    {
        out.push(string_of(&parts[k]));
        k = k + 1;
    }
    out
}

/// Metadata of a command.
#[derive(Debug, Clone, PartialEq)]
pub struct CommandMetadata {
    pub realm: String,
    pub namespace: String,
    pub name: String,
    pub label: String,
    pub module: String,
    pub doc: String,
    pub presets: Vec<CommandPreset>,
    pub next: Vec<CommandPreset>,
    pub filename: String,
    pub state_argument: Option<ArgumentInfo>,
    pub arguments: Vec<ArgumentInfo>,
    pub cache: bool,
    pub volatile: bool,
    pub definition: CommandDefinition,
}


/// The reading of a preset: action name, parameters, label and description.
pub open spec fn preset_view(p: CommandPreset) -> (Seq<char>, Seq<Seq<char>>, Seq<char>, Seq<char>) {
    (p.action.name@, p.action.parameters@.map_values(|s: String| s@), p.label@, p.description@)
}

pub open spec fn presets_view(ps: Seq<CommandPreset>) -> Seq<(Seq<char>, Seq<Seq<char>>, Seq<char>, Seq<char>)> {
    ps.map_values(|p: CommandPreset| preset_view(p))
}

impl CommandPreset {
    pub fn duplicate(&self) -> (r: Self)
        ensures
            preset_view(r) == preset_view(*self),
    {
        let mut parameters: Vec<String> = Vec::new();
        let mut i: usize = 0;
        while i < self.action.parameters.len()
            invariant
                0 <= i <= self.action.parameters.len(),
                parameters@.len() == i,
                forall|j: int| 0 <= j < i ==> (#[trigger] parameters@[j])@ == self.action.parameters@[j]@,
            decreases self.action.parameters.len() - i,
        {
            parameters.push(self.action.parameters[i].clone());
            i = i + 1;
        }
        proof {
            assert(parameters@.map_values(|s: String| s@) =~= self.action.parameters@.map_values(
                |s: String| s@,
            ));
        }
        CommandPreset {
            action: ActionRequest { name: self.action.name.clone(), parameters },
            label: self.label.clone(),
            description: self.description.clone(),
        }
    }
}

fn duplicate_presets(ps: &Vec<CommandPreset>) -> (r: Vec<CommandPreset>)
    ensures
        presets_view(r@) == presets_view(ps@),
{
    let mut out: Vec<CommandPreset> = Vec::new();
    let mut i: usize = 0;
    while i < ps.len()
        invariant
            0 <= i <= ps.len(),
            out@.len() == i,
            forall|j: int| 0 <= j < i ==> preset_view(#[trigger] out@[j]) == preset_view(ps@[j]),
        decreases ps.len() - i,
    {
        out.push(ps[i].duplicate());
        i = i + 1;
    }
    proof {
        assert(presets_view(out@) =~= presets_view(ps@));
    }
    out
}

fn duplicate_arguments(args: &Vec<ArgumentInfo>) -> (r: Vec<ArgumentInfo>)
    ensures
        r@.len() == args@.len(),
        forall|j: int| 0 <= j < args@.len() ==> (#[trigger] r@[j]).deep_eq(args@[j]),
{
    let mut out: Vec<ArgumentInfo> = Vec::new();
    let mut i: usize = 0;
    while i < args.len()
        invariant
            0 <= i <= args.len(),
            out@.len() == i,
            forall|j: int| 0 <= j < i ==> (#[trigger] out@[j]).deep_eq(args@[j]),
        decreases args.len() - i,
    {
        out.push(args[i].duplicate());
        i = i + 1;
    }
    out
}

/// Whether two optional arguments describe the same argument.
pub open spec fn same_optional_argument(a: Option<ArgumentInfo>, b: Option<ArgumentInfo>) -> bool {
    match (a, b) {
        (Some(x), Some(y)) => x.deep_eq(y),
        (None, None) => true,
        _ => false,
    }
}

/// The state argument a new command gets: any value, named `state`.
pub open spec fn is_default_state_argument(a: Option<ArgumentInfo>) -> bool {
    a matches Some(s) && s.name@ == "state"@ && s.label@ == "state"@ && s.argument_type
        == ArgumentType::Any && s.default.deep() == ParamView::Nothing && !s.multiple && !s.injected
        && s.gui_info == default_gui() && s.hints@.len() == 0 && s.presets@.len() == 0
}

impl CommandMetadata {
    pub open spec fn deep_eq(self, other: CommandMetadata) -> bool {
        &&& self.realm@ == other.realm@
        &&& self.namespace@ == other.namespace@
        &&& self.name@ == other.name@
        &&& self.label@ == other.label@
        &&& self.module@ == other.module@
        &&& self.doc@ == other.doc@
        &&& presets_view(self.presets@) == presets_view(other.presets@)
        &&& presets_view(self.next@) == presets_view(other.next@)
        &&& self.filename@ == other.filename@
        &&& same_optional_argument(self.state_argument, other.state_argument)
        &&& self.arguments@.len() == other.arguments@.len()
        &&& forall|i: int|
            0 <= i < self.arguments@.len() ==> (#[trigger] self.arguments@[i]).deep_eq(
                other.arguments@[i],
            )
        &&& self.cache == other.cache
        &&& self.volatile == other.volatile
        &&& self.definition.deep_eq(other.definition)
    }

    pub fn duplicate(&self) -> (r: Self)
        ensures
            r.deep_eq(*self),
    {
        let state_argument = match &self.state_argument {
            Some(a) => Some(a.duplicate()),
            None => None,
        };
        CommandMetadata {
            realm: self.realm.clone(),
            namespace: self.namespace.clone(),
            name: self.name.clone(),
            label: self.label.clone(),
            module: self.module.clone(),
            doc: self.doc.clone(),
            presets: duplicate_presets(&self.presets),
            next: duplicate_presets(&self.next),
            filename: self.filename.clone(),
            state_argument,
            arguments: duplicate_arguments(&self.arguments),
            cache: self.cache,
            volatile: self.volatile,
            definition: self.definition.duplicate(),
        }
    }

    /// Whether this is the metadata a new command gets: no module, documentation, presets,
    /// suggestions, filename or arguments; a `state` argument of any type; cached, not volatile,
    /// registered.
    pub open spec fn is_fresh(self) -> bool {
        &&& self.module@.len() == 0
        &&& self.doc@.len() == 0
        &&& self.presets@.len() == 0
        &&& self.next@.len() == 0
        &&& self.filename@.len() == 0
        &&& is_default_state_argument(self.state_argument)
        &&& self.arguments@.len() == 0
        &&& self.cache
        &&& !self.volatile
        &&& self.definition == CommandDefinition::Registered
    }

    /// A new command in the `root` namespace of the empty realm, labelled by its name with `_`
    /// shown as spaces.
    pub fn new(name: &str) -> (r: Self)
        ensures
            r.realm@ == Seq::<char>::empty(),
            r.namespace@ == "root"@,
            r.name@ == name@,
            r.label@ == underscores_to_spaces(name@),
            r.is_fresh(),
    {
        let r = CommandMetadata {
            realm: owned(""),
            namespace: owned("root"),
            name: owned(name),
            label: replace_underscores(name),
            module: owned(""),
            doc: owned(""),
            presets: Vec::new(),
            next: Vec::new(),
            filename: owned(""),
            state_argument: Some(ArgumentInfo::any_argument("state")),
            arguments: Vec::new(),
            cache: true,
            volatile: false,
            definition: CommandDefinition::Registered,
        };
        proof {
            reveal_strlit("");
            reveal_strlit("state");
            assert(underscores_to_spaces("state"@) =~= "state"@);
        }
        r
    }

    /// A new command under the realm, namespace and name of a key.
    pub fn from_key(key: CommandKey) -> (r: Self)
        ensures
            r.realm@ == key.realm@,
            r.namespace@ == key.namespace@,
            r.name@ == key.name@,
            r.label@ == underscores_to_spaces(key.name@),
            r.is_fresh(),
    {
        let label = replace_underscores(key.name.as_str());
        let r = CommandMetadata {
            realm: key.realm,
            namespace: key.namespace,
            name: key.name,
            label,
            module: owned(""),
            doc: owned(""),
            presets: Vec::new(),
            next: Vec::new(),
            filename: owned(""),
            state_argument: Some(ArgumentInfo::any_argument("state")),
            arguments: Vec::new(),
            cache: true,
            volatile: false,
            definition: CommandDefinition::Registered,
        };
        proof {
            reveal_strlit("");
            reveal_strlit("state");
            assert(underscores_to_spaces("state"@) =~= "state"@);
        }
        r
    }

    /// The key of this command, with `main` and `root` read as the empty realm and namespace.
    pub fn key(&self) -> (r: CommandKey)
        ensures
            r.realm@ == normal_realm(self.realm@),
            r.namespace@ == normal_namespace(self.namespace@),
            r.name@ == self.name@,
    {
        CommandKey::new(self.realm.as_str(), self.namespace.as_str(), self.name.as_str())
    }

    /// Registry issues of this command: an error for an empty name, an error for the reserved
    /// name `ns`.
    pub fn check(&self) -> (r: Vec<CommandRegistryIssue>)
        ensures
            r@.len() == (if self.name@.len() == 0 { 1nat } else { 0nat }) + (if self.name@
                == "ns"@ { 1nat } else { 0nat }),
            forall|i: int| 0 <= i < r@.len() ==> (#[trigger] r@[i]).is_error,
            forall|i: int| 0 <= i < r@.len() ==> (#[trigger] r@[i]).realm@ == self.realm@
                && r@[i].namespace@ == self.namespace@ && r@[i].name@ == self.name@,
            self.name@.len() == 0 ==> r@[0].message@ == "Command name is empty"@,
            self.name@ == "ns"@ ==> r@[0].message@ == "Command name 'ns' is reserved"@,
    {
        let mut issues: Vec<CommandRegistryIssue> = Vec::new();
        if self.name.as_str().unicode_len() == 0 {
            issues.push(
                CommandRegistryIssue::error(
                    self.realm.as_str(),
                    self.namespace.as_str(),
                    self.name.as_str(),
                    owned("Command name is empty"),
                ),
            );
        }
        if str_eq(self.name.as_str(), "ns") {
            issues.push(
                CommandRegistryIssue::error(
                    self.realm.as_str(),
                    self.namespace.as_str(),
                    self.name.as_str(),
                    owned("Command name 'ns' is reserved"),
                ),
            );
        }
        proof {
            reveal_strlit("ns");
        }
        issues
    }

    pub fn with_label(&mut self, label: &str)
        ensures
            final(self).label@ == label@,
            *final(self) == (CommandMetadata { label: final(self).label, ..*old(self) }),
    {
        self.label = owned(label);
    }

    pub fn with_state_argument(&mut self, state_argument: ArgumentInfo)
        ensures
            *final(self) == (CommandMetadata { state_argument: Some(state_argument), ..*old(self) }),
    {
        self.state_argument = Some(state_argument);
    }

    pub fn no_state_argument(&mut self)
        ensures
            *final(self) == (CommandMetadata { state_argument: None, ..*old(self) }),
    {
        self.state_argument = None;
    }

    pub fn with_argument(&mut self, argument: ArgumentInfo)
        ensures
            final(self).arguments@ == old(self).arguments@.push(argument),
            *final(self) == (CommandMetadata { arguments: final(self).arguments, ..*old(self) }),
    {
        self.arguments.push(argument);
    }

    pub fn with_doc(&mut self, doc: &str)
        ensures
            final(self).doc@ == doc@,
            *final(self) == (CommandMetadata { doc: final(self).doc, ..*old(self) }),
    {
        self.doc = owned(doc);
    }

    pub fn with_realm(&mut self, realm: &str)
        ensures
            final(self).realm@ == realm@,
            *final(self) == (CommandMetadata { realm: final(self).realm, ..*old(self) }),
    {
        self.realm = owned(realm);
    }

    pub fn with_namespace(&mut self, namespace: &str)
        ensures
            final(self).namespace@ == namespace@,
            *final(self) == (CommandMetadata { namespace: final(self).namespace, ..*old(self) }),
    {
        self.namespace = owned(namespace);
    }

    pub fn with_name(&mut self, name: &str)
        ensures
            final(self).name@ == name@,
            *final(self) == (CommandMetadata { name: final(self).name, ..*old(self) }),
    {
        self.name = owned(name);
    }

    pub fn with_module(&mut self, module: &str)
        ensures
            final(self).module@ == module@,
            *final(self) == (CommandMetadata { module: final(self).module, ..*old(self) }),
    {
        self.module = owned(module);
    }

    pub fn with_filename(&mut self, filename: &str)
        ensures
            final(self).filename@ == filename@,
            *final(self) == (CommandMetadata { filename: final(self).filename, ..*old(self) }),
    {
        self.filename = owned(filename);
    }

    /// This command with every global-enum argument type replaced by the registry's enum; an
    /// error when an argument names a global enum the registry does not define.
    pub fn resolve_global_enums(&self, cmr: &CommandMetadataRegistry) -> (r: Result<Self, Error>)
        ensures
            (forall|i: int| 0 <= i < self.arguments@.len() ==> #[trigger] cmr.resolves(self.arguments@[i].argument_type)) <==> r is Ok,
            r matches Ok(m) ==> {
                &&& m.arguments@.len() == self.arguments@.len()
                &&& forall|i: int| 0 <= i < self.arguments@.len() ==> cmr.resolved(
                    self.arguments@[i],
                    #[trigger] m.arguments@[i],
                )
                &&& m.name@ == self.name@ && m.realm@ == self.realm@ && m.namespace@ == self.namespace@
            },
    {
        let mut m = self.duplicate();
        let mut args: Vec<ArgumentInfo> = Vec::new();
        let mut i: usize = 0;
        while i < self.arguments.len()
            invariant
                0 <= i <= self.arguments.len(),
                args@.len() == i,
                forall|j: int| 0 <= j < i ==> #[trigger] cmr.resolves(self.arguments@[j].argument_type),
                forall|j: int| 0 <= j < i ==> cmr.resolved(self.arguments@[j], #[trigger] args@[j]),
            decreases self.arguments.len() - i,
        {
            match self.arguments[i].resolve_global_enums(cmr) {
                Ok(a) => {
                    args.push(a);
                },
                Err(e) => {
                    proof {
                        assert(!cmr.resolves(self.arguments@[i as int].argument_type));
                    }
                    return Err(e);
                },
            }
            i = i + 1;
        }
        m.arguments = args;
        Ok(m)
    }
}

/// Command registry: the metadata of every command known, default namespaces searched for a
/// command, and enums defined once and named by arguments.
#[derive(Debug, Clone)]
pub struct CommandMetadataRegistry {
    pub commands: Vec<CommandMetadata>,
    pub default_namespaces: Vec<String>,
    pub global_enums: Vec<(String, EnumArgument)>,
}

/// Index of the first command with this realm, namespace and name.
pub open spec fn find_command_index(
    commands: Seq<CommandMetadata>,
    realm: Seq<char>,
    namespace: Seq<char>,
    name: Seq<char>,
) -> Option<int>
    decreases commands.len(),
{
    if commands.len() == 0 {
        None
    } else {
        let last = commands.len() - 1;
        match find_command_index(commands.drop_last(), realm, namespace, name) {
            Some(i) => Some(i),
            None => if commands[last].realm@ == realm && commands[last].namespace@ == namespace
                && commands[last].name@ == name {
                Some(last)
            } else {
                None
            },
        }
    }
}

/// Whether a command has this realm, namespace and name.
pub open spec fn has_key(c: CommandMetadata, realm: Seq<char>, namespace: Seq<char>, name: Seq<char>) -> bool {
    c.realm@ == realm && c.namespace@ == namespace && c.name@ == name
}

pub proof fn lemma_find_command_index(
    commands: Seq<CommandMetadata>,
    realm: Seq<char>,
    namespace: Seq<char>,
    name: Seq<char>,
)
    ensures
        match find_command_index(commands, realm, namespace, name) {
            Some(i) => 0 <= i < commands.len() && has_key(commands[i], realm, namespace, name)
                && forall|j: int| 0 <= j < i ==> !has_key(#[trigger] commands[j], realm, namespace, name),
            None => forall|j: int| 0 <= j < commands.len() ==> !has_key(#[trigger] commands[j], realm, namespace, name),
        },
    decreases commands.len(),
{
    if commands.len() > 0 {
        lemma_find_command_index(commands.drop_last(), realm, namespace, name);
        assert forall|j: int| 0 <= j < commands.len() - 1 implies #[trigger] commands[j] == commands.drop_last()[j] by {}
    }
}

/// Whether no two commands share realm, namespace and name.
pub open spec fn unique_keys(commands: Seq<CommandMetadata>) -> bool {
    forall|i: int, j: int|
        0 <= i < commands.len() && 0 <= j < commands.len() && i != j ==> !has_key(
            #[trigger] commands[i],
            commands[j].realm@,
            commands[j].namespace@,
            #[trigger] commands[j].name@,
        )
}

/// Index of the first global enum with this name.
pub open spec fn find_enum_index(enums: Seq<(String, EnumArgument)>, name: Seq<char>) -> Option<int>
    decreases enums.len(),
{
    if enums.len() == 0 {
        None
    } else {
        match find_enum_index(enums.drop_last(), name) {
            Some(i) => Some(i),
            None => if enums.last().0@ == name {
                Some(enums.len() - 1)
            } else {
                None
            },
        }
    }
}

pub proof fn lemma_find_enum_index(enums: Seq<(String, EnumArgument)>, name: Seq<char>)
    ensures
        match find_enum_index(enums, name) {
            Some(i) => 0 <= i < enums.len() && enums[i].0@ == name && forall|j: int|
                0 <= j < i ==> (#[trigger] enums[j]).0@ != name,
            None => forall|j: int| 0 <= j < enums.len() ==> (#[trigger] enums[j]).0@ != name,
        },
    decreases enums.len(),
{
    if enums.len() > 0 {
        lemma_find_enum_index(enums.drop_last(), name);
        assert forall|j: int| 0 <= j < enums.len() - 1 implies #[trigger] enums[j] == enums.drop_last()[j] by {}
    }
}

impl CommandMetadataRegistry {
    /// The global enum a name stands for: the first one registered under it.
    pub open spec fn spec_global_enum(self, name: Seq<char>) -> Option<EnumArgument> {
        match find_enum_index(self.global_enums@, name) {
            Some(i) => Some(self.global_enums@[i].1),
            None => None,
        }
    }

    /// Whether an argument type names no global enum, or one the registry defines.
    pub open spec fn resolves(self, t: ArgumentType) -> bool {
        t matches ArgumentType::GlobalEnum(n) ==> self.spec_global_enum(n@) is Some
    }

    /// Whether `b` is `a` with a global-enum type replaced by the registry's enum.
    pub open spec fn resolved(self, a: ArgumentInfo, b: ArgumentInfo) -> bool {
        match a.argument_type {
            ArgumentType::GlobalEnum(n) => b.argument_type matches ArgumentType::Enum(te)
                && self.spec_global_enum(n@) matches Some(e) && te.deep_eq(e) && b.name@ == a.name@
                && b.label@ == a.label@,
            _ => b.deep_eq(a),
        }
    }

    /// The command with this realm, namespace and name, as stored.
    pub open spec fn spec_get(self, realm: Seq<char>, namespace: Seq<char>, name: Seq<char>) -> Option<CommandMetadata> {
        match find_command_index(self.commands@, realm, namespace, name) {
            Some(i) => Some(self.commands@[i]),
            None => None,
        }
    }

    /// An empty registry whose default namespaces are the empty one and `root`.
    pub fn new() -> (r: Self)
        ensures
            r.commands@.len() == 0,
            r.global_enums@.len() == 0,
            r.default_namespaces@.len() == 2,
            r.default_namespaces@[0]@ == Seq::<char>::empty(),
            r.default_namespaces@[1]@ == "root"@,
    {
        let mut ns: Vec<String> = Vec::new();
        ns.push(owned(""));
        ns.push(owned("root"));
        proof {
            reveal_strlit("");
        }
        CommandMetadataRegistry { commands: Vec::new(), default_namespaces: ns, global_enums: Vec::new() }
    }

    pub fn get_global_enum(&self, name: &str) -> (r: Option<&EnumArgument>)
        ensures
            match self.spec_global_enum(name@) {
                Some(e) => r matches Some(x) && *x == e,
                None => r is None,
            },
    {
        proof {
            lemma_find_enum_index(self.global_enums@, name@);
        }
        let mut i: usize = 0;
        while i < self.global_enums.len()
            invariant
                0 <= i <= self.global_enums.len(),
                forall|j: int| 0 <= j < i ==> (#[trigger] self.global_enums@[j]).0@ != name@,
                match find_enum_index(self.global_enums@, name@) {
                    Some(k) => 0 <= k < self.global_enums@.len() && self.global_enums@[k].0@ == name@
                        && forall|j: int| 0 <= j < k ==> (#[trigger] self.global_enums@[j]).0@ != name@,
                    None => forall|j: int| 0 <= j < self.global_enums@.len() ==> (#[trigger] self.global_enums@[j]).0@ != name@,
                },
            decreases self.global_enums.len() - i,
        {
            if str_eq(self.global_enums[i].0.as_str(), name) {
                return Some(&self.global_enums[i].1);
            }
            i = i + 1;
        }
        None
    }

    /// Position of the command with this realm, namespace and name.
    fn position(&self, realm: &str, namespace: &str, name: &str) -> (r: Option<usize>)
        ensures
            r is None <==> find_command_index(self.commands@, realm@, namespace@, name@) is None,
            r matches Some(k) ==> find_command_index(self.commands@, realm@, namespace@, name@) == Some(k as int),
            r matches Some(k) ==> k < self.commands@.len() && has_key(self.commands@[k as int], realm@, namespace@, name@),
    {
        proof {
            lemma_find_command_index(self.commands@, realm@, namespace@, name@);
        }
        let mut i: usize = 0;
        while i < self.commands.len()
            invariant
                0 <= i <= self.commands.len(),
                forall|j: int| 0 <= j < i ==> !has_key(#[trigger] self.commands@[j], realm@, namespace@, name@),
                match find_command_index(self.commands@, realm@, namespace@, name@) {
                    Some(k) => 0 <= k < self.commands@.len() && has_key(self.commands@[k], realm@, namespace@, name@)
                        && forall|j: int| 0 <= j < k ==> !has_key(#[trigger] self.commands@[j], realm@, namespace@, name@),
                    None => forall|j: int| 0 <= j < self.commands@.len() ==> !has_key(#[trigger] self.commands@[j], realm@, namespace@, name@),
                },
            decreases self.commands.len() - i,
        {
            let c = &self.commands[i];
            if str_eq(c.realm.as_str(), realm) && str_eq(c.namespace.as_str(), namespace) && str_eq(c.name.as_str(), name) {
                proof {
                    assert(has_key(self.commands@[i as int], realm@, namespace@, name@));
                }
                return Some(i);
            }
            i = i + 1;
        }
        None
    }

    /// Adds a command; one already held under the same realm, namespace and name is replaced
    /// in place.
    pub fn add_command(&mut self, command: &CommandMetadata)
        ensures
            spec_added(*old(self), *final(self), *command),
            final(self).spec_get(command.realm@, command.namespace@, command.name@) matches Some(x) && x.deep_eq(*command),
            unique_keys(old(self).commands@) ==> unique_keys(final(self).commands@),
    {
        let c = command.duplicate();
        match self.position(command.realm.as_str(), command.namespace.as_str(), command.name.as_str()) {
            Some(k) => {
                self.commands.set(k, c);
            },
            None => {
                self.commands.push(c);
            },
        }
        proof {
            law_get_after_add(*old(self), *self, *command, command.realm@, command.namespace@, command.name@);
            if unique_keys(old(self).commands@) {
                law_add_keeps_keys_unique(*old(self), *self, *command);
            }
        }
    }

    /// Removes the command under a key and hands it back.
    pub fn remove_command(&mut self, key: CommandKey) -> (r: Option<CommandMetadata>)
        ensures
            spec_removed(*old(self), *final(self), key.realm@, key.namespace@, key.name@),
            r == old(self).spec_get(key.realm@, key.namespace@, key.name@),
            unique_keys(old(self).commands@) ==> unique_keys(final(self).commands@)
                && final(self).spec_get(key.realm@, key.namespace@, key.name@) is None,
    {
        let ghost k0 = key;
        let r = match self.position(key.realm.as_str(), key.namespace.as_str(), key.name.as_str()) {
            Some(k) => Some(self.commands.remove(k)),
            None => None,
        };
        proof {
            if unique_keys(old(self).commands@) {
                law_get_after_remove(*old(self), *self, k0, k0.realm@, k0.namespace@, k0.name@);
                lemma_remove_keeps_keys_unique(*old(self), *self, k0);
            }
        }
        r
    }

    /// The command under a key.
    pub fn get(&self, key: CommandKey) -> (r: Option<&CommandMetadata>)
        ensures
            match self.spec_get(key.realm@, key.namespace@, key.name@) {
                Some(c) => r matches Some(x) && *x == c,
                None => r is None,
            },
    {
        match self.position(key.realm.as_str(), key.namespace.as_str(), key.name.as_str()) {
            Some(k) => Some(&self.commands[k]),
            None => None,
        }
    }

    /// The command under a key, to change in place.
    pub fn get_mut(&mut self, key: CommandKey) -> (r: Option<&mut CommandMetadata>)
        ensures
            match find_command_index(old(self).commands@, key.realm@, key.namespace@, key.name@) {
                Some(k) => r matches Some(x) && *x == old(self).commands@[k] && final(self).commands@
                    == old(self).commands@.update(k, *final(x)),
                None => r is None && final(self).commands@ == old(self).commands@,
            },
            final(self).default_namespaces == old(self).default_namespaces,
            final(self).global_enums == old(self).global_enums,
    {
        match self.position(key.realm.as_str(), key.namespace.as_str(), key.name.as_str()) {
            Some(k) => Some(&mut self.commands[k]),
            None => None,
        }
    }

    /// A copy of the command with this realm, namespace and name.
    pub fn find_command(&self, realm: &str, namespace: &str, name: &str) -> (r: Option<CommandMetadata>)
        ensures
            match self.spec_get(realm@, namespace@, name@) {
                Some(c) => r matches Some(x) && x.deep_eq(c),
                None => r is None,
            },
    {
        match self.position(realm, namespace, name) {
            Some(k) => Some(self.commands[k].duplicate()),
            None => None,
        }
    }

    /// The command with this realm and name in the first of the namespaces that has one.
    pub fn find_command_in_namespaces(&self, realm: &str, namespaces: &Vec<String>, name: &str) -> (r: Option<CommandMetadata>)
        ensures
            match first_namespace_with(*self, realm@, namespaces@, name@) {
                Some(i) => r matches Some(x) && self.spec_get(realm@, namespaces@[i]@, name@) matches Some(c)
                    && x.deep_eq(c),
                None => r is None,
            },
    {
        let mut i: usize = 0;
        while i < namespaces.len()
            invariant
                0 <= i <= namespaces.len(),
                first_namespace_from(*self, realm@, namespaces@, name@, 0) == first_namespace_from(*self, realm@, namespaces@, name@, i as int),
            decreases namespaces.len() - i,
        {
            if let Some(c) = self.find_command(realm, namespaces[i].as_str(), name) {
                return Some(c);
            }
            i = i + 1;
        }
        None
    }
}

/// Index of the first namespace, from `start` on, under which the registry holds the command.
pub open spec fn first_namespace_from(
    reg: CommandMetadataRegistry,
    realm: Seq<char>,
    namespaces: Seq<String>,
    name: Seq<char>,
    start: int,
) -> Option<int>
    decreases namespaces.len() - start,
{
    if start < 0 || start >= namespaces.len() {
        None
    } else if reg.spec_get(realm, namespaces[start]@, name) is Some {
        Some(start)
    } else {
        first_namespace_from(reg, realm, namespaces, name, start + 1)
    }
}

pub open spec fn first_namespace_with(
    reg: CommandMetadataRegistry,
    realm: Seq<char>,
    namespaces: Seq<String>,
    name: Seq<char>,
) -> Option<int> {
    first_namespace_from(reg, realm, namespaces, name, 0)
}


/// Whether `after` is `before` with `c` added: stored in place of the command under the same
/// realm, namespace and name, or appended when there is none.
pub open spec fn spec_added(before: CommandMetadataRegistry, after: CommandMetadataRegistry, c: CommandMetadata) -> bool {
    &&& match find_command_index(before.commands@, c.realm@, c.namespace@, c.name@) {
        Some(k) => after.commands@.len() == before.commands@.len() && after.commands@[k].deep_eq(c)
            && forall|j: int|
            0 <= j < before.commands@.len() && j != k ==> #[trigger] after.commands@[j]
                == before.commands@[j],
        None => after.commands@.len() == before.commands@.len() + 1 && after.commands@.last().deep_eq(c)
            && forall|j: int|
            0 <= j < before.commands@.len() ==> #[trigger] after.commands@[j] == before.commands@[j],
    }
    &&& after.default_namespaces == before.default_namespaces
    &&& after.global_enums == before.global_enums
}

/// Whether `after` is `before` without the command under this realm, namespace and name.
pub open spec fn spec_removed(
    before: CommandMetadataRegistry,
    after: CommandMetadataRegistry,
    realm: Seq<char>,
    namespace: Seq<char>,
    name: Seq<char>,
) -> bool {
    &&& match find_command_index(before.commands@, realm, namespace, name) {
        Some(k) => after.commands@ == before.commands@.remove(k),
        None => after.commands@ == before.commands@,
    }
    &&& after.default_namespaces == before.default_namespaces
    &&& after.global_enums == before.global_enums
}

/// Reading back what was added: after a command is added, looking up its realm, namespace and
/// name finds that command, and every other key finds what it found before.
pub proof fn law_get_after_add(
    before: CommandMetadataRegistry,
    after: CommandMetadataRegistry,
    c: CommandMetadata,
    realm: Seq<char>,
    namespace: Seq<char>,
    name: Seq<char>,
)
    requires
        spec_added(before, after, c),
    ensures
        after.spec_get(c.realm@, c.namespace@, c.name@) matches Some(x) && x.deep_eq(c),
        !(realm == c.realm@ && namespace == c.namespace@ && name == c.name@) ==> after.spec_get(
            realm,
            namespace,
            name,
        ) == before.spec_get(realm, namespace, name),
{
    lemma_find_command_index(before.commands@, c.realm@, c.namespace@, c.name@);
    lemma_find_command_index(after.commands@, c.realm@, c.namespace@, c.name@);
    lemma_find_command_index(before.commands@, realm, namespace, name);
    lemma_find_command_index(after.commands@, realm, namespace, name);
    match find_command_index(before.commands@, c.realm@, c.namespace@, c.name@) {
        Some(k) => {
            assert(has_key(after.commands@[k], c.realm@, c.namespace@, c.name@));
            assert(forall|j: int| 0 <= j < k ==> after.commands@[j] == before.commands@[j]);
            if !(realm == c.realm@ && namespace == c.namespace@ && name == c.name@) {
                assert(!has_key(after.commands@[k], realm, namespace, name));
                assert(!has_key(before.commands@[k], realm, namespace, name));
                assert forall|j: int| 0 <= j < after.commands@.len() implies has_key(#[trigger] after.commands@[j], realm, namespace, name) == has_key(before.commands@[j], realm, namespace, name) by {
                    if j != k {
                        assert(after.commands@[j] == before.commands@[j]);
                    }
                }
                match find_command_index(before.commands@, realm, namespace, name) {
                    Some(m) => {
                        assert(m != k);
                        assert(after.commands@[m] == before.commands@[m]);
                    },
                    None => {},
                }
            }
        },
        None => {
            let n = before.commands@.len() as int;
            assert(has_key(after.commands@[n], c.realm@, c.namespace@, c.name@));
            if !(realm == c.realm@ && namespace == c.namespace@ && name == c.name@) {
                assert(!has_key(after.commands@[n], realm, namespace, name));
                assert forall|j: int| 0 <= j < after.commands@.len() implies has_key(#[trigger] after.commands@[j], realm, namespace, name) == (j < n && has_key(before.commands@[j], realm, namespace, name)) by {
                    if j < n {
                        assert(after.commands@[j] == before.commands@[j]);
                    }
                }
                match find_command_index(before.commands@, realm, namespace, name) {
                    Some(m) => {
                        assert(after.commands@[m] == before.commands@[m]);
                    },
                    None => {},
                }
            }
        },
    }
}

/// Adding keeps the keys of a registry unique.
pub proof fn law_add_keeps_keys_unique(before: CommandMetadataRegistry, after: CommandMetadataRegistry, c: CommandMetadata)
    requires
        spec_added(before, after, c),
        unique_keys(before.commands@),
    ensures
        unique_keys(after.commands@),
{
    lemma_find_command_index(before.commands@, c.realm@, c.namespace@, c.name@);
    match find_command_index(before.commands@, c.realm@, c.namespace@, c.name@) {
        Some(k) => {
            assert forall|i: int, j: int|
                0 <= i < after.commands@.len() && 0 <= j < after.commands@.len() && i != j implies !has_key(
                #[trigger] after.commands@[i],
                after.commands@[j].realm@,
                after.commands@[j].namespace@,
                #[trigger] after.commands@[j].name@,
            ) by {
                if i != k && j != k {
                    assert(!has_key(before.commands@[i], before.commands@[j].realm@, before.commands@[j].namespace@, before.commands@[j].name@));
                } else if i == k {
                    assert(!has_key(before.commands@[j], before.commands@[k].realm@, before.commands@[k].namespace@, before.commands@[k].name@));
                } else {
                    assert(!has_key(before.commands@[i], before.commands@[k].realm@, before.commands@[k].namespace@, before.commands@[k].name@));
                }
            }
        },
        None => {
            let n = before.commands@.len() as int;
            assert forall|i: int, j: int|
                0 <= i < after.commands@.len() && 0 <= j < after.commands@.len() && i != j implies !has_key(
                #[trigger] after.commands@[i],
                after.commands@[j].realm@,
                after.commands@[j].namespace@,
                #[trigger] after.commands@[j].name@,
            ) by {
                if i != n && j != n {
                    assert(!has_key(before.commands@[i], before.commands@[j].realm@, before.commands@[j].namespace@, before.commands@[j].name@));
                } else if i == n {
                    assert(!has_key(before.commands@[j], c.realm@, c.namespace@, c.name@));
                } else {
                    assert(!has_key(before.commands@[i], c.realm@, c.namespace@, c.name@));
                }
            }
        },
    }
}

/// A removed command is gone: in a registry whose keys are unique, looking up the removed key
/// after removal finds nothing, and every other key finds what it found before.
pub proof fn law_get_after_remove(
    before: CommandMetadataRegistry,
    after: CommandMetadataRegistry,
    key: CommandKey,
    realm: Seq<char>,
    namespace: Seq<char>,
    name: Seq<char>,
)
    requires
        spec_removed(before, after, key.realm@, key.namespace@, key.name@),
        unique_keys(before.commands@),
    ensures
        after.spec_get(key.realm@, key.namespace@, key.name@) is None,
        !(realm == key.realm@ && namespace == key.namespace@ && name == key.name@) ==> after.spec_get(
            realm,
            namespace,
            name,
        ) == before.spec_get(realm, namespace, name),
{
    lemma_find_command_index(before.commands@, key.realm@, key.namespace@, key.name@);
    lemma_find_command_index(after.commands@, key.realm@, key.namespace@, key.name@);
    lemma_find_command_index(before.commands@, realm, namespace, name);
    lemma_find_command_index(after.commands@, realm, namespace, name);
    match find_command_index(before.commands@, key.realm@, key.namespace@, key.name@) {
        Some(k) => {
            assert forall|j: int| 0 <= j < after.commands@.len() implies !has_key(
                #[trigger] after.commands@[j],
                key.realm@,
                key.namespace@,
                key.name@,
            ) by {
                if j < k {
                    assert(after.commands@[j] == before.commands@[j]);
                } else {
                    assert(after.commands@[j] == before.commands@[j + 1]);
                    assert(!has_key(before.commands@[j + 1], before.commands@[k].realm@, before.commands@[k].namespace@, before.commands@[k].name@));
                }
            }
            if !(realm == key.realm@ && namespace == key.namespace@ && name == key.name@) {
                assert(!has_key(before.commands@[k], realm, namespace, name));
                assert forall|j: int| 0 <= j < after.commands@.len() implies #[trigger] after.commands@[j] == before.commands@[if j < k { j } else { j + 1 }] by {}
                match find_command_index(before.commands@, realm, namespace, name) {
                    Some(m) => {
                        if m < k {
                            assert(after.commands@[m] == before.commands@[m]);
                        } else {
                            assert(after.commands@[m - 1] == before.commands@[m]);
                            assert forall|j: int| 0 <= j < m - 1 implies !has_key(#[trigger] after.commands@[j], realm, namespace, name) by {
                                if j >= k {
                                    assert(after.commands@[j] == before.commands@[j + 1]);
                                }
                            }
                        }
                    },
                    None => {},
                }
            }
        },
        None => {},
    }
}
/// Removing a command keeps the keys of a registry unique.
proof fn lemma_remove_keeps_keys_unique(before: CommandMetadataRegistry, after: CommandMetadataRegistry, key: CommandKey)
    requires
        spec_removed(before, after, key.realm@, key.namespace@, key.name@),
        unique_keys(before.commands@),
    ensures
        unique_keys(after.commands@),
{
    lemma_find_command_index(before.commands@, key.realm@, key.namespace@, key.name@);
    match find_command_index(before.commands@, key.realm@, key.namespace@, key.name@) {
        Some(k) => {
            let b = before.commands@;
            let a = after.commands@;
            assert forall|i: int, j: int| 0 <= i < a.len() && 0 <= j < a.len() && i != j implies !has_key(
                #[trigger] a[i], a[j].realm@, a[j].namespace@, #[trigger] a[j].name@) by {
                let i2 = if i < k { i } else { i + 1 };
                let j2 = if j < k { j } else { j + 1 };
                assert(a[i] == b[i2] && a[j] == b[j2]);
                assert(!has_key(b[i2], b[j2].realm@, b[j2].namespace@, b[j2].name@));
            }
        },
        None => {},
    }
}

/// Whether `m` is the fresh metadata a key gets when a command is registered under it.
pub open spec fn made_from_key(m: CommandMetadata, key: CommandKey) -> bool {
    &&& m.realm@ == key.realm@
    &&& m.namespace@ == key.namespace@
    &&& m.name@ == key.name@
    &&& m.label@ == underscores_to_spaces(key.name@)
    &&& m.module@.len() == 0
    &&& m.doc@.len() == 0
    &&& m.presets@.len() == 0
    &&& m.next@.len() == 0
    &&& m.filename@.len() == 0
    &&& m.state_argument matches Some(s) && s.name@ == "state"@
    &&& m.arguments@.len() == 0
    &&& m.cache
    &&& !m.volatile
    &&& m.definition is Registered
}

/// A copy of the metadata a key gets is such metadata too.
pub proof fn lemma_made_from_key_copy(m: CommandMetadata, x: CommandMetadata, key: CommandKey)
    requires
        made_from_key(m, key),
        x.deep_eq(m),
    ensures
        made_from_key(x, key),
{
    assert(presets_view(x.presets@).len() == presets_view(m.presets@).len());
    assert(presets_view(x.next@).len() == presets_view(m.next@).len());
}

/// Fresh metadata under a key's realm, namespace and name is the metadata the key gets.
pub proof fn lemma_fresh_is_made_from_key(m: CommandMetadata, key: CommandKey)
    requires
        m.realm@ == key.realm@,
        m.namespace@ == key.namespace@,
        m.name@ == key.name@,
        m.label@ == underscores_to_spaces(key.name@),
        m.is_fresh(),
    ensures
        made_from_key(m, key),
{
}

} // verus!
