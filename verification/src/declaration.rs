//! A command declaration: how a function becomes a command, and the stages that turn a
//! declaration into [`CommandMetadata`](crate::command_metadata::CommandMetadata).
//!
//! ```text
//! 2. enhance    the author's declaration is merged over the baseline
//! 3. apply      conventions reinterpret the composed result
//! 4. fill       defaults are derived for whatever is still absent
//! 5. build      convert to metadata, or report what is wrong
//! ```
use vstd::prelude::*;
use crate::json::{
    JsonValue, JsonView, JsonMember, lookup, lookup_str, str_eq, set_member, member_lookup,
    items_view, members_view, lemma_array_view, lemma_object_view, object_set, lemma_lookup_set_same,
    lemma_lookup_set_other, lemma_set_member_same,
};
use crate::merge::{find_named_entry, merge_object, spec_merge_object, find_named, find_named_from, entry_name, lemma_find_named_bounds, lemma_find_named_first, lemma_find_named_none};
use crate::error::{Error, ErrorType};
use crate::command_metadata::{ArgumentInfo, CommandMetadata};
use crate::metadata_json::{read_metadata, metadata_ok, reads_metadata, str_or_empty, bool_or};
use crate::text::{
    chars_of, string_of, owned, push_str, is_uppercase, is_lowercase, is_numeric, is_alphabetic,
    to_lowercase, char_to_uppercase, char_is_uppercase, char_is_lowercase, char_is_numeric,
    char_is_alphabetic, lowercase, uppercase_char, debug_quoted, decimal,
};

verus! {

/// How the input state reaches the callable: nothing (a source command), the state wrapper,
/// the value, the value as text, or a reserved name that means `Value` today.
#[derive(Debug, Clone, PartialEq, Eq)]
pub enum StateDelivery {
    Nothing,
    State,
    Value,
    Text,
    Reserved(String),
}

impl StateDelivery {
    /// The recorded spelling of a mode.
    pub open spec fn spec_name(self) -> Seq<char> {
        match self {
            StateDelivery::Nothing => "none"@,
            StateDelivery::State => "state"@,
            StateDelivery::Value => "value"@,
            StateDelivery::Text => "text"@,
            StateDelivery::Reserved(name) => name@,
        }
    }

    /// Whether this is the mode a first argument named `name` selects.
    pub open spec fn derived_from(self, name: Seq<char>) -> bool {
        &&& (name == "none"@ || name == "na"@) <==> self is Nothing
        &&& name == "state"@ <==> self is State
        &&& name == "value"@ <==> self is Value
        &&& name == "text"@ <==> self is Text
        &&& self matches StateDelivery::Reserved(s) ==> s@ == name
    }

    /// Derives the mode from the first argument's name: `none` and `na` mean nothing is passed,
    /// `state`, `value` and `text` name their modes, anything else is reserved under its name.
    pub fn from_argument_name(name: &str) -> (r: Self)
        ensures
            r.derived_from(name@),
    {
        proof {
            reveal_strlit("none");
            reveal_strlit("na");
            reveal_strlit("state");
            reveal_strlit("value");
            reveal_strlit("text");
            assert("state"@[0] != "none"@[0] && "state"@[0] != "na"@[0]);
            assert("value"@[0] != "none"@[0] && "value"@[0] != "na"@[0] && "value"@[0] != "state"@[0]);
            assert("text"@[0] != "none"@[0] && "text"@[0] != "na"@[0] && "text"@[0] != "state"@[0] && "text"@[0] != "value"@[0]);
        }
        if str_eq(name, "none") || str_eq(name, "na") {
            StateDelivery::Nothing
        } else if str_eq(name, "state") {
            StateDelivery::State
        } else if str_eq(name, "value") {
            StateDelivery::Value
        } else if str_eq(name, "text") {
            StateDelivery::Text
        } else {
            StateDelivery::Reserved(owned(name))
        }
    }

    /// What an integration performs: a reserved mode behaves as `Value`.
    pub fn effective(&self) -> (r: StateDelivery)
        ensures
            r == (match *self {
                StateDelivery::Reserved(_) => StateDelivery::Value,
                StateDelivery::Nothing => StateDelivery::Nothing,
                StateDelivery::State => StateDelivery::State,
                StateDelivery::Value => StateDelivery::Value,
                StateDelivery::Text => StateDelivery::Text,
            }),
    {
        match self {
            StateDelivery::Nothing => StateDelivery::Nothing,
            StateDelivery::State => StateDelivery::State,
            StateDelivery::Value => StateDelivery::Value,
            StateDelivery::Text => StateDelivery::Text,
            StateDelivery::Reserved(_) => StateDelivery::Value,
        }
    }

    /// The recorded spelling: `none`, `state`, `value`, `text`, or a reserved name verbatim.
    pub fn as_str(&self) -> (r: &str)
        ensures
            r@ == self.spec_name(),
    {
        match self {
            StateDelivery::Nothing => "none",
            StateDelivery::State => "state",
            StateDelivery::Value => "value",
            StateDelivery::Text => "text",
            StateDelivery::Reserved(name) => name.as_str(),
        }
    }

    /// Whether the state reaches the callable at all.
    pub fn passes_state(&self) -> (r: bool)
        ensures
            r == !(self is Nothing),
    {
        match self {
            StateDelivery::Nothing => false,
            _ => true,
        }
    }
}

/// The recorded spelling of a mode is the name it was derived from, except that `na` is
/// recorded as `none`.
pub proof fn law_spelling_round_trips(name: Seq<char>, d: StateDelivery)
    requires
        d.derived_from(name),
    ensures
        d.spec_name() == if name == "na"@ { "none"@ } else { name },
{
    reveal_strlit("none");
    reveal_strlit("na");
    assert("none"@ != "na"@) by {
        assert("none"@.len() != "na"@.len());
    }
}

/// Which conventions apply: `context` lifts an argument named `context` out of the arguments,
/// `state` makes the first argument the state. Both default to on.
#[derive(Debug, Clone, Copy, PartialEq, Eq, Structural)]
pub struct Conventions {
    pub context: bool,
    pub state: bool,
}

impl Default for Conventions {
    fn default() -> (r: Self)
        ensures
            r.context && r.state,
    {
        Conventions { context: true, state: true }
    }
}

/// The conventions a declaration's `conventions` value selects.
pub open spec fn spec_conventions(value: Option<JsonView>) -> Conventions {
    match value {
        Some(JsonView::Bool(false)) => Conventions { context: false, state: false },
        Some(JsonView::Object(ms)) => Conventions {
            context: match lookup(JsonView::Object(ms), "context"@) {
                Some(JsonView::Bool(b)) => b,
                _ => true,
            },
            state: match lookup(JsonView::Object(ms), "state"@) {
                Some(JsonView::Bool(b)) => b,
                _ => true,
            },
        },
        _ => Conventions { context: true, state: true },
    }
}

impl Conventions {
    /// Reads a `conventions` value: `false` disables both, an object disables those it sets to
    /// `false`; anything else leaves both on.
    pub fn from_value(value: Option<&JsonValue>) -> (r: Self)
        ensures
            r == spec_conventions(
                match value {
                    Some(v) => Some(v.deep()),
                    None => None,
                },
            ),
    {
        let mut c = Conventions { context: true, state: true };
        match value {
            None => c,
            Some(v) => {
                if v.is_object() {
                    match v.get("context") {
                        Some(b) => match b.as_bool() {
                            Some(x) => {
                                c.context = x;
                            },
                            None => {},
                        },
                        None => {},
                    }
                    match v.get("state") {
                        Some(b) => match b.as_bool() {
                            Some(x) => {
                                c.state = x;
                            },
                            None => {},
                        },
                        None => {},
                    }
                    proof {
                        reveal_strlit("context");
                        reveal_strlit("state");
                    }
                    c
                } else {
                    match v.as_bool() {
                        Some(false) => Conventions { context: false, state: false },
                        _ => c,
                    }
                }
            },
        }
    }
}

/// What a non-fatal diagnostic is about.
#[derive(Debug, Clone, Copy, PartialEq, Eq, Structural)]
pub enum WarningKind {
    /// The first argument's name has no defined meaning; it is treated as `value`.
    ReservedStateDelivery,
    /// A `context` argument preceded the state, shifting which argument became the state.
    ContextBeforeState,
    /// No introspection ran, arguments were declared and no state was: a source command by
    /// omission.
    NoIntrospection,
    /// A declared key cannot reach the metadata and was dropped.
    DroppedKey,
}

/// A non-fatal diagnostic: the command it concerns, what it is about, and what to tell the
/// author.
#[derive(Debug, Clone, PartialEq, Eq)]
pub struct Warning {
    pub command: String,
    pub kind: WarningKind,
    pub message: String,
}

/// The reading of a warning.
pub open spec fn warning_view(w: Warning) -> (Seq<char>, WarningKind, Seq<char>) {
    (w.command@, w.kind, w.message@)
}

pub open spec fn warnings_view(ws: Seq<Warning>) -> Seq<(Seq<char>, WarningKind, Seq<char>)> {
    ws.map_values(|w: Warning| warning_view(w))
}

// --- labels ------------------------------------------------------------------------------------

/// Characters that separate the parts of an identifier.
pub open spec fn is_separator(c: char) -> bool {
    c == '_' || c == '-' || c == ' '
}

/// Splitting the first `n` characters at separators: the finished parts and the part in progress.
pub open spec fn separator_fold(cs: Seq<char>, n: nat) -> (Seq<Seq<char>>, Seq<char>)
    decreases n,
{
    if n == 0 {
        (Seq::empty(), Seq::empty())
    } else {
        let (parts, current) = separator_fold(cs, (n - 1) as nat);
        let c = cs[n - 1];
        if is_separator(c) {
            if current.len() > 0 {
                (parts.push(current), Seq::empty())
            } else {
                (parts, Seq::empty())
            }
        } else {
            (parts, current.push(c))
        }
    }
}

/// The non-empty parts of an identifier between separators.
pub open spec fn separator_parts(cs: Seq<char>) -> Seq<Seq<char>> {
    let (parts, current) = separator_fold(cs, cs.len());
    if current.len() > 0 {
        parts.push(current)
    } else {
        parts
    }
}

/// Whether a word starts before position `i` of an identifier fragment: `i` holds a capital,
/// and the character before it is lowercase or numeric, or the one after it is lowercase.
pub open spec fn camel_boundary(cs: Seq<char>, i: int) -> bool {
    &&& i > 0
    &&& char_is_uppercase(cs[i])
    &&& (char_is_lowercase(cs[i - 1]) || char_is_numeric(cs[i - 1]) || (i + 1 < cs.len()
        && char_is_lowercase(cs[i + 1])))
}

/// Splitting the first `n` characters of a fragment at word boundaries.
pub open spec fn camel_fold(cs: Seq<char>, n: nat) -> (Seq<Seq<char>>, Seq<char>)
    decreases n,
{
    if n == 0 {
        (Seq::empty(), Seq::empty())
    } else {
        let (words, current) = camel_fold(cs, (n - 1) as nat);
        let i = n - 1;
        if camel_boundary(cs, i) && current.len() > 0 {
            (words.push(current), seq![cs[i]])
        } else {
            (words, current.push(cs[i]))
        }
    }
}

/// The words of an identifier fragment.
pub open spec fn camel_words(cs: Seq<char>) -> Seq<Seq<char>> {
    let (words, current) = camel_fold(cs, cs.len());
    if current.len() > 0 {
        words.push(current)
    } else {
        words
    }
}

/// The words of the first `k` parts, in order.
pub open spec fn words_of_parts(parts: Seq<Seq<char>>, k: nat) -> Seq<Seq<char>>
    decreases k,
{
    if k == 0 || k > parts.len() {
        Seq::empty()
    } else {
        words_of_parts(parts, (k - 1) as nat) + camel_words(parts[k - 1])
    }
}

/// Whether a word holds a letter and no lowercase character.
pub open spec fn spec_all_caps(w: Seq<char>) -> bool {
    (exists|i: int| 0 <= i < w.len() && char_is_alphabetic(#[trigger] w[i])) && (forall|i: int|
        0 <= i < w.len() ==> !char_is_lowercase(#[trigger] w[i]))
}

/// A word as a label shows it: kept when all capitals, lowercased otherwise.
pub open spec fn render_word(w: Seq<char>) -> Seq<char> {
    if spec_all_caps(w) {
        w
    } else {
        lowercase(w)
    }
}

/// The first `k` words joined by single spaces.
pub open spec fn join_words(ws: Seq<Seq<char>>, k: nat) -> Seq<char>
    decreases k,
{
    if k == 0 || k > ws.len() {
        Seq::empty()
    } else if k == 1 {
        ws[0]
    } else {
        join_words(ws, (k - 1) as nat) + seq![' '] + ws[k - 1]
    }
}

/// `s` with its first character mapped to uppercase.
pub open spec fn capitalize(s: Seq<char>) -> Seq<char> {
    if s.len() == 0 {
        s
    } else {
        uppercase_char(s[0]) + s.drop_first()
    }
}

/// The label derived from an identifier.
pub open spec fn spec_derive_label(name: Seq<char>) -> Seq<char> {
    let words = words_of_parts(separator_parts(name), separator_parts(name).len());
    if words.len() == 0 {
        Seq::empty()
    } else {
        let rendered = words.map_values(|w: Seq<char>| render_word(w));
        capitalize(join_words(rendered, rendered.len()))
    }
}

pub open spec fn strings_view(v: Seq<String>) -> Seq<Seq<char>> {
    v.map_values(|s: String| s@)
}

/// Whether a word holds a letter and no lowercase character, so that an acronym is kept.
pub fn is_all_caps(word: &str) -> (r: bool)
    ensures
        r == spec_all_caps(word@),
{
    let cs = chars_of(word);
    let mut any_alpha = false;
    let mut no_lower = true;
    let mut i: usize = 0;
    while i < cs.len()
        invariant
            0 <= i <= cs.len(),
            cs@ == word@,
            any_alpha == (exists|j: int| 0 <= j < i && char_is_alphabetic(#[trigger] cs@[j])),
            no_lower == (forall|j: int| 0 <= j < i ==> !char_is_lowercase(#[trigger] cs@[j])),
        decreases cs.len() - i,
    {
        if is_alphabetic(cs[i]) {
            any_alpha = true;
        }
        if is_lowercase(cs[i]) {
            no_lower = false;
        }
        i = i + 1;
    }
    any_alpha && no_lower
}

/// Splits one identifier fragment at lower-to-upper boundaries, and before the last capital of
/// a run of capitals followed by a lowercase letter: `HTTPResponse` gives `HTTP`, `Response`.
pub fn split_camel_case(part: &str) -> (r: Vec<String>)
    ensures
        strings_view(r@) == camel_words(part@),
{
    let cs = chars_of(part);
    let mut words: Vec<String> = Vec::new();
    let mut current: Vec<char> = Vec::new();
    let mut i: usize = 0;
    while i < cs.len()
        invariant
            0 <= i <= cs.len(),
            cs@ == part@,
            (strings_view(words@), current@) == camel_fold(cs@, i as nat),
        decreases cs.len() - i,
    {
        let c = cs[i];
        let mut boundary = false;
        if i > 0 && is_uppercase(c) {
            let previous = cs[i - 1];
            let next_is_lower = if i + 1 < cs.len() {
                is_lowercase(cs[i + 1])
            } else {
                false
            };
            if is_lowercase(previous) || is_numeric(previous) || next_is_lower {
                boundary = true;
            }
        }
        proof {
            assert(boundary == camel_boundary(cs@, i as int));
        }
        if boundary && current.len() > 0 {
            let ghost before = words@;
            words.push(string_of(&current));
            proof {
                assert(strings_view(words@) =~= strings_view(before).push(current@));
            }
            current = Vec::new();
            current.push(c);
            proof {
                assert(current@ =~= seq![c]);
            }
        } else {
            current.push(c);
        }
        i = i + 1;
    }
    if current.len() > 0 {
        let ghost before = words@;
        words.push(string_of(&current));
        proof {
            assert(strings_view(words@) =~= strings_view(before).push(current@));
        }
    }
    words
}

/// The non-empty parts of an identifier between `_`, `-` and spaces.
fn separator_split(name: &str) -> (r: Vec<String>)
    ensures
        strings_view(r@) == separator_parts(name@),
{
    let cs = chars_of(name);
    let mut parts: Vec<String> = Vec::new();
    let mut current: Vec<char> = Vec::new();
    let mut i: usize = 0;
    while i < cs.len()
        invariant
            0 <= i <= cs.len(),
            cs@ == name@,
            (strings_view(parts@), current@) == separator_fold(cs@, i as nat),
        decreases cs.len() - i,
    {
        let c = cs[i];
        if c == '_' || c == '-' || c == ' ' {
            if current.len() > 0 {
                let ghost before = parts@;
                parts.push(string_of(&current));
                proof {
                    assert(strings_view(parts@) =~= strings_view(before).push(current@));
                }
            }
            current = Vec::new();
            proof {
                assert(current@ =~= Seq::<char>::empty());
            }
        } else {
            current.push(c);
        }
        i = i + 1;
    }
    if current.len() > 0 {
        let ghost before = parts@;
        parts.push(string_of(&current));
        proof {
            assert(strings_view(parts@) =~= strings_view(before).push(current@));
        }
    }
    parts
}

/// Derives a readable label from an identifier: `snake_case` and `camelCase` are broken into
/// words, a run of capitals is kept as one word, and the first letter is capitalised.
/// `to_text` and `toText` give `To text`, `toHTML` gives `To HTML`, `parseHTTPResponse` gives
/// `Parse HTTP response`.
pub fn derive_label(name: &str) -> (r: String)
    ensures
        r@ == spec_derive_label(name@),
{
    let parts = separator_split(name);
    let ghost ps = separator_parts(name@);
    let mut words: Vec<String> = Vec::new();
    let mut k: usize = 0;
    while k < parts.len()
        invariant
            0 <= k <= parts.len(),
            strings_view(parts@) == ps,
            ps.len() == parts.len(),
            strings_view(words@) == words_of_parts(ps, k as nat),
        decreases parts.len() - k,
    {
        let ws = split_camel_case(parts[k].as_str());
        let ghost before = words@;
        let mut j: usize = 0;
        while j < ws.len()
            invariant
                0 <= j <= ws.len(),
                words@ == before + ws@.subrange(0, j as int),
            decreases ws.len() - j,
        {
            words.push(ws[j].clone());
            proof {
                assert(words@ =~= before + ws@.subrange(0, j + 1));
            }
            j = j + 1;
        }
        proof {
            assert(ws@.subrange(0, ws@.len() as int) =~= ws@);
            assert(ps[k as int] == parts@[k as int]@);
            assert(strings_view(words@) =~= strings_view(before) + strings_view(ws@));
        }
        k = k + 1;
    }
    let ghost wv = strings_view(words@);
    if words.len() == 0 {
        return String::new();
    }
    let ghost rendered = wv.map_values(|w: Seq<char>| render_word(w));
    let mut label = String::new();
    let mut i: usize = 0;
    while i < words.len()
        invariant
            0 <= i <= words.len(),
            wv == strings_view(words@),
            rendered == wv.map_values(|w: Seq<char>| render_word(w)),
            label@ == join_words(rendered, i as nat),
        decreases words.len() - i,
    {
        let w = words[i].as_str();
        let shown = if is_all_caps(w) {
            words[i].clone()
        } else {
            to_lowercase(w)
        };
        proof {
            assert(shown@ == rendered[i as int]);
        }
        if i > 0 {
            push_str(&mut label, " ");
            proof {
                reveal_strlit(" ");
            }
        }
        push_str(&mut label, shown.as_str());
        proof {
            if i == 0 {
                assert(label@ =~= join_words(rendered, 1));
            } else {
                assert(label@ =~= join_words(rendered, (i + 1) as nat));
            }
        }
        i = i + 1;
    }
    let cs = chars_of(label.as_str());
    if cs.len() == 0 {
        return label;
    }
    let mut out = char_to_uppercase(cs[0]);
    let mut m: usize = 1;
    while m < cs.len()
        invariant
            1 <= m <= cs.len(),
            cs@ == label@,
            out@ == uppercase_char(cs@[0]) + cs@.subrange(1, m as int),
        decreases cs.len() - m,
    {
        crate::text::push_char(&mut out, cs[m]);
        proof {
            assert(out@ =~= uppercase_char(cs@[0]) + cs@.subrange(1, m + 1));
        }
        m = m + 1;
    }
    proof {
        assert(cs@.subrange(1, cs@.len() as int) =~= cs@.drop_first());
    }
    out
}


// --- the declaration ---------------------------------------------------------------------------

/// A command declaration in the course of being composed: the merged document, whether it
/// came from introspection, whether the conventions were applied, and the warnings so far.
pub struct CommandDeclaration {
    doc: JsonValue,
    introspected: bool,
    conventions_applied: bool,
    warnings: Vec<Warning>,
}

/// The reading of a declaration.
pub struct DeclView {
    pub doc: JsonView,
    pub introspected: bool,
    pub applied: bool,
    pub warnings: Seq<(Seq<char>, WarningKind, Seq<char>)>,
}

/// The command name a document declares; empty when it declares none.
pub open spec fn spec_command_name(doc: JsonView) -> Seq<char> {
    match lookup_str(doc, "name"@) {
        Some(s) => s,
        None => Seq::empty(),
    }
}

/// The argument entries of a document, when it holds an `arguments` array.
pub open spec fn spec_arguments(doc: JsonView) -> Option<Seq<JsonView>> {
    match lookup(doc, "arguments"@) {
        Some(JsonView::Array(items)) => Some(items),
        _ => None,
    }
}

/// `doc` with `key` bound to `v` when it is an object.
pub open spec fn with_key(doc: JsonView, key: Seq<char>, v: JsonView) -> JsonView {
    match doc {
        JsonView::Object(ms) => JsonView::Object(set_member(ms, key, v)),
        other => other,
    }
}

/// The registration hints of a document; `null` when it has none.
pub open spec fn spec_registration(doc: JsonView) -> JsonView {
    match lookup(doc, "registration"@) {
        Some(v) => v,
        None => JsonView::Null,
    }
}

/// `doc` with the registration hint `key` set to `v`; a registration that is not an object is
/// replaced by one.
pub open spec fn spec_set_registration(doc: JsonView, key: Seq<char>, v: JsonView) -> JsonView {
    match doc {
        JsonView::Object(_) => {
            let reg = match lookup(doc, "registration"@) {
                Some(JsonView::Object(rm)) => rm,
                _ => Seq::empty(),
            };
            with_key(doc, "registration"@, JsonView::Object(set_member(reg, key, v)))
        },
        other => other,
    }
}

/// `ws` with `w` added, unless it is already there.
pub open spec fn add_warning(
    ws: Seq<(Seq<char>, WarningKind, Seq<char>)>,
    w: (Seq<char>, WarningKind, Seq<char>),
) -> Seq<(Seq<char>, WarningKind, Seq<char>)> {
    if ws.contains(w) {
        ws
    } else {
        ws.push(w)
    }
}

/// Warnings are de-duplicated: adding one already held changes nothing, so re-running a stage
/// does not multiply them, and a list without repeats keeps none.
pub proof fn law_warnings_are_deduplicated(
    ws: Seq<(Seq<char>, WarningKind, Seq<char>)>,
    w: (Seq<char>, WarningKind, Seq<char>),
)
    ensures
        add_warning(ws, w).contains(w),
        add_warning(add_warning(ws, w), w) == add_warning(ws, w),
        ws.no_duplicates() ==> add_warning(ws, w).no_duplicates(),
{
    if !ws.contains(w) {
        let pushed = ws.push(w);
        assert(pushed[ws.len() as int] == w);
        if ws.no_duplicates() {
            assert forall|i: int, j: int| 0 <= i < pushed.len() && 0 <= j < pushed.len() && i != j implies pushed[i] != pushed[j] by {
                if i < ws.len() && j < ws.len() {
                    assert(pushed[i] == ws[i] && pushed[j] == ws[j]);
                } else if i < ws.len() {
                    assert(pushed[i] == ws[i]);
                } else {
                    assert(pushed[j] == ws[j]);
                }
            }
        }
    } else {
        let k = choose|k: int| 0 <= k < ws.len() && ws[k] == w;
        assert(ws[k] == w);
    }
}

pub open spec fn context_message() -> Seq<char> {
    "a `context` argument preceded the state, so the state is taken from the argument that followed it"@
}

pub open spec fn no_introspection_message() -> Seq<char> {
    "no introspection ran and no state was declared, so this is a source command; declare `state_argument`, or `registration.state`, if it should transform a state"@
}

pub open spec fn dropped_hints_message() -> Seq<char> {
    "`hints` at command level is dropped: CommandMetadata has no command-level hints field, so the key cannot reach the metadata"@
}

pub open spec fn reserved_message(mode: Seq<char>) -> Seq<char> {
    "the state delivery mode "@ + crate::text::debug_quoted(mode) + " has no defined meaning; it is treated as `value`"@
}

/// Stage 3a: an argument named `context` leaves the arguments, and its position is recorded
/// as the registration hint `context`; at position 0 it warns that the state shifted.
pub open spec fn spec_take_context(d: DeclView) -> DeclView {
    match spec_arguments(d.doc) {
        Some(items) => match find_named(items, "context"@) {
            Some(p) => {
                let doc1 = with_key(d.doc, "arguments"@, JsonView::Array(items.remove(p)));
                let doc2 = spec_set_registration(doc1, "context"@, json_count(p as nat));
                DeclView {
                    doc: doc2,
                    warnings: if p == 0 {
                        add_warning(d.warnings, (spec_command_name(doc2), WarningKind::ContextBeforeState, context_message()))
                    } else {
                        d.warnings
                    },
                    ..d
                }
            },
            None => d,
        },
        None => d,
    }
}

/// The delivery mode a document's registration declares, by name.
pub open spec fn declared_mode(doc: JsonView) -> Option<Seq<char>> {
    match lookup(spec_registration(doc), "state"@) {
        Some(JsonView::Str(s)) => Some(s),
        _ => None,
    }
}

/// The recorded spelling of a mode name: `na` is recorded as `none`.
pub open spec fn mode_record(m: Seq<char>) -> Seq<char> {
    if m == "na"@ {
        "none"@
    } else {
        m
    }
}

/// Whether a mode name passes the state on.
pub open spec fn mode_passes(m: Seq<char>) -> bool {
    !(m == "none"@ || m == "na"@)
}

/// Whether a mode name is reserved: none of `none`, `na`, `state`, `value`, `text`.
pub open spec fn mode_reserved(m: Seq<char>) -> bool {
    !(m == "none"@ || m == "na"@ || m == "state"@ || m == "value"@ || m == "text"@)
}

pub open spec fn warn_reserved(
    ws: Seq<(Seq<char>, WarningKind, Seq<char>)>,
    command: Seq<char>,
    m: Seq<char>,
) -> Seq<(Seq<char>, WarningKind, Seq<char>)> {
    if mode_reserved(m) {
        add_warning(ws, (command, WarningKind::ReservedStateDelivery, reserved_message(m)))
    } else {
        ws
    }
}

/// The state argument a declared mode gives a document: any value, named `state`, as the
/// metadata writes it.
pub open spec fn state_argument_json() -> JsonView {
    JsonView::Object(
        seq![
            ("name"@, JsonView::Str("state"@)),
            ("label"@, JsonView::Str("state"@)),
            ("default"@, JsonView::Str("None"@)),
            ("gui_info"@, default_gui_json()),
        ],
    )
}

/// The default widget, as the metadata writes it: a text field 40 characters wide.
pub open spec fn default_gui_json() -> JsonView {
    JsonView::Object(seq![("TextField"@, JsonView::Int(40))])
}

/// Whether a document declares a state argument that is not `null`.
pub open spec fn has_state_argument(doc: JsonView) -> bool {
    lookup(doc, "state_argument"@) matches Some(v) && v != JsonView::Null
}

/// Stage 3b: the first argument of an introspected callable is the state; its name, or a
/// declared mode, selects how it is delivered. A document takes no argument as the state, but
/// a declared mode gives it a state argument.
pub open spec fn spec_state_delivery(d: DeclView) -> DeclView {
    let name = spec_command_name(d.doc);
    if has_state_argument(d.doc) {
        d
    } else if !d.introspected {
        match declared_mode(d.doc) {
            Some(m) => {
                let doc1 = if mode_passes(m) {
                    with_key(d.doc, "state_argument"@, state_argument_json())
                } else {
                    d.doc
                };
                DeclView {
                    doc: spec_set_registration(doc1, "state"@, JsonView::Str(mode_record(m))),
                    warnings: warn_reserved(d.warnings, name, m),
                    ..d
                }
            },
            None => if spec_arguments(d.doc) matches Some(items) && items.len() > 0 {
                DeclView {
                    warnings: add_warning(d.warnings, (name, WarningKind::NoIntrospection, no_introspection_message())),
                    ..d
                }
            } else {
                d
            },
        }
    } else {
        match spec_arguments(d.doc) {
            Some(items) => if items.len() > 0 && entry_name(items[0]) is Some {
                let m = match declared_mode(d.doc) {
                    Some(m) => m,
                    None => entry_name(items[0])->0,
                };
                let doc1 = with_key(d.doc, "arguments"@, JsonView::Array(items.drop_first()));
                let doc2 = if mode_passes(m) {
                    with_key(
                        doc1,
                        "state_argument"@,
                        if items[0] is Object {
                            items[0]
                        } else {
                            JsonView::Object(Seq::empty())
                        },
                    )
                } else {
                    doc1
                };
                DeclView {
                    doc: spec_set_registration(doc2, "state"@, JsonView::Str(mode_record(m))),
                    warnings: warn_reserved(d.warnings, name, m),
                    ..d
                }
            } else {
                d
            },
            None => d,
        }
    }
}

/// Stage 3: once only, the conventions the document enables, `context` before `state`.
pub open spec fn spec_apply_conventions(d: DeclView) -> DeclView {
    if d.applied {
        d
    } else {
        let d1 = DeclView { applied: true, ..d };
        let c = spec_conventions(lookup(d.doc, "conventions"@));
        let d2 = if c.context {
            spec_take_context(d1)
        } else {
            d1
        };
        if c.state {
            spec_state_delivery(d2)
        } else {
            d2
        }
    }
}

/// Whether a label is absent: missing, not a string, or empty.
pub open spec fn label_missing(v: JsonView) -> bool {
    match lookup(v, "label"@) {
        Some(JsonView::Str(s)) => s.len() == 0,
        _ => true,
    }
}

/// An argument entry with its derivable defaults filled: a label derived from its name, and
/// the default widget.
pub open spec fn fill_argument(v: JsonView) -> JsonView {
    match v {
        JsonView::Object(_) => {
            let name = match lookup_str(v, "name"@) {
                Some(s) => s,
                None => Seq::empty(),
            };
            let v1 = if label_missing(v) && name.len() > 0 {
                with_key(v, "label"@, JsonView::Str(spec_derive_label(name)))
            } else {
                v
            };
            if lookup(v1, "gui_info"@) is None {
                with_key(v1, "gui_info"@, default_gui_json())
            } else {
                v1
            }
        },
        other => other,
    }
}

/// The entries under `key` with their defaults filled.
pub open spec fn fill_key(doc: JsonView, key: Seq<char>) -> JsonView {
    match lookup(doc, key) {
        Some(JsonView::Array(list)) => with_key(doc, key, JsonView::Array(list.map_values(|a: JsonView| fill_argument(a)))),
        Some(JsonView::Object(ms)) => with_key(doc, key, fill_argument(JsonView::Object(ms))),
        _ => doc,
    }
}

/// Stage 4: the document with what it may omit filled: a label derived from the command name,
/// and the defaults of the state argument and of every argument.
pub open spec fn spec_fill_defaults(doc: JsonView) -> JsonView {
    match doc {
        JsonView::Object(_) => {
            let name = spec_command_name(doc);
            let d1 = if label_missing(doc) && name.len() > 0 {
                with_key(doc, "label"@, JsonView::Str(spec_derive_label(name)))
            } else {
                doc
            };
            fill_key(fill_key(d1, "state_argument"@), "arguments"@)
        },
        other => other,
    }
}

impl CommandDeclaration {
    pub closed spec fn view(&self) -> DeclView {
        DeclView {
            doc: self.doc.deep(),
            introspected: self.introspected,
            applied: self.conventions_applied,
            warnings: warnings_view(self.warnings@),
        }
    }

    /// A baseline from introspection: an `arguments` key means the callable's parameters were
    /// discovered, an empty list meaning it has none.
    pub fn from_introspection(baseline: JsonValue) -> (r: Self)
        ensures
            r.view().doc == baseline.deep(),
            r.view().introspected == (lookup(baseline.deep(), "arguments"@) is Some),
            !r.view().applied,
            r.view().warnings.len() == 0,
    {
        let introspected = baseline.get("arguments").is_some();
        proof {
            reveal_strlit("arguments");
        }
        let r = CommandDeclaration { doc: baseline, introspected, conventions_applied: false, warnings: Vec::new() };
        proof {
            assert(warnings_view(r.warnings@) =~= Seq::empty());
        }
        r
    }

    /// A declaration with no introspection behind it: a document.
    pub fn from_document(document: JsonValue) -> (r: Self)
        ensures
            r.view().doc == document.deep(),
            !r.view().introspected,
            !r.view().applied,
            r.view().warnings.len() == 0,
    {
        let r = CommandDeclaration { doc: document, introspected: false, conventions_applied: false, warnings: Vec::new() };
        proof {
            assert(warnings_view(r.warnings@) =~= Seq::empty());
        }
        r
    }

    /// The composed document.
    pub fn as_value(&self) -> (r: &JsonValue)
        ensures
            r.deep() == self.view().doc,
    {
        &self.doc
    }

    /// The registration hints: how to register and call the function; `null` when none were
    /// declared.
    pub fn registration(&self) -> (r: JsonValue)
        ensures
            r.deep() == spec_registration(self.view().doc),
    {
        proof {
            reveal_strlit("registration");
        }
        match self.doc.get("registration") {
            Some(v) => v.duplicate(),
            None => JsonValue::Null,
        }
    }

    /// The warnings so far, each once.
    pub fn warnings(&self) -> (r: &Vec<Warning>)
        ensures
            warnings_view(r@) == self.view().warnings,
    {
        &self.warnings
    }

    fn command_name(&self) -> (r: String)
        ensures
            r@ == spec_command_name(self.view().doc),
    {
        proof {
            reveal_strlit("name");
            reveal_strlit("");
        }
        match self.doc.get_str("name") {
            Some(s) => s.clone(),
            None => owned(""),
        }
    }

    fn warn(&mut self, kind: WarningKind, message: String)
        ensures
            final(self).view() == (DeclView {
                warnings: add_warning(
                    old(self).view().warnings,
                    (spec_command_name(old(self).view().doc), kind, message@),
                ),
                ..old(self).view()
            }),
    {
        let command = self.command_name();
        let ghost w = (command@, kind, message@);
        let ghost wv = warnings_view(self.warnings@);
        let mut i: usize = 0;
        while i < self.warnings.len()
            invariant
                0 <= i <= self.warnings.len(),
                wv == warnings_view(self.warnings@),
                w == (command@, kind, message@),
                command@ == spec_command_name(self.view().doc),
                self.view() == old(self).view(),
                forall|j: int| 0 <= j < i ==> wv[j] != w,
            decreases self.warnings.len() - i,
        {
            let x = &self.warnings[i];
            proof {
                assert(wv[i as int] == warning_view(self.warnings@[i as int]));
            }
            if str_eq(x.command.as_str(), command.as_str()) && x.kind == kind && str_eq(x.message.as_str(), message.as_str()) {
                proof {
                    assert(wv[i as int] == w);
                    assert(wv.contains(w));
                }
                return;
            }
            i = i + 1;
        }
        proof {
            assert(!wv.contains(w));
        }
        self.warnings.push(Warning { command, kind, message });
        proof {
            assert(warnings_view(self.warnings@) =~= wv.push(w));
        }
    }

    /// Stage 2: merges `declaration` over the document. An error leaves what was merged before
    /// it in place.
    pub fn enhance(&mut self, declaration: &JsonValue) -> (r: Result<(), Error>)
        ensures
            final(self).view() == (DeclView {
                doc: spec_merge_object(old(self).view().doc, declaration.deep()).0,
                ..old(self).view()
            }),
            r is Ok == spec_merge_object(old(self).view().doc, declaration.deep()).1,
            r matches Err(e) ==> e.error_type == ErrorType::ParameterError,
    {
        let command = self.command_name();
        let mut base = JsonValue::Null;
        std::mem::swap(&mut base, &mut self.doc);
        let (merged, result) = merge_object(base, declaration, command.as_str());
        self.doc = merged;
        result
    }
}


/// A count as JSON writes it: an integer, or its decimal text past the range of `i64`.
pub open spec fn json_count(p: nat) -> JsonView {
    if p <= i64::MAX {
        JsonView::Int(p as int)
    } else {
        JsonView::Number(crate::text::decimal(p))
    }
}

fn count_value(p: usize) -> (r: JsonValue)
    ensures
        r.deep() == json_count(p as nat),
{
    if (p as u64) <= 9223372036854775807u64 {
        JsonValue::Int(p as i64)
    } else {
        JsonValue::Number(crate::text::decimal_string(p))
    }
}

fn set_key(doc: JsonValue, key: &str, v: JsonValue) -> (r: JsonValue)
    ensures
        r.deep() == with_key(doc.deep(), key@, v.deep()),
{
    object_set(doc, owned(key), v)
}

fn set_registration_in(doc: JsonValue, key: &str, v: JsonValue) -> (r: JsonValue)
    ensures
        r.deep() == spec_set_registration(doc.deep(), key@, v.deep()),
{
    if !doc.is_object() {
        return doc;
    }
    proof {
        reveal_strlit("registration");
    }
    let reg = match doc.get("registration") {
        Some(r) => if r.is_object() {
            r.duplicate()
        } else {
            JsonValue::empty_object()
        },
        None => JsonValue::empty_object(),
    };
    proof {
        assert(reg.deep() == JsonView::Object(match lookup(doc.deep(), "registration"@) {
            Some(JsonView::Object(rm)) => rm,
            _ => Seq::empty(),
        }));
    }
    let reg2 = set_key(reg, key, v);
    set_key(doc, "registration", reg2)
}

fn default_gui_value() -> (r: JsonValue)
    ensures
        r.deep() == default_gui_json(),
{
    let mut ms: Vec<JsonMember> = Vec::new();
    ms.push(JsonMember { key: owned("TextField"), value: JsonValue::Int(40) });
    proof {
        lemma_object_view(ms);
        assert(members_view(ms@) =~= seq![("TextField"@, JsonView::Int(40))]);
    }
    JsonValue::Object(ms)
}

/// The argument entries of a document.
fn arguments_of(doc: &JsonValue) -> (r: Option<&Vec<JsonValue>>)
    ensures
        match spec_arguments(doc.deep()) {
            Some(items) => r matches Some(v) && items_view(v@) == items,
            None => r is None,
        },
{
    proof {
        reveal_strlit("arguments");
    }
    match doc.get("arguments") {
        Some(a) => a.as_array(),
        None => None,
    }
}

/// The entries without the one at `p`.
fn without_index(items: &Vec<JsonValue>, p: usize) -> (r: Vec<JsonValue>)
    requires
        p < items@.len(),
    ensures
        items_view(r@) == items_view(items@).remove(p as int),
{
    let mut out: Vec<JsonValue> = Vec::new();
    let mut i: usize = 0;
    while i < items.len()
        invariant
            0 <= i <= items.len(),
            p < items@.len(),
            out@.len() == if i <= p { i as int } else { i - 1 },
            forall|j: int| 0 <= j < out@.len() ==> (#[trigger] out@[j]).deep() == items@[if j < p { j } else { j + 1 }].deep(),
        decreases items.len() - i,
    {
        if i != p {
            out.push(items[i].duplicate());
        }
        i = i + 1;
    }
    proof {
        assert(items_view(out@) =~= items_view(items@).remove(p as int));
    }
    out
}

/// Whether an entry has no usable label.
fn label_is_missing(v: &JsonValue) -> (r: bool)
    ensures
        r == label_missing(v.deep()),
{
    proof {
        reveal_strlit("label");
    }
    match v.get("label") {
        Some(l) => match l.as_str() {
            Some(s) => s.as_str().unicode_len() == 0,
            None => true,
        },
        None => true,
    }
}

/// An argument entry with its defaults filled.
fn fill_argument_defaults(v: JsonValue) -> (r: JsonValue)
    ensures
        r.deep() == fill_argument(v.deep()),
{
    if !v.is_object() {
        return v;
    }
    proof {
        reveal_strlit("name");
        reveal_strlit("gui_info");
    }
    let name = match v.get_str("name") {
        Some(n) => n.clone(),
        None => String::new(),
    };
    let missing = label_is_missing(&v);
    let mut w = v;
    if missing && name.as_str().unicode_len() > 0 {
        let label = derive_label(name.as_str());
        w = set_key(w, "label", JsonValue::Str(label));
    }
    if w.get("gui_info").is_none() {
        w = set_key(w, "gui_info", default_gui_value());
    }
    w
}

/// The entries under `key` with their defaults filled.
fn fill_entries(doc: JsonValue, key: &str) -> (r: JsonValue)
    ensures
        r.deep() == fill_key(doc.deep(), key@),
{
    let replacement: Option<JsonValue> = match doc.get(key) {
        Some(v) => match v {
            JsonValue::Array(list) => {
                proof {
                    lemma_array_view(*list);
                }
                let mut out: Vec<JsonValue> = Vec::new();
                let mut i: usize = 0;
                while i < list.len()
                    invariant
                        0 <= i <= list.len(),
                        out@.len() == i,
                        forall|j: int| 0 <= j < i ==> (#[trigger] out@[j]).deep() == fill_argument(list@[j].deep()),
                    decreases list.len() - i,
                {
                    out.push(fill_argument_defaults(list[i].duplicate()));
                    i = i + 1;
                }
                proof {
                    lemma_array_view(out);
                    assert(items_view(out@) =~= items_view(list@).map_values(|a: JsonView| fill_argument(a)));
                }
                Some(JsonValue::Array(out))
            },
            JsonValue::Object(_) => Some(fill_argument_defaults(v.duplicate())),
            _ => None,
        },
        None => None,
    };
    match replacement {
        Some(x) => set_key(doc, key, x),
        None => doc,
    }
}

impl CommandDeclaration {
    /// Records a registration hint.
    fn set_registration(&mut self, key: &str, value: JsonValue)
        ensures
            final(self).view() == (DeclView {
                doc: spec_set_registration(old(self).view().doc, key@, value.deep()),
                ..old(self).view()
            }),
    {
        let mut doc = JsonValue::Null;
        std::mem::swap(&mut doc, &mut self.doc);
        self.doc = set_registration_in(doc, key, value);
    }

    /// Declares the state argument, written as the metadata writes it.
    fn set_state_argument(&mut self, argument: &ArgumentInfo)
        ensures
            final(self).view() == (DeclView {
                doc: with_key(old(self).view().doc, "state_argument"@, crate::metadata_json::spec_write_argument(*argument)),
                ..old(self).view()
            }),
    {
        let value = crate::metadata_json::write_argument(argument);
        let mut doc = JsonValue::Null;
        std::mem::swap(&mut doc, &mut self.doc);
        self.doc = set_key(doc, "state_argument", value);
    }

    /// A reserved delivery mode warns that it means `value` for now.
    fn warn_if_reserved(&mut self, mode: &StateDelivery)
        ensures
            final(self).view() == (match mode {
                StateDelivery::Reserved(name) => DeclView {
                    warnings: add_warning(
                        old(self).view().warnings,
                        (spec_command_name(old(self).view().doc), WarningKind::ReservedStateDelivery, reserved_message(name@)),
                    ),
                    ..old(self).view()
                },
                _ => old(self).view(),
            }),
    {
        match mode {
            StateDelivery::Reserved(name) => {
                let mut m = owned("the state delivery mode ");
                let q = crate::text::quoted(name.as_str());
                push_str(&mut m, q.as_str());
                push_str(&mut m, " has no defined meaning; it is treated as `value`");
                proof {
                    reveal_strlit("the state delivery mode ");
                    reveal_strlit(" has no defined meaning; it is treated as `value`");
                    assert(m@ =~= reserved_message(name@));
                }
                self.warn(WarningKind::ReservedStateDelivery, m);
            },
            _ => {},
        }
    }

    /// Stage 3a: removes an argument named `context` and records where it was.
    fn take_context_argument(&mut self) -> (r: Result<Option<usize>, Error>)
        ensures
            final(self).view() == spec_take_context(old(self).view()),
            r matches Ok(p) && match spec_arguments(old(self).view().doc) {
                Some(items) => match find_named(items, "context"@) {
                    Some(q) => p == Some(q as usize),
                    None => p is None,
                },
                None => p is None,
            },
    {
        let context = owned("context");
        let found = match arguments_of(&self.doc) {
            Some(list) => match find_named_entry(list, &context) {
                Some(p) => Some((p, without_index(list, p))),
                None => None,
            },
            None => None,
        };
        proof {
            reveal_strlit("context");
        }
        match found {
            Some((p, rest)) => {
                let mut doc = JsonValue::Null;
                std::mem::swap(&mut doc, &mut self.doc);
                proof {
                    lemma_array_view(rest);
                }
                doc = set_key(doc, "arguments", JsonValue::Array(rest));
                doc = set_registration_in(doc, "context", count_value(p));
                self.doc = doc;
                if p == 0 {
                    let m = owned("a `context` argument preceded the state, so the state is taken from the argument that followed it");
                    self.warn(WarningKind::ContextBeforeState, m);
                }
                Ok(Some(p))
            },
            None => Ok(None),
        }
    }
}


impl CommandDeclaration {
    /// The delivery mode the registration declares, by name.
    fn declared_mode_name(&self) -> (r: Option<String>)
        ensures
            match declared_mode(self.view().doc) {
                Some(m) => r matches Some(x) && x@ == m,
                None => r is None,
            },
    {
        proof {
            reveal_strlit("registration");
            reveal_strlit("state");
        }
        match self.doc.get("registration") {
            Some(reg) => match reg.get_str("state") {
                Some(s) => Some(s.clone()),
                None => None,
            },
            None => None,
        }
    }

    /// Stage 3b: the state-delivery convention.
    fn apply_state_delivery(&mut self) -> (r: Result<(), Error>)
        ensures
            final(self).view() == spec_state_delivery(old(self).view()),
            r is Ok,
    {
        proof {
            reveal_strlit("state_argument");
            reveal_strlit("none");
            reveal_strlit("na");
            reveal_strlit("state");
            reveal_strlit("value");
            reveal_strlit("text");
        }
        match self.doc.get("state_argument") {
            Some(v) => {
                if !v.is_null() {
                    return Ok(());
                }
            },
            None => {},
        }
        let declared = self.declared_mode_name();
        if !self.introspected {
            match declared {
                Some(m) => {
                    let mode = StateDelivery::from_argument_name(m.as_str());
                    proof {
                        assert(mode.spec_name() == mode_record(m@));
                        assert(mode_passes(m@) == !(mode is Nothing));
                        assert(mode_reserved(m@) == (mode is Reserved));
                    }
                    self.warn_if_reserved(&mode);
                    if mode.passes_state() {
                        let state = ArgumentInfo::any_argument("state");
                        proof {
                            reveal_strlit("state");
                            reveal_strlit("None");
                            assert(crate::command_metadata::underscores_to_spaces("state"@) =~= "state"@);
                            assert(crate::metadata_json::spec_write_argument(state)->Object_0 =~= state_argument_json()->Object_0);
                        }
                        self.set_state_argument(&state);
                    }
                    let recorded = owned(mode.as_str());
                    self.set_registration("state", JsonValue::Str(recorded));
                },
                None => {
                    let declared_arguments = match arguments_of(&self.doc) {
                        Some(list) => list.len() > 0,
                        None => false,
                    };
                    if declared_arguments {
                        self.warn(
                            WarningKind::NoIntrospection,
                            owned(
                                "no introspection ran and no state was declared, so this is a source command; declare `state_argument`, or `registration.state`, if it should transform a state",
                            ),
                        );
                    }
                },
            }
            return Ok(());
        }
        let first_name = match arguments_of(&self.doc) {
            Some(list) => {
                if list.len() == 0 {
                    return Ok(());
                }
                proof {
                    reveal_strlit("name");
                    assert(items_view(list@)[0] == list@[0].deep());
                }
                match list[0].get_str("name") {
                    Some(n) => n.clone(),
                    None => {
                        return Ok(());
                    },
                }
            },
            None => {
                return Ok(());
            },
        };
        let ghost m = match &declared {
            Some(x) => x@,
            None => first_name@,
        };
        let mode = match &declared {
            Some(d) => StateDelivery::from_argument_name(d.as_str()),
            None => StateDelivery::from_argument_name(first_name.as_str()),
        };
        proof {
            assert(mode.spec_name() == mode_record(m));
            assert(mode_passes(m) == !(mode is Nothing));
            assert(mode_reserved(m) == (mode is Reserved));
        }
        self.warn_if_reserved(&mode);
        let taken = match arguments_of(&self.doc) {
            Some(list) => {
                if list.len() == 0 {
                    return Ok(());
                }
                Some((list[0].duplicate(), without_index(list, 0)))
            },
            None => None,
        };
        match taken {
            Some((first, rest)) => {
                let ghost items = spec_arguments(old(self).view().doc)->0;
                proof {
                    lemma_array_view(rest);
                    assert(items.remove(0) =~= items.drop_first());
                }
                let mut doc = JsonValue::Null;
                std::mem::swap(&mut doc, &mut self.doc);
                doc = set_key(doc, "arguments", JsonValue::Array(rest));
                if mode.passes_state() {
                    let state_argument = if first.is_object() {
                        first
                    } else {
                        JsonValue::empty_object()
                    };
                    doc = set_key(doc, "state_argument", state_argument);
                }
                let recorded = owned(mode.as_str());
                doc = set_registration_in(doc, "state", JsonValue::Str(recorded));
                self.doc = doc;
            },
            None => {},
        }
        Ok(())
    }

    /// Stage 3: applies the conventions once: `context` lifts an argument named `context`,
    /// then `state` applies the state-delivery rule. Running it again changes nothing.
    pub fn apply_conventions(&mut self) -> (r: Result<(), Error>)
        ensures
            final(self).view() == spec_apply_conventions(old(self).view()),
            r is Ok,
    {
        if self.conventions_applied {
            return Ok(());
        }
        self.conventions_applied = true;
        proof {
            reveal_strlit("conventions");
        }
        let conventions = Conventions::from_value(self.doc.get("conventions"));
        if conventions.context {
            let _ = self.take_context_argument();
        }
        if conventions.state {
            let _ = self.apply_state_delivery();
        }
        Ok(())
    }

    /// Stage 4: fills what a declaration may omit, never overwriting what it declares.
    pub fn fill_defaults(&mut self)
        ensures
            final(self).view() == (DeclView { doc: spec_fill_defaults(old(self).view().doc), ..old(self).view() }),
    {
        let name = self.command_name();
        if !self.doc.is_object() {
            return;
        }
        let mut doc = JsonValue::Null;
        std::mem::swap(&mut doc, &mut self.doc);
        if label_is_missing(&doc) && name.as_str().unicode_len() > 0 {
            let label = derive_label(name.as_str());
            doc = set_key(doc, "label", JsonValue::Str(label));
        }
        doc = fill_entries(doc, "state_argument");
        doc = fill_entries(doc, "arguments");
        self.doc = doc;
    }
}


/// Whether built metadata is valid: a non-empty name, arguments with non-empty names, and a
/// `multiple` argument only in last place.
pub open spec fn metadata_valid(m: CommandMetadata) -> bool {
    &&& m.name@.len() > 0
    &&& forall|p: int| 0 <= p < m.arguments@.len() ==> (#[trigger] m.arguments@[p]).name@.len() > 0
    &&& forall|p: int| 0 <= p < m.arguments@.len() ==> (#[trigger] m.arguments@[p]).multiple ==> p == m.arguments@.len() - 1
}

/// Whether the metadata a document reads as is valid, read off the document.
pub open spec fn document_valid(v: JsonView) -> bool {
    &&& str_or_empty(v, "name"@).len() > 0
    &&& match lookup(v, "arguments"@) {
        Some(JsonView::Array(items)) => (forall|p: int| 0 <= p < items.len() ==> str_or_empty(#[trigger] items[p], "name"@).len() > 0)
            && forall|p: int| 0 <= p < items.len() ==> bool_or(#[trigger] items[p], "multiple"@, false) ==> p == items.len() - 1,
        _ => true,
    }
}

/// Whether argument `p` is at fault: it has no name, or it is `multiple` and not last.
pub open spec fn argument_at_fault(args: Seq<ArgumentInfo>, p: int) -> bool {
    args[p].name@.len() == 0 || (args[p].multiple && p != args.len() - 1)
}

/// The first argument at fault.
pub open spec fn first_fault(args: Seq<ArgumentInfo>) -> int {
    choose|p: int| 0 <= p < args.len() && argument_at_fault(args, p)
        && forall|j: int| 0 <= j < p ==> !argument_at_fault(args, j)
}

/// What validation reports: the missing command name; or, at the first argument at fault,
/// its missing name, or the `multiple` argument and the one that follows it.
pub open spec fn validation_message(m: CommandMetadata) -> Seq<char> {
    if m.name@.len() == 0 {
        "a command declaration must have a non-empty `name`"@
    } else {
        let p = first_fault(m.arguments@);
        if m.arguments@[p].name@.len() == 0 {
            "command "@ + debug_quoted(m.name@) + ": argument "@ + decimal(p as nat)
                + " must have a non-empty `name`"@
        } else {
            "command "@ + debug_quoted(m.name@) + ": the `multiple` argument "@ + debug_quoted(
                m.arguments@[p].name@,
            ) + " must be the last argument, but "@ + debug_quoted(m.arguments@[p + 1].name@)
                + " follows it"@
        }
    }
}

/// The first fault is the one at `p` when every argument before it is fine.
proof fn lemma_first_fault(args: Seq<ArgumentInfo>, p: int)
    requires
        0 <= p < args.len(),
        argument_at_fault(args, p),
        forall|j: int| 0 <= j < p ==> !argument_at_fault(args, j),
    ensures
        first_fault(args) == p,
{
    let q = first_fault(args);
    assert(0 <= q < args.len() && argument_at_fault(args, q) && forall|j: int| 0 <= j < q ==> !argument_at_fault(args, j));
    if q < p {
        assert(!argument_at_fault(args, q));
    }
    if p < q {
        assert(!argument_at_fault(args, p));
    }
}

/// Reports what is wrong with built metadata, naming the command and, where there is one, the
/// argument.
pub fn validate(metadata: &CommandMetadata) -> (r: Result<(), Error>)
    ensures
        r is Ok <==> metadata_valid(*metadata),
        r matches Err(e) ==> e.error_type == ErrorType::ParameterError,
        r matches Err(e) ==> e.message@ == validation_message(*metadata),
{
    if metadata.name.as_str().unicode_len() == 0 {
        return Err(Error::parameter_error(owned("a command declaration must have a non-empty `name`")));
    }
    let n = metadata.arguments.len();
    let mut p: usize = 0;
    while p < n
        invariant
            0 <= p <= n,
            n == metadata.arguments@.len(),
            forall|j: int| 0 <= j < p ==> (#[trigger] metadata.arguments@[j]).name@.len() > 0,
            forall|j: int| 0 <= j < p ==> (#[trigger] metadata.arguments@[j]).multiple ==> j == n - 1,
            metadata.name@.len() > 0,
        decreases n - p,
    {
        let argument = &metadata.arguments[p];
        proof {
            assert forall|j: int| 0 <= j < p implies !argument_at_fault(metadata.arguments@, j) by {
                assert(metadata.arguments@[j].name@.len() > 0);
            }
        }
        if argument.name.as_str().unicode_len() == 0 {
            let q = crate::text::quoted(metadata.name.as_str());
            let mut m = owned("command ");
            push_str(&mut m, q.as_str());
            push_str(&mut m, ": argument ");
            let d = crate::text::decimal_string(p);
            push_str(&mut m, d.as_str());
            push_str(&mut m, " must have a non-empty `name`");
            proof {
                lemma_first_fault(metadata.arguments@, p as int);
                assert(m@ =~= validation_message(*metadata));
            }
            return Err(Error::parameter_error(m));
        }
        if argument.multiple && p + 1 != n {
            let q = crate::text::quoted(metadata.name.as_str());
            let mut m = owned("command ");
            push_str(&mut m, q.as_str());
            push_str(&mut m, ": the `multiple` argument ");
            let a = crate::text::quoted(argument.name.as_str());
            push_str(&mut m, a.as_str());
            push_str(&mut m, " must be the last argument, but ");
            let b = crate::text::quoted(metadata.arguments[p + 1].name.as_str());
            push_str(&mut m, b.as_str());
            push_str(&mut m, " follows it");
            proof {
                lemma_first_fault(metadata.arguments@, p as int);
                assert(m@ =~= validation_message(*metadata));
            }
            return Err(Error::parameter_error(m));
        }
        p = p + 1;
    }
    Ok(())
}

/// Metadata read from a document is valid exactly when the document says it is.
proof fn lemma_valid_read(v: JsonView, m: CommandMetadata)
    requires
        metadata_ok(v),
        reads_metadata(v, m),
    ensures
        metadata_valid(m) <==> document_valid(v),
{
    match lookup(v, "arguments"@) {
        Some(JsonView::Array(items)) => {
            assert forall|p: int| 0 <= p < items.len() implies (#[trigger] m.arguments@[p]).name@ == str_or_empty(items[p], "name"@)
                && m.arguments@[p].multiple == bool_or(items[p], "multiple"@, false) by {
                assert(crate::metadata_json::reads_argument(items[p], m.arguments@[p]));
            }
            if metadata_valid(m) {
                assert forall|p: int| 0 <= p < items.len() implies str_or_empty(#[trigger] items[p], "name"@).len() > 0 by {
                    assert(m.arguments@[p].name@.len() > 0);
                }
                assert forall|p: int| 0 <= p < items.len() implies bool_or(#[trigger] items[p], "multiple"@, false) ==> p == items.len() - 1 by {
                    assert(m.arguments@[p].multiple ==> p == m.arguments@.len() - 1);
                }
            }
            if document_valid(v) {
                assert forall|p: int| 0 <= p < m.arguments@.len() implies (#[trigger] m.arguments@[p]).name@.len() > 0 by {
                    assert(str_or_empty(items[p], "name"@).len() > 0);
                }
                assert forall|p: int| 0 <= p < m.arguments@.len() implies (#[trigger] m.arguments@[p]).multiple ==> p == m.arguments@.len() - 1 by {
                    assert(bool_or(items[p], "multiple"@, false) ==> p == items.len() - 1);
                }
            }
        },
        _ => {},
    }
}

/// Whether a document declares a command-level `hints` key, which cannot reach the metadata.
pub open spec fn has_command_hints(doc: JsonView) -> bool {
    lookup(doc, "hints"@) is Some
}

/// Stages 3 to 4 as `finish` runs them, before the build.
pub open spec fn spec_finish_view(d: DeclView) -> DeclView {
    let d1 = spec_apply_conventions(d);
    let d2 = if has_command_hints(d1.doc) {
        DeclView {
            warnings: add_warning(
                d1.warnings,
                (spec_command_name(d1.doc), WarningKind::DroppedKey, dropped_hints_message()),
            ),
            ..d1
        }
    } else {
        d1
    };
    DeclView { doc: spec_fill_defaults(d2.doc), ..d2 }
}

impl CommandDeclaration {
    /// Stage 5: converts the document to metadata and validates it, or reports what is wrong.
    /// Registration hints and conventions do not reach the metadata.
    pub fn build(&self) -> (r: Result<CommandMetadata, Error>)
        ensures
            r is Ok <==> (metadata_ok(self.view().doc) && document_valid(self.view().doc)),
            r matches Ok(m) ==> reads_metadata(self.view().doc, m),
            r matches Err(e) ==> e.error_type == ErrorType::ParameterError,
    {
        let command = self.command_name();
        let metadata = match read_metadata(&self.doc) {
            Ok(m) => m,
            Err(e) => {
                let mut m = if command.as_str().unicode_len() == 0 {
                    owned("command declaration: ")
                } else {
                    let mut p = owned("command ");
                    let q = crate::text::quoted(command.as_str());
                    push_str(&mut p, q.as_str());
                    push_str(&mut p, ": ");
                    p
                };
                push_str(&mut m, e.message.as_str());
                return Err(Error::parameter_error(m));
            },
        };
        proof {
            lemma_valid_read(self.view().doc, metadata);
        }
        validate(&metadata)?;
        Ok(metadata)
    }

    /// Stages 3 to 5 in order: the normal entry point once a declaration has been enhanced.
    pub fn finish(&mut self) -> (r: Result<CommandMetadata, Error>)
        ensures
            final(self).view() == spec_finish_view(old(self).view()),
            r is Ok <==> (metadata_ok(final(self).view().doc) && document_valid(final(self).view().doc)),
            r matches Ok(m) ==> reads_metadata(final(self).view().doc, m),
            r matches Err(e) ==> e.error_type == ErrorType::ParameterError,
    {
        let _ = self.apply_conventions();
        proof {
            reveal_strlit("hints");
        }
        if self.doc.get("hints").is_some() {
            self.warn(
                WarningKind::DroppedKey,
                owned(
                    "`hints` at command level is dropped: CommandMetadata has no command-level hints field, so the key cannot reach the metadata",
                ),
            );
        }
        self.fill_defaults();
        self.build()
    }
}

/// Builds metadata from an introspected baseline and a declaration, with the warnings met on
/// the way.
pub fn build_command_metadata(baseline: JsonValue, declaration: &JsonValue) -> (r: Result<(CommandMetadata, Vec<Warning>), Error>)
    ensures
        ({
            let d0 = DeclView {
                doc: baseline.deep(),
                introspected: lookup(baseline.deep(), "arguments"@) is Some,
                applied: false,
                warnings: Seq::empty(),
            };
            let merged = spec_merge_object(baseline.deep(), declaration.deep());
            let d1 = DeclView { doc: merged.0, ..d0 };
            let d2 = spec_finish_view(d1);
            &&& !merged.1 ==> r is Err
            &&& merged.1 ==> (r is Ok <==> (metadata_ok(d2.doc) && document_valid(d2.doc)))
            &&& r matches Ok((m, ws)) ==> reads_metadata(d2.doc, m) && warnings_view(ws@) == d2.warnings
        }),
        r matches Err(e) ==> e.error_type == ErrorType::ParameterError,
{
    let mut command = CommandDeclaration::from_introspection(baseline);
    command.enhance(declaration)?;
    let metadata = command.finish()?;
    let mut ws: Vec<Warning> = Vec::new();
    let mut i: usize = 0;
    while i < command.warnings.len()
        invariant
            0 <= i <= command.warnings.len(),
            ws@.len() == i,
            forall|j: int| 0 <= j < i ==> warning_view(#[trigger] ws@[j]) == warning_view(command.warnings@[j]),
        decreases command.warnings.len() - i,
    {
        let w = &command.warnings[i];
        ws.push(Warning { command: w.command.clone(), kind: w.kind, message: w.message.clone() });
        i = i + 1;
    }
    proof {
        assert(warnings_view(ws@) =~= warnings_view(command.warnings@));
    }
    Ok((metadata, ws))
}

/// Whether a flag may be left out when written: `false` is the default of `multiple` and
/// `injected`.
pub fn is_false(b: &bool) -> (r: bool)
    ensures
        r == !*b,
{
    !*b
}

pub fn is_true(b: &bool) -> (r: bool)
    ensures
        r == *b,
{
    *b
}

/// The default of a flag that is on unless written otherwise.
pub fn true_default() -> (r: bool)
    ensures
        r,
{
    true
}

/// The default of a flag that is off unless written otherwise.
pub fn false_default() -> (r: bool)
    ensures
        !r,
{
    false
}


/// A declared state argument is never touched by the conventions.
pub proof fn law_declared_state_argument_is_kept(d: DeclView)
    requires
        has_state_argument(d.doc),
    ensures
        lookup(spec_apply_conventions(d).doc, "state_argument"@) == lookup(d.doc, "state_argument"@),
{
    reveal_strlit("state_argument");
    reveal_strlit("arguments");
    reveal_strlit("registration");
    assert("state_argument"@.len() != "arguments"@.len());
    assert("state_argument"@.len() != "registration"@.len());
    if !d.applied {
        let d1 = DeclView { applied: true, ..d };
        let c = spec_conventions(lookup(d.doc, "conventions"@));
        if c.context {
            match spec_arguments(d1.doc) {
                Some(items) => match find_named(items, "context"@) {
                    Some(p) => {
                        let doc1 = with_key(d1.doc, "arguments"@, JsonView::Array(items.remove(p)));
                        lemma_with_key_other(d1.doc, "arguments"@, JsonView::Array(items.remove(p)), "state_argument"@);
                        let reg = match lookup(doc1, "registration"@) {
                            Some(JsonView::Object(rm)) => rm,
                            _ => Seq::empty(),
                        };
                        lemma_with_key_other(doc1, "registration"@, JsonView::Object(set_member(reg, "context"@, json_count(p as nat))), "state_argument"@);
                    },
                    None => {},
                },
                None => {},
            }
        }
    }
}

/// Applying the conventions twice is applying them once, warnings included.
pub proof fn law_conventions_are_idempotent(d: DeclView)
    ensures
        spec_apply_conventions(spec_apply_conventions(d)) == spec_apply_conventions(d),
{
}

// --- laws of the defaults ----------------------------------------------------------------------

proof fn lemma_with_key_same(doc: JsonView, k: Seq<char>, v: JsonView)
    requires
        doc is Object,
    ensures
        lookup(with_key(doc, k, v), k) == Some(v),
        with_key(doc, k, v) is Object,
{
    lemma_lookup_set_same(doc->Object_0, k, v);
}

proof fn lemma_with_key_other(doc: JsonView, k: Seq<char>, v: JsonView, k2: Seq<char>)
    requires
        k2 != k,
    ensures
        lookup(with_key(doc, k, v), k2) == lookup(doc, k2),
{
    if doc is Object {
        lemma_lookup_set_other(doc->Object_0, k, v, k2);
    }
}

proof fn lemma_with_key_noop(doc: JsonView, k: Seq<char>, v: JsonView)
    requires
        lookup(doc, k) == Some(v),
    ensures
        with_key(doc, k, v) == doc,
{
    lemma_set_member_same(doc->Object_0, k, v);
}

proof fn lemma_keys_distinct()
    ensures
        "label"@ != "name"@,
        "gui_info"@ != "name"@,
        "gui_info"@ != "label"@,
        "state_argument"@ != "arguments"@,
        "state_argument"@ != "label"@,
        "arguments"@ != "label"@,
        "state_argument"@ != "name"@,
        "arguments"@ != "name"@,
{
    reveal_strlit("label");
    reveal_strlit("name");
    reveal_strlit("gui_info");
    reveal_strlit("state_argument");
    reveal_strlit("arguments");
    assert("label"@.len() != "name"@.len());
    assert("gui_info"@.len() != "name"@.len());
    assert("gui_info"@.len() != "label"@.len());
    assert("state_argument"@.len() != "arguments"@.len());
    assert("state_argument"@.len() != "label"@.len());
    assert("arguments"@.len() != "label"@.len());
    assert("state_argument"@.len() != "name"@.len());
    assert("arguments"@.len() != "name"@.len());
}

/// Filling an argument entry twice is filling it once.
pub proof fn law_fill_argument_is_idempotent(v: JsonView)
    ensures
        fill_argument(fill_argument(v)) == fill_argument(v),
{
    if v is Object {
        lemma_keys_distinct();
        let name = match lookup_str(v, "name"@) {
            Some(s) => s,
            None => Seq::empty(),
        };
        let labelled = label_missing(v) && name.len() > 0;
        let v1 = if labelled {
            with_key(v, "label"@, JsonView::Str(spec_derive_label(name)))
        } else {
            v
        };
        if labelled {
            lemma_with_key_same(v, "label"@, JsonView::Str(spec_derive_label(name)));
            lemma_with_key_other(v, "label"@, JsonView::Str(spec_derive_label(name)), "name"@);
            lemma_with_key_other(v, "label"@, JsonView::Str(spec_derive_label(name)), "gui_info"@);
        }
        let v2 = if lookup(v1, "gui_info"@) is None {
            with_key(v1, "gui_info"@, default_gui_json())
        } else {
            v1
        };
        if lookup(v1, "gui_info"@) is None {
            lemma_with_key_same(v1, "gui_info"@, default_gui_json());
            lemma_with_key_other(v1, "gui_info"@, default_gui_json(), "name"@);
            lemma_with_key_other(v1, "gui_info"@, default_gui_json(), "label"@);
        }
        assert(fill_argument(v) == v2);
        assert(lookup_str(v2, "name"@) == lookup_str(v, "name"@));
        assert(lookup(v2, "label"@) == lookup(v1, "label"@));
        assert(lookup(v2, "gui_info"@) is Some);
        if label_missing(v2) && name.len() > 0 {
            assert(labelled);
            lemma_with_key_noop(v2, "label"@, JsonView::Str(spec_derive_label(name)));
        }
    }
}

proof fn lemma_map_fill_idem(list: Seq<JsonView>)
    ensures
        list.map_values(|a: JsonView| fill_argument(a)).map_values(|a: JsonView| fill_argument(a))
            == list.map_values(|a: JsonView| fill_argument(a)),
{
    let once = list.map_values(|a: JsonView| fill_argument(a));
    let twice = once.map_values(|a: JsonView| fill_argument(a));
    assert forall|i: int| 0 <= i < once.len() implies #[trigger] twice[i] == once[i] by {
        law_fill_argument_is_idempotent(list[i]);
    }
    assert(twice =~= once);
}

/// The entries under `key` once filled are not changed by filling again, and no other key is
/// touched.
proof fn lemma_fill_key(doc: JsonView, key: Seq<char>, k2: Seq<char>)
    requires
        doc is Object,
    ensures
        fill_key(fill_key(doc, key), key) == fill_key(doc, key),
        fill_key(doc, key) is Object,
        k2 != key ==> lookup(fill_key(doc, key), k2) == lookup(doc, k2),
{
    match lookup(doc, key) {
        Some(JsonView::Array(list)) => {
            let filled = JsonView::Array(list.map_values(|a: JsonView| fill_argument(a)));
            lemma_with_key_same(doc, key, filled);
            lemma_map_fill_idem(list);
            lemma_with_key_noop(with_key(doc, key, filled), key, filled);
            if k2 != key {
                lemma_with_key_other(doc, key, filled, k2);
            }
        },
        Some(JsonView::Object(ms)) => {
            let filled = fill_argument(JsonView::Object(ms));
            lemma_with_key_same(doc, key, filled);
            law_fill_argument_is_idempotent(JsonView::Object(ms));
            assert(filled is Object) by {
                let o = JsonView::Object(ms);
                let name = match lookup_str(o, "name"@) {
                    Some(s) => s,
                    None => Seq::empty(),
                };
                if label_missing(o) && name.len() > 0 {
                    lemma_with_key_same(o, "label"@, JsonView::Str(spec_derive_label(name)));
                }
                let o1 = if label_missing(o) && name.len() > 0 {
                    with_key(o, "label"@, JsonView::Str(spec_derive_label(name)))
                } else {
                    o
                };
                if lookup(o1, "gui_info"@) is None {
                    lemma_with_key_same(o1, "gui_info"@, default_gui_json());
                }
            }
            lemma_with_key_noop(with_key(doc, key, filled), key, filled);
            if k2 != key {
                lemma_with_key_other(doc, key, filled, k2);
            }
        },
        _ => {},
    }
}

/// Filling a document's defaults never overwrites a label it declares.
pub proof fn law_fill_defaults_keeps_declared_label(doc: JsonView, label: Seq<char>)
    requires
        lookup(doc, "label"@) == Some(JsonView::Str(label)),
        label.len() > 0,
    ensures
        lookup(spec_fill_defaults(doc), "label"@) == Some(JsonView::Str(label)),
{
    lemma_keys_distinct();
    lemma_fill_key(doc, "state_argument"@, "label"@);
    lemma_fill_key(fill_key(doc, "state_argument"@), "arguments"@, "label"@);
}

/// Filling an argument never overwrites a label or a widget it declares.
pub proof fn law_fill_argument_keeps_declared_values(v: JsonView)
    requires
        v is Object,
    ensures
        !label_missing(v) ==> lookup(fill_argument(v), "label"@) == lookup(v, "label"@),
        lookup(v, "gui_info"@) is Some ==> lookup(fill_argument(v), "gui_info"@) == lookup(v, "gui_info"@),
{
    lemma_keys_distinct();
    let name = match lookup_str(v, "name"@) {
        Some(s) => s,
        None => Seq::empty(),
    };
    if label_missing(v) && name.len() > 0 {
        lemma_with_key_other(v, "label"@, JsonView::Str(spec_derive_label(name)), "gui_info"@);
    }
    let v1 = if label_missing(v) && name.len() > 0 {
        with_key(v, "label"@, JsonView::Str(spec_derive_label(name)))
    } else {
        v
    };
    if lookup(v1, "gui_info"@) is None {
        lemma_with_key_other(v1, "gui_info"@, default_gui_json(), "label"@);
    }
}

/// Filling defaults twice is filling them once.
pub proof fn law_fill_defaults_is_idempotent(doc: JsonView)
    ensures
        spec_fill_defaults(spec_fill_defaults(doc)) == spec_fill_defaults(doc),
{
    if doc is Object {
        lemma_keys_distinct();
        let name = spec_command_name(doc);
        let labelled = label_missing(doc) && name.len() > 0;
        let d1 = if labelled {
            with_key(doc, "label"@, JsonView::Str(spec_derive_label(name)))
        } else {
            doc
        };
        if labelled {
            lemma_with_key_same(doc, "label"@, JsonView::Str(spec_derive_label(name)));
            lemma_with_key_other(doc, "label"@, JsonView::Str(spec_derive_label(name)), "name"@);
        }
        assert(d1 is Object);
        let d2 = fill_key(d1, "state_argument"@);
        lemma_fill_key(d1, "state_argument"@, "label"@);
        lemma_fill_key(d1, "state_argument"@, "name"@);
        lemma_fill_key(d1, "state_argument"@, "arguments"@);
        let d3 = fill_key(d2, "arguments"@);
        lemma_fill_key(d2, "arguments"@, "label"@);
        lemma_fill_key(d2, "arguments"@, "name"@);
        lemma_fill_key(d2, "arguments"@, "state_argument"@);
        assert(spec_fill_defaults(doc) == d3);
        assert(spec_command_name(d3) == name);
        assert(lookup(d3, "label"@) == lookup(d1, "label"@));
        // the label step of the second pass changes nothing
        let e1 = if label_missing(d3) && name.len() > 0 {
            with_key(d3, "label"@, JsonView::Str(spec_derive_label(name)))
        } else {
            d3
        };
        if label_missing(d3) && name.len() > 0 {
            assert(labelled);
            lemma_with_key_noop(d3, "label"@, JsonView::Str(spec_derive_label(name)));
        }
        assert(e1 == d3);
        // the state argument is filled already
        assert(lookup(d3, "state_argument"@) == lookup(d2, "state_argument"@));
        lemma_fill_key(d3, "state_argument"@, "arguments"@);
        assert(fill_key(d3, "state_argument"@) == d3) by {
            match lookup(d2, "state_argument"@) {
                Some(x) => {
                    assert(fill_key(d2, "state_argument"@) == d2);
                    match x {
                        JsonView::Array(list) => {
                            assert(lookup(d1, "state_argument"@) matches Some(y) && (y is Array || y is Object));
                            lemma_fill_key_stable(d1, d3, "state_argument"@);
                        },
                        JsonView::Object(_) => {
                            lemma_fill_key_stable(d1, d3, "state_argument"@);
                        },
                        _ => {},
                    }
                },
                None => {},
            }
        }
        assert(fill_key(d3, "arguments"@) == d3) by {
            lemma_fill_key_stable(d2, d3, "arguments"@);
        }
        assert(spec_fill_defaults(d3) == fill_key(fill_key(e1, "state_argument"@), "arguments"@));
    }
}

/// Once `key` holds filled entries, filling it again leaves the document alone.
proof fn lemma_fill_key_stable(before: JsonView, after: JsonView, key: Seq<char>)
    requires
        before is Object,
        after is Object,
        lookup(after, key) == lookup(fill_key(before, key), key),
    ensures
        fill_key(after, key) == after,
{
    lemma_fill_key(before, key, key);
    match lookup(before, key) {
        Some(JsonView::Array(list)) => {
            let filled = JsonView::Array(list.map_values(|a: JsonView| fill_argument(a)));
            lemma_with_key_same(before, key, filled);
            lemma_map_fill_idem(list);
            lemma_with_key_noop(after, key, filled);
        },
        Some(JsonView::Object(ms)) => {
            let filled = fill_argument(JsonView::Object(ms));
            lemma_with_key_same(before, key, filled);
            law_fill_argument_is_idempotent(JsonView::Object(ms));
            lemma_fill_key(before, key, key);
            match filled {
                JsonView::Object(_) => {
                    lemma_with_key_noop(after, key, filled);
                },
                _ => {},
            }
        },
        _ => {
            assert(fill_key(before, key) == before);
        },
    }
}

/// An argument entry gets a label derived from its name when it has none, and the default
/// widget when it declares no widget.
pub proof fn law_fill_argument_defaults(v: JsonView, name: Seq<char>)
    requires
        v is Object,
        lookup_str(v, "name"@) == Some(name),
        name.len() > 0,
    ensures
        label_missing(v) ==> lookup(fill_argument(v), "label"@) == Some(JsonView::Str(spec_derive_label(name))),
        lookup(v, "gui_info"@) is None ==> lookup(fill_argument(v), "gui_info"@) == Some(default_gui_json()),
{
    lemma_keys_distinct();
    let v1 = if label_missing(v) {
        with_key(v, "label"@, JsonView::Str(spec_derive_label(name)))
    } else {
        v
    };
    if label_missing(v) {
        lemma_with_key_same(v, "label"@, JsonView::Str(spec_derive_label(name)));
        lemma_with_key_other(v, "label"@, JsonView::Str(spec_derive_label(name)), "gui_info"@);
    }
    assert(v1 is Object);
    if lookup(v1, "gui_info"@) is None {
        lemma_with_key_same(v1, "gui_info"@, default_gui_json());
        lemma_with_key_other(v1, "gui_info"@, default_gui_json(), "label"@);
    }
}

/// Filling a document's defaults fills every entry of its argument list.
pub proof fn law_fill_defaults_fills_every_argument(doc: JsonView, list: Seq<JsonView>)
    requires
        doc is Object,
        lookup(doc, "arguments"@) == Some(JsonView::Array(list)),
    ensures
        lookup(spec_fill_defaults(doc), "arguments"@) == Some(JsonView::Array(
            list.map_values(|a: JsonView| fill_argument(a)),
        )),
{
    lemma_keys_distinct();
    let name = spec_command_name(doc);
    let d1 = if label_missing(doc) && name.len() > 0 {
        with_key(doc, "label"@, JsonView::Str(spec_derive_label(name)))
    } else {
        doc
    };
    if label_missing(doc) && name.len() > 0 {
        lemma_with_key_same(doc, "label"@, JsonView::Str(spec_derive_label(name)));
        lemma_with_key_other(doc, "label"@, JsonView::Str(spec_derive_label(name)), "arguments"@);
    }
    assert(d1 is Object);
    lemma_fill_key(d1, "state_argument"@, "arguments"@);
    let d2 = fill_key(d1, "state_argument"@);
    lemma_with_key_same(d2, "arguments"@, JsonView::Array(list.map_values(|a: JsonView| fill_argument(a))));
}

/// An identifier made of separators alone derives the empty label.
pub proof fn law_label_of_separators_is_empty(name: Seq<char>)
    requires
        forall|i: int| 0 <= i < name.len() ==> is_separator(#[trigger] name[i]),
    ensures
        spec_derive_label(name) == Seq::<char>::empty(),
{
    lemma_separators_fold(name, name.len());
    assert(separator_parts(name) =~= Seq::<Seq<char>>::empty());
    assert(words_of_parts(separator_parts(name), 0) =~= Seq::<Seq<char>>::empty());
}

proof fn lemma_separators_fold(name: Seq<char>, n: nat)
    requires
        n <= name.len(),
        forall|i: int| 0 <= i < name.len() ==> is_separator(#[trigger] name[i]),
    ensures
        separator_fold(name, n).0.len() == 0,
        separator_fold(name, n).1.len() == 0,
    decreases n,
{
    if n > 0 {
        lemma_separators_fold(name, (n - 1) as nat);
        assert(is_separator(name[n - 1]));
    }
}

/// An identifier with a character other than a separator has at least one word, and its label
/// is built from its words.
pub proof fn law_label_has_words(name: Seq<char>, i: int)
    requires
        0 <= i < name.len(),
        !is_separator(name[i]),
    ensures
        separator_parts(name).len() > 0,
        words_of_parts(separator_parts(name), separator_parts(name).len()).len() > 0,
{
    lemma_fold_nonempty(name, name.len(), i);
    let parts = separator_parts(name);
    lemma_parts_nonempty(name, name.len());
    lemma_words_of_parts_nonempty(parts, parts.len());
}

proof fn lemma_fold_nonempty(name: Seq<char>, n: nat, i: int)
    requires
        n <= name.len(),
        0 <= i < n,
        !is_separator(name[i]),
    ensures
        separator_fold(name, n).0.len() > 0 || separator_fold(name, n).1.len() > 0,
    decreases n,
{
    if i < n - 1 {
        lemma_fold_nonempty(name, (n - 1) as nat, i);
    }
}

proof fn lemma_parts_nonempty(name: Seq<char>, n: nat)
    requires
        n <= name.len(),
    ensures
        forall|k: int| 0 <= k < separator_fold(name, n).0.len() ==> (#[trigger] separator_fold(name, n).0[k]).len() > 0,
    decreases n,
{
    if n > 0 {
        lemma_parts_nonempty(name, (n - 1) as nat);
        let prev = separator_fold(name, (n - 1) as nat);
        let now = separator_fold(name, n);
        assert forall|k: int| 0 <= k < now.0.len() implies (#[trigger] now.0[k]).len() > 0 by {
            if k < prev.0.len() {
                assert(prev.0[k].len() > 0);
            }
        }
    }
}

proof fn lemma_camel_words_nonempty(cs: Seq<char>, n: nat)
    requires
        n <= cs.len(),
    ensures
        n > 0 ==> camel_fold(cs, n).1.len() > 0,
    decreases n,
{
    if n > 0 {
        lemma_camel_words_nonempty(cs, (n - 1) as nat);
    }
}

proof fn lemma_words_of_parts_nonempty(parts: Seq<Seq<char>>, k: nat)
    requires
        k <= parts.len(),
        k > 0,
        forall|j: int| 0 <= j < parts.len() ==> (#[trigger] parts[j]).len() > 0,
    ensures
        words_of_parts(parts, k).len() > 0,
    decreases k,
{
    let p = parts[k - 1];
    lemma_camel_words_nonempty(p, p.len());
    assert(camel_words(p).len() > 0);
}

} // verus!
