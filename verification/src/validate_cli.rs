//! The decisions of the query validator's command line: which registry files to read, what
//! to validate, and how far.
use vstd::prelude::*;
use crate::error::{Error, ErrorType};
use crate::text::owned;

verus! {

/// How far validation goes: parsing only, or parsing and planning against a registry.
#[derive(Debug, Clone, Copy, PartialEq, Eq, Structural)]
pub enum ValidationLevel {
    Parse,
    Plan,
}

/// The level to validate at: the one asked for; else planning when the registry holds any
/// command, since planning without commands would find every action unregistered.
pub open spec fn spec_level(asked: Option<ValidationLevel>, command_count: nat) -> ValidationLevel {
    match asked {
        Some(level) => level,
        None => if command_count > 0 {
            ValidationLevel::Plan
        } else {
            ValidationLevel::Parse
        },
    }
}

pub fn choose_level(asked: Option<ValidationLevel>, command_count: usize) -> (r: ValidationLevel)
    ensures
        r == spec_level(asked, command_count as nat),
{
    match asked {
        Some(level) => level,
        None => if command_count > 0 {
            ValidationLevel::Plan
        } else {
            ValidationLevel::Parse
        },
    }
}

/// Where the registry comes from, in order of precedence.
#[derive(Debug, Clone, Copy, PartialEq, Eq, Structural)]
pub enum RegistrySource {
    /// No registry at all, as asked.
    Nothing,
    /// The files named on the command line.
    Files,
    /// The file the environment names.
    Environment,
    /// The registry committed in the checkout, when one is found.
    Committed,
}

/// Explicit files win; then the environment when it names a file; then the committed
/// registry; and no registry when that was asked for.
pub open spec fn spec_registry_source(no_registry: bool, file_count: nat, env: Option<Seq<char>>) -> RegistrySource {
    if no_registry {
        RegistrySource::Nothing
    } else if file_count > 0 {
        RegistrySource::Files
    } else if env matches Some(p) && p.len() > 0 {
        RegistrySource::Environment
    } else {
        RegistrySource::Committed
    }
}

pub fn registry_source(no_registry: bool, file_count: usize, env: Option<&str>) -> (r: RegistrySource)
    ensures
        r == spec_registry_source(
            no_registry,
            file_count as nat,
            match env {
                Some(p) => Some(p@),
                None => None,
            },
        ),
{
    if no_registry {
        RegistrySource::Nothing
    } else if file_count > 0 {
        RegistrySource::Files
    } else {
        match env {
            Some(p) => if p.unicode_len() > 0 {
                RegistrySource::Environment
            } else {
                RegistrySource::Committed
            },
            None => RegistrySource::Committed,
        }
    }
}

/// What the validator reads its input from.
#[derive(Debug, Clone, Copy, PartialEq, Eq, Structural)]
pub enum InputSource {
    /// A recipe list.
    Recipes,
    /// A file of queries, one per line.
    QueryFile,
    /// The queries given on the command line.
    Queries,
}

/// `No input. Pass a query after `--`, or use --query-file or --recipes.`
pub open spec fn no_input_message() -> Seq<char> {
    "No input. Pass a query after `--`, or use --query-file or --recipes."@
}

/// Recipes win over a query file, which wins over queries on the command line; with none of
/// them the invocation is wrong.
pub fn input_source(has_recipes: bool, has_query_file: bool, query_count: usize) -> (r: Result<InputSource, Error>)
    ensures
        has_recipes ==> r == Ok::<InputSource, Error>(InputSource::Recipes),
        !has_recipes && has_query_file ==> r == Ok::<InputSource, Error>(InputSource::QueryFile),
        !has_recipes && !has_query_file && query_count > 0 ==> r == Ok::<InputSource, Error>(InputSource::Queries),
        !has_recipes && !has_query_file && query_count == 0 ==> (r matches Err(e) && e.error_type
            == ErrorType::General && e.message@ == no_input_message()),
{
    if has_recipes {
        Ok(InputSource::Recipes)
    } else if has_query_file {
        Ok(InputSource::QueryFile)
    } else if query_count > 0 {
        Ok(InputSource::Queries)
    } else {
        Err(Error::general_error(owned("No input. Pass a query after `--`, or use --query-file or --recipes.")))
    }
}

/// An explicit level is always used; without one, validation plans exactly when the
/// registry holds a command.
pub proof fn law_level_follows_registry(asked: Option<ValidationLevel>, command_count: nat)
    ensures
        asked matches Some(l) ==> spec_level(asked, command_count) == l,
        asked is None ==> (spec_level(asked, command_count) == ValidationLevel::Plan <==> command_count > 0),
{
}

/// Asking for no registry always gives none; otherwise files named on the command line win,
/// then a non-empty environment path, and the committed registry is the fallback.
pub proof fn law_registry_precedence(no_registry: bool, file_count: nat, env: Option<Seq<char>>)
    ensures
        spec_registry_source(no_registry, file_count, env) == RegistrySource::Nothing <==> no_registry,
        spec_registry_source(no_registry, file_count, env) == RegistrySource::Files <==> (!no_registry && file_count > 0),
        spec_registry_source(no_registry, file_count, env) == RegistrySource::Environment <==> (!no_registry
            && file_count == 0 && (env matches Some(p) && p.len() > 0)),
{
}

} // verus!
