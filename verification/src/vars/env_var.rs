//! Environment variables, and which of them templates may read.

use crate::json::opt;
use crate::text::{has_prefix, starts_with};
use crate::value::{is_text, Value};
use vstd::prelude::*;

verus! {

/// The prefix for environment variables that contain secrets
pub const SECRET_ENV_VAR_PREFIX: &'static str = "DBT_ENV_SECRET";

/// The prefix for environment variables that are reserved for dbt
pub const DBT_INTERNAL_ENV_VAR_PREFIX: &'static str = "_DBT";

/// The default placeholder for environment variables when the default value is used
pub const DEFAULT_ENV_PLACEHOLDER: &'static str = "__dbt_placeholder__";

pub open spec fn is_secret(var: Seq<char>) -> bool {
    starts_with(var, "DBT_ENV_SECRET"@)
}

pub open spec fn is_reserved(var: Seq<char>) -> bool {
    starts_with(var, "_DBT"@)
}

/// What stands for a secret, until it is used.
pub open spec fn placeholder(var: Seq<char>) -> Seq<char> {
    "$$$DBT_SECRET_START$$$"@ + var + "$$$DBT_SECRET_END$$$"@
}

/// The placeholder of a secret environment variable
pub fn secret_placeholder(var: &str) -> (r: String)
    ensures
        r@ == placeholder(var@),
{
    "$$$DBT_SECRET_START$$$".to_owned().concat(var).concat("$$$DBT_SECRET_END$$$")
}

/// Why a variable may not be read, where it may not.
pub open spec fn access_refusal(placeholder_on_secret_access: bool, var: Seq<char>) -> Option<
    Seq<char>,
> {
    if is_secret(var) && !placeholder_on_secret_access {
        Some(
            "Secret environment variables (starting with DBT_ENV_SECRET) cannot be accessed here"@,
        )
    } else if is_reserved(var) {
        Some("Environment variables (starting with _DBT) cannot be accessed here"@)
    } else {
        None
    }
}

pub fn check_access(placeholder_on_secret_access: bool, var: &str) -> (r: Result<(), String>)
    ensures
        match (r, access_refusal(placeholder_on_secret_access, var@)) {
            (Ok(_), None) => true,
            (Err(e), Some(f)) => e@ == f,
            _ => false,
        },
{
    if has_prefix(var, SECRET_ENV_VAR_PREFIX) && !placeholder_on_secret_access {
        return Err(
            "Secret environment variables (starting with DBT_ENV_SECRET) cannot be accessed here".to_owned(),
        );
    }
    if has_prefix(var, DBT_INTERNAL_ENV_VAR_PREFIX) {
        return Err(
            "Environment variables (starting with _DBT) cannot be accessed here".to_owned(),
        );
    }
    Ok(())
}

/// A variable that was read, with the value that is recorded of it, where one is.
#[derive(Debug)]
pub struct Resolved {
    pub value: Value,
    pub recorded: Option<String>,
}

/// The value of a variable: what the scope holds, or else what the process holds.
pub open spec fn is_resolved(
    r: Result<Resolved, String>,
    placeholder_on_secret_access: bool,
    var: Seq<char>,
    scoped: Option<Value>,
    process: Option<String>,
    default: Option<Value>,
) -> bool {
    match access_refusal(placeholder_on_secret_access, var) {
        Some(refused) => r matches Err(e) && e@ == refused,
        None => if scoped is Some || process is Some {
            if is_secret(var) {
                r matches Ok(v) && is_text(v.value, placeholder(var)) && v.recorded is None
            } else {
                match scoped {
                    Some(s) => r matches Ok(v) && v.value == s && opt(v.recorded) == Some(s.text@),
                    None => r matches Ok(v) && is_text(v.value, process->0@) && opt(v.recorded)
                        == Some(process->0@),
                }
            }
        } else {
            match default {
                Some(d) => r matches Ok(v) && v.value == d && opt(v.recorded) == Some(
                    "__dbt_placeholder__"@,
                ),
                None => r matches Err(e) && e@ == "'env_var': environment variable '"@ + var
                    + "' not found"@,
            }
        },
    }
}

/// No secret is handed out or recorded, and no reserved variable is read at all.
pub proof fn secrets_stay_hidden(
    r: Result<Resolved, String>,
    placeholder_on_secret_access: bool,
    var: Seq<char>,
    scoped: Option<Value>,
    process: Option<String>,
    default: Option<Value>,
)
    requires
        is_resolved(r, placeholder_on_secret_access, var, scoped, process, default),
    ensures
        is_reserved(var) ==> r is Err,
        is_secret(var) && !placeholder_on_secret_access ==> r is Err,
        is_secret(var) && (scoped is Some || process is Some) ==> (r matches Ok(v) ==> is_text(
            v.value,
            placeholder(var),
        ) && v.recorded is None),
{
}

/// Resolve an environment variable using a scoped lookup before the process environment.
///
/// Scoped values obey the same reserved-name checks, secret-access rules, and
/// tracking behavior as process values. Allowed secrets return placeholders.
pub fn env_var_with_lookup(
    placeholder_on_secret_access: bool,
    var: &str,
    scoped: Option<Value>,
    process: Option<String>,
    default: Option<Value>,
) -> (r: Result<Resolved, String>)
    ensures
        is_resolved(r, placeholder_on_secret_access, var@, scoped, process, default),
{
    if let Err(e) = check_access(placeholder_on_secret_access, var) {
        return Err(e);
    }
    if scoped.is_some() || process.is_some() {
        if has_prefix(var, SECRET_ENV_VAR_PREFIX) {
            let value = Value::of_text(secret_placeholder(var).as_str());
            return Ok(Resolved { value, recorded: None });
        }
        if let Some(value) = scoped {
            let text = value.text.clone();
            return Ok(Resolved { value, recorded: Some(text) });
        }
        if let Some(text) = process {
            return Ok(Resolved { value: Value::of_text(text.as_str()), recorded: Some(text) });
        }
    }
    match default {
        Some(value) => Ok(Resolved { value, recorded: Some(DEFAULT_ENV_PLACEHOLDER.to_owned()) }),
        None => Err(
            "'env_var': environment variable '".to_owned().concat(var).concat("' not found"),
        ),
    }
}

/// Resolve an environment variable that may be overridden. Overrides are returned
/// unchanged, without validation, secret placeholders, or tracking.
pub fn env_var(
    placeholder_on_secret_access: bool,
    var: &str,
    overridden: Option<Value>,
    process: Option<String>,
    default: Option<Value>,
) -> (r: Result<Resolved, String>)
    ensures
        match overridden {
            Some(v) => r matches Ok(got) && got.value == v && got.recorded is None,
            None => is_resolved(
                r,
                placeholder_on_secret_access,
                var@,
                None,
                process,
                default,
            ),
        },
{
    match overridden {
        Some(value) => Ok(Resolved { value, recorded: None }),
        None => env_var_with_lookup(placeholder_on_secret_access, var, None, process, default),
    }
}

} // verus!
