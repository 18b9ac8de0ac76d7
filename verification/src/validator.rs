//! Validation of recipe files: which results are reported and the error for a
//! requested application that none of them names.
use crate::text::{cat3, chars_of, eq, lit, string_of};
use vstd::prelude::*;

verus! {

/// The outcome of validating one recipe file.
pub struct ValidationResult {
    pub app_name: Option<String>,
    pub file: String,
    pub status: ValidationStatus,
    pub error: Option<String>,
}

/// Whether a recipe file is a valid application configuration.
#[derive(Clone, Copy, Debug, PartialEq, Eq, Structural)]
pub enum ValidationStatus {
    Valid,
    Invalid,
}

/// The error for an application that no recipe names.
pub open spec fn not_found_message(name: Seq<char>) -> Seq<char> {
    "App '"@ + name + "' not found in configuration."@
}

/// The error for an application that no recipe names.
pub fn app_not_found_error(name: &str) -> (r: String)
    ensures
        r@ == not_found_message(name@),
{
    string_of(&cat3(&lit("App '"), &chars_of(name), &lit("' not found in configuration.")))
}

/// Whether a result is about the application `target`.
pub open spec fn names_target(r: ValidationResult, target: Seq<char>) -> bool {
    match r.app_name {
        Some(n) => n@ == target,
        None => false,
    }
}

/// The results reported: all of them, or those about the target.
pub open spec fn reported(results: Seq<ValidationResult>, target: Option<Seq<char>>) -> Seq<ValidationResult>
    decreases results.len(),
{
    if results.len() == 0 {
        seq![]
    } else {
        let rest = reported(results.drop_last(), target);
        match target {
            Some(t) => if names_target(results.last(), t) { rest.push(results.last()) } else { rest },
            None => rest.push(results.last()),
        }
    }
}

fn names_target_exec(r: &ValidationResult, target: &str) -> (b: bool)
    ensures
        b == names_target(*r, target@),
{
    match &r.app_name {
        Some(n) => eq(&chars_of(n.as_str()), &chars_of(target)),
        None => false,
    }
}

/// Picks the results to report from the validation of every recipe file (in the order
/// the files were found): all of them, or those about `target_app`, with the error for
/// a target that none of them names (also when the recipe directory is missing).
pub fn validate_app_configs(
    apps_dir_exists: bool,
    file_results: Vec<ValidationResult>,
    target_app: Option<&str>,
) -> (r: (Vec<ValidationResult>, Option<String>))
    ensures
        !apps_dir_exists ==> r.0@.len() == 0,
        apps_dir_exists ==> r.0@ == reported(file_results@, crate::resolvers::opt_str(target_app)),
        match target_app {
            None => r.1 is None,
            Some(t) => if apps_dir_exists && exists|i: int| 0 <= i < file_results@.len() && names_target(#[trigger] file_results@[i], t@) {
                r.1 is None
            } else {
                r.1 matches Some(m) && m@ == not_found_message(t@)
            },
        },
{
    if !apps_dir_exists {
        let error = match target_app {
            Some(t) => Some(app_not_found_error(t)),
            None => None,
        };
        return (Vec::new(), error);
    }
    let ghost all = file_results@;
    let ghost target = crate::resolvers::opt_str(target_app);
    let mut results: Vec<ValidationResult> = Vec::new();
    let mut found = target_app.is_none();
    let mut rest = file_results;
    let mut i: usize = 0;
    let n = rest.len();
    assert(rest@ == all.skip(0));
    while rest.len() > 0
        invariant
            n == all.len(),
            rest@.len() + i == n,
            rest@ == all.skip(i as int),
            results@ == reported(all.take(i as int), target),
            target == crate::resolvers::opt_str(target_app),
            found == (target_app is None || exists|j: int| 0 <= j < i && names_target(#[trigger] all[j], target->0)),
        decreases rest@.len(),
    {
        let ghost before = rest@;
        let item = rest.remove(0);
        proof {
            assert(item == all[i as int]);
            assert(rest@ =~= all.skip(i + 1));
            assert(all.take(i + 1).drop_last() =~= all.take(i as int));
            assert(all.take(i + 1).last() == all[i as int]);
        }
        match target_app {
            Some(t) => {
                if names_target_exec(&item, t) {
                    found = true;
                    results.push(item);
                }
            },
            None => {
                results.push(item);
            },
        }
        i = i + 1;
    }
    assert(all.take(n as int) =~= all);
    let error = if found {
        None
    } else {
        match target_app {
            Some(t) => Some(app_not_found_error(t)),
            None => None,
        }
    };
    (results, error)
}


/// The string at the top-level `key` of the YAML document `content`
/// (`serde_yaml::from_str` into a `serde_yaml::Value`, then the mapping's entry),
/// or nothing when the text is not YAML, not a mapping, or holds no string there.
pub uninterp spec fn yaml_string_field(content: Seq<char>, key: Seq<char>) -> Option<Seq<char>>;

/// Reads the string at the top-level `key` of a YAML text with serde_yaml. The claim:
/// the result is `yaml_string_field` of the text and the key.
#[verifier::external_body]
fn yaml_string_field_of(content: &str, key: &str) -> (r: Option<String>)
    ensures
        match r {
            Some(s) => yaml_string_field(content@, key@) == Some(s@),
            None => yaml_string_field(content@, key@) is None,
        },
{
    let value: serde_yaml::Value = serde_yaml::from_str(content).ok()?;
    let field = value.as_mapping()?.get(serde_yaml::Value::String(key.to_string()))?;
    field.as_str().map(|s| s.to_string())
}

/// The application name a recipe text declares: its top-level `name`, when the text
/// is YAML with a string there.
pub open spec fn declared_name_spec(content: Seq<char>) -> Option<Seq<char>> {
    yaml_string_field(content, "name"@)
}

/// The application name a recipe text declares, whether or not the rest of it is a
/// valid recipe.
pub(crate) fn infer_name_from_yaml(content: &str) -> (r: Option<String>)
    ensures
        match r {
            Some(s) => declared_name_spec(content@) == Some(s@),
            None => declared_name_spec(content@) is None,
        },
{
    yaml_string_field_of(content, "name")
}

/// The result of validating the recipe file `file` with text `content`: valid, under
/// its name, when it parsed as a recipe (`parsed`); else invalid with the parse error,
/// named by the `name` the text declares, if any.
pub fn validate_recipe_text(file: String, content: &str, parsed: Result<String, String>) -> (r: ValidationResult)
    ensures
        r.file == file,
        match parsed {
            Ok(name) => r.app_name == Some(name) && r.status == ValidationStatus::Valid && r.error is None,
            Err(e) => r.status == ValidationStatus::Invalid && r.error == Some(e) && match r.app_name {
                Some(n) => declared_name_spec(content@) == Some(n@),
                None => declared_name_spec(content@) is None,
            },
        },
{
    let inferred = infer_name_from_yaml(content);
    match parsed {
        Ok(name) => ValidationResult { app_name: Some(name), file, status: ValidationStatus::Valid, error: None },
        Err(e) => ValidationResult { app_name: inferred, file, status: ValidationStatus::Invalid, error: Some(e) },
    }
}

/// The result for a recipe file that could not be read: invalid, unnamed, with
/// `Failed to read file: ` and the error.
pub fn unreadable_recipe(file: String, error: &str) -> (r: ValidationResult)
    ensures
        r.file == file,
        r.app_name is None,
        r.status == ValidationStatus::Invalid,
        r.error matches Some(m) && m@ == "Failed to read file: "@ + error@,
{
    ValidationResult {
        app_name: None,
        file,
        status: ValidationStatus::Invalid,
        error: Some(string_of(&crate::text::cat(&lit("Failed to read file: "), &chars_of(error)))),
    }
}

} // verus!
