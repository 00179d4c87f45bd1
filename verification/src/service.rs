//! What a front end needs around a generation run: the directory that a
//! request is generated into, and the sentence that reports success.

use vstd::prelude::*;
use crate::codegen::generators::CodeGenerator;
use crate::models::config::{CliConfig, ValidationError};

verus! {

/// Whether a character is alphanumeric as `char::is_alphanumeric` of the
/// standard library has it: a letter or a number by the Unicode tables
/// that the library was built with. The tables are not written out here;
/// their verdict has this name.
pub uninterp spec fn alphanumeric(c: char) -> bool;

/// Taken on trust from the standard library, not proved here:
/// `char::is_alphanumeric` depends on the character alone, so that its
/// result is the verdict named [`alphanumeric`]. Nothing is claimed of
/// which characters are alphanumeric.
pub assume_specification[ char::is_alphanumeric ](c: char) -> (yes: bool)
    ensures
        yes == alphanumeric(c),
;

/// Whether a character may stand in the name of a directory as it is:
/// letters, numbers, the hyphen and the underscore.
pub open spec fn safe_in_path(c: char) -> bool {
    alphanumeric(c) || c == '-' || c == '_'
}

/// A project name made safe for use as a directory name: every
/// character that is not safe in a path becomes an underscore.
pub open spec fn sanitized(name: Seq<char>) -> Seq<char> {
    Seq::new(name.len(), |i: int| if safe_in_path(name[i]) { name[i] } else { '_' })
}

/// The directory that a request for the project `name` is generated
/// into.
pub open spec fn work_directory_of(name: Seq<char>) -> Seq<char> {
    "work/"@ + sanitized(name)
}

/// The sentence that reports success for the project `name`.
pub open spec fn success_text(name: Seq<char>) -> Seq<char> {
    "CLI code generated successfully for '"@ + name + "'"@
}

/// Makes a project name safe for use as a directory name.
pub fn sanitize_name(name: &str) -> (safe: String)
    ensures
        safe@ == sanitized(name@),
{
    let mut safe = String::new();
    for c in it: name.chars()
        invariant
            it.seq() == name@,
            safe@ == sanitized(name@).take(it.index() as int),
    {
        if c.is_alphanumeric() || c == '-' || c == '_' {
            safe.push(c);
        } else {
            safe.push('_');
        }
        assert(safe@ =~= sanitized(name@).take(it.index() + 1));
    }
    assert(safe@ =~= sanitized(name@));
    safe
}

/// The directory that a request is generated into, if the configuration
/// is valid: `work/` and the sanitized name of the project. An invalid
/// configuration is turned down with the verdict of
/// [`CodeGenerator::validate_config`].
pub fn work_directory(config: &CliConfig) -> (directory: Result<String, ValidationError>)
    ensures
        match config@.validation() {
            Ok(()) => directory is Ok && directory->Ok_0@ == work_directory_of(config@.name),
            Err(error) => directory == Err::<String, ValidationError>(error),
        },
{
    match CodeGenerator::validate_config(config) {
        Ok(()) => {
            let mut directory = "work/".to_owned();
            let safe = sanitize_name(config.name.as_str());
            directory.append(safe.as_str());
            Ok(directory)
        },
        Err(error) => Err(error),
    }
}

/// The sentence that reports success for the project `name`.
pub fn success_message(name: &str) -> (sentence: String)
    ensures
        sentence@ == success_text(name@),
{
    let mut sentence = "CLI code generated successfully for '".to_owned();
    sentence.append(name);
    sentence.append("'");
    sentence
}

/// Nothing but safe characters stands in a sanitized name, and it is as
/// long as the name.
pub proof fn lemma_sanitized_is_safe(name: Seq<char>)
    ensures
        sanitized(name).len() == name.len(),
        forall|i: int| 0 <= i < name.len() ==> safe_in_path(#[trigger] sanitized(name)[i]),
{
}

} // verus!
