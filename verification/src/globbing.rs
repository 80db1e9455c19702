//! Shell-style patterns, compiled and matched by the `glob` crate.

use vstd::prelude::*;

verus! {

/// What `glob::Pattern::new` reports for the pattern text `pattern`: `None`
/// where it compiles, else the text of its `PatternError`.
pub uninterp spec fn glob_compile_error(pattern: Seq<char>) -> Option<Seq<char>>;

/// What `glob::Pattern::matches` answers for the compiled `pattern` and the
/// text `name`.
pub uninterp spec fn glob_matches(pattern: Seq<char>, name: Seq<char>) -> bool;

/// Compiles `pattern` with `glob::Pattern::new` and keeps only whether it
/// compiled, or the `Display` text of the `PatternError` it gave. The
/// contract claims that the outcome is `glob_compile_error` of the text.
#[verifier::external_body]
pub(crate) fn check_glob(pattern: &str) -> (r: Result<(), String>)
    ensures
        match r {
            Ok(_) => glob_compile_error(pattern@) is None,
            Err(m) => glob_compile_error(pattern@) == Some(m@),
        },
{
    match glob::Pattern::new(pattern) {
        Ok(_) => Ok(()),
        Err(e) => Err(e.to_string()),
    }
}

/// Compiles `pattern` with `glob::Pattern::new` and asks
/// `glob::Pattern::matches` about `name`, with the default match options.
/// The contract claims that the answer is `glob_matches` of the two texts;
/// the `requires` keeps out the patterns that do not compile.
#[verifier::external_body]
pub(crate) fn glob_match(pattern: &str, name: &str) -> (r: bool)
    requires
        glob_compile_error(pattern@) is None,
    ensures
        r == glob_matches(pattern@, name@),
{
    match glob::Pattern::new(pattern) {
        Ok(p) => p.matches(name),
        Err(_) => false,
    }
}

} // verus!
