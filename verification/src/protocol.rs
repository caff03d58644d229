//! The decisions of the command line through which a book builder calls
//! the preprocessor.

use vstd::prelude::*;
use vstd::string::StringExecFns;

verus! {

/// The warning for a preprocessor named `plugin` that was built against
/// one version of the book builder and is called from another.
pub open spec fn version_warning_text(
    plugin: Seq<char>,
    built_against: Seq<char>,
    called_from: Seq<char>,
) -> Seq<char> {
    "Warning: The "@ + plugin + " plugin was built against version "@ + built_against
        + " of mdbook, but we're being called from version "@ + called_from
}

/// Compares the version of the book builder that the preprocessor was
/// built against with the version that calls it. Where they differ the
/// result is a warning for the user; the book is processed all the same.
pub fn version_warning(plugin: &str, built_against: &str, called_from: &str) -> (warning: Option<
    String,
>)
    ensures
        built_against@ == called_from@ ==> warning is None,
        built_against@ != called_from@ ==> (warning matches Some(text) && text@
            == version_warning_text(plugin@, built_against@, called_from@)),
{
    if String::from_str(built_against) == String::from_str(called_from) {
        None
    } else {
        let mut text = String::from_str("Warning: The ");
        text.append(plugin);
        text.append(" plugin was built against version ");
        text.append(built_against);
        text.append(" of mdbook, but we're being called from version ");
        text.append(called_from);
        Some(text)
    }
}

/// The exit status that answers whether a renderer is supported: 0 where
/// it is, 1 where it is not.
pub fn exit_status(supported: bool) -> (status: i32)
    ensures
        supported ==> status == 0,
        !supported ==> status == 1,
{
    if supported {
        0
    } else {
        1
    }
}

} // verus!
