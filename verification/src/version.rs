//! The check that the host tool and this library agree on their version.

use crate::links::optional_text;
use vstd::prelude::*;

verus! {

/// The warning for a plugin of the given name that was built against one
/// version and is called from another.
pub open spec fn version_warning(name: Seq<char>, built_against: Seq<char>, called_from: Seq<char>)
    -> Seq<char> {
    "  Warning: The "@ + name + " plugin was built against version "@ + built_against
        + " of Yarner, but we're being called from version "@ + called_from
}

/// Compares the version that the plugin was built against with the version
/// of the tool that calls it. Where they differ the warning is returned;
/// where they agree, nothing.
pub fn check_version(name: &str, built_against: &str, called_from: &str) -> (warning: Option<
    String,
>)
    ensures
        optional_text(warning) == if called_from@ == built_against@ {
            None
        } else {
            Some(version_warning(name@, built_against@, called_from@))
        },
{
    if String::from_str(called_from) == String::from_str(built_against) {
        None
    } else {
        let mut warning = String::from_str("  Warning: The ");
        warning.append(name);
        warning.append(" plugin was built against version ");
        warning.append(built_against);
        warning.append(" of Yarner, but we're being called from version ");
        warning.append(called_from);
        Some(warning)
    }
}

} // verus!
