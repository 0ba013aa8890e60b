//! Attribute files of the kernel's device trees.

use vstd::prelude::*;

use crate::text::{cat2, chars, text, trim, trimmed};

verus! {

/// Why a file could not be read.
#[derive(Debug, Clone, Copy, PartialEq, Eq, Structural)]
pub enum ReadFailure {
    NotFound,
    PermissionDenied,
    Other,
}

/// Whether this is what reading an attribute file comes to.
pub open spec fn read_as(
    r: Result<Option<String>, String>,
    path: Seq<char>,
    contents: Result<String, ReadFailure>,
) -> bool {
    match contents {
        Ok(s) => r matches Ok(Some(t)) && t@ == trimmed(s@),
        Err(ReadFailure::PermissionDenied) => r matches Err(e) && e@ == "permission denied reading "@
            + path,
        Err(_) => r matches Ok(None),
    }
}

/// What an attribute file says, its contents trimmed. A file that does not exist is
/// normal for interfaces and hubs and says nothing; so does one that fails in a way
/// nobody expected. A file that may not be read is an error that names it: the
/// failure itself carries no path.
pub fn read_sysfs_attr(path: &str, contents: Result<String, ReadFailure>) -> (r: Result<
    Option<String>,
    String,
>)
    ensures
        match contents {
            Ok(s) => r matches Ok(Some(t)) && t@ == trimmed(s@),
            Err(ReadFailure::PermissionDenied) => r matches Err(e) && e@
                == "permission denied reading "@ + path@,
            Err(_) => r matches Ok(None),
        },
        read_as(r, path@, contents),
{
    match contents {
        Ok(s) => {
            let all = chars(s.as_str());
            Ok(Some(text(trim(all.as_slice()))))
        },
        Err(ReadFailure::PermissionDenied) => Err(cat2("permission denied reading ", path)),
        Err(_) => Ok(None),
    }
}

/// A file that may not be read is the only failure that counts; what can be read is
/// given without white space at its ends, also where that leaves nothing, and a file
/// that is missing says nothing.
pub proof fn only_a_denial_is_an_error(
    r: Result<Option<String>, String>,
    path: Seq<char>,
    contents: Result<String, ReadFailure>,
)
    requires
        read_as(r, path, contents),
    ensures
        r is Err <==> contents == Err::<String, ReadFailure>(ReadFailure::PermissionDenied),
        r matches Err(e) ==> e@ == "permission denied reading "@ + path,
        r matches Ok(v) ==> (v is Some <==> contents is Ok),
        r matches Ok(Some(t)) ==> (t@.len() > 0 ==> !crate::text::is_space(t@[0])
            && !crate::text::is_space(t@.last())),
{
    if let Ok(s) = contents {
        let ends = crate::text::trimming_drops_the_white_ends(s@);
        assert(trimmed(s@).len() == ends.1 - ends.0);
    }
}

} // verus!
