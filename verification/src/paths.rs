//! File names and paths, as far as the engine makes them itself.

use vstd::prelude::*;

verus! {

/// Whether a character may not stand in a file name: a separator or another
/// character that file systems reserve, or a control character.
pub open spec fn is_reserved(c: char) -> bool {
    ||| c == '/'
    ||| c == '?'
    ||| c == '<'
    ||| c == '>'
    ||| c == '\\'
    ||| c == ':'
    ||| c == '*'
    ||| c == '|'
    ||| c == '"'
    ||| c as u32 <= 0x1f
    ||| 0x80 <= c as u32 <= 0x9f
}

/// Makes a file name of a text with `sanitize_filename::sanitize`. What that
/// function takes out depends on the platform it was built for. Trusted:
/// whatever the platform, the result holds no reserved character and is at
/// most 255 characters long.
#[verifier::external_body]
pub(crate) fn sanitize_file_name(name: &str) -> (r: String)
    ensures
        forall|i: int| 0 <= i < r@.len() ==> !is_reserved(#[trigger] r@[i]),
        r@.len() <= 255,
{
    sanitize_filename::sanitize(name)
}

/// Joins a path and a further part with `std::path::Path::join`. How the two
/// are joined depends on the platform, so nothing is stated of the result.
#[verifier::external_body]
pub(crate) fn join_path(base: &str, part: &str) -> (r: String)
{
    std::path::Path::new(base).join(part).to_string_lossy().into_owned()
}

} // verus!
