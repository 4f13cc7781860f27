use vstd::prelude::*;

use crate::path::chars_of;

verus! {

/// Message given back for an extension that starts with a '.'.
pub const DOT_EXTENSION_MESSAGE: &'static str =
    "Please exclude the '.' character from that start of your extension.";

/// True when `s` begins with the extension separator.
pub open spec fn starts_with_dot(s: Seq<char>) -> bool {
    s.len() > 0 && s[0] == '.'
}

/// Accepts an extension given without its leading '.'.
pub fn validate_extension(s: &str) -> (r: Result<String, String>)
    ensures
        starts_with_dot(s@) <==> r is Err,
        r matches Ok(v) ==> v@ == s@,
        r matches Err(e) ==> e@ == DOT_EXTENSION_MESSAGE@,
{
    if s.unicode_len() > 0 && s.get_char(0) == '.' {
        return Err(DOT_EXTENSION_MESSAGE.to_owned());
    }
    Ok(s.to_owned())
}

/// Message given back for a replacement that lacks the "->" delimiter.
pub const ARROW_MISSING_MESSAGE: &'static str =
    "The \"->\" delimiter is missing. Use as such: \"old->new\"";

/// True when `s` holds "->" at position `i`.
pub open spec fn arrow_at(s: Seq<char>, i: int) -> bool {
    0 <= i && i + 1 < s.len() && s[i] == '-' && s[i + 1] == '>'
}

/// True when `s` holds the "->" delimiter somewhere.
pub open spec fn contains_arrow(s: Seq<char>) -> bool {
    exists|i: int| arrow_at(s, i)
}

/// Accepts a replacement written with the "->" delimiter, as in "old->new".
pub fn validate_replace(s: &str) -> (r: Result<String, String>)
    ensures
        contains_arrow(s@) <==> r is Ok,
        r matches Ok(v) ==> v@ == s@,
        r matches Err(e) ==> e@ == ARROW_MISSING_MESSAGE@,
{
    let cs = chars_of(s);
    let mut i: usize = 0;
    while i < cs.len() && cs.len() - i > 1
        invariant
            cs@ == s@,
            i <= cs.len(),
            forall|j: int| 0 <= j < i ==> !arrow_at(s@, j),
        decreases cs.len() - i,
    {
        if cs[i] == '-' && cs[i + 1] == '>' {
            assert(arrow_at(s@, i as int));
            return Ok(s.to_owned());
        }
        i = i + 1;
    }
    assert(forall|j: int| arrow_at(s@, j) ==> j < i);
    Err(ARROW_MISSING_MESSAGE.to_owned())
}

/// What was asked for on the command line: the directory, the changes to make to the
/// file names, and the extensions that the changes are limited to.
pub struct Args {
    /// Path to the target directory.
    pub path: String,
    /// Value to add to the end of each file stem.
    pub suffix: Option<String>,
    /// Value to put in front of each file name.
    pub prefix: Option<String>,
    /// Text to replace in each file name, and its replacement.
    pub replace: Option<(String, String)>,
    /// Text to remove from each file name.
    pub delete: Option<String>,
    /// Extensions that the changes are limited to.
    pub extensions: Option<Vec<String>>,
}

} // verus!
