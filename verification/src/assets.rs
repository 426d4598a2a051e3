//! The static assets of the UI.

use crate::text;
use vstd::prelude::*;

verus! {

/// The names and media types of the assets.
pub const FILES: [(&'static str, &'static str); 3] = [
    ("style.css", "text/css"),
    ("app.js", "application/javascript"),
    ("htmx.min.js", "application/javascript"),
];

/// The position of the asset with a name, from position `i` on.
pub open spec fn file_at(path: Seq<char>, i: int) -> Option<int>
    decreases 3 - i,
{
    if i < 0 || i >= 3 {
        None
    } else if FILES@[i].0@ == path {
        Some(i)
    } else {
        file_at(path, i + 1)
    }
}

/// Finds an asset by its name: its position among [`FILES`] and its media type.
pub fn get(path: &str) -> (r: Option<(usize, &'static str)>)
    ensures
        match r {
            Some((i, mime)) => file_at(path@, 0) == Some(i as int) && i < 3 && mime@
                == FILES@[i as int].1@,
            None => file_at(path@, 0) is None,
        },
{
    let mut i: usize = 0;
    while i < 3
        invariant
            i <= 3 == FILES@.len(),
            file_at(path@, 0) == file_at(path@, i as int),
        decreases 3 - i,
    {
        if text::str_eq(FILES[i].0, path) {
            return Some((i, FILES[i].1));
        }
        i += 1;
    }
    None
}

/// The assets are the style sheet and the two scripts, each under its own name with its media type,
/// and nothing else is one.
pub proof fn law_assets_have_their_media_type(path: Seq<char>)
    ensures
        file_at(path, 0) is Some <==> path == "style.css"@ || path == "app.js"@ || path
            == "htmx.min.js"@,
        file_at(path, 0) matches Some(i) ==> 0 <= i < 3 && FILES@[i].0@ == path && FILES@[i].1@ == (
        if path == "style.css"@ {
            "text/css"@
        } else {
            "application/javascript"@
        }),
{
    reveal_with_fuel(file_at, 4);
    reveal_strlit("style.css");
    reveal_strlit("app.js");
    reveal_strlit("htmx.min.js");
    assert("style.css"@.len() == 9);
    assert("app.js"@.len() == 6);
    assert("htmx.min.js"@.len() == 11);
}

} // verus!
