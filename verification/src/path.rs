//! Parsing of the viewer-stream request path: a subscription arrives on a
//! path of the shape `/websocket/clocks/<code>`, and the code is what the
//! broadcaster needs.

use vstd::prelude::*;

verus! {

/// The path prefix under which clock streams are served.
pub open spec fn spec_ws_prefix() -> Seq<char> {
    "/websocket/clocks/"@
}

/// Whether `p` is a clock-stream path: the prefix followed by a non-empty
/// code.
pub open spec fn is_clock_path(p: Seq<char>) -> bool {
    p.len() > spec_ws_prefix().len() && p.subrange(0, spec_ws_prefix().len() as int)
        == spec_ws_prefix()
}

/// Extracts the code from a clock-stream request path, or returns `None`
/// when the path is not one.
pub fn extract_code_from_path(path: &str) -> (r: Option<String>)
    ensures
        match r {
            Some(code) => is_clock_path(path@) && code@ == path@.subrange(
                spec_ws_prefix().len() as int,
                path@.len() as int,
            ),
            None => !is_clock_path(path@),
        },
{
    proof {
        reveal_strlit("/websocket/clocks/");
    }
    let n = path.unicode_len();
    if n <= 18 {
        return None;
    }
    let head = String::from_str(path.substring_char(0, 18));
    let prefix = String::from_str("/websocket/clocks/");
    if head == prefix {
        Some(String::from_str(path.substring_char(18, n)))
    } else {
        None
    }
}

} // verus!
