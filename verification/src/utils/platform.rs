//! Platform detection for the paste simulation. The program supplies the
//! operating system's name (`std::env::consts::OS`) and the session type
//! (`XDG_SESSION_TYPE`); this module decides what they mean.

use vstd::prelude::*;

use crate::utils::text::{chars_equal, chars_of};

verus! {

/// Whether two strings hold the same text.
fn same_text(a: &str, b: &str) -> (eq: bool)
    ensures
        eq == (a@ == b@),
{
    let x = chars_of(a);
    let y = chars_of(b);
    chars_equal(x.as_slice(), y.as_slice())
}

/// Whether the operating system named `os` is Linux.
pub fn is_linux(os: &str) -> (b: bool)
    ensures
        b == (os@ == "linux"@),
{
    same_text(os, "linux")
}

/// A Linux session running under Wayland.
pub open spec fn is_wayland_spec(os: Seq<char>, xdg_session_type: Option<Seq<char>>) -> bool {
    os == "linux"@ && xdg_session_type == Some("wayland"@)
}

/// Whether the session is a Linux Wayland session.
pub fn is_wayland(os: &str, xdg_session_type: Option<&str>) -> (b: bool)
    ensures
        b == is_wayland_spec(
            os@,
            match xdg_session_type {
                Some(s) => Some(s@),
                None => None,
            },
        ),
{
    if !is_linux(os) {
        return false;
    }
    match xdg_session_type {
        Some(s) => same_text(s, "wayland"),
        None => false,
    }
}

/// The warning for a Wayland session.
pub open spec fn wayland_warning() -> Seq<char> {
    "Linux Wayland detected: keyboard simulation (Ctrl+V) may require extra configuration (e.g. ydotool)."@
}

/// Reports human-readable warnings about missing system dependencies needed to
/// simulate pasting on the current platform. Never fails: it only informs.
pub fn check_paste_dependencies(os: &str, xdg_session_type: Option<&str>) -> (warnings: Vec<String>)
    ensures
        is_wayland_spec(
            os@,
            match xdg_session_type {
                Some(s) => Some(s@),
                None => None,
            },
        ) ==> warnings@.len() == 1 && warnings@[0]@ == wayland_warning(),
        !is_wayland_spec(
            os@,
            match xdg_session_type {
                Some(s) => Some(s@),
                None => None,
            },
        ) ==> warnings@.len() == 0,
{
    let mut warnings: Vec<String> = Vec::new();
    if is_wayland(os, xdg_session_type) {
        warnings.push(
            "Linux Wayland detected: keyboard simulation (Ctrl+V) may require extra configuration (e.g. ydotool).".to_owned(),
        );
    }
    warnings
}

} // verus!
