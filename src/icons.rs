//! The icon name to show for an application identity.

use vstd::prelude::*;
use crate::text::{chars_of, contains_chars, contains_seq, lower_of, lowercase};

verus! {

/// `lower` holds `pat`.
pub open spec fn has(lower: Seq<char>, pat: &str) -> bool {
    contains_seq(lower, pat@)
}

/// The icon for an application whose identity is `id` and reads `lower` in
/// lower case: the first rule whose pattern `lower` holds names it; where no
/// rule applies, the identity itself is the icon name.
pub open spec fn icon_for(lower: Seq<char>, id: Seq<char>) -> Seq<char> {
    if has(lower, "firefox") {
        "firefox"@
    } else if has(lower, "chrome") {
        "google-chrome"@
    } else if has(lower, "chromium") {
        "chromium"@
    } else if has(lower, "zen") {
        "zen-browser"@
    } else if has(lower, "steam") {
        "steam"@
    } else if has(lower, "code") || has(lower, "vscode") {
        "com.visualstudio.code"@
    } else if has(lower, "discord") {
        "discord"@
    } else if has(lower, "telegram") {
        "telegram"@
    } else if has(lower, "spotify") {
        "spotify"@
    } else if has(lower, "gimp") {
        "gimp"@
    } else if has(lower, "inkscape") {
        "inkscape"@
    } else if has(lower, "blender") {
        "blender"@
    } else if has(lower, "obs") {
        "com.obsproject.Studio"@
    } else if has(lower, "vlc") {
        "vlc"@
    } else if has(lower, "thunderbird") {
        "thunderbird"@
    } else if has(lower, "libreoffice") {
        if has(lower, "writer") {
            "libreoffice-writer"@
        } else if has(lower, "calc") {
            "libreoffice-calc"@
        } else if has(lower, "impress") {
            "libreoffice-impress"@
        } else {
            "libreoffice-startcenter"@
        }
    } else if has(lower, "files") || has(lower, "nautilus") {
        "system-file-manager"@
    } else if has(lower, "terminal") || has(lower, "konsole") || has(lower, "kitty") || has(
        lower,
        "alacritty",
    ) {
        "utilities-terminal"@
    } else if has(lower, "launcher") {
        "view-grid-symbolic"@
    } else {
        id
    }
}

fn holds(lower: &Vec<char>, pat: &str) -> (r: bool)
    ensures
        r == has(lower@, pat),
{
    contains_chars(lower, &chars_of(pat))
}

/// The icon name for `id`, given `lower`, the lower-case form of `id`.
pub fn icon_name_for(lower: &str, id: &str) -> (r: String)
    ensures
        r@ == icon_for(lower@, id@),
{
    let l = chars_of(lower);
    let name = if holds(&l, "firefox") {
        "firefox"
    } else if holds(&l, "chrome") {
        "google-chrome"
    } else if holds(&l, "chromium") {
        "chromium"
    } else if holds(&l, "zen") {
        "zen-browser"
    } else if holds(&l, "steam") {
        "steam"
    } else if holds(&l, "code") || holds(&l, "vscode") {
        "com.visualstudio.code"
    } else if holds(&l, "discord") {
        "discord"
    } else if holds(&l, "telegram") {
        "telegram"
    } else if holds(&l, "spotify") {
        "spotify"
    } else if holds(&l, "gimp") {
        "gimp"
    } else if holds(&l, "inkscape") {
        "inkscape"
    } else if holds(&l, "blender") {
        "blender"
    } else if holds(&l, "obs") {
        "com.obsproject.Studio"
    } else if holds(&l, "vlc") {
        "vlc"
    } else if holds(&l, "thunderbird") {
        "thunderbird"
    } else if holds(&l, "libreoffice") {
        if holds(&l, "writer") {
            "libreoffice-writer"
        } else if holds(&l, "calc") {
            "libreoffice-calc"
        } else if holds(&l, "impress") {
            "libreoffice-impress"
        } else {
            "libreoffice-startcenter"
        }
    } else if holds(&l, "files") || holds(&l, "nautilus") {
        "system-file-manager"
    } else if holds(&l, "terminal") || holds(&l, "konsole") || holds(&l, "kitty") || holds(
        &l,
        "alacritty",
    ) {
        "utilities-terminal"
    } else if holds(&l, "launcher") {
        "view-grid-symbolic"
    } else {
        id
    };
    String::from_str(name)
}

/// The icon name for the application identity `id`.
pub fn fix_icon_name(id: &str) -> (r: String)
    ensures
        r@ == icon_for(lower_of(id@), id@),
{
    let lower = lowercase(id);
    icon_name_for(lower.as_str(), id)
}

} // verus!
