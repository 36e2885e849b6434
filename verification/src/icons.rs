//! The built-in icon set, kept for backwards compatibility with the old
//! `--icons` flag: a fixed table of window classes and Font Awesome glyphs.

use vstd::prelude::*;
use vstd::string::StringExecFns;
use crate::strutil::str_eq;

verus! {

/// The icon table selected by `name`: the Font Awesome set for
/// `"awesome"`, empty for anything else.
pub fn get_icons(name: &str) -> (r: Vec<(String, char)>)
    ensures
        name@ == "awesome"@ ==> {
            &&& r@.len() == 7
            &&& r@[0].0@ == "Firefox"@ && r@[0].1 == '\u{f269}'
            &&& r@[1].0@ == "TelegramDesktop"@ && r@[1].1 == '\u{f2c6}'
            &&& r@[2].0@ == "Alacritty"@ && r@[2].1 == '\u{f120}'
            &&& r@[3].0@ == "Thunderbird"@ && r@[3].1 == '\u{f0e0}'
            &&& r@[4].0@ == "KeeWeb"@ && r@[4].1 == '\u{f084}'
            &&& r@[5].0@ == "Org.gnome.Nautilus"@ && r@[5].1 == '\u{f07b}'
            &&& r@[6].0@ == "Evince"@ && r@[6].1 == '\u{f1c1}'
        },
        name@ != "awesome"@ ==> r@.len() == 0,
{
    let mut r: Vec<(String, char)> = Vec::new();
    if str_eq(name, "awesome") {
        r.push((String::from_str("Firefox"), '\u{f269}'));
        r.push((String::from_str("TelegramDesktop"), '\u{f2c6}'));
        r.push((String::from_str("Alacritty"), '\u{f120}'));
        r.push((String::from_str("Thunderbird"), '\u{f0e0}'));
        r.push((String::from_str("KeeWeb"), '\u{f084}'));
        r.push((String::from_str("Org.gnome.Nautilus"), '\u{f07b}'));
        r.push((String::from_str("Evince"), '\u{f1c1}'));
    }
    r
}

} // verus!
