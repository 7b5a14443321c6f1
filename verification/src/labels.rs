//! The texts that the screen shows about an entry and about the fields being
//! edited.

use vstd::prelude::*;
use crate::launcher::{LauncherItem, LauncherSource};
use crate::text::{decimal, push_decimal, push_char};

verus! {

/// How often a program was launched, in words.
pub open spec fn usage_text(launch_count: nat) -> Seq<char> {
    if launch_count == 0 {
        "never used"@
    } else if launch_count == 1 {
        "used once"@
    } else {
        "used "@ + decimal(launch_count) + "x"@
    }
}

/// How often a program was launched: `never used`, `used once`, or
/// `used <count>x`.
pub fn usage_label(launch_count: u32) -> (r: String)
    ensures
        r@ == usage_text(launch_count as nat),
{
    if launch_count == 0 {
        String::from_str("never used")
    } else if launch_count == 1 {
        String::from_str("used once")
    } else {
        let mut out = String::from_str("used ");
        push_decimal(&mut out, launch_count as u64);
        out.append("x");
        out
    }
}

/// The priority of an entry, in words.
pub open spec fn priority_words(is_favorite: bool, launch_count: nat) -> Seq<char> {
    (if is_favorite {
        "favorite"@
    } else {
        "not favorited"@
    }) + ", "@ + usage_text(launch_count)
}

/// The priority of an entry: whether it is a favorite, then its usage.
pub fn priority_text(is_favorite: bool, launch_count: u32) -> (r: String)
    ensures
        r@ == priority_words(is_favorite, launch_count as nat),
{
    let mut out = if is_favorite {
        String::from_str("favorite")
    } else {
        String::from_str("not favorited")
    };
    out.append(", ");
    let usage = usage_label(launch_count);
    out.append(usage.as_str());
    out
}

/// The text of a field of the add form: the field being edited shows a
/// cursor after its value, an empty field shows `-`.
pub open spec fn editing_words(value: Seq<char>, is_active: bool) -> Seq<char> {
    if is_active {
        value.push('_')
    } else if value.len() == 0 {
        "-"@
    } else {
        value
    }
}

/// The text of a field of the add form, as `editing_words` says.
pub fn editing_text(value: &str, is_active: bool) -> (r: String)
    ensures
        r@ == editing_words(value@, is_active),
{
    if is_active {
        let mut out = String::from_str(value);
        push_char(&mut out, '_');
        out
    } else if value.is_empty() {
        String::from_str("-")
    } else {
        String::from_str(value)
    }
}

/// The source and usage tags that follow an entry's name in the list.
pub open spec fn list_tag_words(source: LauncherSource, launch_count: nat) -> Seq<char> {
    "  ["@ + (match source {
        LauncherSource::Detected => "auto"@,
        LauncherSource::Custom => "user"@,
    }) + " | "@ + usage_text(launch_count) + "]"@
}

/// The tags that follow an entry's name in the list, such as `  [auto | used 4x]`.
pub fn list_tags(item: &LauncherItem) -> (r: String)
    ensures
        r@ == list_tag_words(item.source, item.launch_count as nat),
{
    let mut out = String::from_str("  [");
    out.append(item.source.short_label());
    out.append(" | ");
    let usage = usage_label(item.launch_count);
    out.append(usage.as_str());
    out.append("]");
    out
}

/// The mark shown before the name of a favorite in the list.
pub fn favorite_marker(is_favorite: bool) -> (r: &'static str)
    ensures
        r@ == (if is_favorite {
            "[fav] "@
        } else {
            ""@
        }),
{
    if is_favorite {
        "[fav] "
    } else {
        ""
    }
}

} // verus!
