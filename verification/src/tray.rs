//! What the menu-bar icon says about outstanding updates: the number on its
//! badge and its tooltip.

use vstd::prelude::*;
use vstd::string::*;
use crate::text::{decimal, decimal_string, owned};

verus! {

/// The largest count the badge spells out; beyond it the badge reads `99+`.
pub const BADGE_MAX: usize = 99;

pub const BADGE_OVERFLOW: &'static str = "99+";

/// What the badge shows for `count` outstanding updates: nothing when there
/// are none, the number up to 99, and `99+` beyond.
pub open spec fn badge_text(count: nat) -> Option<Seq<char>> {
    if count == 0 {
        None
    } else if count > BADGE_MAX {
        Some(BADGE_OVERFLOW@)
    } else {
        Some(decimal(count))
    }
}

/// The label on the icon's badge for `count` outstanding updates; `None`
/// when the icon carries no badge.
pub fn badge_label(count: usize) -> (r: Option<String>)
    ensures
        match r {
            Some(s) => badge_text(count as nat) == Some(s@),
            None => badge_text(count as nat) is None,
        },
{
    if count == 0 {
        None
    } else if count > BADGE_MAX {
        Some(owned(BADGE_OVERFLOW))
    } else {
        Some(decimal_string(count as u64))
    }
}

pub const TOOLTIP_UP_TO_DATE: &'static str = "PM Updater \u{2014} up to date";

pub const TOOLTIP_ONE_UPDATE: &'static str = "PM Updater \u{2014} 1 update available";

pub const TOOLTIP_PREFIX: &'static str = "PM Updater \u{2014} ";

pub const TOOLTIP_UPDATES_TAIL: &'static str = " updates available";

/// The tooltip for `total` outstanding updates.
pub open spec fn tooltip_text(total: nat) -> Seq<char> {
    if total == 0 {
        TOOLTIP_UP_TO_DATE@
    } else if total == 1 {
        TOOLTIP_ONE_UPDATE@
    } else {
        TOOLTIP_PREFIX@ + decimal(total) + TOOLTIP_UPDATES_TAIL@
    }
}

/// The icon's tooltip for `total` outstanding updates.
pub fn tray_tooltip(total: usize) -> (r: String)
    ensures
        r@ == tooltip_text(total as nat),
{
    if total == 0 {
        owned(TOOLTIP_UP_TO_DATE)
    } else if total == 1 {
        owned(TOOLTIP_ONE_UPDATE)
    } else {
        let mut s = owned(TOOLTIP_PREFIX);
        let n = decimal_string(total as u64);
        s.append(n.as_str());
        s.append(TOOLTIP_UPDATES_TAIL);
        s
    }
}

} // verus!
