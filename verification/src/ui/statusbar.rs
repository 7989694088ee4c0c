//! The status bar at the bottom of the main screen: the mode, the region,
//! the profile and the service.
use vstd::prelude::*;
use crate::keys::Mode;
use crate::text::owned;

verus! {

/// The label of the mode in the status bar: `INSERT` while a view has a
/// text being typed, else the mode's own.
pub open spec fn mode_text(editing: bool, mode: Mode) -> Seq<char> {
    if editing {
        " INSERT "@
    } else {
        match mode {
            Mode::Normal => " NORMAL "@,
            Mode::Insert => " INSERT "@,
            Mode::Command => " COMMAND "@,
        }
    }
}

/// The region shown in the status bar: the region, or `no region`.
pub open spec fn region_text(region: Seq<char>) -> Seq<char> {
    if region.len() == 0 {
        "no region"@
    } else {
        region
    }
}

/// The status bar.
pub struct StatusBar;

impl StatusBar {
    /// The label of the mode (see `mode_text`).
    pub fn mode_label(editing: bool, mode: Mode) -> (r: &'static str)
        ensures
            r@ == mode_text(editing, mode),
    {
        if editing {
            " INSERT "
        } else {
            match mode {
                Mode::Normal => " NORMAL ",
                Mode::Insert => " INSERT ",
                Mode::Command => " COMMAND ",
            }
        }
    }

    /// The region shown (see `region_text`).
    pub fn region_display(region: &str) -> (r: String)
        ensures
            r@ == region_text(region@),
    {
        if region.is_empty() {
            owned("no region")
        } else {
            owned(region)
        }
    }
}

} // verus!
