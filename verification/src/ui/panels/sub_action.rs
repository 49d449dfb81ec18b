//! The panel that opens beside the action panel for the selected tab.

use crate::ui::icon;
use vstd::prelude::*;

verus! {

/// A tab of the action panel.
#[derive(Debug, Clone, Copy, PartialEq, Eq, Structural)]
pub enum SubActionTab {
    Plants,
}

impl SubActionTab {
    /// The glyph shown on the tab.
    pub fn icon(&self) -> (r: &'static str)
        ensures
            r@ == match *self {
                SubActionTab::Plants => seq!['\u{EBAE}'],
            },
    {
        match self {
            SubActionTab::Plants => icon::plant(),
        }
    }
}

} // verus!
