//! The information panel on the left edge.

use crate::ui::icon;
use vstd::prelude::*;

verus! {

/// A tab of the information panel.
#[derive(Debug, Clone, Copy, PartialEq, Eq, Hash, Structural)]
pub enum InfoPanelTab {
    Inventory,
}

impl Default for InfoPanelTab {
    fn default() -> (r: Self)
        ensures
            r == InfoPanelTab::Inventory,
    {
        InfoPanelTab::Inventory
    }
}

impl InfoPanelTab {
    /// The glyph shown on the tab.
    pub fn icon(&self) -> (r: &'static str)
        ensures
            r@ == match *self {
                InfoPanelTab::Inventory => seq!['\u{EDE2}'],
            },
    {
        match self {
            InfoPanelTab::Inventory => icon::treasure_chest(),
        }
    }
}

} // verus!
