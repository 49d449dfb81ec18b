//! Windows that the interface can open.

use crate::i18n::{join_key, snake_case, to_snake_case, Translatable};
use crate::ui::icon;
use vstd::prelude::*;

verus! {

/// A window of the interface.
#[derive(Debug, Clone, Copy, PartialEq, Eq, Hash, Structural)]
pub enum WindowId {
    Debug,
    Settings,
}

/// The name of a window's variant, as `Debug` formatting writes it.
pub open spec fn window_variant_name(w: WindowId) -> Seq<char> {
    match w {
        WindowId::Debug => "Debug"@,
        WindowId::Settings => "Settings"@,
    }
}

impl WindowId {
    /// The window's title.
    pub fn title(&self) -> (r: &'static str)
        ensures
            r@ == match *self {
                WindowId::Debug => "Debug"@,
                WindowId::Settings => "Settings"@,
            },
    {
        match self {
            WindowId::Debug => "Debug",
            WindowId::Settings => "Settings",
        }
    }

    /// The glyph shown for the window.
    pub fn icon(&self) -> (r: &'static str)
        ensures
            r@ == match *self {
                WindowId::Debug => seq!['\u{E5F4}'],
                WindowId::Settings => seq!['\u{E270}'],
            },
    {
        match self {
            WindowId::Debug => icon::bug(),
            WindowId::Settings => icon::gear(),
        }
    }

    /// Whether the window can be collapsed: none can.
    pub fn collapsible(&self) -> (r: bool)
        ensures
            !r,
    {
        false
    }

    /// The name of the window's variant.
    pub fn variant_name(&self) -> (r: &'static str)
        ensures
            r@ == window_variant_name(*self),
    {
        match self {
            WindowId::Debug => "Debug",
            WindowId::Settings => "Settings",
        }
    }
}

impl Translatable for WindowId {
    /// `window.` followed by the snake-case name of the variant.
    fn key(&self) -> (r: String)
        ensures
            r@ == "window"@ + "."@ + snake_case(window_variant_name(*self)),
    {
        let name = to_snake_case(self.variant_name());
        join_key("window", name.as_str())
    }
}

} // verus!
