use lemon_colonies_client::ui::panels::info::InfoPanelTab;
use lemon_colonies_client::ui::panels::sub_action::SubActionTab;
use lemon_colonies_client::ui::panels::ActionPanelPosition;
use lemon_colonies_client::ui::state::UiState;
use lemon_colonies_client::ui::windows::WindowId;

#[test]
fn opposite_edges() {
    assert_eq!(ActionPanelPosition::Bottom.opposite(), ActionPanelPosition::Top);
    assert_eq!(ActionPanelPosition::Top.opposite(), ActionPanelPosition::Bottom);
    assert_eq!(ActionPanelPosition::default(), ActionPanelPosition::Bottom);
    for p in [ActionPanelPosition::Bottom, ActionPanelPosition::Top] {
        assert_eq!(p.opposite().opposite(), p);
    }
}

#[test]
fn glyphs() {
    assert_eq!(InfoPanelTab::Inventory.icon(), "\u{EDE2}");
    assert_eq!(InfoPanelTab::default(), InfoPanelTab::Inventory);
    assert_eq!(SubActionTab::Plants.icon(), "\u{EBAE}");
    assert_eq!(WindowId::Debug.icon(), "\u{E5F4}");
    assert_eq!(WindowId::Settings.icon(), "\u{E270}");
}

#[test]
fn window_titles() {
    assert_eq!(WindowId::Debug.title(), "Debug");
    assert_eq!(WindowId::Settings.title(), "Settings");
    assert!(!WindowId::Debug.collapsible());
    assert!(!WindowId::Settings.collapsible());
    assert_eq!(WindowId::Settings.variant_name(), "Settings");
}

#[test]
fn toggling_windows() {
    let mut s = UiState::default();
    assert!(!s.is_window_open(WindowId::Debug));
    s.toggle_window(WindowId::Debug);
    assert!(s.is_window_open(WindowId::Debug));
    assert!(!s.is_window_open(WindowId::Settings));
    s.toggle_window(WindowId::Settings);
    assert_eq!(s.iter_windows(), vec![WindowId::Debug, WindowId::Settings]);
    s.toggle_window(WindowId::Debug);
    assert!(!s.is_window_open(WindowId::Debug));
    assert_eq!(s.iter_windows(), vec![WindowId::Settings]);
    s.toggle_window(WindowId::Settings);
    assert!(s.iter_windows().is_empty());
}
