use kaomoji_widget::placement::{should_save_position, SETTLE_MS};
use kaomoji_widget::monitors::{monitor_name, select_monitor};
use kaomoji_widget::settings::{
    default_background_color, default_font_color, default_font_family, default_notch_mode,
    default_text_shadow, default_text_shadow_color, default_theme,
};
use kaomoji_widget::tray::{tray_action, TrayAction, RESET_X, RESET_Y};

#[test]
fn default_settings() {
    assert_eq!(default_theme(), "system");
    assert_eq!(default_font_color(), "#d97757");
    assert_eq!(
        default_font_family(),
        "-apple-system, BlinkMacSystemFont, \"Segoe UI\", Roboto, Helvetica, Arial, sans-serif"
    );
    assert!(default_text_shadow());
    assert_eq!(default_text_shadow_color(), "#000000");
    assert_eq!(default_background_color(), "#000000");
    assert!(!default_notch_mode());
}

#[test]
fn tray_actions() {
    assert_eq!(tray_action("show"), TrayAction::Show);
    assert_eq!(tray_action("hide"), TrayAction::Hide);
    assert_eq!(tray_action("settings"), TrayAction::OpenSettings);
    assert_eq!(tray_action("reset"), TrayAction::ResetPosition);
    assert_eq!(tray_action("quit"), TrayAction::Quit);
    assert_eq!(tray_action("Quit"), TrayAction::Ignore);
    assert_eq!(tray_action(""), TrayAction::Ignore);
    assert_eq!((RESET_X, RESET_Y), (100, 100));
}

#[test]
fn monitor_names() {
    assert_eq!(monitor_name(Some("Built-in Retina Display"), 0), "Built-in Retina Display");
    assert_eq!(monitor_name(None, 0), "Monitor 1");
    assert_eq!(monitor_name(None, 11), "Monitor 12");
}

#[test]
fn monitor_selection() {
    let names = vec!["A".to_string(), "B".to_string(), "B".to_string()];
    assert_eq!(select_monitor(&names, Some("B")), Some(1));
    assert_eq!(select_monitor(&names, Some("C")), None);
    assert_eq!(select_monitor(&names, None), Some(0));
    assert_eq!(select_monitor(&vec![], None), None);
}

#[test]
fn position_saved_only_once_settled() {
    assert!(should_save_position(Some(false)));
    assert!(!should_save_position(Some(true)));
    assert!(!should_save_position(None));
    assert_eq!(SETTLE_MS, 500);
}
