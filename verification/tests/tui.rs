use rivet::collections::ApiCollectionItem;
use rivet::tui::{
    api_method_from_name, config_panel_title, method_badge_color, method_badge_label, panel_frame, App, BadgeColor, Key,
    KeyPress, PanelBorder, PanelFrame, Panels,
};
use rivet::types::ApiMethods;

fn req(name: &str) -> ApiCollectionItem {
    ApiCollectionItem::Request { name: name.to_string(), method: None, path: name.to_string() }
}

fn press(code: Key) -> KeyPress {
    KeyPress { code, is_press: true }
}

#[test]
fn new_app_selects_first_row() {
    let app = App::new(vec![req("a"), req("b")], None);
    assert!(app.run_app);
    assert_eq!(app.sidebar_rows.len(), 2);
    assert_eq!(app.selected, Some(0));
    assert_eq!(app.hovered_panel, Panels::Sidebar);
    assert!(!app.is_panel_focused);
    let empty = App::new(vec![], None);
    assert_eq!(empty.selected, None);
}

#[test]
fn q_quits_and_releases_are_ignored() {
    let mut app = App::new(vec![req("a")], None);
    app.handle_key_event(KeyPress { code: Key::Char('q'), is_press: false });
    assert!(app.run_app);
    app.handle_key_event(press(Key::Char('q')));
    assert!(!app.run_app);
}

#[test]
fn moves_between_panels_when_unfocused() {
    let mut app = App::new(vec![req("a")], None);
    app.handle_key_event(press(Key::Char('l')));
    assert_eq!(app.hovered_panel, Panels::Config);
    app.handle_key_event(press(Key::Char('j')));
    assert_eq!(app.hovered_panel, Panels::Response);
    app.handle_key_event(press(Key::Char('j')));
    assert_eq!(app.hovered_panel, Panels::Response);
    app.handle_key_event(press(Key::Char('k')));
    assert_eq!(app.hovered_panel, Panels::Config);
    app.handle_key_event(press(Key::Char('h')));
    assert_eq!(app.hovered_panel, Panels::Sidebar);
    app.handle_key_event(press(Key::Char('h')));
    assert_eq!(app.hovered_panel, Panels::Sidebar);
}

#[test]
fn focused_sidebar_moves_selection_within_rows() {
    let mut app = App::new(vec![req("a"), req("b"), req("c")], None);
    app.handle_key_event(press(Key::Enter));
    assert!(app.is_panel_focused);
    app.handle_key_event(press(Key::Char('j')));
    assert_eq!(app.selected, Some(1));
    app.handle_key_event(press(Key::Char('j')));
    app.handle_key_event(press(Key::Char('j')));
    assert_eq!(app.selected, Some(2));
    assert_eq!(app.hovered_panel, Panels::Sidebar);
    app.handle_key_event(press(Key::Char('k')));
    app.handle_key_event(press(Key::Char('k')));
    app.handle_key_event(press(Key::Char('k')));
    assert_eq!(app.selected, Some(0));
    app.handle_key_event(press(Key::Esc));
    assert!(!app.is_panel_focused);
    app.handle_key_event(press(Key::Char('j')));
    assert_eq!(app.hovered_panel, Panels::Response);
    assert_eq!(app.selected, Some(0));
}

#[test]
fn refresh_clamps_selection() {
    let mut app = App::new(vec![req("a"), req("b"), req("c")], None);
    app.selected = Some(2);
    app.collections = vec![req("a")];
    app.refresh_collection_items();
    assert_eq!(app.sidebar_rows.len(), 1);
    assert_eq!(app.selected, Some(0));
    app.collections = vec![];
    app.refresh_collection_items();
    assert_eq!(app.selected, None);
}

#[test]
fn method_badges() {
    assert_eq!(method_badge_label(Some(ApiMethods::GET)), " GET ");
    assert_eq!(method_badge_label(None), " Unknown ");
    assert_eq!(method_badge_color(Some(ApiMethods::GET)), BadgeColor::Green);
    assert_eq!(method_badge_color(Some(ApiMethods::POST)), BadgeColor::Yellow);
    assert_eq!(method_badge_color(Some(ApiMethods::PUT)), BadgeColor::Blue);
    assert_eq!(method_badge_color(Some(ApiMethods::PATCH)), BadgeColor::Magenta);
    assert_eq!(method_badge_color(Some(ApiMethods::DELETE)), BadgeColor::Red);
    assert_eq!(method_badge_color(Some(ApiMethods::HEAD)), BadgeColor::Cyan);
    assert_eq!(method_badge_color(Some(ApiMethods::OPTIONS)), BadgeColor::White);
    assert_eq!(method_badge_color(None), BadgeColor::DarkGray);
}

#[test]
fn method_names() {
    assert_eq!(api_method_from_name("HEAD"), Some(ApiMethods::HEAD));
    assert_eq!(api_method_from_name("OPTIONS"), Some(ApiMethods::OPTIONS));
    assert_eq!(api_method_from_name("head"), None);
    assert_eq!(api_method_from_name(""), None);
}

#[test]
fn down_then_up_returns_to_the_row() {
    let mut app = App::new(vec![req("a"), req("b"), req("c")], None);
    app.handle_key_event(press(Key::Enter));
    app.handle_key_event(press(Key::Char('j')));
    assert_eq!(app.selected, Some(1));
    app.handle_key_event(press(Key::Char('j')));
    app.handle_key_event(press(Key::Char('k')));
    assert_eq!(app.selected, Some(1));
}

#[test]
fn other_keys_change_nothing() {
    let mut app = App::new(vec![req("a"), req("b")], None);
    app.handle_key_event(press(Key::Other));
    app.handle_key_event(press(Key::Char('x')));
    assert!(app.run_app);
    assert_eq!(app.hovered_panel, Panels::Sidebar);
    assert!(!app.is_panel_focused);
    assert_eq!(app.selected, Some(0));
}

#[test]
fn panel_frames_follow_hover_and_focus() {
    assert_eq!(panel_frame(false, false), PanelFrame { highlighted: false, border: PanelBorder::Rounded });
    assert_eq!(panel_frame(true, false), PanelFrame { highlighted: true, border: PanelBorder::Rounded });
    assert_eq!(panel_frame(false, true), PanelFrame { highlighted: false, border: PanelBorder::Double });
    assert_eq!(panel_frame(true, true), PanelFrame { highlighted: true, border: PanelBorder::Double });
}

#[test]
fn config_panel_title_names_the_request() {
    assert_eq!(config_panel_title(Some("users/list")), " users/list ");
    assert_eq!(config_panel_title(None), " Request ");
    assert_eq!(config_panel_title(Some("")), "  ");
}
