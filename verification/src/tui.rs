//! The state of the terminal interface and how key presses change it.
use vstd::prelude::*;

use crate::collections::{items_view, ApiCollectionItem};
use crate::listing::method_name;
use crate::sidebar::{collection_items, int_path, rows_view, visible_rows, SidebarRow};
use crate::types::{ApiMethods, RequestConfig};

verus! {

/// The panels of the interface.
#[derive(Clone, Copy, Debug, PartialEq, Eq, Structural)]
pub enum Panels {
    Sidebar,
    Config,
    Response,
}

/// A key of the keyboard, as far as the interface tells keys apart.
#[derive(Clone, Copy, Debug, PartialEq, Eq, Structural)]
pub enum Key {
    Char(char),
    Enter,
    Esc,
    Other,
}

/// A key event: the key, and whether it was pressed (rather than released or repeated).
#[derive(Clone, Copy, Debug, PartialEq, Eq, Structural)]
pub struct KeyPress {
    pub code: Key,
    pub is_press: bool,
}

/// The colours of method badges.
#[derive(Clone, Copy, Debug, PartialEq, Eq, Structural)]
pub enum BadgeColor {
    Green,
    Yellow,
    Blue,
    Magenta,
    Red,
    Cyan,
    White,
    DarkGray,
}

/// The background colour of a method's badge.
pub open spec fn spec_method_badge_color(method: Option<ApiMethods>) -> BadgeColor {
    match method {
        Some(ApiMethods::GET) => BadgeColor::Green,
        Some(ApiMethods::POST) => BadgeColor::Yellow,
        Some(ApiMethods::PUT) => BadgeColor::Blue,
        Some(ApiMethods::PATCH) => BadgeColor::Magenta,
        Some(ApiMethods::DELETE) => BadgeColor::Red,
        Some(ApiMethods::HEAD) => BadgeColor::Cyan,
        Some(ApiMethods::OPTIONS) => BadgeColor::White,
        None => BadgeColor::DarkGray,
    }
}

/// The background colour of a method's badge: green for GET, yellow for POST,
/// blue for PUT, magenta for PATCH, red for DELETE, cyan for HEAD, white for
/// OPTIONS, dark gray for an unknown method.
pub fn method_badge_color(method: Option<ApiMethods>) -> (c: BadgeColor)
    ensures
        c == spec_method_badge_color(method),
{
    match method {
        Some(ApiMethods::GET) => BadgeColor::Green,
        Some(ApiMethods::POST) => BadgeColor::Yellow,
        Some(ApiMethods::PUT) => BadgeColor::Blue,
        Some(ApiMethods::PATCH) => BadgeColor::Magenta,
        Some(ApiMethods::DELETE) => BadgeColor::Red,
        Some(ApiMethods::HEAD) => BadgeColor::Cyan,
        Some(ApiMethods::OPTIONS) => BadgeColor::White,
        None => BadgeColor::DarkGray,
    }
}

/// The text of a method's badge: the method's name (or `Unknown`) with a space on each side.
pub fn method_badge_label(method: Option<ApiMethods>) -> (r: String)
    ensures
        r@ == " "@ + method_name(method) + " "@,
{
    let mut s = String::from_str(" ");
    let name = crate::listing::method_display_name(method);
    s.append(name.as_str());
    s.append(" ");
    s
}

/// How the border of a panel is drawn.
#[derive(Clone, Copy, Debug, PartialEq, Eq, Structural)]
pub enum PanelBorder {
    Double,
    Rounded,
}

/// The frame of a panel: whether it is highlighted (drawn in blue) and its border.
#[derive(Clone, Copy, Debug, PartialEq, Eq, Structural)]
pub struct PanelFrame {
    pub highlighted: bool,
    pub border: PanelBorder,
}

/// The frame of a panel: highlighted while it is the hovered panel, with a
/// double border while it has the focus, rounded otherwise.
pub fn panel_frame(is_hovered: bool, is_focused: bool) -> (f: PanelFrame)
    ensures
        f.highlighted == is_hovered,
        f.border == (if is_focused {
            PanelBorder::Double
        } else {
            PanelBorder::Rounded
        }),
{
    PanelFrame { highlighted: is_hovered, border: if is_focused { PanelBorder::Double } else { PanelBorder::Rounded } }
}

/// The title of the request panel: the request's path, or `Request` when it
/// has none, with a space on each side.
pub fn config_panel_title(current_path: Option<&str>) -> (r: String)
    ensures
        r@ == " "@ + match current_path {
            Some(p) => p@,
            None => "Request"@,
        } + " "@,
{
    let mut s = String::from_str(" ");
    match current_path {
        Some(p) => s.append(p),
        None => s.append("Request"),
    }
    s.append(" ");
    s
}

/// The method named exactly `name` (`GET`, `POST`, `PUT`, `PATCH`, `DELETE`, `HEAD` or `OPTIONS`).
pub open spec fn spec_api_method_from_name(name: Seq<char>) -> Option<ApiMethods> {
    if name == "GET"@ {
        Some(ApiMethods::GET)
    } else if name == "POST"@ {
        Some(ApiMethods::POST)
    } else if name == "PUT"@ {
        Some(ApiMethods::PUT)
    } else if name == "PATCH"@ {
        Some(ApiMethods::PATCH)
    } else if name == "DELETE"@ {
        Some(ApiMethods::DELETE)
    } else if name == "HEAD"@ {
        Some(ApiMethods::HEAD)
    } else if name == "OPTIONS"@ {
        Some(ApiMethods::OPTIONS)
    } else {
        None
    }
}

/// The method named exactly `name`, if any.
pub fn api_method_from_name(name: &str) -> (m: Option<ApiMethods>)
    ensures
        m == spec_api_method_from_name(name@),
{
    let s = String::from_str(name);
    if s == String::from_str("GET") {
        Some(ApiMethods::GET)
    } else if s == String::from_str("POST") {
        Some(ApiMethods::POST)
    } else if s == String::from_str("PUT") {
        Some(ApiMethods::PUT)
    } else if s == String::from_str("PATCH") {
        Some(ApiMethods::PATCH)
    } else if s == String::from_str("DELETE") {
        Some(ApiMethods::DELETE)
    } else if s == String::from_str("HEAD") {
        Some(ApiMethods::HEAD)
    } else if s == String::from_str("OPTIONS") {
        Some(ApiMethods::OPTIONS)
    } else {
        None
    }
}

/// The hovered panel after `code` when no panel is focused: `h` goes from the
/// config panel to the sidebar, `l` from the sidebar to the config panel, `j`
/// from either down to the response panel, `k` from the response panel up to
/// the config panel.
pub open spec fn next_hovered(hovered: Panels, code: Key) -> Panels {
    match code {
        Key::Char('h') => if hovered == Panels::Config {
            Panels::Sidebar
        } else {
            hovered
        },
        Key::Char('l') => if hovered == Panels::Sidebar {
            Panels::Config
        } else {
            hovered
        },
        Key::Char('j') => if hovered == Panels::Sidebar || hovered == Panels::Config {
            Panels::Response
        } else {
            hovered
        },
        Key::Char('k') => if hovered == Panels::Response {
            Panels::Config
        } else {
            hovered
        },
        _ => hovered,
    }
}

/// The selected sidebar row after `code` in a focused sidebar of `count`
/// rows: `j` moves down and `k` up, both stopping at the ends and selecting
/// the first row when none was selected; nothing changes without rows.
pub open spec fn next_selected(selected: Option<usize>, count: nat, code: Key) -> Option<usize> {
    if count == 0 {
        selected
    } else {
        match code {
            Key::Char('j') => Some(
                match selected {
                    None => 0,
                    Some(i) => if i + 1 < count {
                        (i + 1) as usize
                    } else {
                        (count - 1) as usize
                    },
                },
            ),
            Key::Char('k') => Some(
                match selected {
                    None => 0,
                    Some(i) => if i == 0 {
                        0
                    } else {
                        (i - 1) as usize
                    },
                },
            ),
            _ => selected,
        }
    }
}

/// The selection kept when the sidebar is rebuilt with `count` rows: the old
/// row (the first when none) moved up to the last row if it is past it, none without rows.
pub open spec fn clamp_selection(selected: Option<usize>, count: nat) -> Option<usize> {
    if count == 0 {
        None
    } else {
        match selected {
            None => Some(0),
            Some(i) => if i < count {
                Some(i)
            } else {
                Some((count - 1) as usize)
            },
        }
    }
}

/// The state of the terminal interface.
pub struct App {
    pub run_app: bool,
    pub collections: Vec<ApiCollectionItem>,
    pub hovered_panel: Panels,
    pub is_panel_focused: bool,
    pub sidebar_rows: Vec<SidebarRow>,
    pub selected: Option<usize>,
    pub selected_api_config_file: Option<RequestConfig>,
}

impl App {
    /// The sidebar shows the visible rows of the collections, and the
    /// selection, if any, is one of them.
    pub open spec fn wf(&self) -> bool {
        &&& rows_view(self.sidebar_rows@) == visible_rows(items_view(self.collections@))
        &&& (self.selected matches Some(i) ==> i < self.sidebar_rows.len())
    }

    /// A running interface over `collections`, with the sidebar hovered,
    /// nothing focused, and the first row selected if there is one.
    pub fn new(collections: Vec<ApiCollectionItem>, selected_api_config_file: Option<RequestConfig>) -> (app: App)
        ensures
            app.wf(),
            app.run_app,
            app.collections == collections,
            app.hovered_panel == Panels::Sidebar,
            !app.is_panel_focused,
            app.selected == clamp_selection(None, visible_rows(items_view(collections@)).len()),
            app.selected_api_config_file == selected_api_config_file,
    {
        let mut app = App {
            run_app: true,
            collections,
            hovered_panel: Panels::Sidebar,
            is_panel_focused: false,
            sidebar_rows: Vec::new(),
            selected: None,
            selected_api_config_file,
        };
        app.refresh_collection_items();
        app
    }

    /// Rebuilds the sidebar rows from the collections and keeps the selection
    /// within them.
    pub fn refresh_collection_items(&mut self)
        ensures
            final(self).wf(),
            rows_view(final(self).sidebar_rows@) == visible_rows(items_view(old(self).collections@)),
            final(self).selected == clamp_selection(old(self).selected, final(self).sidebar_rows.len() as nat),
            final(self).run_app == old(self).run_app,
            final(self).collections == old(self).collections,
            final(self).hovered_panel == old(self).hovered_panel,
            final(self).is_panel_focused == old(self).is_panel_focused,
            final(self).selected_api_config_file == old(self).selected_api_config_file,
    {
        let no_ancestors: Vec<bool> = Vec::new();
        let no_path: Vec<usize> = Vec::new();
        assert(int_path(no_path@) =~= Seq::<int>::empty());
        proof {
            crate::collections::lemma_items_view(self.collections@);
        }
        let rows = collection_items(&self.collections, &no_ancestors, &no_path);
        let count = rows.len();
        self.sidebar_rows = rows;
        self.selected = if count == 0 {
            None
        } else {
            match self.selected {
                None => Some(0),
                Some(i) => if i < count {
                    Some(i)
                } else {
                    Some(count - 1)
                },
            }
        };
    }

    /// Applies a key event: released keys change nothing; `q` stops the
    /// interface; Enter focuses the hovered panel; Esc leaves the focused
    /// panel; with no panel focused, `h`, `l`, `j`, `k` move between panels;
    /// in the focused sidebar, `j` and `k` move the selection down and up.
    pub fn handle_key_event(&mut self, key: KeyPress)
        ensures
            final(self).collections == old(self).collections,
            final(self).sidebar_rows == old(self).sidebar_rows,
            final(self).selected_api_config_file == old(self).selected_api_config_file,
            old(self).wf() ==> final(self).wf(),
            if !key.is_press {
                &&& final(self).run_app == old(self).run_app
                &&& final(self).hovered_panel == old(self).hovered_panel
                &&& final(self).is_panel_focused == old(self).is_panel_focused
                &&& final(self).selected == old(self).selected
            } else if key.code == Key::Char('q') {
                &&& !final(self).run_app
                &&& final(self).hovered_panel == old(self).hovered_panel
                &&& final(self).is_panel_focused == old(self).is_panel_focused
                &&& final(self).selected == old(self).selected
            } else if key.code == Key::Enter || key.code == Key::Esc {
                &&& final(self).run_app == old(self).run_app
                &&& final(self).hovered_panel == old(self).hovered_panel
                &&& final(self).is_panel_focused == (key.code == Key::Enter)
                &&& final(self).selected == old(self).selected
            } else {
                &&& final(self).run_app == old(self).run_app
                &&& final(self).is_panel_focused == old(self).is_panel_focused
                &&& final(self).hovered_panel == if old(self).is_panel_focused {
                    old(self).hovered_panel
                } else {
                    next_hovered(old(self).hovered_panel, key.code)
                }
                &&& final(self).selected == if old(self).is_panel_focused
                    && old(self).hovered_panel == Panels::Sidebar {
                    next_selected(old(self).selected, old(self).sidebar_rows.len() as nat, key.code)
                } else {
                    old(self).selected
                }
            },
    {
        if !key.is_press {
            return;
        }
        if key.code == Key::Char('q') {
            self.run_app = false;
            return;
        }
        match key.code {
            Key::Enter => {
                if !self.is_panel_focused {
                    self.is_panel_focused = true;
                }
                return;
            },
            Key::Esc => {
                self.is_panel_focused = false;
                return;
            },
            _ => {},
        }
        if !self.is_panel_focused {
            self.hovered_panel = match key.code {
                Key::Char('h') => match self.hovered_panel {
                    Panels::Config => Panels::Sidebar,
                    section => section,
                },
                Key::Char('l') => match self.hovered_panel {
                    Panels::Sidebar => Panels::Config,
                    section => section,
                },
                Key::Char('j') => match self.hovered_panel {
                    Panels::Sidebar | Panels::Config => Panels::Response,
                    section => section,
                },
                Key::Char('k') => match self.hovered_panel {
                    Panels::Response => Panels::Config,
                    section => section,
                },
                _ => self.hovered_panel,
            };
        }
        if self.is_panel_focused {
            match self.hovered_panel {
                Panels::Sidebar => match key.code {
                    Key::Char('j') => {
                        if self.sidebar_rows.len() > 0 {
                            let last_idx = self.sidebar_rows.len() - 1;
                            let next_idx = match self.selected {
                                None => 0,
                                Some(idx) => if idx < last_idx {
                                    idx + 1
                                } else {
                                    last_idx
                                },
                            };
                            self.selected = Some(next_idx);
                        }
                    },
                    Key::Char('k') => {
                        if self.sidebar_rows.len() > 0 {
                            let previous_idx = match self.selected {
                                None => 0,
                                Some(idx) => if idx == 0 {
                                    0
                                } else {
                                    idx - 1
                                },
                            };
                            self.selected = Some(previous_idx);
                        }
                    },
                    _ => {},
                },
                _ => {},
            }
        }
    }
}

} // verus!
