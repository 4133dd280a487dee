//! The places of the application and the pages behind them.

use crate::text::same_text;
use vstd::prelude::*;

verus! {

/// The page that is shown at the home of a volume.
pub const INDEX_PAGE: &'static str = "index.md";

/// A place in the application.
pub enum Route {
    Wiki { volume: String, path: String },
    Home,
    NotFound,
}

/// The volume of a place: the one it names, `default` for every other
/// place and where there is no place.
pub open spec fn volume_at(route: Option<Route>) -> Seq<char> {
    match route {
        Some(Route::Wiki { volume, path }) => volume@,
        _ => "default"@,
    }
}

/// Returns the volume of a place.
pub fn current_volume(route: Option<&Route>) -> (volume: String)
    ensures
        volume@ == volume_at(
            match route {
                Some(r) => Some(*r),
                None => None,
            },
        ),
{
    match route {
        Some(Route::Wiki { volume, path }) => volume.clone(),
        _ => "default".to_string(),
    }
}

/// The page that a place shows: the one it names, the index page at home,
/// and none where nothing is found.
pub open spec fn page_at(route: Route) -> Option<Seq<char>> {
    match route {
        Route::Wiki { volume, path } => Some(path@),
        Route::Home => Some("index.md"@),
        Route::NotFound => None,
    }
}

/// Returns the page that a place shows.
pub fn switch(route: &Route) -> (page: Option<String>)
    ensures
        match page {
            Some(path) => page_at(*route) == Some(path@),
            None => page_at(*route) is None,
        },
{
    match route {
        Route::Wiki { volume, path } => Some(path.clone()),
        Route::Home => Some(INDEX_PAGE.to_string()),
        Route::NotFound => None,
    }
}

/// The theme that follows a theme: light after dark, and dark after
/// everything else.
pub open spec fn theme_after(theme: Seq<char>) -> Seq<char> {
    if theme == "dark"@ {
        "light"@
    } else {
        "dark"@
    }
}

/// Returns the theme that a toggle switches to.
pub fn toggle_theme(theme: &str) -> (next: &'static str)
    ensures
        next@ == theme_after(theme@),
{
    if same_text(theme, "dark") {
        "light"
    } else {
        "dark"
    }
}

/// Whether the switcher of volumes is shown: only where there are several.
pub fn shows_volume_switcher(volumes: usize) -> (shown: bool)
    ensures
        shown == (volumes > 1),
{
    volumes > 1
}

/// Whether the mark for pending commits is shown: where the branch is ahead
/// of or behind its upstream.
pub fn shows_sync_mark(commits_ahead: usize, commits_behind: usize) -> (shown: bool)
    ensures
        shown == (commits_ahead > 0 || commits_behind > 0),
{
    commits_ahead > 0 || commits_behind > 0
}

} // verus!
