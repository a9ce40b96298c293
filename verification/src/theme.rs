//! The shape of a theme.
//!
//! How a style, a group of colours, a file-type rule or an icon rule is
//! represented belongs to the rendering layer, so the theme is generic in
//! them: `S` is a style, `G` a colour group, `F` a file-type rule and `I` an
//! icon rule. This module fixes which of them a theme holds, and where.

use vstd::prelude::*;

verus! {

/// The styles of the tab bar.
#[derive(Debug)]
pub struct Tab<S> {
    /// The tab that is shown.
    pub active: S,
    /// Every other tab.
    pub inactive: S,
    /// The widest that a tab's label may be, in columns.
    pub max_width: usize,
}

/// The colours of the status bar.
#[derive(Debug)]
pub struct Status<G> {
    pub primary: G,
    pub secondary: G,
    pub tertiary: G,
    pub body: G,
    pub emphasis: G,
    pub info: G,
    pub success: G,
    pub warning: G,
    pub danger: G,
    /// What stands between two sections of the bar.
    pub separator: StatusSeparator,
}

/// The two strings that open and close a section of the status bar.
#[derive(Debug)]
pub struct StatusSeparator {
    pub opening: String,
    pub closing: String,
}

/// The styles of a progress gauge.
#[derive(Debug)]
pub struct Progress<S> {
    pub gauge: S,
    pub label: S,
}

/// The style of the entry under the cursor.
#[derive(Debug)]
pub struct Selection<S> {
    pub hovered: S,
}

/// The styles of the marker beside entries that are being, or have been,
/// selected.
#[derive(Debug)]
pub struct Marker<S> {
    pub selecting: S,
    pub selected: S,
}

/// The preview pane.
#[derive(Debug)]
pub struct Preview<S> {
    pub hovered: S,
    /// Where the theme for syntax highlighting lies.
    pub syntect_theme: String,
}

/// A whole theme.
#[derive(Debug)]
pub struct Theme<S, G, F, I> {
    pub tab: Tab<S>,
    pub status: Status<G>,
    pub progress: Progress<S>,
    pub selection: Selection<S>,
    pub marker: Marker<S>,
    pub preview: Preview<S>,
    /// The file-type rules, in the order in which they are tried.
    pub filetypes: Vec<F>,
    /// The icon rules, in the order in which they are tried.
    pub icons: Vec<I>,
}

impl<S, G, F, I> Theme<S, G, F, I> {
    /// The theme with the path of its syntax-highlighting theme replaced by
    /// `path`. A theme as configured may name that file relative to the
    /// user's directories; the theme in use names it absolutely. Nothing
    /// else changes.
    pub fn with_syntect_theme(self, path: String) -> (theme: Self)
        ensures
            theme.preview.syntect_theme == path,
            theme.preview.hovered == self.preview.hovered,
            theme.tab == self.tab,
            theme.status == self.status,
            theme.progress == self.progress,
            theme.selection == self.selection,
            theme.marker == self.marker,
            theme.filetypes == self.filetypes,
            theme.icons == self.icons,
    {
        let mut theme = self;
        theme.preview.syntect_theme = path;
        theme
    }
}

} // verus!
