//! KeyTip: the shortcut-hint logic for the niri compositor, verified with Verus.

pub mod store;
pub mod text;
pub mod importer_niri;
pub mod term;
pub mod theme;
pub mod niri;
pub mod overlay;
pub mod cli;
pub mod fonts;
pub mod includes;
