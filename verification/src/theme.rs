//! Colour themes of the overlay.
//!
//! Five schemes cycle in order; an index of any size is brought back into
//! range by wrapping around.  Turning a theme into toolkit visuals is done by
//! the GUI layer.

use vstd::prelude::*;

verus! {

/// All colours of one theme.
#[derive(Clone, Copy, Debug)]
pub struct Theme {
    /// Display name (shown in the overlay's hint line).
    pub name: &'static str,
    /// Light theme (a few derived colours differ).
    pub light: bool,
    /// Panel and window fill, with alpha.
    pub panel: (u8, u8, u8, u8),
    /// Main text colour.
    pub text: (u8, u8, u8),
    /// Accent: selection, hover borders, cursor, links, group titles.
    pub accent: (u8, u8, u8),
    /// Input field background.
    pub extreme: (u8, u8, u8),
    /// Code block background.
    pub code_bg: (u8, u8, u8),
    /// Widget layers: raised, hovered, active, open.
    pub raised: (u8, u8, u8),
    pub hover: (u8, u8, u8),
    pub active: (u8, u8, u8),
    pub open: (u8, u8, u8),
    /// Border colour.
    pub border: (u8, u8, u8),
    /// Weak and strong text.
    pub text_weak: (u8, u8, u8),
    pub text_strong: (u8, u8, u8),
    /// Star colour of a favourite.
    pub star: (u8, u8, u8),
    /// Faint hover fill of frameless buttons, with alpha.
    pub faint: (u8, u8, u8, u8),
}

/// How many themes there are.
pub open spec fn theme_count() -> int {
    5
}

/// The theme at a position in the cycle (default first).
pub open spec fn theme_at(i: int) -> Theme {
    if i == 0 {
        Theme {
            name: "科技深蓝",
            light: false,
            panel: (17, 22, 31, 248),
            text: (222, 231, 243),
            accent: (82, 160, 255),
            extreme: (9, 12, 18),
            code_bg: (22, 29, 41),
            raised: (23, 31, 43),
            hover: (29, 40, 56),
            active: (35, 48, 68),
            open: (24, 32, 46),
            border: (47, 61, 82),
            text_weak: (124, 138, 165),
            text_strong: (240, 246, 255),
            star: (245, 200, 76),
            faint: (82, 160, 255, 28),
        }
    } else if i == 1 {
        Theme {
            name: "石墨浅色",
            light: true,
            panel: (244, 245, 247, 250),
            text: (42, 51, 64),
            accent: (24, 95, 165),
            extreme: (255, 255, 255),
            code_bg: (236, 238, 242),
            raised: (255, 255, 255),
            hover: (228, 232, 238),
            active: (214, 222, 232),
            open: (240, 243, 247),
            border: (211, 214, 221),
            text_weak: (122, 131, 146),
            text_strong: (28, 37, 48),
            star: (224, 162, 26),
            faint: (24, 95, 165, 22),
        }
    } else if i == 2 {
        Theme {
            name: "墨绿暗色",
            light: false,
            panel: (15, 26, 20, 248),
            text: (221, 239, 223),
            accent: (93, 202, 165),
            extreme: (8, 18, 12),
            code_bg: (19, 33, 26),
            raised: (19, 33, 26),
            hover: (25, 43, 34),
            active: (31, 54, 42),
            open: (22, 38, 30),
            border: (34, 64, 47),
            text_weak: (110, 138, 120),
            text_strong: (232, 247, 233),
            star: (224, 178, 58),
            faint: (93, 202, 165, 28),
        }
    } else if i == 3 {
        Theme {
            name: "暖橙暗色",
            light: false,
            panel: (27, 21, 18, 248),
            text: (243, 231, 221),
            accent: (240, 153, 123),
            extreme: (16, 11, 8),
            code_bg: (36, 27, 21),
            raised: (36, 27, 21),
            hover: (46, 35, 28),
            active: (58, 44, 35),
            open: (38, 29, 23),
            border: (61, 46, 36),
            text_weak: (126, 110, 98),
            text_strong: (250, 240, 232),
            star: (232, 184, 75),
            faint: (240, 153, 123, 28),
        }
    } else {
        Theme {
            name: "紫罗兰暗色",
            light: false,
            panel: (22, 18, 31, 248),
            text: (234, 228, 245),
            accent: (175, 169, 236),
            extreme: (14, 10, 22),
            code_bg: (32, 26, 46),
            raised: (32, 26, 46),
            hover: (42, 34, 58),
            active: (52, 42, 72),
            open: (34, 28, 48),
            border: (50, 42, 69),
            text_weak: (139, 127, 158),
            text_strong: (240, 235, 250),
            star: (232, 201, 90),
            faint: (175, 169, 236, 28),
        }
    }
}

fn theme_exec(i: usize) -> (t: Theme)
    requires
        i < 5,
    ensures
        t == theme_at(i as int),
{
    if i == 0 {
        Theme {
            name: "科技深蓝",
            light: false,
            panel: (17, 22, 31, 248),
            text: (222, 231, 243),
            accent: (82, 160, 255),
            extreme: (9, 12, 18),
            code_bg: (22, 29, 41),
            raised: (23, 31, 43),
            hover: (29, 40, 56),
            active: (35, 48, 68),
            open: (24, 32, 46),
            border: (47, 61, 82),
            text_weak: (124, 138, 165),
            text_strong: (240, 246, 255),
            star: (245, 200, 76),
            faint: (82, 160, 255, 28),
        }
    } else if i == 1 {
        Theme {
            name: "石墨浅色",
            light: true,
            panel: (244, 245, 247, 250),
            text: (42, 51, 64),
            accent: (24, 95, 165),
            extreme: (255, 255, 255),
            code_bg: (236, 238, 242),
            raised: (255, 255, 255),
            hover: (228, 232, 238),
            active: (214, 222, 232),
            open: (240, 243, 247),
            border: (211, 214, 221),
            text_weak: (122, 131, 146),
            text_strong: (28, 37, 48),
            star: (224, 162, 26),
            faint: (24, 95, 165, 22),
        }
    } else if i == 2 {
        Theme {
            name: "墨绿暗色",
            light: false,
            panel: (15, 26, 20, 248),
            text: (221, 239, 223),
            accent: (93, 202, 165),
            extreme: (8, 18, 12),
            code_bg: (19, 33, 26),
            raised: (19, 33, 26),
            hover: (25, 43, 34),
            active: (31, 54, 42),
            open: (22, 38, 30),
            border: (34, 64, 47),
            text_weak: (110, 138, 120),
            text_strong: (232, 247, 233),
            star: (224, 178, 58),
            faint: (93, 202, 165, 28),
        }
    } else if i == 3 {
        Theme {
            name: "暖橙暗色",
            light: false,
            panel: (27, 21, 18, 248),
            text: (243, 231, 221),
            accent: (240, 153, 123),
            extreme: (16, 11, 8),
            code_bg: (36, 27, 21),
            raised: (36, 27, 21),
            hover: (46, 35, 28),
            active: (58, 44, 35),
            open: (38, 29, 23),
            border: (61, 46, 36),
            text_weak: (126, 110, 98),
            text_strong: (250, 240, 232),
            star: (232, 184, 75),
            faint: (240, 153, 123, 28),
        }
    } else {
        Theme {
            name: "紫罗兰暗色",
            light: false,
            panel: (22, 18, 31, 248),
            text: (234, 228, 245),
            accent: (175, 169, 236),
            extreme: (14, 10, 22),
            code_bg: (32, 26, 46),
            raised: (32, 26, 46),
            hover: (42, 34, 58),
            active: (52, 42, 72),
            open: (34, 28, 48),
            border: (50, 42, 69),
            text_weak: (139, 127, 158),
            text_strong: (240, 235, 250),
            star: (232, 201, 90),
            faint: (175, 169, 236, 28),
        }
    }
}

/// An index wrapped into the theme cycle.
pub open spec fn normalize_spec(idx: int) -> int {
    idx % theme_count()
}

/// Brings a theme index of any sign into range by wrapping around.
pub fn normalize(idx: isize) -> (r: usize)
    ensures
        r == normalize_spec(idx as int),
        r < theme_count(),
{
    let n: isize = 5;
    let mut i = idx % n;
    if i < 0 {
        i += n;
    }
    assert(i == (idx as int) % 5) by {
        if idx >= 0 {
            assert(idx % n == (idx as int) % 5);
        }
    }
    i as usize
}

/// The number of themes.
pub fn count() -> (r: usize)
    ensures
        r == theme_count(),
{
    5
}

/// The theme at an index, wrapping around past the end.
pub fn get(idx: usize) -> (t: Theme)
    ensures
        t == theme_at((idx as int) % theme_count()),
{
    theme_exec(idx % 5)
}

/// Indices that differ by a whole number of cycles name the same theme.
pub proof fn law_normalize_wraps(idx: int, k: int)
    ensures
        normalize_spec(idx + k * theme_count()) == normalize_spec(idx),
        0 <= normalize_spec(idx) < theme_count(),
{
    vstd::arithmetic::div_mod::lemma_mod_multiples_vanish(k, idx, 5);
}

} // verus!
