//! The colour themes of the terminal UI and the colour rules that do not
//! depend on the theme.

use vstd::prelude::*;

use crate::text::str_equal;

verus! {

/// A 24-bit colour.
#[derive(Clone, Copy, Debug, PartialEq, Eq, Structural)]
pub struct Rgb {
    pub r: u8,
    pub g: u8,
    pub b: u8,
}

/// The colour with the given red, green and blue components.
pub open spec fn rgb(r: u8, g: u8, b: u8) -> Rgb {
    Rgb { r, g, b }
}

/// A colour theme for the whole UI. Only the accent family changes between
/// presets; the background, foreground and semantic colours stay constant so
/// the app always reads cleanly.
#[derive(Clone, Copy, Debug, PartialEq, Eq, Structural)]
pub struct Theme {
    pub bg: Rgb,
    pub fg: Rgb,
    pub dim: Rgb,
    pub border: Rgb,
    pub accent: Rgb,
    pub accent_dim: Rgb,
    pub highlight_bg: Rgb,
    pub success: Rgb,
    pub warning: Rgb,
    pub danger: Rgb,
}

/// The purple theme, which every other preset starts from.
pub open spec fn base_theme() -> Theme {
    Theme {
        bg: rgb(13, 13, 20),
        fg: rgb(214, 214, 224),
        dim: rgb(108, 108, 132),
        border: rgb(58, 58, 82),
        accent: rgb(180, 142, 255),
        accent_dim: rgb(124, 92, 191),
        highlight_bg: rgb(38, 32, 64),
        success: rgb(126, 231, 135),
        warning: rgb(227, 179, 65),
        danger: rgb(247, 118, 142),
    }
}

/// The base theme with another accent family.
pub open spec fn accented(accent: Rgb, accent_dim: Rgb, highlight_bg: Rgb) -> Theme {
    Theme { accent, accent_dim, highlight_bg, ..base_theme() }
}

/// The theme of a preset name; unknown names get the purple theme.
pub open spec fn theme_named(name: Seq<char>) -> Theme {
    if name == "cyan"@ {
        accented(rgb(86, 182, 194), rgb(58, 130, 140), rgb(20, 46, 52))
    } else if name == "green"@ {
        accented(rgb(126, 231, 135), rgb(82, 160, 92), rgb(22, 46, 28))
    } else if name == "amber"@ {
        accented(rgb(240, 180, 80), rgb(170, 122, 48), rgb(48, 38, 16))
    } else if name == "mono"@ {
        accented(rgb(200, 200, 214), rgb(130, 130, 150), rgb(40, 40, 50))
    } else if name == "plain"@ {
        accented(rgb(190, 190, 190), rgb(128, 128, 128), rgb(42, 42, 42))
    } else {
        base_theme()
    }
}

fn make_rgb(r: u8, g: u8, b: u8) -> (c: Rgb)
    ensures
        c == rgb(r, g, b),
{
    Rgb { r, g, b }
}

/// The preset names, in the order the UI cycles through them.
pub open spec fn theme_names() -> Seq<Seq<char>> {
    seq!["purple"@, "cyan"@, "green"@, "amber"@, "mono"@, "plain"@]
}

/// The position of a preset name, or 0 for an unknown name.
pub open spec fn theme_index(name: Seq<char>) -> int {
    if name == "purple"@ {
        0
    } else if name == "cyan"@ {
        1
    } else if name == "green"@ {
        2
    } else if name == "amber"@ {
        3
    } else if name == "mono"@ {
        4
    } else if name == "plain"@ {
        5
    } else {
        0
    }
}

/// The preset after `name`, wrapping around; after an unknown name, the
/// one after the first.
pub open spec fn next_theme_name(name: Seq<char>) -> Seq<char> {
    theme_names()[(theme_index(name) + 1) % 6]
}

impl Theme {
    /// The theme of a preset name; unknown names get the purple theme.
    pub fn from_name(name: &str) -> (t: Theme)
        ensures
            t == theme_named(name@),
    {
        let base = Theme {
            bg: make_rgb(13, 13, 20),
            fg: make_rgb(214, 214, 224),
            dim: make_rgb(108, 108, 132),
            border: make_rgb(58, 58, 82),
            accent: make_rgb(180, 142, 255),
            accent_dim: make_rgb(124, 92, 191),
            highlight_bg: make_rgb(38, 32, 64),
            success: make_rgb(126, 231, 135),
            warning: make_rgb(227, 179, 65),
            danger: make_rgb(247, 118, 142),
        };
        if str_equal(name, "cyan") {
            Theme { accent: make_rgb(86, 182, 194), accent_dim: make_rgb(58, 130, 140), highlight_bg: make_rgb(20, 46, 52), ..base }
        } else if str_equal(name, "green") {
            Theme { accent: make_rgb(126, 231, 135), accent_dim: make_rgb(82, 160, 92), highlight_bg: make_rgb(22, 46, 28), ..base }
        } else if str_equal(name, "amber") {
            Theme { accent: make_rgb(240, 180, 80), accent_dim: make_rgb(170, 122, 48), highlight_bg: make_rgb(48, 38, 16), ..base }
        } else if str_equal(name, "mono") {
            Theme { accent: make_rgb(200, 200, 214), accent_dim: make_rgb(130, 130, 150), highlight_bg: make_rgb(40, 40, 50), ..base }
        } else if str_equal(name, "plain") {
            Theme { accent: make_rgb(190, 190, 190), accent_dim: make_rgb(128, 128, 128), highlight_bg: make_rgb(42, 42, 42), ..base }
        } else {
            base
        }
    }

    /// The preset that follows `current` when cycling themes.
    pub fn next_name(current: &str) -> (r: &'static str)
        ensures
            r@ == next_theme_name(current@),
    {
        if str_equal(current, "purple") {
            "cyan"
        } else if str_equal(current, "cyan") {
            "green"
        } else if str_equal(current, "green") {
            "amber"
        } else if str_equal(current, "amber") {
            "mono"
        } else if str_equal(current, "mono") {
            "plain"
        } else if str_equal(current, "plain") {
            "purple"
        } else {
            "cyan"
        }
    }

    /// Codeforces-style rating colours. These are intentionally not themed:
    /// they carry meaning that competitive programmers already recognise.
    pub fn rating_color(rating: Option<u32>) -> (c: Rgb)
        ensures
            c == rating_colour(rating),
    {
        match rating {
            Some(r) => if r >= 2400 {
                make_rgb(255, 76, 76)
            } else if r >= 2100 {
                make_rgb(255, 140, 60)
            } else if r >= 1900 {
                make_rgb(195, 130, 240)
            } else if r >= 1600 {
                make_rgb(110, 150, 255)
            } else if r >= 1400 {
                make_rgb(80, 200, 215)
            } else if r >= 1200 {
                make_rgb(126, 211, 135)
            } else {
                make_rgb(160, 160, 170)
            },
            None => make_rgb(120, 120, 132),
        }
    }
}

impl Default for Theme {
    fn default() -> (t: Theme)
        ensures
            t == theme_named("purple"@),
    {
        Theme::from_name("purple")
    }
}

/// The Codeforces colour of a rating band; grey for unrated.
pub open spec fn rating_colour(rating: Option<u32>) -> Rgb {
    match rating {
        Some(r) => if r >= 2400 {
            rgb(255, 76, 76)
        } else if r >= 2100 {
            rgb(255, 140, 60)
        } else if r >= 1900 {
            rgb(195, 130, 240)
        } else if r >= 1600 {
            rgb(110, 150, 255)
        } else if r >= 1400 {
            rgb(80, 200, 215)
        } else if r >= 1200 {
            rgb(126, 211, 135)
        } else {
            rgb(160, 160, 170)
        },
        None => rgb(120, 120, 132),
    }
}

/// Every preset keeps the background, foreground, dim, border and semantic
/// colours of the base theme; only the accent family differs.
pub proof fn presets_share_non_accent_colours(name: Seq<char>)
    ensures
        theme_named(name).bg == base_theme().bg,
        theme_named(name).fg == base_theme().fg,
        theme_named(name).dim == base_theme().dim,
        theme_named(name).border == base_theme().border,
        theme_named(name).success == base_theme().success,
        theme_named(name).warning == base_theme().warning,
        theme_named(name).danger == base_theme().danger,
{
}

/// Cycling from any preset visits the next one in the list, and after six
/// steps comes back to where it started.
pub proof fn cycling_visits_every_preset(k: int)
    requires
        0 <= k < 6,
    ensures
        next_theme_name(theme_names()[k]) == theme_names()[(k + 1) % 6],
        next_theme_name(
            next_theme_name(next_theme_name(next_theme_name(next_theme_name(next_theme_name(theme_names()[k]))))),
        ) == theme_names()[k],
{
    distinct_preset_names();
    assert(theme_index(theme_names()[0]) == 0);
    assert(theme_index(theme_names()[1]) == 1);
    assert(theme_index(theme_names()[2]) == 2);
    assert(theme_index(theme_names()[3]) == 3);
    assert(theme_index(theme_names()[4]) == 4);
    assert(theme_index(theme_names()[5]) == 5);
}

/// The accent family of each preset, and the colours all presets share: a
/// near-black background, light foreground, dim grey, border, and green,
/// amber and red for success, warning and danger. Unknown names get the
/// purple accents.
pub proof fn preset_colours(name: Seq<char>)
    ensures
        theme_named("purple"@).accent == (Rgb { r: 180, g: 142, b: 255 }) && theme_named("purple"@).accent_dim == (Rgb { r: 124, g: 92, b: 191 })
            && theme_named("purple"@).highlight_bg == (Rgb { r: 38, g: 32, b: 64 }),
        theme_named("cyan"@).accent == (Rgb { r: 86, g: 182, b: 194 }) && theme_named("cyan"@).accent_dim == (Rgb { r: 58, g: 130, b: 140 })
            && theme_named("cyan"@).highlight_bg == (Rgb { r: 20, g: 46, b: 52 }),
        theme_named("green"@).accent == (Rgb { r: 126, g: 231, b: 135 }) && theme_named("green"@).accent_dim == (Rgb { r: 82, g: 160, b: 92 })
            && theme_named("green"@).highlight_bg == (Rgb { r: 22, g: 46, b: 28 }),
        theme_named("amber"@).accent == (Rgb { r: 240, g: 180, b: 80 }) && theme_named("amber"@).accent_dim == (Rgb { r: 170, g: 122, b: 48 })
            && theme_named("amber"@).highlight_bg == (Rgb { r: 48, g: 38, b: 16 }),
        theme_named("mono"@).accent == (Rgb { r: 200, g: 200, b: 214 }) && theme_named("mono"@).accent_dim == (Rgb { r: 130, g: 130, b: 150 })
            && theme_named("mono"@).highlight_bg == (Rgb { r: 40, g: 40, b: 50 }),
        theme_named("plain"@).accent == (Rgb { r: 190, g: 190, b: 190 }) && theme_named("plain"@).accent_dim == (Rgb { r: 128, g: 128, b: 128 })
            && theme_named("plain"@).highlight_bg == (Rgb { r: 42, g: 42, b: 42 }),
        theme_named(name).bg == (Rgb { r: 13, g: 13, b: 20 }),
        theme_named(name).fg == (Rgb { r: 214, g: 214, b: 224 }),
        theme_named(name).dim == (Rgb { r: 108, g: 108, b: 132 }),
        theme_named(name).border == (Rgb { r: 58, g: 58, b: 82 }),
        theme_named(name).success == (Rgb { r: 126, g: 231, b: 135 }),
        theme_named(name).warning == (Rgb { r: 227, g: 179, b: 65 }),
        theme_named(name).danger == (Rgb { r: 247, g: 118, b: 142 }),
        !theme_names().contains(name) ==> theme_named(name).accent == (Rgb { r: 180, g: 142, b: 255 }),
{
    distinct_preset_names();
}

/// The preset names differ from one another.
proof fn distinct_preset_names()
    ensures
        "purple"@ != "cyan"@,
        "purple"@ != "green"@,
        "purple"@ != "amber"@,
        "purple"@ != "mono"@,
        "purple"@ != "plain"@,
        "cyan"@ != "green"@,
        "cyan"@ != "amber"@,
        "cyan"@ != "mono"@,
        "cyan"@ != "plain"@,
        "green"@ != "amber"@,
        "green"@ != "mono"@,
        "green"@ != "plain"@,
        "amber"@ != "mono"@,
        "amber"@ != "plain"@,
        "mono"@ != "plain"@,
        forall|i: int, j: int| 0 <= i < j < 6 ==> theme_names()[i] != theme_names()[j],
{
    reveal_strlit("purple");
    reveal_strlit("cyan");
    reveal_strlit("green");
    reveal_strlit("amber");
    reveal_strlit("mono");
    reveal_strlit("plain");
    assert("purple"@.len() == 6 && "cyan"@.len() == 4 && "green"@.len() == 5);
    assert("amber"@.len() == 5 && "mono"@.len() == 4 && "plain"@.len() == 5);
    assert("cyan"@[0] != "mono"@[0] && "green"@[0] != "amber"@[0]);
    assert("green"@[0] != "plain"@[0] && "amber"@[0] != "plain"@[0]);
}

/// Different presets have different accents, so each name shows its own theme.
pub proof fn presets_have_distinct_accents(i: int, j: int)
    requires
        0 <= i < j < 6,
    ensures
        theme_named(theme_names()[i]).accent != theme_named(theme_names()[j]).accent,
{
    distinct_preset_names();
    preset_colours(theme_names()[i]);
    preset_colours(theme_names()[j]);
}

/// The Codeforces rating bands: red from 2400, orange from 2100, violet
/// from 1900, blue from 1600, cyan from 1400, green from 1200, grey below,
/// and a darker grey when there is no rating.
pub proof fn rating_bands(r: u32)
    ensures
        r >= 2400 ==> rating_colour(Some(r)) == (Rgb { r: 255, g: 76, b: 76 }),
        2100 <= r < 2400 ==> rating_colour(Some(r)) == (Rgb { r: 255, g: 140, b: 60 }),
        1900 <= r < 2100 ==> rating_colour(Some(r)) == (Rgb { r: 195, g: 130, b: 240 }),
        1600 <= r < 1900 ==> rating_colour(Some(r)) == (Rgb { r: 110, g: 150, b: 255 }),
        1400 <= r < 1600 ==> rating_colour(Some(r)) == (Rgb { r: 80, g: 200, b: 215 }),
        1200 <= r < 1400 ==> rating_colour(Some(r)) == (Rgb { r: 126, g: 211, b: 135 }),
        r < 1200 ==> rating_colour(Some(r)) == (Rgb { r: 160, g: 160, b: 170 }),
        rating_colour(None) == (Rgb { r: 120, g: 120, b: 132 }),
{
}

} // verus!
