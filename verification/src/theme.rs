use vstd::prelude::*;

verus! {

/// An opaque color by its red, green and blue parts.
#[derive(Debug, Clone, Copy, PartialEq, Eq, Structural)]
pub struct Rgb {
    pub r: u8,
    pub g: u8,
    pub b: u8,
}

/// The color with the parts `r`, `g`, `b`.
pub open spec fn rgb(r: u8, g: u8, b: u8) -> Rgb {
    Rgb { r, g, b }
}

/// The colors of a theme.
#[derive(Debug, Clone, Copy)]
pub struct ThemeColors {
    pub bg: Rgb,
    pub surface: Rgb,
    pub card_bg: Rgb,
    pub text_primary: Rgb,
    pub text_secondary: Rgb,
    pub border: Rgb,
    pub correct: Rgb,
    pub correct_light: Rgb,
    pub wrong: Rgb,
    pub wrong_light: Rgb,
    pub star: Rgb,
    pub star_light: Rgb,
    pub primary: Rgb,
}

/// The colors of the light theme.
pub open spec fn light_theme() -> ThemeColors {
    ThemeColors {
        bg: rgb(0xF0, 0xF2, 0xF5),
        surface: rgb(0xF8, 0xF9, 0xFA),
        card_bg: rgb(0xFF, 0xFF, 0xFF),
        text_primary: rgb(0x1A, 0x1A, 0x2E),
        text_secondary: rgb(0x88, 0x88, 0x88),
        border: rgb(0xE0, 0xE0, 0xE0),
        correct: rgb(0x16, 0xA3, 0x4A),
        correct_light: rgb(0xDC, 0xFC, 0xE7),
        wrong: rgb(0xDC, 0x26, 0x26),
        wrong_light: rgb(0xFE, 0xE2, 0xE2),
        star: rgb(0xFF, 0xB8, 0x00),
        star_light: rgb(0xFF, 0xF8, 0xE1),
        primary: rgb(0x1A, 0x1A, 0x2E),
    }
}

/// The colors of the dark theme.
pub open spec fn dark_theme() -> ThemeColors {
    ThemeColors {
        bg: rgb(0x12, 0x12, 0x18),
        surface: rgb(0x1E, 0x1E, 0x2E),
        card_bg: rgb(0x2A, 0x2A, 0x3E),
        text_primary: rgb(0xE8, 0xE8, 0xF0),
        text_secondary: rgb(0x9E, 0x9E, 0xAC),
        border: rgb(0x3A, 0x3A, 0x4E),
        correct: rgb(0x4C, 0xE8, 0x7C),
        correct_light: rgb(0x1A, 0x3A, 0x2A),
        wrong: rgb(0xFF, 0x55, 0x55),
        wrong_light: rgb(0x3A, 0x1A, 0x1A),
        star: rgb(0xFF, 0xB8, 0x00),
        star_light: rgb(0x3A, 0x2E, 0x0A),
        primary: rgb(0xBB, 0x86, 0xFC),
    }
}

impl ThemeColors {
    /// The colors of the light theme.
    pub fn light() -> (r: Self)
        ensures
            r == light_theme(),
    {
        ThemeColors {
            bg: Rgb { r: 0xF0, g: 0xF2, b: 0xF5 },
            surface: Rgb { r: 0xF8, g: 0xF9, b: 0xFA },
            card_bg: Rgb { r: 0xFF, g: 0xFF, b: 0xFF },
            text_primary: Rgb { r: 0x1A, g: 0x1A, b: 0x2E },
            text_secondary: Rgb { r: 0x88, g: 0x88, b: 0x88 },
            border: Rgb { r: 0xE0, g: 0xE0, b: 0xE0 },
            correct: Rgb { r: 0x16, g: 0xA3, b: 0x4A },
            correct_light: Rgb { r: 0xDC, g: 0xFC, b: 0xE7 },
            wrong: Rgb { r: 0xDC, g: 0x26, b: 0x26 },
            wrong_light: Rgb { r: 0xFE, g: 0xE2, b: 0xE2 },
            star: Rgb { r: 0xFF, g: 0xB8, b: 0x00 },
            star_light: Rgb { r: 0xFF, g: 0xF8, b: 0xE1 },
            primary: Rgb { r: 0x1A, g: 0x1A, b: 0x2E },
        }
    }

    /// The colors of the dark theme.
    pub fn dark() -> (r: Self)
        ensures
            r == dark_theme(),
    {
        ThemeColors {
            bg: Rgb { r: 0x12, g: 0x12, b: 0x18 },
            surface: Rgb { r: 0x1E, g: 0x1E, b: 0x2E },
            card_bg: Rgb { r: 0x2A, g: 0x2A, b: 0x3E },
            text_primary: Rgb { r: 0xE8, g: 0xE8, b: 0xF0 },
            text_secondary: Rgb { r: 0x9E, g: 0x9E, b: 0xAC },
            border: Rgb { r: 0x3A, g: 0x3A, b: 0x4E },
            correct: Rgb { r: 0x4C, g: 0xE8, b: 0x7C },
            correct_light: Rgb { r: 0x1A, g: 0x3A, b: 0x2A },
            wrong: Rgb { r: 0xFF, g: 0x55, b: 0x55 },
            wrong_light: Rgb { r: 0x3A, g: 0x1A, b: 0x1A },
            star: Rgb { r: 0xFF, g: 0xB8, b: 0x00 },
            star_light: Rgb { r: 0x3A, g: 0x2E, b: 0x0A },
            primary: Rgb { r: 0xBB, g: 0x86, b: 0xFC },
        }
    }
}

/// The named colors of the app.
pub struct VocabColors;

impl VocabColors {
    /// The dark navy of titles and accents.
    pub fn dark_bg() -> (r: Rgb)
        ensures
            r == rgb(0x1A, 0x1A, 0x2E),
    {
        Rgb { r: 0x1A, g: 0x1A, b: 0x2E }
    }

    /// The light background.
    pub fn light_bg() -> (r: Rgb)
        ensures
            r == rgb(0xF0, 0xF2, 0xF5),
    {
        Rgb { r: 0xF0, g: 0xF2, b: 0xF5 }
    }

    /// White.
    pub fn white() -> (r: Rgb)
        ensures
            r == rgb(0xFF, 0xFF, 0xFF),
    {
        Rgb { r: 0xFF, g: 0xFF, b: 0xFF }
    }

    /// The color of a right answer.
    pub fn correct() -> (r: Rgb)
        ensures
            r == rgb(0x16, 0xA3, 0x4A),
    {
        Rgb { r: 0x16, g: 0xA3, b: 0x4A }
    }

    /// The pale color behind a right answer.
    pub fn correct_light() -> (r: Rgb)
        ensures
            r == rgb(0xDC, 0xFC, 0xE7),
    {
        Rgb { r: 0xDC, g: 0xFC, b: 0xE7 }
    }

    /// The color of a wrong answer.
    pub fn wrong() -> (r: Rgb)
        ensures
            r == rgb(0xDC, 0x26, 0x26),
    {
        Rgb { r: 0xDC, g: 0x26, b: 0x26 }
    }

    /// The pale color behind a wrong answer.
    pub fn wrong_light() -> (r: Rgb)
        ensures
            r == rgb(0xFE, 0xE2, 0xE2),
    {
        Rgb { r: 0xFE, g: 0xE2, b: 0xE2 }
    }

    /// The color of main text.
    pub fn text_primary() -> (r: Rgb)
        ensures
            r == rgb(0x1A, 0x1A, 0x2E),
    {
        Rgb { r: 0x1A, g: 0x1A, b: 0x2E }
    }

    /// The color of secondary text.
    pub fn text_secondary() -> (r: Rgb)
        ensures
            r == rgb(0x88, 0x88, 0x88),
    {
        Rgb { r: 0x88, g: 0x88, b: 0x88 }
    }

    /// The color of borders.
    pub fn border() -> (r: Rgb)
        ensures
            r == rgb(0xE0, 0xE0, 0xE0),
    {
        Rgb { r: 0xE0, g: 0xE0, b: 0xE0 }
    }

    /// The color of stars.
    pub fn star() -> (r: Rgb)
        ensures
            r == rgb(0xFF, 0xB8, 0x00),
    {
        Rgb { r: 0xFF, g: 0xB8, b: 0x00 }
    }

    /// The pale color behind starred items.
    pub fn star_light() -> (r: Rgb)
        ensures
            r == rgb(0xFF, 0xF8, 0xE1),
    {
        Rgb { r: 0xFF, g: 0xF8, b: 0xE1 }
    }

    /// The light surface color.
    pub fn surface_light() -> (r: Rgb)
        ensures
            r == rgb(0xF8, 0xF9, 0xFA),
    {
        Rgb { r: 0xF8, g: 0xF9, b: 0xFA }
    }

    /// The color of cards.
    pub fn card_bg() -> (r: Rgb)
        ensures
            r == rgb(0xFF, 0xFF, 0xFF),
    {
        Rgb { r: 0xFF, g: 0xFF, b: 0xFF }
    }

    /// The main accent color.
    pub fn primary() -> (r: Rgb)
        ensures
            r == rgb(0x1A, 0x1A, 0x2E),
    {
        Rgb { r: 0x1A, g: 0x1A, b: 0x2E }
    }

    /// The color behind accented items.
    pub fn primary_container() -> (r: Rgb)
        ensures
            r == rgb(0xF0, 0xF2, 0xF5),
    {
        Rgb { r: 0xF0, g: 0xF2, b: 0xF5 }
    }

    /// The background of the dark theme.
    pub fn dark_bg_dark() -> (r: Rgb)
        ensures
            r == rgb(0x12, 0x12, 0x18),
    {
        Rgb { r: 0x12, g: 0x12, b: 0x18 }
    }

    /// The surface color of the dark theme.
    pub fn dark_surface() -> (r: Rgb)
        ensures
            r == rgb(0x1E, 0x1E, 0x2E),
    {
        Rgb { r: 0x1E, g: 0x1E, b: 0x2E }
    }

    /// The card color of the dark theme.
    pub fn dark_card() -> (r: Rgb)
        ensures
            r == rgb(0x2A, 0x2A, 0x3E),
    {
        Rgb { r: 0x2A, g: 0x2A, b: 0x3E }
    }

    /// The main text color of the dark theme.
    pub fn dark_text_primary() -> (r: Rgb)
        ensures
            r == rgb(0xE8, 0xE8, 0xF0),
    {
        Rgb { r: 0xE8, g: 0xE8, b: 0xF0 }
    }

    /// The secondary text color of the dark theme.
    pub fn dark_text_secondary() -> (r: Rgb)
        ensures
            r == rgb(0x9E, 0x9E, 0xAC),
    {
        Rgb { r: 0x9E, g: 0x9E, b: 0xAC }
    }

    /// The border color of the dark theme.
    pub fn dark_border() -> (r: Rgb)
        ensures
            r == rgb(0x3A, 0x3A, 0x4E),
    {
        Rgb { r: 0x3A, g: 0x3A, b: 0x4E }
    }

    /// The colors of the dark theme when `dark`, else of the light one.
    pub fn for_theme(dark: bool) -> (r: ThemeColors)
        ensures
            r == (if dark { dark_theme() } else { light_theme() }),
    {
        if dark {
            ThemeColors::dark()
        } else {
            ThemeColors::light()
        }
    }
}

} // verus!
