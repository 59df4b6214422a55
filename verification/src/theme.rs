use vstd::prelude::*;

use crate::state::StatusKind;

verus! {

/// An opaque sRGB color, given by its red, green and blue components.
#[derive(Clone, Copy, PartialEq, Eq, Debug, Structural)]
pub struct Rgb {
    pub r: u8,
    pub g: u8,
    pub b: u8,
}

/// The color with the given components.
pub open spec fn rgb(r: u8, g: u8, b: u8) -> Rgb {
    Rgb { r, g, b }
}

/// The colors of the toolbar, the driver table and the empty state, one set
/// for the dark theme and one for the light theme.
#[derive(Clone, Copy, PartialEq, Eq, Debug, Structural)]
pub struct Palette {
    pub mnemonic_underline: Rgb,
    pub toolbar_bg: Rgb,
    pub muted_text: Rgb,
    pub subtle_text: Rgb,
    pub dim_text: Rgb,
    pub table_grid: Rgb,
    pub table_header_text: Rgb,
    pub table_header_bg: Rgb,
    pub table_header_border: Rgb,
    pub table_separator: Rgb,
    pub table_selected_row: Rgb,
    pub table_non_ms_even: Rgb,
    pub table_non_ms_odd: Rgb,
    pub table_even_row: Rgb,
    pub table_odd_row: Rgb,
    pub table_non_ms_name_text: Rgb,
    pub table_primary_text: Rgb,
    pub table_address_text: Rgb,
    pub table_default_text: Rgb,
    pub table_row_border: Rgb,
    pub empty_state_text: Rgb,
}

/// The palette of the dark theme.
pub open spec fn dark_palette() -> Palette {
    Palette {
        mnemonic_underline: rgb(180, 180, 200),
        toolbar_bg: rgb(18, 18, 28),
        muted_text: rgb(150, 150, 170),
        subtle_text: rgb(100, 100, 120),
        dim_text: rgb(80, 80, 100),
        table_grid: rgb(40, 40, 55),
        table_header_text: rgb(200, 200, 220),
        table_header_bg: rgb(35, 35, 55),
        table_header_border: rgb(55, 55, 75),
        table_separator: rgb(60, 60, 90),
        table_selected_row: rgb(50, 80, 130),
        table_non_ms_even: rgb(32, 28, 22),
        table_non_ms_odd: rgb(36, 32, 26),
        table_even_row: rgb(22, 22, 32),
        table_odd_row: rgb(26, 26, 38),
        table_non_ms_name_text: rgb(220, 200, 150),
        table_primary_text: rgb(240, 240, 240),
        table_address_text: rgb(160, 180, 210),
        table_default_text: rgb(190, 190, 200),
        table_row_border: rgb(35, 35, 50),
        empty_state_text: rgb(120, 120, 120),
    }
}

/// The palette of the light theme.
pub open spec fn light_palette() -> Palette {
    Palette {
        mnemonic_underline: rgb(90, 110, 150),
        toolbar_bg: rgb(239, 243, 249),
        muted_text: rgb(96, 106, 122),
        subtle_text: rgb(120, 128, 142),
        dim_text: rgb(145, 150, 160),
        table_grid: rgb(210, 216, 226),
        table_header_text: rgb(78, 88, 104),
        table_header_bg: rgb(226, 232, 240),
        table_header_border: rgb(190, 198, 210),
        table_separator: rgb(186, 194, 206),
        table_selected_row: rgb(203, 220, 246),
        table_non_ms_even: rgb(249, 241, 230),
        table_non_ms_odd: rgb(245, 236, 224),
        table_even_row: rgb(252, 253, 255),
        table_odd_row: rgb(245, 248, 252),
        table_non_ms_name_text: rgb(130, 92, 36),
        table_primary_text: rgb(32, 39, 49),
        table_address_text: rgb(36, 88, 142),
        table_default_text: rgb(75, 84, 98),
        table_row_border: rgb(224, 229, 237),
        empty_state_text: rgb(130, 136, 145),
    }
}

/// The palette of the chosen theme.
pub fn palette(dark_mode: bool) -> (p: Palette)
    ensures
        p == (if dark_mode {
            dark_palette()
        } else {
            light_palette()
        }),
{
    if dark_mode {
        Palette {
            mnemonic_underline: Rgb { r: 180, g: 180, b: 200 },
            toolbar_bg: Rgb { r: 18, g: 18, b: 28 },
            muted_text: Rgb { r: 150, g: 150, b: 170 },
            subtle_text: Rgb { r: 100, g: 100, b: 120 },
            dim_text: Rgb { r: 80, g: 80, b: 100 },
            table_grid: Rgb { r: 40, g: 40, b: 55 },
            table_header_text: Rgb { r: 200, g: 200, b: 220 },
            table_header_bg: Rgb { r: 35, g: 35, b: 55 },
            table_header_border: Rgb { r: 55, g: 55, b: 75 },
            table_separator: Rgb { r: 60, g: 60, b: 90 },
            table_selected_row: Rgb { r: 50, g: 80, b: 130 },
            table_non_ms_even: Rgb { r: 32, g: 28, b: 22 },
            table_non_ms_odd: Rgb { r: 36, g: 32, b: 26 },
            table_even_row: Rgb { r: 22, g: 22, b: 32 },
            table_odd_row: Rgb { r: 26, g: 26, b: 38 },
            table_non_ms_name_text: Rgb { r: 220, g: 200, b: 150 },
            table_primary_text: Rgb { r: 240, g: 240, b: 240 },
            table_address_text: Rgb { r: 160, g: 180, b: 210 },
            table_default_text: Rgb { r: 190, g: 190, b: 200 },
            table_row_border: Rgb { r: 35, g: 35, b: 50 },
            empty_state_text: Rgb { r: 120, g: 120, b: 120 },
        }
    } else {
        Palette {
            mnemonic_underline: Rgb { r: 90, g: 110, b: 150 },
            toolbar_bg: Rgb { r: 239, g: 243, b: 249 },
            muted_text: Rgb { r: 96, g: 106, b: 122 },
            subtle_text: Rgb { r: 120, g: 128, b: 142 },
            dim_text: Rgb { r: 145, g: 150, b: 160 },
            table_grid: Rgb { r: 210, g: 216, b: 226 },
            table_header_text: Rgb { r: 78, g: 88, b: 104 },
            table_header_bg: Rgb { r: 226, g: 232, b: 240 },
            table_header_border: Rgb { r: 190, g: 198, b: 210 },
            table_separator: Rgb { r: 186, g: 194, b: 206 },
            table_selected_row: Rgb { r: 203, g: 220, b: 246 },
            table_non_ms_even: Rgb { r: 249, g: 241, b: 230 },
            table_non_ms_odd: Rgb { r: 245, g: 236, b: 224 },
            table_even_row: Rgb { r: 252, g: 253, b: 255 },
            table_odd_row: Rgb { r: 245, g: 248, b: 252 },
            table_non_ms_name_text: Rgb { r: 130, g: 92, b: 36 },
            table_primary_text: Rgb { r: 32, g: 39, b: 49 },
            table_address_text: Rgb { r: 36, g: 88, b: 142 },
            table_default_text: Rgb { r: 75, g: 84, b: 98 },
            table_row_border: Rgb { r: 224, g: 229, b: 237 },
            empty_state_text: Rgb { r: 130, g: 136, b: 145 },
        }
    }
}

/// The accent color (headings, links) of each theme.
pub open spec fn accent_color(dark_mode: bool) -> Rgb {
    if dark_mode {
        rgb(100, 180, 255)
    } else {
        rgb(20, 95, 170)
    }
}

/// The color of success (running services, signed drivers).
pub open spec fn success_color(dark_mode: bool) -> Rgb {
    if dark_mode {
        rgb(100, 200, 100)
    } else {
        rgb(25, 140, 70)
    }
}

/// The color of warnings (stopped services, unsigned drivers).
pub open spec fn warning_color(dark_mode: bool) -> Rgb {
    if dark_mode {
        rgb(255, 180, 100)
    } else {
        rgb(190, 110, 20)
    }
}

/// The color of errors.
pub open spec fn error_color(dark_mode: bool) -> Rgb {
    if dark_mode {
        rgb(255, 100, 100)
    } else {
        rgb(190, 45, 55)
    }
}

/// The status colors of both themes.
pub struct Colors;

impl Colors {
    pub fn accent(dark_mode: bool) -> (c: Rgb)
        ensures
            c == accent_color(dark_mode),
    {
        if dark_mode {
            Rgb { r: 100, g: 180, b: 255 }
        } else {
            Rgb { r: 20, g: 95, b: 170 }
        }
    }

    pub fn success(dark_mode: bool) -> (c: Rgb)
        ensures
            c == success_color(dark_mode),
    {
        if dark_mode {
            Rgb { r: 100, g: 200, b: 100 }
        } else {
            Rgb { r: 25, g: 140, b: 70 }
        }
    }

    pub fn warning(dark_mode: bool) -> (c: Rgb)
        ensures
            c == warning_color(dark_mode),
    {
        if dark_mode {
            Rgb { r: 255, g: 180, b: 100 }
        } else {
            Rgb { r: 190, g: 110, b: 20 }
        }
    }

    pub fn error(dark_mode: bool) -> (c: Rgb)
        ensures
            c == error_color(dark_mode),
    {
        if dark_mode {
            Rgb { r: 255, g: 100, b: 100 }
        } else {
            Rgb { r: 190, g: 45, b: 55 }
        }
    }

    /// A running service is shown in the success color.
    pub fn running(dark_mode: bool) -> (c: Rgb)
        ensures
            c == success_color(dark_mode),
    {
        Self::success(dark_mode)
    }

    /// A stopped service is shown in the warning color.
    pub fn stopped(dark_mode: bool) -> (c: Rgb)
        ensures
            c == warning_color(dark_mode),
    {
        Self::warning(dark_mode)
    }

    /// A signed driver is shown in the success color.
    pub fn signed(dark_mode: bool) -> (c: Rgb)
        ensures
            c == success_color(dark_mode),
    {
        Self::success(dark_mode)
    }

    /// An unsigned driver is shown in the warning color.
    pub fn unsigned(dark_mode: bool) -> (c: Rgb)
        ensures
            c == warning_color(dark_mode),
    {
        Self::warning(dark_mode)
    }
}

/// The color of a status-bar message: accent for information, success and
/// error colors otherwise.
pub open spec fn status_color_of(kind: StatusKind, dark_mode: bool) -> Rgb {
    match kind {
        StatusKind::Info => accent_color(dark_mode),
        StatusKind::Success => success_color(dark_mode),
        StatusKind::Error => error_color(dark_mode),
    }
}

/// The color of a status-bar message of kind `kind`.
pub fn status_color(kind: StatusKind, dark_mode: bool) -> (c: Rgb)
    ensures
        c == status_color_of(kind, dark_mode),
{
    match kind {
        StatusKind::Info => Colors::accent(dark_mode),
        StatusKind::Success => Colors::success(dark_mode),
        StatusKind::Error => Colors::error(dark_mode),
    }
}

/// The color of a Driver Manager log line: a muted blue-grey for
/// information, success and error colors otherwise.
pub open spec fn log_color_of(kind: StatusKind, dark_mode: bool) -> Rgb {
    match kind {
        StatusKind::Info => rgb(150, 150, 180),
        StatusKind::Success => success_color(dark_mode),
        StatusKind::Error => error_color(dark_mode),
    }
}

/// The color of a Driver Manager log line of kind `kind`.
pub fn log_color(kind: StatusKind, dark_mode: bool) -> (c: Rgb)
    ensures
        c == log_color_of(kind, dark_mode),
{
    match kind {
        StatusKind::Info => Rgb { r: 150, g: 150, b: 180 },
        StatusKind::Success => Colors::success(dark_mode),
        StatusKind::Error => Colors::error(dark_mode),
    }
}

/// Adds a fallback font to the end of a font family's list, unless the list
/// names it already: the default fonts stay first.
pub fn add_fallback_font(entries: &mut Vec<String>, font_name: &str)
    ensures
        (exists|k: int| 0 <= k < old(entries)@.len() && #[trigger] old(entries)@[k]@ == font_name@)
            ==> final(entries)@ == old(entries)@,
        !(exists|k: int| 0 <= k < old(entries)@.len() && #[trigger] old(entries)@[k]@ == font_name@)
            ==> final(entries)@.len() == old(entries)@.len() + 1 && final(entries)@.take(
            old(entries)@.len() as int,
        ) == old(entries)@ && final(entries)@.last()@ == font_name@,
{
    let mut i: usize = 0;
    while i < entries.len()
        invariant
            i <= entries@.len(),
            entries@ == old(entries)@,
            forall|k: int| 0 <= k < i ==> #[trigger] entries@[k]@ != font_name@,
        decreases entries@.len() - i,
    {
        if crate::text::same_text(entries[i].as_str(), font_name) {
            return;
        }
        i = i + 1;
    }
    let ghost before = entries@;
    entries.push(crate::text::owned(font_name));
    proof {
        assert(entries@.take(before.len() as int) =~= before);
    }
}

} // verus!
