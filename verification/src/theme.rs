//! The selector's colour palette: terminal defaults, overridden by the user's
//! config or by opencode's active theme.
use vstd::prelude::*;
use crate::color::{Color, hex_color, parse_hex_color};
use crate::config::ThemeConfig;
use crate::opencode_theme::OpencodeTheme;

verus! {

/// Theme that adapts to the terminal's default 16-color palette.
#[derive(Debug, Clone, Copy, PartialEq, Eq)]
pub struct Theme {
    pub background: Color,
    pub foreground: Color,
    pub accent: Color,
    pub accent_dim: Color,
    pub border: Color,
    pub highlight: Color,
    pub highlight_dim: Color,
    pub error: Color,
    pub warning: Color,
    pub success: Color,
    pub muted: Color,
}

/// The terminal-default palette.
pub open spec fn terminal_theme() -> Theme {
    Theme {
        background: Color::Reset,
        foreground: Color::Reset,
        accent: Color::Cyan,
        accent_dim: Color::DarkGray,
        border: Color::DarkGray,
        highlight: Color::Blue,
        highlight_dim: Color::DarkGray,
        error: Color::Red,
        warning: Color::Yellow,
        success: Color::Green,
        muted: Color::DarkGray,
    }
}

/// `cur`, replaced by the colour a configured hex string denotes when there
/// is one and it parses.
pub open spec fn configured(cur: Color, o: Option<String>) -> Color {
    match o {
        Some(s) => match hex_color(s@) {
            Some(c) => c,
            None => cur,
        },
        None => cur,
    }
}

/// `cur`, replaced by an opencode theme's colour where it has one.
pub open spec fn overridden(cur: Color, o: Option<Color>) -> Color {
    match o {
        Some(c) => c,
        None => cur,
    }
}

/// `t` with the config's valid colours applied.
pub open spec fn with_config(t: Theme, c: ThemeConfig) -> Theme {
    Theme {
        background: configured(t.background, c.background),
        foreground: configured(t.foreground, c.foreground),
        accent: configured(t.accent, c.accent),
        accent_dim: configured(t.accent_dim, c.accent_dim),
        border: configured(t.border, c.border),
        highlight: configured(t.highlight, c.highlight),
        highlight_dim: configured(t.highlight_dim, c.highlight_dim),
        error: configured(t.error, c.error),
        warning: configured(t.warning, c.warning),
        success: configured(t.success, c.success),
        muted: configured(t.muted, c.muted),
    }
}

/// `t` with an opencode theme's colours applied.
pub open spec fn with_opencode(t: Theme, o: OpencodeTheme) -> Theme {
    Theme {
        background: overridden(t.background, o.background),
        foreground: overridden(t.foreground, o.foreground),
        accent: overridden(t.accent, o.accent),
        accent_dim: overridden(t.accent_dim, o.accent_dim),
        border: overridden(t.border, o.border),
        highlight: overridden(t.highlight, o.highlight),
        highlight_dim: overridden(t.highlight_dim, o.highlight_dim),
        error: overridden(t.error, o.error),
        warning: overridden(t.warning, o.warning),
        success: overridden(t.success, o.success),
        muted: overridden(t.muted, o.muted),
    }
}

fn configured_color(cur: Color, o: &Option<String>) -> (r: Color)
    ensures
        r == configured(cur, *o),
{
    match o {
        Some(s) => match parse_hex_color(s.as_str()) {
            Some(c) => c,
            None => cur,
        },
        None => cur,
    }
}

fn overridden_color(cur: Color, o: Option<Color>) -> (r: Color)
    ensures
        r == overridden(cur, o),
{
    match o {
        Some(c) => c,
        None => cur,
    }
}

impl Theme {
    /// Use the terminal's default foreground/background colors and standard
    /// ANSI colors for accents.
    pub fn terminal() -> (r: Theme)
        ensures
            r == terminal_theme(),
    {
        Theme {
            background: Color::Reset,
            foreground: Color::Reset,
            accent: Color::Cyan,
            accent_dim: Color::DarkGray,
            border: Color::DarkGray,
            highlight: Color::Blue,
            highlight_dim: Color::DarkGray,
            error: Color::Red,
            warning: Color::Yellow,
            success: Color::Green,
            muted: Color::DarkGray,
        }
    }

    /// Build a theme from the user's config file, falling back to the terminal
    /// defaults for any color that is missing or invalid.
    pub fn from_config(config: Option<&ThemeConfig>) -> (r: Theme)
        ensures
            r == match config {
                Some(c) => with_config(terminal_theme(), *c),
                None => terminal_theme(),
            },
    {
        let mut theme = Theme::terminal();
        match config {
            Some(c) => theme.apply_config(c),
            None => {},
        }
        theme
    }

    /// Build a theme from opencode's active theme, falling back to the terminal
    /// defaults for any color that is missing.
    pub fn from_opencode(opencode: &OpencodeTheme) -> (r: Theme)
        ensures
            r == with_opencode(terminal_theme(), *opencode),
    {
        let mut theme = Theme::terminal();
        theme.apply_opencode(opencode);
        theme
    }

    /// The terminal theme with opencode's active theme over it, if any, and
    /// the user's colours over that.
    pub fn layered(opencode: Option<&OpencodeTheme>, config: Option<&ThemeConfig>) -> (r: Theme)
        ensures
            r == ({
                let base = match opencode {
                    Some(o) => with_opencode(terminal_theme(), *o),
                    None => terminal_theme(),
                };
                match config {
                    Some(c) => with_config(base, *c),
                    None => base,
                }
            }),
    {
        let mut theme = Theme::terminal();
        match opencode {
            Some(o) => theme.apply_opencode(o),
            None => {},
        }
        match config {
            Some(c) => theme.apply_config(c),
            None => {},
        }
        theme
    }

    /// Apply the config's valid colours.
    pub fn apply_config(&mut self, config: &ThemeConfig)
        ensures
            *final(self) == with_config(*old(self), *config),
    {
        self.background = configured_color(self.background, &config.background);
        self.foreground = configured_color(self.foreground, &config.foreground);
        self.accent = configured_color(self.accent, &config.accent);
        self.accent_dim = configured_color(self.accent_dim, &config.accent_dim);
        self.border = configured_color(self.border, &config.border);
        self.highlight = configured_color(self.highlight, &config.highlight);
        self.highlight_dim = configured_color(self.highlight_dim, &config.highlight_dim);
        self.error = configured_color(self.error, &config.error);
        self.warning = configured_color(self.warning, &config.warning);
        self.success = configured_color(self.success, &config.success);
        self.muted = configured_color(self.muted, &config.muted);
    }

    /// Apply an opencode theme's colours.
    pub fn apply_opencode(&mut self, opencode: &OpencodeTheme)
        ensures
            *final(self) == with_opencode(*old(self), *opencode),
    {
        self.background = overridden_color(self.background, opencode.background);
        self.foreground = overridden_color(self.foreground, opencode.foreground);
        self.accent = overridden_color(self.accent, opencode.accent);
        self.accent_dim = overridden_color(self.accent_dim, opencode.accent_dim);
        self.border = overridden_color(self.border, opencode.border);
        self.highlight = overridden_color(self.highlight, opencode.highlight);
        self.highlight_dim = overridden_color(self.highlight_dim, opencode.highlight_dim);
        self.error = overridden_color(self.error, opencode.error);
        self.warning = overridden_color(self.warning, opencode.warning);
        self.success = overridden_color(self.success, opencode.success);
        self.muted = overridden_color(self.muted, opencode.muted);
    }
}

/// How a piece of text is drawn: its colours and whether it is bold.
#[derive(Debug, Clone, Copy, PartialEq, Eq)]
pub struct StyleSpec {
    pub fg: Color,
    pub bg: Color,
    pub bold: bool,
}

impl Theme {
    /// Ordinary text.
    pub fn default_style(self) -> (r: StyleSpec)
        ensures
            r == (StyleSpec { fg: self.foreground, bg: self.background, bold: false }),
    {
        StyleSpec { fg: self.foreground, bg: self.background, bold: false }
    }

    /// Accented text.
    pub fn accent(self) -> (r: StyleSpec)
        ensures
            r == (StyleSpec { fg: self.accent, bg: self.background, bold: false }),
    {
        StyleSpec { fg: self.accent, bg: self.background, bold: false }
    }

    /// Titles and the selected suggestion: highlighted and bold.
    pub fn highlight(self) -> (r: StyleSpec)
        ensures
            r == (StyleSpec { fg: self.highlight, bg: self.background, bold: true }),
    {
        StyleSpec { fg: self.highlight, bg: self.background, bold: true }
    }

    /// The selected entry: white and bold on the highlight colour.
    pub fn selected(self) -> (r: StyleSpec)
        ensures
            r == (StyleSpec { fg: Color::White, bg: self.highlight, bold: true }),
    {
        StyleSpec { fg: Color::White, bg: self.highlight, bold: true }
    }

    /// Details of the selected entry: white on the highlight colour.
    pub fn selected_dim(self) -> (r: StyleSpec)
        ensures
            r == (StyleSpec { fg: Color::White, bg: self.highlight, bold: false }),
    {
        StyleSpec { fg: Color::White, bg: self.highlight, bold: false }
    }

    /// Secondary text.
    pub fn dim(self) -> (r: StyleSpec)
        ensures
            r == (StyleSpec { fg: self.accent_dim, bg: self.background, bold: false }),
    {
        StyleSpec { fg: self.accent_dim, bg: self.background, bold: false }
    }

    /// Muted text.
    pub fn muted(self) -> (r: StyleSpec)
        ensures
            r == (StyleSpec { fg: self.muted, bg: self.background, bold: false }),
    {
        StyleSpec { fg: self.muted, bg: self.background, bold: false }
    }

    /// Errors.
    pub fn error(self) -> (r: StyleSpec)
        ensures
            r == (StyleSpec { fg: self.error, bg: self.background, bold: false }),
    {
        StyleSpec { fg: self.error, bg: self.background, bold: false }
    }

    /// Warnings and the status line.
    pub fn warning(self) -> (r: StyleSpec)
        ensures
            r == (StyleSpec { fg: self.warning, bg: self.background, bold: false }),
    {
        StyleSpec { fg: self.warning, bg: self.background, bold: false }
    }

    /// Success.
    pub fn success(self) -> (r: StyleSpec)
        ensures
            r == (StyleSpec { fg: self.success, bg: self.background, bold: false }),
    {
        StyleSpec { fg: self.success, bg: self.background, bold: false }
    }

    /// Borders.
    pub fn border(self) -> (r: StyleSpec)
        ensures
            r == (StyleSpec { fg: self.border, bg: self.background, bold: false }),
    {
        StyleSpec { fg: self.border, bg: self.background, bold: false }
    }

    /// The mode badge: white and bold on the highlight colour.
    pub fn badge(self) -> (r: StyleSpec)
        ensures
            r == (StyleSpec { fg: Color::White, bg: self.highlight, bold: true }),
    {
        StyleSpec { fg: Color::White, bg: self.highlight, bold: true }
    }
}

/// A config that sets no colour leaves the palette as it is.
pub proof fn law_empty_config_keeps_theme(t: Theme, c: ThemeConfig)
    requires
        c.background is None && c.foreground is None && c.accent is None && c.accent_dim is None
            && c.border is None && c.highlight is None && c.highlight_dim is None && c.error is None
            && c.warning is None && c.success is None && c.muted is None,
    ensures
        with_config(t, c) == t,
{
}

/// Applying the same config twice is the same as applying it once.
pub proof fn law_config_idempotent(t: Theme, c: ThemeConfig)
    ensures
        with_config(with_config(t, c), c) == with_config(t, c),
{
}

/// Applying the same opencode theme twice is the same as applying it once.
pub proof fn law_opencode_idempotent(t: Theme, o: OpencodeTheme)
    ensures
        with_opencode(with_opencode(t, o), o) == with_opencode(t, o),
{
}

} // verus!
