//! Cell attributes and a surface's default colours.

use vstd::prelude::*;

verus! {

/// How one cell is drawn: foreground and background colour codes and a set of
/// attribute flags. The codes are not interpreted here.
#[derive(Copy, Clone, Debug, PartialEq, Eq, Structural)]
pub struct Style {
    pub fg: u32,
    pub bg: u32,
    pub style: u32,
}

impl Default for Style {
    /// The style with every field zero.
    fn default() -> (r: Style)
        ensures
            r == (Style { fg: 0, bg: 0, style: 0 }),
    {
        Style { fg: 0, bg: 0, style: 0 }
    }
}

/// The colours a surface uses where nothing else is asked for.
pub struct ColorMap {
    pub default_bg: u32,
    pub default_fg: u32,
}

impl ColorMap {
    /// The default colours as a style without attribute flags.
    pub fn default_style(&self) -> (r: Style)
        ensures
            r == (Style { fg: self.default_fg, bg: self.default_bg, style: 0 }),
    {
        Style { fg: self.default_fg, bg: self.default_bg, style: 0 }
    }
}

} // verus!
