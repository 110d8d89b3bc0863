//! The data model of the configuration: colors, per-face style records, the
//! line-number display mode, face identifiers, and the configuration object
//! that the rest of the tool consumes.

use vstd::prelude::*;

verus! {

/// A concrete terminal color: one of the eight basic named colors, a single
/// 0-255 palette index, or an explicit (r, g, b) triple.
#[derive(Debug, Clone, Copy, PartialEq, Eq, Structural)]
pub enum ColorValue {
    Black,
    Blue,
    Green,
    Red,
    Cyan,
    Magenta,
    Yellow,
    White,
    Ansi256(u8),
    Rgb(u8, u8, u8),
}

/// Display mode for line numbers: as compact as possible, or aligned to tab
/// stops.
#[derive(Debug, Clone, Copy, PartialEq, Eq, Structural)]
pub enum LineNumberStyle {
    Compact,
    Aligned,
}

/// One of the four visual roles that can be styled independently.
#[derive(Debug, Clone, Copy, PartialEq, Eq, Structural)]
pub enum FaceName {
    Added,
    RefineAdded,
    Removed,
    RefineRemoved,
}

/// The accumulated styling of one face: optional foreground and background
/// colors, and four font flags.
#[derive(Debug, Clone, Copy, PartialEq, Eq)]
pub struct StyleRecord {
    pub fg: Option<ColorValue>,
    pub bg: Option<ColorValue>,
    pub italic: bool,
    pub bold: bool,
    pub intense: bool,
    pub underline: bool,
}

/// The style every face starts from: no colors, no font flags.
pub open spec fn spec_default_style() -> StyleRecord {
    StyleRecord { fg: None, bg: None, italic: false, bold: false, intense: false, underline: false }
}

impl Default for StyleRecord {
    /// A fresh style record: no colors, all font flags off.
    fn default() -> (r: Self)
        ensures
            r == spec_default_style(),
    {
        StyleRecord { fg: None, bg: None, italic: false, bold: false, intense: false, underline: false }
    }
}

impl FaceName {
    /// The slot of this face in the configuration's style array.
    pub open spec fn spec_slot(self) -> int {
        match self {
            FaceName::Added => 0,
            FaceName::RefineAdded => 1,
            FaceName::Removed => 2,
            FaceName::RefineRemoved => 3,
        }
    }

    /// The index of this face's style record in the configuration.
    pub fn slot(self) -> (i: usize)
        ensures
            i == self.spec_slot(),
    {
        match self {
            FaceName::Added => 0,
            FaceName::RefineAdded => 1,
            FaceName::Removed => 2,
            FaceName::RefineRemoved => 3,
        }
    }

    /// The name under which this face is addressed on the command line.
    pub open spec fn spec_name(self) -> Seq<char> {
        match self {
            FaceName::Added => "added"@,
            FaceName::RefineAdded => "refine-added"@,
            FaceName::Removed => "removed"@,
            FaceName::RefineRemoved => "refine-removed"@,
        }
    }

    /// The name under which this face is addressed on the command line.
    pub fn name(self) -> (r: &'static str)
        ensures
            r@ == self.spec_name(),
    {
        match self {
            FaceName::Added => "added",
            FaceName::RefineAdded => "refine-added",
            FaceName::Removed => "removed",
            FaceName::RefineRemoved => "refine-removed",
        }
    }
}

/// The mathematical value of a configuration.
pub struct ConfigModel {
    pub debug: bool,
    pub html: bool,
    pub line_numbers_style: Option<LineNumberStyle>,
    pub faces: Seq<StyleRecord>,
}

/// The configuration the parser assembles: two feature toggles, the optional
/// line-number style, and one style record per face, stored at the face's
/// slot.
#[derive(Debug, Clone, Copy, PartialEq, Eq)]
pub struct AppConfig {
    pub debug: bool,
    pub html: bool,
    pub line_numbers_style: Option<LineNumberStyle>,
    pub faces: [StyleRecord; 4],
}

impl View for AppConfig {
    type V = ConfigModel;

    open spec fn view(&self) -> ConfigModel {
        ConfigModel {
            debug: self.debug,
            html: self.html,
            line_numbers_style: self.line_numbers_style,
            faces: self.faces@,
        }
    }
}

/// The configuration every run starts from: toggles off, line-number style
/// unset, every face at the default style.
pub open spec fn spec_default_config() -> ConfigModel {
    ConfigModel {
        debug: false,
        html: false,
        line_numbers_style: None,
        faces: Seq::new(4, |i: int| spec_default_style()),
    }
}

impl Default for AppConfig {
    /// A fresh configuration: toggles off, line-number style unset, every
    /// face at the default style.
    fn default() -> (r: Self)
        ensures
            r@ == spec_default_config(),
    {
        let d = StyleRecord::default();
        let r = AppConfig { debug: false, html: false, line_numbers_style: None, faces: [d, d, d, d] };
        proof {
            assert(r@.faces =~= spec_default_config().faces);
            assert(r@ =~= spec_default_config());
        }
        r
    }
}

impl AppConfig {
    /// The style record currently held for face `f`.
    pub open spec fn spec_face(self, f: FaceName) -> StyleRecord {
        self.faces@[f.spec_slot()]
    }

    /// Read the style record of face `f`.
    pub fn get_face(&self, f: FaceName) -> (r: StyleRecord)
        ensures
            r == self.spec_face(f),
    {
        self.faces[f.slot()]
    }

    /// Replace the style record of face `f`, leaving everything else as it
    /// was.
    pub fn set_face(&mut self, f: FaceName, s: StyleRecord)
        ensures
            final(self)@.faces == old(self)@.faces.update(f.spec_slot(), s),
            final(self).debug == old(self).debug,
            final(self).html == old(self).html,
            final(self).line_numbers_style == old(self).line_numbers_style,
    {
        let i = f.slot();
        self.faces[i] = s;
    }
}

} // verus!
