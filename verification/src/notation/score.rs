use vstd::prelude::*;
use crate::notation::system::{GroupBracket, System};

verus! {

/// A whole score.
#[derive(Clone, Debug)]
pub struct Score {
    pub title: String,
    pub composer: String,
    pub systems: Vec<System>,
    pub credits: Vec<Credit>,
    pub scaling: Option<Scaling>,
    pub part_list: PartList,
    /// Page width and height in tenths, as written in MusicXML
    /// `<defaults><page-layout>`; credit positions are relative to it.
    pub page_size: Option<PageSize>,
}

/// Page size in tenths, as the decimal texts of `<page-width>` and `<page-height>`.
#[derive(Clone, Debug)]
pub struct PageSize {
    pub width: String,
    pub height: String,
}

/// Page credit (title, composer, footer, ...).
#[derive(Clone, Debug)]
pub struct Credit {
    pub page: u8,
    pub kind: CreditKind,
    /// Horizontal position in tenths (decimal text of `default-x`, empty when absent).
    pub default_x: String,
    /// Vertical position in tenths, growing upwards (decimal text of
    /// `default-y`, empty when absent).
    pub default_y: String,
    pub justify: CreditJustify,
}

#[derive(Clone, Debug)]
pub enum CreditKind {
    Words(String),
    Symbol(char),
}

/// Horizontal alignment of a credit (MusicXML `justify`).
#[derive(Clone, Copy, Debug, PartialEq, Eq, Structural)]
pub enum CreditJustify {
    Left,
    Center,
    Right,
}

/// MusicXML scaling: millimeters per tenths, as decimal texts.
#[derive(Clone, Debug)]
pub struct Scaling {
    pub millimeters: String,
    pub tenths: String,
}

/// Parts and part groups of the score.
#[derive(Clone, Debug)]
pub struct PartList {
    pub parts: Vec<PartInfo>,
    pub groups: Vec<PartGroup>,
}

impl Default for PartList {
    fn default() -> (p: Self)
        ensures
            p.parts@.len() == 0,
            p.groups@.len() == 0,
    {
        PartList { parts: Vec::new(), groups: Vec::new() }
    }
}

/// One part (instrument).
#[derive(Clone, Debug)]
pub struct PartInfo {
    pub id: String,
    pub name: String,
    pub abbreviation: String,
}

/// Group of parts (for example a wind section).
#[derive(Clone, Debug)]
pub struct PartGroup {
    pub number: u8,
    pub kind: GroupBracket,
    pub name: String,
}

} // verus!
