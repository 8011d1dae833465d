//! The `<barline>` of a measure.

use vstd::prelude::*;
use crate::notation::barline::{BarStyle, Barline, Ending, RepeatDirection};
use crate::text::{spec_trim, str_eq, trim};
use crate::xml::{attr, attribute, child, child_text, find_child, first_child_text, node_text, opt_view, XmlNode};

verus! {

/// Bar style named by `<bar-style>`; unknown names are regular.
pub open spec fn spec_bar_style(s: Seq<char>) -> BarStyle {
    if s == "regular"@ {
        BarStyle::Regular
    } else if s == "dotted"@ {
        BarStyle::Dotted
    } else if s == "dashed"@ {
        BarStyle::Dashed
    } else if s == "heavy"@ {
        BarStyle::Heavy
    } else if s == "light-light"@ {
        BarStyle::LightLight
    } else if s == "light-heavy"@ {
        BarStyle::LightHeavy
    } else if s == "heavy-light"@ {
        BarStyle::HeavyLight
    } else if s == "heavy-heavy"@ {
        BarStyle::HeavyHeavy
    } else if s == "tick"@ {
        BarStyle::Tick
    } else if s == "short"@ {
        BarStyle::Short
    } else if s == "none"@ {
        BarStyle::Invisible
    } else {
        BarStyle::Regular
    }
}

fn bar_style(s: &str) -> (b: BarStyle)
    ensures
        b == spec_bar_style(s@),
{
    if str_eq(s, "regular") {
        BarStyle::Regular
    } else if str_eq(s, "dotted") {
        BarStyle::Dotted
    } else if str_eq(s, "dashed") {
        BarStyle::Dashed
    } else if str_eq(s, "heavy") {
        BarStyle::Heavy
    } else if str_eq(s, "light-light") {
        BarStyle::LightLight
    } else if str_eq(s, "light-heavy") {
        BarStyle::LightHeavy
    } else if str_eq(s, "heavy-light") {
        BarStyle::HeavyLight
    } else if str_eq(s, "heavy-heavy") {
        BarStyle::HeavyHeavy
    } else if str_eq(s, "tick") {
        BarStyle::Tick
    } else if str_eq(s, "short") {
        BarStyle::Short
    } else if str_eq(s, "none") {
        BarStyle::Invisible
    } else {
        BarStyle::Regular
    }
}

/// Repeat direction of a `<repeat>`: backward when so marked, otherwise forward.
pub open spec fn spec_repeat_direction(r: XmlNode) -> RepeatDirection {
    if attr(r, "direction"@) == Some("backward"@) {
        RepeatDirection::Backward
    } else {
        RepeatDirection::Forward
    }
}

/// `e` is the ending read from the `<ending>` element `n`: its `number`
/// attribute ("1" when absent) and its trimmed text.
pub open spec fn ending_matches(e: Ending, n: XmlNode) -> bool {
    &&& e.number@ == (match attr(n, "number"@) {
        Some(v) => v,
        None => "1"@,
    })
    &&& opt_view(e.text) == (match node_text(n) {
        Some(t) => Some(spec_trim(t)),
        None => None,
    })
    &&& e.length is None
}

/// `b` is the bar line of the measure `m`: from its first `<barline>`
/// (style, repeat, ending), or a plain regular bar line when there is none.
pub open spec fn barline_matches(b: Barline, m: XmlNode) -> bool {
    match child(m, "barline"@) {
        None => b.style == BarStyle::Regular && b.repeat is None && b.ending is None,
        Some(bl) => {
            &&& b.style == (match child_text(bl, "bar-style"@) {
                Some(s) => spec_bar_style(s),
                None => BarStyle::Regular,
            })
            &&& b.repeat == (match child(bl, "repeat"@) {
                Some(r) => Some(spec_repeat_direction(r)),
                None => None,
            })
            &&& match (b.ending, child(bl, "ending"@)) {
                (None, None) => true,
                (Some(e), Some(n)) => ending_matches(e, n),
                _ => false,
            }
        },
    }
}

/// Reads the bar line of a `<measure>`.
pub fn parse_barline(measure: &XmlNode) -> (b: Barline)
    ensures
        barline_matches(b, *measure),
{
    let bl = match find_child(measure, "barline") {
        Some(bl) => bl,
        None => return Barline { style: BarStyle::Regular, repeat: None, ending: None },
    };
    let style = match first_child_text(bl, "bar-style") {
        Some(s) => bar_style(s.as_str()),
        None => BarStyle::Regular,
    };
    let repeat = match find_child(bl, "repeat") {
        Some(r) => {
            let dir = match attribute(r, "direction") {
                Some(d) => if str_eq(d, "backward") { RepeatDirection::Backward } else { RepeatDirection::Forward },
                None => RepeatDirection::Forward,
            };
            Some(dir)
        },
        None => None,
    };
    let ending = match find_child(bl, "ending") {
        Some(e) => {
            let number = match attribute(e, "number") {
                Some(v) => v.to_string(),
                None => "1".to_string(),
            };
            let text = match &e.text {
                Some(t) => Some(trim(t.as_str())),
                None => None,
            };
            Some(Ending { number, text, length: None })
        },
        None => None,
    };
    Barline { style, repeat, ending }
}

} // verus!
