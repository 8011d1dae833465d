//! Numeric fields of MusicXML elements: a child's text or an attribute read
//! as an integer.

use vstd::prelude::*;
use crate::text::{
    parse_i32, parse_i8, parse_u16, parse_u32, parse_u8, spec_parse_i32, spec_parse_i8,
    spec_parse_u16, spec_parse_u32, spec_parse_u8,
};
use crate::xml::{attr, attribute, child_text, first_child_text, XmlNode};

verus! {

pub open spec fn child_u8(n: XmlNode, tag: Seq<char>) -> Option<u8> {
    match child_text(n, tag) {
        Some(t) => spec_parse_u8(t),
        None => None,
    }
}

pub open spec fn child_u16(n: XmlNode, tag: Seq<char>) -> Option<u16> {
    match child_text(n, tag) {
        Some(t) => spec_parse_u16(t),
        None => None,
    }
}

pub open spec fn child_u32(n: XmlNode, tag: Seq<char>) -> Option<u32> {
    match child_text(n, tag) {
        Some(t) => spec_parse_u32(t),
        None => None,
    }
}

pub open spec fn child_i8(n: XmlNode, tag: Seq<char>) -> Option<i8> {
    match child_text(n, tag) {
        Some(t) => spec_parse_i8(t),
        None => None,
    }
}

pub open spec fn child_i32(n: XmlNode, tag: Seq<char>) -> Option<i32> {
    match child_text(n, tag) {
        Some(t) => spec_parse_i32(t),
        None => None,
    }
}

pub open spec fn attr_u8(n: XmlNode, name: Seq<char>) -> Option<u8> {
    match attr(n, name) {
        Some(v) => spec_parse_u8(v),
        None => None,
    }
}

/// Trimmed text of the child `tag` read as a `u8`.
pub fn child_parse_u8(n: &XmlNode, tag: &str) -> (r: Option<u8>)
    ensures
        r == child_u8(*n, tag@),
{
    match first_child_text(n, tag) {
        Some(t) => parse_u8(t.as_str()),
        None => None,
    }
}

/// Trimmed text of the child `tag` read as a `u16`.
pub fn child_parse_u16(n: &XmlNode, tag: &str) -> (r: Option<u16>)
    ensures
        r == child_u16(*n, tag@),
{
    match first_child_text(n, tag) {
        Some(t) => parse_u16(t.as_str()),
        None => None,
    }
}

/// Trimmed text of the child `tag` read as a `u32`.
pub fn child_parse_u32(n: &XmlNode, tag: &str) -> (r: Option<u32>)
    ensures
        r == child_u32(*n, tag@),
{
    match first_child_text(n, tag) {
        Some(t) => parse_u32(t.as_str()),
        None => None,
    }
}

/// Trimmed text of the child `tag` read as an `i8`.
pub fn child_parse_i8(n: &XmlNode, tag: &str) -> (r: Option<i8>)
    ensures
        r == child_i8(*n, tag@),
{
    match first_child_text(n, tag) {
        Some(t) => parse_i8(t.as_str()),
        None => None,
    }
}

/// Trimmed text of the child `tag` read as an `i32`.
pub fn child_parse_i32(n: &XmlNode, tag: &str) -> (r: Option<i32>)
    ensures
        r == child_i32(*n, tag@),
{
    match first_child_text(n, tag) {
        Some(t) => parse_i32(t.as_str()),
        None => None,
    }
}

/// Attribute `name` read as a `u8` (not trimmed).
pub fn attr_parse_u8(n: &XmlNode, name: &str) -> (r: Option<u8>)
    ensures
        r == attr_u8(*n, name@),
{
    match attribute(n, name) {
        Some(v) => parse_u8(v),
        None => None,
    }
}

} // verus!
