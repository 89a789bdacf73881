use krankulator_core::dbg::{hex_lower_string, parse_address, toggle_breakpoint};
use std::collections::HashSet;

#[test]
fn test_toggle_breakpoint_adds_then_removes() {
    let mut bps: Box<HashSet<u16>> = Box::new(HashSet::new());
    let msg = toggle_breakpoint("C000", &mut bps);
    assert_eq!(msg, "added breakpoint 0xc000");
    assert!(bps.contains(&0xC000));
    let msg = toggle_breakpoint("c000", &mut bps);
    assert_eq!(msg, "removed breakpoint 0xc000");
    assert!(bps.is_empty());
}

#[test]
fn test_toggle_breakpoint_short_address() {
    let mut bps: Box<HashSet<u16>> = Box::new(HashSet::new());
    assert_eq!(toggle_breakpoint("1f", &mut bps), "added breakpoint 0x1f");
    assert!(bps.contains(&0x1F));
}

#[test]
fn test_toggle_breakpoint_invalid() {
    let mut bps: Box<HashSet<u16>> = Box::new(HashSet::new());
    bps.insert(0x8000);
    assert_eq!(toggle_breakpoint("zz", &mut bps), "invalid address: zz");
    assert_eq!(toggle_breakpoint("12345", &mut bps), "invalid address: 12345");
    assert_eq!(toggle_breakpoint("", &mut bps), "invalid address: ");
    assert_eq!(bps.len(), 1);
}

#[test]
fn test_parse_address() {
    assert_eq!(parse_address("8000"), Some(0x8000));
    assert_eq!(parse_address("FFFF"), Some(0xFFFF));
    assert_eq!(parse_address("a"), Some(10));
    assert_eq!(parse_address("0x10"), None);
    assert_eq!(parse_address("10000"), None);
}

#[test]
fn test_hex_lower_string() {
    assert_eq!(hex_lower_string(0), "0");
    assert_eq!(hex_lower_string(0xAB), "ab");
    assert_eq!(hex_lower_string(0xF00D), "f00d");
}
