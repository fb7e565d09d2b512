//! Port-name scanning: finding the surface among the system's ports.

use apcdeck::apcmini::{find_surface_port, PortLookup};

fn name(s: &str) -> Option<Vec<u8>> {
    Some(s.as_bytes().to_vec())
}

#[test]
fn no_port_names_means_no_device() {
    assert_eq!(find_surface_port(&vec![]), PortLookup::NoMatchingDevice);
    assert_eq!(
        find_surface_port(&vec![name("Midi Through 0"), name("USB Keyboard")]),
        PortLookup::NoMatchingDevice
    );
}

#[test]
fn the_marker_is_found_anywhere_in_a_name() {
    assert_eq!(
        find_surface_port(&vec![name("Midi Through 0"), name("APC MINI 20:0")]),
        PortLookup::Match { index: 1 }
    );
    assert_eq!(
        find_surface_port(&vec![name("AKAI APC MINI")]),
        PortLookup::Match { index: 0 }
    );
    // A near miss is not a match.
    assert_eq!(
        find_surface_port(&vec![name("APC-MINI"), name("APC MIN")]),
        PortLookup::NoMatchingDevice
    );
}

#[test]
fn unreadable_names_are_skipped_and_scanning_continues() {
    assert_eq!(
        find_surface_port(&vec![None, name("APC MINI 20:0")]),
        PortLookup::Match { index: 1 }
    );
    assert_eq!(
        find_surface_port(&vec![None, None]),
        PortLookup::NoMatchingDevice
    );
}

#[test]
fn several_matches_are_reported_with_the_first() {
    assert_eq!(
        find_surface_port(&vec![
            name("Other"),
            name("APC MINI 20:0"),
            None,
            name("APC MINI 24:0"),
        ]),
        PortLookup::AmbiguousMatch { index: 1, count: 2 }
    );
}
