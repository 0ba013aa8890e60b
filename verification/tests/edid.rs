//! Monitor identities out of EDID blobs.

use plugkill::edid::{monitor_name, parse, EDID_BASE_LEN};

/// Real EDID from a Samsung Odyssey G93SD, which reports a unique serial.
const SAMSUNG: &str = "00ffffffffffff004c2d2d77313657302a230104b57722783be095ae4e3abb25\
0c505421080081c0810081809500a9c0b3000101010191e600a0f03896403020\
3a00a9504100001a000000fd0c30f08b8bdd010a202020202020000000fc004f\
647973736579204739335344000000ff00484e54594130313431370a202002d0";

/// Real EDID from an internal laptop panel, which reports serial 0.
const PANEL: &str = "00ffffffffffff0051a16420000000001b220104a523167803de51a3544c9926\
0f505400000001010101010101010101010101010101606c00a0a04064603020\
680059d710000018000000fd003078cccc38010a202020202020000000100000\
000000000000000000000000000000fc00544c31363041444d5033350a2001a9";

fn hex(s: &str) -> Vec<u8> {
    (0..s.len())
        .step_by(2)
        .map(|i| u8::from_str_radix(&s[i..i + 2], 16).unwrap())
        .collect()
}

#[test]
fn test_parses_a_real_monitor() {
    let id = parse(&hex(SAMSUNG)).expect("valid EDID should parse");
    assert_eq!(id.mfg, "SAM");
    assert_eq!(id.product, 0x772d);
    assert_eq!(id.serial, Some(811_021_873));
    assert_eq!(id.name, "Odyssey G93SD");
}

#[test]
fn test_zero_serial_becomes_none() {
    let id = parse(&hex(PANEL)).expect("valid EDID should parse");
    assert_eq!(id.mfg, "TMA");
    assert_eq!(id.serial, None);
    assert_eq!(id.name, "TL160ADMP35");
}

#[test]
fn test_selector_includes_serial_when_present() {
    let id = parse(&hex(SAMSUNG)).unwrap();
    assert_eq!(id.selector(), "SAM:772d:811021873");
}

#[test]
fn test_selector_omits_absent_serial() {
    let id = parse(&hex(PANEL)).unwrap();
    assert_eq!(id.selector(), "TMA:2064");
}

#[test]
fn test_bad_header_is_rejected() {
    let mut b = hex(SAMSUNG);
    b[0] = 0x01;
    assert!(parse(&b).is_none());
}

#[test]
fn test_all_zero_blob_is_rejected() {
    assert!(parse(&[0u8; EDID_BASE_LEN]).is_none());
}

#[test]
fn test_every_truncation_is_rejected_without_panicking() {
    let full = hex(SAMSUNG);
    for len in 0..EDID_BASE_LEN {
        assert!(
            parse(&full[..len]).is_none(),
            "length {len} should not parse"
        );
    }
}

#[test]
fn test_garbage_body_does_not_panic() {
    let mut b = vec![0x00, 0xFF, 0xFF, 0xFF, 0xFF, 0xFF, 0xFF, 0x00];
    let mut x: u8 = 7;
    while b.len() < EDID_BASE_LEN {
        x = x.wrapping_mul(31).wrapping_add(17);
        b.push(x);
    }
    let _ = parse(&b);
}

#[test]
fn test_out_of_range_manufacturer_is_rejected() {
    let mut b = hex(SAMSUNG);
    b[8] = 0x00;
    b[9] = 0x00;
    assert!(parse(&b).is_none());
}

#[test]
fn test_missing_name_descriptor_gives_empty_name() {
    let mut b = hex(SAMSUNG);
    for off in (54..126).step_by(18) {
        b[off + 3] = 0x00;
    }
    let id = parse(&b).expect("still a valid EDID without a name");
    assert_eq!(id.name, "");
}

#[test]
fn test_extra_bytes_beyond_the_base_block_are_ignored() {
    let mut b = hex(SAMSUNG);
    b.extend_from_slice(&[0xAB; 128]);
    let id = parse(&b).expect("extension blocks are ignored, not fatal");
    assert_eq!(id.mfg, "SAM");
}

#[test]
fn identity_leaves_the_name_out() {
    let a = parse(&hex(SAMSUNG)).unwrap();
    let mut b = a.clone();
    b.name = "another".to_string();
    assert_eq!(a, b);
    b.serial = None;
    assert_ne!(a, b);
    assert_eq!(monitor_name(&hex(PANEL)), "TL160ADMP35");
}
