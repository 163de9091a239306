//! Error taxonomy and byte-codec behavior.

use gprust::errors::{error_string, catch_ffi, RawError};
use gprust::bytes::{append_le, le_decode_range, check_ascii, copy_bytes};

#[test]
fn error_strings_match_the_table() {
    assert_eq!(error_string(-1), "device not found");
    assert_eq!(error_string(-2), "device not available");
    assert_eq!(error_string(-3), "compiler not available");
    assert_eq!(error_string(-11), "build program failure");
    assert_eq!(error_string(-18), "device partition failed");
    assert_eq!(error_string(-30), "invalid value");
    assert_eq!(error_string(-64), "invalid property");
    assert_eq!(error_string(-68), "invalid device partition count");
}

#[test]
fn catch_ffi_splits_success_and_failure() {
    assert_eq!(catch_ffi(0), Ok(()));
    assert_eq!(catch_ffi(-5), Err(RawError { code: -5 }));
    assert_eq!(catch_ffi(-30), Err(RawError { code: -30 }));
}

#[test]
fn little_endian_round_trip() {
    let mut buf: Vec<u8> = Vec::new();
    append_le(&mut buf, 0x1122334455667788, 8);
    assert_eq!(buf, vec![0x88, 0x77, 0x66, 0x55, 0x44, 0x33, 0x22, 0x11]);
    assert_eq!(le_decode_range(&buf, 0, 8), 0x1122334455667788);
    let mut small: Vec<u8> = Vec::new();
    append_le(&mut small, 513, 4);
    assert_eq!(small, vec![1, 2, 0, 0]);
    assert_eq!(le_decode_range(&small, 0, 4), 513);
}

#[test]
fn ascii_check_rejects_high_bytes() {
    let good = vec![72u8, 101, 108, 108, 111];
    let bad = vec![72u8, 200];
    assert!(check_ascii(&good));
    assert!(!check_ascii(&bad));
    assert_eq!(copy_bytes(&good), good);
}
