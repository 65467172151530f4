use pebblecrypt::password::{generated_password, password, password_from_bytes, PASSWORD_LENGTH};
use pebblecrypt::size::format_size;
use pebblecrypt::text::{decimal_string, str_eq, to_lower};
use std::collections::HashSet;

fn reference_size(size: u64) -> String {
    if size >= 1024 * 1024 * 1024 {
        format!("{:.1} GB", size as f64 / (1024.0 * 1024.0 * 1024.0))
    } else if size >= 1024 * 1024 {
        format!("{:.1} MB", size as f64 / (1024.0 * 1024.0))
    } else if size >= 1024 {
        format!("{:.1} KB", size as f64 / 1024.0)
    } else {
        format!("{size} bytes")
    }
}

#[test]
fn sizes_match_float_formatting() {
    let mut samples: Vec<u64> = vec![0, 1, 1023, 1024, 1280, 1331, 1536, 10 * 1024 - 52, 1048575, 1048576,
        1073741823, 1073741824, 1 << 53, (1 << 53) + 1, (1 << 54) + 2, (1 << 54) + 6, u64::MAX, u64::MAX - 1024,
        0xFFFF_FFFF_FFFF_F400, 0xFFFF_FFFF_FFFF_FBFF, 123_456_789_012, 16_673_041_436_541_084_693];
    let mut x: u64 = 0x9e37_79b9_7f4a_7c15;
    for _ in 0..20000 {
        x ^= x << 13;
        x ^= x >> 7;
        x ^= x << 17;
        samples.push(x >> (x % 64));
        samples.push((x % 4096) * 256);
        samples.push(x % (1 << 31));
    }
    for s in samples {
        assert_eq!(format_size(s), reference_size(s), "size {s}");
    }
}

#[test]
fn size_examples() {
    assert_eq!(format_size(512), "512 bytes");
    assert_eq!(format_size(1280), "1.2 KB");
    assert_eq!(format_size(1536), "1.5 KB");
    assert_eq!(format_size(5 * 1024 * 1024), "5.0 MB");
}

#[test]
fn passwords_have_expected_length_alphabet_and_no_repeats_in_sample() {
    let mut seen = HashSet::new();
    for _ in 0..1024 {
        let p = generated_password().unwrap();
        assert_eq!(p.len(), 24);
        assert!(p.bytes().all(|b| b.is_ascii_alphanumeric() || b == b'-' || b == b'_'));
        assert!(seen.insert(p));
    }
    assert_eq!(PASSWORD_LENGTH, 24);
}

#[test]
fn password_bytes_map_onto_alphabet() {
    let bytes: Vec<u8> = vec![0, 25, 26, 51, 52, 61, 62, 63, 64, 255];
    assert_eq!(password_from_bytes(&bytes), "AZaz09-_A_");
}

#[test]
fn fixture_password() {
    assert_eq!(password(), "audit test passphrase only");
}

#[test]
fn decimal_and_text_helpers() {
    assert_eq!(decimal_string(0), "0");
    assert_eq!(decimal_string(10000), "10000");
    assert_eq!(decimal_string(u64::MAX), u64::MAX.to_string());
    assert!(str_eq("åb", "åb"));
    assert!(!str_eq("ab", "abc"));
    assert_eq!(to_lower("ÉCOLE/Notes.TXT"), "école/notes.txt");
}

