use gitpkg::util::{format_mb, kebab_case_with, pascal_to_kebab_case};

#[test]
fn test_pascal_to_kebab_case() {
    assert_eq!(pascal_to_kebab_case("MyApp"), "my-app");
    assert_eq!(pascal_to_kebab_case("HTMLParser"), "h-t-m-l-parser");
    assert_eq!(pascal_to_kebab_case("already-kebab"), "already-kebab");
    assert_eq!(pascal_to_kebab_case("Simple"), "simple");
    assert_eq!(pascal_to_kebab_case(""), "");
}

#[test]
fn kebab_case_beyond_ascii() {
    // Non-ASCII uppercase letters get a dash but keep their case, as
    // to_ascii_lowercase leaves them alone.
    assert_eq!(pascal_to_kebab_case("aÄb"), "a-Äb");
    assert_eq!(pascal_to_kebab_case("ÉtéX"), "Été-x");
    assert_eq!(pascal_to_kebab_case("straße"), "straße");
}

#[test]
fn test_format_mb() {
    assert_eq!(format_mb(0), "0.00 MB");
    assert_eq!(format_mb(1024 * 1024), "1.00 MB");
    assert_eq!(format_mb(1024 * 1024 * 5 + 512 * 1024), "5.50 MB");
}

fn float_formatted(bytes: u64) -> String {
    let mb = (bytes as f64) / 1024.0 / 1024.0;
    format!("{:.2} MB", mb)
}

#[test]
fn format_mb_matches_float_formatting() {
    let mut values: Vec<u64> = vec![
        1,
        5242,
        5243,
        10485,
        10486,
        131072,
        393216,
        655360,
        1048575,
        1048576 * 1023 + 1048575,
        (1u64 << 53) - 1,
        1u64 << 53,
        (1u64 << 53) + 1,
        (1u64 << 53) + 3,
        (1u64 << 60) + 12345,
        u64::MAX,
        u64::MAX - 1024,
    ];
    let mut x: u64 = 0x9e3779b97f4a7c15;
    for _ in 0..2000 {
        x ^= x << 13;
        x ^= x >> 7;
        x ^= x << 17;
        values.push(x);
        values.push(x >> 30);
        values.push((x >> 44) * 131072);
    }
    for v in values {
        assert_eq!(format_mb(v), float_formatted(v), "bytes = {}", v);
    }
}

#[test]
fn kebab_with_given_uppercase_flags() {
    assert_eq!(kebab_case_with("ÉtéÀ", &[true, false, false, true]), "Été-À");
    assert_eq!(kebab_case_with("AbC", &[true, false, true]), "ab-c");
    assert_eq!(kebab_case_with("AbC", &[false, true, false]), "a-bc");
    assert_eq!(kebab_case_with("", &[]), "");
}

