use dirlist::perms::format_permissions;
use dirlist::perms::parse_permissions;

#[test]
fn renders_full_permissions() {
    assert_eq!(format_permissions(0o755), "rwxr-xr-x");
    assert_eq!(format_permissions(0o644), "rw-r--r--");
    assert_eq!(format_permissions(0o000), "---------");
    assert_eq!(format_permissions(0o777), "rwxrwxrwx");
}

#[test]
fn renders_mixed_permissions() {
    assert_eq!(format_permissions(0o640), "rw-r-----");
    assert_eq!(format_permissions(0o001), "--------x");
    assert_eq!(format_permissions(0o421), "r---w---x");
}

#[test]
fn ignores_file_type_bits() {
    assert_eq!(format_permissions(0o100644), "rw-r--r--");
    assert_eq!(format_permissions(0o040755), "rwxr-xr-x");
    assert_eq!(format_permissions(u32::MAX), "rwxrwxrwx");
}

#[test]
fn output_is_always_nine_chars() {
    for mode in 0u32..512 {
        assert_eq!(format_permissions(mode).chars().count(), 9);
    }
}

#[test]
fn parses_valid_strings() {
    assert_eq!(parse_permissions("rwxr-xr-x"), Some(0o755));
    assert_eq!(parse_permissions("rw-r--r--"), Some(0o644));
    assert_eq!(parse_permissions("---------"), Some(0));
    assert_eq!(parse_permissions("rwxrwxrwx"), Some(0o777));
}

#[test]
fn rejects_invalid_strings() {
    assert_eq!(parse_permissions(""), None);
    assert_eq!(parse_permissions("rwxr-xr-"), None);
    assert_eq!(parse_permissions("rwxr-xr-xx"), None);
    assert_eq!(parse_permissions("rwxrwxrwY"), None);
    assert_eq!(parse_permissions("wwxrwxrwx"), None);
    assert_eq!(parse_permissions("rwxrwxrxw"), None);
}

#[test]
fn round_trips_all_nine_bit_modes() {
    for mode in 0u32..512 {
        let rendered = format_permissions(mode);
        assert_eq!(parse_permissions(&rendered), Some(mode));
    }
}

#[test]
fn round_trip_masks_high_bits() {
    let rendered = format_permissions(0o100644);
    assert_eq!(parse_permissions(&rendered), Some(0o644));
}
