use greeniem::format::format_vnd;

#[test]
fn vnd_groups_thousands_with_dots() {
    assert_eq!(format_vnd(1_890_000), "1.890.000\u{20ab}");
    assert_eq!(format_vnd(0), "0\u{20ab}");
    assert_eq!(format_vnd(999), "999\u{20ab}");
    assert_eq!(format_vnd(1000), "1.000\u{20ab}");
    assert_eq!(format_vnd(-1234), "-1.234\u{20ab}");
    assert_eq!(format_vnd(i64::MIN), "-9.223.372.036.854.775.808\u{20ab}");
}
