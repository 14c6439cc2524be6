use rembg_rs::version::{cmp_version_dir_names, cmp_versions, parse_version_prefix};
use std::cmp::Ordering;

#[test]
fn numeric_components_order_numerically() {
    assert_eq!(cmp_versions("1.9.0", "1.10.0"), Ordering::Less);
    assert_eq!(cmp_versions("1.10.0", "1.9.0"), Ordering::Greater);
    assert_eq!(cmp_versions("2", "10"), Ordering::Less);
    assert_eq!(cmp_versions("1.2", "1.2.0"), Ordering::Less);
}

#[test]
fn suffix_falls_back_to_characters() {
    assert_eq!(cmp_versions("1.24.1", "1.24.1.post1"), Ordering::Less);
    assert_eq!(cmp_versions("1.24.1rc1", "1.24.1rc2"), Ordering::Less);
    assert_eq!(cmp_versions("1.24.1", "1.24.1"), Ordering::Equal);
}

#[test]
fn numbers_outrank_suffixes() {
    assert_eq!(cmp_versions("1.9.0.post9", "1.10.0"), Ordering::Less);
    assert_eq!(cmp_versions("abc", "0.0.1"), Ordering::Less);
}

#[test]
fn dir_names_compare_like_versions() {
    let a = String::from("1.20.1");
    let b = String::from("1.3.0");
    assert_eq!(cmp_version_dir_names(&a, &b), Ordering::Greater);
}

#[test]
fn prefix_parsing() {
    assert_eq!(parse_version_prefix("1.24.1"), vec![1, 24, 1]);
    assert_eq!(parse_version_prefix("1.24.1.post1"), vec![1, 24, 1]);
    assert_eq!(parse_version_prefix("1.2rc3.4"), vec![1, 2, 4]);
    assert_eq!(parse_version_prefix("1..2"), vec![1]);
    assert_eq!(parse_version_prefix(""), Vec::<u64>::new());
    assert_eq!(parse_version_prefix("abc"), Vec::<u64>::new());
    assert_eq!(parse_version_prefix("99999999999999999999.1"), Vec::<u64>::new());
    assert_eq!(parse_version_prefix("18446744073709551615"), vec![u64::MAX]);
    assert_eq!(parse_version_prefix("007.1."), vec![7, 1]);
}
