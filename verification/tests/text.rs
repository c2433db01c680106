use elvui_manager::decimal::{digit_of, push_digit};
use elvui_manager::installer::{ARCHIVE_NAME, SCRATCH_PREFIX, UNPACKED_NAME};
use elvui_manager::text::{chars_of, matches_at};

#[test]
fn chars_of_gives_the_characters_in_order() {
    assert_eq!(chars_of("a.1"), vec!['a', '.', '1']);
    assert_eq!(chars_of("é✓"), vec!['é', '✓']);
    assert_eq!(chars_of(""), Vec::<char>::new());
}

#[test]
fn matches_at_compares_one_window() {
    let chars = chars_of("xVersion: 1");
    let pattern = chars_of("Version: ");
    assert!(!matches_at(&chars, 0, &pattern));
    assert!(matches_at(&chars, 1, &pattern));
    assert!(!matches_at(&chars, 2, &pattern));
    assert!(matches_at(&chars, 11, &Vec::new()));
}

#[test]
fn digit_of_knows_the_ten_digits_only() {
    assert_eq!(digit_of('0'), Some(0));
    assert_eq!(digit_of('7'), Some(7));
    assert_eq!(digit_of('9'), Some(9));
    assert_eq!(digit_of('/'), None);
    assert_eq!(digit_of(':'), None);
    assert_eq!(digit_of('a'), None);
    assert_eq!(digit_of('٣'), None);
}

#[test]
fn push_digit_appends_while_the_number_fits() {
    assert_eq!(push_digit(0, 0), Some(0));
    assert_eq!(push_digit(12, 6), Some(126));
    assert_eq!(push_digit(1844674407370955161, 5), Some(u64::MAX));
    assert_eq!(push_digit(1844674407370955161, 6), None);
    assert_eq!(push_digit(1844674407370955162, 0), None);
    assert_eq!(push_digit(u64::MAX, 0), None);
}

#[test]
fn scratch_names_are_fixed() {
    assert_eq!(SCRATCH_PREFIX, "elvui-manager");
    assert_eq!(ARCHIVE_NAME, "elvui.zip");
    assert_eq!(UNPACKED_NAME, "elvui");
}
