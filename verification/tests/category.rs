use rarerankd::category::block9_range;
use rarerankd::category::categories_for_sat;
use rarerankd::category::is_palindrome_decimal;
use rarerankd::category::CategoryId;
use rarerankd::category::BLOCK9_END_INCLUSIVE;
use rarerankd::category::BLOCK9_START;
use rarerankd::category::TRUMP_END_EXCLUSIVE;
use rarerankd::category::TRUMP_END_INCLUSIVE;
use rarerankd::category::TRUMP_START;

#[test]
fn sat_zero_is_a_palindrome() {
    assert_eq!(categories_for_sat(0), vec![CategoryId::Palindrome]);
}

#[test]
fn block_nine_has_both_ends() {
    assert_eq!(block9_range(), (45_000_000_000, 49_999_999_999));
    assert_eq!(block9_range(), (BLOCK9_START, BLOCK9_END_INCLUSIVE));
    assert_eq!(categories_for_sat(44_999_999_999), vec![]);
    assert_eq!(categories_for_sat(45_000_000_000), vec![CategoryId::Block9]);
    assert_eq!(categories_for_sat(49_999_999_999), vec![CategoryId::Block9]);
    assert_eq!(categories_for_sat(50_000_000_000), vec![]);
}

#[test]
fn trump_window_has_its_start_and_not_its_end() {
    assert_eq!(TRUMP_START, 215_041_381_749_581);
    assert_eq!(TRUMP_END_INCLUSIVE, 215_041_481_749_580);
    assert_eq!(TRUMP_END_EXCLUSIVE, 215_041_481_749_581);
    assert_eq!(TRUMP_END_EXCLUSIVE - TRUMP_START, 100_000_000);
    assert_eq!(categories_for_sat(215_041_381_749_580), vec![]);
    assert_eq!(categories_for_sat(215_041_381_749_581), vec![CategoryId::TrumpCasascius]);
    assert_eq!(categories_for_sat(215_041_481_749_580), vec![CategoryId::TrumpCasascius]);
    assert_eq!(categories_for_sat(215_041_481_749_581), vec![]);
}

#[test]
fn a_sat_may_be_in_several_categories() {
    assert_eq!(
        categories_for_sat(45_000_000_054),
        vec![CategoryId::Block9, CategoryId::Palindrome]
    );
    assert_eq!(
        categories_for_sat(215_041_383_140_512),
        vec![CategoryId::Palindrome, CategoryId::TrumpCasascius]
    );
}

#[test]
fn palindromes_read_the_same_from_both_ends() {
    for n in [0, 7, 11, 101, 1221, 12_345_678_987_654_321] {
        assert!(is_palindrome_decimal(n), "{n}");
    }
    for n in [10, 12, 100, 1231, 12_345_678_987_654_320, u64::MAX] {
        assert!(!is_palindrome_decimal(n), "{n}");
    }
}

#[test]
fn names_of_categories_read_back() {
    for (category, name) in [
        (CategoryId::Block9, "block9"),
        (CategoryId::Palindrome, "palindrome"),
        (CategoryId::TrumpCasascius, "trump_casascius"),
    ] {
        assert_eq!(category.as_str(), name);
        assert_eq!(CategoryId::from_str(name).unwrap(), category);
    }
}

#[test]
fn other_names_are_refused() {
    for name in ["", "Block9", "block9 ", "palindromes", "trump-casascius"] {
        let error = CategoryId::from_str(name).unwrap_err();
        assert_eq!(error.category_id, name);
        assert_eq!(error.message(), format!("unknown category_id `{name}`"));
    }
}

#[test]
fn categories_keep_their_order() {
    assert!(CategoryId::Block9 < CategoryId::Palindrome);
    assert!(CategoryId::Palindrome < CategoryId::TrumpCasascius);
}
