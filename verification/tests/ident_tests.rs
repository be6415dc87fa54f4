use easy_remit::ident::account_id_from;
use easy_remit::ident::generate_account_id;
use easy_remit::ident::ID_LEN;
use easy_remit::ident::SUFFIX_BOUND;
use easy_remit::ident::SUFFIX_WIDTH;

#[test]
fn id_is_the_year_fragment_and_the_padded_number() {
    assert_eq!(account_id_from("06/04/2004", 1234), "000000001234");
    assert_eq!(account_id_from("31/12/1987", 9_999_999), "980009999999");
    assert_eq!(account_id_from("01/01/2019", 0), "010000000000");
}

#[test]
fn a_number_wider_than_the_padding_is_not_cut() {
    assert_eq!(account_id_from("06/04/2004", 12_345_678_901), "0012345678901");
    assert_eq!(account_id_from("06/04/2004", u64::MAX), "0018446744073709551615");
}

#[test]
fn the_fragment_is_taken_by_position() {
    assert_eq!(account_id_from("abcdefgHIjk", 5), "HI0000000005");
    assert_eq!(account_id_from("123456789", 5), "890000000005");
}

#[test]
fn generated_ids_have_a_fixed_length_and_a_number_below_the_bound() {
    assert_eq!(ID_LEN, 12);
    assert_eq!(SUFFIX_WIDTH, 10);
    assert_eq!(SUFFIX_BOUND, 10_000_000);
    let mut seen = Vec::new();
    for _ in 0..200 {
        let id = generate_account_id("06/04/2004");
        assert_eq!(id.len(), 12);
        assert_eq!(&id[..2], "00");
        let number: u64 = id[2..].parse().unwrap();
        assert!(number < 10_000_000);
        seen.push(number);
    }
    seen.sort();
    seen.dedup();
    assert!(seen.len() > 1);
}
