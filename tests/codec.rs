use pincode_serviceability::codec::{
    all_valid_pincodes, contains_pincode, decode, encode, is_valid_pincode, new_pincodes, without,
};
use pincode_serviceability::requests::{merchant_from_record, parse_pincode_query};
use pincode_serviceability::text::{split_on, trimmed};

fn strings(v: &[&str]) -> Vec<String> {
    v.iter().map(|s| s.to_string()).collect()
}

#[test]
fn encode_joins_with_comma_space() {
    assert_eq!(encode(&strings(&["560001", "560002", "560003"])), "560001, 560002, 560003");
    assert_eq!(encode(&strings(&["560001"])), "560001");
}

#[test]
fn encode_empty_set_is_empty_text() {
    assert_eq!(encode(&Vec::new()), "");
}

#[test]
fn decode_empty_text_is_empty_set() {
    assert!(decode("").is_empty());
}

#[test]
fn decode_splits_and_trims() {
    assert_eq!(decode("560001, 560002,  560003 "), strings(&["560001", "560002", "560003"]));
    assert_eq!(decode("560001"), strings(&["560001"]));
}

#[test]
fn decode_only_splits_on_comma_space() {
    assert_eq!(decode("560001,560002"), strings(&["560001,560002"]));
}

#[test]
fn round_trip_keeps_set() {
    let s = strings(&["110001", "560001", "400001"]);
    assert_eq!(decode(&encode(&s)), s);
}

#[test]
fn without_keeps_order_and_drops_members() {
    let s = strings(&["a", "b", "c", "d"]);
    let d = strings(&["c", "a", "z"]);
    assert_eq!(without(&s, &d), strings(&["b", "d"]));
    assert_eq!(without(&s, &Vec::new()), s);
}

#[test]
fn contains_pincode_compares_whole_strings() {
    let s = strings(&["560001", "560002"]);
    assert!(contains_pincode(&s, &"560002".to_string()));
    assert!(!contains_pincode(&s, &"56000".to_string()));
}

#[test]
fn split_on_keeps_empty_pieces() {
    assert_eq!(split_on("a,,b,", ","), strings(&["a", "", "b", ""]));
    assert_eq!(split_on("", ","), strings(&[""]));
}

#[test]
fn trimmed_removes_outer_whitespace() {
    assert_eq!(trimmed(" \t560001 \n"), "560001");
    assert_eq!(trimmed("   "), "");
    assert_eq!(trimmed("5 6"), "5 6");
}

#[test]
fn lookup_query_splits_on_commas_and_trims() {
    assert_eq!(parse_pincode_query("560001, 560002 ,560003"), strings(&["560001", "560002", "560003"]));
}

#[test]
fn import_row_gives_merchant() {
    let row = strings(&["Acme", "Grocery", "99999", "a@b.c", "560001, 560002"]);
    let m = merchant_from_record(&row).unwrap();
    assert_eq!(m.name, "Acme");
    assert_eq!(m.business_category, "Grocery");
    assert_eq!(m.contact.phone_number, "99999");
    assert_eq!(m.contact.email, "a@b.c");
    assert_eq!(m.pincodes_serviced, strings(&["560001", "560002"]));
    assert_eq!(m.id, 0);
}

#[test]
fn short_import_row_gives_none() {
    assert!(merchant_from_record(&strings(&["Acme", "Grocery"])).is_none());
}

#[test]
fn trimmed_removes_unicode_whitespace() {
    assert_eq!(trimmed("\u{a0}560001\u{3000}"), "560001");
    assert_eq!(decode("560001,\u{2003}560002"), strings(&["560001,\u{2003}560002"]));
    assert_eq!(decode("560001, \u{a0}560002\u{85}"), strings(&["560001", "560002"]));
}

#[test]
fn valid_pincodes() {
    assert!(is_valid_pincode("560001"));
    assert!(is_valid_pincode("56 0001"));
    assert!(!is_valid_pincode(""));
    assert!(!is_valid_pincode(" 560001"));
    assert!(!is_valid_pincode("560001\t"));
    assert!(!is_valid_pincode("560001, 560002"));
    assert!(all_valid_pincodes(&strings(&["1", "2"])));
    assert!(!all_valid_pincodes(&strings(&["1", ""])));
}

#[test]
fn new_pincodes_dedups_in_first_seen_order() {
    let n = strings(&["c", "a", "c", "b", "a"]);
    let s = strings(&["a"]);
    assert_eq!(new_pincodes(&n, &s), strings(&["c", "b"]));
}

#[test]
fn decode_drops_empty_pieces_and_repeats() {
    assert_eq!(decode("560001, , 560002, 560001"), strings(&["560001", "560002"]));
    assert_eq!(decode(", "), Vec::<String>::new());
    assert_eq!(decode("   "), Vec::<String>::new());
}
