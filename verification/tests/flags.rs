use shopping_list::text::{decode_flag, encode_flag, flag_from_lowered};

#[test]
fn lenient_decoding_of_stored_flags() {
    assert_eq!(decode_flag("TRUE"), true);
    assert_eq!(decode_flag("1"), true);
    assert_eq!(decode_flag("false"), false);
    assert_eq!(decode_flag("0"), false);
    assert_eq!(decode_flag("maybe"), false);
}

#[test]
fn lowered_text_is_matched_exactly() {
    assert!(flag_from_lowered("true"));
    assert!(flag_from_lowered("1"));
    assert!(!flag_from_lowered("TRUE"));
    assert!(!flag_from_lowered(""));
    assert!(!flag_from_lowered("true "));
}

#[test]
fn encoded_flags_decode_to_themselves() {
    assert_eq!(encode_flag(true), "true");
    assert_eq!(encode_flag(false), "false");
    assert_eq!(decode_flag(&encode_flag(true)), true);
    assert_eq!(decode_flag(&encode_flag(false)), false);
}
