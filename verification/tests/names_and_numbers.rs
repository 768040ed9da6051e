use test_generator::canon::canonical_fn_name;
use test_generator::names::{fn_ident_from_expr, fn_ident_from_path, fn_ident_from_string};
use test_generator::numfmt::{render_dec, render_dec_padded10, render_hex_byte, render_hex_padded16};
use test_generator::expr::ListExpr;

#[test]
fn canonical_replaces_delimiters() {
    assert_eq!(canonical_fn_name("res/set1/input.txt"), "res_set1_input_txt");
    assert_eq!(canonical_fn_name("a b:c-d*e\\f"), "a_b_c_d_e_f");
    assert_eq!(canonical_fn_name("\"x\"\n\t\r"), "_x____");
}

#[test]
fn canonical_keeps_ordinary_text() {
    assert_eq!(canonical_fn_name("already_fine_123"), "already_fine_123");
    assert_eq!(canonical_fn_name(""), "");
}

#[test]
fn decimal_rendering_pads_to_ten() {
    assert_eq!(render_dec_padded10(10), "0000000010".chars().collect::<Vec<char>>());
    assert_eq!(render_dec_padded10(0), "0000000000".chars().collect::<Vec<char>>());
    assert_eq!(
        render_dec_padded10(u64::MAX),
        "18446744073709551615".chars().collect::<Vec<char>>()
    );
}

#[test]
fn decimal_rendering_unpadded() {
    assert_eq!(render_dec(0), vec!['0']);
    assert_eq!(render_dec(1234), vec!['1', '2', '3', '4']);
}

#[test]
fn hex_rendering_widths() {
    assert_eq!(render_hex_byte(0xff), vec!['f', 'f']);
    assert_eq!(render_hex_byte(0x05), vec!['0', '5']);
    assert_eq!(
        render_hex_padded16(256),
        "0000000000000100".chars().collect::<Vec<char>>()
    );
}

#[test]
fn ident_from_path_joins_and_canonicalizes() {
    assert_eq!(fn_ident_from_path("verify", "res/set1/input.txt"), "verify_res_set1_input_txt");
}

#[test]
fn ident_from_string_clips_long_content() {
    let long: String = "x".repeat(150);
    let name = fn_ident_from_string("check", &long);
    assert_eq!(name.len(), "check_".len() + 100);
    assert!(name.starts_with("check_xxxx"));
}

#[test]
fn ident_from_expr_uses_padded_decimal() {
    let e = ListExpr::IntLit(10);
    assert_eq!(fn_ident_from_expr("test_size", &e), "test_size_0000000010");
}
