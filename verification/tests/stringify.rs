use test_generator::clip::{check_clip_clean, clip_chars};
use test_generator::expr::{expr_stringified, ListExpr};
use test_generator::strconv::{chars_to_string, str_to_chars};

#[test]
fn chars_round_trip() {
    let v = str_to_chars("déjà vu\n");
    assert_eq!(v.len(), 8);
    assert_eq!(chars_to_string(&v), "déjà vu\n");
}

#[test]
fn stringified_scalars() {
    assert_eq!(
        expr_stringified(&ListExpr::IntLit(1000), false),
        "0000001000".chars().collect::<Vec<char>>()
    );
    assert_eq!(expr_stringified(&ListExpr::IntLit(255), true), vec!['f', 'f']);
    assert_eq!(
        expr_stringified(&ListExpr::IntLit(256), true),
        "0000000000000100".chars().collect::<Vec<char>>()
    );
    assert_eq!(expr_stringified(&ListExpr::CharLit('x'), false), vec!['x']);
    let s = ListExpr::StrLit("welt".chars().collect());
    assert_eq!(expr_stringified(&s, false), "welt".chars().collect::<Vec<char>>());
    let f = ListExpr::FloatLit("3.25".chars().collect());
    assert_eq!(expr_stringified(&f, false), "3.25".chars().collect::<Vec<char>>());
}

#[test]
fn stringified_arrays_group_by_eight() {
    let elems: Vec<ListExpr> = (1u64..=9).map(ListExpr::IntLit).collect();
    let arr = ListExpr::Array(elems);
    assert_eq!(
        expr_stringified(&arr, false),
        "0102030405060708_09".chars().collect::<Vec<char>>()
    );
}

#[test]
fn stringified_paths_join_segments() {
    let p = ListExpr::PathExpr {
        leading_colon: false,
        segments: vec!["std".chars().collect(), "u8".chars().collect()],
    };
    assert_eq!(expr_stringified(&p, false), "std_u8".chars().collect::<Vec<char>>());
    let q = ListExpr::PathExpr {
        leading_colon: true,
        segments: vec!["root".chars().collect()],
    };
    assert_eq!(expr_stringified(&q, false), "_root".chars().collect::<Vec<char>>());
}

#[test]
fn stringified_references_are_transparent() {
    let r = ListExpr::Reference(Box::new(ListExpr::IntLit(7)));
    assert_eq!(
        expr_stringified(&r, false),
        "0000000007".chars().collect::<Vec<char>>()
    );
}

#[test]
fn clipping_respects_character_boundaries() {
    let ascii = str_to_chars("abcdef");
    assert!(check_clip_clean(&ascii, 3));
    assert_eq!(clip_chars(&ascii, 3), vec!['a', 'b', 'c']);
    assert!(check_clip_clean(&ascii, 10));
    assert_eq!(clip_chars(&ascii, 10).len(), 6);

    let accented = str_to_chars("aé");
    assert!(!check_clip_clean(&accented, 2));
    assert_eq!(clip_chars(&accented, 2), vec!['a']);
    assert!(check_clip_clean(&accented, 3));
}
