use test_generator::expand::{
    bench_expand_list, bench_resources, expand_bench_resources, expand_glob, expand_test_list,
    expand_test_paths, expand_test_resources, glob_expand, test_expand_list, test_expand_paths,
    test_resources, ExpandError,
};
use test_generator::expr::ListExpr;
use test_generator::globfs::PathEntry;
use test_generator::parse::ParseError;

#[test]
fn test_resources_generates_one_item_per_path() {
    let func = "fn verify_resource(resource: &str) { assert!(true); }";
    let entries = vec![
        PathEntry::Found("res/set1/input.txt".to_string()),
        PathEntry::Found("res/set2/input.txt".to_string()),
    ];
    let out = expand_test_resources("verify_resource", func, &entries).unwrap();
    let expected = format!(
        "{}\n{}{}",
        func,
        "#[test]\n#[allow(non_snake_case)]\nfn verify_resource_res_set1_input_txt() {\n    \
         verify_resource(\"res/set1/input.txt\".into());\n}\n",
        "#[test]\n#[allow(non_snake_case)]\nfn verify_resource_res_set2_input_txt() {\n    \
         verify_resource(\"res/set2/input.txt\".into());\n}\n"
    );
    assert_eq!(out, expected);
}

#[test]
fn bench_resources_items_take_a_bencher() {
    let func = "fn measure(b: &mut test::Bencher, resource: &str) {}";
    let entries = vec![PathEntry::Found("res/set1".to_string())];
    let out = expand_bench_resources("measure", func, &entries).unwrap();
    let expected = format!(
        "{}\n{}",
        func,
        "#[bench]\n#[allow(non_snake_case)]\nfn measure_res_set1(b: &mut test::Bencher) {\n    \
         measure(b, \"res/set1\".into());\n}\n"
    );
    assert_eq!(out, expected);
}

#[test]
fn resources_expansion_rejects_an_empty_match() {
    let entries: Vec<PathEntry> = Vec::new();
    assert_eq!(
        expand_test_resources("t", "fn t(x: &str) {}", &entries),
        Err(ExpandError::NoMatch)
    );
}

#[test]
fn resources_expansion_reports_the_first_bad_entry() {
    let entries = vec![
        PathEntry::Found("ok".to_string()),
        PathEntry::ReadFailure("permission denied".to_string()),
        PathEntry::NotUtf8("later".to_string()),
    ];
    assert_eq!(
        expand_test_resources("t", "fn t(x: &str) {}", &entries),
        Err(ExpandError::Unreadable("permission denied".to_string()))
    );
    let entries2 = vec![
        PathEntry::NotUtf8("first".to_string()),
        PathEntry::ReadFailure("later".to_string()),
    ];
    assert_eq!(
        expand_test_resources("t", "fn t(x: &str) {}", &entries2),
        Err(ExpandError::NotUtf8)
    );
    let entries3 = vec![
        PathEntry::Found("bad(name".to_string()),
        PathEntry::ReadFailure("later".to_string()),
    ];
    assert_eq!(
        expand_test_resources("t", "fn t(x: &str) {}", &entries3),
        Err(ExpandError::InvalidIdent)
    );
}

#[test]
fn glob_expansion_prefixes_gen() {
    let entries = vec![PathEntry::Found("data/set-1".to_string())];
    let out = expand_glob("test_exists", &entries).unwrap();
    assert_eq!(
        out,
        "#[test]\nfn gen_data_set_1() {\n    let f = test_exists;\n    f(\"data/set-1\");\n}\n"
    );
}

#[test]
fn glob_expansion_rejects_a_dotted_name() {
    let entries = vec![PathEntry::Found("data/set-1.d".to_string())];
    assert_eq!(expand_glob("test_exists", &entries), Err(ExpandError::InvalidIdent));
}

#[test]
fn paths_expansion_keeps_wide_name_characters() {
    let entries = vec![PathEntry::Found("res/caf\u{00e9}".to_string())];
    let out = expand_test_paths("test_exists", &entries).unwrap();
    assert_eq!(
        out,
        "#[test]\nfn test_exists_res_caf\u{00e9}() {\n    \
         test_exists(\"res/caf\u{00e9}\");\n}\n"
    );
}

#[test]
fn glob_expansion_of_nothing_is_empty() {
    let entries: Vec<PathEntry> = Vec::new();
    assert_eq!(expand_glob("f", &entries).unwrap(), "");
}

#[test]
fn paths_expansion_names_tests_after_the_path() {
    let entries = vec![PathEntry::Found("res/set1".to_string())];
    let out = expand_test_paths("test_exists", &entries).unwrap();
    assert_eq!(
        out,
        "#[test]\nfn test_exists_res_set1() {\n    test_exists(\"res/set1\");\n}\n"
    );
}

#[test]
fn list_expansion_embeds_each_element() {
    let elems = vec![ListExpr::IntLit(10), ListExpr::IntLit(100)];
    let out = expand_test_list("test_size", &elems).unwrap();
    assert_eq!(
        out,
        "#[test]\nfn test_size_0000000010() {\n    let local = &10;\n    test_size(local);\n}\n\
         #[test]\nfn test_size_0000000100() {\n    let local = &100;\n    test_size(local);\n}\n"
    );
}

#[test]
fn list_expansion_renders_arrays_in_hex_groups() {
    let out = test_expand_list("test_array_size; [ [1, 2, 3, 4], [250, 251, 252, 253, 254, 255, 0, 1, 2] ]")
        .unwrap();
    let expected = format!(
        "{}{}",
        "#[test]\nfn test_array_size_01020304() {\n    let local = &[1, 2, 3, 4];\n    \
         test_array_size(local);\n}\n",
        "#[test]\nfn test_array_size_fafbfcfdfeff0001_02() {\n    let local = \
         &[250, 251, 252, 253, 254, 255, 0, 1, 2];\n    test_array_size(local);\n}\n"
    );
    assert_eq!(out, expected);
}

#[test]
fn list_expansion_keeps_references_bare() {
    let out = test_expand_list("test_array_size; [ &VEC1, &VEC2 ]").unwrap();
    let expected = format!(
        "{}{}",
        "#[test]\nfn test_array_size_VEC1() {\n    let local = &VEC1;\n    \
         test_array_size(local);\n}\n",
        "#[test]\nfn test_array_size_VEC2() {\n    let local = &VEC2;\n    \
         test_array_size(local);\n}\n"
    );
    assert_eq!(out, expected);
}

#[test]
fn list_expansion_embeds_strings_with_quotes() {
    let out = test_expand_list("test_string_size; [ \"hallo\" ]").unwrap();
    assert_eq!(
        out,
        "#[test]\nfn test_string_size_hallo() {\n    let local = &\"hallo\";\n    \
         test_string_size(local);\n}\n"
    );
}

#[test]
fn bench_list_expansion_takes_a_bencher() {
    let out = bench_expand_list("bench_size; [ 10 ]").unwrap();
    assert_eq!(
        out,
        "#[bench]\nfn bench_size_0000000010(bencher: &mut test::Bencher) {\n    let local = \
         &10;\n    bench_size(bencher, local);\n}\n"
    );
}

#[test]
fn list_expansion_rejects_an_illegal_name() {
    assert_eq!(
        test_expand_list("t; [ \"a+b\" ]"),
        Err(ExpandError::InvalidIdent)
    );
}

#[test]
fn list_expansion_rejects_a_clip_inside_a_character() {
    let long = "x".repeat(99);
    let input = format!("t; [ \"{}\u{00e9}zzz\" ]", long);
    assert_eq!(test_expand_list(&input), Err(ExpandError::SplitsChar));
}

#[test]
fn list_expansion_clips_long_ascii_content() {
    let long = "x".repeat(150);
    let input = format!("t; [ \"{}\" ]", long);
    let out = test_expand_list(&input).unwrap();
    let name: String = format!("t_{}", "x".repeat(100));
    assert!(out.contains(&name));
    assert!(!out.contains(&format!("t_{}", "x".repeat(101))));
}

#[test]
fn raw_inputs_report_grammar_errors() {
    assert_eq!(
        test_resources("42", "fn t(x: &str) {}"),
        Err(ExpandError::BadInput(ParseError::ExpectedString))
    );
    assert_eq!(
        bench_resources("", "fn t(x: &str) {}"),
        Err(ExpandError::BadInput(ParseError::UnexpectedEnd))
    );
    assert_eq!(
        test_resources("\"p\"", "struct NotAFunction;"),
        Err(ExpandError::BadFunction)
    );
    assert_eq!(
        test_expand_list("t; 10"),
        Err(ExpandError::BadInput(ParseError::ExpectedArray))
    );
}

#[test]
fn raw_inputs_reject_invalid_patterns() {
    let r = test_resources("\"res/[\"", "fn t(x: &str) {}");
    assert!(matches!(r, Err(ExpandError::InvalidPattern(_))));
    let r2 = glob_expand("\"res/[\"; f");
    assert!(matches!(r2, Err(ExpandError::InvalidPattern(_))));
}

#[test]
fn raw_inputs_reject_patterns_matching_nothing() {
    assert_eq!(
        test_resources("\"no_such_dir_0q9z/*\"", "fn t(x: &str) {}"),
        Err(ExpandError::NoMatch)
    );
}

#[test]
fn raw_inputs_expand_a_real_match() {
    let out = test_resources("\"/\"", "fn check_file(p: &str) {}").unwrap();
    let expected = format!(
        "{}\n{}",
        "fn check_file(p: &str) {}",
        "#[test]\n#[allow(non_snake_case)]\nfn check_file__() {\n    \
         check_file(\"/\".into());\n}\n"
    );
    assert_eq!(out, expected);
    let out2 = test_expand_paths("check_file; \"/\"").unwrap();
    assert_eq!(out2, "#[test]\nfn check_file__() {\n    check_file(\"/\");\n}\n");
    let out3 = glob_expand("\"/\"; check_file").unwrap();
    assert_eq!(
        out3,
        "#[test]\nfn gen__() {\n    let f = check_file;\n    f(\"/\");\n}\n"
    );
}
