use helis::command::{blame_args, range_arg, split_path};
use helis::hover::plan_hover;
use helis::numfmt::u32_to_string;

#[test]
fn decimal_rendering_is_exact() {
    assert_eq!(u32_to_string(0), "0");
    assert_eq!(u32_to_string(7), "7");
    assert_eq!(u32_to_string(10), "10");
    assert_eq!(u32_to_string(42), "42");
    assert_eq!(u32_to_string(1234567890), "1234567890");
    assert_eq!(u32_to_string(u32::MAX), "4294967295");
}

#[test]
fn range_holds_the_line_at_both_ends() {
    assert_eq!(range_arg(1), "1,1");
    assert_eq!(range_arg(42), "42,42");
}

#[test]
fn protocol_line_is_translated_by_one() {
    // Zero-based protocol line 41 queries one-based line 42, once at each
    // end of the range.
    let query_line = plan_hover(41, 0).unwrap();
    assert_eq!(query_line, 42);
    let args = blame_args(query_line, "main.rs");
    assert_eq!(args[3], "42,42");
}

#[test]
fn blame_invocation_is_porcelain_and_single_line() {
    let args = blame_args(7, "lib.rs");
    assert_eq!(args, vec!["blame", "-p", "-L", "7,7", "lib.rs"]);
}

#[test]
fn split_path_separates_directory_and_file() {
    assert_eq!(
        split_path("/home/jane/src/main.rs"),
        Some((String::from("/home/jane/src"), String::from("main.rs")))
    );
}

#[test]
fn split_path_in_the_root_directory() {
    assert_eq!(
        split_path("/notes.txt"),
        Some((String::from("/"), String::from("notes.txt")))
    );
}

#[test]
fn split_path_without_file_name_fails() {
    assert_eq!(split_path("/home/jane/"), None);
    assert_eq!(split_path("/"), None);
    assert_eq!(split_path("/home/.."), None);
}

#[test]
fn split_path_keeps_unusual_names() {
    assert_eq!(
        split_path("/a/b/.hidden"),
        Some((String::from("/a/b"), String::from(".hidden")))
    );
    assert_eq!(
        split_path("/a/ütf-8 name.rs"),
        Some((String::from("/a"), String::from("ütf-8 name.rs")))
    );
}
