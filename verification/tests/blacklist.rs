use mtime_tools::text::{char_is_whitespace, to_chars};
use mtime_tools::{load_do_not_delete_set, Blacklist};

#[test]
fn lines_are_trimmed_and_duplicates_collapse() {
    let text = "  /data/a.txt  \n/data/b.txt\r\n/data/a.txt\n\t/data/c d.txt\u{00A0}\n";
    let list = load_do_not_delete_set(text);
    assert_eq!(list.len(), 3);
    assert!(list.contains("/data/a.txt"));
    assert!(list.contains("/data/b.txt"));
    assert!(list.contains("/data/c d.txt"));
    assert!(!list.contains("  /data/a.txt  "));
    assert!(!list.contains("/data/b.txt\r"));
    assert!(!list.contains("/data/c"));
    assert!(!list.contains(""));
}

#[test]
fn blank_lines_name_the_empty_path() {
    let list = load_do_not_delete_set("/x\n\n   \n/y\n");
    assert_eq!(list.len(), 3);
    assert!(list.contains(""));
    assert!(list.contains("/x"));
    assert!(list.contains("/y"));
}

#[test]
fn empty_text_names_nothing() {
    let list = load_do_not_delete_set("");
    assert_eq!(list.len(), 0);
    assert!(!list.contains(""));
}

#[test]
fn a_lone_line_feed_is_one_blank_line() {
    let list = load_do_not_delete_set("\n");
    assert_eq!(list.len(), 1);
    assert!(list.contains(""));
}

#[test]
fn last_line_needs_no_line_feed() {
    let list = load_do_not_delete_set("/first\n/last");
    assert_eq!(list.len(), 2);
    assert!(list.contains("/first"));
    assert!(list.contains("/last"));
}

#[test]
fn nothing_follows_a_final_line_feed() {
    let with = load_do_not_delete_set("/only\n");
    assert_eq!(with.len(), 1);
    assert!(!with.contains(""));
}

#[test]
fn white_space_inside_a_path_stays() {
    let list = load_do_not_delete_set(" /my  files/a b.txt \n");
    assert!(list.contains("/my  files/a b.txt"));
    assert!(!list.contains("/my files/a b.txt"));
}

#[test]
fn paths_with_letters_beyond_ascii() {
    let list = load_do_not_delete_set("\u{3000}/données/über.txt\u{2003}\n/数据/文件\n");
    assert_eq!(list.len(), 2);
    assert!(list.contains("/données/über.txt"));
    assert!(list.contains("/数据/文件"));
}

#[test]
fn insert_tells_whether_the_path_was_new() {
    let mut list = Blacklist::new();
    assert_eq!(list.len(), 0);
    assert!(list.insert("/a"));
    assert!(!list.insert("/a"));
    assert!(list.insert("/a "));
    assert_eq!(list.len(), 2);
    assert!(list.contains("/a"));
    assert!(list.contains("/a "));
    assert!(!list.contains("/b"));
}

#[test]
fn white_space_is_what_the_standard_library_calls_white_space() {
    let mut code: u32 = 0;
    while code <= 0x10FFFF {
        if let Some(c) = char::from_u32(code) {
            assert_eq!(char_is_whitespace(c), c.is_whitespace(), "U+{:04X}", code);
        }
        code += 1;
    }
}

#[test]
fn loading_agrees_with_trimmed_standard_lines() {
    let texts = [
        "",
        "\n",
        "\r\n",
        "a",
        "a\n",
        "a\r\n b \r\n\r\nc\u{0085}",
        " \t x y \u{2028}\nz\r",
        "\n\n\n",
        "one\ntwo\n\nthree  \n  four",
    ];
    for text in texts {
        let list = load_do_not_delete_set(text);
        let mut expected: Vec<String> = Vec::new();
        for line in text.lines() {
            let path = line.trim().to_string();
            if !expected.contains(&path) {
                expected.push(path);
            }
        }
        assert_eq!(list.len(), expected.len(), "{:?}", text);
        for path in &expected {
            assert!(list.contains(path), "{:?} in {:?}", path, text);
        }
    }
}

#[test]
fn a_long_list_is_loaded_whole() {
    let mut text = String::new();
    for i in 0..20_000 {
        text.push_str(&format!("  /data/dir{}/file{}.bin \r\n", i % 100, i));
    }
    let list = load_do_not_delete_set(&text);
    assert_eq!(list.len(), 20_000);
    assert!(list.contains("/data/dir7/file19907.bin"));
    assert!(!list.contains("/data/dir8/file19907.bin"));
}

#[test]
fn characters_come_out_in_order() {
    assert_eq!(to_chars(""), Vec::<char>::new());
    assert_eq!(to_chars("a/é\n"), vec!['a', '/', 'é', '\n']);
}
