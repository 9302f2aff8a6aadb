use arch_repo_builder::text::{
    chars_of, compare_strs, concat2, concat3, contains_str, decimal, dedup_strings,
    lossy_lines, sort_by_name, sort_strings, sorted_unique, split_lines, strings_excluding, trim,
    Order,
};

fn strings(items: &[&str]) -> Vec<String> {
    items.iter().map(|s| s.to_string()).collect()
}

#[test]
fn chars_of_keeps_every_char() {
    assert_eq!(chars_of("aß€"), vec!['a', 'ß', '€']);
    assert_eq!(chars_of(""), Vec::<char>::new());
}

#[test]
fn compare_strs_orders_by_code_point() {
    assert_eq!(compare_strs("a", "b"), Order::Less);
    assert_eq!(compare_strs("b", "a"), Order::Greater);
    assert_eq!(compare_strs("abc", "abc"), Order::Equal);
    assert_eq!(compare_strs("ab", "abc"), Order::Less);
    assert_eq!(compare_strs("abc", "ab"), Order::Greater);
    assert_eq!(compare_strs("", ""), Order::Equal);
    assert_eq!(compare_strs("", "a"), Order::Less);
    assert_eq!(compare_strs("Z", "a"), Order::Less);
}

#[test]
fn compare_strs_agrees_with_the_order_of_str() {
    let samples = ["", "a", "ab", "b", "B", "é", "z", "€", "\u{10000}", "\u{FFFF}", "a-1", "a_1"];
    for a in samples.iter() {
        for b in samples.iter() {
            let expected = match a.cmp(b) {
                std::cmp::Ordering::Less => Order::Less,
                std::cmp::Ordering::Equal => Order::Equal,
                std::cmp::Ordering::Greater => Order::Greater,
            };
            assert_eq!(compare_strs(a, b), expected);
        }
    }
}

#[test]
fn contains_str_finds_equal_strings_only() {
    let list = strings(&["x", "y"]);
    assert!(contains_str(&list, "x"));
    assert!(contains_str(&list, "y"));
    assert!(!contains_str(&list, "z"));
    assert!(!contains_str(&Vec::new(), "x"));
}

#[test]
fn sort_strings_sorts_and_keeps_repeats() {
    assert_eq!(sort_strings(strings(&["b", "a", "c", "a"])), strings(&["a", "a", "b", "c"]));
    assert_eq!(sort_strings(Vec::new()), Vec::<String>::new());
}

#[test]
fn dedup_strings_drops_adjacent_repeats_only() {
    assert_eq!(dedup_strings(strings(&["a", "a", "b", "a", "a"])), strings(&["a", "b", "a"]));
    assert_eq!(dedup_strings(strings(&["a"])), strings(&["a"]));
    assert_eq!(dedup_strings(Vec::new()), Vec::<String>::new());
}

#[test]
fn sorted_unique_gives_each_string_once_in_order() {
    assert_eq!(
        sorted_unique(strings(&["gcc", "make", "gcc", "cmake", "make"])),
        strings(&["cmake", "gcc", "make"])
    );
}

#[test]
fn lossy_lines_skips_empty_lines() {
    assert_eq!(lossy_lines(b"a\n\nb\nc"), strings(&["a", "b", "c"]));
    assert_eq!(lossy_lines(b"\n\n"), Vec::<String>::new());
    assert_eq!(lossy_lines(b""), Vec::<String>::new());
    assert_eq!(lossy_lines(b"one line\n"), strings(&["one line"]));
}

#[test]
fn lossy_lines_replaces_malformed_bytes() {
    assert_eq!(lossy_lines(b"a\xFFb\nc"), strings(&["a\u{FFFD}b", "c"]));
}

#[test]
fn lossy_lines_decode_utf8() {
    assert_eq!(lossy_lines("grüße\n€".as_bytes()), strings(&["grüße", "€"]));
    assert_eq!(lossy_lines(b"\xC3"), strings(&["\u{FFFD}"]));
}

#[test]
fn trim_removes_white_space_at_both_ends() {
    assert_eq!(trim("  1.2.3\n"), "1.2.3");
    assert_eq!(trim("\t a b \r\n"), "a b");
    assert_eq!(trim("   "), "");
    assert_eq!(trim(""), "");
    assert_eq!(trim("x"), "x");
    assert_eq!(trim("\u{3000}x\u{85}"), "x");
}

#[test]
fn trim_agrees_with_str_trim_on_every_char() {
    let mut code: u32 = 0;
    while code <= 0x10FFFF {
        if let Some(c) = char::from_u32(code) {
            let text = format!("{}a{}", c, c);
            assert_eq!(trim(&text), text.trim());
        }
        code += 1;
    }
}

#[test]
fn decimal_writes_numerals() {
    assert_eq!(decimal(0), "0");
    assert_eq!(decimal(7), "7");
    assert_eq!(decimal(10), "10");
    assert_eq!(decimal(1000), "1000");
    assert_eq!(decimal(65534), "65534");
    assert_eq!(decimal(4294967295), "4294967295");
    assert_eq!(decimal(u64::MAX), "18446744073709551615");
}

#[test]
fn concat_joins_in_order() {
    assert_eq!(concat2("ab", "cd"), "abcd");
    assert_eq!(concat3("a", "", "c"), "ac");
}

#[test]
fn split_lines_cuts_at_line_feeds() {
    assert_eq!(split_lines(b"a\n\nbc\nd"), vec![b"a".to_vec(), b"bc".to_vec(), b"d".to_vec()]);
    assert_eq!(split_lines(b"\n"), Vec::<Vec<u8>>::new());
    assert_eq!(split_lines(b"x\r\n"), vec![b"x\r".to_vec()]);
    assert_eq!(split_lines(b"\xFF\n\xFE"), vec![vec![0xFFu8], vec![0xFEu8]]);
}

#[test]
fn sort_by_name_keeps_the_order_of_equal_names() {
    assert_eq!(sort_by_name(strings(&["b", "a", "c", "a"])), strings(&["a", "a", "b", "c"]));
    assert_eq!(sort_by_name(Vec::<String>::new()), Vec::<String>::new());
}

#[test]
fn strings_excluding_keeps_order_and_repeats() {
    assert_eq!(
        strings_excluding(&strings(&["a", "b", "a", "c"]), &strings(&["b", "x"])),
        strings(&["a", "a", "c"])
    );
    assert_eq!(strings_excluding(&Vec::new(), &strings(&["b"])), Vec::<String>::new());
}
