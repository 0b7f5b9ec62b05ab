use aish::text::{
    chars_of, clone_strings, contains, decimal, ends_with, item_slice, join, lines,
    signed_decimal, slice_of, split, starts_with, str_eq, string_of, take_chars, trim,
    trim_chars, trim_marked, whitespace_marks,
};

#[test]
fn strings_and_characters_convert_both_ways() {
    assert_eq!(chars_of("héy"), vec!['h', 'é', 'y']);
    assert_eq!(chars_of(""), Vec::<char>::new());
    assert_eq!(string_of(&vec!['a', 'ß', 'c']), "aßc");
    assert_eq!(slice_of(&vec!['a', 'b', 'c', 'd'], 1, 3), vec!['b', 'c']);
    assert_eq!(slice_of(&vec!['a'], 1, 1), Vec::<char>::new());
    assert!(str_eq("ab", "ab"));
    assert!(!str_eq("ab", "abc"));
    assert!(!str_eq("ab", "aB"));
    assert!(str_eq("", ""));
    assert_eq!(clone_strings(&vec!["a".to_string(), "b".to_string(), "c".to_string()], 1), vec!["b", "c"]);
    assert_eq!(clone_strings(&vec!["a".to_string()], 1), Vec::<String>::new());
}

#[test]
fn numerals() {
    for n in [0usize, 1, 9, 10, 11, 99, 100, 1000, 123456789, usize::MAX] {
        assert_eq!(decimal(n), n.to_string());
    }
    for n in [0i32, 5, -5, 10, -10, i32::MAX, i32::MIN, -1] {
        assert_eq!(signed_decimal(n), n.to_string());
    }
}

#[test]
fn trimming_is_as_in_the_standard_library() {
    for text in ["", " ", "a", " a", "a ", "  a b  ", "\t\na\r\n", "\u{a0}x\u{2003}", " \u{3000} ", "a\u{200b}"] {
        assert_eq!(trim(text), text.trim(), "for {:?}", text);
    }
    assert_eq!(trim_chars(&vec![' ', 'x', ' ']), vec!['x']);
}

#[test]
fn splitting_is_as_in_the_standard_library() {
    for text in ["", "a", "a,b", ",", "a,", ",a", "a,,b", ",,"] {
        let expected: Vec<&str> = text.split(',').collect();
        assert_eq!(split(text, ','), expected, "for {:?}", text);
    }
}

#[test]
fn lines_are_as_in_the_standard_library() {
    for text in ["", "a", "a\n", "a\nb", "\n", "\n\n", "a\r\n", "a\r\nb", "a\r", "\r", "\r\n\r\n", "a\n\r", "a\r\r\n"] {
        let expected: Vec<&str> = text.lines().collect();
        assert_eq!(lines(text), expected, "for {:?}", text);
    }
}

#[test]
fn joining_is_as_in_the_standard_library() {
    for pieces in [vec![], vec!["a"], vec!["a", "b"], vec!["", "", ""], vec!["x", "", "y"]] {
        let owned: Vec<String> = pieces.iter().map(|p| p.to_string()).collect();
        assert_eq!(join(&owned, "\n"), pieces.join("\n"));
        assert_eq!(join(&owned, ", "), pieces.join(", "));
        assert_eq!(join(&owned, ""), pieces.join(""));
    }
}

#[test]
fn prefixes_suffixes_and_parts() {
    for (text, part) in [("", ""), ("a", ""), ("", "a"), ("abc", "ab"), ("abc", "bc"), ("abc", "abc"), ("abc", "abcd"), ("abc", "b"), ("aab", "ab"), ("é.md", ".md")] {
        assert_eq!(starts_with(text, part), text.starts_with(part), "for {:?} {:?}", text, part);
        assert_eq!(ends_with(text, part), text.ends_with(part), "for {:?} {:?}", text, part);
        assert_eq!(contains(text, part), text.contains(part), "for {:?} {:?}", text, part);
    }
    assert!(contains("Tool x failed: y", "failed:"));
    assert!(!contains("Tool x executed", "failed:"));
}

#[test]
fn taking_characters() {
    assert_eq!(take_chars("héllo", 2), "hé");
    assert_eq!(take_chars("abc", 3), "abc");
    assert_eq!(take_chars("abc", 10), "abc");
    assert_eq!(take_chars("abc", 0), "");
}

#[test]
fn marked_characters_are_cut_at_both_ends_only() {
    let items = vec![('a', true), ('b', true), ('c', false), ('d', true), ('e', false), ('f', true)];
    assert_eq!(trim_marked(&items), vec!['c', 'd', 'e']);
    assert_eq!(trim_marked(&vec![('a', true), ('b', true)]), Vec::<char>::new());
    assert_eq!(trim_marked(&vec![]), Vec::<char>::new());
    assert_eq!(trim_marked(&vec![('x', false)]), vec!['x']);
    assert_eq!(trim_marked(&vec![(' ', false), ('x', true), (' ', false)]), vec![' ', 'x', ' ']);
    assert_eq!(item_slice(&items, 1, 4), vec!['b', 'c', 'd']);
    assert_eq!(item_slice(&items, 2, 2), Vec::<char>::new());
    assert_eq!(
        whitespace_marks(&vec![' ', 'a', '\t', '\u{a0}', '_']),
        vec![(' ', true), ('a', false), ('\t', true), ('\u{a0}', true), ('_', false)]
    );
}
