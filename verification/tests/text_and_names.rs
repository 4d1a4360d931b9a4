use stickle::names::{extension_is, lex_less, sorted};
use stickle::text::{
    cat3, chars_of, decimal_text, find_in_chars, join, lines, not_blank, parse_u32_in, split_chars,
    trimmed, words,
};

fn strings(items: &[&str]) -> Vec<String> {
    items.iter().map(|s| s.to_string()).collect()
}

#[test]
fn lines_drop_carriage_returns_and_the_final_break() {
    assert_eq!(lines("a\r\nb\n\nc\n"), strings(&["a", "b", "", "c"]));
    assert_eq!(lines(""), Vec::<String>::new());
    assert_eq!(lines("tail\r"), strings(&["tail\r"]));
}

#[test]
fn words_split_on_any_white_space() {
    assert_eq!(words("  dotnet\t8.0.100  [x] "), strings(&["dotnet", "8.0.100", "[x]"]));
    assert!(words(" \n ").is_empty());
}

#[test]
fn trimmed_and_blank_follow_std() {
    assert_eq!(trimmed("\u{a0} a b \n"), "a b");
    assert!(!not_blank(" \t\r\n"));
    assert!(not_blank("  x"));
}

#[test]
fn join_and_concatenate() {
    assert_eq!(join(&strings(&["a", "b", "c"]), ", "), "a, b, c");
    assert_eq!(join(&Vec::new(), ", "), "");
    assert_eq!(cat3("x", "-", "y"), "x-y");
}

#[test]
fn decimal_text_writes_numbers() {
    assert_eq!(decimal_text(0), "0");
    assert_eq!(decimal_text(1234567890), "1234567890");
    assert_eq!(decimal_text(u64::MAX), u64::MAX.to_string());
}

#[test]
fn parse_u32_in_reads_a_range_like_from_str() {
    let cs = chars_of("x+42y4294967296");
    assert_eq!(parse_u32_in(&cs, 1, 4), Some(42));
    assert_eq!(parse_u32_in(&cs, 5, 15), None);
    assert_eq!(parse_u32_in(&cs, 1, 2), None);
    assert_eq!(parse_u32_in(&cs, 0, 0), None);
    let max = chars_of("4294967295");
    assert_eq!(parse_u32_in(&max, 0, max.len()), Some(u32::MAX));
}

#[test]
fn find_and_split_in_characters() {
    let cs = chars_of("net8.0;net6.0;;x");
    let pat = chars_of(";");
    assert_eq!(find_in_chars(&cs, &pat, 0), Some(6));
    assert_eq!(find_in_chars(&cs, &pat, 7), Some(13));
    assert_eq!(find_in_chars(&cs, &chars_of("zz"), 0), None);
    assert_eq!(split_chars(&cs, 0, cs.len(), ';'), strings(&["net8.0", "net6.0", "", "x"]));
    assert_eq!(split_chars(&cs, 0, 0, ';'), strings(&[""]));
}

#[test]
fn extension_is_ignores_ascii_case() {
    assert!(extension_is("Tests.CSPROJ", "csproj"));
    assert!(extension_is("main.st", "st"));
    assert!(extension_is(".hidden.st", "st"));
    assert!(!extension_is(".st", "st"));
    assert!(!extension_is("main.sta", "st"));
    assert!(!extension_is("st", "st"));
    assert!(!extension_is("a.st.bak", "st"));
}

#[test]
fn lex_less_orders_by_code_points() {
    assert!(lex_less("a", "b"));
    assert!(lex_less("ab", "abc"));
    assert!(!lex_less("abc", "ab"));
    assert!(!lex_less("same", "same"));
    assert!(lex_less("Z", "a"));
}

#[test]
fn sorted_matches_std_sort() {
    let input = strings(&["b.st", "a.st", "B.st", "a.st", "ab.st", ""]);
    let mut expected = input.clone();
    expected.sort();
    assert_eq!(sorted(input), expected);
    assert!(sorted(Vec::new()).is_empty());
}
