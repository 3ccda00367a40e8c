use invoice_mapping::scanner::placeholder_token;
use invoice_mapping::scanner::scan_placeholders;
use invoice_mapping::text::replace_first;
use invoice_mapping::text::str_eq;

#[test]
fn template_regex() {
    let str_1 = "test test test";
    let str_2 = "test ${test} test";
    let str_3 = "test ${test} ${test";
    let str_4 = "test} ${test} ${test";
    let str_5 = "test} ${test} ${test2} fg";

    let cap_1 = scan_placeholders(str_1);
    assert!(cap_1.is_empty());

    let cap_2 = scan_placeholders(str_2);
    assert_eq!(cap_2.len(), 1);
    assert_eq!(placeholder_token(&cap_2[0]), "${test}");
    assert_eq!(&cap_2[0], "test");

    let cap_3 = scan_placeholders(str_3);
    assert_eq!(cap_3.len(), 1);
    assert_eq!(placeholder_token(&cap_3[0]), "${test}");
    assert_eq!(&cap_3[0], "test");

    let cap_4 = scan_placeholders(str_4);
    assert_eq!(cap_4.len(), 1);
    assert_eq!(placeholder_token(&cap_4[0]), "${test}");
    assert_eq!(&cap_4[0], "test");

    let cap_5 = scan_placeholders(str_5);
    assert_eq!(cap_5.len(), 2);
    assert_eq!(placeholder_token(&cap_5[0]), "${test}");
    assert_eq!(&cap_5[0], "test");
    assert_eq!(&cap_5[1], "test2");
}

#[test]
fn scanner_edge_cases() {
    // An unterminated `${` yields no match.
    assert!(scan_placeholders("${abc").is_empty());
    // A `$` inside the braces cancels the match at that position.
    assert!(scan_placeholders("${a$b}").is_empty());
    // ... but a later well-formed placeholder is still found.
    assert_eq!(scan_placeholders("${a${b}"), vec![String::from("b")]);
    // An empty alias is a match.
    assert_eq!(scan_placeholders("${}"), vec![String::from("")]);
    // A stray closing brace is ignored.
    assert_eq!(scan_placeholders("}${x}}"), vec![String::from("x")]);
    // A doubled dollar still opens a placeholder at the second `$`.
    assert_eq!(scan_placeholders("$${x}"), vec![String::from("x")]);
    // Matches do not overlap and come in order of appearance.
    assert_eq!(
        scan_placeholders("a${one}${two}b${three}"),
        vec![
            String::from("one"),
            String::from("two"),
            String::from("three")
        ]
    );
}

#[test]
fn replace_first_occurrence_only() {
    assert_eq!(replace_first("a${x}b${x}", "${x}", "Z"), "aZb${x}");
    assert_eq!(replace_first("no match here", "${x}", "Z"), "no match here");
    assert_eq!(replace_first("${x}", "${x}", ""), "");
    // Replaced text is not rescanned by a later replacement.
    let once = replace_first("${a} ${b}", "${a}", "${b}");
    assert_eq!(once, "${b} ${b}");
    let twice = replace_first(&once, "${b}", "v");
    assert_eq!(twice, "v ${b}");
}

#[test]
fn str_eq_compares_characters() {
    assert!(str_eq("", ""));
    assert!(str_eq("héllo", "héllo"));
    assert!(!str_eq("a", "ab"));
    assert!(!str_eq("ab", "aB"));
}
