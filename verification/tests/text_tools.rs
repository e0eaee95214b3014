use nano_image_server::text::chars_of;
use nano_image_server::text::find;
use nano_image_server::text::same_text;
use nano_image_server::text::starts_with;

#[test]
fn same_text_compares_characters() {
    assert!(same_text("", ""));
    assert!(same_text("None", "None"));
    assert!(!same_text("None", "none"));
    assert!(!same_text("None", "Non"));
    assert!(!same_text("Non", "None"));
    assert!(same_text("gr\u{fc}n", "gr\u{fc}n"));
    assert!(!same_text("gr\u{fc}n", "grun"));
}

#[test]
fn chars_of_keeps_order_and_counts_characters() {
    assert_eq!(chars_of(""), Vec::<char>::new());
    assert_eq!(chars_of("a.b"), vec!['a', '.', 'b']);
    assert_eq!(chars_of("\u{e9}t\u{e9}"), vec!['\u{e9}', 't', '\u{e9}']);
}

#[test]
fn starts_with_checks_the_prefix() {
    let text = chars_of("Bearer abc");
    assert!(starts_with(&text, &chars_of("Bearer ")));
    assert!(starts_with(&text, &chars_of("")));
    assert!(starts_with(&text, &text));
    assert!(!starts_with(&text, &chars_of("bearer ")));
    assert!(!starts_with(&chars_of("Bear"), &chars_of("Bearer ")));
}

#[test]
fn find_gives_the_first_place() {
    let text = chars_of("a.b.c");
    assert_eq!(find(&text, '.', 0), Some(1));
    assert_eq!(find(&text, '.', 1), Some(1));
    assert_eq!(find(&text, '.', 2), Some(3));
    assert_eq!(find(&text, '.', 4), None);
    assert_eq!(find(&text, '.', 5), None);
    assert_eq!(find(&text, '.', 50), None);
    assert_eq!(find(&text, 'x', 0), None);
}
