use roxy_cli::text::{chars_of, string_of};

#[test]
fn chars_of_lists_characters_in_order() {
    assert_eq!(chars_of("a/é*"), vec!['a', '/', 'é', '*']);
    assert_eq!(chars_of(""), Vec::<char>::new());
}

#[test]
fn string_of_puts_characters_together() {
    assert_eq!(string_of(&vec!['a', '/', 'é', '*']), "a/é*");
    assert_eq!(string_of(&Vec::new()), "");
    assert_eq!(string_of(&chars_of("site/posts/ü.md")), "site/posts/ü.md");
}
