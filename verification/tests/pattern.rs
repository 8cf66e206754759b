use mofox_ui::pattern::escape;

#[test]
fn escape_puts_a_backslash_before_each_meta_character() {
    assert_eq!(escape("a.b"), r"a\.b");
    assert_eq!(escape(r"\.+*?()|[]{}^$#&-~"), r"\\\.\+\*\?\(\)\|\[\]\{\}\^\$\#\&\-\~");
    assert_eq!(escape("plain_name9"), "plain_name9");
    assert_eq!(escape(""), "");
    assert_eq!(escape("注 释"), "注 释");
}

#[test]
fn escape_agrees_with_the_pattern_engine() {
    let mut n: u32 = 0;
    while n < 0x3000 {
        if let Some(c) = char::from_u32(n) {
            let s = format!("a{}b{}", c, c);
            assert_eq!(escape(&s), regex::escape(&s));
        }
        n += 1;
    }
    for s in ["", "server.port", "[[p]]", "a-b~c&d", "x^2 + y^2 = $z", "{n,m}", "\\d+"] {
        assert_eq!(escape(s), regex::escape(s));
    }
}

#[test]
fn escaped_name_is_matched_as_it_is() {
    for name in ["a.b", "a+b", "x[0]", "p(q)", "a|b", "c^d$", "{k}", "w?", "s*"] {
        let re = regex::Regex::new(&format!("^{}$", escape(name))).unwrap();
        assert!(re.is_match(name));
        assert!(!re.is_match("axb"));
        assert!(!re.is_match(""));
    }
}
