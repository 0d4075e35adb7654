use varlink_httpd::idl::{
    is_within_limit, method_names, methods_answer, MAX_OPEN_PARENS, MAX_TYPE_PREFIXES,
};
use varlink_httpd::text::{
    at_or_before, chain, decimal_text, join, same_text, signed_decimal_text, strip_prefix,
    strip_suffix, text_before_last, trim, with_cause,
};
use varlink_httpd::text_map::TextMap;

#[test]
fn white_space_is_trimmed_as_std_trims_it() {
    for text in [
        "", " ", "a", " a ", "\t\r\n a b \u{b}\u{c}", "\u{a0}x\u{2003}", "\u{200b}x\u{200b}",
        "\u{1680}\u{2028}\u{2029}\u{202f}\u{205f}\u{3000}\u{85}", "x\u{feff}",
    ] {
        assert_eq!(trim(text), text.trim(), "{text:?}");
    }
    for n in 0u32..0x11000 {
        if let Some(c) = char::from_u32(n) {
            assert_eq!(trim(&c.to_string()).is_empty(), c.is_whitespace(), "{n:x}");
        }
    }
}

#[test]
fn numbers_have_their_texts() {
    for n in [0u64, 7, 10, 99, 100, 65535, u64::MAX] {
        assert_eq!(decimal_text(n), n.to_string());
    }
    for n in [0i32, 5, -1, -10, i32::MAX, i32::MIN] {
        assert_eq!(signed_decimal_text(n), n.to_string());
    }
}

#[test]
fn texts_are_cut_and_joined() {
    assert_eq!(strip_prefix("gh:me", "gh:"), Some("me".to_string()));
    assert_eq!(strip_prefix("me", "gh:"), None);
    assert_eq!(strip_suffix("a.pub", ".pub"), Some("a".to_string()));
    assert_eq!(strip_suffix("pub", ".pub"), None);
    assert_eq!(text_before_last("a.b.c", '.'), Some("a.b".to_string()));
    assert_eq!(text_before_last("abc", '.'), None);
    let list = vec!["a".to_string(), String::new(), "c".to_string()];
    assert_eq!(join(&list, "; "), "a; ; c");
    assert_eq!(join(&vec![], "; "), "");
    assert_eq!(chain("a", "b"), "ab");
    assert_eq!(with_cause("a", "b"), "a: b");
    assert!(same_text("\u{e4}", "\u{e4}"));
    assert!(!same_text("a", "ab"));
}

#[test]
fn texts_are_ordered_as_std_orders_them() {
    let texts = ["", "a", "aa", "ab", "b", "B", "\u{e4}", "z\u{10000}", "z\u{ffff}"];
    for a in texts {
        for b in texts {
            assert_eq!(at_or_before(a, b), a <= b, "{a:?} {b:?}");
        }
    }
}

#[test]
fn maps_hold_one_value_per_key() {
    let mut map: TextMap<u8> = TextMap::new();
    assert_eq!(map.len(), 0);
    assert!(!map.insert("a".to_string(), 1));
    assert!(!map.insert("b".to_string(), 2));
    assert!(map.insert("a".to_string(), 3));
    assert_eq!(map.len(), 2);
    assert_eq!(map.entry(0), &("a".to_string(), 3));
    assert_eq!(map.keys(), vec!["a", "b"]);
}

#[test]
fn descriptions_name_their_methods() {
    let description = "# A service\ninterface org.example.Test\n\ntype Thing (a: int, b: ?string)\n\nmethod Zap() -> ()\nmethod Describe(name: string) -> (thing: Thing)\n\nerror Failed (why: string)\n";
    assert_eq!(method_names(description).unwrap(), vec!["Zap", "Describe"]);
    let error = method_names("interface nope").unwrap_err();
    assert_eq!(error.status.code(), 502);
    assert!(error.message.starts_with("upstream IDL parse error: "));
    assert_eq!(
        methods_answer(Err("x".to_string())).unwrap_err().message,
        "upstream IDL parse error: x"
    );
    assert_eq!(methods_answer(Ok(vec!["M".to_string()])).unwrap(), vec!["M"]);
}

const TOO_DEEP: &str = "upstream IDL parse error: types are nested too deeply";

/// A description with a method whose parameter is of the type.
fn with_type(ty: &str) -> String {
    format!("interface org.example.Test\nmethod Zap(a: {ty}) -> ()\n")
}

/// A type of so many structs in each other, each behind so many prefixes.
fn nested_type(structs: usize, prefixes: &str) -> String {
    let mut ty = format!("{prefixes}int");
    for _ in 0..structs {
        ty = format!("{prefixes}(a: {ty})");
    }
    ty
}

#[test]
fn types_may_have_prefixes_up_to_the_limit() {
    for prefix in ["[]", "[string]", "?[]"] {
        let symbols = prefix.matches(|c| c == '[' || c == '?').count();
        let most = prefix.repeat(MAX_TYPE_PREFIXES / symbols);
        let description = with_type(&format!("{most}int"));
        assert_eq!(method_names(&description).unwrap(), vec!["Zap"], "{prefix}");
        let description = with_type(&format!("{most}[]int"));
        assert!(!is_within_limit(&description));
        let error = method_names(&description).unwrap_err();
        assert_eq!(error.status.code(), 502);
        assert_eq!(error.message, TOO_DEEP);
    }
    let description = with_type(&format!("{}int", "[]".repeat(200_000)));
    assert_eq!(method_names(&description).unwrap_err().message, TOO_DEEP);
    let fields = vec!["a: ?[]int"; 1000].join(", ");
    assert_eq!(
        method_names(&with_type(&format!("({fields})"))).unwrap(),
        vec!["Zap"]
    );
}

#[test]
fn types_may_be_nested_up_to_the_limit() {
    // The parameter list is one more pair of parentheses.
    let deepest = nested_type(MAX_OPEN_PARENS - 1, "");
    assert_eq!(method_names(&with_type(&deepest)).unwrap(), vec!["Zap"]);
    let deeper = nested_type(MAX_OPEN_PARENS, "");
    assert_eq!(
        method_names(&with_type(&deeper)).unwrap_err().message,
        TOO_DEEP
    );
    let error = method_names(&with_type(&"(a: ".repeat(200_000))).unwrap_err();
    assert_eq!(error.message, TOO_DEEP);
    let many = "method Zap(a: (b: int)) -> (c: (d, e))\n".repeat(1000);
    let names = method_names(&format!("interface org.example.Test\n{many}")).unwrap();
    assert_eq!(names.len(), 1000);
}

#[test]
fn the_parser_follows_types_at_both_limits() {
    for prefix in ["[]", "[string]"] {
        let prefixes = prefix.repeat(MAX_TYPE_PREFIXES);
        let description = with_type(&nested_type(MAX_OPEN_PARENS - 1, &prefixes));
        assert!(is_within_limit(&description));
        assert_eq!(method_names(&description).unwrap(), vec!["Zap"]);
        // The same without its end, which no parser accepts.
        let broken = &description[..description.len() / 2];
        assert!(method_names(broken).is_err());
    }
}

#[test]
fn comments_do_not_nest() {
    let comment = format!("# {}\n{}", "(".repeat(100), with_type("int"));
    assert_eq!(method_names(&comment).unwrap(), vec!["Zap"]);
    let comment = format!("# {}\r\n{}", "?[".repeat(100), with_type("int"));
    assert_eq!(method_names(&comment).unwrap(), vec!["Zap"]);
    // A comment closes nothing, also where a carriage return might end it.
    let hidden = "(# )\n".repeat(MAX_OPEN_PARENS + 1);
    assert!(!is_within_limit(&hidden));
    let hidden = "(# \r)\n".repeat(MAX_OPEN_PARENS + 1);
    assert!(!is_within_limit(&hidden));
    let hidden = format!("# \r{}", "(".repeat(MAX_OPEN_PARENS + 1));
    assert!(!is_within_limit(&hidden));
    let hidden = format!("# \r{}", "[".repeat(MAX_TYPE_PREFIXES + 1));
    assert!(!is_within_limit(&hidden));
    assert!(is_within_limit(&")".repeat(1000)));
    assert!(is_within_limit(""));
}
