use nature_db::instance::FromInstance;
use nature_db::meta::Meta;
use nature_db::selector::{context_insert, context_value, contains_key, contains_name};
use nature_db::text::{join_strings, split_by_str, split_str, str_chars};

#[test]
fn splitting() {
    assert_eq!(split_str("a,,b", ','), vec!["a", "", "b"]);
    assert_eq!(split_str("", ','), vec![""]);
    assert_eq!(split_by_str("a::b::", "::"), vec!["a", "b", ""]);
    assert_eq!(split_by_str("a:b", "::"), vec!["a:b"]);
    assert_eq!(split_by_str("abc", ""), vec!["abc"]);
    assert_eq!(join_strings(&vec!["x".to_string(), "y".to_string()], "--"), "x--y");
    assert_eq!(join_strings(&vec![], "--"), "");
    let c = str_chars("héllo");
    assert_eq!(c, vec!['h', 'é', 'l', 'l', 'o']);
}

#[test]
fn contexts_keep_the_last_value() {
    let mut ctx = vec![("a".to_string(), "1".to_string())];
    assert!(contains_key(&ctx, &"a".to_string()));
    assert!(!contains_key(&ctx, &"b".to_string()));
    context_insert(&mut ctx, "a".to_string(), "2".to_string());
    assert_eq!(ctx.len(), 1);
    assert_eq!(context_value(&ctx, "a"), Some("2".to_string()));
    assert_eq!(context_value(&ctx, "b"), None);
    assert!(contains_name(&vec!["x".to_string()], &"x".to_string()));
}

#[test]
fn numbers_inside_keys() {
    // decimal versions: sign, range
    assert_eq!(Meta::from_string("B:k:+12").unwrap().version, 12);
    assert_eq!(Meta::from_string("B:k:-2147483648").unwrap().version, i32::MIN);
    assert!(Meta::from_string("B:k:2147483648").is_err());
    assert!(Meta::from_string("B:k:1a").is_err());
    assert!(Meta::from_string("B:k:").is_err());
    // hexadecimal ids: either case, an optional `+`
    assert_eq!(FromInstance::from_str("m|FF|p|0").unwrap().id, 255);
    assert_eq!(FromInstance::from_str("m|+a|p|0").unwrap().id, 10);
    assert!(FromInstance::from_str("m|g|p|0").is_err());
    assert!(FromInstance::from_str("m|-1|p|0").is_err());
    assert_eq!(FromInstance::from_str("m|ffffffffffffffffffffffffffffffff|p|0").unwrap().id, u128::MAX);
    assert!(FromInstance::from_str("m|100000000000000000000000000000000|p|0").is_err());
    // the text written for an id and a version
    let f = FromInstance { id: u128::MAX, meta: "m".to_string(), para: "p".to_string(), state_version: i32::MIN };
    assert_eq!(f.to_string(), "m|ffffffffffffffffffffffffffffffff|p|-2147483648");
}
