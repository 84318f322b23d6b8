use lsp_msg::id::RequestId;

#[test]
fn numeric_and_text_ids_differ() {
    let a = RequestId::from(92);
    let b = RequestId::from("92".to_string());
    assert!(a != b);
    assert_eq!(a.to_string(), "92");
    assert_eq!(b.to_string(), "\"92\"");
    assert_eq!(RequestId::from(-7).to_string(), "-7");
}

#[test]
fn equal_ids_compare_equal() {
    assert!(RequestId::from(3) == RequestId::from(3));
    assert!(RequestId::from("x".to_string()) == RequestId::from("x".to_string()));
    assert!(RequestId::from(3) != RequestId::from(4));
}

#[test]
fn only_numeric_ids_give_an_integer() {
    assert_eq!(RequestId::from(5).as_i32(), Some(5));
    assert_eq!(RequestId::from("5".to_string()).as_i32(), None);
}

#[test]
fn text_id_display_escapes_quotes() {
    assert_eq!(RequestId::from("a\"b".to_string()).to_string(), "\"a\\\"b\"");
}
