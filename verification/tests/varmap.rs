use oxidize::text::to_chars;
use oxidize::varmap::VarMap;

#[test]
fn insert_then_get() {
    let mut m = VarMap::new();
    assert_eq!(m.len(), 0);
    m.insert_str("a", "1");
    m.insert_str("b", "2");
    m.insert_str("a", "3");
    assert_eq!(m.len(), 2);
    assert_eq!(m.get_str("a").as_deref(), Some("3"));
    assert_eq!(m.get_str("b").as_deref(), Some("2"));
    assert_eq!(m.get_str("c"), None);
    assert!(m.contains_key(&to_chars("b")));
    assert!(!m.contains_key(&to_chars("c")));
    let mut pairs = m.pairs();
    pairs.sort();
    assert_eq!(pairs, vec![("a".to_owned(), "3".to_owned()), ("b".to_owned(), "2".to_owned())]);
}
