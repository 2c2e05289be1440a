use job_keywords::keywords::{KeywordSet, WEIGHT_UNIT};
use job_keywords::page::ExtractionResult;

fn set_of(pairs: &[(&str, u64)]) -> KeywordSet {
    let mut s = KeywordSet::new();
    for (k, w) in pairs {
        s.add(k.to_string(), *w);
    }
    s
}

fn sorted(s: &KeywordSet) -> Vec<(String, u64)> {
    let mut v = s.to_entries();
    v.sort();
    v
}

#[test]
fn merge_sums_shared_keyword() {
    let a = set_of(&[("x", WEIGHT_UNIT)]);
    let b = set_of(&[("x", 2 * WEIGHT_UNIT)]);
    let m = a.merge(b);
    assert_eq!(sorted(&m), vec![("x".to_string(), 3 * WEIGHT_UNIT)]);
}

#[test]
fn merge_is_commutative_on_values() {
    let ab = set_of(&[("a", 1), ("b", 2)]).merge(set_of(&[("b", 5), ("c", 7)]));
    let ba = set_of(&[("b", 5), ("c", 7)]).merge(set_of(&[("a", 1), ("b", 2)]));
    assert_eq!(sorted(&ab), sorted(&ba));
    assert_eq!(
        sorted(&ab),
        vec![("a".to_string(), 1), ("b".to_string(), 7), ("c".to_string(), 7)]
    );
}

#[test]
fn merge_is_associative_on_values() {
    let a = || set_of(&[("a", 1), ("b", 2)]);
    let b = || set_of(&[("b", 3)]);
    let c = || set_of(&[("a", 10), ("d", 4)]);
    let left = a().merge(b()).merge(c());
    let right = a().merge(b().merge(c()));
    assert_eq!(sorted(&left), sorted(&right));
    assert_eq!(left.weight(&"a".to_string()), Some(11));
}

#[test]
fn merge_with_empty_is_identity() {
    let a = set_of(&[("a", 1), ("b", 2)]);
    let m = a.merge(KeywordSet::new());
    assert_eq!(sorted(&m), vec![("a".to_string(), 1), ("b".to_string(), 2)]);
    let m2 = KeywordSet::new().merge(set_of(&[("a", 1)]));
    assert_eq!(m2.len(), 1);
}

#[test]
fn weights_saturate() {
    let m = set_of(&[("x", u64::MAX - 1)]).merge(set_of(&[("x", 5)]));
    assert_eq!(m.weight(&"x".to_string()), Some(u64::MAX));
}

#[test]
fn add_inserts_then_accumulates() {
    let mut s = KeywordSet::new();
    s.add("api".to_string(), 4);
    s.add("api".to_string(), 6);
    s.add("rust".to_string(), 1);
    assert_eq!(s.len(), 2);
    assert_eq!(s.weight(&"api".to_string()), Some(10));
    assert_eq!(s.weight(&"go".to_string()), None);
}

#[test]
fn from_entries_rejects_duplicate_texts() {
    assert!(KeywordSet::from_entries(vec![("a".to_string(), 1), ("a".to_string(), 2)]).is_none());
    let s = KeywordSet::from_entries(vec![("a".to_string(), 1), ("b".to_string(), 2)]).unwrap();
    assert_eq!(s.to_entries(), vec![("a".to_string(), 1), ("b".to_string(), 2)]);
}

#[test]
fn result_merge_prefers_left_text_fields() {
    let mut a = ExtractionResult::new("https://a.example/".to_string());
    a.job_title = "Engineer".to_string();
    let mut b = ExtractionResult::new("https://b.example/".to_string());
    b.job_title = "Manager".to_string();
    b.company = "Acme".to_string();
    b.keywords.add("k".to_string(), 3);
    let m = a.merge(b);
    assert_eq!(m.job_title, "Engineer");
    assert_eq!(m.company, "Acme");
    assert_eq!(m.source, "https://a.example/");
    assert_eq!(m.keywords.weight(&"k".to_string()), Some(3));
}
