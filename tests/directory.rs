use marl::cache::DAY_SECS;
use marl::date::{Date, Now};
use marl::directory::{Data, LookupError};
use marl::record::ARL;

fn token(c: char, n: usize) -> String {
    std::iter::repeat(c).take(n).collect()
}

fn record(region: &str, c: char, expiry: Date) -> ARL {
    ARL::new(region.to_string(), token(c, 130), expiry)
}

fn data(arls: Vec<ARL>) -> Data {
    Data { expiry: 0, sha256: String::new(), arls }
}

fn now() -> Now {
    Now { secs: 1_792_300_000, today: Date::new(2026, 10, 18) }
}

const FLAG_DOC: &str = "![Brazil/Brasil](br.png) expires 2030-03-01 `AAAAAAAAAAAAAAAAAAAAAAAAAAAAAAAAAAAAAAAAAAAAAAAAAAAAAAAAAAAAAAAAAAAAAAAAAAAAAAAAAAAAAAAAAAAAAAAAAAAAAAAAAAAAAAAAAAAAAAAAAAAAAAAAAA`\n";

#[test]
fn default_then_invalidate() {
    let later = Date::new(2030, 1, 1);
    let mut d = data(vec![record("A", 'a', later), record("B", 'b', later), record("C", 'c', later)]);
    assert_eq!(d.get(&None).unwrap().region, "A");
    d.invalidate(None);
    assert_eq!(d.get(&None).unwrap().region, "B");
    assert_eq!(d.arls.len(), 2);
}

#[test]
fn get_by_region_takes_first_match() {
    let later = Date::new(2030, 1, 1);
    let d = data(vec![record("A", 'a', later), record("B", 'b', later), record("B", 'c', later)]);
    let got = d.get(&Some("B".to_string())).unwrap();
    assert_eq!(got.value, token('b', 130));
    assert!(d.get(&Some("b".to_string())).is_err());
}

#[test]
fn missing_region_lists_regions() {
    let later = Date::new(2030, 1, 1);
    let d = data(vec![record("A", 'a', later), record("B", 'b', later), record("A", 'c', later)]);
    match d.get(&Some("Brazil".to_string())) {
        Err(LookupError::NotFound(names)) => {
            assert_eq!(names, vec!["A".to_string(), "B".to_string()]);
            assert_eq!(names, d.regions());
        }
        _ => panic!("expected NotFound"),
    }
}

#[test]
fn missing_region_on_empty_lists_nothing() {
    let d = data(Vec::new());
    match d.get(&Some("Brazil".to_string())) {
        Err(LookupError::NotFound(names)) => assert!(names.is_empty()),
        _ => panic!("expected NotFound"),
    }
    assert!(matches!(d.get(&None), Err(LookupError::Empty)));
}

#[test]
fn regions_are_distinct_in_first_order() {
    let later = Date::new(2030, 1, 1);
    let d = data(vec![
        record("C", 'a', later),
        record("A", 'b', later),
        record("C", 'c', later),
        record("B", 'd', later),
    ]);
    assert_eq!(d.regions(), vec!["C".to_string(), "A".to_string(), "B".to_string()]);
}

#[test]
fn invalidate_by_region() {
    let later = Date::new(2030, 1, 1);
    let mut d = data(vec![record("A", 'a', later), record("B", 'b', later), record("B", 'c', later)]);
    d.invalidate(Some("B".to_string()));
    assert_eq!(d.arls.len(), 2);
    assert_eq!(d.arls[1].value, token('c', 130));
    d.invalidate(Some("Z".to_string()));
    assert_eq!(d.arls.len(), 2);
}

#[test]
fn invalidate_on_empty_is_noop() {
    let mut d = data(Vec::new());
    d.invalidate(None);
    assert!(d.arls.is_empty());
}

#[test]
fn load_prunes_expired() {
    let cached = data(vec![
        record("A", 'a', Date::new(2026, 10, 17)),
        record("B", 'b', Date::new(2026, 10, 18)),
        record("C", 'c', Date::new(2027, 1, 1)),
    ]);
    let d = Data::load(Some(cached), &now());
    assert_eq!(d.regions(), vec!["B".to_string(), "C".to_string()]);
    assert!(d.get(&Some("A".to_string())).is_err());
}

#[test]
fn load_without_cache_is_empty() {
    let d = Data::load(None, &now());
    assert!(d.arls.is_empty());
    assert!(d.sha256.is_empty());
    assert!(d.needs_refresh(&now()));
}

#[test]
fn needs_refresh_compares_expiry() {
    let mut d = data(Vec::new());
    d.expiry = now().secs;
    assert!(!d.needs_refresh(&now()));
    d.expiry = now().secs - 1;
    assert!(d.needs_refresh(&now()));
}

#[test]
fn refresh_of_empty_document() {
    let mut d = data(Vec::new());
    d.refresh("", &now());
    assert_eq!(d.sha256, "e3b0c44298fc1c149afbf4c8996fb92427ae41e4649b934ca495991b7852b855");
    assert_eq!(d.expiry, now().secs + DAY_SECS);
    assert!(d.arls.is_empty());
}

#[test]
fn refresh_extracts_from_markdown() {
    let mut d = data(Vec::new());
    d.refresh(FLAG_DOC, &now());
    assert_eq!(d.arls.len(), 1);
    assert_eq!(d.arls[0].region, "Brazil");
    assert_eq!(d.arls[0].value, token('A', 130));
    assert_eq!(d.arls[0].expiry, Date::new(2030, 3, 1));
    assert_eq!(d.sha256.len(), 64);
    assert_eq!(d.expiry, now().secs + DAY_SECS);
}

#[test]
fn refresh_twice_is_idempotent() {
    let mut d = data(Vec::new());
    d.refresh(FLAG_DOC, &now());
    let first = (d.expiry, d.sha256.clone(), d.arls.len(), d.arls[0].value.clone());
    d.refresh(FLAG_DOC, &now());
    let second = (d.expiry, d.sha256.clone(), d.arls.len(), d.arls[0].value.clone());
    assert_eq!(first, second);
}

#[test]
fn refresh_with_same_digest_only_prunes() {
    let mut d = data(vec![
        record("A", 'a', Date::new(2026, 10, 1)),
        record("B", 'b', Date::new(2027, 1, 1)),
    ]);
    d.sha256 = "e3b0c44298fc1c149afbf4c8996fb92427ae41e4649b934ca495991b7852b855".to_string();
    d.expiry = 5;
    d.refresh("", &now());
    assert_eq!(d.expiry, 5);
    assert_eq!(d.arls.len(), 1);
    assert_eq!(d.arls[0].region, "B");
}

#[test]
fn refresh_prunes_expired_records() {
    let doc = FLAG_DOC.replace("2030-03-01", "2026-10-17");
    let mut d = data(Vec::new());
    d.refresh(&doc, &Now { secs: 0, today: Date::new(2026, 10, 10) });
    assert_eq!(d.arls.len(), 1);
    d.sha256 = String::new();
    d.refresh(&doc, &now());
    assert!(d.arls.is_empty());
}
