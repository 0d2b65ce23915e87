use dollgen::cache::TemplateCache;
use dollgen::liquid::{Liquid, LiquidErrorKind};
use dollgen::ErrorKind;
use std::rc::Rc;

#[test]
fn cache_hands_out_one_shared_instance() {
    let mut cache: TemplateCache<u32> = TemplateCache::new();
    let first = cache.insert("a".to_string(), 7);
    let second = cache.get(&"a".to_string()).unwrap();
    assert!(Rc::ptr_eq(&first, &second));
    assert_eq!(*second, 7);
}

#[test]
fn cache_misses_unknown_paths() {
    let mut cache: TemplateCache<u32> = TemplateCache::new();
    cache.insert("a".to_string(), 7);
    assert!(cache.get(&"b".to_string()).is_none());
}

#[test]
fn cache_clear_drops_everything() {
    let mut cache: TemplateCache<u32> = TemplateCache::new();
    cache.insert("a".to_string(), 7);
    cache.insert("b".to_string(), 8);
    cache.clear();
    assert!(cache.get(&"a".to_string()).is_none());
    assert!(cache.get(&"b".to_string()).is_none());
}

#[test]
fn cache_keeps_entries_apart() {
    let mut cache: TemplateCache<u32> = TemplateCache::new();
    cache.insert("a".to_string(), 7);
    cache.insert("b".to_string(), 8);
    assert_eq!(*cache.get(&"a".to_string()).unwrap(), 7);
    assert_eq!(*cache.get(&"b".to_string()).unwrap(), 8);
}

#[test]
fn liquid_parse_returns_the_same_compiled_instance() {
    // one of this crate's own sources is a valid (if plain) liquid template
    // and is known to exist beside the test run
    let parser = liquid::ParserBuilder::with_stdlib().build().unwrap();
    let mut lq = Liquid::new(parser);
    let path = "src/lang.rs".to_string();
    let first = lq.parse(&path).unwrap();
    let second = lq.parse(&path).unwrap();
    assert!(Rc::ptr_eq(&first, &second));
}

#[test]
fn liquid_clear_cache_reparses_from_disk() {
    let parser = liquid::ParserBuilder::with_stdlib().build().unwrap();
    let mut lq = Liquid::new(parser);
    let path = "src/lang.rs".to_string();
    let first = lq.parse(&path).unwrap();
    lq.clear_cache();
    let reparsed = lq.parse(&path).unwrap();
    assert!(!Rc::ptr_eq(&first, &reparsed));
}

#[test]
fn liquid_parse_failure_reports_the_path() {
    let parser = liquid::ParserBuilder::with_stdlib().build().unwrap();
    let mut lq = Liquid::new(parser);
    let err = match lq.parse(&"no/such/template.liquid".to_string()) {
        Err(e) => e,
        Ok(_) => panic!("parsed a template that does not exist"),
    };
    assert!(matches!(
        &err,
        ErrorKind::LiquidIntegration(LiquidErrorKind::LiquidParsing { path, .. })
            if path == "no/such/template.liquid"
    ));
}
