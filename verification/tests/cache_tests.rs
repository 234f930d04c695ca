use module_pipeline::cache::ModuleCache;
use module_pipeline::chain::ModuleLoader;
use module_pipeline::config::{ConfigEntries, ConfigEntry, ConfigValue, Property, ServerConfiguration};
use module_pipeline::example::ExampleModuleLoader;
use std::cell::Cell;
use std::sync::Arc;

fn property(name: &str, value: ConfigValue) -> Property {
    Property {
        name: name.to_string(),
        entries: ConfigEntries { inner: vec![ConfigEntry { values: vec![value] }] },
    }
}

fn config(properties: Vec<Property>) -> ServerConfiguration {
    ServerConfiguration { properties }
}

fn cache_on(names: &[&str]) -> ModuleCache<u32> {
    ModuleCache::new(names.iter().map(|n| n.to_string()).collect())
}

#[test]
fn equal_keys_share_one_instance() {
    let mut cache = cache_on(&["root", "index"]);
    let calls = Cell::new(0u32);
    let first = config(vec![
        property("root", ConfigValue::Text("/srv".to_string())),
        property("index", ConfigValue::Bool(true)),
        property("unrelated", ConfigValue::Integer(1)),
    ]);
    let second = config(vec![
        property("unrelated", ConfigValue::Integer(2)),
        property("index", ConfigValue::Bool(true)),
        property("root", ConfigValue::Text("/srv".to_string())),
    ]);
    let a = cache
        .get_or_init(&first, |_| -> Result<Arc<u32>, String> {
            calls.set(calls.get() + 1);
            Ok(Arc::new(7))
        })
        .ok()
        .unwrap();
    let b = cache
        .get_or_init(&second, |_| -> Result<Arc<u32>, String> {
            calls.set(calls.get() + 1);
            Ok(Arc::new(8))
        })
        .ok()
        .unwrap();
    assert!(Arc::ptr_eq(&a, &b));
    assert_eq!(*b, 7);
    assert_eq!(calls.get(), 1);
    assert_eq!(cache.len(), 1);
}

#[test]
fn different_keys_get_their_own_instances() {
    let mut cache = cache_on(&["root"]);
    let first = config(vec![property("root", ConfigValue::Text("/a".to_string()))]);
    let second = config(vec![property("root", ConfigValue::Text("/b".to_string()))]);
    let third = config(vec![]);
    let a = cache.get_or_init(&first, |_| -> Result<Arc<u32>, String> { Ok(Arc::new(1)) }).ok().unwrap();
    let b = cache.get_or_init(&second, |_| -> Result<Arc<u32>, String> { Ok(Arc::new(2)) }).ok().unwrap();
    let c = cache.get_or_init(&third, |_| -> Result<Arc<u32>, String> { Ok(Arc::new(3)) }).ok().unwrap();
    assert!(!Arc::ptr_eq(&a, &b));
    assert!(!Arc::ptr_eq(&a, &c));
    assert_eq!((*a, *b, *c), (1, 2, 3));
    assert_eq!(cache.len(), 3);
    let again = cache.get_or_init(&first, |_| -> Result<Arc<u32>, String> { Ok(Arc::new(9)) }).ok().unwrap();
    assert!(Arc::ptr_eq(&a, &again));
    assert_eq!(cache.len(), 3);
}

#[test]
fn failed_construction_is_not_cached() {
    let mut cache = cache_on(&["root"]);
    let cfg = config(vec![property("root", ConfigValue::Null)]);
    let failed = cache.get_or_init(&cfg, |_| -> Result<Arc<u32>, String> { Err("no pool".to_string()) });
    assert_eq!(failed.err(), Some("no pool".to_string()));
    assert_eq!(cache.len(), 0);
    let built = cache.get_or_init(&cfg, |_| -> Result<Arc<u32>, String> { Ok(Arc::new(5)) });
    assert_eq!(built.ok().map(|m| *m), Some(5));
    assert_eq!(cache.len(), 1);
}

#[test]
fn factory_sees_the_configuration() {
    let mut cache = cache_on(&["size"]);
    let cfg = config(vec![property("size", ConfigValue::Integer(3))]);
    let built = cache.get_or_init(&cfg, |c| -> Result<Arc<u32>, String> {
        Ok(Arc::new(c.properties.len() as u32 + 40))
    });
    assert_eq!(built.ok().map(|m| *m), Some(41));
}

#[test]
fn key_holds_one_slot_for_each_property() {
    let cache = cache_on(&["a", "b"]);
    let cfg = config(vec![property("b", ConfigValue::Bool(true))]);
    let key = cache.key_for(&cfg);
    assert_eq!(key.slots.len(), 2);
    assert!(key.slots[0].is_none());
    assert_eq!(key.slots[1].as_ref().map(|e| e.inner.len()), Some(1));
}

#[test]
fn loader_shares_its_module_between_configurations() {
    let mut loader = ExampleModuleLoader::new();
    let first = config(vec![property("example_handler", ConfigValue::Bool(true))]);
    let second = config(vec![property("example_handler", ConfigValue::Bool(false))]);
    let a = loader.load_module(&first, None, &()).ok().unwrap();
    let b = loader.load_module(&second, Some(&first), &()).ok().unwrap();
    assert!(Arc::ptr_eq(&a, &b));
    assert_eq!(loader.loaded_count(), 1);
    assert_eq!(ExampleModuleLoader::default().loaded_count(), 0);
}

#[test]
fn invalidated_key_is_built_again_and_others_stay() {
    let mut cache = cache_on(&["root"]);
    let first = config(vec![property("root", ConfigValue::Text("/a".to_string()))]);
    let second = config(vec![property("root", ConfigValue::Text("/b".to_string()))]);
    let a = cache.get_or_init(&first, |_| -> Result<Arc<u32>, String> { Ok(Arc::new(1)) }).ok().unwrap();
    let b = cache.get_or_init(&second, |_| -> Result<Arc<u32>, String> { Ok(Arc::new(2)) }).ok().unwrap();
    assert!(cache.invalidate(&first));
    assert!(!cache.invalidate(&first));
    assert_eq!(cache.len(), 1);
    let rebuilt = cache.get_or_init(&first, |_| -> Result<Arc<u32>, String> { Ok(Arc::new(3)) }).ok().unwrap();
    assert_eq!(*rebuilt, 3);
    assert!(!Arc::ptr_eq(&a, &rebuilt));
    let kept = cache.get_or_init(&second, |_| -> Result<Arc<u32>, String> { Ok(Arc::new(4)) }).ok().unwrap();
    assert!(Arc::ptr_eq(&b, &kept));
    assert_eq!(cache.len(), 2);
}
