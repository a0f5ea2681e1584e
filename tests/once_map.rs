use once_map::{GetOrInitData, OnceMap};

#[test]
fn get_or_init() {
    let mut map: OnceMap<String> = OnceMap::new();

    map.get_or_init(0, || "Hello, ".into());
    map.get_or_init(1, || "World!".into());

    assert!(map.get(&0) == Some(&"Hello, ".into()));
    assert!(map.get(&1) == Some(&"World!".into()));
}

#[test]
fn get_on_new_map_finds_nothing() {
    let map: OnceMap<String> = OnceMap::new();
    assert!(map.get(&0).is_none());
    assert!(map.get(&u64::MAX).is_none());
}

#[test]
fn get_of_unwritten_key_finds_nothing() {
    let mut map: OnceMap<u32> = OnceMap::default();
    map.get_or_init(3, || 30);
    map.get_or_init(5, || 50);
    assert!(map.get(&4).is_none());
    assert!(map.get(&0).is_none());
    assert_eq!(map.get(&3), Some(&30));
    assert_eq!(map.get(&5), Some(&50));
}

#[test]
fn get_or_init_reports_init_then_get() {
    let mut map: OnceMap<String> = OnceMap::new();
    let first = map.get_or_init(7, || "a".to_string());
    assert!(matches!(first, GetOrInitData::Init(v) if v == "a"));
    let second = map.get_or_init(7, || "b".to_string());
    assert!(matches!(second, GetOrInitData::Get(v) if v == "a"));
    assert_eq!(map.get(&7), Some(&"a".to_string()));
}

#[test]
fn get_or_init_skips_initializer_when_present() {
    let mut map: OnceMap<u32> = OnceMap::new();
    map.get_or_init(1, || 10);
    let mut ran = false;
    let got = map
        .get_or_init(1, || {
            ran = true;
            11
        })
        .into_data();
    assert_eq!(*got, 10);
    assert!(!ran);
}

#[test]
fn many_get_or_init_calls_store_once() {
    let mut map: OnceMap<u32> = OnceMap::new();
    let mut inits: u32 = 0;
    for i in 0..100u32 {
        match map.get_or_init(42, || 1000 + i) {
            GetOrInitData::Init(v) => {
                inits += 1;
                assert_eq!(*v, 1000);
            }
            GetOrInitData::Get(v) => assert_eq!(*v, 1000),
        }
    }
    assert_eq!(inits, 1);
    assert_eq!(map.get(&42), Some(&1000));
}

#[test]
fn init_twice_keeps_first_value() {
    let mut map: OnceMap<String> = OnceMap::new();
    map.get_or_init(0, || "table".to_string());
    assert!(map.init(9, || "first".to_string()));
    assert_eq!(map.get(&9), Some(&"first".to_string()));
    let mut ran = false;
    assert!(!map.init(9, || {
        ran = true;
        "second".to_string()
    }));
    assert!(!ran);
    assert_eq!(map.get(&9), Some(&"first".to_string()));
}

#[test]
fn init_on_map_without_table_stores_nothing() {
    let mut map: OnceMap<u8> = OnceMap::new();
    let mut ran = false;
    assert!(!map.init(1, || {
        ran = true;
        5
    }));
    assert!(!ran);
    assert!(map.get(&1).is_none());
    map.get_or_init(2, || 6);
    assert!(map.init(1, || 5));
    assert_eq!(map.get(&1), Some(&5));
}

#[test]
fn init_once_per_key_across_keys() {
    let mut map: OnceMap<u64> = OnceMap::new();
    map.get_or_init(100, || 0);
    let keys = [1u64, 2, 1, 3, 2, 1, 100];
    let results: Vec<bool> = keys.iter().map(|&k| map.init(k, || k * 10)).collect();
    assert_eq!(results, vec![true, true, false, true, false, false, false]);
    assert_eq!(map.get(&1), Some(&10));
    assert_eq!(map.get(&2), Some(&20));
    assert_eq!(map.get(&3), Some(&30));
    assert_eq!(map.get(&100), Some(&0));
}

#[test]
fn repeated_get_returns_same_value() {
    let mut map: OnceMap<Vec<u8>> = OnceMap::new();
    map.get_or_init(8, || vec![1, 2, 3]);
    for k in 0..50u64 {
        map.get_or_init(k + 1000, || vec![0]);
        assert_eq!(map.get(&8), Some(&vec![1, 2, 3]));
    }
    assert!(std::ptr::eq(map.get(&8).unwrap(), map.get(&8).unwrap()));
}

#[test]
fn into_data_returns_either_value() {
    assert_eq!(GetOrInitData::Init(4).into_data(), 4);
    assert_eq!(GetOrInitData::Get("x").into_data(), "x");
}
