use memory_lru::{MemoryLruCache, ResidentSize};

fn key(s: &str) -> String {
    s.to_string()
}

#[test]
fn it_works() {
    let mut cache = MemoryLruCache::new(256);
    let val1 = vec![0u8; 100];
    let size1 = val1.resident_size();
    assert_eq!(cache.len(), 0);
    cache.insert(key("hello"), val1);

    assert_eq!(cache.current_size(), size1);

    let val2 = vec![0u8; 210];
    let size2 = val2.resident_size();
    cache.insert(key("world"), val2);

    assert!(cache.get(&key("hello")).is_none());
    assert!(cache.get(&key("world")).is_some());

    assert_eq!(cache.current_size(), size2);
    assert_eq!(cache.len(), 1);
}

#[test]
fn it_works_if_cur_size_equals_max_size() {
    let mut cache = MemoryLruCache::new(8);
    cache.insert(1.to_string(), vec![0u8, 1u8]);
    cache.insert(2.to_string(), vec![2u8, 3u8]);
    cache.insert(3.to_string(), vec![4u8, 5u8]);
    cache.insert(4.to_string(), vec![6u8, 7u8]);
    cache.insert(5.to_string(), vec![8u8, 9u8]);

    assert_eq!(Some(&vec![2u8, 3u8]), cache.get(&2.to_string()));
}

#[test]
fn five_small_values_keep_the_four_most_recent() {
    let mut cache = MemoryLruCache::new(8);
    for i in 1..=5 {
        cache.insert(i.to_string(), vec![0u8; 2]);
    }
    assert!(!cache.contains(&key("1")));
    for i in 2..=5 {
        assert!(cache.contains(&i.to_string()));
    }
    assert_eq!(cache.len(), 4);
    assert_eq!(cache.current_size(), 8);
}

#[test]
fn resident_size_of_bytes_is_their_length() {
    assert_eq!(vec![7u8; 13].resident_size(), 13);
    assert_eq!(Vec::<u8>::new().resident_size(), 0);
}

#[test]
fn new_cache_is_empty() {
    let cache = MemoryLruCache::new(10);
    assert!(cache.is_empty());
    assert_eq!(cache.len(), 0);
    assert_eq!(cache.current_size(), 0);
    assert!(cache.peek(&key("a")).is_none());
}

#[test]
fn total_matches_entries_and_budget_after_each_call() {
    let mut cache = MemoryLruCache::new(10);
    let sizes = [3usize, 4, 2, 5, 1, 6, 0, 9, 12, 1];
    let mut names = Vec::new();
    for (i, n) in sizes.iter().enumerate() {
        let k = format!("k{}", i);
        names.push(k.clone());
        cache.insert(k, vec![1u8; *n]);
        let mut sum = 0;
        for k in &names {
            if let Some(v) = cache.peek(k) {
                sum += v.len();
            }
        }
        assert_eq!(cache.current_size(), sum);
        assert!(cache.current_size() <= 10 || cache.len() == 1);
    }
}

#[test]
fn oversized_value_is_kept_alone_over_budget() {
    let mut cache = MemoryLruCache::new(8);
    cache.insert(key("a"), vec![0u8; 3]);
    cache.insert(key("big"), vec![0u8; 20]);
    assert!(cache.contains(&key("big")));
    assert!(!cache.contains(&key("a")));
    assert_eq!(cache.len(), 1);
    assert_eq!(cache.current_size(), 20);
    assert!(cache.current_size() > 8);

    cache.insert(key("b"), vec![0u8; 2]);
    assert!(!cache.contains(&key("big")));
    assert!(cache.contains(&key("b")));
    assert_eq!(cache.current_size(), 2);
}

#[test]
fn zero_budget_keeps_only_the_latest_entry() {
    let mut cache = MemoryLruCache::new(0);
    cache.insert(key("a"), vec![1u8]);
    assert_eq!(cache.len(), 1);
    assert_eq!(cache.current_size(), 1);
    cache.insert(key("b"), Vec::new());
    assert_eq!(cache.len(), 1);
    assert!(cache.contains(&key("b")));
    assert_eq!(cache.current_size(), 0);
}

#[test]
fn entries_leave_in_insertion_order() {
    let mut cache = MemoryLruCache::new(5);
    cache.insert(key("a"), vec![0u8; 2]);
    cache.insert(key("b"), vec![0u8; 2]);
    cache.insert(key("c"), vec![0u8; 2]);
    assert!(!cache.contains(&key("a")));
    assert!(cache.contains(&key("b")));
    assert!(cache.contains(&key("c")));
    cache.insert(key("d"), vec![0u8; 3]);
    assert!(!cache.contains(&key("b")));
    assert!(cache.contains(&key("c")));
    assert!(cache.contains(&key("d")));
    assert_eq!(cache.current_size(), 5);
}

#[test]
fn get_promotes_but_peek_and_contains_do_not() {
    let mut cache = MemoryLruCache::new(4);
    cache.insert(key("a"), vec![0u8; 2]);
    cache.insert(key("b"), vec![0u8; 2]);
    assert!(cache.get(&key("a")).is_some());
    cache.insert(key("c"), vec![0u8; 2]);
    assert!(cache.contains(&key("a")));
    assert!(!cache.contains(&key("b")));

    assert!(cache.peek(&key("a")).is_some());
    assert!(cache.contains(&key("a")));
    cache.insert(key("d"), vec![0u8; 2]);
    assert!(!cache.contains(&key("a")));
    assert!(cache.contains(&key("c")));
    assert!(cache.contains(&key("d")));
}

#[test]
fn replacing_a_key_accounts_for_the_old_value() {
    let mut cache = MemoryLruCache::new(100);
    cache.insert(key("a"), vec![0u8; 30]);
    cache.insert(key("a"), vec![0u8; 10]);
    assert_eq!(cache.len(), 1);
    assert_eq!(cache.current_size(), 10);
    assert_eq!(cache.peek(&key("a")).map(|v| v.len()), Some(10));
}

#[test]
fn many_small_values_grow_the_item_capacity() {
    let mut cache = MemoryLruCache::new(1000);
    for i in 0..50 {
        cache.insert(i.to_string(), vec![0u8; 1]);
    }
    assert_eq!(cache.len(), 50);
    assert_eq!(cache.current_size(), 50);
    assert!(cache.contains(&key("0")));
}

#[test]
fn with_mut_growth_changes_total_by_the_delta() {
    let mut cache = MemoryLruCache::new(100);
    cache.insert(key("a"), vec![0u8; 10]);
    cache.insert(key("b"), vec![0u8; 20]);
    let r = cache.with_mut(&key("a"), |v| {
        let v = v.unwrap();
        v.extend_from_slice(&[1u8; 5]);
        v.len()
    });
    assert_eq!(r, 15);
    assert_eq!(cache.current_size(), 35);
    assert_eq!(cache.peek(&key("a")).map(|v| v.len()), Some(15));
}

#[test]
fn with_mut_evicts_others_not_the_mutated_entry() {
    let mut cache = MemoryLruCache::new(10);
    cache.insert(key("a"), vec![0u8; 3]);
    cache.insert(key("b"), vec![0u8; 3]);
    cache.with_mut(&key("a"), |v| {
        if let Some(v) = v {
            v.resize(8, 0);
        }
    });
    assert!(cache.contains(&key("a")));
    assert!(!cache.contains(&key("b")));
    assert_eq!(cache.current_size(), 8);
}

#[test]
fn with_mut_shrink_reduces_total() {
    let mut cache = MemoryLruCache::new(10);
    cache.insert(key("a"), vec![0u8; 6]);
    cache.with_mut(&key("a"), |v| {
        if let Some(v) = v {
            v.truncate(1);
        }
    });
    assert_eq!(cache.current_size(), 1);
}

#[test]
fn with_mut_on_absent_key_sees_nothing() {
    let mut cache = MemoryLruCache::new(10);
    cache.insert(key("a"), vec![0u8; 4]);
    let seen = cache.with_mut(&key("zz"), |v| v.is_none());
    assert!(seen);
    assert_eq!(cache.current_size(), 4);
    assert_eq!(cache.len(), 1);
}

#[test]
fn with_mut_promotes_the_entry() {
    let mut cache = MemoryLruCache::new(4);
    cache.insert(key("a"), vec![0u8; 2]);
    cache.insert(key("b"), vec![0u8; 2]);
    cache.with_mut(&key("a"), |_| ());
    cache.insert(key("c"), vec![0u8; 2]);
    assert!(cache.contains(&key("a")));
    assert!(!cache.contains(&key("b")));
}

#[test]
fn with_mut_growth_evicts_the_other_entry() {
    let mut cache = MemoryLruCache::new(10);
    cache.insert(1.to_string(), vec![0u8; 4]);
    cache.insert(2.to_string(), vec![0u8; 4]);
    cache.with_mut(&1.to_string(), |v| v.unwrap().extend_from_slice(&[0u8; 4]));
    assert!(!cache.contains(&2.to_string()));
    assert_eq!(cache.peek(&1.to_string()), Some(&vec![0u8; 8]));
    assert_eq!(cache.current_size(), 8);
    assert_eq!(cache.len(), 1);
}

#[test]
fn with_mut_keeps_an_entry_that_outgrows_the_budget() {
    let mut cache = MemoryLruCache::new(10);
    cache.insert(1.to_string(), vec![0u8; 4]);
    cache.with_mut(&1.to_string(), |v| v.unwrap().resize(12, 0));
    assert!(cache.contains(&1.to_string()));
    assert_eq!(cache.len(), 1);
    assert_eq!(cache.current_size(), 12);
}

#[test]
fn with_mut_without_change_keeps_the_total() {
    let mut cache = MemoryLruCache::new(10);
    cache.insert(key("a"), vec![0u8; 4]);
    cache.insert(key("b"), vec![0u8; 5]);
    let r = cache.with_mut(&key("b"), |v| v.map(|v| v.len()));
    assert_eq!(r, Some(5));
    assert_eq!(cache.current_size(), 9);
    assert_eq!(cache.len(), 2);
}
