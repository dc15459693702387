use std::cell::Cell;

use glyphon::{Buffer, Metrics};
use text_pipeline::cache::Cache;
use text_pipeline::font::Font;
use text_pipeline::key::{Key, Size};

fn key(content: &str, size: f32, width: f32) -> Key<'_> {
    Key {
        content,
        size: size.to_bits(),
        font: Font::SansSerif,
        bounds: Size {
            width: width.to_bits(),
            height: 50.0f32.to_bits(),
        },
    }
}

/// A paragraph that can be told apart from others by its font size.
fn paragraph(mark: f32) -> Buffer {
    Buffer::new_empty(Metrics::new(mark, 1.0))
}

fn mark_of(buffer: &Buffer) -> f32 {
    buffer.metrics().font_size
}

#[test]
fn new_cache_holds_nothing() {
    let cache = Cache::new();
    assert!(cache.get(&0).is_none());
    assert!(cache.get(&0x939a_f987_8bef_6222).is_none());
    assert!(!cache.is_recently_used(&0));
}

#[test]
fn allocate_shapes_on_a_miss_and_returns_the_fingerprint() {
    let mut cache = Cache::new();
    let request = key("hello", 16.0, 100.0);
    let (hash, buffer) = cache.allocate(&request, || paragraph(1.0));
    assert_eq!(hash, request.fingerprint());
    assert_eq!(mark_of(buffer), 1.0);
    assert_eq!(mark_of(cache.get(&hash).unwrap()), 1.0);
    assert!(cache.is_recently_used(&hash));
}

#[test]
fn allocating_twice_shapes_once() {
    let shaped = Cell::new(0);
    let mut cache = Cache::new();
    let request = key("hello", 16.0, 100.0);

    let (first, _) = cache.allocate(&request, || {
        shaped.set(shaped.get() + 1);
        paragraph(1.0)
    });
    let (second, buffer) = cache.allocate(&request, || {
        shaped.set(shaped.get() + 1);
        paragraph(2.0)
    });

    assert_eq!(first, second);
    assert_eq!(shaped.get(), 1);
    assert_eq!(mark_of(buffer), 1.0);
}

#[test]
fn allocating_after_the_entry_was_trimmed_shapes_again() {
    let shaped = Cell::new(0);
    let mut cache = Cache::new();
    let request = key("hello", 16.0, 100.0);
    let shape = || {
        shaped.set(shaped.get() + 1);
        paragraph(shaped.get() as f32)
    };

    let (hash, _) = cache.allocate(&request, shape);
    cache.trim();
    cache.trim();
    assert!(cache.get(&hash).is_none());
    let (_, buffer) = cache.allocate(&request, shape);
    assert_eq!(shaped.get(), 2);
    assert_eq!(mark_of(buffer), 2.0);
}

#[test]
fn allocate_hashed_keeps_the_entry_that_is_there() {
    let mut cache = Cache::new();
    assert_eq!(mark_of(cache.allocate_hashed(7, || paragraph(1.0))), 1.0);
    assert_eq!(mark_of(cache.allocate_hashed(7, || paragraph(2.0))), 1.0);
    assert_eq!(mark_of(cache.allocate_hashed(8, || paragraph(3.0))), 3.0);
    assert_eq!(mark_of(cache.get(&7).unwrap()), 1.0);
    assert_eq!(mark_of(cache.get(&8).unwrap()), 3.0);
    assert!(cache.get(&9).is_none());
}

#[test]
fn get_does_not_touch() {
    let mut cache = Cache::new();
    let _ = cache.allocate_hashed(7, || paragraph(1.0));
    cache.trim();
    assert!(cache.get(&7).is_some());
    assert!(!cache.is_recently_used(&7));
    cache.trim();
    assert!(cache.get(&7).is_none());
}

#[test]
fn trim_keeps_the_touched_and_drops_the_rest() {
    let mut cache = Cache::new();
    let _ = cache.allocate_hashed(1, || paragraph(1.0));
    let _ = cache.allocate_hashed(2, || paragraph(2.0));
    cache.trim();

    // A new period: only the first entry is touched.
    let _ = cache.allocate_hashed(1, || paragraph(3.0));
    assert!(cache.is_recently_used(&1));
    assert!(!cache.is_recently_used(&2));
    cache.trim();

    assert_eq!(mark_of(cache.get(&1).unwrap()), 1.0);
    assert!(cache.get(&2).is_none());
    assert!(!cache.is_recently_used(&1));
    assert!(!cache.is_recently_used(&2));
}

#[test]
fn trim_of_a_fresh_entry_keeps_it_for_one_period() {
    let mut cache = Cache::new();
    let _ = cache.allocate_hashed(1, || paragraph(1.0));
    cache.trim();
    assert!(cache.get(&1).is_some());
    cache.trim();
    assert!(cache.get(&1).is_none());
}

#[test]
fn an_entry_touched_in_every_period_survives_every_trim() {
    let shaped = Cell::new(0);
    let mut cache = Cache::new();
    for _ in 0..5 {
        let buffer = cache.allocate_hashed(1, || {
            shaped.set(shaped.get() + 1);
            paragraph(1.0)
        });
        assert_eq!(mark_of(buffer), 1.0);
        cache.trim();
    }
    assert_eq!(shaped.get(), 1);
    assert!(cache.get(&1).is_some());
}

#[test]
fn trim_of_an_empty_cache_is_harmless() {
    let mut cache = Cache::new();
    cache.trim();
    assert!(cache.get(&1).is_none());
}

#[test]
fn keys_that_differ_in_one_bit_of_width_have_entries_of_their_own() {
    let width = 100.0f32;
    let next = f32::from_bits(width.to_bits() ^ 1);
    let first = key("hello", 16.0, width);
    let second = key("hello", 16.0, next);
    let shaped = Cell::new(0);
    let mut cache = Cache::new();

    let (a, _) = cache.allocate(&first, || {
        shaped.set(shaped.get() + 1);
        paragraph(1.0)
    });
    let (b, _) = cache.allocate(&second, || {
        shaped.set(shaped.get() + 1);
        paragraph(2.0)
    });

    assert_ne!(a, b);
    assert_eq!(shaped.get(), 2);
    assert_eq!(mark_of(cache.get(&a).unwrap()), 1.0);
    assert_eq!(mark_of(cache.get(&b).unwrap()), 2.0);

    // Touching one of them does not keep the other.
    cache.trim();
    let _ = cache.allocate(&first, || paragraph(3.0));
    cache.trim();
    assert!(cache.get(&a).is_some());
    assert!(cache.get(&b).is_none());
}
