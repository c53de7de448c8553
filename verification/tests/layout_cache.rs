use type_me::layout_cache::TextEditorLayoutJobCache;
use type_me::layout_cache::LAYOUT_CACHE_CAPACITY;

#[test]
fn first_lookup_computes() {
    let mut cache = TextEditorLayoutJobCache::default();
    let layout = cache.get_or_compute("hello", 640);
    assert_eq!(layout.text.as_str(), "hello");
    assert_eq!(layout.wrap_width, 640);
    assert_eq!(cache.len(), 1);
    assert_eq!(cache.computations(), 1);
}

#[test]
fn repeat_lookup_hits_without_recomputing() {
    let mut cache = TextEditorLayoutJobCache::default();
    let first = cache.get_or_compute("hello", 640);
    let second = cache.get_or_compute("hello", 640);
    assert_eq!(second.text.as_str(), first.text.as_str());
    assert_eq!(second.wrap_width, first.wrap_width);
    assert_eq!(cache.computations(), 1);
    assert_eq!(cache.len(), 1);
}

#[test]
fn key_is_text_alone_not_wrap_width() {
    let mut cache = TextEditorLayoutJobCache::default();
    let first = cache.get_or_compute("hello", 640);
    let second = cache.get_or_compute("hello", 480);
    assert_eq!(first.wrap_width, 640);
    assert_eq!(second.wrap_width, 640);
    assert_eq!(cache.computations(), 1);
}

#[test]
fn capacity_two_scenario() {
    let mut cache = TextEditorLayoutJobCache::with_capacity(2);
    cache.get_or_compute("a", 100);
    cache.get_or_compute("b", 100);
    assert_eq!(cache.len(), 2);
    cache.get_or_compute("c", 100);
    assert_eq!(cache.len(), 1);
    // Only "c" survived: looking it up again is a hit, while "a" has to be
    // shaped anew.
    assert_eq!(cache.computations(), 3);
    cache.get_or_compute("c", 100);
    assert_eq!(cache.computations(), 3);
    cache.get_or_compute("a", 100);
    assert_eq!(cache.computations(), 4);
}

#[test]
fn stock_capacity_clears_on_the_overflowing_insert() {
    let mut cache = TextEditorLayoutJobCache::default();
    for i in 0..LAYOUT_CACHE_CAPACITY {
        cache.get_or_compute(&format!("word-{}", i), 320);
    }
    assert_eq!(cache.len(), LAYOUT_CACHE_CAPACITY);
    assert_eq!(cache.computations(), LAYOUT_CACHE_CAPACITY as u64);
    let survivor = cache.get_or_compute("one-more", 320);
    assert_eq!(cache.len(), 1);
    assert_eq!(survivor.text.as_str(), "one-more");
    assert_eq!(cache.computations(), LAYOUT_CACHE_CAPACITY as u64 + 1);
}

#[test]
fn distinct_texts_are_cached_separately() {
    let mut cache = TextEditorLayoutJobCache::default();
    let first = cache.get_or_compute("short", 200);
    let second = cache.get_or_compute("a rather longer line", 300);
    assert_eq!(first.wrap_width, 200);
    assert_eq!(second.wrap_width, 300);
    assert_eq!(cache.len(), 2);
    assert_eq!(cache.computations(), 2);
}

#[test]
fn korean_text_is_cached_by_content() {
    let mut cache = TextEditorLayoutJobCache::default();
    cache.get_or_compute("모모", 640);
    let hit = cache.get_or_compute("모모", 480);
    assert_eq!(hit.text.as_str(), "모모");
    assert_eq!(hit.wrap_width, 640);
    assert_eq!(cache.computations(), 1);
}
