use ku::collections::Bitmap;
use ku::error::Error;

#[test]
fn count_free() {
    let bitmap = [0; 3];
    for len in 0 .. bitmap.len() * Bitmap::BITS_PER_ENTRY {
        assert_eq!(Bitmap::count_free(&bitmap, len), len);
    }

    let bitmap = [u64::MAX; 3];
    for len in 0 .. bitmap.len() * Bitmap::BITS_PER_ENTRY {
        assert_eq!(Bitmap::count_free(&bitmap, len), 0);
    }

    let free = [7, Bitmap::BITS_PER_ENTRY - 1, 0];
    let bitmap = [
        u64::MAX - (1 << free[0]),
        u64::MAX - (1 << free[1]),
        u64::MAX - (1 << free[2]),
    ];
    for len in 0 .. bitmap.len() * Bitmap::BITS_PER_ENTRY {
        let free_count = free
            .iter()
            .enumerate()
            .filter(|&(i, &j)| i * Bitmap::BITS_PER_ENTRY + j < len)
            .count();
        assert_eq!(Bitmap::count_free(&bitmap, len), free_count);
    }

    let bitmap = [0b_1101_1010; 1];
    assert_eq!(Bitmap::count_free(&bitmap, 1), 1);
    assert_eq!(Bitmap::count_free(&bitmap, 2), 1);
    assert_eq!(Bitmap::count_free(&bitmap, 3), 2);
    assert_eq!(Bitmap::count_free(&bitmap, 4), 2);
    assert_eq!(Bitmap::count_free(&bitmap, 5), 2);
    assert_eq!(Bitmap::count_free(&bitmap, 6), 3);
    assert_eq!(Bitmap::count_free(&bitmap, 7), 3);
    assert_eq!(Bitmap::count_free(&bitmap, 8), 3);
}

#[test]
fn bitmap_new_counts_free_elements() {
    let bitmap = Bitmap::new(vec![0b1011, 0, 7], 70, None);
    assert_eq!(bitmap.len(), 70);
    assert_eq!(bitmap.free(), 67);
    assert!(!bitmap.is_empty());
    assert!(!bitmap.is_free(0));
    assert!(bitmap.is_free(2));
    assert!(bitmap.validate().is_ok());
}

#[test]
fn bitmap_validate_detects_a_wrong_free_count() {
    let bitmap = Bitmap::new(vec![0, 0], 100, Some(99));
    assert_eq!(bitmap.validate(), Err(Error::InvalidArgument));
}

#[test]
fn bitmap_allocate_takes_the_lowest_free_element_of_the_cursor_word() {
    let mut bitmap = Bitmap::new(vec![0b0111, 0], 128, None);
    assert_eq!(bitmap.allocate(), Some(3));
    assert_eq!(bitmap.allocate(), Some(4));
    assert!(!bitmap.is_free(3));
    assert_eq!(bitmap.free(), 123);
}

#[test]
fn bitmap_allocate_wraps_around_and_stops_when_full() {
    let mut bitmap = Bitmap::new(vec![0, 0], 70, None);
    let mut seen = Vec::new();
    while let Some(element) = bitmap.allocate() {
        assert!(element < 70);
        assert!(!seen.contains(&element));
        seen.push(element);
    }
    assert_eq!(seen.len(), 70);
    assert_eq!(bitmap.free(), 0);
    assert!(bitmap.validate().is_ok());

    bitmap.set_free(65);
    assert_eq!(bitmap.free(), 1);
    assert!(bitmap.is_free(65));
    assert_eq!(bitmap.allocate(), Some(65));
    assert_eq!(bitmap.allocate(), None);
}

#[test]
fn bitmap_cursor_starts_past_the_taken_elements() {
    let mut bitmap = Bitmap::new(vec![u64::MAX, 0, 0], 192, None);
    assert_eq!(bitmap.allocate(), Some(64));
}

#[test]
fn bitmap_zero_is_empty() {
    let mut bitmap = Bitmap::zero();
    assert!(bitmap.is_empty());
    assert_eq!(bitmap.len(), 0);
    assert_eq!(bitmap.free(), 0);
    assert_eq!(bitmap.allocate(), None);
}

use ku::collections::Lru;

#[test]
fn lru_evicts_the_least_recently_used_entry() {
    let mut lru = Lru::new(2);
    assert_eq!(lru.insert(1, "one"), None);
    assert_eq!(lru.insert(2, "two"), None);
    assert_eq!(lru.get(1), Some("one"));
    assert_eq!(lru.insert(3, "three"), Some((2, "two")));
    assert_eq!(lru.get(2), None);
    assert_eq!(lru.get(3), Some("three"));
    assert_eq!(lru.insert(1, "uno"), None);
    assert_eq!(lru.insert(4, "four"), Some((3, "three")));
    assert_eq!(lru.get(1), Some("uno"));
    assert_eq!(lru.stats().hits(), 3);
    assert_eq!(lru.stats().misses(), 1);
    assert_eq!(lru.stats().evictions(), 2);
}

#[test]
fn lru_remove() {
    let mut lru = Lru::new(3);
    lru.insert(7, 70);
    lru.insert(8, 80);
    assert_eq!(lru.remove(7), Some((7, 70)));
    assert_eq!(lru.remove(7), None);
    assert_eq!(lru.get(7), None);
    assert_eq!(lru.get(8), Some(80));
}
