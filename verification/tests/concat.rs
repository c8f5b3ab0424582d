use avm_strings::arena::Arena;
use avm_strings::avm_string::{AvmString, Source};
use avm_strings::wstring::WString;

fn units_of(s: &str) -> Vec<u16> {
    s.bytes().map(|b| b as u16).collect()
}

fn narrow(arena: &mut Arena, s: &str) -> AvmString {
    AvmString::new(arena, WString::from_units(units_of(s)))
}

fn record_index(s: &AvmString) -> usize {
    match s.source {
        Source::Owned(i) => i,
        Source::Static(_) => panic!("expected an arena-owned handle"),
    }
}

#[test]
fn concat_length_and_content() {
    let mut arena = Arena::new();
    let a = narrow(&mut arena, "foo");
    let b = narrow(&mut arena, "bar");
    let c = AvmString::concat(&mut arena, a, b);
    assert_eq!(c.len(&arena), a.len(&arena) + b.len(&arena));
    assert_eq!(c.as_wstr(&arena), units_of("foobar"));
}

#[test]
fn concat_with_empty_returns_same_handle() {
    let mut arena = Arena::new();
    let a = narrow(&mut arena, "alpha");
    let empty = AvmString::default();
    let allocs = arena.buffer_allocs();
    let records = arena.num_records();

    let r1 = AvmString::concat(&mut arena, a, empty);
    assert!(AvmString::ptr_eq(&r1, &a));
    let r2 = AvmString::concat(&mut arena, empty, a);
    assert!(AvmString::ptr_eq(&r2, &a));

    // no allocation of any kind happened
    assert_eq!(arena.buffer_allocs(), allocs);
    assert_eq!(arena.num_records(), records);
}

#[test]
fn amortized_growth_allocates_logarithmically() {
    let mut arena = Arena::new();
    let x = narrow(&mut arena, "x");
    let base = arena.buffer_allocs();
    let mut a = AvmString::default();
    let n = 10_000usize;
    for _ in 0..n {
        a = AvmString::concat(&mut arena, a, x);
    }
    assert_eq!(a.len(&arena), n);
    let fresh = arena.buffer_allocs() - base;
    // growth doubles the capacity from a 32-unit floor, so roughly
    // log2(10000 / 32) + 1 fresh buffers; far below any linear count
    assert!(fresh >= 2);
    assert!(fresh <= 16, "expected O(log n) fresh buffers, got {fresh}");
}

#[test]
fn aliasing_safety_of_in_place_append() {
    let mut arena = Arena::new();
    let a1 = narrow(&mut arena, "a");
    let b1 = narrow(&mut arena, "b");
    // a fresh concatenation result, with spare tail capacity
    let a = AvmString::concat(&mut arena, a1, b1);
    assert_eq!(a.as_wstr(&arena), units_of("ab"));

    let c1 = narrow(&mut arena, "c");
    let allocs = arena.buffer_allocs();
    let b = AvmString::concat(&mut arena, a, c1);
    // the append reused a's spare capacity: no fresh buffer
    assert_eq!(arena.buffer_allocs(), allocs);
    assert_eq!(b.as_wstr(&arena), units_of("abc"));

    // a is no longer the published tail, so this append must copy
    let d1 = narrow(&mut arena, "d");
    let allocs2 = arena.buffer_allocs();
    let c = AvmString::concat(&mut arena, a, d1);
    assert_eq!(arena.buffer_allocs(), allocs2 + 1);
    assert_eq!(c.as_wstr(&arena), units_of("abd"));

    // and b's already-published view is intact
    assert_eq!(b.as_wstr(&arena), units_of("abc"));
    assert_eq!(a.as_wstr(&arena), units_of("ab"));
}

#[test]
fn mixed_width_concat_copies_and_widens() {
    let mut arena = Arena::new();
    let narrow_s = narrow(&mut arena, "ab");
    let wide_s = AvmString::new(&mut arena, WString::from_units(vec![0x2713]));
    assert!(!narrow_s.is_wide(&arena));
    assert!(wide_s.is_wide(&arena));

    let allocs = arena.buffer_allocs();
    let r = AvmString::concat(&mut arena, narrow_s, wide_s);
    // never in place: a fresh, correctly widened buffer
    assert_eq!(arena.buffer_allocs(), allocs + 1);
    assert!(r.is_wide(&arena));
    assert_eq!(r.as_wstr(&arena), vec![0x61, 0x62, 0x2713]);
    assert!(r.owner(&arena).is_none());

    let r2 = AvmString::concat(&mut arena, wide_s, narrow_s);
    assert!(r2.is_wide(&arena));
    assert_eq!(r2.as_wstr(&arena), vec![0x2713, 0x61, 0x62]);
}

#[test]
fn growth_headroom_formula_small() {
    let mut arena = Arena::new();
    let a = narrow(&mut arena, "aaaaa");
    let b = narrow(&mut arena, "bbbbb");
    let c = AvmString::concat(&mut arena, a, b);
    let idx = record_index(&c);
    assert_eq!(c.len(&arena), 10);
    assert_eq!(arena.records[idx].capacity(), 32);
}

#[test]
fn growth_headroom_formula_doubles() {
    let mut arena = Arena::new();
    let half = 250_000usize;
    let a = AvmString::new(&mut arena, WString::from_units(vec![0x61u16; half]));
    let b = AvmString::new(&mut arena, WString::from_units(vec![0x62u16; half]));
    let c = AvmString::concat(&mut arena, a, b);
    let idx = record_index(&c);
    assert_eq!(c.len(&arena), 500_000);
    assert_eq!(arena.records[idx].capacity(), 1_000_000);
}

#[test]
fn growth_headroom_formula_caps_at_one_mebibyte() {
    let mut arena = Arena::new();
    let half = 750_000usize;
    let a = AvmString::new(&mut arena, WString::from_units(vec![0x61u16; half]));
    let b = AvmString::new(&mut arena, WString::from_units(vec![0x62u16; half]));
    let c = AvmString::concat(&mut arena, a, b);
    let idx = record_index(&c);
    assert_eq!(c.len(&arena), 1_500_000);
    assert_eq!(arena.records[idx].capacity(), 1_500_000 + (1 << 20));
}

#[test]
fn dependent_tail_appends_in_place() {
    let mut arena = Arena::new();
    let ab = narrow(&mut arena, "ab");
    let cd = narrow(&mut arena, "cd");
    let x = AvmString::concat(&mut arena, ab, cd); // fresh "abcd", spare capacity

    // a substring that ends exactly at the published tail
    let sub = AvmString::new_dependent(&mut arena, x, 1, 4);
    assert_eq!(sub.as_wstr(&arena), units_of("bcd"));

    let e = narrow(&mut arena, "e");
    let allocs = arena.buffer_allocs();
    let grown = AvmString::concat(&mut arena, sub, e);
    // appended into x's buffer: no fresh buffer, owner is x
    assert_eq!(arena.buffer_allocs(), allocs);
    let owner = grown.owner(&arena).expect("result is dependent");
    assert!(AvmString::ptr_eq(&owner, &x));
    assert_eq!(grown.as_wstr(&arena), units_of("bcde"));
    assert_eq!(x.as_wstr(&arena), units_of("abcd"));
    assert_eq!(sub.as_wstr(&arena), units_of("bcd"));
}

#[test]
fn self_concat_is_sound() {
    let mut arena = Arena::new();
    let a1 = narrow(&mut arena, "a");
    let b1 = narrow(&mut arena, "b");
    let a = AvmString::concat(&mut arena, a1, b1);
    let doubled = AvmString::concat(&mut arena, a, a);
    assert_eq!(doubled.as_wstr(&arena), units_of("abab"));
    assert_eq!(a.as_wstr(&arena), units_of("ab"));
}
