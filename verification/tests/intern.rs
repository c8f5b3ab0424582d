use avm_strings::arena::Arena;
use avm_strings::avm_string::AvmString;
use avm_strings::wstring::WString;

fn units_of(s: &str) -> Vec<u16> {
    s.bytes().map(|b| b as u16).collect()
}

fn narrow(arena: &mut Arena, s: &str) -> AvmString {
    AvmString::new(arena, WString::from_units(units_of(s)))
}

#[test]
fn interning_identical_content_yields_identical_records() {
    let mut arena = Arena::new();
    // "hello" built two different ways
    let h1 = narrow(&mut arena, "hello");
    let hel = narrow(&mut arena, "hel");
    let lo = narrow(&mut arena, "lo");
    let h2 = AvmString::concat(&mut arena, hel, lo);
    assert!(!AvmString::ptr_eq(&h1, &h2));

    let a1 = arena.intern(h1);
    let a2 = arena.intern(h2);
    assert_eq!(a1.index, a2.index);
    assert!(a1 == a2);
    assert_eq!(a1.as_wstr(&arena), units_of("hello"));
}

#[test]
fn interning_distinct_content_yields_distinct_records() {
    let mut arena = Arena::new();
    let h1 = narrow(&mut arena, "one");
    let h2 = narrow(&mut arena, "two");
    let a1 = arena.intern(h1);
    let a2 = arena.intern(h2);
    assert!(a1 != a2);
}

#[test]
fn interning_twice_does_not_reallocate() {
    let mut arena = Arena::new();
    let h = narrow(&mut arena, "key");
    let a1 = arena.intern(h);
    let allocs = arena.buffer_allocs();
    let records = arena.num_records();
    let a2 = arena.intern(h);
    assert_eq!(a1, a2);
    assert_eq!(arena.buffer_allocs(), allocs);
    assert_eq!(arena.num_records(), records);
}

#[test]
fn atom_handle_reports_interned() {
    let mut arena = Arena::new();
    let h = narrow(&mut arena, "word");
    assert!(h.as_interned(&arena).is_none());
    let atom = arena.intern(h);
    let ah = AvmString::from(atom);
    let back = ah.as_interned(&arena).expect("atom handle is interned");
    assert_eq!(back, atom);
    assert_eq!(ah.as_wstr(&arena), units_of("word"));
}

#[test]
fn equality_fast_and_slow_paths() {
    let mut arena = Arena::new();
    let a = narrow(&mut arena, "same");
    // identical allocation: fast accept
    assert!(AvmString::eq(&arena, &a, &a));

    // equal content in different allocations: unit-wise fallback
    let b = narrow(&mut arena, "same");
    assert!(!AvmString::ptr_eq(&a, &b));
    assert!(AvmString::eq(&arena, &a, &b));

    // a narrow and a wide buffer with the same units are equal
    let wide = AvmString::new(
        &mut arena,
        WString::from_units_with_width(units_of("same"), true),
    );
    assert!(wide.is_wide(&arena) && !a.is_wide(&arena));
    assert!(AvmString::eq(&arena, &a, &wide));

    // distinct atoms: fast reject
    let x = narrow(&mut arena, "left");
    let y = narrow(&mut arena, "right");
    let ax = AvmString::from(arena.intern(x));
    let ay = AvmString::from(arena.intern(y));
    assert!(!AvmString::eq(&arena, &ax, &ay));

    // two handles of one atom: fast accept
    let ax2 = AvmString::from(arena.intern(x));
    assert!(AvmString::eq(&arena, &ax, &ax2));
}

#[test]
fn to_fully_owned_copies_only_dependents() {
    let mut arena = Arena::new();
    let a = narrow(&mut arena, "abcdef");
    let records = arena.num_records();
    let idx = a.to_fully_owned(&mut arena);
    // already fully owned: the record itself, no copy
    assert_eq!(arena.num_records(), records);
    assert_eq!(arena.records[idx].chars_used(), 6);

    let sub = AvmString::new_dependent(&mut arena, a, 1, 4);
    let idx2 = sub.to_fully_owned(&mut arena);
    assert!(!arena.records[idx2].is_dependent());
    let flat = AvmString::from_record(idx2);
    assert_eq!(flat.as_wstr(&arena), units_of("bcd"));
}
