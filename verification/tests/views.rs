use avm_strings::arena::Arena;
use avm_strings::avm_string::AvmString;
use avm_strings::wstring::{units_eq, units_fit_narrow, WString};

fn units_of(s: &str) -> Vec<u16> {
    s.bytes().map(|b| b as u16).collect()
}

fn narrow(arena: &mut Arena, s: &str) -> AvmString {
    AvmString::new(arena, WString::from_units(units_of(s)))
}

#[test]
fn zero_copy_substring_shares_the_owner() {
    let mut arena = Arena::new();
    let a = narrow(&mut arena, "hello world");
    let allocs = arena.buffer_allocs();

    let sub = AvmString::new_dependent(&mut arena, a, 0, 5);
    // no character data was duplicated
    assert_eq!(arena.buffer_allocs(), allocs);
    assert_eq!(sub.as_wstr(&arena), units_of("hello"));

    // the substring's owner is a's ultimate owner (a itself here)
    let owner = sub.owner(&arena).expect("substring is dependent");
    assert!(AvmString::ptr_eq(&owner, &a));
    assert!(a.owner(&arena).is_none());

    // a substring of a substring still points at the ultimate owner
    let sub2 = AvmString::new_dependent(&mut arena, sub, 1, 4);
    assert_eq!(arena.buffer_allocs(), allocs);
    let owner2 = sub2.owner(&arena).expect("still dependent");
    assert!(AvmString::ptr_eq(&owner2, &a));
    assert_eq!(sub2.as_wstr(&arena), units_of("ell"));
}

#[test]
fn empty_and_full_substrings() {
    let mut arena = Arena::new();
    let a = narrow(&mut arena, "abc");
    let whole = AvmString::new_dependent(&mut arena, a, 0, 3);
    assert_eq!(whole.as_wstr(&arena), units_of("abc"));
    let empty = AvmString::new_dependent(&mut arena, a, 2, 2);
    assert_eq!(empty.len(&arena), 0);
    assert!(empty.is_empty(&arena));
}

#[test]
fn default_handle_is_the_empty_static_string() {
    let arena = Arena::new();
    let d = AvmString::default();
    assert_eq!(d.len(&arena), 0);
    assert!(d.is_empty(&arena));
    assert!(!d.is_wide(&arena));
    assert!(d.owner(&arena).is_none());
    let d2 = AvmString::default();
    assert!(AvmString::ptr_eq(&d, &d2));
}

#[test]
fn static_strings_allocate_nothing() {
    let mut arena = Arena::new();
    let records = arena.num_records();
    let allocs = arena.buffer_allocs();
    let s = AvmString::from_static_str(&mut arena, "static text");
    assert_eq!(arena.num_records(), records);
    assert_eq!(arena.buffer_allocs(), allocs);
    assert_eq!(s.as_wstr(&arena), units_of("static text"));
    assert!(s.owner(&arena).is_none());
}

#[test]
fn utf8_narrow_and_wide() {
    let mut arena = Arena::new();
    let ascii = AvmString::new_utf8(&mut arena, "plain");
    assert!(!ascii.is_wide(&arena));
    assert_eq!(ascii.as_wstr(&arena), units_of("plain"));

    // U+00E9 fits one byte's worth of unit: still narrow
    let latin = AvmString::new_utf8(&mut arena, "caf\u{e9}");
    assert!(!latin.is_wide(&arena));
    assert_eq!(latin.as_wstr(&arena), vec![0x63, 0x61, 0x66, 0xE9]);

    // U+2713 needs a wide unit
    let check = AvmString::new_utf8(&mut arena, "\u{2713}ok");
    assert!(check.is_wide(&arena));
    assert_eq!(check.as_wstr(&arena), vec![0x2713, 0x6F, 0x6B]);

    // U+1F600 becomes a surrogate pair
    let emoji = AvmString::new_utf8(&mut arena, "\u{1F600}");
    assert!(emoji.is_wide(&arena));
    assert_eq!(emoji.as_wstr(&arena), vec![0xD83D, 0xDE00]);
}

#[test]
fn utf8_bytes_decode_with_replacement() {
    let mut arena = Arena::new();
    let ok = AvmString::new_utf8_bytes(&mut arena, b"plain");
    assert_eq!(ok.as_wstr(&arena), units_of("plain"));

    // 0xC3 0xA9 is U+00E9; 0xE2 0x9C 0x93 is U+2713; 0xF0 0x9F 0x98 0x80
    // is U+1F600 (a surrogate pair)
    let multi = AvmString::new_utf8_bytes(&mut arena, &[0xC3, 0xA9, 0xE2, 0x9C, 0x93]);
    assert_eq!(multi.as_wstr(&arena), vec![0xE9, 0x2713]);
    let emoji = AvmString::new_utf8_bytes(&mut arena, &[0xF0, 0x9F, 0x98, 0x80]);
    assert_eq!(emoji.as_wstr(&arena), vec![0xD83D, 0xDE00]);

    // a stray continuation byte, an overlong lead, and a truncated
    // sequence each decode to replacement characters
    let bad = AvmString::new_utf8_bytes(&mut arena, &[0x80, 0x41, 0xC0, 0xAF]);
    assert_eq!(bad.as_wstr(&arena), vec![0xFFFD, 0x41, 0xFFFD, 0xFFFD]);
    let truncated = AvmString::new_utf8_bytes(&mut arena, &[0xE2, 0x9C]);
    assert_eq!(truncated.as_wstr(&arena), vec![0xFFFD, 0xFFFD]);

    // 0xED 0xA0 0x80 would be a surrogate: rejected byte by byte
    let surrogate = AvmString::new_utf8_bytes(&mut arena, &[0xED, 0xA0, 0x80]);
    assert_eq!(surrogate.as_wstr(&arena), vec![0xFFFD, 0xFFFD, 0xFFFD]);
}

#[test]
fn unit_access_and_width() {
    let mut arena = Arena::new();
    let s = narrow(&mut arena, "xyz");
    assert_eq!(s.unit_at(&arena, 0), 0x78);
    assert_eq!(s.unit_at(&arena, 2), 0x7A);

    let w = WString::from_units(vec![1, 2, 300]);
    assert!(w.wide);
    let n = WString::from_units(vec![1, 2, 255]);
    assert!(!n.wide);
}

#[test]
fn buffer_helpers() {
    assert!(units_fit_narrow(&vec![0, 255]));
    assert!(!units_fit_narrow(&vec![0, 256]));
    assert!(units_eq(&vec![1, 2], &vec![1, 2]));
    assert!(!units_eq(&vec![1, 2], &vec![1, 3]));
    assert!(!units_eq(&vec![1], &vec![1, 1]));

    let mut w = WString::with_capacity(4, false);
    w.push_units(&vec![10, 20]);
    w.push_units(&vec![30]);
    assert_eq!(w.len, 3);
    assert_eq!(w.data.len(), 4);
}

#[test]
fn published_tail_check_blocks_stale_snapshots() {
    let mut arena = Arena::new();
    let a1 = narrow(&mut arena, "st");
    let b1 = narrow(&mut arena, "art");
    let a = AvmString::concat(&mut arena, a1, b1); // fresh "start", spare capacity
    let grown = AvmString::concat(&mut arena, a, b1); // in place: "startart"
    assert_eq!(grown.as_wstr(&arena), units_of("startart"));

    // `a` is a stale snapshot now; appending to it must copy, and the
    // published views stay intact
    let allocs = arena.buffer_allocs();
    let again = AvmString::concat(&mut arena, a, a1);
    assert_eq!(arena.buffer_allocs(), allocs + 1);
    assert_eq!(again.as_wstr(&arena), units_of("startst"));
    assert_eq!(grown.as_wstr(&arena), units_of("startart"));
    assert_eq!(a.as_wstr(&arena), units_of("start"));
}
