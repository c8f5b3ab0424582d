//! The storage record: the owned (or borrowed-range) unit of string storage.
//!
//! A record either owns a buffer (`owner` is `None`) or is *dependent*: it
//! names a live sub-range of another, non-dependent record's buffer (or of a
//! static entry) and owns nothing. Ownership chains are flattened at
//! construction: a dependent record's `owner` is always the ultimate
//! non-dependent ancestor.

use vstd::prelude::*;

use crate::arena::Arena;
use crate::avm_string::{AvmString, Source};
use crate::wstring::{fits_narrow, WString};

verus! {

/// The storage record.
///
/// For an owning record, `data` is the whole allocated buffer (its length is
/// the capacity), `len <= chars_used <= capacity`, and `data[0..chars_used]`
/// is the published region: the record's own string is `data[0..len]`, and
/// dependent strings carved from this record lie inside the published
/// region. For a dependent record, `data` is empty, `chars_used` is 0, and
/// the string is `owner`'s buffer at `[start, start + len)`.
pub struct AvmStringRepr {
    pub data: Vec<u16>,
    pub len: usize,
    pub wide: bool,
    pub chars_used: usize,
    pub interned: bool,
    pub start: usize,
    pub owner: Option<AvmString>,
}

/// Well-formedness of one record against the arena it lives in. `records`
/// is the arena's record table and `statics_len`/`static_units` describe its
/// static table; a dependent record's owner must be a valid, non-dependent
/// place whose published region covers the borrowed range, with the same
/// width.
pub open spec fn wf_record(
    r: AvmStringRepr,
    records: Seq<AvmStringRepr>,
    statics: Seq<(Seq<u16>, bool)>,
) -> bool {
    match r.owner {
        None => {
            &&& r.start == 0
            &&& r.len <= r.chars_used <= r.data@.len()
            &&& (!r.wide ==> fits_narrow(r.data@.subrange(0, r.chars_used as int)))
        },
        Some(h) => {
            &&& r.data@.len() == 0
            &&& r.chars_used == 0
            &&& !r.interned
            &&& match h.source {
                Source::Static(si) => {
                    &&& 0 <= si < statics.len()
                    &&& r.wide == statics[si as int].1
                    &&& r.start + r.len <= statics[si as int].0.len()
                },
                Source::Owned(oi) => {
                    &&& 0 <= oi < records.len()
                    &&& records[oi as int].owner is None
                    &&& r.wide == records[oi as int].wide
                    &&& r.start + r.len <= records[oi as int].chars_used
                },
            }
        },
    }
}

impl AvmStringRepr {
    /// Take ownership of a freshly produced buffer; the whole content counts
    /// as used. Not dependent.
    pub fn from_raw(s: WString, interned: bool) -> (r: AvmStringRepr)
        requires
            s.wf(),
        ensures
            r.owner is None,
            r.data@ == s.data@,
            r.len == s.len,
            r.wide == s.wide,
            r.chars_used == s.len,
            r.interned == interned,
            r.start == 0,
    {
        let len = s.len;
        AvmStringRepr {
            data: s.data,
            len,
            wide: s.wide,
            chars_used: len,
            interned,
            start: 0,
            owner: None,
        }
    }

    /// Borrow `s[start..end]` without copying. The stored owner is `s`'s
    /// ultimate non-dependent ancestor, never `s` itself if `s` is already
    /// dependent, so ownership chains stay flat.
    pub fn new_dependent(arena: &Arena, s: AvmString, start: usize, end: usize) -> (r:
        AvmStringRepr)
        requires
            arena.wf(),
            arena.wf_handle(s),
            start <= end <= arena.str_view(s).len(),
        ensures
            r.owner == Some(arena.origin_handle(s)),
            r.len == end - start,
            r.wide == arena.str_wide(s),
            r.start == arena.view_start(s) + start,
            r.data@.len() == 0,
            r.chars_used == 0,
            !r.interned,
            wf_record(r, arena.records@, arena.statics_view()),
    {
        let (owner, base): (AvmString, usize) = match s.source {
            Source::Static(_) => (s, 0),
            Source::Owned(i) => {
                proof {
                    assert(wf_record(arena.records@[i as int], arena.records@,
                        arena.statics_view()));
                }
                match arena.records[i].owner {
                    Some(o) => {
                        let base = arena.records[i].start;
                        match o.source {
                            Source::Static(si) => {
                                let slen = arena.static_len(si);
                                proof {
                                    assert(base + arena.records@[i as int].len <= slen);
                                }
                            },
                            Source::Owned(_) => {},
                        }
                        (o, base)
                    },
                    None => (s, 0),
                }
            },
        };
        let r = AvmStringRepr {
            data: Vec::new(),
            len: end - start,
            wide: AvmString::is_wide(&s, arena),
            chars_used: 0,
            interned: false,
            start: base + start,
            owner: Some(owner),
        };
        r
    }

    /// Restricted variant of [`Self::new_dependent`] for the in-place append
    /// path: the caller supplies the range over the owner's buffer directly
    /// and must prove it lies inside the owner's currently published region,
    /// with the owner already resolved to a non-dependent place.
    pub fn new_dependent_raw(
        arena: &Arena,
        owner: AvmString,
        start: usize,
        length: usize,
        is_wide: bool,
    ) -> (r: AvmStringRepr)
        requires
            arena.wf(),
            arena.wf_handle(owner),
            match owner.source {
                Source::Owned(oi) => arena.records@[oi as int].owner is None && start + length
                    <= arena.records@[oi as int].chars_used && is_wide == arena.records@[
                    oi as int
                ].wide,
                Source::Static(si) => start + length <= arena.statics_view()[si as int].0.len()
                    && is_wide == arena.statics_view()[si as int].1,
            },
        ensures
            r.owner == Some(owner),
            r.len == length,
            r.wide == is_wide,
            r.start == start,
            r.data@.len() == 0,
            r.chars_used == 0,
            !r.interned,
            wf_record(r, arena.records@, arena.statics_view()),
    {
        AvmStringRepr {
            data: Vec::new(),
            len: length,
            wide: is_wide,
            chars_used: 0,
            interned: false,
            start,
            owner: Some(owner),
        }
    }

    /// Whether this record borrows its characters from an owner.
    pub fn is_dependent(&self) -> (r: bool)
        ensures
            r == (self.owner is Some),
    {
        self.owner.is_some()
    }

    /// The ultimate owning handle, or `None` for a non-dependent record.
    pub fn owner(&self) -> (r: Option<AvmString>)
        ensures
            r == self.owner,
    {
        self.owner
    }

    pub fn is_interned(&self) -> (r: bool)
        ensures
            r == self.interned,
    {
        self.interned
    }

    /// Mark the record as registered in the intern table. Interning a
    /// dependent record is a contract violation (its content is not
    /// independently addressable), so that input is excluded outright.
    pub fn mark_interned(&mut self)
        requires
            old(self).owner is None,
        ensures
            *final(self) == (AvmStringRepr { interned: true, ..*old(self) }),
    {
        self.interned = true;
    }

    /// The allocated capacity in units; 0 for a dependent record.
    pub fn capacity(&self) -> (r: usize)
        ensures
            r == self.data@.len(),
    {
        self.data.len()
    }

    /// How many units of the buffer are published, counting the tails
    /// handed out to dependent strings by in-place appends.
    pub fn chars_used(&self) -> (r: usize)
        ensures
            r == self.chars_used,
    {
        self.chars_used
    }

    /// Publish the buffer up to `value` units. Publication only ever moves
    /// forward, stays inside capacity, and — for a narrow record — may only
    /// publish units that fit the narrow encoding, so every view already
    /// handed out stays intact.
    pub fn set_chars_used(&mut self, value: usize)
        requires
            old(self).owner is None,
            old(self).chars_used <= value <= old(self).data@.len(),
            !old(self).wide ==> fits_narrow(old(self).data@.subrange(0, value as int)),
        ensures
            *final(self) == (AvmStringRepr { chars_used: value, ..*old(self) }),
    {
        self.chars_used = value;
    }

    /// Write one unit into the unpublished tail of the buffer. Only the
    /// in-place append path uses this, always below `capacity` and at or
    /// beyond `chars_used`, so published content is never overwritten.
    pub(crate) fn write_unit(&mut self, i: usize, u: u16)
        requires
            old(self).chars_used <= i < old(self).data@.len(),
        ensures
            *final(self) == (AvmStringRepr { data: final(self).data, ..*old(self) }),
            final(self).data@ == old(self).data@.update(i as int, u),
    {
        self.data[i] = u;
    }
}

/// A freshly produced record is the default: an empty, narrow, non-interned
/// owning record with no capacity.
impl Default for AvmStringRepr {
    fn default() -> (r: Self)
        ensures
            r.owner is None,
            r.data@.len() == 0,
            r.len == 0,
            !r.wide,
            r.chars_used == 0,
            !r.interned,
            r.start == 0,
    {
        AvmStringRepr::from_raw(WString::new(), false)
    }
}

} // verus!
