//! The managed arena, modelling the runtime's garbage-collected string heap.
//!
//! A record index stands for an allocation address; an offset into a
//! record's buffer stands for a raw pointer into that allocation. The arena
//! also holds the static table (process-wide constant strings) and the
//! intern table (the registry that makes atom identity equal content
//! identity), and it counts fresh buffer allocations so that the growth
//! behaviour of repeated appends is observable.
//!
//! [`Arena::extends`] is the heart of the aliasing-safety story: every
//! mutating operation promises it, and
//! [`Arena::lemma_extension_preserves_views`] shows that it keeps every
//! previously valid handle valid, with its character sequence unchanged.

use vstd::prelude::*;

use crate::avm_string::{AvmString, Source};
use crate::repr::{wf_record, AvmStringRepr};
use crate::wstring::fits_narrow;

verus! {

/// A process-wide constant character sequence.
pub struct StaticStr {
    pub units: Vec<u16>,
    pub wide: bool,
}

/// The string heap: storage records, static strings, the intern table and
/// an allocation counter.
pub struct Arena {
    pub records: Vec<AvmStringRepr>,
    pub statics: Vec<StaticStr>,
    pub intern_table: Vec<usize>,
    pub buffer_allocs: usize,
}

impl Arena {
    /// The static table as plain values.
    pub open spec fn statics_view(self) -> Seq<(Seq<u16>, bool)> {
        Seq::new(self.statics@.len() as nat, |i: int| (self.statics@[i].units@, self.statics@[i].wide))
    }

    /// The character sequence of record `i`.
    pub open spec fn rec_view(self, i: int) -> Seq<u16> {
        let r = self.records@[i];
        match r.owner {
            None => r.data@.subrange(0, r.len as int),
            Some(h) => match h.source {
                Source::Static(si) => self.statics@[si as int].units@.subrange(
                    r.start as int,
                    r.start + r.len,
                ),
                Source::Owned(oi) => self.records@[oi as int].data@.subrange(
                    r.start as int,
                    r.start + r.len,
                ),
            },
        }
    }

    /// The character sequence a handle denotes.
    pub open spec fn str_view(self, s: AvmString) -> Seq<u16> {
        match s.source {
            Source::Static(si) => self.statics@[si as int].units@,
            Source::Owned(i) => self.rec_view(i as int),
        }
    }

    /// Whether a handle's characters use the wide encoding.
    pub open spec fn str_wide(self, s: AvmString) -> bool {
        match s.source {
            Source::Static(si) => self.statics@[si as int].wide,
            Source::Owned(i) => self.records@[i as int].wide,
        }
    }

    /// A handle is valid when it names an existing static entry or record.
    pub open spec fn wf_handle(self, s: AvmString) -> bool {
        match s.source {
            Source::Static(si) => si < self.statics@.len(),
            Source::Owned(i) => i < self.records@.len(),
        }
    }

    /// The stored ultimate owner of a handle's record, or `None` when the
    /// handle is static or its record owns its storage.
    pub open spec fn spec_owner(self, s: AvmString) -> Option<AvmString> {
        match s.source {
            Source::Static(_) => None,
            Source::Owned(i) => self.records@[i as int].owner,
        }
    }

    /// The handle itself when non-dependent, else its ultimate owner.
    pub open spec fn origin_handle(self, s: AvmString) -> AvmString {
        match self.spec_owner(s) {
            Some(o) => o,
            None => s,
        }
    }

    /// Where a handle's view begins inside its origin's buffer.
    pub open spec fn view_start(self, s: AvmString) -> int {
        match s.source {
            Source::Static(_) => 0,
            Source::Owned(i) => self.records@[i as int].start as int,
        }
    }

    /// The record whose buffer the in-place append path would extend: the
    /// left operand's own record when it owns its storage, its stored
    /// owner's record when that owner is arena-allocated. A static handle,
    /// or a dependent record whose owner is static, has no extensible
    /// buffer.
    pub open spec fn inplace_origin(self, l: AvmString) -> Option<int> {
        match l.source {
            Source::Owned(li) => match self.records@[li as int].owner {
                None => Some(li as int),
                Some(o) => match o.source {
                    Source::Owned(oi) => Some(oi as int),
                    Source::Static(_) => None,
                },
            },
            Source::Static(_) => None,
        }
    }

    /// When the in-place append path may run: both operands share a width,
    /// the left operand has an arena-owned origin, the left operand's view
    /// is exactly the most recently published tail of that origin's buffer
    /// (a stale snapshot fails this), and the spare capacity holds the
    /// right operand.
    pub open spec fn takes_inplace(self, l: AvmString, r: AvmString) -> bool {
        match self.inplace_origin(l) {
            None => false,
            Some(oi) => {
                &&& self.str_wide(l) == self.str_wide(r)
                &&& self.view_start(l) + self.str_view(l).len() == self.records@[oi].chars_used
                &&& self.records@[oi].data@.len() - self.records@[oi].chars_used
                    >= self.str_view(r).len()
            },
        }
    }

    /// Ownership chains are flat: whatever handle a dependent record
    /// stores as its owner is itself non-dependent, so resolving an owner
    /// never needs to chase a chain.
    pub proof fn lemma_origin_flat(self, s: AvmString)
        requires
            self.wf(),
            self.wf_handle(s),
        ensures
            self.wf_handle(self.origin_handle(s)),
            self.spec_owner(self.origin_handle(s)) is None,
    {
        match s.source {
            Source::Static(_) => {},
            Source::Owned(i) => {
                assert(wf_record(self.records@[i as int], self.records@, self.statics_view()));
            },
        }
    }

    /// The view of a narrow handle holds only narrow units.
    pub proof fn lemma_narrow_view(self, s: AvmString)
        requires
            self.wf(),
            self.wf_handle(s),
            !self.str_wide(s),
        ensures
            fits_narrow(self.str_view(s)),
    {
        let v = self.str_view(s);
        match s.source {
            Source::Static(si) => {
                assert(fits_narrow(self.statics@[si as int].units@));
            },
            Source::Owned(i) => {
                let r = self.records@[i as int];
                assert(wf_record(r, self.records@, self.statics_view()));
                match r.owner {
                    None => {
                        assert(fits_narrow(r.data@.subrange(0, r.chars_used as int)));
                        assert forall|j: int| 0 <= j < v.len() implies #[trigger] v[j]
                            < 0x100 by {
                            assert(v[j] == r.data@.subrange(0, r.chars_used as int)[j]);
                        }
                    },
                    Some(h) => match h.source {
                        Source::Static(si) => {
                            assert(fits_narrow(self.statics@[si as int].units@));
                            assert forall|j: int| 0 <= j < v.len() implies #[trigger] v[j]
                                < 0x100 by {
                                assert(v[j] == self.statics@[si as int].units@[r.start + j]);
                            }
                        },
                        Source::Owned(oi) => {
                            let o = self.records@[oi as int];
                            assert(wf_record(o, self.records@, self.statics_view()));
                            assert(fits_narrow(o.data@.subrange(0, o.chars_used as int)));
                            assert forall|j: int| 0 <= j < v.len() implies #[trigger] v[j]
                                < 0x100 by {
                                assert(v[j] == o.data@[r.start + j]);
                                assert(o.data@[r.start + j] == o.data@.subrange(
                                    0,
                                    o.chars_used as int,
                                )[r.start + j]);
                            }
                        },
                    },
                }
            },
        }
    }

    pub open spec fn wf_records(self) -> bool {
        forall|i: int|
            0 <= i < self.records@.len() ==> wf_record(
                #[trigger] self.records@[i],
                self.records@,
                self.statics_view(),
            )
    }

    /// Static slot 0 is the empty string; narrow entries hold only narrow
    /// units.
    pub open spec fn wf_statics(self) -> bool {
        &&& self.statics@.len() >= 1
        &&& self.statics@[0].units@.len() == 0
        &&& !self.statics@[0].wide
        &&& forall|si: int|
            0 <= si < self.statics@.len() ==> ((!(#[trigger] self.statics@[si]).wide)
                ==> fits_narrow(self.statics@[si].units@))
    }

    /// The intern table lists exactly the interned records, each owning its
    /// storage, and no two listed records hold the same content.
    pub open spec fn wf_intern_table(self) -> bool {
        &&& forall|k: int|
            0 <= k < self.intern_table@.len() ==> (#[trigger] self.intern_table@[k]) < self.records@.len()
                && self.records@[self.intern_table@[k] as int].interned
        &&& forall|k1: int, k2: int|
            0 <= k1 < self.intern_table@.len() && 0 <= k2 < self.intern_table@.len() && k1 != k2
                ==> self.rec_view(#[trigger] self.intern_table@[k1] as int) != self.rec_view(
                #[trigger] self.intern_table@[k2] as int,
            )
        &&& forall|i: int|
            0 <= i < self.records@.len() && (#[trigger] self.records@[i]).interned ==> self.records@[
                i
            ].owner is None && exists|k: int|
                0 <= k < self.intern_table@.len() && #[trigger] self.intern_table@[k] == i
    }

    pub open spec fn wf(self) -> bool {
        &&& self.wf_records()
        &&& self.wf_statics()
        &&& self.wf_intern_table()
        &&& self.buffer_allocs <= self.records@.len()
    }

    /// One record may only grow: its identity, width, range and owner are
    /// fixed, its buffer keeps its size, published units stay as they are,
    /// and publication only moves forward.
    pub open spec fn rec_extends(r1: AvmStringRepr, r2: AvmStringRepr) -> bool {
        &&& r2.len == r1.len
        &&& r2.wide == r1.wide
        &&& r2.start == r1.start
        &&& r2.owner == r1.owner
        &&& r2.data@.len() == r1.data@.len()
        &&& r1.chars_used <= r2.chars_used
        &&& r2.data@.subrange(0, r1.chars_used as int) == r1.data@.subrange(
            0,
            r1.chars_used as int,
        )
        &&& (r1.interned ==> r2.interned)
    }

    /// `newer` extends `self`: records and statics are only appended, and
    /// every record of `self` has only grown. Every mutating operation of
    /// the arena promises this, which is what makes handles stable.
    pub open spec fn extends(self, newer: Arena) -> bool {
        &&& self.records@.len() <= newer.records@.len()
        &&& forall|i: int|
            0 <= i < self.records@.len() ==> Self::rec_extends(
                #[trigger] self.records@[i],
                newer.records@[i],
            )
        &&& self.statics@.len() <= newer.statics@.len()
        &&& forall|si: int|
            0 <= si < self.statics@.len() ==> (#[trigger] newer.statics@[si]).units@
                == self.statics@[si].units@ && newer.statics@[si].wide == self.statics@[si].wide
        &&& self.buffer_allocs <= newer.buffer_allocs
    }

    pub proof fn lemma_extends_refl(self)
        ensures
            self.extends(self),
    {
    }

    pub proof fn lemma_extends_trans(a1: Arena, a2: Arena, a3: Arena)
        requires
            a1.wf(),
            a2.wf(),
            a1.extends(a2),
            a2.extends(a3),
        ensures
            a1.extends(a3),
    {
        assert forall|i: int| 0 <= i < a1.records@.len() implies Self::rec_extends(
            #[trigger] a1.records@[i],
            a3.records@[i],
        ) by {
            let r1 = a1.records@[i];
            let r2 = a2.records@[i];
            let r3 = a3.records@[i];
            assert(wf_record(r1, a1.records@, a1.statics_view()));
            assert(wf_record(r2, a2.records@, a2.statics_view()));
            assert(r1.chars_used <= r1.data@.len());
            assert(r2.chars_used <= r2.data@.len());
            assert(Self::rec_extends(r1, r2));
            assert(Self::rec_extends(r2, r3));
            assert forall|j: int| 0 <= j < r1.chars_used implies r3.data@[j] == r1.data@[j] by {
                assert(r2.data@.subrange(0, r1.chars_used as int)[j] == r1.data@.subrange(
                    0,
                    r1.chars_used as int,
                )[j]);
                assert(r3.data@.subrange(0, r2.chars_used as int)[j] == r2.data@.subrange(
                    0,
                    r2.chars_used as int,
                )[j]);
            }
            assert(r3.data@.subrange(0, r1.chars_used as int) =~= r1.data@.subrange(
                0,
                r1.chars_used as int,
            ));
        }
    }

    /// The aliasing-safety theorem: when the arena is extended — by an
    /// allocation, a static registration, an interning, or an in-place
    /// append publishing new tail units — every handle that was valid before
    /// is valid after, with the same character sequence and width.
    pub proof fn lemma_extension_preserves_views(a1: Arena, a2: Arena, s: AvmString)
        requires
            a1.wf(),
            a1.extends(a2),
            a1.wf_handle(s),
        ensures
            a2.wf_handle(s),
            a2.str_view(s) == a1.str_view(s),
            a2.str_wide(s) == a1.str_wide(s),
            a2.spec_owner(s) == a1.spec_owner(s),
    {
        match s.source {
            Source::Static(si) => {},
            Source::Owned(i) => {
                let r1 = a1.records@[i as int];
                let r2 = a2.records@[i as int];
                assert(wf_record(r1, a1.records@, a1.statics_view()));
                assert(Self::rec_extends(r1, r2));
                match r1.owner {
                    None => {
                        assert forall|j: int| 0 <= j < r1.len implies r2.data@[j] == r1.data@[j] by {
                            assert(r2.data@.subrange(0, r1.chars_used as int)[j]
                                == r1.data@.subrange(0, r1.chars_used as int)[j]);
                        }
                        assert(r2.data@.subrange(0, r2.len as int) =~= r1.data@.subrange(
                            0,
                            r1.len as int,
                        ));
                    },
                    Some(h) => {
                        match h.source {
                            Source::Static(si) => {
                                assert(a2.statics@[si as int].units@ == a1.statics@[
                                    si as int
                                ].units@);
                            },
                            Source::Owned(oi) => {
                                let o1 = a1.records@[oi as int];
                                let o2 = a2.records@[oi as int];
                                assert(Self::rec_extends(o1, o2));
                                assert forall|j: int|
                                    r1.start <= j < r1.start + r1.len implies o2.data@[j]
                                    == o1.data@[j] by {
                                    assert(o2.data@.subrange(0, o1.chars_used as int)[j]
                                        == o1.data@.subrange(0, o1.chars_used as int)[j]);
                                }
                                assert(o2.data@.subrange(r2.start as int, r2.start + r2.len)
                                    =~= o1.data@.subrange(r1.start as int, r1.start + r1.len));
                            },
                        }
                    },
                }
            },
        }
    }

    /// A fresh arena: no records, no interned strings, and the empty string
    /// at static slot 0.
    pub fn new() -> (r: Arena)
        ensures
            r.wf(),
            r.records@.len() == 0,
            r.intern_table@.len() == 0,
            r.buffer_allocs == 0,
            r.statics@.len() == 1,
            r.statics_view()[0].0.len() == 0,
            !r.statics_view()[0].1,
    {
        let mut statics: Vec<StaticStr> = Vec::new();
        statics.push(StaticStr { units: Vec::new(), wide: false });
        Arena { records: Vec::new(), statics, intern_table: Vec::new(), buffer_allocs: 0 }
    }

    /// How many fresh character buffers this arena has allocated. Dependent
    /// strings and static strings never count: they own no buffer.
    pub fn buffer_allocs(&self) -> (r: usize)
        ensures
            r == self.buffer_allocs,
    {
        self.buffer_allocs
    }

    pub fn num_records(&self) -> (r: usize)
        ensures
            r == self.records@.len(),
    {
        self.records.len()
    }

    pub fn static_len(&self, si: usize) -> (r: usize)
        requires
            si < self.statics@.len(),
        ensures
            r == self.statics_view()[si as int].0.len(),
    {
        self.statics[si].units.len()
    }

    pub fn static_wide(&self, si: usize) -> (r: bool)
        requires
            si < self.statics@.len(),
        ensures
            r == self.statics_view()[si as int].1,
    {
        self.statics[si].wide
    }

    pub fn static_unit(&self, si: usize, i: usize) -> (r: u16)
        requires
            si < self.statics@.len(),
            i < self.statics_view()[si as int].0.len(),
        ensures
            r == self.statics_view()[si as int].0[i as int],
    {
        self.statics[si].units[i]
    }

    /// Register a process-wide static character sequence and return its
    /// slot. No record and no buffer is allocated.
    pub fn add_static(&mut self, units: Vec<u16>, wide: bool) -> (si: usize)
        requires
            old(self).wf(),
            !wide ==> fits_narrow(units@),
        ensures
            final(self).wf(),
            old(self).extends(*final(self)),
            si == old(self).statics@.len(),
            final(self).statics_view()[si as int] == (units@, wide),
            final(self).records@ == old(self).records@,
            final(self).intern_table@ == old(self).intern_table@,
            final(self).buffer_allocs == old(self).buffer_allocs,
            final(self).statics@.len() == old(self).statics@.len() + 1,
    {
        let si = self.statics.len();
        self.statics.push(StaticStr { units, wide });
        proof {
            let a1 = *old(self);
            let a2 = *self;
            assert forall|i: int| 0 <= i < a2.records@.len() implies wf_record(
                #[trigger] a2.records@[i],
                a2.records@,
                a2.statics_view(),
            ) by {
                assert(wf_record(a1.records@[i], a1.records@, a1.statics_view()));
            }
            assert forall|i: int|
                0 <= i < a2.records@.len() && (#[trigger] a2.records@[i]).interned implies a2.records@[
                i
            ].owner is None && exists|k: int|
                0 <= k < a2.intern_table@.len() && #[trigger] a2.intern_table@[k] == i by {
                assert(a1.records@[i].interned);
                let k0 = choose|k: int|
                    0 <= k < a1.intern_table@.len() && #[trigger] a1.intern_table@[k] == i;
                assert(a2.intern_table@[k0] == i);
            }
            assert forall|k1: int, k2: int|
                0 <= k1 < a2.intern_table@.len() && 0 <= k2 < a2.intern_table@.len() && k1 != k2
                implies a2.rec_view(#[trigger] a2.intern_table@[k1] as int) != a2.rec_view(
                #[trigger] a2.intern_table@[k2] as int,
            ) by {
                assert(a1.rec_view(a1.intern_table@[k1] as int) != a1.rec_view(
                    a1.intern_table@[k2] as int,
                ));
                Self::lemma_rec_view_stable(a1, a2, a1.intern_table@[k1] as int);
                Self::lemma_rec_view_stable(a1, a2, a1.intern_table@[k2] as int);
            }
        }
        si
    }

    /// Allocate a record. A record that owns a buffer counts as one fresh
    /// buffer allocation; a dependent record allocates no character storage.
    /// Interned records enter the arena only through the intern operation,
    /// never through plain allocation.
    pub fn allocate(&mut self, repr: AvmStringRepr) -> (idx: usize)
        requires
            old(self).wf(),
            wf_record(repr, old(self).records@, old(self).statics_view()),
            !repr.interned,
        ensures
            final(self).wf(),
            old(self).extends(*final(self)),
            idx == old(self).records@.len(),
            final(self).records@ == old(self).records@.push(repr),
            final(self).statics@ == old(self).statics@,
            final(self).intern_table@ == old(self).intern_table@,
            final(self).buffer_allocs == old(self).buffer_allocs + (if repr.owner is None {
                1int
            } else {
                0int
            }),
    {
        let idx = self.records.len();
        let counts = match repr.owner {
            None => true,
            Some(_) => false,
        };
        self.records.push(repr);
        let n = self.records.len();
        if counts {
            proof {
                assert(self.buffer_allocs < n);
            }
            self.buffer_allocs = self.buffer_allocs + 1;
        }
        proof {
            let a1 = *old(self);
            let a2 = *self;
            assert(a2.statics_view() =~= a1.statics_view());
            assert forall|i: int| 0 <= i < a2.records@.len() implies wf_record(
                #[trigger] a2.records@[i],
                a2.records@,
                a2.statics_view(),
            ) by {
                if i < a1.records@.len() {
                    assert(wf_record(a1.records@[i], a1.records@, a1.statics_view()));
                } else {
                    assert(a2.records@[i] == repr);
                }
            }
            assert forall|i: int|
                0 <= i < a2.records@.len() && (#[trigger] a2.records@[i]).interned implies a2.records@[
                i
            ].owner is None && exists|k: int|
                0 <= k < a2.intern_table@.len() && #[trigger] a2.intern_table@[k] == i by {
                assert(i < a1.records@.len());
                assert(a1.records@[i].interned);
                let k0 = choose|k: int|
                    0 <= k < a1.intern_table@.len() && #[trigger] a1.intern_table@[k] == i;
                assert(a2.intern_table@[k0] == i);
            }
            assert forall|k1: int, k2: int|
                0 <= k1 < a2.intern_table@.len() && 0 <= k2 < a2.intern_table@.len() && k1 != k2
                implies a2.rec_view(#[trigger] a2.intern_table@[k1] as int) != a2.rec_view(
                #[trigger] a2.intern_table@[k2] as int,
            ) by {
                assert(a1.rec_view(a1.intern_table@[k1] as int) != a1.rec_view(
                    a1.intern_table@[k2] as int,
                ));
                Self::lemma_rec_view_stable(a1, a2, a1.intern_table@[k1] as int);
                Self::lemma_rec_view_stable(a1, a2, a1.intern_table@[k2] as int);
            }
        }
        idx
    }

    /// The view of an existing record does not change when the arena is
    /// extended without touching any published unit of any record it had.
    proof fn lemma_rec_view_stable(a1: Arena, a2: Arena, i: int)
        requires
            a1.wf(),
            0 <= i < a1.records@.len(),
            a1.records@.len() <= a2.records@.len(),
            forall|j: int| 0 <= j < a1.records@.len() ==> a2.records@[j] == #[trigger] a1.records@[
                j
            ],
            a1.statics@.len() <= a2.statics@.len(),
            forall|sj: int| 0 <= sj < a1.statics@.len() ==> a2.statics@[sj] == #[trigger] a1.statics@[
                sj
            ],
        ensures
            a2.rec_view(i) == a1.rec_view(i),
    {
        let r = a1.records@[i];
        assert(wf_record(r, a1.records@, a1.statics_view()));
        match r.owner {
            None => {},
            Some(h) => {
                match h.source {
                    Source::Static(_) => {},
                    Source::Owned(oi) => {
                        assert(a2.records@[oi as int] == a1.records@[oi as int]);
                    },
                }
            },
        }
    }

    /// Write `units` into the spare tail of record `oi`'s buffer and then
    /// publish them, in that order. Nothing below the previously published
    /// region is touched, so every existing view over this buffer is
    /// preserved; the newly published tail reads back exactly as `units`.
    pub fn publish_append(&mut self, oi: usize, units: &Vec<u16>)
        requires
            old(self).wf(),
            oi < old(self).records@.len(),
            old(self).records@[oi as int].owner is None,
            old(self).records@[oi as int].chars_used + units@.len() <= old(self).records@[
                oi as int
            ].data@.len(),
            !old(self).records@[oi as int].wide ==> fits_narrow(units@),
        ensures
            final(self).wf(),
            old(self).extends(*final(self)),
            final(self).records@.len() == old(self).records@.len(),
            final(self).statics@ == old(self).statics@,
            final(self).intern_table@ == old(self).intern_table@,
            final(self).buffer_allocs == old(self).buffer_allocs,
            forall|i: int|
                0 <= i < final(self).records@.len() && i != oi ==> final(self).records@[i] == old(
                    self,
                ).records@[i],
            final(self).records@[oi as int].chars_used == old(self).records@[oi as int].chars_used
                + units@.len(),
            final(self).records@[oi as int].data@.subrange(
                old(self).records@[oi as int].chars_used as int,
                old(self).records@[oi as int].chars_used + units@.len(),
            ) == units@,
            final(self).records@[oi as int].len == old(self).records@[oi as int].len,
            final(self).records@[oi as int].wide == old(self).records@[oi as int].wide,
            final(self).records@[oi as int].owner == old(self).records@[oi as int].owner,
            final(self).records@[oi as int].start == old(self).records@[oi as int].start,
            final(self).records@[oi as int].interned == old(self).records@[oi as int].interned,
            final(self).records@[oi as int].data@.len() == old(self).records@[oi as int].data@.len(),
    {
        let mut rec = self.records.remove(oi);
        let base = rec.chars_used();
        let cap = rec.capacity();
        let ghost old_rec = old(self).records@[oi as int];
        let mut i: usize = 0;
        while i < units.len()
            invariant
                i <= units@.len(),
                base == old_rec.chars_used,
                cap == old_rec.data@.len(),
                base + units@.len() <= cap,
                rec.chars_used == old_rec.chars_used,
                rec.len == old_rec.len,
                rec.wide == old_rec.wide,
                rec.start == old_rec.start,
                rec.owner == old_rec.owner,
                rec.interned == old_rec.interned,
                rec.data@.len() == old_rec.data@.len(),
                forall|j: int| 0 <= j < base ==> rec.data@[j] == old_rec.data@[j],
                forall|j: int| 0 <= j < i ==> rec.data@[base + j] == units@[j],
            decreases units@.len() - i,
        {
            rec.write_unit(base + i, units[i]);
            i += 1;
        }
        proof {
            assert(old_rec.len <= base);
            assert(rec.data@.subrange(0, (base + units@.len()) as int).subrange(
                0,
                base as int,
            ) =~= rec.data@.subrange(0, base as int));
            if !old_rec.wide {
                let pub_units = rec.data@.subrange(0, (base + units@.len()) as int);
                assert(fits_narrow(old_rec.data@.subrange(0, base as int)));
                assert forall|j: int| 0 <= j < pub_units.len() implies #[trigger] pub_units[j]
                    < 0x100 by {
                    if j < base {
                        assert(rec.data@[j] == old_rec.data@.subrange(0, base as int)[j]);
                    } else {
                        assert(rec.data@[j] == units@[j - base]);
                    }
                }
                assert(fits_narrow(pub_units));
            }
        }
        rec.set_chars_used(base + units.len());
        self.records.insert(oi, rec);
        proof {
            let a1 = *old(self);
            let a2 = *self;
            let new_rec = a2.records@[oi as int];
            assert(a2.records@ =~= a1.records@.update(oi as int, new_rec));
            assert(a2.statics_view() =~= a1.statics_view());
            assert(Self::rec_extends(old_rec, new_rec)) by {
                assert(new_rec.data@.subrange(0, old_rec.chars_used as int)
                    =~= old_rec.data@.subrange(0, old_rec.chars_used as int));
            }
            assert(new_rec.data@.subrange(base as int, base + units@.len()) =~= units@);
            assert forall|i0: int| 0 <= i0 < a1.records@.len() implies Self::rec_extends(
                #[trigger] a1.records@[i0],
                a2.records@[i0],
            ) by {
                if i0 != oi {
                    assert(a2.records@[i0] == a1.records@[i0]);
                    assert(a2.records@[i0].data@.subrange(0, a1.records@[i0].chars_used as int)
                        =~= a1.records@[i0].data@.subrange(0, a1.records@[i0].chars_used as int));
                }
            }
            assert forall|i0: int| 0 <= i0 < a2.records@.len() implies wf_record(
                #[trigger] a2.records@[i0],
                a2.records@,
                a2.statics_view(),
            ) by {
                assert(wf_record(a1.records@[i0], a1.records@, a1.statics_view()));
                if i0 != oi {
                    let r = a2.records@[i0];
                    match r.owner {
                        None => {},
                        Some(h) => {
                            match h.source {
                                Source::Static(_) => {},
                                Source::Owned(oj) => {
                                    assert(a2.records@[oj as int].chars_used >= a1.records@[
                                        oj as int
                                    ].chars_used);
                                },
                            }
                        },
                    }
                }
            }
            assert(a1.extends(a2));
            assert forall|i0: int|
                0 <= i0 < a2.records@.len() && (#[trigger] a2.records@[i0]).interned implies a2.records@[
                i0
            ].owner is None && exists|k: int|
                0 <= k < a2.intern_table@.len() && #[trigger] a2.intern_table@[k] == i0 by {
                assert(a1.records@[i0].interned);
                let k0 = choose|k: int|
                    0 <= k < a1.intern_table@.len() && #[trigger] a1.intern_table@[k] == i0;
                assert(a2.intern_table@[k0] == i0);
            }
            assert forall|k1: int, k2: int|
                0 <= k1 < a2.intern_table@.len() && 0 <= k2 < a2.intern_table@.len() && k1 != k2
                implies a2.rec_view(#[trigger] a2.intern_table@[k1] as int) != a2.rec_view(
                #[trigger] a2.intern_table@[k2] as int,
            ) by {
                Self::lemma_rec_view_update(a1, a2, a1.intern_table@[k1]);
                Self::lemma_rec_view_update(a1, a2, a1.intern_table@[k2]);
            }
        }
    }

    /// Any record keeps its view across an extension of the arena.
    proof fn lemma_rec_view_update(a1: Arena, a2: Arena, i: usize)
        requires
            a1.wf(),
            a1.extends(a2),
            a1.records@.len() == a2.records@.len(),
            i < a1.records@.len(),
        ensures
            a2.rec_view(i as int) == a1.rec_view(i as int),
    {
        let s = AvmString { source: Source::Owned(i) };
        Self::lemma_extension_preserves_views(a1, a2, s);
        assert(a1.str_view(s) == a1.rec_view(i as int));
        assert(a2.str_view(s) == a2.rec_view(i as int));
    }
}

} // verus!
