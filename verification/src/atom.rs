//! Interning: atoms and the intern table.
//!
//! An atom is a record registered in the arena's intern table. The table
//! holds at most one record per character content, so an atom's identity —
//! its record index, the model of its allocation address — is the sole
//! equality key: equal index means equal content, distinct index means
//! distinct content. Every fast path of string equality rests on this.

use vstd::prelude::*;

use crate::arena::Arena;
use crate::avm_string::{is_record_handle, AvmString, Source};
use crate::repr::{wf_record, AvmStringRepr};
use crate::wstring::{units_eq, WString};

verus! {

/// A record known to be registered in the intern table. Copyable; `==` is
/// identity of the underlying record.
#[derive(Clone, Copy, Debug, PartialEq, Eq, Structural)]
pub struct AvmAtom {
    pub index: usize,
}

impl AvmAtom {
    pub open spec fn wf(self, arena: Arena) -> bool {
        &&& self.index < arena.records@.len()
        &&& arena.records@[self.index as int].interned
    }

    /// The atom's character sequence.
    pub open spec fn view_in(self, arena: Arena) -> Seq<u16> {
        arena.rec_view(self.index as int)
    }

    pub fn as_wstr(&self, arena: &Arena) -> (r: Vec<u16>)
        requires
            arena.wf(),
            self.wf(*arena),
        ensures
            r@ == self.view_in(*arena),
    {
        let s = AvmString { source: Source::Owned(self.index) };
        s.as_wstr(arena)
    }
}

/// An atom is a plain handle to its (owning, interned) record.
impl From<AvmAtom> for AvmString {
    fn from(atom: AvmAtom) -> (r: Self) {
        AvmString { source: Source::Owned(atom.index) }
    }
}

impl vstd::std_specs::convert::FromSpecImpl<AvmAtom> for AvmString {
    open spec fn obeys_from_spec() -> bool {
        true
    }

    open spec fn from_spec(atom: AvmAtom) -> Self {
        AvmString { source: Source::Owned(atom.index) }
    }
}

impl Arena {
    /// Atom uniqueness: the intern table never holds two distinct records
    /// with the same content, so two interned records with equal character
    /// sequences are one and the same record.
    pub proof fn lemma_interned_unique(self, i: int, j: int)
        requires
            self.wf(),
            0 <= i < self.records@.len(),
            0 <= j < self.records@.len(),
            self.records@[i].interned,
            self.records@[j].interned,
            self.rec_view(i) == self.rec_view(j),
        ensures
            i == j,
    {
        let k1 = choose|k: int|
            0 <= k < self.intern_table@.len() && #[trigger] self.intern_table@[k] == i;
        let k2 = choose|k: int|
            0 <= k < self.intern_table@.len() && #[trigger] self.intern_table@[k] == j;
        assert(self.records@[i].owner is None);
        assert(self.records@[j].owner is None);
        if k1 != k2 {
            assert(self.rec_view(self.intern_table@[k1] as int) != self.rec_view(
                self.intern_table@[k2] as int,
            ));
        }
    }

    /// Equality between two atoms is identity, never content comparison:
    /// by uniqueness of interning, equal indices and equal contents
    /// coincide.
    pub proof fn lemma_atom_eq(self, a: AvmAtom, b: AvmAtom)
        requires
            self.wf(),
            a.wf(self),
            b.wf(self),
        ensures
            (a == b) <==> (a.view_in(self) == b.view_in(self)),
    {
        if a.view_in(self) == b.view_in(self) {
            self.lemma_interned_unique(a.index as int, b.index as int);
        }
    }

    /// Intern `s`: return the atom of the unique interned record holding
    /// `s`'s content, creating a fresh fully-owned interned record when the
    /// table has none. The intern operation is the only way a record ever
    /// becomes interned inside an arena.
    pub fn intern(&mut self, s: AvmString) -> (atom: AvmAtom)
        requires
            old(self).wf(),
            old(self).wf_handle(s),
        ensures
            final(self).wf(),
            old(self).extends(*final(self)),
            atom.wf(*final(self)),
            atom.view_in(*final(self)) == old(self).str_view(s),
            forall|j: int|
                0 <= j < old(self).records@.len() && (#[trigger] old(self).records@[j]).interned
                    && old(self).rec_view(j) == old(self).str_view(s) ==> atom.index == j,
            (exists|j: int|
                0 <= j < old(self).records@.len() && (#[trigger] old(self).records@[j]).interned
                    && old(self).rec_view(j) == old(self).str_view(s)) ==> *final(self) == *old(
                self,
            ),
            !(exists|j: int|
                0 <= j < old(self).records@.len() && (#[trigger] old(self).records@[j]).interned
                    && old(self).rec_view(j) == old(self).str_view(s)) ==> atom.index == old(
                self,
            ).records@.len() && final(self).records@.len() == old(self).records@.len() + 1
                && final(self).buffer_allocs == old(self).buffer_allocs + 1,
    {
        let ghost a0 = *old(self);
        let units = s.as_wstr(self);
        let table_len = self.intern_table.len();
        let mut k: usize = 0;
        while k < table_len
            invariant
                *self == a0,
                a0.wf(),
                a0.wf_handle(s),
                table_len == a0.intern_table@.len(),
                k <= table_len,
                units@ == a0.str_view(s),
                forall|k2: int|
                    0 <= k2 < k ==> a0.rec_view(#[trigger] a0.intern_table@[k2] as int) != units@,
            decreases table_len - k,
        {
            let idx = self.intern_table[k];
            let h = AvmString { source: Source::Owned(idx) };
            let rv = h.as_wstr(self);
            if units_eq(&rv, &units) {
                let atom = AvmAtom { index: idx };
                proof {
                    assert forall|j: int|
                        0 <= j < a0.records@.len() && (#[trigger] a0.records@[j]).interned
                            && a0.rec_view(j) == a0.str_view(s) implies atom.index == j by {
                        a0.lemma_interned_unique(idx as int, j);
                    }
                }
                return atom;
            }
            k += 1;
        }
        let wide = s.is_wide(self);
        proof {
            if !wide {
                a0.lemma_narrow_view(s);
            }
        }
        let ws = WString::from_units_with_width(units, wide);
        let repr = AvmStringRepr::from_raw(ws, true);
        let idx = self.records.len();
        self.records.push(repr);
        self.intern_table.push(idx);
        let n = self.records.len();
        proof {
            assert(self.buffer_allocs < n);
        }
        self.buffer_allocs = self.buffer_allocs + 1;
        let atom = AvmAtom { index: idx };
        proof {
            let a2 = *self;
            assert(a2.statics_view() =~= a0.statics_view());
            assert(a2.rec_view(idx as int) =~= a0.str_view(s));
            assert forall|i: int| 0 <= i < a2.records@.len() implies wf_record(
                #[trigger] a2.records@[i],
                a2.records@,
                a2.statics_view(),
            ) by {
                if i < a0.records@.len() {
                    assert(wf_record(a0.records@[i], a0.records@, a0.statics_view()));
                } else {
                    assert(a2.records@[i] == repr);
                }
            }
            // no interned record held this content before: the table is
            // exhaustive, and the scan rejected every entry
            assert forall|j: int|
                0 <= j < a0.records@.len() && (#[trigger] a0.records@[j]).interned implies a0.rec_view(
                j,
            ) != units@ by {
                let k0 = choose|kk: int|
                    0 <= kk < a0.intern_table@.len() && #[trigger] a0.intern_table@[kk] == j;
                assert(a0.rec_view(a0.intern_table@[k0] as int) != units@);
            }
            assert forall|i: int|
                0 <= i < a2.records@.len() && (#[trigger] a2.records@[i]).interned implies a2.records@[
                i
            ].owner is None && exists|kk: int|
                0 <= kk < a2.intern_table@.len() && #[trigger] a2.intern_table@[kk] == i by {
                if i < a0.records@.len() {
                    assert(a0.records@[i].interned);
                    let k0 = choose|kk: int|
                        0 <= kk < a0.intern_table@.len() && #[trigger] a0.intern_table@[kk] == i;
                    assert(a2.intern_table@[k0] == i);
                } else {
                    assert(a2.intern_table@[a0.intern_table@.len() as int] == i);
                }
            }
            assert forall|k1: int, k2: int|
                0 <= k1 < a2.intern_table@.len() && 0 <= k2 < a2.intern_table@.len() && k1 != k2
                implies a2.rec_view(#[trigger] a2.intern_table@[k1] as int) != a2.rec_view(
                #[trigger] a2.intern_table@[k2] as int,
            ) by {
                let last = a0.intern_table@.len() as int;
                if k1 < last && k2 < last {
                    assert(a0.rec_view(a0.intern_table@[k1] as int) != a0.rec_view(
                        a0.intern_table@[k2] as int,
                    ));
                    Self::lemma_rec_view_push(a0, a2, a0.intern_table@[k1]);
                    Self::lemma_rec_view_push(a0, a2, a0.intern_table@[k2]);
                } else if k1 == last {
                    assert(a0.records@[a2.intern_table@[k2] as int].interned);
                    assert(a0.rec_view(a2.intern_table@[k2] as int) != units@);
                    Self::lemma_rec_view_push(a0, a2, a2.intern_table@[k2]);
                    assert(a2.rec_view(a2.intern_table@[k1] as int) == units@);
                } else {
                    assert(a0.records@[a2.intern_table@[k1] as int].interned);
                    assert(a0.rec_view(a2.intern_table@[k1] as int) != units@);
                    Self::lemma_rec_view_push(a0, a2, a2.intern_table@[k1]);
                    assert(a2.rec_view(a2.intern_table@[k2] as int) == units@);
                }
            }
            assert(a0.extends(a2)) by {
                assert forall|i: int| 0 <= i < a0.records@.len() implies Self::rec_extends(
                    #[trigger] a0.records@[i],
                    a2.records@[i],
                ) by {
                    assert(a2.records@[i] == a0.records@[i]);
                    assert(a2.records@[i].data@.subrange(0, a0.records@[i].chars_used as int)
                        =~= a0.records@[i].data@.subrange(0, a0.records@[i].chars_used as int));
                }
            }
        }
        atom
    }

    /// Views of existing records survive a push of a new record.
    proof fn lemma_rec_view_push(a0: Arena, a2: Arena, i: usize)
        requires
            a0.wf(),
            i < a0.records@.len(),
            a0.records@.len() <= a2.records@.len(),
            forall|j: int| 0 <= j < a0.records@.len() ==> a2.records@[j] == #[trigger] a0.records@[
                j
            ],
            a0.statics@ == a2.statics@,
        ensures
            a2.rec_view(i as int) == a0.rec_view(i as int),
    {
        let r = a0.records@[i as int];
        assert(wf_record(r, a0.records@, a0.statics_view()));
        match r.owner {
            None => {},
            Some(h) => {
                match h.source {
                    Source::Static(_) => {},
                    Source::Owned(oi) => {
                        assert(a2.records@[oi as int] == a0.records@[oi as int]);
                    },
                }
            },
        }
    }
}

impl AvmString {
    /// The atom view of this handle, when its record is interned.
    pub fn as_interned(&self, arena: &Arena) -> (r: Option<AvmAtom>)
        requires
            arena.wf(),
            arena.wf_handle(*self),
        ensures
            match r {
                Some(atom) => atom.wf(*arena) && is_record_handle(*self, atom.index as int)
                    && atom.view_in(*arena) == arena.str_view(*self),
                None => match self.source {
                    Source::Owned(i) => !arena.records@[i as int].interned,
                    Source::Static(_) => true,
                },
            },
    {
        match self.source {
            Source::Owned(i) => {
                if arena.records[i].is_interned() {
                    Some(AvmAtom { index: i })
                } else {
                    None
                }
            },
            Source::Static(_) => None,
        }
    }

    /// Turn the handle into a fully owned (non-dependent) record: the
    /// record itself when it already owns its storage, else a fresh record
    /// holding a copy of the content.
    pub fn to_fully_owned(self, arena: &mut Arena) -> (idx: usize)
        requires
            old(arena).wf(),
            old(arena).wf_handle(self),
        ensures
            final(arena).wf(),
            old(arena).extends(*final(arena)),
            idx < final(arena).records@.len(),
            final(arena).records@[idx as int].owner is None,
            final(arena).rec_view(idx as int) == old(arena).str_view(self),
            final(arena).records@[idx as int].wide == old(arena).str_wide(self),
            (match self.source {
                Source::Owned(i) => old(arena).records@[i as int].owner is None,
                Source::Static(_) => false,
            }) ==> *final(arena) == *old(arena) && is_record_handle(self, idx as int),
            !(match self.source {
                Source::Owned(i) => old(arena).records@[i as int].owner is None,
                Source::Static(_) => false,
            }) ==> {
                &&& idx == old(arena).records@.len()
                &&& final(arena).records@.len() == old(arena).records@.len() + 1
                &&& final(arena).buffer_allocs == old(arena).buffer_allocs + 1
                &&& !final(arena).records@[idx as int].interned
                &&& final(arena).intern_table@ == old(arena).intern_table@
                &&& forall|i: int|
                    0 <= i < old(arena).records@.len() ==> (#[trigger] final(arena).records@[i])
                        == old(arena).records@[i]
            },
    {
        let dependent = match self.source {
            Source::Owned(i) => arena.records[i].is_dependent(),
            Source::Static(_) => true,
        };
        if !dependent {
            if let Source::Owned(i) = self.source {
                return i;
            }
        }
        let ghost a0 = *old(arena);
        let units = self.as_wstr(arena);
        let wide = self.is_wide(arena);
        proof {
            if !wide {
                arena.lemma_narrow_view(self);
            }
        }
        let ws = WString::from_units_with_width(units, wide);
        let repr = AvmStringRepr::from_raw(ws, false);
        let idx = arena.allocate(repr);
        proof {
            assert(arena.rec_view(idx as int) =~= a0.str_view(self));
        }
        idx
    }

    /// Content equality, with the runtime's fast paths: accept two handles
    /// of the identical record at once, reject two distinct atoms at once
    /// (uniqueness of interning makes distinct interned records hold
    /// distinct content), and only otherwise compare unit by unit.
    pub fn eq(arena: &Arena, a: &AvmString, b: &AvmString) -> (r: bool)
        requires
            arena.wf(),
            arena.wf_handle(*a),
            arena.wf_handle(*b),
        ensures
            r == (arena.str_view(*a) == arena.str_view(*b)),
    {
        if let (Source::Owned(ia), Source::Owned(ib)) = (a.source, b.source) {
            if ia == ib {
                return true;
            } else if arena.records[ia].is_interned() && arena.records[ib].is_interned() {
                proof {
                    if arena.str_view(*a) == arena.str_view(*b) {
                        arena.lemma_interned_unique(ia as int, ib as int);
                    }
                }
                return false;
            }
        }
        let ua = a.as_wstr(arena);
        let ub = b.as_wstr(arena);
        units_eq(&ua, &ub)
    }
}

} // verus!
