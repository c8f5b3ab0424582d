//! The string handle: a cheap, copyable value naming either a process-wide
//! static character sequence or a storage record in the arena. Handles are
//! never mutated after construction; all operations build new handles.

use vstd::prelude::*;

use crate::arena::Arena;
use crate::repr::{wf_record, AvmStringRepr};
use crate::wstring::WString;

verus! {

/// The capacity the slow concatenation path allocates for a result of `n`
/// units: a 32-unit floor, doubling in the middle range, and a fixed 1-MiB
/// headroom above 1 MiB. These constants reproduce a legacy runtime's
/// observed append-growth curve and are fixed product requirements.
pub open spec fn grow_capacity(n: int) -> int {
    if n < 32 {
        32
    } else if n > 0x100000 {
        n + 0x100000
    } else {
        2 * n
    }
}

/// `s` is the handle of record `idx`.
pub open spec fn is_record_handle(s: AvmString, idx: int) -> bool {
    match s.source {
        Source::Owned(i) => i == idx,
        Source::Static(_) => false,
    }
}

/// Where a handle's characters live: a static entry of the arena's static
/// table (no owned storage, never collected) or a storage record.
///
/// In this model a static entry index stands for the address of a
/// process-wide constant: two handles naming the same entry are the same
/// static string.
#[derive(Clone, Copy, Debug, PartialEq, Eq, Structural)]
pub enum Source {
    Owned(usize),
    Static(usize),
}

/// A string handle. Copyable; equality of the `source` fields is identity
/// (the same allocation), not content equality.
#[derive(Clone, Copy, Debug, PartialEq, Eq, Structural)]
pub struct AvmString {
    pub source: Source,
}

/// The default handle is the empty static string, which every arena holds
/// at static slot 0.
impl Default for AvmString {
    fn default() -> (r: Self)
        ensures
            r == (AvmString { source: Source::Static(0) }),
    {
        AvmString { source: Source::Static(0) }
    }
}

impl AvmString {
    /// The handle for an already-allocated record.
    pub fn from_record(index: usize) -> (r: Self)
        ensures
            r == (AvmString { source: Source::Owned(index) }),
    {
        AvmString { source: Source::Owned(index) }
    }

    /// The length of the visible character sequence.
    pub fn len(&self, arena: &Arena) -> (r: usize)
        requires
            arena.wf(),
            arena.wf_handle(*self),
        ensures
            r == arena.str_view(*self).len(),
    {
        match self.source {
            Source::Static(si) => arena.static_len(si),
            Source::Owned(i) => arena.records[i].len,
        }
    }

    pub fn is_empty(&self, arena: &Arena) -> (r: bool)
        requires
            arena.wf(),
            arena.wf_handle(*self),
        ensures
            r == (arena.str_view(*self).len() == 0),
    {
        self.len(arena) == 0
    }

    /// Whether the handle's characters use the wide encoding.
    pub fn is_wide(&self, arena: &Arena) -> (r: bool)
        requires
            arena.wf(),
            arena.wf_handle(*self),
        ensures
            r == arena.str_wide(*self),
    {
        match self.source {
            Source::Static(si) => arena.static_wide(si),
            Source::Owned(i) => arena.records[i].wide,
        }
    }

    /// The unit at position `i` of the visible character sequence.
    pub fn unit_at(&self, arena: &Arena, i: usize) -> (r: u16)
        requires
            arena.wf(),
            arena.wf_handle(*self),
            i < arena.str_view(*self).len(),
        ensures
            r == arena.str_view(*self)[i as int],
    {
        match self.source {
            Source::Static(si) => arena.static_unit(si, i),
            Source::Owned(ri) => {
                proof {
                    assert(crate::repr::wf_record(
                        arena.records@[ri as int],
                        arena.records@,
                        arena.statics_view(),
                    ));
                }
                let start = arena.records[ri].start;
                match arena.records[ri].owner {
                    None => arena.records[ri].data[i],
                    Some(h) => match h.source {
                        Source::Static(si) => {
                            let slen = arena.static_len(si);
                            proof {
                                assert(start + i < slen);
                            }
                            arena.static_unit(si, start + i)
                        },
                        Source::Owned(oi) => arena.records[oi].data[start + i],
                    },
                }
            },
        }
    }

    /// The visible character sequence, materialized. This is the model's
    /// borrowed character view: callers read through it, never through the
    /// storage record directly.
    pub fn as_wstr(&self, arena: &Arena) -> (r: Vec<u16>)
        requires
            arena.wf(),
            arena.wf_handle(*self),
        ensures
            r@ == arena.str_view(*self),
    {
        let n = self.len(arena);
        let mut out: Vec<u16> = Vec::new();
        let mut i: usize = 0;
        while i < n
            invariant
                arena.wf(),
                arena.wf_handle(*self),
                i <= n,
                n == arena.str_view(*self).len(),
                out@.len() == i,
                forall|j: int| 0 <= j < i ==> out@[j] == arena.str_view(*self)[j],
            decreases n - i,
        {
            let u = self.unit_at(arena, i);
            out.push(u);
            i += 1;
        }
        proof {
            assert(out@ =~= arena.str_view(*self));
        }
        out
    }

    /// The ultimate owning handle of a dependent string, or `None` for a
    /// handle whose record owns its storage or is static.
    pub fn owner(&self, arena: &Arena) -> (r: Option<AvmString>)
        requires
            arena.wf(),
            arena.wf_handle(*self),
        ensures
            r == arena.spec_owner(*self),
    {
        match self.source {
            Source::Owned(i) => arena.records[i].owner,
            Source::Static(_) => None,
        }
    }

    /// Allocate a new non-dependent, non-interned record holding `buf`.
    pub fn new(arena: &mut Arena, buf: WString) -> (res: AvmString)
        requires
            old(arena).wf(),
            buf.wf(),
        ensures
            final(arena).wf(),
            old(arena).extends(*final(arena)),
            final(arena).wf_handle(res),
            is_record_handle(res, old(arena).records@.len() as int),
            final(arena).records@.len() == old(arena).records@.len() + 1,
            final(arena).str_view(res) == buf.units(),
            final(arena).str_wide(res) == buf.wide,
            final(arena).spec_owner(res) is None,
            final(arena).buffer_allocs == old(arena).buffer_allocs + 1,
            final(arena).intern_table@ == old(arena).intern_table@,
            final(arena).records@[old(arena).records@.len() as int].data@.len()
                == buf.spec_capacity(),
            final(arena).records@[old(arena).records@.len() as int].chars_used == buf.len,
            !final(arena).records@[old(arena).records@.len() as int].interned,
            forall|i: int|
                0 <= i < old(arena).records@.len() ==> (#[trigger] final(arena).records@[i])
                    == old(arena).records@[i],
    {
        let ghost u = buf.units();
        let repr = AvmStringRepr::from_raw(buf, false);
        let idx = arena.allocate(repr);
        let res = AvmString { source: Source::Owned(idx) };
        proof {
            assert(arena.str_view(res) =~= u);
        }
        res
    }

    /// Zero-copy substring: a new handle whose record borrows
    /// `string[start..end]` and whose owner is `string`'s ultimate owner.
    /// No character buffer is allocated.
    pub fn new_dependent(arena: &mut Arena, string: AvmString, start: usize, end: usize) -> (res:
        AvmString)
        requires
            old(arena).wf(),
            old(arena).wf_handle(string),
            start <= end <= old(arena).str_view(string).len(),
        ensures
            final(arena).wf(),
            old(arena).extends(*final(arena)),
            final(arena).wf_handle(res),
            is_record_handle(res, old(arena).records@.len() as int),
            final(arena).records@.len() == old(arena).records@.len() + 1,
            final(arena).str_view(res) == old(arena).str_view(string).subrange(
                start as int,
                end as int,
            ),
            final(arena).str_wide(res) == old(arena).str_wide(string),
            final(arena).spec_owner(res) == Some(old(arena).origin_handle(string)),
            final(arena).buffer_allocs == old(arena).buffer_allocs,
            final(arena).intern_table@ == old(arena).intern_table@,
            forall|i: int|
                0 <= i < old(arena).records@.len() ==> (#[trigger] final(arena).records@[i])
                    == old(arena).records@[i],
    {
        let ghost a0 = *old(arena);
        let repr = AvmStringRepr::new_dependent(arena, string, start, end);
        let ghost r = repr;
        let idx = arena.allocate(repr);
        let res = AvmString { source: Source::Owned(idx) };
        proof {
            let a2 = *arena;
            let sview = a0.str_view(string);
            assert(a2.records@[idx as int] == r);
            match string.source {
                Source::Static(si) => {
                    assert(a2.rec_view(idx as int) =~= sview.subrange(start as int, end as int));
                },
                Source::Owned(li) => {
                    assert(wf_record(a0.records@[li as int], a0.records@, a0.statics_view()));
                    assert(a2.records@[li as int] == a0.records@[li as int]);
                    match a0.records@[li as int].owner {
                        None => {
                            assert(a2.rec_view(idx as int) =~= sview.subrange(
                                start as int,
                                end as int,
                            ));
                        },
                        Some(o) => match o.source {
                            Source::Static(_) => {
                                assert(a2.rec_view(idx as int) =~= sview.subrange(
                                    start as int,
                                    end as int,
                                ));
                            },
                            Source::Owned(oi) => {
                                assert(a2.records@[oi as int] == a0.records@[oi as int]);
                                assert(a2.rec_view(idx as int) =~= sview.subrange(
                                    start as int,
                                    end as int,
                                ));
                            },
                        },
                    }
                },
            }
        }
        res
    }

    /// Concatenation, the busiest path of the runtime.
    ///
    /// Evaluated in order: an empty operand returns the other handle
    /// unchanged, with no allocation; same-width operands whose left side
    /// is exactly the most recently published tail of an arena-owned
    /// buffer with enough spare capacity are appended in place (no fresh
    /// character buffer, a new dependent record over the extended range);
    /// everything else copies both operands into a fresh buffer sized by
    /// [`grow_capacity`], anticipating further in-place appends.
    ///
    /// The in-place path never executes unless the published-tail check
    /// holds, so no previously handed-out view is disturbed: the arena
    /// only `extends`, and [`Arena::lemma_extension_preserves_views`]
    /// applies.
    pub fn concat(arena: &mut Arena, left: AvmString, right: AvmString) -> (res: AvmString)
        requires
            old(arena).wf(),
            old(arena).wf_handle(left),
            old(arena).wf_handle(right),
            old(arena).str_view(left).len() + old(arena).str_view(right).len() + 0x100000
                <= usize::MAX,
        ensures
            final(arena).wf(),
            old(arena).extends(*final(arena)),
            final(arena).wf_handle(res),
            final(arena).str_view(res) == old(arena).str_view(left) + old(arena).str_view(right),
            final(arena).str_view(res).len() == old(arena).str_view(left).len() + old(
                arena,
            ).str_view(right).len(),
            forall|i: int|
                0 <= i < old(arena).records@.len() && (!old(arena).takes_inplace(left, right)
                    || old(arena).inplace_origin(left) != Some(i))
                    ==> (#[trigger] final(arena).records@[i]) == old(arena).records@[i],
            old(arena).str_view(left).len() == 0 ==> res == right && *final(arena) == *old(arena),
            old(arena).str_view(left).len() > 0 && old(arena).str_view(right).len() == 0 ==> res
                == left && *final(arena) == *old(arena),
            old(arena).str_view(left).len() > 0 && old(arena).str_view(right).len() > 0 ==> {
                &&& is_record_handle(res, old(arena).records@.len() as int)
                &&& final(arena).records@.len() == old(arena).records@.len() + 1
                &&& final(arena).str_wide(res) == (old(arena).str_wide(left) || old(
                    arena,
                ).str_wide(right))
                &&& final(arena).intern_table@ == old(arena).intern_table@
            },
            old(arena).str_view(left).len() > 0 && old(arena).str_view(right).len() > 0 && old(
                arena,
            ).takes_inplace(left, right) ==> {
                &&& final(arena).buffer_allocs == old(arena).buffer_allocs
                &&& final(arena).spec_owner(res) == Some(old(arena).origin_handle(left))
                &&& final(arena).records@[old(arena).records@.len() as int].start == old(
                    arena,
                ).view_start(left)
                &&& final(arena).records@[old(arena).records@.len() as int].len == old(
                    arena,
                ).str_view(left).len() + old(arena).str_view(right).len()
                &&& match old(arena).inplace_origin(left) {
                    Some(oi) => {
                        let r0 = old(arena).records@[oi];
                        let r2 = final(arena).records@[oi];
                        let rlen = old(arena).str_view(right).len();
                        &&& r2.chars_used == r0.chars_used + rlen
                        &&& r2.len == r0.len
                        &&& r2.wide == r0.wide
                        &&& r2.start == r0.start
                        &&& r2.owner == r0.owner
                        &&& r2.interned == r0.interned
                        &&& r2.data@.len() == r0.data@.len()
                        &&& r2.data@.subrange(0, r0.chars_used as int) == r0.data@.subrange(
                            0,
                            r0.chars_used as int,
                        )
                        &&& r2.data@.subrange(
                            r0.chars_used as int,
                            r0.chars_used + rlen,
                        ) == old(arena).str_view(right)
                    },
                    None => false,
                }
            },
            old(arena).str_view(left).len() > 0 && old(arena).str_view(right).len() > 0 && !old(
                arena,
            ).takes_inplace(left, right) ==> {
                &&& final(arena).buffer_allocs == old(arena).buffer_allocs + 1
                &&& final(arena).spec_owner(res) is None
                &&& final(arena).records@[old(arena).records@.len() as int].data@.len()
                    == grow_capacity(
                    old(arena).str_view(left).len() + old(arena).str_view(right).len() as int,
                )
                &&& final(arena).records@[old(arena).records@.len() as int].chars_used == old(
                    arena,
                ).str_view(left).len() + old(arena).str_view(right).len()
                &&& !final(arena).records@[old(arena).records@.len() as int].interned
            },
    {
        let ghost a0 = *old(arena);
        let llen = left.len(arena);
        if llen == 0 {
            proof {
                assert(a0.str_view(left) + a0.str_view(right) =~= a0.str_view(right));
            }
            return right;
        }
        let rlen = right.len(arena);
        if rlen == 0 {
            proof {
                assert(a0.str_view(left) + a0.str_view(right) =~= a0.str_view(left));
            }
            return left;
        }
        let lwide = left.is_wide(arena);
        let rwide = right.is_wide(arena);
        if lwide == rwide {
            if let Source::Owned(li) = left.source {
                proof {
                    assert(wf_record(arena.records@[li as int], arena.records@,
                        arena.statics_view()));
                }
                let lstart = arena.records[li].start;
                let ow = arena.records[li].owner;
                let origin: Option<(AvmString, usize)> = match ow {
                    None => Some((left, li)),
                    Some(o) => match o.source {
                        Source::Owned(oi) => Some((o, oi)),
                        Source::Static(_) => None,
                    },
                };
                if let Some((origin_h, oi)) = origin {
                    proof {
                        assert(wf_record(arena.records@[oi as int], arena.records@,
                            arena.statics_view()));
                    }
                    let used = arena.records[oi].chars_used;
                    let cap = arena.records[oi].data.len();
                    if lstart + llen == used && cap - used >= rlen {
                        proof {
                            assert(a0.takes_inplace(left, right));
                            if !a0.records@[oi as int].wide {
                                a0.lemma_narrow_view(right);
                            }
                        }
                        let runits = right.as_wstr(arena);
                        arena.publish_append(oi, &runits);
                        let ghost a1 = *arena;
                        let repr = AvmStringRepr::new_dependent_raw(
                            arena,
                            origin_h,
                            lstart,
                            llen + rlen,
                            lwide,
                        );
                        let idx = arena.allocate(repr);
                        let res = AvmString { source: Source::Owned(idx) };
                        proof {
                            let a2 = *arena;
                            Arena::lemma_extends_trans(a0, a1, a2);
                            assert(a0.inplace_origin(left) == Some(oi as int));
                            assert forall|i: int|
                                0 <= i < a0.records@.len() && i != oi implies (#[trigger] a2.records@[
                                i
                            ]) == a0.records@[i] by {
                                assert(a1.records@[i] == a0.records@[i]);
                                assert(a2.records@[i] == a1.records@[i]);
                            }
                            let od = a0.records@[oi as int].data@;
                            let nd = a2.records@[oi as int].data@;
                            assert(a2.records@[oi as int] == a1.records@[oi as int]);
                            assert forall|j: int| 0 <= j < used implies nd[j] == od[j] by {
                                assert(a1.records@[oi as int].data@.subrange(0, used as int)[j]
                                    == od.subrange(0, used as int)[j]);
                            }
                            assert forall|j: int| 0 <= j < rlen implies nd[used + j]
                                == a0.str_view(right)[j] by {
                                assert(a1.records@[oi as int].data@.subrange(
                                    used as int,
                                    used + rlen,
                                )[j] == runits@[j]);
                            }
                            assert(a0.str_view(left) =~= od.subrange(
                                lstart as int,
                                lstart + llen,
                            ));
                            assert(a2.rec_view(idx as int) =~= a0.str_view(left) + a0.str_view(
                                right,
                            ));
                        }
                        return res;
                    }
                }
            }
        }
        let n = llen + rlen;
        let new_capacity = if n < 32 {
            32
        } else if n > 0x100000 {
            n + 0x100000
        } else {
            n * 2
        };
        proof {
            assert(new_capacity == grow_capacity(n as int));
            assert(!a0.takes_inplace(left, right));
            if !(lwide || rwide) {
                a0.lemma_narrow_view(left);
                a0.lemma_narrow_view(right);
            }
        }
        let lunits = left.as_wstr(arena);
        let runits = right.as_wstr(arena);
        let mut out = WString::with_capacity(new_capacity, lwide || rwide);
        out.push_units(&lunits);
        out.push_units(&runits);
        let res = AvmString::new(arena, out);
        proof {
            assert(arena.str_view(res) == a0.str_view(left) + a0.str_view(right));
        }
        res
    }

    /// Identity comparison: do the two handles name the very same
    /// allocation (the same record, or the same static entry)? In this
    /// model a static entry index stands for a static string's address.
    pub fn ptr_eq(this: &AvmString, other: &AvmString) -> (r: bool)
        ensures
            r == (this.source == other.source),
    {
        match (this.source, other.source) {
            (Source::Owned(a), Source::Owned(b)) => a == b,
            (Source::Static(a), Source::Static(b)) => a == b,
            _ => false,
        }
    }
}

} // verus!
