//! The owned character buffer underlying a storage record: a growable buffer
//! of 16-bit units together with a width flag. A narrow buffer promises that
//! every unit fits in one byte (the runtime would store it one byte per
//! unit); a wide buffer stores two bytes per unit. Capacity is materialized
//! as the length of the backing vector, so spare tail capacity is explicit.

use vstd::prelude::*;

verus! {

/// Every unit of `s` fits in one byte, so `s` may be stored narrow.
pub open spec fn fits_narrow(s: Seq<u16>) -> bool {
    forall|i: int| 0 <= i < s.len() ==> s[i] < 0x100
}

/// An owned character buffer. `data.len()` is the capacity; only
/// `data[0..len]` is content, the tail is spare room for in-place growth.
pub struct WString {
    pub data: Vec<u16>,
    pub len: usize,
    pub wide: bool,
}

impl WString {
    /// The content of the buffer, without the spare tail.
    pub open spec fn units(self) -> Seq<u16> {
        self.data@.subrange(0, self.len as int)
    }

    pub open spec fn spec_capacity(self) -> int {
        self.data@.len() as int
    }

    pub open spec fn wf(self) -> bool {
        &&& self.len <= self.data@.len()
        &&& (!self.wide ==> fits_narrow(self.units()))
    }

    /// An empty narrow buffer with no capacity.
    pub fn new() -> (r: WString)
        ensures
            r.wf(),
            r.units() =~= Seq::<u16>::empty(),
            r.spec_capacity() == 0,
            !r.wide,
            r.len == 0,
    {
        WString { data: Vec::new(), len: 0, wide: false }
    }

    /// An empty buffer with room for `capacity` units of the given width.
    pub fn with_capacity(capacity: usize, wide: bool) -> (r: WString)
        ensures
            r.wf(),
            r.units() =~= Seq::<u16>::empty(),
            r.spec_capacity() == capacity,
            r.wide == wide,
            r.len == 0,
    {
        let mut data: Vec<u16> = Vec::new();
        while data.len() < capacity
            invariant
                data@.len() <= capacity,
            decreases capacity - data@.len(),
        {
            data.push(0u16);
        }
        WString { data, len: 0, wide }
    }

    /// A buffer holding exactly `units`, with no spare capacity and the
    /// given width. The caller chooses the width, as the runtime does when
    /// it copies an existing string without changing its encoding.
    pub fn from_units_with_width(units: Vec<u16>, wide: bool) -> (r: WString)
        requires
            !wide ==> fits_narrow(units@),
        ensures
            r.wf(),
            r.units() =~= units@,
            r.spec_capacity() == units@.len(),
            r.wide == wide,
    {
        let len = units.len();
        WString { data: units, len, wide }
    }

    /// A buffer holding exactly `units`, narrow when every unit fits in one
    /// byte and wide otherwise.
    pub fn from_units(units: Vec<u16>) -> (r: WString)
        ensures
            r.wf(),
            r.units() =~= units@,
            r.spec_capacity() == units@.len(),
            r.wide == !fits_narrow(units@),
    {
        let wide = !units_fit_narrow(&units);
        let len = units.len();
        WString { data: units, len, wide }
    }

    /// Append `units` after the current content, inside the existing
    /// capacity. This never reallocates: the caller must have sized the
    /// buffer beforehand.
    pub fn push_units(&mut self, units: &Vec<u16>)
        requires
            old(self).wf(),
            old(self).len + units@.len() <= old(self).spec_capacity(),
            !old(self).wide ==> fits_narrow(units@),
        ensures
            final(self).wf(),
            final(self).wide == old(self).wide,
            final(self).spec_capacity() == old(self).spec_capacity(),
            final(self).units() =~= old(self).units() + units@,
            final(self).len == old(self).len + units@.len(),
    {
        let base = self.len;
        let cap = self.data.len();
        let mut i: usize = 0;
        while i < units.len()
            invariant
                i <= units@.len(),
                base == old(self).len,
                cap == self.data@.len(),
                base + units@.len() <= cap,
                self.data@.len() == old(self).data@.len(),
                self.len == old(self).len,
                self.wide == old(self).wide,
                forall|j: int| 0 <= j < base ==> self.data@[j] == old(self).data@[j],
                forall|j: int| 0 <= j < i ==> self.data@[base + j] == units@[j],
            decreases units@.len() - i,
        {
            self.data[base + i] = units[i];
            i += 1;
        }
        self.len = base + units.len();
        proof {
            assert(self.units() =~= old(self).units() + units@);
        }
    }
}

/// True when every unit of `units` fits in one byte.
pub fn units_fit_narrow(units: &Vec<u16>) -> (r: bool)
    ensures
        r == fits_narrow(units@),
{
    let mut i: usize = 0;
    while i < units.len()
        invariant
            i <= units@.len(),
            forall|j: int| 0 <= j < i ==> units@[j] < 0x100,
        decreases units@.len() - i,
    {
        if units[i] >= 0x100 {
            return false;
        }
        i += 1;
    }
    true
}

/// Unit-wise equality of two buffers' contents.
pub fn units_eq(a: &Vec<u16>, b: &Vec<u16>) -> (r: bool)
    ensures
        r == (a@ == b@),
{
    if a.len() != b.len() {
        proof {
            assert(a@.len() != b@.len());
        }
        return false;
    }
    let mut i: usize = 0;
    while i < a.len()
        invariant
            i <= a@.len(),
            a@.len() == b@.len(),
            forall|j: int| 0 <= j < i ==> a@[j] == b@[j],
        decreases a@.len() - i,
    {
        if a[i] != b[i] {
            return false;
        }
        i += 1;
    }
    proof {
        assert(a@ =~= b@);
    }
    true
}

} // verus!
