//! The form in which the arguments and results of a function are kept in a
//! trace.
use crate::values::{zero_padded, FlatBytes, Val, ValRaw, ValType, SLOT_WIDTH};
use vstd::prelude::*;
use vstd::slice::slice_subrange;
use vstd::std_specs::iter::IteratorSpec;

verus! {

/// The values of a function's arguments or results: for each of them how many
/// bytes it takes up, and the bytes of all of them one after the other.
#[derive(Debug, PartialEq, Eq)]
pub struct RRFuncArgVals {
    pub bytes: Vec<u8>,
    pub sizes: Vec<u8>,
}

/// The mathematical form of [`RRFuncArgVals`].
#[verifier::ext_equal]
pub struct ArgValsView {
    pub bytes: Seq<u8>,
    pub sizes: Seq<u8>,
}

impl View for RRFuncArgVals {
    type V = ArgValsView;

    open spec fn view(&self) -> ArgValsView {
        ArgValsView { bytes: self.bytes@, sizes: self.sizes@ }
    }
}

/// Where value number `i` begins, if values of these sizes follow one another.
pub open spec fn offset(sizes: Seq<u8>, i: int) -> int
    decreases i,
{
    if i <= 0 {
        0
    } else {
        offset(sizes, i - 1) + sizes[i - 1]
    }
}

pub open spec fn min_len(a: nat, b: nat) -> nat {
    if a <= b {
        a
    } else {
        b
    }
}

impl ArgValsView {
    /// The bytes of value number `i`.
    pub open spec fn chunk(self, i: int) -> Seq<u8> {
        self.bytes.subrange(offset(self.sizes, i), offset(self.sizes, i) + self.sizes[i])
    }

    /// The first `n` values each fit a slot and lie within the bytes.
    pub open spec fn readable(self, n: int) -> bool {
        &&& slots_fit(self.sizes, n)
        &&& offset(self.sizes, n) <= self.bytes.len()
    }

    /// Every value fits a slot and lies within the bytes.
    pub open spec fn well_formed(self) -> bool {
        self.readable(self.sizes.len() as int)
    }
}

/// The first `n` of the sizes, or all where there are fewer, do not exceed a
/// slot.
pub open spec fn slots_fit(sizes: Seq<u8>, n: int) -> bool {
    forall|i: int| 0 <= i < n && i < sizes.len() ==> #[trigger] sizes[i] <= SLOT_WIDTH
}

/// The lowest `sizes[i]` bytes of each `args[i]`, one after the other.
pub open spec fn flat_bytes<T: FlatBytes>(args: Seq<T>, sizes: Seq<u8>) -> Seq<u8>
    decreases sizes.len(),
{
    if sizes.len() == 0 {
        Seq::empty()
    } else {
        flat_bytes(args, sizes.drop_last()) + args[sizes.len() - 1].flat().take(
            sizes.last() as int,
        )
    }
}

/// The trace form of `args`, where `sizes` gives how many bytes each takes up.
/// Values without a size and sizes without a value are left out.
pub open spec fn flattened<T: FlatBytes>(args: Seq<T>, sizes: Seq<u8>) -> ArgValsView {
    let n = min_len(args.len(), sizes.len()) as int;
    ArgValsView { bytes: flat_bytes(args, sizes.take(n)), sizes: sizes.take(n) }
}

/// `after` is `before` with as many values as both sides have overwritten from
/// `vals`.
pub open spec fn overwritten<T: FlatBytes>(
    vals: ArgValsView,
    before: Seq<T>,
    after: Seq<T>,
) -> bool {
    &&& after.len() == before.len()
    &&& forall|i: int|
        0 <= i < after.len() ==> if i < vals.sizes.len() {
            (#[trigger] after[i]).flat() == zero_padded(vals.chunk(i))
        } else {
            after[i] == before[i]
        }
}

/// `params` are the values of `vals`, typed by `types`, as far as both go.
pub open spec fn typed_as(params: Seq<Val>, vals: ArgValsView, types: Seq<ValType>) -> bool {
    &&& params.len() == min_len(types.len(), vals.sizes.len())
    &&& forall|i: int|
        0 <= i < params.len() ==> {
            &&& (#[trigger] params[i]).ty == types[i]
            &&& params[i].raw.flat() == zero_padded(vals.chunk(i))
        }
}

/// Later values begin later.
pub proof fn lemma_offset_monotonic(sizes: Seq<u8>, i: int, j: int)
    requires
        0 <= i <= j,
    ensures
        0 <= offset(sizes, i) <= offset(sizes, j),
    decreases j,
{
    if i < j {
        lemma_offset_monotonic(sizes, i, j - 1);
    } else if i > 0 {
        lemma_offset_monotonic(sizes, i - 1, j - 1);
    }
}

/// Where all values can be read, so can the first `n`.
pub proof fn lemma_readable_prefix(vals: ArgValsView, n: int)
    requires
        vals.well_formed(),
        0 <= n <= vals.sizes.len(),
    ensures
        vals.readable(n),
{
    lemma_offset_monotonic(vals.sizes, n, vals.sizes.len() as int);
}

/// Whether the first `n` of the sizes, or all where there are fewer, do not
/// exceed a slot.
pub fn sizes_fit_slots(sizes: &[u8], n: usize) -> (fit: bool)
    ensures
        fit == slots_fit(sizes@, n as int),
{
    let mut i: usize = 0;
    while i < n && i < sizes.len()
        invariant
            i <= n,
            i <= sizes@.len(),
            slots_fit(sizes@, i as int),
        decreases n - i,
    {
        if sizes[i] as usize > SLOT_WIDTH {
            return false;
        }
        i = i + 1;
    }
    true
}

/// Whether the two byte strings are equal.
pub fn bytes_equal(a: &Vec<u8>, b: &Vec<u8>) -> (equal: bool)
    ensures
        equal == (a@ == b@),
{
    if a.len() != b.len() {
        return false;
    }
    let mut i: usize = 0;
    while i < a.len()
        invariant
            a@.len() == b@.len(),
            i <= a@.len(),
            forall|k: int| 0 <= k < i ==> a@[k] == b@[k],
        decreases a@.len() - i,
    {
        if a[i] != b[i] {
            return false;
        }
        i = i + 1;
    }
    assert(a@ =~= b@);
    true
}

fn append_bytes(to: &mut Vec<u8>, from: &Vec<u8>)
    ensures
        final(to)@ == old(to)@ + from@,
{
    let mut i: usize = 0;
    while i < from.len()
        invariant
            i <= from@.len(),
            to@ == old(to)@ + from@.take(i as int),
        decreases from@.len() - i,
    {
        to.push(from[i]);
        i = i + 1;
        assert(to@ =~= old(to)@ + from@.take(i as int));
    }
    assert(from@.take(i as int) =~= from@);
}

impl RRFuncArgVals {
    /// Takes `flat` bytes from each of `args`, as far as both go.
    pub fn from_flat_iter<T, I>(args: &[T], flat: I) -> (vals: Self) where
        T: FlatBytes,
        I: Iterator<Item = u8>,

        requires
            flat.obeys_prophetic_iter_laws(),
            slots_fit(flat.remaining(), args@.len() as int),
        ensures
            vals@ == flattened(args@, flat.remaining()),
    {
        let ghost all = flat.remaining();
        let ghost n = min_len(args@.len(), all.len()) as int;
        let mut flat = flat;
        let mut bytes: Vec<u8> = Vec::new();
        let mut sizes: Vec<u8> = Vec::new();
        let mut i: usize = 0;
        while i < args.len()
            invariant_except_break
                i <= n,
            invariant
                n == min_len(args@.len(), all.len()),
                slots_fit(all, args@.len() as int),
                flat.obeys_prophetic_iter_laws(),
                flat.remaining() == all.skip(i as int),
                sizes@ == all.take(i as int),
                bytes@ == flat_bytes(args@, all.take(i as int)),
            ensures
                i == n,
            decreases args@.len() - i,
        {
            match flat.next() {
                Some(size) => {
                    assert(size == all[i as int]);
                    let value = args[i].bytes(size);
                    append_bytes(&mut bytes, &value);
                    sizes.push(size);
                    i = i + 1;
                    assert(all.skip(i - 1).drop_first() =~= all.skip(i as int));
                    assert(sizes@ =~= all.take(i as int));
                    assert(all.take(i as int).drop_last() =~= all.take(i - 1));
                },
                None => {
                    break;
                },
            }
        }
        RRFuncArgVals { bytes, sizes }
    }

    /// Reads the bytes of value number `i`.
    fn read_slot<T: FlatBytes>(&self, pos: usize, i: usize) -> (value: T)
        requires
            i < self.sizes@.len(),
            self@.readable(i + 1),
            pos == offset(self.sizes@, i as int),
        ensures
            value.flat() == zero_padded(self@.chunk(i as int)),
            pos + self.sizes@[i as int] <= self.bytes.len(),
    {
        assert(offset(self.sizes@, i + 1) == pos + self.sizes@[i as int]);
        assert(self.sizes@[i as int] <= SLOT_WIDTH);
        let size = self.sizes[i] as usize;
        assert(pos + size <= self.bytes.len());
        T::from_bytes(slice_subrange(self.bytes.as_slice(), pos, pos + size))
    }

    /// Writes the values back into raw slots, as far as both go.
    pub fn into_raw_slice<T: FlatBytes>(self, raw_args: &mut [T])
        requires
            self@.readable(min_len(old(raw_args)@.len(), self@.sizes.len()) as int),
        ensures
            overwritten(self@, old(raw_args)@, final(raw_args)@),
    {
        let ghost n = min_len(old(raw_args)@.len(), self@.sizes.len()) as int;
        let mut pos: usize = 0;
        let mut i: usize = 0;
        while i < raw_args.len() && i < self.sizes.len()
            invariant
                n == min_len(old(raw_args)@.len(), self@.sizes.len()),
                self@.readable(n),
                i <= n,
                pos == offset(self@.sizes, i as int),
                raw_args@.len() == old(raw_args)@.len(),
                forall|k: int|
                    0 <= k < raw_args@.len() ==> if k < i {
                        (#[trigger] raw_args@[k]).flat() == zero_padded(self@.chunk(k))
                    } else {
                        raw_args@[k] == old(raw_args)@[k]
                    },
            decreases n - i,
        {
            proof {
                lemma_offset_monotonic(self@.sizes, i + 1, n);
            }
            let value: T = self.read_slot(pos, i);
            raw_args[i] = value;
            pos = pos + self.sizes[i] as usize;
            i = i + 1;
        }
    }

    /// Gives the values the types `types`, as far as both go.
    pub fn to_val_vec(&self, types: &Vec<ValType>) -> (params: Vec<Val>)
        requires
            self@.readable(min_len(types@.len(), self@.sizes.len()) as int),
        ensures
            typed_as(params@, self@, types@),
    {
        let ghost n = min_len(types@.len(), self@.sizes.len()) as int;
        let mut params: Vec<Val> = Vec::new();
        let mut pos: usize = 0;
        let mut i: usize = 0;
        while i < types.len() && i < self.sizes.len()
            invariant
                n == min_len(types@.len(), self@.sizes.len()),
                self@.readable(n),
                i <= n,
                pos == offset(self@.sizes, i as int),
                params@.len() == i,
                forall|k: int|
                    0 <= k < i ==> {
                        &&& (#[trigger] params@[k]).ty == types@[k]
                        &&& params@[k].raw.flat() == zero_padded(self@.chunk(k))
                    },
            decreases n - i,
        {
            proof {
                lemma_offset_monotonic(self@.sizes, i + 1, n);
            }
            let raw: ValRaw = self.read_slot(pos, i);
            params.push(Val { ty: types[i], raw });
            pos = pos + self.sizes[i] as usize;
            i = i + 1;
        }
        params
    }

    /// Whether both hold the same sizes and bytes.
    pub fn equals(&self, other: &Self) -> (equal: bool)
        ensures
            equal == (self@ == other@),
    {
        let sizes = bytes_equal(&self.sizes, &other.sizes);
        let bytes = bytes_equal(&self.bytes, &other.bytes);
        assert(sizes && bytes ==> self@ =~= other@);
        sizes && bytes
    }

    /// Whether every value fits a slot and lies within the bytes.
    pub fn is_well_formed(&self) -> (ok: bool)
        ensures
            ok == self@.well_formed(),
    {
        let mut pos: usize = 0;
        let mut i: usize = 0;
        while i < self.sizes.len()
            invariant
                i <= self@.sizes.len(),
                pos == offset(self@.sizes, i as int),
                self@.readable(i as int),
            decreases self@.sizes.len() - i,
        {
            let size = self.sizes[i] as usize;
            proof {
                lemma_offset_monotonic(self@.sizes, i + 1, self@.sizes.len() as int);
            }
            if size > SLOT_WIDTH || size > self.bytes.len() - pos {
                return false;
            }
            pos = pos + size;
            i = i + 1;
        }
        true
    }
}

impl Clone for RRFuncArgVals {
    fn clone(&self) -> (copy: Self)
        ensures
            copy@ == self@,
    {
        let mut bytes: Vec<u8> = Vec::new();
        append_bytes(&mut bytes, &self.bytes);
        let mut sizes: Vec<u8> = Vec::new();
        append_bytes(&mut sizes, &self.sizes);
        let copy = RRFuncArgVals { bytes, sizes };
        assert(copy@ =~= self@);
        copy
    }
}

} // verus!
