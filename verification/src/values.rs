//! Raw WebAssembly values, their types and their flat form.
use vstd::prelude::*;

verus! {

/// The number of bytes in the slot that holds one raw value.
pub const SLOT_WIDTH: usize = 16;

/// The type of a WebAssembly value.
#[derive(Clone, Copy, Debug, PartialEq, Eq, Structural)]
pub enum ValType {
    I32,
    I64,
    F32,
    F64,
    V128,
    /// A reference held in four bytes.
    Ref32,
    /// A reference held in eight bytes.
    Ref64,
}

impl ValType {
    /// How many bytes of its slot a value of this type takes up.
    pub open spec fn spec_byte_size(self) -> u8 {
        match self {
            ValType::I32 | ValType::F32 | ValType::Ref32 => 4,
            ValType::I64 | ValType::F64 | ValType::Ref64 => 8,
            ValType::V128 => 16,
        }
    }

    pub fn byte_size(self) -> (size: u8)
        ensures
            size == self.spec_byte_size(),
    {
        match self {
            ValType::I32 | ValType::F32 | ValType::Ref32 => 4,
            ValType::I64 | ValType::F64 | ValType::Ref64 => 8,
            ValType::V128 => 16,
        }
    }
}

/// The sizes of values of the given types, in order.
pub open spec fn byte_sizes(types: Seq<ValType>) -> Seq<u8> {
    types.map_values(|t: ValType| t.spec_byte_size())
}

/// Collects the sizes of values of the given types, in order.
pub fn collect_byte_sizes(types: &Vec<ValType>) -> (sizes: Vec<u8>)
    ensures
        sizes@ == byte_sizes(types@),
{
    let mut sizes: Vec<u8> = Vec::new();
    let mut i: usize = 0;
    while i < types.len()
        invariant
            i <= types@.len(),
            sizes@ == byte_sizes(types@.take(i as int)),
        decreases types@.len() - i,
    {
        sizes.push(types[i].byte_size());
        i = i + 1;
        assert(sizes@ =~= byte_sizes(types@.take(i as int)));
    }
    assert(types@.take(i as int) =~= types@);
    sizes
}

/// The signature of a function.
#[derive(Debug)]
pub struct FuncType {
    pub params: Vec<ValType>,
    pub results: Vec<ValType>,
}

/// The mathematical form of a [`FuncType`].
#[verifier::ext_equal]
pub struct FuncTypeView {
    pub params: Seq<ValType>,
    pub results: Seq<ValType>,
}

impl View for FuncType {
    type V = FuncTypeView;

    open spec fn view(&self) -> FuncTypeView {
        FuncTypeView { params: self.params@, results: self.results@ }
    }
}

/// `bytes`, filled up with zeros to the width of a slot.
pub open spec fn zero_padded(bytes: Seq<u8>) -> Seq<u8> {
    Seq::new(SLOT_WIDTH as nat, |i: int| if i < bytes.len() { bytes[i] } else { 0u8 })
}

/// A value with a flat form of [`SLOT_WIDTH`] bytes, lowest byte first.
pub trait FlatBytes: Sized {
    /// All bytes of the value.
    spec fn flat(&self) -> Seq<u8>;

    /// A value always fills one slot.
    proof fn flat_width(&self)
        ensures
            self.flat().len() == SLOT_WIDTH,
    ;

    /// The lowest `size` bytes of the value.
    fn bytes(&self, size: u8) -> (bytes: Vec<u8>)
        requires
            size <= SLOT_WIDTH,
        ensures
            bytes@ == self.flat().take(size as int),
    ;

    /// The value with the given lowest bytes and zeros above them.
    fn from_bytes(bytes: &[u8]) -> (value: Self)
        requires
            bytes@.len() <= SLOT_WIDTH,
        ensures
            value.flat() == zero_padded(bytes@),
    ;
}

/// An untyped value, as it is handed across the boundary.
#[derive(Clone, Copy, Debug, PartialEq, Eq)]
pub struct ValRaw {
    pub bytes: [u8; 16],
}

impl FlatBytes for ValRaw {
    open spec fn flat(&self) -> Seq<u8> {
        self.bytes@
    }

    proof fn flat_width(&self) {
    }

    fn bytes(&self, size: u8) -> (bytes: Vec<u8>) {
        let mut bytes: Vec<u8> = Vec::new();
        let mut i: usize = 0;
        while i < size as usize
            invariant
                i <= size <= SLOT_WIDTH,
                bytes@ == self.bytes@.take(i as int),
            decreases size - i,
        {
            bytes.push(self.bytes[i]);
            i = i + 1;
            assert(bytes@ =~= self.bytes@.take(i as int));
        }
        bytes
    }

    fn from_bytes(bytes: &[u8]) -> (value: Self) {
        let mut raw: [u8; 16] = [0, 0, 0, 0, 0, 0, 0, 0, 0, 0, 0, 0, 0, 0, 0, 0];
        let mut i: usize = 0;
        while i < bytes.len()
            invariant
                i <= bytes@.len() <= SLOT_WIDTH,
                raw@ =~= zero_padded(bytes@.take(i as int)),
            decreases bytes@.len() - i,
        {
            raw[i] = bytes[i];
            i = i + 1;
        }
        assert(bytes@.take(i as int) =~= bytes@);
        ValRaw { bytes: raw }
    }
}

/// A value together with its type.
#[derive(Clone, Copy, Debug)]
pub struct Val {
    pub ty: ValType,
    pub raw: ValRaw,
}

} // verus!
