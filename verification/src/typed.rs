//! Typed dispatch for dataset reads and writes.
//!
//! A dataset declares its element representation (signed or unsigned
//! integer, floating point, with a byte width). The reader and writer
//! dispatch on that declaration to one of a closed set of supported
//! numeric kinds, decide between the scalar and the array form from the
//! dataset's shape, and translate a validated [`Block`] into the native
//! selection handed to the storage engine.

use vstd::prelude::*;

use crate::block::{slice_of, Block, RangeModel, SliceCount};
use crate::errors::{ReadError, WriteError};

verus! {

/// An owned dynamic-rank `ndarray` array, opaque to the verifier.
/// Declaring `ndarray::ArrayBase` itself is refused over its `RawData`
/// bound, so the array is held whole behind this private holder.
#[derive(Debug)]
#[verifier::external_body]
#[verifier::reject_recursive_types(T)]
struct RawArray<T> {
    array: ndarray::ArrayD<T>,
}

/// An N-dimensional array payload: the backing `ndarray` array together
/// with its axis lengths, recorded beside it when the payload is built
/// so that the shape checks over it are verified. Views as the recorded
/// shape.
#[derive(Debug)]
#[verifier::reject_recursive_types(T)]
pub struct NdPayload<T> {
    data: RawArray<T>,
    shape: Vec<usize>,
}

/// Product of a sequence of axis lengths: how many elements an array of
/// that shape holds.
pub open spec fn shape_product(s: Seq<usize>) -> int
    decreases s.len(),
{
    if s.len() == 0 {
        1
    } else {
        s[0] * shape_product(s.skip(1))
    }
}

/// Relies on ndarray's `ArrayBase::from_shape_vec`: builds an array of
/// the given shape from elements in logical (row-major) order, and
/// returns an error when the element count does not match the shape
/// (or the shape's byte size would overflow `isize`).
#[verifier::external_body]
fn raw_from_shape_vec<T>(shape: &Vec<usize>, elems: Vec<T>) -> (r: Option<RawArray<T>>)
    ensures
        r is Some ==> shape_product(shape@) == elems@.len(),
{
    match ndarray::ArrayD::from_shape_vec(ndarray::IxDyn(shape.as_slice()), elems) {
        Ok(array) => Some(RawArray { array }),
        Err(_) => None,
    }
}

/// Relies on ndarray's `ArrayBase::iter`: yields the elements in
/// logical (row-major) order.
#[verifier::external_body]
fn raw_elements<T: Clone>(a: &RawArray<T>) -> Vec<T> {
    a.array.iter().cloned().collect()
}

impl<T> View for NdPayload<T> {
    type V = Seq<usize>;

    closed spec fn view(&self) -> Seq<usize> {
        self.shape@
    }
}

impl<T> NdPayload<T> {
    /// Build a payload of the given shape from its elements in logical
    /// (row-major) order. Returns `None` when the element count does
    /// not match the shape.
    pub fn from_parts(shape: Vec<usize>, elems: Vec<T>) -> (r: Option<NdPayload<T>>)
        ensures
            r matches Some(p) ==> p@ == shape@ && shape_product(shape@) == elems@.len(),
    {
        match raw_from_shape_vec(&shape, elems) {
            Some(data) => Some(NdPayload { data, shape }),
            None => None,
        }
    }

    /// The payload's axis lengths.
    pub fn shape(&self) -> (r: &Vec<usize>)
        ensures
            r@ == self@,
    {
        &self.shape
    }
}

impl<T: Clone> NdPayload<T> {
    /// The payload's elements in logical (row-major) order, through the
    /// backing array's iterator.
    pub fn elements(&self) -> Vec<T> {
        raw_elements(&self.data)
    }
}

/// The element representation a dataset declares: category and byte
/// width, as the storage engine reports them.
#[derive(Debug, Clone, Copy, PartialEq, Eq, Structural)]
pub enum ElementKind {
    SignedInt(usize),
    UnsignedInt(usize),
    Float(usize),
    Other,
}

/// The closed set of numeric representations this layer can produce:
/// 4- and 8-byte signed integers, 4- and 8-byte floating point.
#[derive(Debug, Clone, Copy, PartialEq, Eq, Structural)]
pub enum NumericKind {
    I32,
    I64,
    F32,
    F64,
}

/// The numeric kind an element declaration dispatches to, or `None`
/// where the declaration is outside the supported set.
pub open spec fn supported_kind(kind: ElementKind) -> Option<NumericKind> {
    match kind {
        ElementKind::SignedInt(w) => {
            if w == 4 {
                Some(NumericKind::I32)
            } else if w == 8 {
                Some(NumericKind::I64)
            } else {
                None
            }
        },
        ElementKind::Float(w) => {
            if w == 4 {
                Some(NumericKind::F32)
            } else if w == 8 {
                Some(NumericKind::F64)
            } else {
                None
            }
        },
        _ => None,
    }
}

/// A dataset value of one numeric kind: a lone element, or an
/// N-dimensional array.
#[derive(Debug)]
#[verifier::reject_recursive_types(T)]
pub enum H5Data<T> {
    Scalar(T),
    Array(NdPayload<T>),
}

/// Dispatch a dataset's declared element representation to the numeric
/// kind that serves it. 4- and 8-byte signed integers and floats are
/// supported; any other width or category is a declared, permanent
/// limitation.
pub fn dispatch_kind(kind: &ElementKind) -> (r: Result<NumericKind, ReadError>)
    ensures
        match supported_kind(*kind) {
            Some(k) => r == Ok::<_, ReadError>(k),
            None => r == Err::<NumericKind, _>(ReadError::UnsupportedElementKind),
        },
{
    match kind {
        ElementKind::SignedInt(w) => {
            if *w == 4 {
                Ok(NumericKind::I32)
            } else if *w == 8 {
                Ok(NumericKind::I64)
            } else {
                Err(ReadError::UnsupportedElementKind)
            }
        },
        ElementKind::Float(w) => {
            if *w == 4 {
                Ok(NumericKind::F32)
            } else if *w == 8 {
                Ok(NumericKind::F64)
            } else {
                Err(ReadError::UnsupportedElementKind)
            }
        },
        _ => Err(ReadError::UnsupportedElementKind),
    }
}

/// Is the dataset a singleton — shape exactly `[1]`, one element
/// regardless of declared rank?
pub fn is_single(shape: &[usize]) -> (r: bool)
    ensures
        r <==> shape@ == seq![1usize],
{
    if shape.len() == 1 {
        let v = shape[0];
        proof {
            if shape@[0] == 1 {
                assert(shape@ =~= seq![1usize]);
            }
        }
        v == 1
    } else {
        false
    }
}

/// The scalar follow-up to a singleton read: the raw read must yield
/// the one element; an empty result marks a malformed file and is an
/// error, never a silent default.
pub fn scalar_or_empty<T>(first: Option<T>) -> (r: Result<H5Data<T>, ReadError>)
    ensures
        match first {
            Some(v) => r matches Ok(d) && (d matches H5Data::Scalar(w) && w == v),
            None => r matches Err(e) && e == ReadError::EmptyDataset,
        },
{
    match first {
        Some(v) => Ok(H5Data::Scalar(v)),
        None => Err(ReadError::EmptyDataset),
    }
}

/// Selection for a region read: rejects regions on singleton datasets,
/// demands a validated descriptor, and otherwise emits its native
/// selection unchanged.
pub fn read_hyperslab(shape: &[usize], block: &Block) -> (r: Result<Vec<SliceCount>, ReadError>)
    ensures
        shape@ == seq![1usize] ==> r == Err::<Vec<SliceCount>, _>(
            ReadError::InvalidUseOfRegionOnScalar,
        ),
        shape@ != seq![1usize] && !block.is_validated() ==> r == Err::<Vec<SliceCount>, _>(
            ReadError::NotValidated,
        ),
        shape@ != seq![1usize] && block.is_validated() ==> (r matches Ok(sel) && sel@.len()
            == block@.len() && (forall|i: int|
            0 <= i < block@.len() ==> ((#[trigger] block@[i]) matches Some(m) && sel@[i]
                == slice_of(m)))),
{
    if is_single(shape) {
        return Err(ReadError::InvalidUseOfRegionOnScalar);
    }
    match block.build_hyberslab_selection() {
        Ok(sel) => Ok(sel),
        Err(_) => Err(ReadError::NotValidated),
    }
}

/// How a read request is to be served, decided before any I/O happens.
#[derive(Debug)]
pub enum ReadPlan {
    /// Read the dataset's sole element and wrap it as a scalar.
    Scalar(NumericKind),
    /// Read the dataset in full as an N-dimensional array.
    Whole(NumericKind),
    /// Read the addressed region through the native selection.
    Region(NumericKind, Vec<SliceCount>),
}

/// Decide how a dataset read is served: a singleton dataset yields its
/// scalar and admits no region; anything else reads whole or through a
/// validated region's selection, as an array of the dispatched kind.
pub fn plan_read(shape: &[usize], kind: &ElementKind, region: Option<&Block>) -> (r: Result<
    ReadPlan,
    ReadError,
>)
    ensures
        shape@ == seq![1usize] && region is Some ==> r == Err::<ReadPlan, _>(
            ReadError::InvalidUseOfRegionOnScalar,
        ),
        shape@ == seq![1usize] && region is None ==> (match supported_kind(*kind) {
            Some(k) => r matches Ok(p) && p == ReadPlan::Scalar(k),
            None => r == Err::<ReadPlan, _>(ReadError::UnsupportedElementKind),
        }),
        shape@ != seq![1usize] ==> (match supported_kind(*kind) {
            None => r == Err::<ReadPlan, _>(ReadError::UnsupportedElementKind),
            Some(k) => (match region {
                None => r matches Ok(p) && p == ReadPlan::Whole(k),
                Some(b) => {
                    if !b.is_validated() {
                        r == Err::<ReadPlan, _>(ReadError::NotValidated)
                    } else {
                        r matches Ok(p) && (p matches ReadPlan::Region(k2, sel) && k2 == k
                            && sel@.len() == b@.len() && (forall|i: int|
                            0 <= i < b@.len() ==> ((#[trigger] b@[i]) matches Some(m) && sel@[i]
                                == slice_of(m))))
                    }
                },
            }),
        }),
{
    if is_single(shape) {
        if region.is_some() {
            return Err(ReadError::InvalidUseOfRegionOnScalar);
        }
        let k = dispatch_kind(kind)?;
        return Ok(ReadPlan::Scalar(k));
    }
    let k = dispatch_kind(kind)?;
    match region {
        None => Ok(ReadPlan::Whole(k)),
        Some(block) => {
            match read_hyperslab(shape, block) {
                Ok(sel) => Ok(ReadPlan::Region(k, sel)),
                Err(e) => Err(e),
            }
        },
    }
}

/// Do a payload's axis lengths agree, axis by axis, with the element
/// counts a validated region selects?
pub open spec fn counts_match(payload_shape: Seq<usize>, slots: Seq<Option<RangeModel>>) -> bool {
    payload_shape.len() == slots.len() && (forall|i: int|
        0 <= i < slots.len() ==> ((#[trigger] slots[i]) matches Some(m) && payload_shape[i]
            == m.element_count()))
}

/// Compare a payload's shape against the element counts computed from a
/// region, length first and then every axis.
pub fn shapes_match(actual: &Vec<usize>, expected: &Vec<usize>) -> (r: bool)
    ensures
        r <==> actual@ == expected@,
{
    if actual.len() != expected.len() {
        proof {
            assert(actual@ != expected@);
        }
        return false;
    }
    let len = actual.len();
    let mut i: usize = 0;
    while i < len
        invariant
            0 <= i <= len,
            actual@.len() == len,
            expected@.len() == len,
            forall|j: int| 0 <= j < i ==> actual@[j] == expected@[j],
        decreases len - i,
    {
        if actual[i] != expected[i] {
            return false;
        }
        i += 1;
    }
    proof {
        assert(actual@ =~= expected@);
    }
    true
}

/// Check a typed write and emit its native selection: the region must
/// be validated and must not address a singleton dataset, and the
/// payload's shape must equal the element counts the region selects —
/// checked before any bytes move, so a shape error never reaches the
/// store.
pub fn write_hyperslab<T>(shape: &[usize], data: &NdPayload<T>, block: &Block) -> (r: Result<
    Vec<SliceCount>,
    WriteError,
>)
    ensures
        shape@ == seq![1usize] ==> r == Err::<Vec<SliceCount>, _>(
            WriteError::InvalidUseOfRegionOnScalar,
        ),
        shape@ != seq![1usize] && !block.is_validated() ==> r == Err::<Vec<SliceCount>, _>(
            WriteError::NotValidated,
        ),
        shape@ != seq![1usize] && block.is_validated() ==> {
            &&& (r is Ok <==> counts_match(data@, block@))
            &&& (r matches Ok(sel) ==> sel@.len() == block@.len() && (forall|i: int|
                0 <= i < block@.len() ==> ((#[trigger] block@[i]) matches Some(m) && sel@[i]
                    == slice_of(m))))
            &&& (r matches Err(e) ==> (e matches WriteError::ShapeMismatch { expected, actual }
                && actual@ == data@ && expected@.len() == block@.len() && (forall|i: int|
                0 <= i < block@.len() ==> ((#[trigger] block@[i]) matches Some(m) && expected@[i]
                    == m.element_count()))))
        },
{
    if is_single(shape) {
        return Err(WriteError::InvalidUseOfRegionOnScalar);
    }
    let size = match block.size() {
        Ok(v) => v,
        Err(_) => {
            return Err(WriteError::NotValidated);
        },
    };
    let sel = match block.build_hyberslab_selection() {
        Ok(s) => s,
        Err(_) => {
            return Err(WriteError::NotValidated);
        },
    };
    let payload_shape = data.shape();
    if !shapes_match(payload_shape, &size) {
        let mut actual: Vec<usize> = Vec::new();
        let plen = payload_shape.len();
        let mut i: usize = 0;
        while i < plen
            invariant
                0 <= i <= plen,
                payload_shape@.len() == plen,
                actual@ == payload_shape@.take(i as int),
            decreases plen - i,
        {
            actual.push(payload_shape[i]);
            proof {
                assert(actual@ =~= payload_shape@.take(i + 1 as int));
            }
            i += 1;
        }
        proof {
            assert(actual@ =~= payload_shape@);
            if counts_match(data@, block@) {
                assert forall|k: int| 0 <= k < data@.len() implies data@[k] == size@[k] by {
                    assert(block@[k] matches Some(m) && data@[k] == m.element_count());
                }
                assert(data@ =~= size@);
            }
        }
        return Err(WriteError::ShapeMismatch { expected: size, actual });
    }
    Ok(sel)
}

} // verus!
