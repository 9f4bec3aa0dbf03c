//! Per-axis range values and whole-dataset block descriptors.
//!
//! A `BlockValue` describes one axis of a hyperslab: a `start` index, a
//! `stride` between repetitions, a repetition `count`, and the length
//! `block` of each contiguous run. A `Block` is an ordered sequence of
//! optional `BlockValue`s, one per axis, where `None` means "take the
//! whole axis"; it must be validated against a dataset shape before any
//! geometry can be read from it.

use vstd::prelude::*;

use crate::errors::{ConstructionError, UsageError, ValidationError};

verus! {

/// The mathematical model of one axis range: the four parameters as
/// plain machine integers.
#[derive(Debug, Clone, Copy, PartialEq, Eq, Structural)]
pub struct RangeModel {
    pub start: usize,
    pub stride: usize,
    pub count: usize,
    pub block: usize,
}

impl RangeModel {
    /// A block must not run into the next repetition of the stride. The
    /// whole-axis range synthesized during validation (stride 1, block 1)
    /// is the one admitted boundary case.
    pub open spec fn wf(self) -> bool {
        self.block < self.stride || (self.block == 1 && self.stride == 1)
    }

    /// First index addressed along the axis.
    pub open spec fn left_bound(self) -> int {
        self.start as int
    }

    /// One past the last index addressed along the axis.
    pub open spec fn right_bound(self) -> int {
        self.start + self.stride * (self.count - 1) + self.block
    }

    /// How many indices the range selects along the axis.
    pub open spec fn element_count(self) -> int {
        self.count * self.block
    }

    /// The range that selects every index of an axis of length `len`
    /// exactly once.
    pub open spec fn whole_axis(len: usize) -> RangeModel {
        RangeModel { start: 0, stride: 1, count: len, block: 1 }
    }
}

/// A validated description of one axis's stride/count/span parameters.
/// Values only come from [`BlockValue::new`], which enforces the
/// invariant, or from bounds validation, which synthesizes whole-axis
/// ranges.
#[derive(Debug, Clone, Copy)]
pub struct BlockValue {
    start: usize,
    stride: usize,
    count: usize,
    block: usize,
}

impl View for BlockValue {
    type V = RangeModel;

    closed spec fn view(&self) -> RangeModel {
        RangeModel {
            start: self.start,
            stride: self.stride,
            count: self.count,
            block: self.block,
        }
    }
}

impl BlockValue {
    #[verifier::type_invariant]
    spec fn type_inv(self) -> bool {
        self@.wf()
    }

    /// Build a range from `[start, stride, count, block]`. Fails with
    /// `InvalidRange` when the block length reaches the stride, so that
    /// successive blocks cannot overlap; the sole admitted boundary case
    /// is stride 1 with block 1, the whole-axis form that validation
    /// also synthesizes. No other combination is rejected (a zero count
    /// denotes an empty axis).
    pub fn new(values: [usize; 4]) -> (r: Result<Self, ConstructionError>)
        ensures
            (values[3] < values[1] || (values[3] == 1 && values[1] == 1)) <==> r is Ok,
            r matches Ok(bv) ==> bv@ == (RangeModel {
                start: values[0],
                stride: values[1],
                count: values[2],
                block: values[3],
            }),
            r is Err ==> r == Err::<Self, _>(ConstructionError::InvalidRange),
    {
        if values[3] < values[1] || (values[3] == 1 && values[1] == 1) {
            Ok(Self { start: values[0], stride: values[1], count: values[2], block: values[3] })
        } else {
            Err(ConstructionError::InvalidRange)
        }
    }

    /// Left bound of the range: its start index.
    pub fn lb(&self) -> (r: usize)
        ensures
            r == self@.left_bound(),
    {
        self.start
    }

    /// Right bound of the range: one past the last addressed index,
    /// `start + stride * (count - 1) + block`. The caller must know the
    /// value fits in `usize`; bounds validation computes the same
    /// quantity with checked arithmetic instead.
    pub fn rb(&self) -> (r: usize)
        requires
            0 <= self@.right_bound() <= usize::MAX,
        ensures
            r == self@.right_bound(),
    {
        proof {
            use_type_invariant(self);
        }
        if self.count == 0 {
            // wf gives stride >= block, and the requires puts
            // start - (stride - block) at or above zero.
            proof {
                assert(self.stride >= self.block);
                assert(self.stride * (self.count - 1) == -(self.stride as int))
                    by (nonlinear_arith)
                    requires self.count == 0;
                assert(self@.right_bound() == self.start - (self.stride - self.block));
            }
            self.start - (self.stride - self.block)
        } else {
            self.start + self.stride * (self.count - 1) + self.block
        }
    }
}

/// One axis of the storage engine's native selection: a
/// start/step/count/block quadruple taken verbatim from the axis's
/// validated range.
#[derive(Debug, Clone, Copy, PartialEq, Eq, Structural)]
pub struct SliceCount {
    pub start: usize,
    pub step: usize,
    pub count: usize,
    pub block: usize,
}

/// The native selection quadruple carrying a range's four parameters.
pub open spec fn slice_of(m: RangeModel) -> SliceCount {
    SliceCount { start: m.start, step: m.stride, count: m.count, block: m.block }
}

/// The models of a sequence of optional ranges.
pub open spec fn slot_models(s: Seq<Option<BlockValue>>) -> Seq<Option<RangeModel>> {
    s.map(|_i: int, slot: Option<BlockValue>| match slot {
        Some(bv) => Some(bv@),
        None => None,
    })
}

/// Does the range supplied for an axis of length `len` stay within it?
/// An unspecified axis is always in bounds.
pub open spec fn axis_ok(slot: Option<RangeModel>, len: usize) -> bool {
    match slot {
        Some(m) => m.right_bound() <= len,
        None => true,
    }
}

/// The range an axis of length `len` ends up with after validation: a
/// supplied range is kept, an unspecified one becomes the whole axis.
pub open spec fn fill_axis(slot: Option<RangeModel>, len: usize) -> RangeModel {
    match slot {
        Some(m) => m,
        None => RangeModel::whole_axis(len),
    }
}

/// Every supplied range stays within its axis.
pub open spec fn all_axes_ok(slots: Seq<Option<RangeModel>>, shape: Seq<usize>) -> bool
    recommends
        slots.len() == shape.len(),
{
    forall|i: int| 0 <= i < slots.len() ==> #[trigger] axis_ok(slots[i], shape[i])
}

/// The slots of a descriptor after successful validation: every axis
/// filled in.
pub open spec fn filled_slots(slots: Seq<Option<RangeModel>>, shape: Seq<usize>) -> Seq<
    Option<RangeModel>,
>
    recommends
        slots.len() == shape.len(),
{
    Seq::new(slots.len(), |i: int| Some(fill_axis(slots[i], shape[i])))
}

/// An ordered collection of optional per-axis ranges, one per dataset
/// dimension, with a validation flag. Geometry can be read only after
/// [`Block::validate_bounds`] has reconciled the descriptor with the
/// dataset's shape.
#[derive(Debug)]
pub struct Block {
    data: Vec<Option<BlockValue>>,
    validated: bool,
}

impl View for Block {
    type V = Seq<Option<RangeModel>>;

    closed spec fn view(&self) -> Seq<Option<RangeModel>> {
        slot_models(self.data@)
    }
}

impl Block {
    #[verifier::type_invariant]
    spec fn type_inv(self) -> bool {
        self.validated ==> forall|i: int|
            0 <= i < self.data@.len() ==> ((#[trigger] self.data@[i]) matches Some(bv)
                && bv@.right_bound() <= usize::MAX)
    }

    /// Whether the descriptor has been validated against a dataset
    /// shape.
    pub closed spec fn is_validated(self) -> bool {
        self.validated
    }

    /// Wrap per-axis range values, some possibly unspecified, into a raw
    /// (unvalidated) descriptor.
    pub fn new(values: Vec<Option<BlockValue>>) -> (r: Self)
        ensures
            r@ == slot_models(values@),
            !r.is_validated(),
    {
        Self { data: values, validated: false }
    }

    /// Reconcile the descriptor with the dataset's shape: keep each
    /// supplied range whose right bound stays within its axis, fill each
    /// unspecified axis with the whole-axis range, and mark the
    /// descriptor validated. Validating an already-validated descriptor
    /// is a no-op. On failure the descriptor is left exactly as it was.
    pub fn validate_bounds(&mut self, shape: &[usize]) -> (r: Result<(), ValidationError>)
        ensures
            old(self).is_validated() ==> r is Ok && *final(self) == *old(self),
            !old(self).is_validated() && old(self)@.len() != shape@.len() ==> r == Err::<
                (),
                _,
            >(ValidationError::RankMismatch) && *final(self) == *old(self),
            !old(self).is_validated() && old(self)@.len() == shape@.len() && all_axes_ok(
                old(self)@,
                shape@,
            ) ==> r is Ok && final(self).is_validated() && final(self)@ == filled_slots(old(self)@, shape@),
            !old(self).is_validated() && old(self)@.len() == shape@.len() && !all_axes_ok(
                old(self)@,
                shape@,
            ) ==> *final(self) == *old(self) && (r matches Err(ValidationError::OutOfBounds { axis })
                && 0 <= axis < shape@.len() && !axis_ok(old(self)@[axis as int], shape@[axis as int])
                && (forall|j: int| 0 <= j < axis ==> axis_ok(old(self)@[j], shape@[j]))),
    {
        if self.validated {
            return Ok(());
        }
        let len = shape.len();
        if self.data.len() != len {
            return Err(ValidationError::RankMismatch);
        }
        let mut out: Vec<Option<BlockValue>> = Vec::new();
        let mut i: usize = 0;
        while i < len
            invariant
                0 <= i <= len,
                len == shape@.len(),
                self == old(self),
                !self.validated,
                self.data@.len() == len,
                out@.len() == i,
                forall|j: int| 0 <= j < i ==> axis_ok(#[trigger] self@[j], shape@[j]),
                forall|j: int|
                    0 <= j < i ==> ((#[trigger] out@[j]) matches Some(bv) && bv@ == fill_axis(
                        self@[j],
                        shape@[j],
                    ) && bv@.right_bound() <= usize::MAX),
            decreases len - i,
        {
            match &self.data[i] {
                Some(bv) => {
                    proof {
                        assert(self@[i as int] == Some(bv@));
                    }
                    if rb_exceeds(bv, shape[i]) {
                        proof {
                            assert(!axis_ok(self@[i as int], shape@[i as int]));
                        }
                        return Err(ValidationError::OutOfBounds { axis: i });
                    }
                    out.push(Some(*bv));
                }
                None => {
                    let whole = BlockValue { start: 0, stride: 1, count: shape[i], block: 1 };
                    proof {
                        assert(whole@.right_bound() == shape@[i as int]) by {
                            assert(whole@.stride * (whole@.count - 1) == whole@.count - 1)
                                by (nonlinear_arith)
                                requires whole@.stride == 1;
                        };
                    }
                    out.push(Some(whole));
                }
            }
            i += 1;
        }
        self.data = out;
        self.validated = true;
        proof {
            assert(self@ =~= filled_slots(old(self)@, shape@));
        }
        Ok(())
    }

    /// The descriptor's rank: how many axes it describes. Defined only
    /// after validation.
    pub fn dim(&self) -> (r: Result<usize, UsageError>)
        ensures
            self.is_validated() ==> r == Ok::<_, UsageError>(self@.len() as usize),
            !self.is_validated() ==> r == Err::<usize, _>(UsageError::NotValidated),
    {
        if !self.validated {
            return Err(UsageError::NotValidated);
        }
        Ok(self.data.len())
    }

    /// How many indices each axis's range selects, in axis order.
    /// Defined only after validation.
    pub fn size(&self) -> (r: Result<Vec<usize>, UsageError>)
        ensures
            !self.is_validated() ==> r == Err::<Vec<usize>, _>(UsageError::NotValidated),
            self.is_validated() ==> (r matches Ok(v) && v@.len() == self@.len() && (forall|i: int|
                0 <= i < self@.len() ==> ((#[trigger] self@[i]) matches Some(m) && v@[i]
                    == m.element_count()))),
    {
        if !self.validated {
            return Err(UsageError::NotValidated);
        }
        let len = self.data.len();
        let mut out: Vec<usize> = Vec::new();
        let mut i: usize = 0;
        while i < len
            invariant
                0 <= i <= len,
                self.data@.len() == len,
                self.validated,
                out@.len() == i,
                forall|j: int|
                    0 <= j < i ==> ((#[trigger] self@[j]) matches Some(m) && out@[j]
                        == m.element_count()),
            decreases len - i,
        {
            proof {
                use_type_invariant(&*self);
            }
            match &self.data[i] {
                Some(bv) => {
                    proof {
                        use_type_invariant(bv);
                        assert(self@[i as int] == Some(bv@));
                        if bv@.count == 0 {
                            assert(bv@.count * bv@.block == 0) by (nonlinear_arith)
                                requires bv@.count == 0;
                        } else {
                            lemma_element_count_bound(bv@);
                        }
                    }
                    out.push(bv.count * bv.block);
                }
                None => {
                    // A validated descriptor has every slot filled.
                    proof {
                        assert(false);
                    }
                }
            }
            i += 1;
        }
        Ok(out)
    }

    /// Translate the validated descriptor into the storage engine's
    /// native selection: one start/step/count/block quadruple per axis,
    /// axis order preserved.
    pub fn build_hyberslab_selection(&self) -> (r: Result<Vec<SliceCount>, UsageError>)
        ensures
            !self.is_validated() ==> r == Err::<Vec<SliceCount>, _>(UsageError::NotValidated),
            self.is_validated() ==> (r matches Ok(v) && v@.len() == self@.len() && (forall|i: int|
                0 <= i < self@.len() ==> ((#[trigger] self@[i]) matches Some(m) && v@[i]
                    == slice_of(m)))),
    {
        if !self.validated {
            return Err(UsageError::NotValidated);
        }
        let len = self.data.len();
        let mut out: Vec<SliceCount> = Vec::new();
        let mut i: usize = 0;
        while i < len
            invariant
                0 <= i <= len,
                self.data@.len() == len,
                self.validated,
                out@.len() == i,
                forall|j: int|
                    0 <= j < i ==> ((#[trigger] self@[j]) matches Some(m) && out@[j] == slice_of(m)),
            decreases len - i,
        {
            proof {
                use_type_invariant(&*self);
            }
            match &self.data[i] {
                Some(bv) => {
                    proof {
                        assert(self@[i as int] == Some(bv@));
                    }
                    out.push(
                        SliceCount {
                            start: bv.start,
                            step: bv.stride,
                            count: bv.count,
                            block: bv.block,
                        },
                    );
                }
                None => {
                    // A validated descriptor has every slot filled.
                    proof {
                        assert(false);
                    }
                }
            }
            i += 1;
        }
        Ok(out)
    }
}

/// Compare a range's right bound against an axis length without
/// overflowing: a right bound too large for `usize` certainly exceeds
/// the axis.
fn rb_exceeds(bv: &BlockValue, len: usize) -> (r: bool)
    ensures
        r == (bv@.right_bound() > len),
{
    proof {
        use_type_invariant(bv);
    }
    if bv.count == 0 {
        proof {
            assert(bv@.stride * (bv@.count - 1) == -(bv@.stride as int))
                by (nonlinear_arith)
                requires bv@.count == 0;
        }
        let gap = bv.stride - bv.block;
        if bv.start < gap {
            false
        } else {
            bv.start - gap > len
        }
    } else {
        match bv.stride.checked_mul(bv.count - 1) {
            None => true,
            Some(m) => match bv.start.checked_add(m) {
                None => true,
                Some(s) => match s.checked_add(bv.block) {
                    None => true,
                    Some(rb) => rb > len,
                },
            },
        }
    }
}

/// A non-empty well-formed range addresses no more indices than its
/// right bound: `count * block <= start + stride * (count - 1) + block`.
proof fn lemma_element_count_bound(m: RangeModel)
    requires
        m.wf(),
        m.count >= 1,
    ensures
        0 <= m.element_count() <= m.right_bound(),
{
    assert(m.block * (m.count - 1) <= m.stride * (m.count - 1)) by (nonlinear_arith)
        requires
            m.block <= m.stride,
            m.count >= 1,
    ;
    assert(m.count * m.block == m.block * (m.count - 1) + m.block) by (nonlinear_arith);
    assert(m.count * m.block >= 0) by (nonlinear_arith)
        requires
            m.count >= 1,
    ;
}

/// Law: validation is idempotent. The slots a successful validation
/// produces pass the same bounds check unchanged, and filling them in a
/// second time returns them exactly as they are — so a second validation
/// of a validated descriptor yields the identical result without error.
pub proof fn lemma_validation_idempotent(slots: Seq<Option<RangeModel>>, shape: Seq<usize>)
    requires
        slots.len() == shape.len(),
        all_axes_ok(slots, shape),
    ensures
        all_axes_ok(filled_slots(slots, shape), shape),
        filled_slots(filled_slots(slots, shape), shape) == filled_slots(slots, shape),
{
    assert forall|i: int| 0 <= i < slots.len() implies #[trigger] axis_ok(
        filled_slots(slots, shape)[i],
        shape[i],
    ) by {
        assert(axis_ok(slots[i], shape[i]));
        let len = shape[i];
        assert(RangeModel::whole_axis(len).right_bound() == len) by {
            assert(RangeModel::whole_axis(len).stride * (RangeModel::whole_axis(len).count - 1)
                == len - 1) by (nonlinear_arith)
                requires
                    RangeModel::whole_axis(len).stride == 1,
                    RangeModel::whole_axis(len).count == len,
            ;
        };
    }
    assert(filled_slots(filled_slots(slots, shape), shape) =~= filled_slots(slots, shape));
}

} // verus!
