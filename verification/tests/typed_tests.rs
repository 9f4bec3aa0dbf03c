//! Element-kind dispatch, read planning, and write shape checking.

use hyperslab::typed::{
    dispatch_kind, is_single, plan_read, read_hyperslab, scalar_or_empty, shapes_match,
    write_hyperslab,
};
use hyperslab::{
    Block, BlockValue, Data, DatasetInfo, ElementKind, H5Data, H5File, NdPayload, NumericKind,
    ReadError, ReadPlan, SliceCount, WriteError,
};

#[test]
fn dispatch_supported_kinds() {
    assert_eq!(dispatch_kind(&ElementKind::SignedInt(4)).unwrap(), NumericKind::I32);
    assert_eq!(dispatch_kind(&ElementKind::SignedInt(8)).unwrap(), NumericKind::I64);
    assert_eq!(dispatch_kind(&ElementKind::Float(4)).unwrap(), NumericKind::F32);
    assert_eq!(dispatch_kind(&ElementKind::Float(8)).unwrap(), NumericKind::F64);
}

#[test]
fn dispatch_unsupported_kinds() {
    assert_eq!(
        dispatch_kind(&ElementKind::UnsignedInt(8)).unwrap_err(),
        ReadError::UnsupportedElementKind
    );
    assert_eq!(
        dispatch_kind(&ElementKind::SignedInt(2)).unwrap_err(),
        ReadError::UnsupportedElementKind
    );
    assert_eq!(
        dispatch_kind(&ElementKind::Float(16)).unwrap_err(),
        ReadError::UnsupportedElementKind
    );
    assert_eq!(dispatch_kind(&ElementKind::Other).unwrap_err(), ReadError::UnsupportedElementKind);
}

#[test]
fn singleton_shape_detection() {
    assert!(is_single(&[1]));
    assert!(!is_single(&[2]));
    assert!(!is_single(&[1, 1]));
    assert!(!is_single(&[]));
}

#[test]
fn singleton_read_returns_scalar_plan() {
    let r = plan_read(&[1], &ElementKind::SignedInt(8), None).unwrap();
    assert!(matches!(r, ReadPlan::Scalar(NumericKind::I64)));
}

#[test]
fn singleton_read_rejects_any_region() {
    let mut block = Block::new(vec![None]);
    block.validate_bounds(&[1]).unwrap();
    let r = plan_read(&[1], &ElementKind::SignedInt(8), Some(&block));
    assert_eq!(r.unwrap_err(), ReadError::InvalidUseOfRegionOnScalar);
}

#[test]
fn whole_dataset_read_plan() {
    let r = plan_read(&[4, 6], &ElementKind::Float(8), None).unwrap();
    assert!(matches!(r, ReadPlan::Whole(NumericKind::F64)));
}

#[test]
fn region_read_plan_carries_selection() {
    let a = BlockValue::new([0, 3, 2, 2]).unwrap();
    let mut block = Block::new(vec![Some(a), None]);
    block.validate_bounds(&[6, 4]).unwrap();
    let r = plan_read(&[6, 4], &ElementKind::Float(4), Some(&block)).unwrap();
    match r {
        ReadPlan::Region(kind, sel) => {
            assert_eq!(kind, NumericKind::F32);
            assert_eq!(sel[0], SliceCount { start: 0, step: 3, count: 2, block: 2 });
            assert_eq!(sel[1], SliceCount { start: 0, step: 1, count: 4, block: 1 });
        }
        other => panic!("expected a region plan, got {:?}", other),
    }
}

#[test]
fn region_read_demands_validation() {
    let block = Block::new(vec![None, None]);
    let r = plan_read(&[6, 4], &ElementKind::SignedInt(4), Some(&block));
    assert_eq!(r.unwrap_err(), ReadError::NotValidated);
    assert_eq!(read_hyperslab(&[6, 4], &block).unwrap_err(), ReadError::NotValidated);
}

#[test]
fn read_hyperslab_rejects_singleton() {
    let mut block = Block::new(vec![None]);
    block.validate_bounds(&[1]).unwrap();
    assert_eq!(
        read_hyperslab(&[1], &block).unwrap_err(),
        ReadError::InvalidUseOfRegionOnScalar
    );
}

#[test]
fn empty_scalar_read_is_an_error() {
    assert_eq!(scalar_or_empty::<i64>(None).unwrap_err(), ReadError::EmptyDataset);
    let d = scalar_or_empty::<i64>(Some(7)).unwrap();
    assert!(matches!(d, H5Data::Scalar(7)));
}

#[test]
fn payload_from_parts_checks_element_count() {
    assert!(NdPayload::from_parts(vec![2, 3], vec![0i32; 5]).is_none());
    let p = NdPayload::from_parts(vec![2, 3], vec![0i32; 6]).unwrap();
    assert_eq!(p.shape(), &vec![2, 3]);
    assert_eq!(p.elements().len(), 6);
}

#[test]
fn shapes_match_compares_all_axes() {
    assert!(shapes_match(&vec![4, 3], &vec![4, 3]));
    assert!(!shapes_match(&vec![4, 4], &vec![4, 3]));
    assert!(!shapes_match(&vec![4], &vec![4, 3]));
    assert!(shapes_match(&vec![], &vec![]));
}

#[test]
fn write_shape_mismatch_reports_both_shapes() {
    // Region selects 4 x 3 elements; the payload is 4 x 4.
    let a = BlockValue::new([0, 3, 2, 2]).unwrap();
    let b = BlockValue::new([0, 2, 3, 1]).unwrap();
    let mut block = Block::new(vec![Some(a), Some(b)]);
    block.validate_bounds(&[8, 8]).unwrap();
    assert_eq!(block.size().unwrap(), vec![4, 3]);

    let payload = NdPayload::from_parts(vec![4, 4], (0i32..16).collect()).unwrap();
    let r = write_hyperslab(&[8, 8], &payload, &block);
    match r.unwrap_err() {
        WriteError::ShapeMismatch { expected, actual } => {
            assert_eq!(expected, vec![4, 3]);
            assert_eq!(actual, vec![4, 4]);
        }
        other => panic!("expected a shape mismatch, got {:?}", other),
    }
}

#[test]
fn write_with_matching_shape_emits_selection() {
    let a = BlockValue::new([0, 3, 2, 2]).unwrap();
    let b = BlockValue::new([0, 2, 3, 1]).unwrap();
    let mut block = Block::new(vec![Some(a), Some(b)]);
    block.validate_bounds(&[8, 8]).unwrap();

    let payload = NdPayload::from_parts(vec![4, 3], (0i32..12).collect()).unwrap();
    let sel = write_hyperslab(&[8, 8], &payload, &block).unwrap();
    assert_eq!(sel[0], SliceCount { start: 0, step: 3, count: 2, block: 2 });
    assert_eq!(sel[1], SliceCount { start: 0, step: 2, count: 3, block: 1 });
}

#[test]
fn write_rejects_singleton_and_unvalidated() {
    let payload = NdPayload::from_parts(vec![1], vec![3i64]).unwrap();
    let mut validated = Block::new(vec![None]);
    validated.validate_bounds(&[1]).unwrap();
    assert_eq!(
        write_hyperslab(&[1], &payload, &validated).unwrap_err(),
        WriteError::InvalidUseOfRegionOnScalar
    );
    let raw = Block::new(vec![None]);
    assert_eq!(
        write_hyperslab(&[4], &payload, &raw).unwrap_err(),
        WriteError::NotValidated
    );
}

#[test]
fn file_bookkeeping_registers_names() {
    let mut file = H5File::new("fields.h5");
    let mut block = Block::new(vec![None, None]);
    block.validate_bounds(&[4, 6]).unwrap();
    file.add_dataset(
        "u",
        block,
        DatasetInfo { shape: vec![4, 6], kind: ElementKind::Float(8) },
    );
    let mut zblock = Block::new(vec![None]);
    zblock.validate_bounds(&[6]).unwrap();
    file.add_coordinate(
        "z",
        zblock,
        DatasetInfo { shape: vec![6], kind: ElementKind::Float(8) },
    );

    assert_eq!(file.variables(), &vec![String::from("u")]);
    assert_eq!(file.coords(), &vec![String::from("z")]);
    let d = file.get_dataset("u").unwrap();
    assert_eq!(d.name, "u");
    assert_eq!(d.info.shape, vec![4, 6]);
    assert!(file.get_dataset("v").is_none());
}

#[test]
fn file_bookkeeping_replaces_on_reuse() {
    let mut file = H5File::new("fields.h5");
    let block = Block::new(vec![None]);
    file.add_dataset("u", block, DatasetInfo { shape: vec![4], kind: ElementKind::Float(8) });
    let block2 = Block::new(vec![None]);
    file.add_dataset(
        "u",
        block2,
        DatasetInfo { shape: vec![9], kind: ElementKind::SignedInt(4) },
    );
    let d = file.get_dataset("u").unwrap();
    assert_eq!(d.info.shape, vec![9]);
    assert_eq!(d.info.kind, ElementKind::SignedInt(4));
    // The name list keeps both additions, in order.
    assert_eq!(file.variables(), &vec![String::from("u"), String::from("u")]);
}

#[test]
fn data_read_plan_dispatches_on_shape() {
    let mut block = Block::new(vec![None]);
    block.validate_bounds(&[5]).unwrap();
    let data = Data::new(
        String::from("u"),
        block,
        DatasetInfo { shape: vec![5], kind: ElementKind::SignedInt(8) },
    );
    let plan = data.read_data().unwrap();
    assert!(matches!(plan, ReadPlan::Region(NumericKind::I64, _)));

    let sblock = Block::new(vec![None]);
    let scalar = Data::new(
        String::from("count"),
        sblock,
        DatasetInfo { shape: vec![1], kind: ElementKind::SignedInt(4) },
    );
    let plan = scalar.read_data().unwrap();
    assert!(matches!(plan, ReadPlan::Scalar(NumericKind::I32)));
}
