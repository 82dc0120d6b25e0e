use fmp_decompiler::chunk::{get_chunk_from_code, ChunkError, ChunkType};

#[test]
fn chunk_ref_simple_lengths() {
    let code = [0x01, 0x10, 0x03, 0x10, 0xAA, 0xBB, 0xCC, 0xDD];
    let mut offset = 0usize;
    let mut path = vec![];
    let c = get_chunk_from_code(&code, &mut offset, &mut path, 0).unwrap();
    assert_eq!(c.ctype, ChunkType::RefSimple);
    assert_eq!(c.ref_simple, Some(0x10));
    assert_eq!(c.data, Some(vec![]));
    assert_eq!(offset, 2);
    let c = get_chunk_from_code(&code, &mut offset, &mut path, 0).unwrap();
    assert_eq!(c.ref_simple, Some(0x10));
    assert_eq!(c.data, Some(vec![0xAA, 0xBB, 0xCC, 0xDD]));
    assert_eq!(offset, 8);
}

#[test]
fn chunk_length_prefixed_and_segment() {
    let code = [0x06, 0x05, 0x02, 0x11, 0x22, 0x07, 0x03, 0x00, 0x01, 0x99];
    let mut offset = 0usize;
    let mut path = vec![];
    let c = get_chunk_from_code(&code, &mut offset, &mut path, 0).unwrap();
    assert_eq!(c.ref_simple, Some(5));
    assert_eq!(c.data, Some(vec![0x11, 0x22]));
    let c = get_chunk_from_code(&code, &mut offset, &mut path, 0).unwrap();
    assert_eq!(c.ctype, ChunkType::DataSegment);
    assert_eq!(c.segment_idx, Some(3));
    assert_eq!(c.data, Some(vec![0x99]));
    assert_eq!(offset, code.len());
}

#[test]
fn chunk_path_push_pop_and_scoped() {
    let code = [0x20, 0x03, 0x28, 0x00, 0x05, 0xE0, 0x07, 0x80, 0x40];
    let mut offset = 0usize;
    let mut path = vec![];
    let c = get_chunk_from_code(&code, &mut offset, &mut path, 0).unwrap();
    assert_eq!(c.ctype, ChunkType::PathPush);
    assert_eq!(path, vec![3]);
    let c = get_chunk_from_code(&code, &mut offset, &mut path, 0).unwrap();
    assert_eq!(c.path, vec![3, 0x85]);
    let c = get_chunk_from_code(&code, &mut offset, &mut path, 0).unwrap();
    assert_eq!(c.code, 0x20);
    assert_eq!(c.path, vec![3, 0x85, 7]);
    assert_eq!(path, vec![3, 0x85]);
    let c = get_chunk_from_code(&code, &mut offset, &mut path, 0).unwrap();
    assert_eq!(c.ctype, ChunkType::Noop);
    let c = get_chunk_from_code(&code, &mut offset, &mut path, 0).unwrap();
    assert_eq!(c.ctype, ChunkType::PathPop);
    assert_eq!(path, vec![3]);
}

#[test]
fn chunk_pop_on_empty_path_is_error() {
    let code = [0x3D];
    let mut offset = 0usize;
    let mut path: Vec<usize> = vec![];
    let r = get_chunk_from_code(&code, &mut offset, &mut path, 4096);
    assert_eq!(r.unwrap_err(), ChunkError::PathUnderflow { sector_start: 4096, offset: 0 });
    assert_eq!(offset, 0);
    assert!(path.is_empty());
}

#[test]
fn chunk_unknown_and_truncated() {
    let code = [0x3E];
    let mut offset = 0usize;
    let mut path = vec![];
    let r = get_chunk_from_code(&code, &mut offset, &mut path, 0);
    assert_eq!(r.unwrap_err(), ChunkError::UnknownOpcode { sector_start: 0, offset: 0, opcode: 0x3E });
    let code = [0x0F, 0x00];
    let r = get_chunk_from_code(&code, &mut offset, &mut path, 0);
    assert!(matches!(r, Err(ChunkError::UnknownOpcode { .. })));
    let code = [0x06, 0x01, 0x05, 0x00];
    let r = get_chunk_from_code(&code, &mut offset, &mut path, 0);
    assert_eq!(r.unwrap_err(), ChunkError::Truncated { sector_start: 0, offset: 0 });
}

#[test]
fn chunk_fixed_data_lengths() {
    let code = [0x11, 1, 2, 3, 0x15, 0, 1, 2, 3, 4, 5, 6, 7, 8, 9, 0x0E, 0xFF, 1, 2, 3, 4, 5];
    let mut offset = 0usize;
    let mut path = vec![];
    let c = get_chunk_from_code(&code, &mut offset, &mut path, 0).unwrap();
    assert_eq!(c.data, Some(vec![1, 2, 3]));
    let c = get_chunk_from_code(&code, &mut offset, &mut path, 0).unwrap();
    assert_eq!(c.data.unwrap().len(), 10);
    let c = get_chunk_from_code(&code, &mut offset, &mut path, 0).unwrap();
    assert_eq!(c.ctype, ChunkType::DataSimple);
    assert_eq!(c.data, Some(vec![0xFF, 1, 2, 3, 4, 5]));
    assert_eq!(offset, code.len());
}

#[test]
fn chunk_ref_long_skips_its_tag() {
    let code = [0x1F, 0x03, 0x00, 0x00, 0x07, 0x00, 0x01, 0x09];
    let mut offset = 0usize;
    let mut path = vec![];
    let c = get_chunk_from_code(&code, &mut offset, &mut path, 0).unwrap();
    assert_eq!(c.ctype, ChunkType::RefLong);
    assert_eq!(c.ref_data, Some(vec![0x00, 0x00, 0x07]));
    assert_eq!(c.data, Some(vec![0x09]));
    assert_eq!(offset, 8);
}
