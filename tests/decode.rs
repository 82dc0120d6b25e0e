use fmp_decompiler::dispatch::DecodeError;
use fmp_decompiler::decompiler::decompile_fmp12_bytes;
use fmp_decompiler::script::Instruction;
use fmp_decompiler::sector::get_sector;
use fmp_decompiler::segments::SegmentBuffer;

const SECTOR: usize = 4096;

fn masked(s: &str) -> Vec<u8> {
    s.bytes().map(|b| b ^ 0x5A).collect()
}

/// A file of `sectors` blocks: block 1 declares `count`, block 2 holds
/// `payload` (padded with no-op chunks) and links to `next`.
fn synthetic(sectors: usize, count: u8, next: u8, payload: &[u8]) -> Vec<u8> {
    let mut buf = vec![0u8; sectors * SECTOR];
    buf[SECTOR + 11] = count;
    buf[2 * SECTOR + 11] = next;
    let start = 2 * SECTOR + 20;
    buf[start..start + payload.len()].copy_from_slice(payload);
    for b in &mut buf[start + payload.len()..3 * SECTOR] {
        *b = 0x80;
    }
    buf
}

fn table_name_payload(name: &str) -> Vec<u8> {
    let mut p = vec![0x20, 3, 0x20, 16, 0x20, 5, 0x28, 0x00, 0x01];
    p.push(0x06);
    p.push(16);
    p.push(name.len() as u8);
    p.extend(masked(name));
    p
}

#[test]
fn end_to_end_single_table() {
    let buf = synthetic(3, 2, 0, &table_name_payload("Orders"));
    let file = decompile_fmp12_bytes(&buf, &vec![]).unwrap();
    assert_eq!(file.tables.len(), 1);
    assert_eq!(file.tables[&1].table_name, "Orders");
    assert!(file.scripts.is_empty());
}

#[test]
fn decode_cycle_is_reported() {
    let buf = synthetic(3, 2, 2, &[]);
    assert_eq!(decompile_fmp12_bytes(&buf, &vec![]).unwrap_err(), DecodeError::SectorCycle { sector: 2 });
}

#[test]
fn decode_out_of_range_link() {
    let buf = synthetic(3, 2, 5, &[]);
    assert_eq!(decompile_fmp12_bytes(&buf, &vec![]).unwrap_err(), DecodeError::SectorOutOfRange { sector: 5 });
}

#[test]
fn decode_file_too_short() {
    let buf = vec![0u8; 100];
    assert_eq!(decompile_fmp12_bytes(&buf, &vec![]).unwrap_err(), DecodeError::FileTooShort { len: 100 });
}

#[test]
fn decode_bad_chunk_is_fatal() {
    let buf = synthetic(3, 2, 0, &[0x3D]);
    assert!(matches!(decompile_fmp12_bytes(&buf, &vec![]), Err(DecodeError::Chunk(_))));
}

#[test]
fn decode_bad_table_id_is_fatal() {
    // a table path whose id lies below the long-id base
    let p = vec![0x20, 3, 0x20, 16, 0x20, 5, 0x20, 5];
    let buf = synthetic(3, 2, 0, &p);
    let r = decompile_fmp12_bytes(&buf, &vec![]);
    assert_eq!(r.unwrap_err(), DecodeError::BadTableId { id: 5 });
}

#[test]
fn decode_missing_script_is_fatal() {
    // an operand for step 9 of script 7, which was never named
    let mut p = vec![0x20, 17, 0x20, 5, 0x20, 7, 0x20, 5, 0x20, 9, 0x28, 0x00, 0x00, 0x20, 5];
    p.extend([0x06, 5, 1, b'x' ^ 0x5A]);
    let buf = synthetic(3, 2, 0, &p);
    let r = decompile_fmp12_bytes(&buf, &vec![]);
    assert_eq!(r.unwrap_err(), DecodeError::MissingScript { script: 7 });
}

#[test]
fn get_sector_reads_header() {
    let mut s = vec![0u8; 64];
    s[0] = 1;
    s[1] = 3;
    s[4..8].copy_from_slice(&[0, 0, 1, 2]);
    s[8..12].copy_from_slice(&[0, 0, 0, 9]);
    s[20] = 0xAB;
    let sector = get_sector(&s);
    assert!(sector.deleted);
    assert_eq!(sector.level, 3);
    assert_eq!(sector.previous, 0x102);
    assert_eq!(sector.next, 9);
    assert_eq!(sector.payload.len(), 44);
    assert_eq!(sector.payload[0], 0xAB);
}

#[test]
fn segments_out_of_order_reassemble() {
    let mut late = SegmentBuffer::new();
    late.insert(1, vec![3, 4]);
    late.insert(0, vec![1, 2]);
    let mut whole = SegmentBuffer::new();
    whole.insert(0, vec![1, 2, 3, 4]);
    assert_eq!(late.assemble(), whole.assemble());
    assert_eq!(late.assemble(), vec![1, 2, 3, 4]);
}

fn record(index_low: u8, opcode: u8) -> Vec<u8> {
    let mut r = vec![0u8; 28];
    r[2] = 0x80;
    r[3] = index_low;
    r[21] = opcode;
    r
}

#[test]
fn end_to_end_script_segments() {
    let mut table = vec![None; 256];
    table[141] = Some(Instruction::SetVariable);
    table[103] = Some(Instruction::ExitScript);
    let first = record(1, 141);
    let second = record(2, 103);
    // script 7 gets its name, then its body in two runs, the later one first
    let mut p = vec![0x20, 17, 0x20, 1, 0x20, 7, 0x06, 16, 1, b'S' ^ 0x5A, 0x40, 0x40, 0x40];
    p.extend([0x20, 17, 0x20, 5, 0x20, 7, 0x20, 4]);
    p.extend([0x07, 1, 0, 28]);
    p.extend(&second);
    p.extend([0x07, 0, 0, 28]);
    p.extend(&first);
    p.extend([0x40, 0x40, 0x40, 0x40]);
    let buf = synthetic(3, 2, 0, &p);
    let file = decompile_fmp12_bytes(&buf, &table).unwrap();
    let script = &file.scripts[&7];
    assert_eq!(script.script_name, "S");
    assert_eq!(script.instructions.len(), 2);
    assert_eq!(script.instructions[&0].opcode, Instruction::SetVariable);
    assert_eq!(script.instructions[&0].index, 0x81);
    assert_eq!(script.instructions[&1].opcode, Instruction::ExitScript);
    assert_eq!(script.instructions[&1].index, 0x82);
}

fn named(code: u8, text: &str) -> Vec<u8> {
    let mut v = vec![0x06, code, text.len() as u8];
    v.extend(masked(text));
    v
}

#[test]
fn end_to_end_every_route() {
    let mut table = vec![None; 256];
    table[141] = Some(Instruction::SetVariable);
    table[103] = Some(Instruction::ExitScript);
    let mut p = vec![];
    // field 2 of table 1 (path id 129)
    p.extend([0x28, 0x00, 0x01, 0x20, 3, 0x20, 5, 0x20, 2]);
    p.extend(named(16, "Fld"));
    p.extend(named(2, "Text"));
    p.extend([0x40, 0x40, 0x40, 0x40]);
    // layout 9
    p.extend([0x20, 4, 0x20, 1, 0x20, 7, 0x20, 9]);
    p.extend(named(16, "L1"));
    p.extend([0x40, 0x40, 0x40, 0x40]);
    // a table occurrence of table 42, then a relationship to table 5
    p.extend([0x20, 3, 0x20, 17, 0x20, 5, 0x20, 0]);
    p.extend([0x06, 2, 7, 0, 0, 0, 0, 0, 0, 42]);
    p.extend(named(16, "Occ"));
    p.extend([0x28, 0x00, 0x7B]);
    p.extend([0x23, 3, 0, 0, 5]);
    p.extend([0x40, 0x40, 0x40, 0x40, 0x40]);
    // script 7: its name, its step records, two operands
    p.extend([0x20, 17, 0x20, 1, 0x20, 7]);
    p.extend(named(16, "S"));
    p.extend([0x40, 0x40, 0x40]);
    p.extend([0x20, 17, 0x20, 5, 0x20, 7]);
    p.extend([0x07, 4, 0, 56]);
    p.extend(record(1, 141));
    p.extend(record(2, 103));
    p.extend([0x20, 5, 0x28, 0x00, 0x01, 0x28, 0x00, 0x00]);
    p.extend(named(1, "$v"));
    p.extend([0x40, 0x40, 0x28, 0x00, 0x02, 0x28, 0x00, 0x00, 0x20, 5]);
    p.extend([0x06, 5, 3, 0x1A, 1, b'A' ^ 0x5A]);
    p.extend([0x40, 0x40, 0x40, 0x40, 0x40, 0x40, 0x40]);
    let buf = synthetic(3, 2, 0, &p);
    let file = decompile_fmp12_bytes(&buf, &table).unwrap();

    let field = &file.tables[&1].fields[&2];
    assert_eq!(field.field_name, "Fld");
    assert_eq!(field.field_type, "Text");
    assert_eq!(file.layouts[&9].layout_name, "L1");
    assert_eq!(file.table_occurrences[&1].table_actual, 42);
    assert_eq!(file.table_occurrences[&1].table_occurence_name, "Occ");
    assert_eq!(file.relationships[&0].table1, 1);
    assert_eq!(file.relationships[&0].table2, 5);
    let script = &file.scripts[&7];
    assert_eq!(script.script_name, "S");
    assert_eq!(script.instructions[&0x81].switches, vec!["$v".to_string()]);
    assert_eq!(script.instructions[&0x82].switches, vec!["A".to_string()]);
}

#[test]
fn decode_cycle_after_first_block() {
    // block 2 links to block 3, which links to itself
    let mut buf = synthetic(4, 3, 3, &[]);
    for b in &mut buf[3 * SECTOR + 20..4 * SECTOR] {
        *b = 0x80;
    }
    buf[3 * SECTOR + 11] = 3;
    assert_eq!(decompile_fmp12_bytes(&buf, &vec![]).unwrap_err(), DecodeError::SectorCycle { sector: 3 });
}
