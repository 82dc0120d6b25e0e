use vstd::prelude::*;

verus! {

/// The kind of record a chunk is.
#[derive(Debug, Clone, Copy, PartialEq, Eq)]
pub enum ChunkType {
    DataSimple,
    RefSimple,
    RefLong,
    DataSegment,
    PathPush,
    PathPop,
    Noop,
}

/// One decoded record of a sector's payload, with a snapshot of the path it
/// was decoded under.
#[derive(Debug, Clone)]
pub struct Chunk {
    pub ctype: ChunkType,
    pub code: u16,
    pub data: Option<Vec<u8>>,
    pub ref_data: Option<Vec<u8>>,
    pub path: Vec<usize>,
    pub segment_idx: Option<u8>,
    pub ref_simple: Option<u16>,
}

impl Chunk {
    pub fn new(
        ctype: ChunkType,
        code: u16,
        data: Option<Vec<u8>>,
        ref_data: Option<Vec<u8>>,
        path: Vec<usize>,
        segment_idx: Option<u8>,
        ref_simple: Option<u16>,
    ) -> (r: Self)
        ensures
            r.ctype == ctype,
            r.code == code,
            r.data == data,
            r.ref_data == ref_data,
            r.path == path,
            r.segment_idx == segment_idx,
            r.ref_simple == ref_simple,
    {
        Chunk { ctype, code, data, ref_data, path, segment_idx, ref_simple }
    }
}

/// Why a chunk could not be decoded. `sector_start` is the byte offset of the
/// sector being read, `offset` the position of the chunk's opcode.
#[derive(Debug, Clone, PartialEq, Eq)]
pub enum ChunkError {
    UnknownOpcode { sector_start: usize, offset: usize, opcode: u8 },
    PathUnderflow { sector_start: usize, offset: usize },
    Truncated { sector_start: usize, offset: usize },
}

/// An opcode whose two top bits are set applies its path push to itself only.
pub open spec fn is_scoped(raw: u8) -> bool {
    raw & 0xC0 == 0xC0
}

/// The opcode that selects the chunk's layout.
pub open spec fn effective_code(raw: u8) -> u8 {
    if is_scoped(raw) {
        raw & 0x3F
    } else {
        raw
    }
}

pub open spec fn byte_at(code: Seq<u8>, i: int) -> int {
    code[i] as int
}

pub open spec fn be16_at(code: Seq<u8>, i: int) -> int {
    code[i] as int * 256 + code[i + 1] as int
}

/// Two-byte path-style integer at `i` (see `path_int_value`).
pub open spec fn path16_at(code: Seq<u8>, i: int) -> int {
    0x80 + code[i + 1] as int
}

/// A layout that ends at `end` and reads nothing beyond it.
pub open spec fn shape(
    ctype: ChunkType,
    op: u8,
    data: Option<(int, int)>,
    ref_data: Option<(int, int)>,
    ref_simple: Option<int>,
    segment_idx: Option<u8>,
    effect: Option<Option<int>>,
    end: int,
) -> ChunkShapeSpec {
    ChunkShapeSpec { ctype, code: op, data, ref_data, ref_simple, segment_idx, effect, end, span: end }
}

/// The layout of a chunk as integers: `effect` is `None` for no path change,
/// `Some(Some(id))` for a push of `id` and `Some(None)` for a pop.
pub struct ChunkShapeSpec {
    pub ctype: ChunkType,
    pub code: u8,
    pub data: Option<(int, int)>,
    pub ref_data: Option<(int, int)>,
    pub ref_simple: Option<int>,
    pub segment_idx: Option<u8>,
    pub effect: Option<Option<int>>,
    pub end: int,
    pub span: int,
}

/// Length of the payload of the opcodes 0x11 to 0x15.
pub open spec fn fixed_data_len(op: u8) -> int {
    if op == 0x11 {
        3
    } else {
        2 * (op - 0x10)
    }
}

/// Bytes skipped after the payload of the length-prefixed opcodes 0x19 to 0x1D.
pub open spec fn trailer_len(op: u8) -> int {
    if op == 0x19 {
        1
    } else {
        2 * (op - 0x19)
    }
}

/// The layout of the chunk whose opcode stands at `o`, read from the table of
/// opcodes; `None` for an opcode outside it.
pub open spec fn layout_at(code: Seq<u8>, o: int) -> Option<ChunkShapeSpec> {
    let op = effective_code(code[o]);
    let n1 = byte_at(code, o + 1);
    if op == 0x00 {
        Some(shape(ChunkType::DataSimple, op, Some((o + 1, o + 1)), None, None, None, None, o + 2))
    } else if 0x01 <= op <= 0x05 {
        let len = 2 * (op - 0x01);
        Some(shape(ChunkType::RefSimple, op, Some((o + 2, o + 2 + len)), None, Some(n1), None, None, o + 2 + len))
    } else if op == 0x06 {
        let len = byte_at(code, o + 2);
        Some(shape(ChunkType::RefSimple, op, Some((o + 3, o + 3 + len)), None, Some(n1), None, None, o + 3 + len))
    } else if op == 0x07 {
        let len = be16_at(code, o + 2);
        Some(shape(ChunkType::DataSegment, op, Some((o + 4, o + 4 + len)), None, None, Some(code[o + 1]), None, o + 4 + len))
    } else if op == 0x08 {
        Some(shape(ChunkType::DataSimple, op, Some((o + 1, o + 3)), None, None, None, None, o + 3))
    } else if 0x09 <= op <= 0x0D {
        let len = 2 * (op - 0x09);
        Some(shape(ChunkType::RefSimple, op, Some((o + 3, o + 3 + len)), None, Some(path16_at(code, o + 1)), None, None, o + 3 + len))
    } else if op == 0x0E {
        if n1 != 0xFF {
            let len = byte_at(code, o + 3);
            Some(shape(ChunkType::RefSimple, op, Some((o + 4, o + 4 + len)), None, Some(path16_at(code, o + 1)), None, None, o + 4 + len))
        } else {
            Some(shape(ChunkType::DataSimple, op, Some((o + 1, o + 7)), None, None, None, None, o + 7))
        }
    } else if op == 0x0F {
        if n1 == 0x80 {
            let len = be16_at(code, o + 3);
            Some(shape(ChunkType::DataSegment, op, Some((o + 5, o + 5 + len)), None, None, Some(code[o + 2]), None, o + 5 + len))
        } else {
            None
        }
    } else if op == 0x10 {
        Some(shape(ChunkType::DataSimple, op, Some((o + 1, o + 4)), None, None, None, None, o + 4))
    } else if 0x11 <= op <= 0x15 {
        let len = fixed_data_len(op);
        Some(shape(ChunkType::DataSimple, op, Some((o + 1, o + 1 + len)), None, None, None, None, o + 1 + len))
    } else if op == 0x16 {
        let len = byte_at(code, o + 4);
        Some(shape(ChunkType::RefLong, op, Some((o + 5, o + 5 + len)), Some((o + 1, o + 4)), None, None, None, o + 5 + len))
    } else if op == 0x17 {
        let len = path16_at(code, o + 4);
        Some(shape(ChunkType::RefLong, op, Some((o + 6, o + 6 + len)), Some((o + 1, o + 4)), None, None, None, o + 6 + len))
    } else if op == 0x1B && n1 == 0x00 {
        Some(shape(ChunkType::RefSimple, op, Some((o + 3, o + 7)), None, Some(byte_at(code, o + 2)), None, None, o + 7))
    } else if op == 0x19 || op == 0x1A || op == 0x1B || op == 0x1C || op == 0x1D {
        Some(shape(ChunkType::DataSimple, op, Some((o + 2, o + 2 + n1)), None, None, None, None, o + 2 + n1 + trailer_len(op)))
    } else if op == 0x1E {
        let len = byte_at(code, o + 2 + n1);
        Some(shape(ChunkType::RefLong, op, Some((o + 3 + n1, o + 3 + n1 + len)), Some((o + 2, o + 2 + n1)), None, None, None, o + 3 + n1 + len))
    } else if op == 0x1F {
        let len = be16_at(code, o + 2 + n1);
        Some(shape(ChunkType::RefLong, op, Some((o + 4 + n1, o + 4 + n1 + len)), Some((o + 2, o + 2 + n1)), None, None, None, o + 4 + n1 + len))
    } else if op == 0x20 {
        if n1 == 0xFE {
            Some(shape(ChunkType::PathPush, op, Some((o + 2, o + 10)), None, None, None, Some(Some(byte_at(code, o + 2))), o + 10))
        } else {
            Some(shape(ChunkType::PathPush, op, Some((o + 1, o + 2)), None, None, None, Some(Some(n1)), o + 2))
        }
    } else if op == 0x23 {
        Some(shape(ChunkType::DataSimple, op, Some((o + 2, o + 2 + n1)), None, None, None, None, o + 2 + n1))
    } else if op == 0x28 {
        Some(shape(ChunkType::PathPush, op, Some((o + 1, o + 3)), None, None, None, Some(Some(path16_at(code, o + 1))), o + 3))
    } else if op == 0x30 {
        Some(shape(ChunkType::PathPush, op, Some((o + 1, o + 4)), None, None, None, Some(Some(0)), o + 4))
    } else if op == 0x38 {
        let s = shape(ChunkType::PathPush, op, Some((o + 2, o + 4)), None, None, None, Some(Some(path16_at(code, o + 2))), o + 2 + n1);
        Some(ChunkShapeSpec { span: if o + 4 > s.end { o + 4 } else { s.end }, ..s })
    } else if op == 0x3D || op == 0x40 {
        Some(shape(ChunkType::PathPop, op, None, None, None, None, Some(None), o + 1))
    } else if op == 0x80 {
        Some(shape(ChunkType::Noop, op, None, None, None, None, None, o + 1))
    } else {
        None
    }
}

/// Opcodes whose layout depends on the byte after them.
pub open spec fn peeks_next(op: u8) -> bool {
    op == 0x0E || op == 0x0F || op == 0x1B || op == 0x20
}

/// The chunk at `o` is cut off by the end of the buffer.
pub open spec fn truncated_at(code: Seq<u8>, o: int) -> bool {
    let op = effective_code(code[o]);
    if peeks_next(op) && o + 1 >= code.len() {
        true
    } else {
        match layout_at(code, o) {
            Some(s) => s.span > code.len(),
            None => false,
        }
    }
}

/// What a chunk does to the path stack.
enum PathEffect {
    Keep,
    Push(usize),
    Pop,
}

/// A decoded layout, in positions of the buffer.
struct Layout {
    ctype: ChunkType,
    code: u8,
    data: Option<(usize, usize)>,
    ref_data: Option<(usize, usize)>,
    ref_simple: Option<u16>,
    segment_idx: Option<u8>,
    effect: PathEffect,
    end: usize,
}

spec fn range_view(r: Option<(usize, usize)>) -> Option<(int, int)> {
    match r {
        Some((a, b)) => Some((a as int, b as int)),
        None => None,
    }
}

spec fn layout_agrees(l: Layout, s: ChunkShapeSpec) -> bool {
    &&& l.ctype == s.ctype
    &&& l.code == s.code
    &&& range_view(l.data) == s.data
    &&& range_view(l.ref_data) == s.ref_data
    &&& match s.ref_simple {
        Some(v) => l.ref_simple == Some(v as u16) && v == l.ref_simple->0,
        None => l.ref_simple is None,
    }
    &&& l.segment_idx == s.segment_idx
    &&& match s.effect {
        None => l.effect is Keep,
        Some(None) => l.effect is Pop,
        Some(Some(id)) => l.effect == PathEffect::Push(id as usize) && id == id as usize,
    }
    &&& l.end == s.end
}

fn simple(
    ctype: ChunkType,
    op: u8,
    data: Option<(usize, usize)>,
    ref_simple: Option<u16>,
    end: usize,
) -> (l: Layout)
    ensures
        l == (Layout {
            ctype,
            code: op,
            data,
            ref_data: None,
            ref_simple,
            segment_idx: None,
            effect: PathEffect::Keep,
            end,
        }),
{
    Layout { ctype, code: op, data, ref_data: None, ref_simple, segment_idx: None, effect: PathEffect::Keep, end }
}

/// Reads the layout of the chunk at `o` without touching the path.
#[verifier::rlimit(100)]
#[verifier::spinoff_prover]
fn read_layout(code: &[u8], o: usize, sector_start: usize) -> (r: Result<Layout, ChunkError>)
    requires
        o < code@.len(),
    ensures
        match r {
            Ok(l) => {
                &&& !truncated_at(code@, o as int)
                &&& layout_at(code@, o as int) is Some
                &&& layout_agrees(l, layout_at(code@, o as int)->0)
            },
            Err(e) => {
                ||| truncated_at(code@, o as int) && e == (ChunkError::Truncated { sector_start, offset: o })
                ||| !truncated_at(code@, o as int) && layout_at(code@, o as int) is None && e == (
                ChunkError::UnknownOpcode { sector_start, offset: o, opcode: code@[o as int] })
            },
        },
{
    let raw = code[o];
    let op: u8 = if raw & 0xC0 == 0xC0 { raw & 0x3F } else { raw };
    assert(op == effective_code(raw));
    let avail = code.len() - o;
    let trunc = ChunkError::Truncated { sector_start, offset: o };
    if peeks_next_exec(op) && avail < 2 {
        return Err(trunc);
    }
    if op == 0x00 {
        if avail < 2 { return Err(trunc); }
        Ok(simple(ChunkType::DataSimple, op, Some((o + 1, o + 1)), None, o + 2))
    } else if 0x01 <= op && op <= 0x05 {
        let len = 2 * (op as usize - 1);
        if avail < 2 + len { return Err(trunc); }
        Ok(simple(ChunkType::RefSimple, op, Some((o + 2, o + 2 + len)), Some(code[o + 1] as u16), o + 2 + len))
    } else if op == 0x06 {
        if avail < 3 { return Err(trunc); }
        let len = code[o + 2] as usize;
        if avail < 3 + len { return Err(trunc); }
        Ok(simple(ChunkType::RefSimple, op, Some((o + 3, o + 3 + len)), Some(code[o + 1] as u16), o + 3 + len))
    } else if op == 0x07 {
        if avail < 4 { return Err(trunc); }
        let len = code[o + 2] as usize * 256 + code[o + 3] as usize;
        if avail < 4 + len { return Err(trunc); }
        Ok(Layout {
            ctype: ChunkType::DataSegment,
            code: op,
            data: Some((o + 4, o + 4 + len)),
            ref_data: None,
            ref_simple: None,
            segment_idx: Some(code[o + 1]),
            effect: PathEffect::Keep,
            end: o + 4 + len,
        })
    } else if op == 0x08 {
        if avail < 3 { return Err(trunc); }
        Ok(simple(ChunkType::DataSimple, op, Some((o + 1, o + 3)), None, o + 3))
    } else if 0x09 <= op && op <= 0x0D {
        let len = 2 * (op as usize - 0x09);
        if avail < 3 + len { return Err(trunc); }
        let id = 0x80 + code[o + 2] as u16;
        Ok(simple(ChunkType::RefSimple, op, Some((o + 3, o + 3 + len)), Some(id), o + 3 + len))
    } else if op == 0x0E {
        if code[o + 1] != 0xFF {
            if avail < 4 { return Err(trunc); }
            let len = code[o + 3] as usize;
            if avail < 4 + len { return Err(trunc); }
            let id = 0x80 + code[o + 2] as u16;
            Ok(simple(ChunkType::RefSimple, op, Some((o + 4, o + 4 + len)), Some(id), o + 4 + len))
        } else {
            if avail < 7 { return Err(trunc); }
            Ok(simple(ChunkType::DataSimple, op, Some((o + 1, o + 7)), None, o + 7))
        }
    } else if op == 0x0F {
        if code[o + 1] == 0x80 {
            if avail < 5 { return Err(trunc); }
            let len = code[o + 3] as usize * 256 + code[o + 4] as usize;
            if avail < 5 + len { return Err(trunc); }
            Ok(Layout {
                ctype: ChunkType::DataSegment,
                code: op,
                data: Some((o + 5, o + 5 + len)),
                ref_data: None,
                ref_simple: None,
                segment_idx: Some(code[o + 2]),
                effect: PathEffect::Keep,
                end: o + 5 + len,
            })
        } else {
            Err(ChunkError::UnknownOpcode { sector_start, offset: o, opcode: raw })
        }
    } else if op == 0x10 {
        if avail < 4 { return Err(trunc); }
        Ok(simple(ChunkType::DataSimple, op, Some((o + 1, o + 4)), None, o + 4))
    } else if 0x11 <= op && op <= 0x15 {
        let len: usize = if op == 0x11 { 3 } else { 2 * (op as usize - 0x10) };
        if avail < 1 + len { return Err(trunc); }
        Ok(simple(ChunkType::DataSimple, op, Some((o + 1, o + 1 + len)), None, o + 1 + len))
    } else if op == 0x16 || op == 0x17 {
        let (len, start): (usize, usize) = if op == 0x16 {
            if avail < 5 { return Err(trunc); }
            (code[o + 4] as usize, 5)
        } else {
            if avail < 6 { return Err(trunc); }
            (0x80 + code[o + 5] as usize, 6)
        };
        if avail < start + len { return Err(trunc); }
        Ok(Layout {
            ctype: ChunkType::RefLong,
            code: op,
            data: Some((o + start, o + start + len)),
            ref_data: Some((o + 1, o + 4)),
            ref_simple: None,
            segment_idx: None,
            effect: PathEffect::Keep,
            end: o + start + len,
        })
    } else if op == 0x1B && code[o + 1] == 0x00 {
        if avail < 7 { return Err(trunc); }
        Ok(simple(ChunkType::RefSimple, op, Some((o + 3, o + 7)), Some(code[o + 2] as u16), o + 7))
    } else if op == 0x19 || op == 0x1A || op == 0x1B || op == 0x1C || op == 0x1D {
        if avail < 2 { return Err(trunc); }
        let len = code[o + 1] as usize;
        let trailer: usize = if op == 0x19 { 1 } else { 2 * (op as usize - 0x19) };
        if avail < 2 + len + trailer { return Err(trunc); }
        Ok(simple(ChunkType::DataSimple, op, Some((o + 2, o + 2 + len)), None, o + 2 + len + trailer))
    } else if op == 0x1E {
        if avail < 2 { return Err(trunc); }
        let ref_len = code[o + 1] as usize;
        if avail < 3 + ref_len { return Err(trunc); }
        let len = code[o + 2 + ref_len] as usize;
        if avail < 3 + ref_len + len { return Err(trunc); }
        Ok(Layout {
            ctype: ChunkType::RefLong,
            code: op,
            data: Some((o + 3 + ref_len, o + 3 + ref_len + len)),
            ref_data: Some((o + 2, o + 2 + ref_len)),
            ref_simple: None,
            segment_idx: None,
            effect: PathEffect::Keep,
            end: o + 3 + ref_len + len,
        })
    } else if op == 0x1F {
        if avail < 2 { return Err(trunc); }
        let ref_len = code[o + 1] as usize;
        if avail < 4 + ref_len { return Err(trunc); }
        let len = code[o + 2 + ref_len] as usize * 256 + code[o + 3 + ref_len] as usize;
        if avail < 4 + ref_len + len { return Err(trunc); }
        Ok(Layout {
            ctype: ChunkType::RefLong,
            code: op,
            data: Some((o + 4 + ref_len, o + 4 + ref_len + len)),
            ref_data: Some((o + 2, o + 2 + ref_len)),
            ref_simple: None,
            segment_idx: None,
            effect: PathEffect::Keep,
            end: o + 4 + ref_len + len,
        })
    } else if op == 0x20 || op == 0x28 || op == 0x30 || op == 0x38 {
        let (data, id, end): ((usize, usize), usize, usize) = if op == 0x20 {
            if code[o + 1] == 0xFE {
                if avail < 10 { return Err(trunc); }
                ((o + 2, o + 10), code[o + 2] as usize, o + 10)
            } else {
                ((o + 1, o + 2), code[o + 1] as usize, o + 2)
            }
        } else if op == 0x28 {
            if avail < 3 { return Err(trunc); }
            ((o + 1, o + 3), 0x80 + code[o + 2] as usize, o + 3)
        } else if op == 0x30 {
            if avail < 4 { return Err(trunc); }
            ((o + 1, o + 4), 0, o + 4)
        } else {
            if avail < 4 { return Err(trunc); }
            let skip = code[o + 1] as usize;
            if avail < 2 + skip { return Err(trunc); }
            ((o + 2, o + 4), 0x80 + code[o + 3] as usize, o + 2 + skip)
        };
        Ok(Layout {
            ctype: ChunkType::PathPush,
            code: op,
            data: Some(data),
            ref_data: None,
            ref_simple: None,
            segment_idx: None,
            effect: PathEffect::Push(id),
            end,
        })
    } else if op == 0x23 {
        if avail < 2 { return Err(trunc); }
        let len = code[o + 1] as usize;
        if avail < 2 + len { return Err(trunc); }
        Ok(simple(ChunkType::DataSimple, op, Some((o + 2, o + 2 + len)), None, o + 2 + len))
    } else if op == 0x3D || op == 0x40 {
        Ok(Layout {
            ctype: ChunkType::PathPop,
            code: op,
            data: None,
            ref_data: None,
            ref_simple: None,
            segment_idx: None,
            effect: PathEffect::Pop,
            end: o + 1,
        })
    } else if op == 0x80 {
        Ok(simple(ChunkType::Noop, op, None, None, o + 1))
    } else {
        Err(ChunkError::UnknownOpcode { sector_start, offset: o, opcode: raw })
    }
}

/// The bytes a range of the buffer holds.
pub open spec fn range_bytes(code: Seq<u8>, r: Option<(int, int)>) -> Option<Seq<u8>> {
    match r {
        Some((a, b)) => Some(code.subrange(a, b)),
        None => None,
    }
}

pub open spec fn bytes_view(v: Option<Vec<u8>>) -> Option<Seq<u8>> {
    match v {
        Some(b) => Some(b@),
        None => None,
    }
}

/// The path as the chunk itself sees it: after its push or pop.
pub open spec fn path_seen(path: Seq<usize>, s: ChunkShapeSpec) -> Seq<usize> {
    match s.effect {
        Some(Some(id)) => path.push(id as usize),
        Some(None) => path.drop_last(),
        None => path,
    }
}

/// The path left for the chunks that follow: a scoped push is undone.
pub open spec fn path_after(path: Seq<usize>, s: ChunkShapeSpec, raw: u8) -> Seq<usize> {
    if is_scoped(raw) && s.effect matches Some(Some(_)) {
        path
    } else {
        path_seen(path, s)
    }
}

/// The decoded chunk holds what the layout places in the buffer.
pub open spec fn chunk_agrees(c: Chunk, s: ChunkShapeSpec, code: Seq<u8>, path: Seq<usize>) -> bool {
    &&& c.ctype == s.ctype
    &&& c.code == s.code as u16
    &&& bytes_view(c.data) == range_bytes(code, s.data)
    &&& bytes_view(c.ref_data) == range_bytes(code, s.ref_data)
    &&& match s.ref_simple {
        Some(v) => c.ref_simple == Some(v as u16),
        None => c.ref_simple is None,
    }
    &&& c.segment_idx == s.segment_idx
    &&& c.path@ == path_seen(path, s)
}

/// The chunk at `o` pops an empty path.
pub open spec fn underflows_at(code: Seq<u8>, o: int, path: Seq<usize>) -> bool {
    &&& layout_at(code, o) matches Some(s)
    &&& s.effect == Some(None::<int>)
    &&& path.len() == 0
}

/// Decodes the chunk whose opcode stands at `*offset`, moves `*offset` past
/// it and applies its path effect; a scoped opcode's push is seen by the
/// chunk alone. On an error neither the offset nor the path changes.
pub fn get_chunk_from_code(
    code: &[u8],
    offset: &mut usize,
    path: &mut Vec<usize>,
    local: usize,
) -> (r: Result<Chunk, ChunkError>)
    requires
        *old(offset) < code@.len(),
    ensures
        ({
            let o = *old(offset) as int;
            let s = layout_at(code@, o)->0;
            if truncated_at(code@, o) {
                &&& r == Err::<Chunk, _>(ChunkError::Truncated { sector_start: local, offset: *old(offset) })
                &&& *final(offset) == *old(offset) && final(path)@ == old(path)@
            } else if layout_at(code@, o) is None {
                &&& r == Err::<Chunk, _>(ChunkError::UnknownOpcode {
                    sector_start: local, offset: *old(offset), opcode: code@[o] })
                &&& *final(offset) == *old(offset) && final(path)@ == old(path)@
            } else if underflows_at(code@, o, old(path)@) {
                &&& r == Err::<Chunk, _>(ChunkError::PathUnderflow { sector_start: local, offset: *old(offset) })
                &&& *final(offset) == *old(offset) && final(path)@ == old(path)@
            } else {
                &&& r is Ok
                &&& chunk_agrees(r->Ok_0, s, code@, old(path)@)
                &&& *final(offset) == s.end
                &&& final(path)@ == path_after(old(path)@, s, code@[o])
                &&& s.end > o && s.end <= code@.len()
            }
        }),
{
    let o = *offset;
    let l = match read_layout(code, o, local) {
        Ok(l) => l,
        Err(e) => return Err(e),
    };
    proof {
        let s = layout_at(code@, o as int)->0;
        lemma_layout_bounds(code@, o as int);
        assert(s.end > o);
    }
    let raw = code[o];
    match l.effect {
        PathEffect::Pop => {
            if path.len() == 0 {
                return Err(ChunkError::PathUnderflow { sector_start: local, offset: o });
            }
            path.pop();
        },
        PathEffect::Push(id) => {
            path.push(id);
        },
        PathEffect::Keep => {},
    }
    let seen = path.clone();
    if raw & 0xC0 == 0xC0 {
        if let PathEffect::Push(_) = l.effect {
            path.pop();
        }
    }
    let data = match l.data {
        Some((a, b)) => Some(copy_bytes(code, a, b)),
        None => None,
    };
    let ref_data = match l.ref_data {
        Some((a, b)) => Some(copy_bytes(code, a, b)),
        None => None,
    };
    *offset = l.end;
    Ok(Chunk::new(l.ctype, l.code as u16, data, ref_data, seen, l.segment_idx, l.ref_simple))
}

/// Decoding a chunk never takes the path below empty: a pop only succeeds on
/// a non-empty path (on an empty one decoding reports `PathUnderflow`), a
/// push adds one segment unless it is scoped, and other chunks leave the path
/// as it was.
pub proof fn lemma_path_depth(code: Seq<u8>, o: int, path: Seq<usize>)
    requires
        0 <= o < code.len(),
        !truncated_at(code, o),
        layout_at(code, o) is Some,
    ensures
        ({
            let s = layout_at(code, o)->0;
            let after = path_after(path, s, code[o]);
            &&& s.effect == Some(None::<int>) && path.len() == 0 ==> underflows_at(code, o, path)
            &&& s.effect == Some(None::<int>) && path.len() > 0 ==> after.len() == path.len() - 1
                && after == path.subrange(0, path.len() - 1)
            &&& (s.effect matches Some(Some(_))) && is_scoped(code[o]) ==> after == path
            &&& (s.effect matches Some(Some(_))) && !is_scoped(code[o]) ==> after.len() == path.len() + 1
                && after.subrange(0, path.len() as int) == path
            &&& s.effect is None ==> after == path
        }),
{
    let s = layout_at(code, o)->0;
    if let Some(Some(id)) = s.effect {
        assert(path.push(id as usize).subrange(0, path.len() as int) =~= path);
    }
}

/// Every range of a chunk that decodes lies inside the buffer, and the chunk
/// ends past its opcode.
proof fn lemma_layout_bounds(code: Seq<u8>, o: int)
    requires
        0 <= o < code.len(),
        !truncated_at(code, o),
        layout_at(code, o) is Some,
    ensures
        ({
            let s = layout_at(code, o)->0;
            &&& o < s.end <= s.span <= code.len()
            &&& s.data matches Some((a, b)) ==> 0 <= a <= b <= s.span
            &&& s.ref_data matches Some((a, b)) ==> 0 <= a <= b <= s.span
        }),
{
}

/// A copy of `code[a..b]`.
fn copy_bytes(code: &[u8], a: usize, b: usize) -> (v: Vec<u8>)
    requires
        a <= b <= code@.len(),
    ensures
        v@ == code@.subrange(a as int, b as int),
{
    let mut v: Vec<u8> = Vec::with_capacity(b - a);
    let mut i = a;
    while i < b
        invariant
            a <= i <= b <= code@.len(),
            v@ == code@.subrange(a as int, i as int),
        decreases b - i,
    {
        v.push(code[i]);
        i += 1;
        assert(v@ =~= code@.subrange(a as int, i as int));
    }
    v
}

fn peeks_next_exec(op: u8) -> (r: bool)
    ensures
        r == peeks_next(op),
{
    op == 0x0E || op == 0x0F || op == 0x1B || op == 0x20
}

} // verus!
