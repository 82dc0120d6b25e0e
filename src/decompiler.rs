use vstd::prelude::*;
use vstd::slice::slice_subrange;
use std::collections::HashMap;

use crate::chunk::{
    chunk_agrees, get_chunk_from_code, layout_at, path_after, truncated_at, underflows_at, Chunk,
    ChunkError,
};
use crate::dispatch::{dispatch_chunk, dispatch_effect, DecodeError};
use crate::component::FMComponentScript;
use crate::file::FmpFile;
use crate::format_decode::get_path_int;
use crate::script::{
    lookup_instruction, step_of_record, steps_view, Instruction, ScriptStep, StepView, RECORD_OPCODE,
    RECORD_SIZE,
};
use crate::sector::{get_sector, next_field, SECTOR_HEADER, SECTOR_SIZE};
use crate::segments::{lemma_reassembly_order, reassembled, ScriptSegments};

verus! {

/// Index of the block whose header declares the number of blocks.
pub const COUNT_SECTOR: usize = 1;

/// Index of the first block of the chain.
pub const FIRST_SECTOR: usize = 2;

/// The bytes of block `idx`.
pub open spec fn sector_bytes(buf: Seq<u8>, idx: int) -> Seq<u8> {
    buf.subrange(idx * SECTOR_SIZE, idx * SECTOR_SIZE + SECTOR_SIZE)
}

/// Block `idx` lies within the file and within the declared count `n`.
pub open spec fn sector_in_range(buf: Seq<u8>, n: nat, idx: nat) -> bool {
    idx <= n && (idx + 1) * SECTOR_SIZE <= buf.len()
}

/// How the chain of blocks from `idx` ends when followed for at most `k`
/// blocks.
pub enum ChainEnd {
    Ends,
    OutOfRange(nat),
    TooLong(nat),
}

pub open spec fn chain_end(buf: Seq<u8>, n: nat, idx: nat, k: nat) -> ChainEnd
    decreases k,
{
    if idx == 0 {
        ChainEnd::Ends
    } else if k == 0 {
        ChainEnd::TooLong(idx)
    } else if !sector_in_range(buf, n, idx) {
        ChainEnd::OutOfRange(idx)
    } else {
        chain_end(buf, n, next_field(sector_bytes(buf, idx as int)), (k - 1) as nat)
    }
}

/// The block reached from `idx` after following `k` links; the chain stays at
/// 0 once it gets there.
pub open spec fn follow(buf: Seq<u8>, idx: nat, k: nat) -> nat
    decreases k,
{
    if k == 0 || idx == 0 {
        idx
    } else {
        follow(buf, next_field(sector_bytes(buf, idx as int)), (k - 1) as nat)
    }
}

proof fn lemma_follow_add(buf: Seq<u8>, idx: nat, a: nat, b: nat)
    ensures
        follow(buf, idx, a + b) == follow(buf, follow(buf, idx, a), b),
    decreases a,
{
    if a > 0 && idx != 0 {
        lemma_follow_add(buf, next_field(sector_bytes(buf, idx as int)), (a - 1) as nat, b);
        assert((a + b - 1) as nat == (a - 1) as nat + b);
    } else if idx == 0 {
        lemma_follow_zero(buf, b);
        lemma_follow_zero(buf, a + b);
    }
}

proof fn lemma_follow_zero(buf: Seq<u8>, k: nat)
    ensures
        follow(buf, 0, k) == 0,
{
}

proof fn lemma_follow_period(buf: Seq<u8>, idx: nat, p: nat, q: nat)
    requires
        follow(buf, idx, p) == idx,
    ensures
        follow(buf, idx, q * p) == idx,
    decreases q,
{
    if q > 0 {
        lemma_follow_period(buf, idx, p, (q - 1) as nat);
        assert(q * p == (q - 1) as nat * p + p) by (nonlinear_arith)
            requires
                q > 0,
        ;
        lemma_follow_add(buf, idx, (q - 1) as nat * p, p);
        let a = (q - 1) as nat * p;
        assert(follow(buf, idx, a + p) == idx);
        assert(q * p == a + p);
    } else {
        assert(q * p == 0) by (nonlinear_arith)
            requires
                q == 0,
        ;
    }
}

proof fn lemma_cycle_nonzero(buf: Seq<u8>, idx: nat, p: nat, j: nat)
    requires
        idx != 0,
        p >= 1,
        follow(buf, idx, p) == idx,
    ensures
        follow(buf, idx, j) != 0,
{
    if follow(buf, idx, j) == 0 {
        let t = (j * p - j) as nat;
        assert(j * p >= j) by (nonlinear_arith)
            requires
                p >= 1,
        ;
        lemma_follow_add(buf, idx, j, t);
        lemma_follow_zero(buf, t);
        assert(j + t == j * p);
        lemma_follow_period(buf, idx, p, j);
    }
}

proof fn lemma_never_zero_never_ends(buf: Seq<u8>, n: nat, idx: nat, j: nat, m: nat)
    requires
        forall|i: nat| #[trigger] follow(buf, idx, i) != 0,
    ensures
        !(chain_end(buf, n, follow(buf, idx, j), m) is Ends),
    decreases m,
{
    let x = follow(buf, idx, j);
    assert(follow(buf, idx, j) != 0);
    if m > 0 && sector_in_range(buf, n, x) {
        lemma_follow_add(buf, idx, j, 1);
        let nx = next_field(sector_bytes(buf, x as int));
        assert(follow(buf, nx, 0) == nx);
        assert(follow(buf, x, 1) == nx);
        lemma_never_zero_never_ends(buf, n, idx, j + 1, (m - 1) as nat);
    }
}

/// A chain that reaches a cycle never ends: where following `a` links from
/// `idx` leads to a block that `p >= 1` further links lead back to, the walk
/// from `idx` stops with a cycle or an out-of-range link, however many
/// blocks it may visit.
pub proof fn lemma_cycle_never_ends(buf: Seq<u8>, n: nat, idx: nat, a: nat, p: nat, m: nat)
    requires
        follow(buf, idx, a) != 0,
        p >= 1,
        follow(buf, follow(buf, idx, a), p) == follow(buf, idx, a),
    ensures
        !(chain_end(buf, n, idx, m) is Ends),
{
    let x = follow(buf, idx, a);
    assert forall|i: nat| #[trigger] follow(buf, idx, i) != 0 by {
        if i <= a {
            if follow(buf, idx, i) == 0 {
                lemma_follow_add(buf, idx, i, (a - i) as nat);
                lemma_follow_zero(buf, (a - i) as nat);
            }
        } else {
            lemma_follow_add(buf, idx, a, (i - a) as nat);
            lemma_cycle_nonzero(buf, x, p, (i - a) as nat);
        }
    }
    lemma_never_zero_never_ends(buf, n, idx, 0, m);
}

/// The number of blocks that block 1 declares.
pub open spec fn declared_count(buf: Seq<u8>) -> nat {
    next_field(sector_bytes(buf, COUNT_SECTOR as int))
}

/// A run of full instruction records appended, in order, each recognised
/// step under the next free position.
pub open spec fn appended_steps(
    m: Map<usize, StepView>,
    data: Seq<u8>,
    table: Seq<Option<Instruction>>,
    j: nat,
) -> Map<usize, StepView>
    decreases j,
{
    if j == 0 {
        m
    } else {
        let prev = appended_steps(m, data, table, (j - 1) as nat);
        let rec = data.subrange(RECORD_SIZE * (j - 1), RECORD_SIZE * j);
        match step_of_record(rec, table) {
            Some(st) => prev.insert(prev.len() as usize, st),
            None => prev,
        }
    }
}

/// Appends the steps of every full record of `data`; a trailing partial
/// record is dropped.
pub fn append_record_steps(
    steps: &mut HashMap<usize, ScriptStep>,
    data: &[u8],
    table: &Vec<Option<Instruction>>,
)
    ensures
        steps_view(final(steps)@) == appended_steps(
            steps_view(old(steps)@),
            data@,
            table@,
            data@.len() / RECORD_SIZE as nat,
        ),
{
    broadcast use vstd::std_specs::hash::group_hash_axioms;

    let mut pos: usize = 0;
    let ghost mut j: nat = 0;
    while data.len() - pos >= RECORD_SIZE
        invariant
            pos == RECORD_SIZE * j,
            pos <= data@.len(),
            steps_view(steps@) == appended_steps(steps_view(old(steps)@), data@, table@, j),
            j <= data@.len() / RECORD_SIZE as nat,
            data@.len() - pos < RECORD_SIZE ==> j == data@.len() / RECORD_SIZE as nat,
        decreases data.len() - pos,
    {
        let ghost rec = data@.subrange(pos as int, pos + RECORD_SIZE);
        if let Some(op) = lookup_instruction(table, data[pos + RECORD_OPCODE]) {
            let pair = slice_subrange(data, pos + 2, pos + 4);
            let n = get_path_int(pair);
            let st = ScriptStep { opcode: op, index: n, switches: Vec::new() };
            let k = steps.len();
            let ghost before = steps@;
            steps.insert(k, st);
            proof {
                assert(pair@[1] == rec[3]);
                assert(st@.switches =~= Seq::<Seq<char>>::empty());
                assert(steps_view(before).dom() =~= before.dom());
                assert(steps_view(before).len() == before.len());
                assert(steps_view(steps@) =~= steps_view(before).insert(k, st@));
            }
        }
        pos = pos + RECORD_SIZE;
        proof {
            j = j + 1;
            assert(j <= data@.len() / 28 && (data@.len() - pos < 28 ==> j == data@.len() / 28))
                by (nonlinear_arith)
                requires
                    pos == 28 * j,
                    pos <= data@.len(),
            ;
        }
    }
}

/// `id` is among the first `i` entries of `s`.
pub open spec fn seen_before(s: Seq<usize>, i: int, id: usize) -> bool {
    exists|j: int| 0 <= j < i && #[trigger] s[j] == id
}

/// Script `id` after its body's runs, joined in segment order and read as
/// full instruction records, were appended to its steps.
pub open spec fn script_finalized(
    old: FMComponentScript,
    new: FMComponentScript,
    body: Map<u8, Seq<u8>>,
    table: Seq<Option<Instruction>>,
) -> bool {
    let data = reassembled(body);
    &&& new == (FMComponentScript { instructions: new.instructions, ..old })
    &&& steps_view(new.instructions@) == appended_steps(
        steps_view(old.instructions@),
        data,
        table,
        data.len() / RECORD_SIZE as nat,
    )
}

/// Finalizing a script follows segment indices, not arrival order: from the
/// same script, a body stored as runs 1 then 0 and the same bytes stored as
/// one run 0 give the same steps.
pub proof fn lemma_finalize_order_free(
    old: FMComponentScript,
    late: FMComponentScript,
    whole: FMComponentScript,
    first: Seq<u8>,
    second: Seq<u8>,
    table: Seq<Option<Instruction>>,
)
    requires
        script_finalized(old, late, Map::empty().insert(1u8, second).insert(0u8, first), table),
        script_finalized(old, whole, Map::empty().insert(0u8, first + second), table),
    ensures
        steps_view(late.instructions@) == steps_view(whole.instructions@),
        late == (FMComponentScript { instructions: late.instructions, ..whole }),
{
    lemma_reassembly_order(first, second);
}

/// Every registered script gets the steps of its reassembled body; every
/// other script, and the rest of the file, stays as it was. A registered
/// script that was never named is an error.
pub fn finalize_scripts(
    file: &mut FmpFile,
    segs: &ScriptSegments,
    table: &Vec<Option<Instruction>>,
) -> (r: Result<(), DecodeError>)
    requires
        segs.wf(),
    ensures
        (forall|id: usize| segs@.contains_key(id) ==> #[trigger] old(file).scripts@.contains_key(id))
            <==> r is Ok,
        r matches Err(e) ==> e is MissingScript,
        r is Ok ==> {
            &&& *final(file) == (FmpFile { scripts: final(file).scripts, ..*old(file) })
            &&& final(file).scripts@.dom() == old(file).scripts@.dom()
            &&& forall|id: usize| #[trigger] final(file).scripts@.contains_key(id) ==> if segs@.contains_key(id) {
                script_finalized(old(file).scripts@[id], final(file).scripts@[id], segs@[id], table@)
            } else {
                final(file).scripts@[id] == old(file).scripts@[id]
            }
        },
{
    broadcast use vstd::std_specs::hash::group_hash_axioms;

    let count = segs.count();
    let mut i: usize = 0;
    while i < count
        invariant
            segs.wf(),
            count == segs.order().len(),
            i <= count,
            *file == (FmpFile { scripts: file.scripts, ..*old(file) }),
            file.scripts@.dom() == old(file).scripts@.dom(),
            forall|j: int| 0 <= j < i ==> old(file).scripts@.contains_key(#[trigger] segs.order()[j]),
            forall|id: usize| #[trigger] file.scripts@.contains_key(id) ==> if seen_before(segs.order(), i as int, id) {
                script_finalized(old(file).scripts@[id], file.scripts@[id], segs@[id], table@)
            } else {
                file.scripts@[id] == old(file).scripts@[id]
            },
        decreases count - i,
    {
        let id = segs.id_at(i);
        let b = segs.get(id).unwrap();
        let data = b.assemble();
        if !file.scripts.contains_key(&id) {
            return Err(DecodeError::MissingScript { script: id });
        }
        proof {
            segs.lemma_order_is_domain();
        }
        let mut script = file.scripts.remove(&id).unwrap();
        append_record_steps(&mut script.instructions, data.as_slice(), table);
        file.scripts.insert(id, script);
        proof {
            assert(file.scripts@.dom() =~= old(file).scripts@.dom());
            assert forall|k: usize| #[trigger] file.scripts@.contains_key(k) implies if seen_before(segs.order(), i + 1, k) {
                script_finalized(old(file).scripts@[k], file.scripts@[k], segs@[k], table@)
            } else {
                file.scripts@[k] == old(file).scripts@[k]
            } by {
                if k == id {
                    assert(seen_before(segs.order(), i + 1, id)) by {
                        assert(segs.order()[i as int] == id);
                    }
                    assert(!seen_before(segs.order(), i as int, id)) by {
                        if seen_before(segs.order(), i as int, id) {
                            let j = choose|j: int| 0 <= j < i && #[trigger] segs.order()[j] == id;
                            assert(segs.order()[j] == segs.order()[i as int]);
                        }
                    }
                } else {
                    if seen_before(segs.order(), i + 1, k) {
                        let j = choose|j: int| 0 <= j < i + 1 && #[trigger] segs.order()[j] == k;
                        assert(j != i);
                        assert(seen_before(segs.order(), i as int, k));
                    }
                    if seen_before(segs.order(), i as int, k) {
                        let j = choose|j: int| 0 <= j < i && #[trigger] segs.order()[j] == k;
                        assert(seen_before(segs.order(), i + 1, k));
                    }
                }
            }
        }
        i += 1;
    }
    proof {
        segs.lemma_order_is_domain();
        assert forall|id: usize| #[trigger] file.scripts@.contains_key(id) implies
            (seen_before(segs.order(), count as int, id) <==> segs@.contains_key(id)) by {
            if segs@.contains_key(id) {
                let j = choose|j: int| 0 <= j < segs.order().len() && segs.order()[j] == id;
                assert(seen_before(segs.order(), count as int, id));
            }
        }
        assert forall|id: usize| segs@.contains_key(id) implies #[trigger] old(file).scripts@.contains_key(id) by {
            let j = choose|j: int| 0 <= j < segs.order().len() && segs.order()[j] == id;
            assert(old(file).scripts@.contains_key(segs.order()[j]));
        }
    }
    Ok(())
}

/// How the chunks of one block were folded into the file: chunk `i` stands
/// at `offsets[i]` under `paths[i]` and turns `files[i]`, `segs[i]` into
/// `files[i + 1]`, `segs[i + 1]`.
pub struct SectorTrace {
    pub chunks: Seq<Chunk>,
    pub offsets: Seq<int>,
    pub paths: Seq<Seq<usize>>,
    pub files: Seq<FmpFile>,
    pub segs: Seq<Map<usize, Map<u8, Seq<u8>>>>,
}

pub open spec fn trace_step(t: SectorTrace, buf: Seq<u8>, bound: int, table: Seq<Option<Instruction>>, i: int) -> bool {
    let o = t.offsets[i];
    let s = layout_at(buf, o)->0;
    &&& 0 <= o < bound
    &&& !truncated_at(buf, o)
    &&& layout_at(buf, o) is Some
    &&& !underflows_at(buf, o, t.paths[i])
    &&& chunk_agrees(t.chunks[i], s, buf, t.paths[i])
    &&& t.offsets[i + 1] == s.end
    &&& t.paths[i + 1] == path_after(t.paths[i], s, buf[o])
    &&& dispatch_effect(t.files[i], t.files[i + 1], t.segs[i], t.segs[i + 1], t.chunks[i], table, Ok(()))
}

/// The trace decodes block `start .. bound` from just after its header, with
/// an empty path, chunk by chunk until the end of the block.
pub open spec fn trace_explains(
    t: SectorTrace,
    buf: Seq<u8>,
    start: int,
    bound: int,
    table: Seq<Option<Instruction>>,
    f0: FmpFile,
    f1: FmpFile,
    s0: Map<usize, Map<u8, Seq<u8>>>,
    s1: Map<usize, Map<u8, Seq<u8>>>,
) -> bool {
    let k = t.chunks.len() as int;
    &&& t.offsets.len() == k + 1 && t.paths.len() == k + 1
    &&& t.files.len() == k + 1 && t.segs.len() == k + 1
    &&& t.offsets[0] == start + SECTOR_HEADER && t.paths[0] == Seq::<usize>::empty()
    &&& t.files[0] == f0 && t.segs[0] == s0 && t.files[k] == f1 && t.segs[k] == s1
    &&& t.offsets[k] >= bound
    &&& forall|i: int| 0 <= i < k ==> #[trigger] trace_step(t, buf, bound, table, i)
}

/// The error decoding the chunk at `o` under `path` reports, if any.
pub open spec fn chunk_error_at(buf: Seq<u8>, o: int, path: Seq<usize>, start: usize) -> Option<ChunkError> {
    if truncated_at(buf, o) {
        Some(ChunkError::Truncated { sector_start: start, offset: o as usize })
    } else if layout_at(buf, o) is None {
        Some(ChunkError::UnknownOpcode { sector_start: start, offset: o as usize, opcode: buf[o] })
    } else if underflows_at(buf, o, path) {
        Some(ChunkError::PathUnderflow { sector_start: start, offset: o as usize })
    } else {
        None
    }
}

/// The trace folds the first chunks of block `start .. bound` and stops at
/// one that fails with `e`: it does not decode, or folding it reports `e`.
pub open spec fn trace_fails(
    t: SectorTrace,
    buf: Seq<u8>,
    start: usize,
    bound: int,
    table: Seq<Option<Instruction>>,
    f0: FmpFile,
    s0: Map<usize, Map<u8, Seq<u8>>>,
    e: DecodeError,
) -> bool {
    let k = t.offsets.len() - 1;
    let o = t.offsets[k];
    &&& k >= 0 && t.paths.len() == k + 1
    &&& t.offsets[0] == start + SECTOR_HEADER && t.paths[0] == Seq::<usize>::empty()
    &&& t.files[0] == f0 && t.segs[0] == s0
    &&& forall|i: int| 0 <= i < k ==> #[trigger] trace_step(t, buf, bound, table, i)
    &&& 0 <= o < bound
    &&& match chunk_error_at(buf, o, t.paths[k], start) {
        Some(ce) => {
            &&& e == DecodeError::Chunk(ce)
            &&& t.chunks.len() == k && t.files.len() == k + 1 && t.segs.len() == k + 1
        },
        None => {
            &&& t.chunks.len() == k + 1 && t.files.len() == k + 2 && t.segs.len() == k + 2
            &&& chunk_agrees(t.chunks[k], layout_at(buf, o)->0, buf, t.paths[k])
            &&& dispatch_effect(t.files[k], t.files[k + 1], t.segs[k], t.segs[k + 1], t.chunks[k], table, Err(e))
        },
    }
}

/// Decoding block `idx` from `f0`, `s0` stops with `e`.
pub open spec fn sector_fails(
    buf: Seq<u8>,
    idx: int,
    table: Seq<Option<Instruction>>,
    f0: FmpFile,
    s0: Map<usize, Map<u8, Seq<u8>>>,
    e: DecodeError,
) -> bool {
    exists|t: SectorTrace| #[trigger] trace_fails(
        t,
        buf,
        (idx * SECTOR_SIZE) as usize,
        idx * SECTOR_SIZE + SECTOR_SIZE,
        table,
        f0,
        s0,
        e,
    )
}

/// Block `idx` turns `f0`, `s0` into `f1`, `s1`.
pub open spec fn sector_step(
    buf: Seq<u8>,
    idx: int,
    table: Seq<Option<Instruction>>,
    f0: FmpFile,
    f1: FmpFile,
    s0: Map<usize, Map<u8, Seq<u8>>>,
    s1: Map<usize, Map<u8, Seq<u8>>>,
) -> bool {
    exists|t: SectorTrace| #[trigger] trace_explains(t, buf, idx * SECTOR_SIZE, idx * SECTOR_SIZE + SECTOR_SIZE, table, f0, f1, s0, s1)
}

/// Decodes the chunks of block `idx` and folds each into the file, in order.
pub fn decode_sector(
    buffer: &[u8],
    idx: usize,
    file: &mut FmpFile,
    segs: &mut ScriptSegments,
    table: &Vec<Option<Instruction>>,
) -> (r: Result<(), DecodeError>)
    requires
        (idx + 1) * SECTOR_SIZE <= buffer@.len(),
        old(segs).wf(),
    ensures
        final(segs).wf(),
        r is Ok ==> sector_step(buffer@, idx as int, table@, *old(file), *final(file), old(segs)@, final(segs)@),
        r matches Err(e) ==> e is Chunk || !(e is SectorOutOfRange || e is SectorCycle || e is FileTooShort),
        r matches Err(e) ==> sector_fails(buffer@, idx as int, table@, *old(file), old(segs)@, e),
{
    let total = buffer.len();
    proof {
        assert(idx * 4096 + 4096 <= total) by (nonlinear_arith)
            requires
                (idx + 1) * 4096 <= buffer@.len(),
                total == buffer@.len(),
        ;
    }
    let start = idx * SECTOR_SIZE;
    let bound = start + SECTOR_SIZE;
    let mut path: Vec<usize> = Vec::new();
    let mut offset: usize = start + SECTOR_HEADER;
    let ghost mut t = SectorTrace {
        chunks: Seq::empty(),
        offsets: seq![offset as int],
        paths: seq![Seq::<usize>::empty()],
        files: seq![*file],
        segs: seq![segs@],
    };
    while offset < bound
        invariant
            bound == start + SECTOR_SIZE,
            start == idx * SECTOR_SIZE,
            bound <= buffer@.len(),
            offset <= buffer@.len(),
            segs.wf(),
            ({
                let k = t.chunks.len() as int;
                &&& t.offsets.len() == k + 1 && t.paths.len() == k + 1
                &&& t.files.len() == k + 1 && t.segs.len() == k + 1
                &&& t.offsets[0] == start + SECTOR_HEADER && t.paths[0] == Seq::<usize>::empty()
                &&& t.files[0] == *old(file) && t.segs[0] == old(segs)@
                &&& t.files[k] == *file && t.segs[k] == segs@
                &&& t.offsets[k] == offset && t.paths[k] == path@
                &&& forall|i: int| 0 <= i < k ==> #[trigger] trace_step(t, buffer@, bound as int, table@, i)
            }),
        decreases buffer@.len() - offset,
    {
        let ghost o = offset as int;
        let ghost p = path@;
        let c = match get_chunk_from_code(buffer, &mut offset, &mut path, start) {
            Ok(c) => c,
            Err(e) => {
                let err = DecodeError::Chunk(e);
                proof {
                    assert(trace_fails(t, buffer@, start, bound as int, table@, *old(file), old(segs)@, err));
                    assert(trace_fails(t, buffer@, (idx * SECTOR_SIZE) as usize, idx * SECTOR_SIZE + SECTOR_SIZE, table@, *old(file), old(segs)@, err));
                }
                return Err(err);
            },
        };
        let ghost f_before = *file;
        let ghost s_before = segs@;
        match dispatch_chunk(file, segs, &c, table) {
            Ok(()) => {},
            Err(e) => {
                proof {
                    let k = t.chunks.len() as int;
                    let t2 = SectorTrace {
                        chunks: t.chunks.push(c),
                        offsets: t.offsets,
                        paths: t.paths,
                        files: t.files.push(*file),
                        segs: t.segs.push(segs@),
                    };
                    assert forall|i: int| 0 <= i < k implies #[trigger] trace_step(t2, buffer@, bound as int, table@, i) by {
                        assert(trace_step(t, buffer@, bound as int, table@, i));
                    }
                    assert(trace_fails(t2, buffer@, start, bound as int, table@, *old(file), old(segs)@, e));
                    assert(trace_fails(t2, buffer@, (idx * SECTOR_SIZE) as usize, idx * SECTOR_SIZE + SECTOR_SIZE, table@, *old(file), old(segs)@, e));
                }
                return Err(e);
            },
        }
        proof {
            let k = t.chunks.len() as int;
            let t2 = SectorTrace {
                chunks: t.chunks.push(c),
                offsets: t.offsets.push(offset as int),
                paths: t.paths.push(path@),
                files: t.files.push(*file),
                segs: t.segs.push(segs@),
            };
            assert forall|i: int| 0 <= i < k + 1 implies #[trigger] trace_step(t2, buffer@, bound as int, table@, i) by {
                if i < k {
                    assert(trace_step(t, buffer@, bound as int, table@, i));
                }
            }
            t = t2;
        }
    }
    proof {
        assert(trace_explains(t, buffer@, start as int, bound as int, table@, *old(file), *file, old(segs)@, segs@));
    }
    Ok(())
}

/// The file's scripts after every registered script body was reassembled
/// and read as steps; see `finalize_scripts`.
pub open spec fn finalized(old: FmpFile, new: FmpFile, segs: Map<usize, Map<u8, Seq<u8>>>, table: Seq<Option<Instruction>>) -> bool {
    &&& forall|id: usize| segs.contains_key(id) ==> #[trigger] old.scripts@.contains_key(id)
    &&& new == (FmpFile { scripts: new.scripts, ..old })
    &&& new.scripts@.dom() == old.scripts@.dom()
    &&& forall|id: usize| #[trigger] new.scripts@.contains_key(id) ==> if segs.contains_key(id) {
        script_finalized(old.scripts@[id], new.scripts@[id], segs[id], table)
    } else {
        new.scripts@[id] == old.scripts@[id]
    }
}

/// A whole decode: the blocks of the chain from block 2, each folded in
/// turn from an empty file, then the script bodies reassembled.
pub struct DecodeTrace {
    pub sectors: Seq<nat>,
    pub files: Seq<FmpFile>,
    pub segs: Seq<Map<usize, Map<u8, Seq<u8>>>>,
}

/// The trace folds the first blocks of the chain from block 2, in turn,
/// into an empty file.
pub open spec fn chain_prefix(d: DecodeTrace, buf: Seq<u8>, table: Seq<Option<Instruction>>) -> bool {
    let k = d.sectors.len() as int;
    &&& d.files.len() == k + 1 && d.segs.len() == k + 1
    &&& d.files[0].is_empty() && d.segs[0] == Map::<usize, Map<u8, Seq<u8>>>::empty()
    &&& k >= 1 ==> d.sectors[0] == FIRST_SECTOR
    &&& forall|i: int| 0 <= i < k - 1 ==> d.sectors[i + 1] == #[trigger] next_field(sector_bytes(buf, d.sectors[i] as int))
    &&& forall|i: int| 0 <= i < k ==> #[trigger] sector_step(buf, d.sectors[i] as int, table, d.files[i], d.files[i + 1], d.segs[i], d.segs[i + 1])
}

/// The block the chain visits after the trace's blocks; 0 where it ends.
pub open spec fn next_sector(d: DecodeTrace, buf: Seq<u8>) -> nat {
    let k = d.sectors.len() as int;
    if k == 0 {
        FIRST_SECTOR as nat
    } else {
        next_field(sector_bytes(buf, d.sectors[k - 1] as int))
    }
}

pub open spec fn decode_explains(d: DecodeTrace, buf: Seq<u8>, table: Seq<Option<Instruction>>, result: FmpFile) -> bool {
    let k = d.sectors.len() as int;
    &&& chain_prefix(d, buf, table)
    &&& next_sector(d, buf) == 0
    &&& finalized(d.files[k], result, d.segs[k], table)
}

/// The decode stops with `e` after the trace's blocks: in the next block of
/// the chain, or, at the end of the chain, on a script body whose script was
/// never named.
pub open spec fn decode_fails(d: DecodeTrace, buf: Seq<u8>, table: Seq<Option<Instruction>>, e: DecodeError) -> bool {
    let k = d.sectors.len() as int;
    &&& chain_prefix(d, buf, table)
    &&& if next_sector(d, buf) == 0 {
        &&& e is MissingScript
        &&& exists|id: usize| #[trigger] d.segs[k].contains_key(id) && !d.files[k].scripts@.contains_key(id)
    } else {
        sector_fails(buf, next_sector(d, buf) as int, table, d.files[k], d.segs[k], e)
    }
}

/// Decodes a whole container held in memory: the chain of blocks from block
/// 2, each block's chunks folded into the file, then every script body
/// reassembled. The chain is followed for at most the declared number of
/// blocks; a longer chain is reported as a cycle.
pub fn decompile_fmp12_bytes(
    buffer: &[u8],
    table: &Vec<Option<Instruction>>,
) -> (r: Result<FmpFile, DecodeError>)
    ensures
        buffer@.len() < SECTOR_SIZE * 2 ==> r == Err::<FmpFile, _>(
            DecodeError::FileTooShort { len: buffer@.len() as usize },
        ),
        r matches Err(DecodeError::FileTooShort { .. }) ==> buffer@.len() < SECTOR_SIZE * 2,
        buffer@.len() >= SECTOR_SIZE * 2 ==> {
            let end = chain_end(buffer@, declared_count(buffer@), FIRST_SECTOR as nat, declared_count(buffer@));
            &&& r is Ok ==> end is Ends
            &&& r matches Err(DecodeError::SectorOutOfRange { sector }) ==> end == ChainEnd::OutOfRange(sector as nat)
            &&& r matches Err(DecodeError::SectorCycle { sector }) ==> end == ChainEnd::TooLong(sector as nat)
            &&& !(end is Ends) ==> r is Err
        },
        r is Ok ==> exists|d: DecodeTrace| #[trigger] decode_explains(d, buffer@, table@, r->Ok_0),
        r matches Err(e) && !(e is FileTooShort || e is SectorOutOfRange || e is SectorCycle) ==> exists|
            d: DecodeTrace,
        | #[trigger] decode_fails(d, buffer@, table@, r->Err_0),
{
    if buffer.len() < SECTOR_SIZE * 2 {
        return Err(DecodeError::FileTooShort { len: buffer.len() });
    }
    let first_bytes = slice_subrange(buffer, SECTOR_SIZE, SECTOR_SIZE * 2);
    assert(first_bytes@ == sector_bytes(buffer@, COUNT_SECTOR as int));
    let first = get_sector(first_bytes);
    let n_blocks = first.next;
    let ghost n = declared_count(buffer@);
    let mut file = FmpFile::new();
    let mut segs = ScriptSegments::new();
    let mut idx: usize = FIRST_SECTOR;
    let mut left: usize = n_blocks;
    let ghost mut d = DecodeTrace { sectors: Seq::empty(), files: seq![file], segs: seq![segs@] };
    while idx != 0
        invariant
            buffer@.len() >= SECTOR_SIZE * 2,
            n_blocks as nat == n,
            n == declared_count(buffer@),
            left <= n_blocks,
            segs.wf(),
            chain_end(buffer@, n, idx as nat, left as nat) == chain_end(buffer@, n, FIRST_SECTOR as nat, n),
            chain_prefix(d, buffer@, table@),
            d.files[d.sectors.len() as int] == file,
            d.segs[d.sectors.len() as int] == segs@,
            idx as nat == next_sector(d, buffer@),
        decreases left,
    {
        if left == 0 {
            return Err(DecodeError::SectorCycle { sector: idx });
        }
        if idx > n_blocks || buffer.len() / SECTOR_SIZE <= idx {
            proof {
                if idx <= n_blocks {
                    assert((idx + 1) * SECTOR_SIZE > buffer@.len()) by (nonlinear_arith)
                        requires
                            buffer@.len() / 4096 <= idx,
                    ;
                }
            }
            return Err(DecodeError::SectorOutOfRange { sector: idx });
        }
        proof {
            assert((idx + 1) * SECTOR_SIZE <= buffer@.len()) by (nonlinear_arith)
                requires
                    buffer@.len() / 4096 > idx,
            ;
        }
        let start = idx * SECTOR_SIZE;
        let bound = start + SECTOR_SIZE;
        let sector_bytes_here = slice_subrange(buffer, start, bound);
        assert(sector_bytes_here@ == sector_bytes(buffer@, idx as int));
        let sector = get_sector(sector_bytes_here);
        let next = sector.next;
        proof {
            assert(chain_end(buffer@, n, idx as nat, left as nat) == chain_end(buffer@, n, next as nat, (left - 1) as nat));
        }
        let ghost f_before = file;
        let ghost s_before = segs@;
        match decode_sector(buffer, idx, &mut file, &mut segs, table) {
            Ok(()) => {},
            Err(e) => {
                let result: Result<FmpFile, DecodeError> = Err(e);
                proof {
                    assert(decode_fails(d, buffer@, table@, result->Err_0));
                }
                return result;
            },
        }
        proof {
            let k = d.sectors.len() as int;
            let d2 = DecodeTrace {
                sectors: d.sectors.push(idx as nat),
                files: d.files.push(file),
                segs: d.segs.push(segs@),
            };
            assert forall|i: int| 0 <= i < k + 1 implies #[trigger] sector_step(buffer@, d2.sectors[i] as int, table@, d2.files[i], d2.files[i + 1], d2.segs[i], d2.segs[i + 1]) by {
                if i < k {
                    assert(sector_step(buffer@, d.sectors[i] as int, table@, d.files[i], d.files[i + 1], d.segs[i], d.segs[i + 1]));
                }
            }
            assert forall|i: int| 0 <= i < k implies d2.sectors[i + 1] == #[trigger] next_field(sector_bytes(buffer@, d2.sectors[i] as int)) by {
                if i < k - 1 {
                    assert(d.sectors[i + 1] == next_field(sector_bytes(buffer@, d.sectors[i] as int)));
                }
            }
            d = d2;
        }
        idx = next;
        left = left - 1;
    }
    let ghost before_final = file;
    let ghost segs_final = segs@;
    if let Err(e) = finalize_scripts(&mut file, &segs, table) {
        let result: Result<FmpFile, DecodeError> = Err(e);
        proof {
            let k = d.sectors.len() as int;
            let id = choose|id: usize| segs_final.contains_key(id) && !before_final.scripts@.contains_key(id);
            assert(d.segs[k].contains_key(id) && !d.files[k].scripts@.contains_key(id));
            assert(decode_fails(d, buffer@, table@, result->Err_0));
        }
        return result;
    }
    proof {
        assert(finalized(before_final, file, segs@, table@));
        assert(decode_explains(d, buffer@, table@, file));
    }
    let result: Result<FmpFile, DecodeError> = Ok(file);
    proof {
        assert(result->Ok_0 == file);
        assert(decode_explains(d, buffer@, table@, result->Ok_0));
    }
    result
}

} // verus!
