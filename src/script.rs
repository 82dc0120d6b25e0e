use vstd::prelude::*;
use std::collections::HashMap;

use crate::format_decode::get_path_int;

verus! {

/// A script instruction, as the instruction table names it. The decoder
/// treats `SetVariable` and `ExitScript` specially; every other instruction
/// is carried by its code.
#[derive(Debug, Clone, Copy, PartialEq, Eq)]
pub enum Instruction {
    SetVariable,
    ExitScript,
    Other(u8),
}

/// One decoded script instruction with its operands ("switches").
#[derive(Debug, Clone)]
pub struct ScriptStep {
    pub opcode: Instruction,
    pub index: usize,
    pub switches: Vec<String>,
}

/// The instruction an opcode byte names in a table indexed by opcode; bytes
/// past the end of the table name none.
pub open spec fn instruction_of(table: Seq<Option<Instruction>>, b: u8) -> Option<Instruction> {
    if (b as int) < table.len() {
        table[b as int]
    } else {
        None
    }
}

pub fn lookup_instruction(table: &Vec<Option<Instruction>>, b: u8) -> (r: Option<Instruction>)
    ensures
        r == instruction_of(table@, b),
{
    if (b as usize) < table.len() {
        table[b as usize]
    } else {
        None
    }
}

/// A step as values: its instruction, its index and the text of its operands.
pub struct StepView {
    pub opcode: Instruction,
    pub index: usize,
    pub switches: Seq<Seq<char>>,
}

impl View for ScriptStep {
    type V = StepView;

    open spec fn view(&self) -> StepView {
        StepView {
            opcode: self.opcode,
            index: self.index,
            switches: self.switches@.map_values(|s: String| s@),
        }
    }
}

/// The steps of a script as values, by key.
pub open spec fn steps_view(m: Map<usize, ScriptStep>) -> Map<usize, StepView> {
    m.map_values(|s: ScriptStep| s@)
}

/// Size of one instruction record.
pub const RECORD_SIZE: usize = 28;

/// Position of the opcode byte within a record.
pub const RECORD_OPCODE: usize = 21;

/// The `j`-th 28-byte run of `data`; the last one may be shorter.
pub open spec fn record_at(data: Seq<u8>, j: int) -> Seq<u8> {
    let a = RECORD_SIZE * j;
    let b = if a + RECORD_SIZE < data.len() {
        a + RECORD_SIZE
    } else {
        data.len() as int
    };
    data.subrange(a, b)
}

/// Number of runs `data` splits into, counting a shorter last one.
pub open spec fn record_count(data: Seq<u8>) -> nat {
    ((data.len() + RECORD_SIZE - 1) / RECORD_SIZE as int) as nat
}

/// The step a record stands for: it must reach its opcode byte and the
/// opcode must name an instruction. Its index is the path-style integer of
/// bytes 2 and 3.
pub open spec fn step_of_record(rec: Seq<u8>, table: Seq<Option<Instruction>>) -> Option<StepView> {
    if rec.len() > RECORD_OPCODE && instruction_of(table, rec[RECORD_OPCODE as int]) is Some {
        Some(StepView {
            opcode: instruction_of(table, rec[RECORD_OPCODE as int])->0,
            index: (0x80 + rec[3]) as usize,
            switches: Seq::empty(),
        })
    } else {
        None
    }
}

/// The steps after the first `j` records of `data` are recorded in `m`, each
/// under its own index.
pub open spec fn record_steps(
    m: Map<usize, StepView>,
    data: Seq<u8>,
    table: Seq<Option<Instruction>>,
    j: nat,
) -> Map<usize, StepView>
    decreases j,
{
    if j == 0 {
        m
    } else {
        let prev = record_steps(m, data, table, (j - 1) as nat);
        match step_of_record(record_at(data, j - 1), table) {
            Some(st) => prev.insert(st.index, st),
            None => prev,
        }
    }
}

proof fn lemma_record_bounds(data: Seq<u8>, j: int)
    requires
        0 <= j < record_count(data),
    ensures
        0 <= RECORD_SIZE * j < data.len(),
{
    assert(RECORD_SIZE * j < data.len()) by (nonlinear_arith)
        requires
            0 <= j,
            j < (data.len() + RECORD_SIZE - 1) / RECORD_SIZE as int,
    ;
}

/// Records every step that `data`'s instruction records name, keyed by its
/// index; records too short to hold an opcode and unknown opcodes are skipped.
pub fn insert_record_steps(
    steps: &mut HashMap<usize, ScriptStep>,
    data: &[u8],
    table: &Vec<Option<Instruction>>,
)
    ensures
        steps_view(final(steps)@) == record_steps(steps_view(old(steps)@), data@, table@, record_count(data@)),
{
    broadcast use vstd::std_specs::hash::group_hash_axioms;

    let mut pos: usize = 0;
    let ghost mut j: nat = 0;
    while pos < data.len()
        invariant
            pos <= data@.len(),
            pos < data@.len() ==> pos == RECORD_SIZE * j,
            j <= record_count(data@),
            pos >= data@.len() ==> j == record_count(data@),
            steps_view(steps@) == record_steps(steps_view(old(steps)@), data@, table@, j),
        decreases data.len() - pos,
    {
        proof {
            assert(j < record_count(data@)) by (nonlinear_arith)
                requires
                    pos == RECORD_SIZE * j,
                    pos < data@.len(),
            ;
        }
        proof {
            lemma_record_bounds(data@, j as int);
        }
        let end: usize = if data.len() - pos > RECORD_SIZE { pos + RECORD_SIZE } else { data.len() };
        let ghost rec = record_at(data@, j as int);
        if end - pos > RECORD_OPCODE {
            if let Some(op) = lookup_instruction(table, data[pos + RECORD_OPCODE]) {
                let n = get_path_int(slice_pair(data[pos + 2], data[pos + 3]).as_slice());
                let st = ScriptStep { opcode: op, index: n, switches: Vec::new() };
                let ghost before = steps@;
                steps.insert(n, st);
                proof {
                    assert(rec[3] == data@[pos + 3]);
                    assert(st@.switches =~= Seq::<Seq<char>>::empty());
                    assert(steps_view(steps@) =~= steps_view(before).insert(n, st@));
                }
            }
        }
        proof {
            j = j + 1;
            if end >= data.len() {
                assert(j == record_count(data@)) by (nonlinear_arith)
                    requires
                        pos == RECORD_SIZE * (j - 1),
                        pos < data@.len(),
                        data@.len() <= pos + RECORD_SIZE,
                ;
            }
        }
        pos = end;
    }
}

/// The two bytes as a vector.
fn slice_pair(a: u8, b: u8) -> (v: Vec<u8>)
    ensures
        v@ == seq![a, b],
{
    let mut v: Vec<u8> = Vec::with_capacity(2);
    v.push(a);
    v.push(b);
    assert(v@ =~= seq![a, b]);
    v
}

} // verus!
