use vstd::prelude::*;

use crate::calc::{calc_text, decompile_calculation};
use crate::chunk::{Chunk, ChunkType};
use crate::component::{
    FMComponentField, FMComponentLayout, FMComponentRelationship, FMComponentScript,
    FMComponentTable, FMComponentTableOccurence,
};
use crate::file::FmpFile;
use crate::format_decode::{decrypted_text, fm_string_decrypt};
use crate::script::{
    insert_record_steps, record_count, record_steps, steps_view, Instruction, ScriptStep,
};
use crate::segments::ScriptSegments;

verus! {

/// Metadata reference code of a field's type.
pub const FIELD_TYPE: u16 = 2;

/// Metadata reference code of a description.
pub const COMPONENT_DESC: u16 = 3;

/// Metadata reference code of a display name.
pub const COMPONENT_NAME: u16 = 16;

/// Metadata reference code of the creating user.
pub const CREATOR_USER_NAME: u16 = 129;

/// Metadata reference code of the creating account.
pub const CREATOR_ACCOUNT_NAME: u16 = 130;

/// Offset between a table's path id and its table id.
pub const TABLE_ID_BASE: usize = 128;

/// Reference code of a table occurrence's underlying table.
pub const OCCURRENCE_TABLE: u16 = 2;

/// Segment index, or reference code, of a run of instruction records.
pub const INSTRUCTION_RECORDS: u16 = 4;

/// Reference code of a step's operand text or expression.
pub const STEP_OPERAND: u16 = 5;

/// Reference code of a step's variable name.
pub const STEP_VARIABLE: u16 = 1;

/// Why a decode was abandoned.
#[derive(Debug, Clone, PartialEq, Eq)]
pub enum DecodeError {
    Chunk(crate::chunk::ChunkError),
    FileTooShort { len: usize },
    SectorOutOfRange { sector: usize },
    SectorCycle { sector: usize },
    BadTableId { id: usize },
    MissingTable { table: usize },
    MissingField { table: usize, field: u16 },
    MissingOccurrence { key: usize },
    MissingScript { script: usize },
    MissingStep { script: usize, step: usize },
    MalformedPayload { code: u16 },
}

/// Which entity a chunk's path addresses.
pub enum Route {
    Relationship,
    Occurrence,
    Layout(usize),
    Field(usize, usize),
    TableMeta(usize),
    ScriptBody(usize),
    StepOperand(usize, usize),
    StepVariable(usize, usize),
    StepCalc(usize, usize),
    ScriptData(usize),
    ScriptName(usize),
    Ignored,
}

pub open spec fn starts(p: Seq<usize>, q: Seq<usize>) -> bool {
    p.len() >= q.len() && p.subrange(0, q.len() as int) == q
}

/// The structural pattern a path matches, first match first.
pub open spec fn route(p: Seq<usize>) -> Route {
    if p == seq![3usize, 17, 5, 0, 251] {
        Route::Relationship
    } else if starts(p, seq![3usize, 17, 5, 0]) {
        Route::Occurrence
    } else if starts(p, seq![4usize, 5]) {
        Route::Ignored
    } else if p.len() >= 4 && starts(p, seq![4usize, 1, 7]) {
        Route::Layout(p[3])
    } else if p.len() == 4 && p[1] == 3 && p[2] == 5 {
        Route::Field(p[0], p[3])
    } else if p.len() == 4 && starts(p, seq![3usize, 16, 5]) {
        Route::TableMeta(p[3])
    } else if p.len() == 4 && starts(p, seq![17usize, 5]) && p[3] == 4 {
        Route::ScriptBody(p[2])
    } else if p.len() == 7 && starts(p, seq![17usize, 5]) && p[3] == 5 && p[5] == 128 && p[6] == 5 {
        Route::StepOperand(p[2], p[4])
    } else if p.len() == 6 && starts(p, seq![17usize, 5]) && p[3] == 5 && p[5] == 128 {
        Route::StepVariable(p[2], p[4])
    } else if p.len() == 7 && starts(p, seq![17usize, 5]) && p[3] == 5 && p[5] == 129 && p[6] == 5 {
        Route::StepCalc(p[2], p[4])
    } else if p.len() >= 3 && starts(p, seq![17usize, 5]) {
        Route::ScriptData(p[2])
    } else if p.len() >= 3 && starts(p, seq![17usize, 1]) {
        Route::ScriptName(p.last())
    } else {
        Route::Ignored
    }
}

/// The chunk's payload, or a single zero byte where it has none.
pub open spec fn payload_or_zero(c: Chunk) -> Seq<u8> {
    match c.data {
        Some(d) => d@,
        None => seq![0u8],
    }
}

/// The chunk's payload read as text.
pub open spec fn chunk_text(c: Chunk) -> Seq<char> {
    decrypted_text(payload_or_zero(c))
}

/// `new` is `old` with key `k` set, and every other entry kept.
pub open spec fn updated_at<K, V>(old: Map<K, V>, new: Map<K, V>, k: K) -> bool {
    &&& new.dom() == old.dom().insert(k)
    &&& forall|j: K| j != k && old.contains_key(j) ==> new[j] == old[j]
}

proof fn lemma_updated_at<K, V>(old: Map<K, V>, new: Map<K, V>, k: K, v: V)
    requires
        new == old.remove(k).insert(k, v),
    ensures
        updated_at(old, new, k),
        new[k] == v,
{
    assert(new.dom() =~= old.dom().insert(k));
}

/// A name chunk under a layout's path creates or renames that layout; any
/// other chunk there changes nothing.
pub open spec fn layout_effect(old: FmpFile, new: FmpFile, c: Chunk, x: usize) -> bool {
    if c.ref_simple == Some(COMPONENT_NAME) {
        &&& new == (FmpFile { layouts: new.layouts, ..old })
        &&& updated_at(old.layouts@, new.layouts@, x)
        &&& new.layouts@[x].layout_name@ == chunk_text(c)
        &&& old.layouts@.contains_key(x) ==> new.layouts@[x] == (FMComponentLayout {
            layout_name: new.layouts@[x].layout_name,
            ..old.layouts@[x]
        })
        &&& !old.layouts@.contains_key(x) ==> new.layouts@[x].created_by_account@.len() == 0
            && new.layouts@[x].create_by_user@.len() == 0
    } else {
        new == old
    }
}

/// A data chunk under the relationship path records a relationship from the
/// latest table occurrence to the table named by its payload's third byte.
pub open spec fn relationship_effect(
    old: FmpFile,
    new: FmpFile,
    c: Chunk,
    r: Result<(), DecodeError>,
) -> bool {
    if c.ctype == ChunkType::DataSimple {
        if c.data is Some && c.data->0@.len() >= 3 {
            let d = c.data->0;
            let k = old.relationships@.len() as usize;
            &&& r is Ok
            &&& new == (FmpFile { relationships: new.relationships, ..old })
            &&& updated_at(old.relationships@, new.relationships@, k)
            &&& new.relationships@[k].table1 == old.table_occurrences@.len() as u16
            &&& new.relationships@[k].table2 == d@[2] as u16
            &&& new.relationships@[k].table1_name@.len() == 0
            &&& new.relationships@[k].table2_name@.len() == 0
            &&& new.relationships@[k].comparison == 0
        } else {
            r == Err::<(), _>(DecodeError::MalformedPayload { code: c.code }) && new == old
        }
    } else {
        r is Ok && new == old
    }
}

/// Under the table occurrence path, reference code 2 adds an occurrence of
/// the table named by the payload's seventh byte, and a name chunk names the
/// latest occurrence.
pub open spec fn occurrence_effect(
    old: FmpFile,
    new: FmpFile,
    c: Chunk,
    r: Result<(), DecodeError>,
) -> bool {
    let n = old.table_occurrences@.len();
    if c.ref_simple == Some(OCCURRENCE_TABLE) {
        if c.data is Some && c.data->0@.len() >= 7 && n < usize::MAX {
            let d = c.data->0;
            let k = (n + 1) as usize;
            &&& r is Ok
            &&& new == (FmpFile { table_occurrences: new.table_occurrences, ..old })
            &&& updated_at(old.table_occurrences@, new.table_occurrences@, k)
            &&& new.table_occurrences@[k].table_actual == d@[6] as u16
            &&& new.table_occurrences@[k].table_occurence_name@.len() == 0
            &&& new.table_occurrences@[k].table_actual_name@.len() == 0
            &&& new.table_occurrences@[k].created_by_account@.len() == 0
            &&& new.table_occurrences@[k].create_by_user@.len() == 0
        } else {
            r == Err::<(), _>(DecodeError::MalformedPayload { code: c.code }) && new == old
        }
    } else if c.ref_simple == Some(COMPONENT_NAME) {
        let k = n as usize;
        if old.table_occurrences@.contains_key(k) {
            let o = new.table_occurrences@[k];
            &&& r is Ok
            &&& new == (FmpFile { table_occurrences: new.table_occurrences, ..old })
            &&& updated_at(old.table_occurrences@, new.table_occurrences@, k)
            &&& o == (FMComponentTableOccurence {
                table_occurence_name: o.table_occurence_name,
                ..old.table_occurrences@[k]
            })
            &&& o.table_occurence_name@ == chunk_text(c)
        } else {
            r == Err::<(), _>(DecodeError::MissingOccurrence { key: k }) && new == old
        }
    } else {
        r is Ok && new == old
    }
}

/// The metadata reference code selects an attribute of a field.
pub open spec fn is_field_attribute(code: u16) -> bool {
    code == FIELD_TYPE || code == COMPONENT_DESC || code == COMPONENT_NAME || code
        == CREATOR_ACCOUNT_NAME || code == CREATOR_USER_NAME
}

/// `new` is `old` with the attribute that `code` selects set to `text`.
pub open spec fn field_attribute_set(
    old: FMComponentField,
    new: FMComponentField,
    code: u16,
    text: Seq<char>,
) -> bool {
    if code == FIELD_TYPE {
        new == (FMComponentField { field_type: new.field_type, ..old }) && new.field_type@ == text
    } else if code == COMPONENT_DESC {
        new == (FMComponentField { field_description: new.field_description, ..old })
            && new.field_description@ == text
    } else if code == COMPONENT_NAME {
        new == (FMComponentField { field_name: new.field_name, ..old }) && new.field_name@ == text
    } else if code == CREATOR_ACCOUNT_NAME {
        new == (FMComponentField { created_by_account: new.created_by_account, ..old })
            && new.created_by_account@ == text
    } else {
        new == (FMComponentField { created_by_user: new.created_by_user, ..old })
            && new.created_by_user@ == text
    }
}

/// Table `t` of `new` is that of `old` with its fields replaced, or, where
/// `old` had none, a blank table holding those fields.
pub open spec fn table_fields_replaced(old: FmpFile, new: FmpFile, t: usize) -> bool {
    let nt = new.tables@[t];
    &&& new == (FmpFile { tables: new.tables, ..old })
    &&& updated_at(old.tables@, new.tables@, t)
    &&& old.tables@.contains_key(t) ==> nt == (FMComponentTable { fields: nt.fields, ..old.tables@[t] })
    &&& !old.tables@.contains_key(t) ==> nt.table_name@.len() == 0 && nt.created_by_account@.len() == 0
        && nt.create_by_user@.len() == 0 && !nt.init
}

/// The fields of table `t` before the chunk: none where the table is new.
pub open spec fn fields_before(old: FmpFile, t: usize) -> Map<u16, FMComponentField> {
    if old.tables@.contains_key(t) {
        old.tables@[t].fields@
    } else {
        Map::empty()
    }
}

/// Under field `y` of the table with path id `x`: a push creates the table
/// and the field where they are absent; an attribute chunk sets one
/// attribute of a field that must already exist.
pub open spec fn field_effect(
    old: FmpFile,
    new: FmpFile,
    c: Chunk,
    x: usize,
    y: usize,
    r: Result<(), DecodeError>,
) -> bool {
    let t = (x - TABLE_ID_BASE) as usize;
    let f = y as u16;
    let code = match c.ref_simple {
        Some(v) => v,
        None => 0,
    };
    if x < TABLE_ID_BASE {
        r is Ok && new == old
    } else if c.ctype == ChunkType::PathPush {
        &&& r is Ok
        &&& table_fields_replaced(old, new, t)
        &&& fields_before(old, t).contains_key(f) ==> new.tables@[t].fields@ == fields_before(old, t)
        &&& !fields_before(old, t).contains_key(f) ==> {
            &&& updated_at(fields_before(old, t), new.tables@[t].fields@, f)
            &&& new.tables@[t].fields@[f].is_blank()
        }
    } else if !is_field_attribute(code) {
        r is Ok && new == old
    } else if !old.tables@.contains_key(t) {
        r == Err::<(), _>(DecodeError::MissingTable { table: t }) && new == old
    } else if !old.tables@[t].fields@.contains_key(f) {
        r == Err::<(), _>(DecodeError::MissingField { table: t, field: f }) && new == old
    } else {
        &&& r is Ok
        &&& table_fields_replaced(old, new, t)
        &&& updated_at(old.tables@[t].fields@, new.tables@[t].fields@, f)
        &&& field_attribute_set(old.tables@[t].fields@[f], new.tables@[t].fields@[f], code, chunk_text(c))
    }
}

/// Under a table's metadata path: a push creates the table where it is
/// absent, and a name chunk names the existing table.
pub open spec fn table_meta_effect(
    old: FmpFile,
    new: FmpFile,
    c: Chunk,
    x: usize,
    r: Result<(), DecodeError>,
) -> bool {
    let t = (x - TABLE_ID_BASE) as usize;
    let acts = c.ctype == ChunkType::PathPush || c.ref_simple == Some(COMPONENT_NAME);
    if !acts {
        r is Ok && new == old
    } else if x < TABLE_ID_BASE {
        r == Err::<(), _>(DecodeError::BadTableId { id: x }) && new == old
    } else if c.ctype == ChunkType::PathPush {
        &&& r is Ok
        &&& old.tables@.contains_key(t) ==> new == old
        &&& !old.tables@.contains_key(t) ==> {
            &&& new == (FmpFile { tables: new.tables, ..old })
            &&& updated_at(old.tables@, new.tables@, t)
            &&& new.tables@[t].is_blank()
            &&& !new.tables@[t].init
        }
    } else if !old.tables@.contains_key(t) {
        r == Err::<(), _>(DecodeError::MissingTable { table: t }) && new == old
    } else {
        let nt = new.tables@[t];
        &&& r is Ok
        &&& new == (FmpFile { tables: new.tables, ..old })
        &&& updated_at(old.tables@, new.tables@, t)
        &&& nt == (FMComponentTable { table_name: nt.table_name, ..old.tables@[t] })
        &&& nt.table_name@ == chunk_text(c)
    }
}

/// Step `st` of script `sc` in `new` is that of `old` with one more operand,
/// whose text is `text`; nothing else changes.
pub open spec fn switch_pushed(old: FmpFile, new: FmpFile, sc: usize, st: usize, text: Seq<char>) -> bool {
    let os = old.scripts@[sc];
    let ns = new.scripts@[sc];
    let ostep = os.instructions@[st];
    let nstep = ns.instructions@[st];
    &&& new == (FmpFile { scripts: new.scripts, ..old })
    &&& updated_at(old.scripts@, new.scripts@, sc)
    &&& ns == (FMComponentScript { instructions: ns.instructions, ..os })
    &&& updated_at(os.instructions@, ns.instructions@, st)
    &&& nstep == (ScriptStep { switches: nstep.switches, ..ostep })
    &&& nstep.switches@.len() == ostep.switches@.len() + 1
    &&& nstep.switches@.subrange(0, ostep.switches@.len() as int) == ostep.switches@
    &&& nstep.switches@.last()@ == text
}

/// The step exists; an error names the entity that does not.
pub open spec fn step_lookup(old: FmpFile, sc: usize, st: usize) -> Result<(), DecodeError> {
    if !old.scripts@.contains_key(sc) {
        Err(DecodeError::MissingScript { script: sc })
    } else if !old.scripts@[sc].instructions@.contains_key(st) {
        Err(DecodeError::MissingStep { script: sc, step: st })
    } else {
        Ok(())
    }
}

/// The text a step operand chunk adds for an instruction, if any: the
/// variable name for `SetVariable`, with `expressions` also the decompiled
/// result expression for `ExitScript`.
pub open spec fn operand_text(c: Chunk, op: Instruction, expressions: bool) -> Option<Seq<char>> {
    match op {
        Instruction::SetVariable => Some(chunk_text(c)),
        Instruction::ExitScript => if expressions {
            match c.data {
                Some(d) => Some(calc_text(d@, 0)),
                None => Some(calc_text(seq![0u8], 0)),
            }
        } else {
            None
        },
        _ => None,
    }
}

/// A step's operand chunk: with reference code `code` it adds to the step
/// what `operand_text` gives.
pub open spec fn operand_effect(
    old: FmpFile,
    new: FmpFile,
    c: Chunk,
    sc: usize,
    st: usize,
    code: u16,
    expressions: bool,
    r: Result<(), DecodeError>,
) -> bool {
    if c.ref_simple != Some(code) {
        r is Ok && new == old
    } else if step_lookup(old, sc, st) is Err {
        r == step_lookup(old, sc, st) && new == old
    } else {
        let op = old.scripts@[sc].instructions@[st].opcode;
        &&& r is Ok
        &&& match operand_text(c, op, expressions) {
            Some(t) => switch_pushed(old, new, sc, st, t),
            None => new == old,
        }
    }
}

/// A chunk under a step's calculation path: the script must exist; with
/// reference code 5 the decompiled expression is added to the step.
pub open spec fn step_calc_effect(
    old: FmpFile,
    new: FmpFile,
    c: Chunk,
    sc: usize,
    st: usize,
    r: Result<(), DecodeError>,
) -> bool {
    if !old.scripts@.contains_key(sc) {
        r == Err::<(), _>(DecodeError::MissingScript { script: sc }) && new == old
    } else if c.ref_simple != Some(STEP_OPERAND) {
        r is Ok && new == old
    } else if step_lookup(old, sc, st) is Err {
        r == step_lookup(old, sc, st) && new == old
    } else {
        r is Ok && switch_pushed(old, new, sc, st, calc_text(payload_or_zero(c), 0))
    }
}

/// A chunk under a script's data path that carries instruction records.
pub open spec fn carries_records(c: Chunk) -> bool {
    c.segment_idx == Some(INSTRUCTION_RECORDS as u8) || c.ref_simple == Some(INSTRUCTION_RECORDS)
}

/// Under a script's data path, a chunk that carries instruction records
/// records their steps in the existing script, each under its own index.
pub open spec fn script_data_effect(
    old: FmpFile,
    new: FmpFile,
    c: Chunk,
    x: usize,
    table: Seq<Option<Instruction>>,
    r: Result<(), DecodeError>,
) -> bool {
    if c.ctype == ChunkType::PathPush || c.ctype == ChunkType::PathPop || !carries_records(c) {
        r is Ok && new == old
    } else if c.data is None {
        r == Err::<(), _>(DecodeError::MalformedPayload { code: c.code }) && new == old
    } else if !old.scripts@.contains_key(x) {
        r == Err::<(), _>(DecodeError::MissingScript { script: x }) && new == old
    } else {
        let d = c.data->0@;
        let os = old.scripts@[x];
        let ns = new.scripts@[x];
        &&& r is Ok
        &&& new == (FmpFile { scripts: new.scripts, ..old })
        &&& updated_at(old.scripts@, new.scripts@, x)
        &&& ns == (FMComponentScript { instructions: ns.instructions, ..os })
        &&& steps_view(ns.instructions@) == record_steps(steps_view(os.instructions@), d, table, record_count(d))
    }
}

/// A name chunk under a script's identity path creates or renames the script.
pub open spec fn script_name_effect(old: FmpFile, new: FmpFile, c: Chunk, id: usize) -> bool {
    if c.ctype == ChunkType::RefSimple && c.ref_simple == Some(COMPONENT_NAME) {
        let ns = new.scripts@[id];
        &&& new == (FmpFile { scripts: new.scripts, ..old })
        &&& updated_at(old.scripts@, new.scripts@, id)
        &&& ns.script_name@ == chunk_text(c)
        &&& old.scripts@.contains_key(id) ==> ns == (FMComponentScript {
            script_name: ns.script_name,
            ..old.scripts@[id]
        })
        &&& !old.scripts@.contains_key(id) ==> ns.created_by_account@.len() == 0
            && ns.create_by_user@.len() == 0 && ns.arguments@.len() == 0 && ns.instructions@
            == Map::<usize, ScriptStep>::empty()
    } else {
        new == old
    }
}

/// Under a script's body path: a push registers the script's segment buffer,
/// and a data segment stores its run in the registered buffer.
pub open spec fn script_body_effect(
    old: Map<usize, Map<u8, Seq<u8>>>,
    new: Map<usize, Map<u8, Seq<u8>>>,
    c: Chunk,
    x: usize,
    r: Result<(), DecodeError>,
) -> bool {
    if c.ctype == ChunkType::PathPush {
        &&& r is Ok
        &&& old.contains_key(x) ==> new == old
        &&& !old.contains_key(x) ==> new == old.insert(x, Map::empty())
    } else if c.ctype == ChunkType::DataSegment {
        if c.segment_idx is None || c.data is None {
            r == Err::<(), _>(DecodeError::MalformedPayload { code: c.code }) && new == old
        } else if !old.contains_key(x) {
            r == Err::<(), _>(DecodeError::MissingScript { script: x }) && new == old
        } else {
            r is Ok && new == old.insert(x, old[x].insert(c.segment_idx->0, c.data->0@))
        }
    } else {
        r is Ok && new == old
    }
}

/// What one chunk does to the file and to the script segment buffers.
pub open spec fn dispatch_effect(
    old: FmpFile,
    new: FmpFile,
    old_segs: Map<usize, Map<u8, Seq<u8>>>,
    new_segs: Map<usize, Map<u8, Seq<u8>>>,
    c: Chunk,
    table: Seq<Option<Instruction>>,
    r: Result<(), DecodeError>,
) -> bool {
    match route(c.path@) {
        Route::ScriptBody(x) => new == old && script_body_effect(old_segs, new_segs, c, x, r),
        _ => new_segs == old_segs && match route(c.path@) {
            Route::Relationship => relationship_effect(old, new, c, r),
            Route::Occurrence => occurrence_effect(old, new, c, r),
            Route::Layout(x) => r is Ok && layout_effect(old, new, c, x),
            Route::Field(x, y) => field_effect(old, new, c, x, y, r),
            Route::TableMeta(x) => table_meta_effect(old, new, c, x, r),
            Route::StepOperand(sc, st) => operand_effect(old, new, c, sc, st, STEP_OPERAND, true, r),
            Route::StepVariable(sc, st) => operand_effect(old, new, c, sc, st, STEP_VARIABLE, false, r),
            Route::StepCalc(sc, st) => step_calc_effect(old, new, c, sc, st, r),
            Route::ScriptData(x) => script_data_effect(old, new, c, x, table, r),
            Route::ScriptName(id) => r is Ok && script_name_effect(old, new, c, id),
            _ => r is Ok && new == old,
        },
    }
}

/// A chunk whose path matches no pattern changes nothing and is no error.
pub proof fn lemma_unmatched_path_ignored(
    old: FmpFile,
    new: FmpFile,
    old_segs: Map<usize, Map<u8, Seq<u8>>>,
    new_segs: Map<usize, Map<u8, Seq<u8>>>,
    c: Chunk,
    table: Seq<Option<Instruction>>,
    r: Result<(), DecodeError>,
)
    requires
        route(c.path@) is Ignored,
        dispatch_effect(old, new, old_segs, new_segs, c, table, r),
    ensures
        r is Ok,
        new == old,
        new_segs == old_segs,
{
}

fn starts_with(p: &Vec<usize>, q: &[usize]) -> (r: bool)
    ensures
        r == starts(p@, q@),
{
    if p.len() < q.len() {
        return false;
    }
    let mut i: usize = 0;
    while i < q.len()
        invariant
            i <= q@.len() <= p@.len(),
            forall|k: int| 0 <= k < i ==> p@[k] == q@[k],
        decreases q.len() - i,
    {
        if p[i] != q[i] {
            assert(p@.subrange(0, q@.len() as int)[i as int] != q@[i as int]);
            return false;
        }
        i += 1;
    }
    assert(p@.subrange(0, q@.len() as int) =~= q@);
    true
}

/// Matches a path against the structural patterns.
pub fn route_of(p: &Vec<usize>) -> (r: Route)
    ensures
        r == route(p@),
{
    let n = p.len();
    let rel: [usize; 5] = [3, 17, 5, 0, 251];
    let occ: [usize; 4] = [3, 17, 5, 0];
    let lay_ignored: [usize; 2] = [4, 5];
    let lay: [usize; 3] = [4, 1, 7];
    let meta: [usize; 3] = [3, 16, 5];
    let scr: [usize; 2] = [17, 5];
    let name: [usize; 2] = [17, 1];
    assert(rel@ =~= seq![3usize, 17, 5, 0, 251]);
    assert(occ@ =~= seq![3usize, 17, 5, 0]);
    assert(lay_ignored@ =~= seq![4usize, 5]);
    assert(lay@ =~= seq![4usize, 1, 7]);
    assert(meta@ =~= seq![3usize, 16, 5]);
    assert(scr@ =~= seq![17usize, 5]);
    assert(name@ =~= seq![17usize, 1]);
    if n == 5 && starts_with(p, &rel) {
        assert(p@ =~= seq![3usize, 17, 5, 0, 251]);
        Route::Relationship
    } else if starts_with(p, &occ) {
        proof {
            if p@ == seq![3usize, 17, 5, 0, 251] {
                assert(p@.subrange(0, 5) =~= p@);
            }
        }
        Route::Occurrence
    } else if starts_with(p, &lay_ignored) {
        Route::Ignored
    } else if n >= 4 && starts_with(p, &lay) {
        Route::Layout(p[3])
    } else if n == 4 && p[1] == 3 && p[2] == 5 {
        Route::Field(p[0], p[3])
    } else if n == 4 && starts_with(p, &meta) {
        Route::TableMeta(p[3])
    } else if n == 4 && starts_with(p, &scr) && p[3] == 4 {
        Route::ScriptBody(p[2])
    } else if n == 7 && starts_with(p, &scr) && p[3] == 5 && p[5] == 128 && p[6] == 5 {
        Route::StepOperand(p[2], p[4])
    } else if n == 6 && starts_with(p, &scr) && p[3] == 5 && p[5] == 128 {
        Route::StepVariable(p[2], p[4])
    } else if n == 7 && starts_with(p, &scr) && p[3] == 5 && p[5] == 129 && p[6] == 5 {
        Route::StepCalc(p[2], p[4])
    } else if n >= 3 && starts_with(p, &scr) {
        Route::ScriptData(p[2])
    } else if n >= 3 && starts_with(p, &name) {
        Route::ScriptName(p[n - 1])
    } else {
        Route::Ignored
    }
}

/// Folds one chunk into the file, by the pattern its path matches. Paths
/// that match no pattern leave everything as it was.
pub fn dispatch_chunk(
    file: &mut FmpFile,
    segs: &mut ScriptSegments,
    c: &Chunk,
    table: &Vec<Option<Instruction>>,
) -> (r: Result<(), DecodeError>)
    requires
        old(segs).wf(),
    ensures
        final(segs).wf(),
        r matches Err(e) ==> !(e is SectorOutOfRange) && !(e is SectorCycle) && !(e is FileTooShort),
        dispatch_effect(*old(file), *final(file), old(segs)@, final(segs)@, *c, table@, r),
{
    match route_of(&c.path) {
        Route::Relationship => apply_relationship(file, c),
        Route::Occurrence => apply_occurrence(file, c),
        Route::Layout(x) => {
            apply_layout(file, c, x);
            Ok(())
        },
        Route::Field(x, y) => apply_field(file, c, x, y),
        Route::TableMeta(x) => apply_table_meta(file, c, x),
        Route::ScriptBody(x) => apply_script_body(segs, c, x),
        Route::StepOperand(sc, st) => apply_operand(file, c, sc, st, STEP_OPERAND, true),
        Route::StepVariable(sc, st) => apply_operand(file, c, sc, st, STEP_VARIABLE, false),
        Route::StepCalc(sc, st) => apply_step_calc(file, c, sc, st),
        Route::ScriptData(x) => apply_script_data(file, c, x, table),
        Route::ScriptName(id) => {
            apply_script_name(file, c, id);
            Ok(())
        },
        Route::Ignored => Ok(()),
    }
}

fn chunk_string(c: &Chunk) -> (r: String)
    ensures
        r@ == chunk_text(*c),
{
    match &c.data {
        Some(d) => fm_string_decrypt(d.as_slice()),
        None => {
            let z: [u8; 1] = [0];
            let r = fm_string_decrypt(&z);
            assert(z@ =~= seq![0u8]);
            r
        },
    }
}

fn apply_layout(file: &mut FmpFile, c: &Chunk, x: usize)
    ensures
        layout_effect(*old(file), *final(file), *c, x),
{
    broadcast use vstd::std_specs::hash::group_hash_axioms;

    if c.ref_simple == Some(COMPONENT_NAME) {
        let s = chunk_string(c);
        let mut layout = match file.layouts.remove(&x) {
            Some(l) => l,
            None => FMComponentLayout::new(),
        };
        layout.layout_name = s;
        file.layouts.insert(x, layout);
        proof {
            lemma_updated_at(old(file).layouts@, file.layouts@, x, layout);
        }
    }
}

fn apply_relationship(file: &mut FmpFile, c: &Chunk) -> (r: Result<(), DecodeError>)
    ensures
        relationship_effect(*old(file), *final(file), *c, r),
{
    broadcast use vstd::std_specs::hash::group_hash_axioms;

    if let ChunkType::DataSimple = c.ctype {
        match &c.data {
            Some(d) => {
                if d.len() < 3 {
                    return Err(DecodeError::MalformedPayload { code: c.code });
                }
                let mut rel = FMComponentRelationship::new();
                rel.table1 = #[verifier::truncate] (file.table_occurrences.len() as u16);
                rel.table2 = d[2] as u16;
                let k = file.relationships.len();
                let ghost before = file.relationships@;
                file.relationships.insert(k, rel);
                proof {
                    lemma_updated_at_insert(before, file.relationships@, k, rel);
                }
                Ok(())
            },
            None => Err(DecodeError::MalformedPayload { code: c.code }),
        }
    } else {
        Ok(())
    }
}

fn apply_occurrence(file: &mut FmpFile, c: &Chunk) -> (r: Result<(), DecodeError>)
    ensures
        occurrence_effect(*old(file), *final(file), *c, r),
{
    broadcast use vstd::std_specs::hash::group_hash_axioms;

    let n = file.table_occurrences.len();
    if c.ref_simple == Some(OCCURRENCE_TABLE) {
        match &c.data {
            Some(d) => {
                if d.len() < 7 || n == usize::MAX {
                    return Err(DecodeError::MalformedPayload { code: c.code });
                }
                let mut occ = FMComponentTableOccurence::new();
                occ.table_actual = d[6] as u16;
                let ghost before = file.table_occurrences@;
                file.table_occurrences.insert(n + 1, occ);
                proof {
                    lemma_updated_at_insert(before, file.table_occurrences@, (n + 1) as usize, occ);
                }
                Ok(())
            },
            None => Err(DecodeError::MalformedPayload { code: c.code }),
        }
    } else if c.ref_simple == Some(COMPONENT_NAME) {
        if !file.table_occurrences.contains_key(&n) {
            return Err(DecodeError::MissingOccurrence { key: n });
        }
        match file.table_occurrences.remove(&n) {
            Some(mut occ) => {
                occ.table_occurence_name = chunk_string(c);
                file.table_occurrences.insert(n, occ);
                proof {
                    lemma_updated_at(old(file).table_occurrences@, file.table_occurrences@, n, occ);
                }
                Ok(())
            },
            None => Err(DecodeError::MissingOccurrence { key: n }),
        }
    } else {
        Ok(())
    }
}

fn apply_field(file: &mut FmpFile, c: &Chunk, x: usize, y: usize) -> (r: Result<(), DecodeError>)
    ensures
        field_effect(*old(file), *final(file), *c, x, y, r),
{
    broadcast use vstd::std_specs::hash::group_hash_axioms;

    if x < TABLE_ID_BASE {
        return Ok(());
    }
    let t = x - TABLE_ID_BASE;
    let f = #[verifier::truncate] (y as u16);
    if let ChunkType::PathPush = c.ctype {
        let mut table = match file.tables.remove(&t) {
            Some(table) => table,
            None => FMComponentTable::new(),
        };
        let ghost fields0 = table.fields@;
        assert(fields0 == fields_before(*old(file), t));
        if !table.fields.contains_key(&f) {
            let fresh = FMComponentField::new();
            table.fields.insert(f, fresh);
            proof {
                lemma_updated_at_insert(fields0, table.fields@, f, fresh);
            }
        }
        file.tables.insert(t, table);
        proof {
            lemma_updated_at(old(file).tables@, file.tables@, t, table);
        }
        return Ok(());
    }
    let code: u16 = match c.ref_simple {
        Some(v) => v,
        None => 0,
    };
    if !(code == FIELD_TYPE || code == COMPONENT_DESC || code == COMPONENT_NAME || code
        == CREATOR_ACCOUNT_NAME || code == CREATOR_USER_NAME) {
        return Ok(());
    }
    match file.tables.get(&t) {
        Some(table) => {
            if !table.fields.contains_key(&f) {
                return Err(DecodeError::MissingField { table: t, field: f });
            }
        },
        None => return Err(DecodeError::MissingTable { table: t }),
    }
    let mut table = match file.tables.remove(&t) {
        Some(table) => table,
        None => return Err(DecodeError::MissingTable { table: t }),
    };
    let mut field = match table.fields.remove(&f) {
        Some(field) => field,
        None => return Err(DecodeError::MissingField { table: t, field: f }),
    };
    let s = chunk_string(c);
    if code == FIELD_TYPE {
        field.field_type = s;
    } else if code == COMPONENT_DESC {
        field.field_description = s;
    } else if code == COMPONENT_NAME {
        field.field_name = s;
    } else if code == CREATOR_ACCOUNT_NAME {
        field.created_by_account = s;
    } else {
        field.created_by_user = s;
    }
    table.fields.insert(f, field);
    proof {
        lemma_updated_at(old(file).tables@[t].fields@, table.fields@, f, field);
    }
    file.tables.insert(t, table);
    proof {
        lemma_updated_at(old(file).tables@, file.tables@, t, table);
    }
    Ok(())
}

fn apply_table_meta(file: &mut FmpFile, c: &Chunk, x: usize) -> (r: Result<(), DecodeError>)
    ensures
        table_meta_effect(*old(file), *final(file), *c, x, r),
{
    broadcast use vstd::std_specs::hash::group_hash_axioms;

    let push = matches!(c.ctype, ChunkType::PathPush);
    if !push && c.ref_simple != Some(COMPONENT_NAME) {
        return Ok(());
    }
    if x < TABLE_ID_BASE {
        return Err(DecodeError::BadTableId { id: x });
    }
    let t = x - TABLE_ID_BASE;
    if push {
        if !file.tables.contains_key(&t) {
            let table = FMComponentTable::new();
            file.tables.insert(t, table);
            proof {
                assert(old(file).tables@.remove(t) =~= old(file).tables@);
                lemma_updated_at(old(file).tables@, file.tables@, t, table);
            }
        }
        Ok(())
    } else {
        if !file.tables.contains_key(&t) {
            return Err(DecodeError::MissingTable { table: t });
        }
        match file.tables.remove(&t) {
            Some(mut table) => {
                table.table_name = chunk_string(c);
                file.tables.insert(t, table);
                proof {
                    lemma_updated_at(old(file).tables@, file.tables@, t, table);
                }
                Ok(())
            },
            None => Err(DecodeError::MissingTable { table: t }),
        }
    }
}

/// Adds an operand to step `st` of script `sc`; both must exist.
fn push_switch(file: &mut FmpFile, sc: usize, st: usize, text: String)
    requires
        step_lookup(*old(file), sc, st) is Ok,
    ensures
        switch_pushed(*old(file), *final(file), sc, st, text@),
{
    broadcast use vstd::std_specs::hash::group_hash_axioms;

    let ghost t = text@;
    let mut script = file.scripts.remove(&sc).unwrap();
    let mut step = script.instructions.remove(&st).unwrap();
    let ghost old_step = step;
    step.switches.push(text);
    assert(step.switches@.subrange(0, old_step.switches@.len() as int) =~= old_step.switches@);
    script.instructions.insert(st, step);
    proof {
        lemma_updated_at(old(file).scripts@[sc].instructions@, script.instructions@, st, step);
    }
    file.scripts.insert(sc, script);
    proof {
        lemma_updated_at(old(file).scripts@, file.scripts@, sc, script);
    }
}

fn find_step(file: &FmpFile, sc: usize, st: usize) -> (r: Result<Instruction, DecodeError>)
    ensures
        match r {
            Ok(op) => step_lookup(*file, sc, st) is Ok && op == file.scripts@[sc].instructions@[st].opcode,
            Err(e) => step_lookup(*file, sc, st) == Err::<(), _>(e),
        },
{
    broadcast use vstd::std_specs::hash::group_hash_axioms;

    match file.scripts.get(&sc) {
        Some(script) => match script.instructions.get(&st) {
            Some(step) => Ok(step.opcode),
            None => Err(DecodeError::MissingStep { script: sc, step: st }),
        },
        None => Err(DecodeError::MissingScript { script: sc }),
    }
}

fn payload_calc(c: &Chunk) -> (r: String)
    ensures
        r@ == calc_text(payload_or_zero(*c), 0),
{
    match &c.data {
        Some(d) => decompile_calculation(d.as_slice()),
        None => {
            let z: [u8; 1] = [0];
            assert(z@ =~= seq![0u8]);
            decompile_calculation(&z)
        },
    }
}

fn apply_operand(
    file: &mut FmpFile,
    c: &Chunk,
    sc: usize,
    st: usize,
    code: u16,
    expressions: bool,
) -> (r: Result<(), DecodeError>)
    ensures
        operand_effect(*old(file), *final(file), *c, sc, st, code, expressions, r),
{
    if c.ref_simple != Some(code) {
        return Ok(());
    }
    let op = match find_step(file, sc, st) {
        Ok(op) => op,
        Err(e) => return Err(e),
    };
    match op {
        Instruction::SetVariable => {
            let s = chunk_string(c);
            push_switch(file, sc, st, s);
        },
        Instruction::ExitScript => {
            if expressions {
                let s = payload_calc(c);
                assert(calc_text(payload_or_zero(*c), 0) == operand_text(*c, op, expressions)->0);
                push_switch(file, sc, st, s);
            }
        },
        _ => {},
    }
    Ok(())
}

fn apply_step_calc(file: &mut FmpFile, c: &Chunk, sc: usize, st: usize) -> (r: Result<(), DecodeError>)
    ensures
        step_calc_effect(*old(file), *final(file), *c, sc, st, r),
{
    broadcast use vstd::std_specs::hash::group_hash_axioms;

    if !file.scripts.contains_key(&sc) {
        return Err(DecodeError::MissingScript { script: sc });
    }
    if c.ref_simple != Some(STEP_OPERAND) {
        return Ok(());
    }
    if let Err(e) = find_step(file, sc, st) {
        return Err(e);
    }
    let s = payload_calc(c);
    push_switch(file, sc, st, s);
    Ok(())
}

fn apply_script_data(
    file: &mut FmpFile,
    c: &Chunk,
    x: usize,
    table: &Vec<Option<Instruction>>,
) -> (r: Result<(), DecodeError>)
    ensures
        script_data_effect(*old(file), *final(file), *c, x, table@, r),
{
    broadcast use vstd::std_specs::hash::group_hash_axioms;

    match c.ctype {
        ChunkType::PathPush | ChunkType::PathPop => return Ok(()),
        _ => {},
    }
    if !(c.segment_idx == Some(INSTRUCTION_RECORDS as u8) || c.ref_simple == Some(INSTRUCTION_RECORDS)) {
        return Ok(());
    }
    let d = match &c.data {
        Some(d) => d,
        None => return Err(DecodeError::MalformedPayload { code: c.code }),
    };
    if !file.scripts.contains_key(&x) {
        return Err(DecodeError::MissingScript { script: x });
    }
    let mut script = file.scripts.remove(&x).unwrap();
    let ghost os = script;
    insert_record_steps(&mut script.instructions, d.as_slice(), table);
    file.scripts.insert(x, script);
    proof {
        lemma_updated_at(old(file).scripts@, file.scripts@, x, script);
    }
    Ok(())
}

fn apply_script_name(file: &mut FmpFile, c: &Chunk, id: usize)
    ensures
        script_name_effect(*old(file), *final(file), *c, id),
{
    broadcast use vstd::std_specs::hash::group_hash_axioms;

    if let ChunkType::RefSimple = c.ctype {
        if c.ref_simple == Some(COMPONENT_NAME) {
            let mut script = match file.scripts.remove(&id) {
                Some(s) => s,
                None => FMComponentScript::new(),
            };
            script.script_name = chunk_string(c);
            file.scripts.insert(id, script);
            proof {
                lemma_updated_at(old(file).scripts@, file.scripts@, id, script);
            }
        }
    }
}

fn apply_script_body(segs: &mut ScriptSegments, c: &Chunk, x: usize) -> (r: Result<(), DecodeError>)
    requires
        old(segs).wf(),
    ensures
        final(segs).wf(),
        script_body_effect(old(segs)@, final(segs)@, *c, x, r),
{
    match c.ctype {
        ChunkType::PathPush => {
            segs.register(x);
            Ok(())
        },
        ChunkType::DataSegment => {
            match (c.segment_idx, &c.data) {
                (Some(idx), Some(d)) => {
                    if segs.add_run(x, idx, d.clone()) {
                        Ok(())
                    } else {
                        Err(DecodeError::MissingScript { script: x })
                    }
                },
                _ => Err(DecodeError::MalformedPayload { code: c.code }),
            }
        },
        _ => Ok(()),
    }
}

proof fn lemma_updated_at_insert<K, V>(old: Map<K, V>, new: Map<K, V>, k: K, v: V)
    requires
        new == old.insert(k, v),
    ensures
        updated_at(old, new, k),
        new[k] == v,
{
    assert(new.dom() =~= old.dom().insert(k));
}

} // verus!
