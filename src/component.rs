use vstd::prelude::*;
use std::collections::HashMap;

use crate::script::ScriptStep;

verus! {

/// The kinds of entity a decoded file holds.
#[derive(Debug, Clone, Copy, PartialEq, Eq)]
pub enum FMComponentType {
    Table,
    Field,
    Layout,
    Script,
    TableOccurence,
    Relationship,
    Test,
}

#[derive(Debug, Clone)]
pub struct FMComponentField {
    pub data_type: String,
    pub field_description: String,
    pub field_name: String,
    pub field_type: String,
    pub created_by_account: String,
    pub created_by_user: String,
}

impl FMComponentField {
    pub open spec fn is_blank(&self) -> bool {
        &&& self.data_type@.len() == 0
        &&& self.field_description@.len() == 0
        &&& self.field_name@.len() == 0
        &&& self.field_type@.len() == 0
        &&& self.created_by_account@.len() == 0
        &&& self.created_by_user@.len() == 0
    }

    pub fn new() -> (r: Self)
        ensures
            r.is_blank(),
    {
        FMComponentField {
            data_type: String::new(),
            field_description: String::new(),
            field_name: String::new(),
            field_type: String::new(),
            created_by_account: String::new(),
            created_by_user: String::new(),
        }
    }
}

#[derive(Debug, Clone)]
pub struct FMComponentTest {
    pub test_name: String,
    pub script: FMComponentScript,
    pub created_by_account: String,
    pub create_by_user: String,
    pub assertions: Vec<String>,
}

impl FMComponentTest {
    pub fn new() -> (r: Self)
        ensures
            r.test_name@.len() == 0,
            r.script.is_blank(),
            r.created_by_account@.len() == 0,
            r.create_by_user@.len() == 0,
            r.assertions@.len() == 0,
    {
        FMComponentTest {
            test_name: String::new(),
            script: FMComponentScript::new(),
            created_by_account: String::new(),
            create_by_user: String::new(),
            assertions: Vec::new(),
        }
    }
}

#[derive(Debug, Clone)]
pub struct FMComponentTable {
    pub table_name: String,
    pub created_by_account: String,
    pub create_by_user: String,
    pub fields: HashMap<u16, FMComponentField>,
    pub init: bool,
}

impl FMComponentTable {
    /// A table with no name, no audit data and no fields.
    pub open spec fn is_blank(&self) -> bool {
        &&& self.table_name@.len() == 0
        &&& self.created_by_account@.len() == 0
        &&& self.create_by_user@.len() == 0
        &&& self.fields@ == Map::<u16, FMComponentField>::empty()
    }

    pub fn new() -> (r: Self)
        ensures
            r.is_blank(),
            !r.init,
    {
        FMComponentTable {
            table_name: String::new(),
            created_by_account: String::new(),
            create_by_user: String::new(),
            fields: HashMap::new(),
            init: false,
        }
    }

    pub fn new_init() -> (r: Self)
        ensures
            r.is_blank(),
            r.init,
    {
        FMComponentTable {
            table_name: String::new(),
            created_by_account: String::new(),
            create_by_user: String::new(),
            fields: HashMap::new(),
            init: true,
        }
    }
}

#[derive(Debug, Clone)]
pub struct FMComponentScript {
    pub script_name: String,
    pub created_by_account: String,
    pub create_by_user: String,
    pub arguments: Vec<String>,
    pub instructions: HashMap<usize, ScriptStep>,
}

impl FMComponentScript {
    pub open spec fn is_blank(&self) -> bool {
        &&& self.script_name@.len() == 0
        &&& self.created_by_account@.len() == 0
        &&& self.create_by_user@.len() == 0
        &&& self.arguments@.len() == 0
        &&& self.instructions@ == Map::<usize, ScriptStep>::empty()
    }

    pub fn new() -> (r: Self)
        ensures
            r.is_blank(),
    {
        FMComponentScript {
            script_name: String::new(),
            created_by_account: String::new(),
            create_by_user: String::new(),
            arguments: Vec::new(),
            instructions: HashMap::new(),
        }
    }
}

#[derive(Debug, Clone)]
pub struct FMComponentTableOccurence {
    pub table_occurence_name: String,
    pub table_actual: u16,
    pub table_actual_name: String,
    pub created_by_account: String,
    pub create_by_user: String,
}

impl FMComponentTableOccurence {
    pub fn new() -> (r: Self)
        ensures
            r.table_occurence_name@.len() == 0,
            r.table_actual == 0,
            r.table_actual_name@.len() == 0,
            r.created_by_account@.len() == 0,
            r.create_by_user@.len() == 0,
    {
        FMComponentTableOccurence {
            table_occurence_name: String::new(),
            table_actual: 0,
            table_actual_name: String::new(),
            created_by_account: String::new(),
            create_by_user: String::new(),
        }
    }
}

#[derive(Debug, Clone)]
pub struct FMComponentRelationship {
    pub table1: u16,
    pub table1_name: String,
    pub table2: u16,
    pub table2_name: String,
    pub comparison: u8,
}

impl FMComponentRelationship {
    pub fn new() -> (r: Self)
        ensures
            r.table1 == 0,
            r.table1_name@.len() == 0,
            r.table2 == 0,
            r.table2_name@.len() == 0,
            r.comparison == 0,
    {
        FMComponentRelationship {
            table1: 0,
            table1_name: String::new(),
            table2: 0,
            table2_name: String::new(),
            comparison: 0,
        }
    }
}

#[derive(Debug, Clone)]
pub struct FMComponentLayout {
    pub layout_name: String,
    pub created_by_account: String,
    pub create_by_user: String,
}

impl FMComponentLayout {
    pub fn new() -> (r: Self)
        ensures
            r.layout_name@.len() == 0,
            r.created_by_account@.len() == 0,
            r.create_by_user@.len() == 0,
    {
        FMComponentLayout {
            layout_name: String::new(),
            created_by_account: String::new(),
            create_by_user: String::new(),
        }
    }
}

#[derive(Debug, Clone)]
pub struct FMComponentValueList {
    pub list_name: String,
    pub created_by_account: String,
    pub create_by_user: String,
}

impl FMComponentValueList {
    pub fn new() -> (r: Self)
        ensures
            r.list_name@.len() == 0,
            r.created_by_account@.len() == 0,
            r.create_by_user@.len() == 0,
    {
        FMComponentValueList {
            list_name: String::new(),
            created_by_account: String::new(),
            create_by_user: String::new(),
        }
    }
}

} // verus!
