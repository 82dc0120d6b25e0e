use vstd::prelude::*;
use std::collections::HashMap;

use crate::component::{
    FMComponentLayout, FMComponentRelationship, FMComponentScript, FMComponentTable,
    FMComponentTableOccurence, FMComponentTest, FMComponentValueList,
};

verus! {

/// The schema and scripts recovered from one container file.
#[derive(Debug, Clone)]
pub struct FmpFile {
    pub name: String,
    pub tables: HashMap<usize, FMComponentTable>,
    pub relationships: HashMap<usize, FMComponentRelationship>,
    pub layouts: HashMap<usize, FMComponentLayout>,
    pub value_lists: HashMap<usize, FMComponentValueList>,
    pub scripts: HashMap<usize, FMComponentScript>,
    pub table_occurrences: HashMap<usize, FMComponentTableOccurence>,
    pub tests: Vec<FMComponentTest>,
}

impl FmpFile {
    /// A file with no entity of any kind.
    pub open spec fn is_empty(&self) -> bool {
        &&& self.name@.len() == 0
        &&& self.tables@ == Map::<usize, FMComponentTable>::empty()
        &&& self.relationships@ == Map::<usize, FMComponentRelationship>::empty()
        &&& self.layouts@ == Map::<usize, FMComponentLayout>::empty()
        &&& self.value_lists@ == Map::<usize, FMComponentValueList>::empty()
        &&& self.scripts@ == Map::<usize, FMComponentScript>::empty()
        &&& self.table_occurrences@ == Map::<usize, FMComponentTableOccurence>::empty()
        &&& self.tests@.len() == 0
    }

    pub fn new() -> (r: Self)
        ensures
            r.is_empty(),
    {
        FmpFile {
            name: String::new(),
            tables: HashMap::new(),
            relationships: HashMap::new(),
            layouts: HashMap::new(),
            value_lists: HashMap::new(),
            scripts: HashMap::new(),
            table_occurrences: HashMap::new(),
            tests: Vec::new(),
        }
    }
}

} // verus!
