//! The description of a table as the metadata catalog holds it.

use crate::text::{qualified_name, qualified_name_of};
use std::collections::HashMap;
use vstd::prelude::*;

verus! {

/// One column of a table.
#[derive(Debug, Clone, PartialEq)]
pub struct ColumnDefinition {
    pub name: String,
    pub data_type: String,
    pub comment: Option<String>,
}

/// One partition column of a table.
#[derive(Debug, Clone, PartialEq)]
pub struct PartitionDefinition {
    pub name: String,
    pub data_type: String,
    pub comment: Option<String>,
}

/// Where and in which format the data of a table is stored.
#[derive(Debug, Clone, PartialEq)]
pub struct StorageDescriptor {
    pub location: Option<String>,
    pub input_format: Option<String>,
    pub output_format: Option<String>,
    pub serialization_library: Option<String>,
    pub parameters: HashMap<String, String>,
}

/// A table with its columns, partitions, storage and properties.
#[derive(Debug, Clone, PartialEq)]
pub struct TableDefinition {
    pub database_name: String,
    pub table_name: String,
    pub columns: Vec<ColumnDefinition>,
    pub partitions: Vec<PartitionDefinition>,
    pub storage_descriptor: StorageDescriptor,
    pub table_properties: HashMap<String, String>,
    pub comment: Option<String>,
}

impl Default for StorageDescriptor {
    fn default() -> (d: Self)
        ensures
            d.location is None,
            d.input_format is None,
            d.output_format is None,
            d.serialization_library is None,
            d.parameters@.len() == 0,
    {
        StorageDescriptor {
            location: None,
            input_format: None,
            output_format: None,
            serialization_library: None,
            parameters: HashMap::new(),
        }
    }
}

impl TableDefinition {
    /// The table of the given names, without columns, partitions,
    /// properties or comment, and with the default storage.
    pub fn new(database_name: String, table_name: String) -> (t: Self)
        ensures
            t.database_name == database_name,
            t.table_name == table_name,
            t.columns@.len() == 0,
            t.partitions@.len() == 0,
            t.storage_descriptor.location is None,
            t.storage_descriptor.input_format is None,
            t.storage_descriptor.output_format is None,
            t.storage_descriptor.serialization_library is None,
            t.storage_descriptor.parameters@.len() == 0,
            t.table_properties@.len() == 0,
            t.comment is None,
    {
        TableDefinition {
            database_name,
            table_name,
            columns: Vec::new(),
            partitions: Vec::new(),
            storage_descriptor: StorageDescriptor::default(),
            table_properties: HashMap::new(),
            comment: None,
        }
    }

    /// The text `<database>.<table>` of the table.
    pub fn qualified_name(&self) -> (name: String)
        ensures
            name@ == qualified_name_of(self.database_name@, self.table_name@),
    {
        qualified_name(self.database_name.as_str(), self.table_name.as_str())
    }
}

} // verus!
