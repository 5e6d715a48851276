//! Location, format and partition columns of a definition, found by
//! regular expressions, and the changes between two sets of them.

use crate::patterns::{capture, regex_capture_of};
use crate::text::{chars_of, opt_text, string_of, to_uppercase, trim, trim_of, uppercase_of};
use crate::types::diff_result::{PropertyChange, PropertyChangeView};
use vstd::prelude::*;

verus! {

/// The views of a sequence of property changes.
pub open spec fn property_change_views(changes: Seq<PropertyChange>) -> Seq<PropertyChangeView> {
    changes.map_values(|c: PropertyChange| c@)
}

/// The regular expression that finds the storage location of a table.
pub const LOCATION_PATTERN: &'static str = r"(?i)LOCATION\s+'([^']+)'";

/// The regular expression that finds the storage format of a table.
pub const FORMAT_PATTERN: &'static str = r"(?i)STORED\s+AS\s+(\w+)";

/// The regular expression that finds the partition columns of a table.
pub const PARTITIONS_PATTERN: &'static str = r"(?i)PARTITIONED\s+BY\s*\(([^)]+)\)";

/// The storage location that a definition names: the quoted text after
/// `LOCATION`.
pub open spec fn location_of(sql: Seq<char>) -> Option<Seq<char>> {
    regex_capture_of(LOCATION_PATTERN@, sql, 1)
}

/// The storage format that a definition names: the word after `STORED AS`,
/// in upper case.
pub open spec fn format_of(sql: Seq<char>) -> Option<Seq<char>> {
    match regex_capture_of(FORMAT_PATTERN@, sql, 1) {
        Some(word) => Some(uppercase_of(word)),
        None => None,
    }
}

/// The partition columns that a definition names: the text between the
/// parentheses after `PARTITIONED BY`, trimmed.
pub open spec fn partitions_of(sql: Seq<char>) -> Option<Seq<char>> {
    match regex_capture_of(PARTITIONS_PATTERN@, sql, 1) {
        Some(list) => Some(trim_of(list)),
        None => None,
    }
}

/// The storage location that a definition names.
pub fn extract_location(sql: &str) -> (location: Option<String>)
    ensures
        opt_text(location) == location_of(sql@),
{
    capture(LOCATION_PATTERN, sql, 1)
}

/// The storage format that a definition names, in upper case.
pub fn extract_stored_as(sql: &str) -> (format: Option<String>)
    ensures
        opt_text(format) == format_of(sql@),
{
    match capture(FORMAT_PATTERN, sql, 1) {
        Some(word) => Some(to_uppercase(word.as_str())),
        None => None,
    }
}

/// The partition columns that a definition names.
pub fn extract_partitioned_by(sql: &str) -> (partitions: Option<String>)
    ensures
        opt_text(partitions) == partitions_of(sql@),
{
    match capture(PARTITIONS_PATTERN, sql, 1) {
        Some(list) => Some(string_of(&trim(&chars_of(list.as_str())))),
        None => None,
    }
}

/// The properties of a table that are compared beside its columns.
#[derive(Debug, Clone, PartialEq)]
pub struct TableProperties {
    pub location: Option<String>,
    pub format: Option<String>,
    pub partitions: Option<String>,
}

/// Mathematical content of a [`TableProperties`].
pub ghost struct TablePropertiesView {
    pub location: Option<Seq<char>>,
    pub format: Option<Seq<char>>,
    pub partitions: Option<Seq<char>>,
}

impl View for TableProperties {
    type V = TablePropertiesView;

    open spec fn view(&self) -> TablePropertiesView {
        TablePropertiesView {
            location: opt_text(self.location),
            format: opt_text(self.format),
            partitions: opt_text(self.partitions),
        }
    }
}

/// The properties that a definition names.
pub open spec fn properties_of(sql: Seq<char>) -> TablePropertiesView {
    TablePropertiesView {
        location: location_of(sql),
        format: format_of(sql),
        partitions: partitions_of(sql),
    }
}

/// Reads location, format and partition columns off a definition.
pub fn extract_properties(sql: &str) -> (properties: TableProperties)
    ensures
        properties@ == properties_of(sql@),
{
    TableProperties {
        location: extract_location(sql),
        format: extract_stored_as(sql),
        partitions: extract_partitioned_by(sql),
    }
}

/// The change of one property, if its value differs between the two sides.
/// A value present on one side only is a change too.
pub open spec fn property_change_of(
    name: Seq<char>,
    old_value: Option<Seq<char>>,
    new_value: Option<Seq<char>>,
) -> Seq<PropertyChangeView> {
    if old_value == new_value {
        Seq::<PropertyChangeView>::empty()
    } else {
        seq![PropertyChangeView { property_name: name, old_value, new_value }]
    }
}

/// The property changes that lead from `remote` to `local`, in the order
/// `location`, `format`, `partitions`.
pub open spec fn property_changes_of(
    remote: TablePropertiesView,
    local: TablePropertiesView,
) -> Seq<PropertyChangeView> {
    property_change_of("location"@, remote.location, local.location) + property_change_of(
        "format"@,
        remote.format,
        local.format,
    ) + property_change_of("partitions"@, remote.partitions, local.partitions)
}

/// Whether two optional strings hold the same text, or both none.
fn same_option(a: &Option<String>, b: &Option<String>) -> (eq: bool)
    ensures
        eq == (opt_text(*a) == opt_text(*b)),
{
    match (a, b) {
        (Some(x), Some(y)) => *x == *y,
        (None, None) => true,
        _ => false,
    }
}

/// Adds to `changes` the change of the property `name`, if there is one.
fn push_property_change(
    changes: &mut Vec<PropertyChange>,
    name: &str,
    old_value: &Option<String>,
    new_value: &Option<String>,
)
    ensures
        property_change_views(final(changes)@) == property_change_views(old(changes)@)
            + property_change_of(name@, opt_text(*old_value), opt_text(*new_value)),
{
    if !same_option(old_value, new_value) {
        let change = PropertyChange {
            property_name: name.to_owned(),
            old_value: old_value.clone(),
            new_value: new_value.clone(),
        };
        changes.push(change);
    }
}

/// Compares the properties of the remote definition with those of the local
/// one.
pub fn compare_properties(remote: &TableProperties, local: &TableProperties) -> (changes: Vec<
    PropertyChange,
>)
    ensures
        property_change_views(changes@) == property_changes_of(remote@, local@),
{
    let mut changes: Vec<PropertyChange> = Vec::new();
    push_property_change(&mut changes, "location", &remote.location, &local.location);
    push_property_change(&mut changes, "format", &remote.format, &local.format);
    push_property_change(&mut changes, "partitions", &remote.partitions, &local.partitions);
    changes
}

/// Compares location, format and partition columns of the remote
/// definition with those of the local one.
pub fn detect_property_changes(remote_sql: &str, local_sql: &str) -> (changes: Vec<PropertyChange>)
    ensures
        property_change_views(changes@) == property_changes_of(
            properties_of(remote_sql@),
            properties_of(local_sql@),
        ),
{
    let remote = extract_properties(remote_sql);
    let local = extract_properties(local_sql);
    compare_properties(&remote, &local)
}

} // verus!
