//! The outcome of comparing local definitions with the warehouse.

use crate::text::{opt_text, qualified_name, qualified_name_of};
use vstd::prelude::*;

verus! {

/// What has to happen to a table so that the warehouse matches the local
/// definition.
#[derive(Debug, Clone, Copy, PartialEq, Eq, Structural)]
pub enum DiffOperation {
    Create,
    Update,
    Delete,
    NoChange,
}

/// How a column differs between the remote and the local definition.
#[derive(Debug, Clone, Copy, PartialEq, Eq, Structural)]
pub enum ColumnChangeType {
    Added,
    Removed,
    TypeChanged,
}

/// One column-level change.
#[derive(Debug, Clone, PartialEq)]
pub struct ColumnChange {
    pub change_type: ColumnChangeType,
    pub column_name: String,
    pub old_type: Option<String>,
    pub new_type: Option<String>,
}

/// One property-level change (`location`, `format` or `partitions`).
#[derive(Debug, Clone, PartialEq)]
pub struct PropertyChange {
    pub property_name: String,
    pub old_value: Option<String>,
    pub new_value: Option<String>,
}

/// The structural changes found in an updated table.
#[derive(Debug, Clone, PartialEq)]
pub struct ChangeDetails {
    pub column_changes: Vec<ColumnChange>,
    pub property_changes: Vec<PropertyChange>,
}

/// The decision taken for one table.
#[derive(Debug, Clone, PartialEq)]
pub struct TableDiff {
    pub database_name: String,
    pub table_name: String,
    pub operation: DiffOperation,
    pub text_diff: Option<String>,
    pub change_details: Option<ChangeDetails>,
}

/// Number of tables to create, to update and to delete.
#[derive(Debug, Clone, Copy, PartialEq, Eq, Structural)]
pub struct DiffSummary {
    pub to_add: usize,
    pub to_change: usize,
    pub to_destroy: usize,
}

/// All decisions of one run, with their summary. The summary and the
/// `no_change` flag are kept from the decisions and cannot be set apart
/// from them.
#[derive(Debug, PartialEq)]
pub struct DiffResult {
    no_change: bool,
    summary: DiffSummary,
    table_diffs: Vec<TableDiff>,
}

/// Mathematical content of a [`ColumnChange`].
pub ghost struct ColumnChangeView {
    pub change_type: ColumnChangeType,
    pub column_name: Seq<char>,
    pub old_type: Option<Seq<char>>,
    pub new_type: Option<Seq<char>>,
}

/// Mathematical content of a [`PropertyChange`].
pub ghost struct PropertyChangeView {
    pub property_name: Seq<char>,
    pub old_value: Option<Seq<char>>,
    pub new_value: Option<Seq<char>>,
}

/// Mathematical content of a [`ChangeDetails`].
pub ghost struct ChangeDetailsView {
    pub column_changes: Seq<ColumnChangeView>,
    pub property_changes: Seq<PropertyChangeView>,
}

/// Mathematical content of a [`TableDiff`].
pub ghost struct TableDiffView {
    pub database_name: Seq<char>,
    pub table_name: Seq<char>,
    pub operation: DiffOperation,
    pub text_diff: Option<Seq<char>>,
    pub change_details: Option<ChangeDetailsView>,
}

impl View for ColumnChange {
    type V = ColumnChangeView;

    open spec fn view(&self) -> ColumnChangeView {
        ColumnChangeView {
            change_type: self.change_type,
            column_name: self.column_name@,
            old_type: opt_text(self.old_type),
            new_type: opt_text(self.new_type),
        }
    }
}

impl View for PropertyChange {
    type V = PropertyChangeView;

    open spec fn view(&self) -> PropertyChangeView {
        PropertyChangeView {
            property_name: self.property_name@,
            old_value: opt_text(self.old_value),
            new_value: opt_text(self.new_value),
        }
    }
}

impl View for ChangeDetails {
    type V = ChangeDetailsView;

    open spec fn view(&self) -> ChangeDetailsView {
        ChangeDetailsView {
            column_changes: self.column_changes@.map_values(|c: ColumnChange| c@),
            property_changes: self.property_changes@.map_values(|p: PropertyChange| p@),
        }
    }
}

impl View for TableDiff {
    type V = TableDiffView;

    open spec fn view(&self) -> TableDiffView {
        TableDiffView {
            database_name: self.database_name@,
            table_name: self.table_name@,
            operation: self.operation,
            text_diff: opt_text(self.text_diff),
            change_details: match self.change_details {
                Some(d) => Some(d@),
                None => None,
            },
        }
    }
}

/// The views of a sequence of table decisions.
pub open spec fn diff_views(diffs: Seq<TableDiff>) -> Seq<TableDiffView> {
    diffs.map_values(|d: TableDiff| d@)
}

/// Number of decisions in `diffs` whose operation is `op`.
pub open spec fn count_operation(diffs: Seq<TableDiffView>, op: DiffOperation) -> nat
    decreases diffs.len(),
{
    if diffs.len() == 0 {
        0
    } else {
        count_operation(diffs.drop_last(), op) + if diffs.last().operation == op {
            1nat
        } else {
            0nat
        }
    }
}

/// No more decisions carry an operation than there are decisions.
pub proof fn lemma_count_operation_bound(diffs: Seq<TableDiffView>, op: DiffOperation)
    ensures
        count_operation(diffs, op) <= diffs.len(),
    decreases diffs.len(),
{
    if diffs.len() > 0 {
        lemma_count_operation_bound(diffs.drop_last(), op);
    }
}

/// The decisions to create, to update and to delete are no more than all
/// decisions.
pub proof fn lemma_changes_bound(diffs: Seq<TableDiffView>)
    ensures
        count_operation(diffs, DiffOperation::Create) + count_operation(
            diffs,
            DiffOperation::Update,
        ) + count_operation(diffs, DiffOperation::Delete) <= diffs.len(),
    decreases diffs.len(),
{
    if diffs.len() > 0 {
        lemma_changes_bound(diffs.drop_last());
    }
}

/// No decision carries an operation exactly when its count is zero.
pub proof fn lemma_count_operation_zero(diffs: Seq<TableDiffView>, op: DiffOperation)
    ensures
        count_operation(diffs, op) == 0 <==> forall|i: int|
            0 <= i < diffs.len() ==> (#[trigger] diffs[i]).operation != op,
    decreases diffs.len(),
{
    if diffs.len() > 0 {
        let front = diffs.drop_last();
        lemma_count_operation_zero(front, op);
        assert(forall|i: int| 0 <= i < front.len() ==> front[i] == diffs[i]);
        if count_operation(diffs, op) == 0 {
            assert forall|i: int| 0 <= i < diffs.len() implies (#[trigger] diffs[i]).operation
                != op by {
                if i < front.len() {
                    assert(front[i] == diffs[i]);
                }
            }
        }
    }
}

/// The summary of as many decisions as a vector can hold is empty exactly
/// when none of them creates, updates or deletes a table.
pub proof fn lemma_no_change_iff_no_decision_changes(diffs: Seq<TableDiffView>)
    requires
        diffs.len() <= usize::MAX,
    ensures
        summary_of(diffs).is_empty() <==> forall|i: int|
            0 <= i < diffs.len() ==> !(#[trigger] diffs[i]).is_change(),
{
    lemma_count_operation_zero(diffs, DiffOperation::Create);
    lemma_count_operation_zero(diffs, DiffOperation::Update);
    lemma_count_operation_zero(diffs, DiffOperation::Delete);
    lemma_count_operation_bound(diffs, DiffOperation::Create);
    lemma_count_operation_bound(diffs, DiffOperation::Update);
    lemma_count_operation_bound(diffs, DiffOperation::Delete);
    if summary_of(diffs).is_empty() {
        assert forall|i: int| 0 <= i < diffs.len() implies !(#[trigger] diffs[i]).is_change() by {
            match diffs[i].operation {
                DiffOperation::NoChange => {},
                _ => {},
            }
        }
    }
}

impl TableDiffView {
    /// Whether the table is to be created, updated or deleted.
    pub open spec fn is_change(self) -> bool {
        self.operation != DiffOperation::NoChange
    }
}

/// The summary that counts the operations of `diffs`.
pub open spec fn summary_of(diffs: Seq<TableDiffView>) -> DiffSummary {
    DiffSummary {
        to_add: count_operation(diffs, DiffOperation::Create) as usize,
        to_change: count_operation(diffs, DiffOperation::Update) as usize,
        to_destroy: count_operation(diffs, DiffOperation::Delete) as usize,
    }
}

impl DiffOperation {
    /// The word under which the operation is reported.
    pub open spec fn label(self) -> Seq<char> {
        match self {
            DiffOperation::Create => "create"@,
            DiffOperation::Update => "update"@,
            DiffOperation::Delete => "delete"@,
            DiffOperation::NoChange => "no change"@,
        }
    }

    /// The word under which the operation is reported.
    pub fn to_string(&self) -> (s: String)
        ensures
            s@ == self.label(),
    {
        match self {
            DiffOperation::Create => "create".to_string(),
            DiffOperation::Update => "update".to_string(),
            DiffOperation::Delete => "delete".to_string(),
            DiffOperation::NoChange => "no change".to_string(),
        }
    }
}

impl Default for DiffSummary {
    fn default() -> (s: Self)
        ensures
            s == (DiffSummary { to_add: 0, to_change: 0, to_destroy: 0 }),
    {
        DiffSummary { to_add: 0, to_change: 0, to_destroy: 0 }
    }
}

impl DiffSummary {
    /// Counts the tables to create, to update and to delete among
    /// `table_diffs`.
    pub fn from_table_diffs(table_diffs: &[TableDiff]) -> (summary: Self)
        ensures
            summary == summary_of(diff_views(table_diffs@)),
            summary.to_add == count_operation(diff_views(table_diffs@), DiffOperation::Create),
            summary.to_change == count_operation(diff_views(table_diffs@), DiffOperation::Update),
            summary.to_destroy == count_operation(diff_views(table_diffs@), DiffOperation::Delete),
            summary.to_add + summary.to_change + summary.to_destroy <= table_diffs@.len(),
    {
        proof {
            lemma_changes_bound(diff_views(table_diffs@));
        }
        let mut to_add: usize = 0;
        let mut to_change: usize = 0;
        let mut to_destroy: usize = 0;
        let mut i: usize = 0;
        let ghost all = diff_views(table_diffs@);
        while i < table_diffs.len()
            invariant
                i <= table_diffs.len(),
                all == diff_views(table_diffs@),
                to_add == count_operation(all.take(i as int), DiffOperation::Create),
                to_change == count_operation(all.take(i as int), DiffOperation::Update),
                to_destroy == count_operation(all.take(i as int), DiffOperation::Delete),
            decreases table_diffs.len() - i,
        {
            proof {
                assert(all.take(i + 1).drop_last() =~= all.take(i as int));
                lemma_count_operation_bound(all.take(i + 1), DiffOperation::Create);
                lemma_count_operation_bound(all.take(i + 1), DiffOperation::Update);
                lemma_count_operation_bound(all.take(i + 1), DiffOperation::Delete);
            }
            match table_diffs[i].operation {
                DiffOperation::Create => {
                    to_add = to_add + 1;
                },
                DiffOperation::Update => {
                    to_change = to_change + 1;
                },
                DiffOperation::Delete => {
                    to_destroy = to_destroy + 1;
                },
                DiffOperation::NoChange => {},
            }
            i = i + 1;
        }
        assert(all.take(table_diffs.len() as int) =~= all);
        DiffSummary { to_add, to_change, to_destroy }
    }

    /// Whether nothing is to be created, updated or deleted.
    pub open spec fn is_empty(self) -> bool {
        self.to_add == 0 && self.to_change == 0 && self.to_destroy == 0
    }
}

impl View for DiffResult {
    type V = Seq<TableDiffView>;

    /// The decisions, in their order.
    closed spec fn view(&self) -> Seq<TableDiffView> {
        diff_views(self.table_diffs@)
    }
}

impl DiffResult {
    /// The summary counts the decisions, and `no_change` says that it counts
    /// none.
    #[verifier::type_invariant]
    spec fn holds(self) -> bool {
        &&& self.summary.to_add == count_operation(self@, DiffOperation::Create)
        &&& self.summary.to_change == count_operation(self@, DiffOperation::Update)
        &&& self.summary.to_destroy == count_operation(self@, DiffOperation::Delete)
        &&& self.no_change == self.summary.is_empty()
    }

    /// The result of a run that found no table at all.
    pub fn new() -> (r: Self)
        ensures
            r@ == Seq::<TableDiffView>::empty(),
    {
        let r = Self {
            no_change: true,
            summary: DiffSummary { to_add: 0, to_change: 0, to_destroy: 0 },
            table_diffs: Vec::new(),
        };
        assert(r@ =~= Seq::<TableDiffView>::empty());
        r
    }

    /// The result that holds `table_diffs`, with the summary that counts them.
    pub fn from_table_diffs(table_diffs: Vec<TableDiff>) -> (r: Self)
        ensures
            r@ == diff_views(table_diffs@),
    {
        let summary = DiffSummary::from_table_diffs(table_diffs.as_slice());
        Self {
            no_change: summary.to_add == 0 && summary.to_change == 0 && summary.to_destroy == 0,
            summary,
            table_diffs,
        }
    }

    /// The decisions, in their order.
    pub fn table_diffs(&self) -> (diffs: &Vec<TableDiff>)
        ensures
            diff_views(diffs@) == self@,
    {
        &self.table_diffs
    }

    /// Number of tables to create, to update and to delete among the
    /// decisions.
    pub fn summary(&self) -> (summary: DiffSummary)
        ensures
            summary == summary_of(self@),
            summary.to_add == count_operation(self@, DiffOperation::Create),
            summary.to_change == count_operation(self@, DiffOperation::Update),
            summary.to_destroy == count_operation(self@, DiffOperation::Delete),
            summary.to_add + summary.to_change + summary.to_destroy <= self@.len(),
            self@.len() <= usize::MAX,
    {
        proof {
            use_type_invariant(self);
            lemma_changes_bound(self@);
            assert(self@.len() == self.table_diffs.len());
        }
        self.summary
    }

    /// Whether no decision creates, updates or deletes a table.
    pub fn no_change(&self) -> (b: bool)
        ensures
            b == summary_of(self@).is_empty(),
            b == (forall|i: int| 0 <= i < self@.len() ==> !(#[trigger] self@[i]).is_change()),
    {
        proof {
            use_type_invariant(self);
            assert(self@.len() == self.table_diffs.len());
            lemma_count_operation_bound(self@, DiffOperation::Create);
            lemma_count_operation_bound(self@, DiffOperation::Update);
            lemma_count_operation_bound(self@, DiffOperation::Delete);
            lemma_no_change_iff_no_decision_changes(self@);
        }
        self.no_change
    }

    /// Whether anything is to be created, updated or deleted.
    pub fn has_changes(&self) -> (b: bool)
        ensures
            b == !summary_of(self@).is_empty(),
            b == (exists|i: int| 0 <= i < self@.len() && (#[trigger] self@[i]).is_change()),
    {
        !self.no_change()
    }

    /// Number of tables to create, update or delete.
    pub fn total_changes(&self) -> (n: usize)
        ensures
            n == count_operation(self@, DiffOperation::Create) + count_operation(
                self@,
                DiffOperation::Update,
            ) + count_operation(self@, DiffOperation::Delete),
            n <= self@.len(),
    {
        let summary = self.summary();
        summary.to_add + summary.to_change + summary.to_destroy
    }
}

impl Default for DiffResult {
    fn default() -> (r: Self)
        ensures
            r@ == Seq::<TableDiffView>::empty(),
    {
        Self::new()
    }
}

impl TableDiff {
    /// The text `<database>.<table>` of the table.
    pub fn qualified_name(&self) -> (name: String)
        ensures
            name@ == qualified_name_of(self.database_name@, self.table_name@),
    {
        qualified_name(self.database_name.as_str(), self.table_name.as_str())
    }

    /// Whether the table is to be created, updated or deleted.
    pub fn is_change(&self) -> (b: bool)
        ensures
            b == self@.is_change(),
    {
        match self.operation {
            DiffOperation::NoChange => false,
            _ => true,
        }
    }
}

} // verus!
