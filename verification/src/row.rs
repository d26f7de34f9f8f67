//! A row which contains columns.
use vstd::prelude::*;
use opentelemetry::Value;
use crate::col::{otel_value_of, Column, ColumnValueView, ColumnView};
use crate::otel::{otel_integer, otel_text};
use crate::table::Table;

verus! {

/// The map of a row: each column's name to its value, a later column replacing an
/// earlier one of the same name.
pub open spec fn row_map(cols: Seq<ColumnView>) -> Map<Seq<char>, Value>
    decreases cols.len(),
{
    if cols.len() == 0 {
        Map::empty()
    } else {
        row_map(cols.drop_last()).insert(cols.last().name, otel_value_of(cols.last().value))
    }
}

/// The keys of a row's map are exactly the names of its columns.
pub proof fn law_to_map_keys(cols: Seq<ColumnView>)
    ensures
        forall|k: Seq<char>|
            row_map(cols).contains_key(k) <==> exists|i: int| 0 <= i < cols.len() && #[trigger] cols[i].name == k,
    decreases cols.len(),
{
    if cols.len() > 0 {
        let init = cols.drop_last();
        law_to_map_keys(init);
        assert(row_map(cols) == row_map(init).insert(cols.last().name, otel_value_of(cols.last().value)));
        assert forall|k: Seq<char>|
            row_map(cols).contains_key(k) implies exists|i: int| 0 <= i < cols.len() && #[trigger] cols[i].name == k by {
            if k != cols.last().name {
                assert(row_map(init).contains_key(k));
                let i = choose|i: int| 0 <= i < init.len() && #[trigger] init[i].name == k;
                assert(cols[i].name == k);
            } else {
                assert(cols[cols.len() - 1].name == k);
            }
        }
        assert forall|k: Seq<char>|
            (exists|i: int| 0 <= i < cols.len() && #[trigger] cols[i].name == k) implies row_map(cols).contains_key(k) by {
            let i = choose|i: int| 0 <= i < cols.len() && #[trigger] cols[i].name == k;
            if i < cols.len() - 1 {
                assert(init[i].name == k);
            }
        }
    }
}

/// Under a name, a row's map holds the value of the last column with that name.
pub proof fn law_to_map_last_wins(cols: Seq<ColumnView>, i: int)
    requires
        0 <= i < cols.len(),
        forall|j: int| i < j < cols.len() ==> #[trigger] cols[j].name != cols[i].name,
    ensures
        row_map(cols).contains_key(cols[i].name),
        row_map(cols)[cols[i].name] == otel_value_of(cols[i].value),
        cols[i].value matches ColumnValueView::Integer(v) ==> row_map(cols)[cols[i].name] == otel_integer(v),
        cols[i].value matches ColumnValueView::Text(t) ==> row_map(cols)[cols[i].name] == otel_text(t),
        cols[i].value matches ColumnValueView::Float(x) ==> row_map(cols)[cols[i].name] == x,
    decreases cols.len(),
{
    if i < cols.len() - 1 {
        let init = cols.drop_last();
        assert(cols[cols.len() - 1].name != cols[i].name);
        assert forall|j: int| i < j < init.len() implies #[trigger] init[j].name != init[i].name by {
            assert(cols[j].name != cols[i].name);
        }
        law_to_map_last_wins(init, i);
    }
}

/// Contains many columns.
pub struct Row {
    columns: Vec<Column>,
}

impl View for Row {
    type V = Seq<ColumnView>;

    closed spec fn view(&self) -> Seq<ColumnView> {
        self.columns@.map_values(|c: Column| c@)
    }
}

impl Row {
    /// Gets columns.
    pub fn as_columns(&self) -> (r: &[Column])
        ensures
            r@.map_values(|c: Column| c@) == self@,
    {
        self.columns.as_slice()
    }

    /// Converts to a map.
    ///
    /// - Key: The name of the column.
    /// - Val: The value of the column.
    pub fn to_map(&self) -> (m: Table<Value>)
        ensures
            m.view() == row_map(self@),
    {
        let mut m: Table<Value> = Table::new();
        let n = self.columns.len();
        let ghost cols = self@;
        for i in 0..n
            invariant
                n == self.columns@.len(),
                cols == self@,
                m.view() == row_map(cols.take(i as int)),
        {
            let c = &self.columns[i];
            let key = String::from_str(c.as_name());
            let val = c.to_value();
            m.insert(key, val);
            proof {
                assert(cols.take(i + 1).drop_last() =~= cols.take(i as int));
                assert(cols.take(i + 1).last() == cols[i as int]);
            }
        }
        proof {
            assert(cols.take(n as int) =~= cols);
        }
        m
    }

    /// Creates new row from columns.
    pub fn new(columns: Vec<Column>) -> (r: Self)
        ensures
            r@ == columns@.map_values(|c: Column| c@),
    {
        Self { columns }
    }
}

} // verus!
