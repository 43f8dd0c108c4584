//! Sort orders and the arguments that cuDF's sort functions take.
use vstd::prelude::*;
use crate::codes::{NullOrder, Order};

verus! {

/// Sort options combining sort order and null precedence
#[derive(Clone, Copy, PartialEq, Eq, Debug, Hash, Structural)]
pub enum SortOrder {
    /// Sort ascending with nulls first
    AscendingNullsFirst,
    /// Sort ascending with nulls last
    AscendingNullsLast,
    /// Sort descending with nulls first
    DescendingNullsFirst,
    /// Sort descending with nulls last
    DescendingNullsLast,
}

impl SortOrder {
    /// Whether rows are sorted from largest to smallest.
    pub open spec fn is_descending(self) -> bool {
        self is DescendingNullsFirst || self is DescendingNullsLast
    }

    /// Whether null values come before all other values.
    pub open spec fn is_nulls_first(self) -> bool {
        self is AscendingNullsFirst || self is DescendingNullsFirst
    }

    /// The column order this sort order asks cuDF for.
    pub open spec fn spec_order(self) -> Order {
        if self.is_descending() {
            Order::Descending
        } else {
            Order::Ascending
        }
    }

    /// The null precedence this sort order asks cuDF for.
    pub open spec fn spec_null_order(self) -> NullOrder {
        if self.is_nulls_first() {
            NullOrder::Before
        } else {
            NullOrder::After
        }
    }

    pub fn order(self) -> (r: Order)
        ensures
            r == self.spec_order(),
    {
        match self {
            SortOrder::AscendingNullsFirst | SortOrder::AscendingNullsLast => Order::Ascending,
            SortOrder::DescendingNullsFirst | SortOrder::DescendingNullsLast => Order::Descending,
        }
    }

    pub fn null_order(self) -> (r: NullOrder)
        ensures
            r == self.spec_null_order(),
    {
        match self {
            SortOrder::AscendingNullsFirst | SortOrder::DescendingNullsFirst => NullOrder::Before,
            SortOrder::AscendingNullsLast | SortOrder::DescendingNullsLast => NullOrder::After,
        }
    }

    /// The sort order for a sort expression's options: whether it sorts
    /// descending, and whether nulls come first.
    pub fn from_options(descending: bool, nulls_first: bool) -> (r: SortOrder)
        ensures
            r.is_descending() == descending,
            r.is_nulls_first() == nulls_first,
    {
        match (descending, nulls_first) {
            (false, true) => SortOrder::AscendingNullsFirst,
            (false, false) => SortOrder::AscendingNullsLast,
            (true, true) => SortOrder::DescendingNullsFirst,
            (true, false) => SortOrder::DescendingNullsLast,
        }
    }
}

/// A sort order is determined by its column order and its null precedence:
/// two sort orders that agree on both are the same.
pub proof fn lemma_sort_order_determined(a: SortOrder, b: SortOrder)
    requires
        a.spec_order() == b.spec_order(),
        a.spec_null_order() == b.spec_null_order(),
    ensures
        a == b,
{
}

/// Building a sort order from the options of an existing one gives it back.
pub proof fn lemma_sort_order_options_round_trip(s: SortOrder, r: SortOrder)
    requires
        r.is_descending() == s.is_descending(),
        r.is_nulls_first() == s.is_nulls_first(),
    ensures
        r == s,
{
}

/// The column-order and null-precedence codes that cuDF's sort functions take,
/// one of each per sort key.
pub struct SortCodes {
    pub column_order: Vec<i32>,
    pub null_precedence: Vec<i32>,
}

/// Code of the column order of each sort order.
pub open spec fn column_order_codes(orders: Seq<SortOrder>) -> Seq<i32> {
    orders.map_values(|o: SortOrder| o.spec_order().spec_code())
}

/// Code of the null precedence of each sort order.
pub open spec fn null_precedence_codes(orders: Seq<SortOrder>) -> Seq<i32> {
    orders.map_values(|o: SortOrder| o.spec_null_order().spec_code())
}

/// The codes cuDF takes for these sort orders, in the same order.
pub fn sort_codes(sort_orders: &Vec<SortOrder>) -> (r: SortCodes)
    ensures
        r.column_order@ == column_order_codes(sort_orders@),
        r.null_precedence@ == null_precedence_codes(sort_orders@),
{
    let mut column_order: Vec<i32> = Vec::new();
    let mut null_precedence: Vec<i32> = Vec::new();
    let mut i: usize = 0;
    while i < sort_orders.len()
        invariant
            i <= sort_orders.len(),
            column_order@ == column_order_codes(sort_orders@.take(i as int)),
            null_precedence@ == null_precedence_codes(sort_orders@.take(i as int)),
        decreases sort_orders.len() - i,
    {
        let o = sort_orders[i];
        column_order.push(o.order().code());
        null_precedence.push(o.null_order().code());
        assert(sort_orders@.take(i as int + 1) == sort_orders@.take(i as int).push(o));
        i = i + 1;
    }
    assert(sort_orders@.take(i as int) == sort_orders@);
    SortCodes { column_order, null_precedence }
}

/// Why a sort by key columns was refused.
#[derive(Clone, Copy, PartialEq, Eq, Debug, Structural)]
pub enum SortError {
    /// `key_columns cannot be empty`
    EmptyKeys,
    /// `key_columns length ({keys}) must match sort_orders length ({orders})`
    LengthMismatch { keys: usize, orders: usize },
    /// `column index {index} out of bounds (table has {num_columns} columns)`
    ColumnOutOfBounds { index: usize, num_columns: usize },
}

/// Whether every key column is a column of a table with `num_columns` columns.
pub open spec fn keys_in_bounds(keys: Seq<usize>, num_columns: usize) -> bool {
    forall|i: int| 0 <= i < keys.len() ==> #[trigger] keys[i] < num_columns
}

/// `j` is the first position of a key column that the table does not have.
pub open spec fn first_out_of_bounds(keys: Seq<usize>, num_columns: usize, j: int) -> bool {
    &&& 0 <= j < keys.len()
    &&& keys[j] >= num_columns
    &&& keys_in_bounds(keys.take(j), num_columns)
}

/// Checks the arguments of a sort by key columns of a table with `num_columns`
/// columns, and gives the codes that cuDF's stable sort by key takes.
///
/// Refused: no key column; as many key columns as sort orders not given; a key
/// column that the table does not have (the first such one is reported).
pub fn sort_arguments(
    num_columns: usize,
    key_columns: &Vec<usize>,
    sort_orders: &Vec<SortOrder>,
) -> (r: Result<SortCodes, SortError>)
    ensures
        key_columns.len() == 0 ==> r == Err::<SortCodes, SortError>(SortError::EmptyKeys),
        key_columns.len() > 0 && key_columns.len() != sort_orders.len() ==> r == Err::<
            SortCodes,
            SortError,
        >(SortError::LengthMismatch { keys: key_columns.len(), orders: sort_orders.len() }),
        key_columns.len() > 0 && key_columns.len() == sort_orders.len() && !keys_in_bounds(
            key_columns@,
            num_columns,
        ) ==> exists|j: int|
            first_out_of_bounds(key_columns@, num_columns, j) && r == Err::<SortCodes, SortError>(
                SortError::ColumnOutOfBounds { index: #[trigger] key_columns@[j], num_columns },
            ),
        r is Ok <==> (key_columns.len() > 0 && key_columns.len() == sort_orders.len()
            && keys_in_bounds(key_columns@, num_columns)),
        r matches Ok(codes) ==> codes.column_order@ == column_order_codes(sort_orders@)
            && codes.null_precedence@ == null_precedence_codes(sort_orders@),
{
    if key_columns.len() == 0 {
        return Err(SortError::EmptyKeys);
    }
    if key_columns.len() != sort_orders.len() {
        return Err(SortError::LengthMismatch { keys: key_columns.len(), orders: sort_orders.len() });
    }
    let mut i: usize = 0;
    while i < key_columns.len()
        invariant
            i <= key_columns.len(),
            key_columns.len() > 0,
            key_columns.len() == sort_orders.len(),
            keys_in_bounds(key_columns@.take(i as int), num_columns),
        decreases key_columns.len() - i,
    {
        if key_columns[i] >= num_columns {
            assert(first_out_of_bounds(key_columns@, num_columns, i as int));
            return Err(SortError::ColumnOutOfBounds { index: key_columns[i], num_columns });
        }
        assert(key_columns@.take(i as int + 1) == key_columns@.take(i as int).push(key_columns[i as int]));
        i = i + 1;
    }
    assert(key_columns@.take(i as int) == key_columns@);
    Ok(sort_codes(sort_orders))
}

/// One expression of a DataFusion sort ordering, as the cuDF sort reads it: the
/// input column it sorts by (`None` where the expression is not a plain column),
/// and its options.
#[derive(Clone, Copy, PartialEq, Eq, Debug, Structural)]
pub struct SortKey {
    pub column: Option<usize>,
    pub descending: bool,
    pub nulls_first: bool,
}

/// The key column a sort expression sorts by; an expression that is not a plain
/// column is read as column `0`.
pub open spec fn key_column(k: SortKey) -> usize {
    match k.column {
        Some(c) => c,
        None => 0,
    }
}

/// The key columns and sort orders of a DataFusion ordering, one of each per
/// sort expression, in order.
pub fn extract_sort_params(ordering: &Vec<SortKey>) -> (r: (Vec<usize>, Vec<SortOrder>))
    ensures
        r.0.len() == ordering.len(),
        r.1.len() == ordering.len(),
        forall|i: int|
            0 <= i < ordering.len() ==> #[trigger] r.0@[i] == key_column(ordering@[i])
                && r.1@[i].is_descending() == ordering@[i].descending
                && r.1@[i].is_nulls_first() == ordering@[i].nulls_first,
{
    let mut columns: Vec<usize> = Vec::new();
    let mut orders: Vec<SortOrder> = Vec::new();
    let mut i: usize = 0;
    while i < ordering.len()
        invariant
            i <= ordering.len(),
            columns.len() == i,
            orders.len() == i,
            forall|j: int|
                0 <= j < i ==> #[trigger] columns@[j] == key_column(ordering@[j])
                    && orders@[j].is_descending() == ordering@[j].descending
                    && orders@[j].is_nulls_first() == ordering@[j].nulls_first,
        decreases ordering.len() - i,
    {
        let k = ordering[i];
        let col = match k.column {
            Some(c) => c,
            None => 0,
        };
        let so = SortOrder::from_options(k.descending, k.nulls_first);
        let ghost old_columns = columns@;
        let ghost old_orders = orders@;
        columns.push(col);
        orders.push(so);
        assert forall|j: int| 0 <= j < i + 1 implies #[trigger] columns@[j] == key_column(ordering@[j])
            && orders@[j].is_descending() == ordering@[j].descending
            && orders@[j].is_nulls_first() == ordering@[j].nulls_first by {
            if j < i {
                assert(columns@[j] == old_columns[j]);
                assert(orders@[j] == old_orders[j]);
            }
        }
        i = i + 1;
    }
    (columns, orders)
}

} // verus!
