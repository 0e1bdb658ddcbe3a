//! The shape of what a request returns, and how the batches that the engine
//! streams back are turned into it.
use vstd::prelude::*;

verus! {

/// Number of result rows kept; past it the rest gives way to one marker row.
pub const MAX_RESULTS: usize = 500;

/// What every cell of the marker row holds.
pub open spec fn more_rows_marker() -> Seq<char> {
    seq!['.', '.', '.']
}

/// One batch of result rows, each value already formatted for display.
pub struct Batch {
    /// (name, type) of each column, in schema order.
    pub fields: Vec<(String, String)>,
    /// The rows of the batch, one string per column.
    pub rows: Vec<Vec<String>>,
}

/// What a request returns.
pub struct SqlResult {
    /// (name, type) of each column of the last statement's result.
    pub columns: Vec<(String, String)>,
    /// Its rows, capped at `MAX_RESULTS` and then marked.
    pub rows: Vec<Vec<String>>,
    /// The logical plan of the last statement, as indented text.
    pub logical_plan: String,
    /// Its physical plan, as indented text.
    pub physical_plan: String,
}

impl SqlResult {
    /// The zero value: no columns, no rows, empty plan texts.
    pub open spec fn is_zero(&self) -> bool {
        &&& self.columns@.len() == 0
        &&& self.rows@.len() == 0
        &&& self.logical_plan@.len() == 0
        &&& self.physical_plan@.len() == 0
    }

    /// The result of a request with no statements.
    pub fn empty() -> (r: SqlResult)
        ensures
            r.is_zero(),
    {
        SqlResult {
            columns: Vec::new(),
            rows: Vec::new(),
            logical_plan: String::new(),
            physical_plan: String::new(),
        }
    }
}

impl Default for SqlResult {
    fn default() -> (r: SqlResult)
        ensures
            r.is_zero(),
    {
        SqlResult::empty()
    }
}

/// The columns of the first batch in `batches` that has any.
pub open spec fn first_columns(batches: Seq<Batch>) -> Seq<(String, String)>
    decreases batches.len(),
{
    if batches.len() == 0 {
        Seq::empty()
    } else {
        let earlier = first_columns(batches.drop_last());
        if earlier.len() > 0 {
            earlier
        } else {
            batches.last().fields@
        }
    }
}

/// The rows of all of `batches`, in order.
pub open spec fn all_rows(batches: Seq<Batch>) -> Seq<Vec<String>>
    decreases batches.len(),
{
    if batches.len() == 0 {
        Seq::empty()
    } else {
        all_rows(batches.drop_last()) + batches.last().rows@
    }
}

/// `row` is a marker row for `n` columns.
pub open spec fn is_marker_row(row: Seq<String>, n: nat) -> bool {
    row.len() == n && forall|j: int| 0 <= j < n ==> (#[trigger] row[j])@ == more_rows_marker()
}

/// Every row of `rows` has `n` cells.
pub open spec fn rows_have_width(rows: Seq<Vec<String>>, n: nat) -> bool {
    forall|i: int| 0 <= i < rows.len() ==> (#[trigger] rows[i])@.len() == n
}

/// `out` is `rows` capped for `n` columns: the same rows where there are at
/// most `MAX_RESULTS`, else the first `MAX_RESULTS` of them and a marker row.
pub open spec fn capped(rows: Seq<Vec<String>>, n: nat, out: Seq<Vec<String>>) -> bool {
    if rows.len() <= MAX_RESULTS {
        out == rows
    } else {
        &&& out.len() == MAX_RESULTS + 1
        &&& out.take(MAX_RESULTS as int) == rows.take(MAX_RESULTS as int)
        &&& is_marker_row(out[MAX_RESULTS as int]@, n)
    }
}

/// A row of `n` cells, each the marker.
pub fn marker_row(n: usize) -> (r: Vec<String>)
    ensures
        is_marker_row(r@, n as nat),
{
    let mut r: Vec<String> = Vec::new();
    let mut i: usize = 0;
    while i < n
        invariant
            i <= n,
            is_marker_row(r@, i as nat),
        decreases n - i,
    {
        let cell = String::from_str("...");
        proof {
            reveal_strlit("...");
            assert(cell@ =~= more_rows_marker());
        }
        r.push(cell);
        i = i + 1;
    }
    r
}

/// Keeps the first `MAX_RESULTS` of `rows`; where there were more, adds a
/// marker row of `n_columns` cells after them.
pub fn cap_rows(rows: Vec<Vec<String>>, n_columns: usize) -> (r: Vec<Vec<String>>)
    ensures
        capped(rows@, n_columns as nat, r@),
        rows_have_width(rows@, n_columns as nat) ==> rows_have_width(r@, n_columns as nat),
{
    let ghost given = rows@;
    let mut rows = rows;
    if rows.len() > MAX_RESULTS {
        rows.truncate(MAX_RESULTS);
        rows.push(marker_row(n_columns));
        proof {
            assert(rows@.take(MAX_RESULTS as int) =~= given.take(MAX_RESULTS as int));
            if rows_have_width(given, n_columns as nat) {
                assert forall|i: int| 0 <= i < rows@.len() implies (#[trigger] rows@[i])@.len()
                    == n_columns by {
                    if i < MAX_RESULTS {
                        assert(rows@[i] == given[i]);
                    }
                }
            }
        }
    }
    rows
}

/// The columns of the first batch that has any, and the rows of all the
/// batches in order, capped at `MAX_RESULTS` and then marked.
pub fn materialize(batches: Vec<Batch>) -> (r: (Vec<(String, String)>, Vec<Vec<String>>))
    ensures
        r.0@ == first_columns(batches@),
        capped(all_rows(batches@), r.0@.len(), r.1@),
        rows_have_width(all_rows(batches@), r.0@.len()) ==> rows_have_width(r.1@, r.0@.len()),
{
    let ghost given = batches@;
    let mut columns: Vec<(String, String)> = Vec::new();
    let mut rows: Vec<Vec<String>> = Vec::new();
    proof {
        assert(given.take(0) =~= Seq::<Batch>::empty());
    }
    for batch in it: batches.into_iter()
        invariant
            it.seq() == given,
            columns@ == first_columns(given.take(it.index() as int)),
            rows@ == all_rows(given.take(it.index() as int)),
    {
        let ghost done = given.take(it.index() as int);
        let ghost next = given.take(it.index() + 1);
        proof {
            assert(next.drop_last() =~= done);
            assert(next.last() == batch);
        }
        let Batch { fields, rows: mut batch_rows } = batch;
        if columns.len() == 0 {
            columns = fields;
        }
        rows.append(&mut batch_rows);
    }
    proof {
        assert(given.take(given.len() as int) =~= given);
    }
    let n_columns = columns.len();
    (columns, cap_rows(rows, n_columns))
}

} // verus!
