//! Turning the rows of an SQL query into comma separated lines: which
//! columns are shown, in which order, and how each value is rendered.

use vstd::prelude::*;
use vstd::utf8::{decode_utf8, valid_utf8};
use linked_hash_set::LinkedHashSet;
use crate::text::{decimal, int_decimal, push_str};

verus! {

#[verifier::external_type_specification]
#[verifier::external_body]
#[verifier::reject_recursive_types(T)]
#[verifier::reject_recursive_types(S)]
pub struct ExLinkedHashSet<T, S>(LinkedHashSet<T, S>);

/// Holds for every name but `name`.
pub open spec fn other_than(name: Seq<char>) -> spec_fn(Seq<char>) -> bool {
    |x: Seq<char>| x != name
}

proof fn lemma_filter_absent(s: Seq<Seq<char>>, x: Seq<char>)
    requires
        !s.contains(x),
    ensures
        s.filter(other_than(x)) == s,
    decreases s.len(),
{
    reveal(Seq::filter);
    if s.len() > 0 {
        assert(!s.drop_last().contains(x)) by {
            if s.drop_last().contains(x) {
                let k = choose|k: int| 0 <= k < s.drop_last().len() && s.drop_last()[k] == x;
                assert(s[k] == x);
            }
        }
        lemma_filter_absent(s.drop_last(), x);
        assert(s.drop_last().push(s.last()) =~= s);
    }
}

/// The elements of a set of column names, in their order in the set.
pub uninterp spec fn column_set_items(set: LinkedHashSet<String>) -> Seq<Seq<char>>;

/// `LinkedHashSet::new`: an empty set.
#[verifier::external_body]
fn new_column_set() -> (s: LinkedHashSet<String>)
    ensures
        column_set_items(s) == Seq::<Seq<char>>::empty(),
{
    LinkedHashSet::new()
}

/// `LinkedHashSet::contains`: whether the set holds `name`.
#[verifier::external_body]
fn column_set_contains(set: &LinkedHashSet<String>, name: &str) -> (r: bool)
    ensures
        r == column_set_items(*set).contains(name@),
{
    set.contains(name)
}

/// `LinkedHashSet::insert`: puts `name` at the end of the order (taking it
/// out of its old place, if it was there); true when it was not there.
#[verifier::external_body]
fn column_set_insert(set: &mut LinkedHashSet<String>, name: String) -> (r: bool)
    ensures
        r == !column_set_items(*old(set)).contains(name@),
        column_set_items(*final(set)) == column_set_items(*old(set)).filter(other_than(name@)).push(
            name@,
        ),
{
    set.insert(name)
}

/// `LinkedHashSet::iter`: the elements, in order, copied out.
#[verifier::external_body]
fn column_set_to_vec(set: &LinkedHashSet<String>) -> (r: Vec<String>)
    ensures
        r.deep_view() == column_set_items(*set),
{
    set.iter().cloned().collect()
}

/// `std::str::from_utf8`: the text the bytes encode, where they are valid UTF-8.
#[verifier::external_body]
fn utf8_text(bytes: &[u8]) -> (r: Option<String>)
    ensures
        r is Some <==> valid_utf8(bytes@),
        r matches Some(s) ==> s@ == decode_utf8(bytes@),
{
    match std::str::from_utf8(bytes) {
        Ok(s) => Some(s.to_string()),
        Err(_) => None,
    }
}

/// A value of a query result.
pub enum QueryValue {
    Null,
    Blob,
    Integer(i64),
    /// A floating point value, as the text `Display` gives for it.
    Real(String),
    /// Text, as the bytes stored.
    Text(Vec<u8>),
}

/// How a value is shown; `None` for text that is not valid UTF-8.
pub open spec fn rendered(v: QueryValue) -> Option<Seq<char>> {
    match v {
        QueryValue::Null => Some(Seq::empty()),
        QueryValue::Blob => Some("[BLOB]"@),
        QueryValue::Integer(i) => Some(int_decimal(i as int)),
        QueryValue::Real(s) => Some(s@),
        QueryValue::Text(b) => if valid_utf8(b@) {
            Some(decode_utf8(b@))
        } else {
            None
        },
    }
}

fn render(v: &QueryValue) -> (r: Option<String>)
    ensures
        r.deep_view() == rendered(*v),
{
    match v {
        QueryValue::Null => Some(String::new()),
        QueryValue::Blob => Some("[BLOB]".to_owned()),
        QueryValue::Integer(i) => Some(decimal(*i as i128)),
        QueryValue::Real(s) => Some(s.clone()),
        QueryValue::Text(b) => utf8_text(b.as_slice()),
    }
}

/// The cells of all rows, row after row.
pub open spec fn all_cells(rows: Seq<Vec<(String, QueryValue)>>) -> Seq<(String, QueryValue)>
    decreases rows.len(),
{
    if rows.len() == 0 {
        Seq::empty()
    } else {
        all_cells(rows.drop_last()) + rows.last()@
    }
}

/// The columns shown, in the order they are first met: every column that has
/// a value that is not NULL, or every column when NULL columns are kept.
pub open spec fn shown_columns(cells: Seq<(String, QueryValue)>, drop_null_columns: bool) -> Seq<
    Seq<char>,
>
    decreases cells.len(),
{
    if cells.len() == 0 {
        Seq::empty()
    } else {
        let before = shown_columns(cells.drop_last(), drop_null_columns);
        let c = cells.last();
        if (!(c.1 is Null) || !drop_null_columns) && !before.contains(c.0@) {
            before.push(c.0@)
        } else {
            before
        }
    }
}

/// The names of a row's cells.
pub open spec fn row_names(row: Seq<(String, QueryValue)>) -> Seq<Seq<char>> {
    row.map_values(|c: (String, QueryValue)| c.0@)
}

/// The value a row shows under `name`: its last cell of that name.
pub open spec fn row_value(row: Seq<(String, QueryValue)>, name: Seq<char>) -> Option<Seq<char>>
    decreases row.len(),
{
    if row.len() == 0 {
        None
    } else if row.last().0@ == name {
        rendered(row.last().1)
    } else {
        row_value(row.drop_last(), name)
    }
}

/// Values joined by ", ".
pub open spec fn csv_join(values: Seq<Seq<char>>) -> Seq<char>
    decreases values.len(),
{
    if values.len() == 0 {
        Seq::empty()
    } else if values.len() == 1 {
        values[0]
    } else {
        csv_join(values.drop_last()) + ", "@ + values.last()
    }
}

/// A line of comma separated values.
pub fn csv_line(values: &Vec<String>) -> (r: String)
    ensures
        r@ == csv_join(values.deep_view()),
{
    let ghost vs = values.deep_view();
    let mut r = String::new();
    let mut i: usize = 0;
    while i < values.len()
        invariant
            i <= values.len(),
            vs == values.deep_view(),
            r@ == csv_join(vs.take(i as int)),
        decreases values.len() - i,
    {
        if i > 0 {
            push_str(&mut r, ", ");
        }
        push_str(&mut r, values[i].as_str());
        proof {
            let t = vs.take(i + 1);
            assert(t.drop_last() =~= vs.take(i as int));
            assert(t.last() == vs[i as int]);
            if i == 0 {
                assert(r@ =~= t[0]);
            }
            assert(r@ =~= csv_join(t));
        }
        i = i + 1;
    }
    proof {
        assert(vs.take(values.len() as int) =~= vs);
    }
    r
}

/// Every cell's value renders.
pub open spec fn all_render(rows: Seq<Vec<(String, QueryValue)>>) -> bool {
    forall|i: int, j: int|
        0 <= i < rows.len() && 0 <= j < rows[i]@.len() ==> #[trigger] rendered(rows[i]@[j].1)
            is Some
}

/// The values of a row under the given columns (a column the row lacks,
/// which the rows of one query never do, shows as empty).
pub open spec fn row_line(row: Seq<(String, QueryValue)>, columns: Seq<Seq<char>>) -> Seq<
    Seq<char>,
> {
    columns.map_values(
        |c: Seq<char>|
            match row_value(row, c) {
                Some(v) => v,
                None => Seq::empty(),
            },
    )
}

/// The table a query shows: its columns and, for each row, its values.
pub struct QueryTable {
    pub columns: Vec<String>,
    pub rows: Vec<Vec<String>>,
}

fn row_value_of(row: &Vec<(String, QueryValue)>, name: &String) -> (r: Option<String>)
    ensures
        r.deep_view() == row_value(row@, name@),
{
    let mut i: usize = row.len();
    proof {
        assert(row@.take(row.len() as int) =~= row@);
    }
    while i > 0
        invariant
            i <= row.len(),
            row_value(row@, name@) == row_value(row@.take(i as int), name@),
        decreases i,
    {
        proof {
            assert(row@.take(i as int).drop_last() =~= row@.take(i - 1));
            assert(row@.take(i as int).last() == row@[i - 1]);
        }
        if row[i - 1].0 == *name {
            return render(&row[i - 1].1);
        }
        i = i - 1;
    }
    None
}

/// The table of a query result. Fails exactly where some text value is not
/// valid UTF-8. Every row must have a cell for every column shown, as the
/// rows of one query do.
pub fn query_table(rows: &Vec<Vec<(String, QueryValue)>>, drop_null_columns: bool) -> (r: Result<
    QueryTable,
    (),
>)
    requires
        forall|i: int, c: Seq<char>|
            0 <= i < rows@.len() && #[trigger] shown_columns(all_cells(rows@), drop_null_columns).contains(c)
                ==> #[trigger] row_names(rows@[i]@).contains(c),
    ensures
        r is Ok <==> all_render(rows@),
        r matches Ok(t) ==> {
            &&& t.columns.deep_view() == shown_columns(all_cells(rows@), drop_null_columns)
            &&& t.rows@.len() == rows@.len()
            &&& forall|i: int|
                0 <= i < rows@.len() ==> #[trigger] t.rows@[i].deep_view() == row_line(
                    rows@[i]@,
                    t.columns.deep_view(),
                )
        },
{
    let mut set = new_column_set();
    let mut r: usize = 0;
    while r < rows.len()
        invariant
            r <= rows.len(),
            column_set_items(set) == shown_columns(all_cells(rows@.take(r as int)), drop_null_columns),
            all_render(rows@.take(r as int)),
        decreases rows.len() - r,
    {
        let row = &rows[r];
        let ghost done = all_cells(rows@.take(r as int));
        let mut c: usize = 0;
        while c < row.len()
            invariant
                c <= row.len(),
                r < rows@.len(),
                row@ == rows@[r as int]@,
                column_set_items(set) == shown_columns(done + row@.take(c as int), drop_null_columns),
                forall|j: int| 0 <= j < c ==> #[trigger] rendered(row@[j].1) is Some,
            decreases row.len() - c,
        {
            proof {
                assert((done + row@.take(c + 1)).drop_last() =~= done + row@.take(c as int));
                assert((done + row@.take(c + 1)).last() == row@[c as int]);
            }
            let shown = match render(&row[c].1) {
                Some(_) => true,
                None => {
                    proof {
                        assert(!all_render(rows@)) by {
                            assert(rendered(rows@[r as int]@[c as int].1) is None);
                        }
                    }
                    return Err(());
                },
            };
            let is_null = match &row[c].1 {
                QueryValue::Null => true,
                _ => false,
            };
            if (!is_null || !drop_null_columns) && !column_set_contains(&set, row[c].0.as_str()) {
                let _ = column_set_insert(&mut set, row[c].0.clone());
                proof {
                    lemma_filter_absent(
                        shown_columns(done + row@.take(c as int), drop_null_columns),
                        row@[c as int].0@,
                    );
                }
            }
            c = c + 1;
        }
        proof {
            assert(row@.take(row.len() as int) =~= row@);
            assert(rows@.take(r + 1).drop_last() =~= rows@.take(r as int));
            assert(rows@.take(r + 1).last() == rows@[r as int]);
            assert forall|i: int, j: int|
                0 <= i < rows@.take(r + 1).len() && 0 <= j < rows@.take(r + 1)[i]@.len()
                implies #[trigger] rendered(rows@.take(r + 1)[i]@[j].1) is Some by {
                if i < r {
                    assert(rows@.take(r + 1)[i] == rows@.take(r as int)[i]);
                }
            }
        }
        r = r + 1;
    }
    proof {
        assert(rows@.take(rows.len() as int) =~= rows@);
    }
    let columns = column_set_to_vec(&set);
    let mut lines: Vec<Vec<String>> = Vec::new();
    let mut i: usize = 0;
    while i < rows.len()
        invariant
            i <= rows.len(),
            all_render(rows@),
            columns.deep_view() == shown_columns(all_cells(rows@), drop_null_columns),
            lines@.len() == i,
            forall|k: int|
                0 <= k < i ==> #[trigger] lines@[k].deep_view() == row_line(
                    rows@[k]@,
                    columns.deep_view(),
                ),
        decreases rows.len() - i,
    {
        let mut values: Vec<String> = Vec::new();
        let mut c: usize = 0;
        while c < columns.len()
            invariant
                c <= columns.len(),
                i < rows.len(),
                values.deep_view() == row_line(rows@[i as int]@, columns.deep_view()).take(c as int),
            decreases columns.len() - c,
        {
            let v = row_value_of(&rows[i], &columns[c]);
            let text = match v {
                Some(t) => t,
                None => String::new(),
            };
            let ghost before = values.deep_view();
            values.push(text);
            proof {
                let line = row_line(rows@[i as int]@, columns.deep_view());
                assert(columns.deep_view()[c as int] == columns@[c as int]@);
                assert(line[c as int] == text@);
                assert(values.deep_view() =~= before.push(text@));
                assert(values.deep_view() =~= row_line(rows@[i as int]@, columns.deep_view()).take(
                    c + 1,
                ));
            }
            c = c + 1;
        }
        proof {
            assert(row_line(rows@[i as int]@, columns.deep_view()).take(columns.len() as int)
                =~= row_line(rows@[i as int]@, columns.deep_view()));
        }
        lines.push(values);
        i = i + 1;
    }
    Ok(QueryTable { columns, rows: lines })
}

/// With NULL columns dropped, every column shown has a value that is not NULL.
pub proof fn lemma_dropped_columns_have_values(cells: Seq<(String, QueryValue)>, name: Seq<char>)
    requires
        shown_columns(cells, true).contains(name),
    ensures
        exists|j: int| 0 <= j < cells.len() && #[trigger] cells[j].0@ == name && !(cells[j].1 is Null),
    decreases cells.len(),
{
    let before = shown_columns(cells.drop_last(), true);
    if before.contains(name) {
        lemma_dropped_columns_have_values(cells.drop_last(), name);
        let j = choose|j: int|
            0 <= j < cells.drop_last().len() && #[trigger] cells.drop_last()[j].0@ == name && !(
            cells.drop_last()[j].1 is Null);
        assert(cells[j] == cells.drop_last()[j]);
    } else {
        let k = choose|k: int| 0 <= k < shown_columns(cells, true).len() && shown_columns(cells, true)[k] == name;
        assert(cells[cells.len() - 1].0@ == name);
    }
}

/// With NULL columns kept, every column of every cell is shown.
pub proof fn lemma_kept_columns_all_shown(cells: Seq<(String, QueryValue)>, j: int)
    requires
        0 <= j < cells.len(),
    ensures
        shown_columns(cells, false).contains(cells[j].0@),
    decreases cells.len(),
{
    let before = shown_columns(cells.drop_last(), false);
    if j < cells.len() - 1 {
        lemma_kept_columns_all_shown(cells.drop_last(), j);
        assert(cells.drop_last()[j] == cells[j]);
        let k = choose|k: int| 0 <= k < before.len() && before[k] == cells[j].0@;
        if !before.contains(cells.last().0@) {
            assert(before.push(cells.last().0@)[k] == cells[j].0@);
        }
    } else {
        if before.contains(cells.last().0@) {
        } else {
            assert(before.push(cells.last().0@)[before.len() as int] == cells.last().0@);
        }
    }
}

/// No column is shown twice.
pub proof fn lemma_shown_columns_unique(cells: Seq<(String, QueryValue)>, drop_null_columns: bool)
    ensures
        crate::sql::names_unique(shown_columns(cells, drop_null_columns)),
    decreases cells.len(),
{
    if cells.len() > 0 {
        lemma_shown_columns_unique(cells.drop_last(), drop_null_columns);
    }
}

} // verus!
