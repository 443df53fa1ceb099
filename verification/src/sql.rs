//! The SQL statements that store parts in the `parts` table and keep the
//! `keys` table listing its columns.

use vstd::prelude::*;
use crate::text::{pair_view, push_str, remove_char, without_char};

verus! {

/// The SQLite column type a column is created with.
#[derive(Debug, Clone, Copy, PartialEq, Eq, Structural)]
pub enum DbType {
    /// Text values.
    Text,
    /// Booleans, stored as integers.
    Integer,
    /// Floating point values.
    Real,
}

pub open spec fn db_type_name(t: DbType) -> Seq<char> {
    match t {
        DbType::Text => "text"@,
        DbType::Integer => "integer"@,
        DbType::Real => "real"@,
    }
}

impl DbType {
    /// The SQLite name of the type.
    pub fn type_string(&self) -> (r: &'static str)
        ensures
            r@ == db_type_name(*self),
    {
        match self {
            DbType::Text => "text",
            DbType::Integer => "integer",
            DbType::Real => "real",
        }
    }
}

/// No column name occurs twice.
pub open spec fn names_unique(s: Seq<Seq<char>>) -> bool {
    forall|i: int, j: int| 0 <= i < j < s.len() ==> #[trigger] s[i] != #[trigger] s[j]
}

/// The statement that adds column `column` of type `t` to `parts`.
pub open spec fn alter_statement(column: Seq<char>, t: DbType) -> Seq<char> {
    "alter table parts add column \""@ + column + "\" "@ + db_type_name(t)
}

/// The statement that records column `column` in `keys`.
pub open spec fn key_statement(column: Seq<char>) -> Seq<char> {
    "insert into keys (key) values (\""@ + column + "\")"@
}

fn contains_name(columns: &Vec<String>, column: &str) -> (r: bool)
    ensures
        r == columns.deep_view().contains(column@),
{
    let mut i: usize = 0;
    while i < columns.len()
        invariant
            i <= columns.len(),
            forall|j: int| 0 <= j < i ==> #[trigger] columns.deep_view()[j] != column@,
        decreases columns.len() - i,
    {
        if crate::text::same_text(columns[i].as_str(), column) {
            proof {
                assert(columns.deep_view()[i as int] == column@);
            }
            return true;
        }
        i = i + 1;
    }
    false
}

/// The two statements that create column `column` of type `t`: `None` when
/// it is a known column already, as there is nothing to create. The known
/// columns are left as they are; `record_column` adds the column once the
/// statements have run.
pub fn add_column_type(columns: &Vec<String>, column: &str, t: DbType) -> (r: Option<
    (String, String),
>)
    ensures
        r is None <==> columns.deep_view().contains(column@),
        r matches Some(stmts) ==> stmts.0@ == alter_statement(column@, t) && stmts.1@
            == key_statement(column@),
{
    if contains_name(columns, column) {
        return None;
    }
    let mut alter = String::new();
    push_str(&mut alter, "alter table parts add column \"");
    push_str(&mut alter, column);
    push_str(&mut alter, "\" ");
    push_str(&mut alter, t.type_string());
    let mut key = String::new();
    push_str(&mut key, "insert into keys (key) values (\"");
    push_str(&mut key, column);
    push_str(&mut key, "\")");
    proof {
        assert(alter@ =~= alter_statement(column@, t));
        assert(key@ =~= key_statement(column@));
    }
    Some((alter, key))
}

/// The statements that create a text column (see `add_column_type`).
pub fn add_column(columns: &Vec<String>, column: &str) -> (r: Option<(String, String)>)
    ensures
        r is None <==> columns.deep_view().contains(column@),
        r matches Some(stmts) ==> stmts.0@ == alter_statement(column@, DbType::Text) && stmts.1@
            == key_statement(column@),
{
    add_column_type(columns, column, DbType::Text)
}

/// Records that `column` exists, once the statements that create it have
/// succeeded: it is appended to the known columns unless it is known already.
pub fn record_column(columns: &mut Vec<String>, column: String)
    ensures
        final(columns).deep_view() == if old(columns).deep_view().contains(column@) {
            old(columns).deep_view()
        } else {
            old(columns).deep_view().push(column@)
        },
        final(columns).deep_view() == columns_after(old(columns).deep_view(), seq![column@]),
        names_unique(old(columns).deep_view()) ==> names_unique(final(columns).deep_view()),
{
    proof {
        let one = seq![column@];
        assert(one.drop_last() =~= Seq::<Seq<char>>::empty());
        assert(columns_after(columns.deep_view(), one.drop_last()) == columns.deep_view());
        assert(one.last() == column@);
    }
    if contains_name(columns, column.as_str()) {
        return;
    }
    let ghost before = columns.deep_view();
    columns.push(column);
    proof {
        assert(columns.deep_view() =~= before.push(column@));
    }
}

/// The keys of `pairs` that are not among `columns`, in order.
pub open spec fn missing_columns(columns: Seq<Seq<char>>, pairs: Seq<(Seq<char>, Seq<char>)>) -> Seq<
    Seq<char>,
>
    decreases pairs.len(),
{
    if pairs.len() == 0 {
        Seq::empty()
    } else {
        missing_columns(columns, pairs.drop_last()) + if columns.contains(pairs.last().0) {
            Seq::empty()
        } else {
            seq![pairs.last().0]
        }
    }
}

/// The keys of `pairs` that are not yet columns.
pub fn new_columns(columns: &Vec<String>, pairs: &Vec<(String, String)>) -> (r: Vec<String>)
    ensures
        r.deep_view() == missing_columns(
            columns.deep_view(),
            pairs@.map_values(|p: (String, String)| pair_view(p)),
        ),
{
    let ghost ps = pairs@.map_values(|p: (String, String)| pair_view(p));
    let mut r: Vec<String> = Vec::new();
    let mut i: usize = 0;
    while i < pairs.len()
        invariant
            i <= pairs.len(),
            ps == pairs@.map_values(|p: (String, String)| pair_view(p)),
            r.deep_view() == missing_columns(columns.deep_view(), ps.take(i as int)),
        decreases pairs.len() - i,
    {
        let ghost before = r.deep_view();
        proof {
            assert(ps.take(i + 1).drop_last() =~= ps.take(i as int));
            assert(ps.take(i + 1).last() == ps[i as int]);
        }
        if !contains_name(columns, pairs[i].0.as_str()) {
            r.push(pairs[i].0.clone());
            proof {
                assert(r.deep_view() =~= before.push(pairs@[i as int].0@));
            }
        } else {
            proof {
                assert(before + Seq::<Seq<char>>::empty() =~= before);
            }
        }
        i = i + 1;
    }
    proof {
        assert(ps.take(pairs.len() as int) =~= ps);
    }
    r
}

/// The known columns after adding each of `keys` in turn, each unless it
/// is known already: what `record_column` does, one key after the other.
pub open spec fn columns_after(columns: Seq<Seq<char>>, keys: Seq<Seq<char>>) -> Seq<Seq<char>>
    decreases keys.len(),
{
    if keys.len() == 0 {
        columns
    } else {
        let known = columns_after(columns, keys.drop_last());
        if known.contains(keys.last()) {
            known
        } else {
            known.push(keys.last())
        }
    }
}

/// The keys of `pairs`, in order.
pub open spec fn pair_keys(pairs: Seq<(Seq<char>, Seq<char>)>) -> Seq<Seq<char>> {
    pairs.map_values(|p: (Seq<char>, Seq<char>)| p.0)
}

/// Storing a part's pairs creates and records, in turn, each of
/// `missing_columns` (the keys that were not columns, a repeated one
/// included); the known columns come out as if every key of the pairs had
/// been recorded in turn.
pub proof fn lemma_missing_columns_recorded(
    columns: Seq<Seq<char>>,
    pairs: Seq<(Seq<char>, Seq<char>)>,
)
    ensures
        columns_after(columns, missing_columns(columns, pairs)) == columns_after(
            columns,
            pair_keys(pairs),
        ),
    decreases pairs.len(),
{
    if pairs.len() > 0 {
        let rest = pairs.drop_last();
        let k = pairs.last().0;
        lemma_missing_columns_recorded(columns, rest);
        assert(pair_keys(pairs).drop_last() =~= pair_keys(rest));
        assert(pair_keys(pairs).last() == k);
        let known = columns_after(columns, pair_keys(rest));
        if columns.contains(k) {
            assert(missing_columns(columns, pairs) =~= missing_columns(columns, rest));
            lemma_columns_after(columns, pair_keys(rest));
            let m = choose|m: int| 0 <= m < columns.len() && columns[m] == k;
            assert(known.take(columns.len() as int)[m] == k);
            assert(known[m] == k);
        } else {
            let missing = missing_columns(columns, pairs);
            assert(missing.drop_last() =~= missing_columns(columns, rest));
            assert(missing.last() == k);
        }
    }
}

/// What adding the missing columns does to the known columns: the old
/// columns stay first, in their order; after them come the keys that were
/// not columns, each once, in the order of their first occurrence; every key
/// is then a column; and no column is named twice if none was before.
pub proof fn lemma_columns_after(columns: Seq<Seq<char>>, keys: Seq<Seq<char>>)
    ensures
        columns.len() <= columns_after(columns, keys).len(),
        columns_after(columns, keys).take(columns.len() as int) == columns,
        forall|i: int|
            0 <= i < keys.len() ==> columns_after(columns, keys).contains(#[trigger] keys[i]),
        forall|j: int|
            columns.len() <= j < columns_after(columns, keys).len() ==> keys.contains(
                #[trigger] columns_after(columns, keys)[j],
            ) && !columns.contains(columns_after(columns, keys)[j]),
        names_unique(columns) ==> names_unique(columns_after(columns, keys)),
    decreases keys.len(),
{
    if keys.len() > 0 {
        let rest = keys.drop_last();
        lemma_columns_after(columns, rest);
        let known = columns_after(columns, rest);
        let k = keys.last();
        let result = columns_after(columns, keys);
        assert(result.take(columns.len() as int) =~= columns) by {
            assert(known.take(columns.len() as int) == columns);
            if !known.contains(k) {
                assert(known.push(k).take(columns.len() as int) =~= known.take(
                    columns.len() as int,
                ));
            }
        }
        assert forall|i: int| 0 <= i < keys.len() implies result.contains(#[trigger] keys[i]) by {
            if i < keys.len() - 1 {
                assert(keys[i] == rest[i]);
                assert(known.contains(rest[i]));
                let m = choose|m: int| 0 <= m < known.len() && known[m] == rest[i];
                assert(result[m] == keys[i]);
            } else if !known.contains(k) {
                assert(result[known.len() as int] == k);
            }
        }
        assert forall|j: int| columns.len() <= j < result.len() implies keys.contains(
            #[trigger] result[j],
        ) && !columns.contains(result[j]) by {
            if j < known.len() {
                assert(result[j] == known[j]);
                let m = choose|m: int| 0 <= m < rest.len() && rest[m] == known[j];
                assert(keys[m] == rest[m]);
            } else {
                assert(result[j] == k);
                assert(keys[keys.len() - 1] == k);
                if columns.contains(k) {
                    let m = choose|m: int| 0 <= m < columns.len() && columns[m] == k;
                    assert(known.take(columns.len() as int)[m] == k);
                    assert(known[m] == k);
                }
            }
        }
    }
}

/// A value as stored: its double quotes removed.
pub open spec fn stored_value(v: Seq<char>) -> Seq<char> {
    without_char(v, '"')
}

/// The `SET` list of an update: `"key"="value" ` per pair, separated by `, `.
pub open spec fn update_assignments(pairs: Seq<(Seq<char>, Seq<char>)>) -> Seq<char>
    decreases pairs.len(),
{
    if pairs.len() == 0 {
        Seq::empty()
    } else {
        update_assignments(pairs.drop_last()) + (if pairs.len() > 1 {
            ", "@
        } else {
            Seq::empty()
        }) + "\""@ + pairs.last().0 + "\"=\""@ + stored_value(pairs.last().1) + "\" "@
    }
}

/// `, "key"` for each pair.
pub open spec fn insert_columns(pairs: Seq<(Seq<char>, Seq<char>)>) -> Seq<char>
    decreases pairs.len(),
{
    if pairs.len() == 0 {
        Seq::empty()
    } else {
        insert_columns(pairs.drop_last()) + ", \""@ + pairs.last().0 + "\""@
    }
}

/// `, "value"` for each pair.
pub open spec fn insert_values(pairs: Seq<(Seq<char>, Seq<char>)>) -> Seq<char>
    decreases pairs.len(),
{
    if pairs.len() == 0 {
        Seq::empty()
    } else {
        insert_values(pairs.drop_last()) + ", \""@ + stored_value(pairs.last().1) + "\""@
    }
}

/// The statement that stores the pairs of part `part_number`: an update of
/// its row when it exists, an insertion of a new row otherwise.
pub open spec fn save_statement(
    part_number: Seq<char>,
    pairs: Seq<(Seq<char>, Seq<char>)>,
    exists: bool,
) -> Seq<char> {
    if exists {
        "UPDATE parts SET "@ + update_assignments(pairs) + " WHERE part_number = \""@ + part_number
            + "\""@
    } else {
        "INSERT INTO parts (part_number"@ + insert_columns(pairs) + ") values (\""@ + part_number
            + "\""@ + insert_values(pairs) + ")"@
    }
}

/// The statement that stores the pairs of a part; `None` where there are no
/// pairs, as then nothing is stored.
pub fn save_pairs_statement(part_number: &str, pairs: &Vec<(String, String)>, exists: bool) -> (r:
    Option<String>)
    ensures
        pairs@.len() == 0 <==> r is None,
        r matches Some(s) ==> s@ == save_statement(
            part_number@,
            pairs@.map_values(|p: (String, String)| pair_view(p)),
            exists,
        ),
{
    if pairs.len() == 0 {
        return None;
    }
    let ghost ps = pairs@.map_values(|p: (String, String)| pair_view(p));
    let mut statement = String::new();
    if exists {
        push_str(&mut statement, "UPDATE parts SET ");
        let ghost head = statement@;
        let mut i: usize = 0;
        while i < pairs.len()
            invariant
                i <= pairs.len(),
                ps == pairs@.map_values(|p: (String, String)| pair_view(p)),
                statement@ == head + update_assignments(ps.take(i as int)),
            decreases pairs.len() - i,
        {
            let ghost before = statement@;
            if i != 0 {
                push_str(&mut statement, ", ");
            }
            let value = remove_char(pairs[i].1.as_str(), '"');
            push_str(&mut statement, "\"");
            push_str(&mut statement, pairs[i].0.as_str());
            push_str(&mut statement, "\"=\"");
            push_str(&mut statement, value.as_str());
            push_str(&mut statement, "\" ");
            proof {
                let t = ps.take(i + 1);
                assert(t.drop_last() =~= ps.take(i as int));
                assert(t.last() == ps[i as int]);
                assert(statement@ =~= head + update_assignments(t));
            }
            i = i + 1;
        }
        push_str(&mut statement, " WHERE part_number = \"");
        push_str(&mut statement, part_number);
        push_str(&mut statement, "\"");
        proof {
            assert(ps.take(pairs.len() as int) =~= ps);
            assert(statement@ =~= save_statement(part_number@, ps, exists));
        }
    } else {
        push_str(&mut statement, "INSERT INTO parts (part_number");
        let ghost head = statement@;
        let mut i: usize = 0;
        while i < pairs.len()
            invariant
                i <= pairs.len(),
                ps == pairs@.map_values(|p: (String, String)| pair_view(p)),
                statement@ == head + insert_columns(ps.take(i as int)),
            decreases pairs.len() - i,
        {
            push_str(&mut statement, ", \"");
            push_str(&mut statement, pairs[i].0.as_str());
            push_str(&mut statement, "\"");
            proof {
                let t = ps.take(i + 1);
                assert(t.drop_last() =~= ps.take(i as int));
                assert(t.last() == ps[i as int]);
                assert(statement@ =~= head + insert_columns(t));
            }
            i = i + 1;
        }
        push_str(&mut statement, ") values (\"");
        push_str(&mut statement, part_number);
        push_str(&mut statement, "\"");
        let ghost middle = statement@;
        let mut k: usize = 0;
        while k < pairs.len()
            invariant
                k <= pairs.len(),
                ps == pairs@.map_values(|p: (String, String)| pair_view(p)),
                statement@ == middle + insert_values(ps.take(k as int)),
            decreases pairs.len() - k,
        {
            let value = remove_char(pairs[k].1.as_str(), '"');
            push_str(&mut statement, ", \"");
            push_str(&mut statement, value.as_str());
            push_str(&mut statement, "\"");
            proof {
                let t = ps.take(k + 1);
                assert(t.drop_last() =~= ps.take(k as int));
                assert(t.last() == ps[k as int]);
                assert(statement@ =~= middle + insert_values(t));
            }
            k = k + 1;
        }
        push_str(&mut statement, ")");
        proof {
            assert(ps.take(pairs.len() as int) =~= ps);
            assert(statement@ =~= save_statement(part_number@, ps, exists));
        }
    }
    Some(statement)
}

/// A stored value holds no double quote, so it cannot end the quoted SQL
/// string it is written into.
pub proof fn lemma_stored_value_unquoted(v: Seq<char>)
    ensures
        !stored_value(v).contains('"'),
    decreases v.len(),
{
    if v.len() > 0 {
        lemma_stored_value_unquoted(v.drop_last());
        let w = stored_value(v.drop_last());
        if v.last() != '"' {
            assert forall|i: int| 0 <= i < w.push(v.last()).len() implies w.push(v.last())[i]
                != '"' by {
                if i < w.len() {
                    assert(w.push(v.last())[i] == w[i]);
                }
            }
        }
    }
}

/// What storing does to a value, character by character: a double quote is
/// dropped, any other character (a "$" among them) is kept, in order; so a
/// value with no double quote is stored as it is, and the stored text of two
/// pieces is the stored text of each, one after the other.
pub proof fn lemma_stored_value_keeps_other_characters(v: Seq<char>, w: Seq<char>, ch: char)
    ensures
        stored_value(Seq::empty()) == Seq::<char>::empty(),
        stored_value(seq![ch]) == if ch == '"' {
            Seq::<char>::empty()
        } else {
            seq![ch]
        },
        stored_value(v + w) == stored_value(v) + stored_value(w),
        !v.contains('"') ==> stored_value(v) == v,
    decreases w.len(),
{
    assert(seq![ch].drop_last() =~= Seq::<char>::empty());
    if w.len() == 0 {
        assert(v + w =~= v);
        assert(stored_value(w) =~= Seq::<char>::empty());
        assert(stored_value(v) + stored_value(w) =~= stored_value(v));
    } else {
        lemma_stored_value_keeps_other_characters(v, w.drop_last(), ch);
        assert((v + w).drop_last() =~= v + w.drop_last());
        assert((v + w).last() == w.last());
        if w.last() != '"' {
            assert(stored_value(v) + stored_value(w.drop_last()).push(w.last()) =~= (stored_value(
                v,
            ) + stored_value(w.drop_last())).push(w.last()));
        }
    }
    if !v.contains('"') {
        lemma_unquoted_stored_unchanged(v);
    }
}

proof fn lemma_unquoted_stored_unchanged(v: Seq<char>)
    requires
        !v.contains('"'),
    ensures
        stored_value(v) == v,
    decreases v.len(),
{
    if v.len() > 0 {
        assert(v[v.len() - 1] != '"');
        assert(!v.drop_last().contains('"')) by {
            if v.drop_last().contains('"') {
                let k = choose|k: int| 0 <= k < v.drop_last().len() && v.drop_last()[k] == '"';
                assert(v[k] == '"');
            }
        }
        lemma_unquoted_stored_unchanged(v.drop_last());
        assert(v.drop_last().push(v.last()) =~= v);
    }
}

/// The statement that stores one pair `(key, value)` of part `part_number`,
/// written out: the value with its double quotes removed and nothing else
/// changed.
pub proof fn lemma_save_statement_one_pair(
    part_number: Seq<char>,
    key: Seq<char>,
    value: Seq<char>,
)
    ensures
        save_statement(part_number, seq![(key, value)], false) == "INSERT INTO parts (part_number"@
            + ", \""@ + key + "\""@ + ") values (\""@ + part_number + "\""@ + ", \""@
            + stored_value(value) + "\""@ + ")"@,
        save_statement(part_number, seq![(key, value)], true) == "UPDATE parts SET "@ + "\""@
            + key + "\"=\""@ + stored_value(value) + "\" "@ + " WHERE part_number = \""@
            + part_number + "\""@,
        !value.contains('"') ==> stored_value(value) == value,
{
    let one = seq![(key, value)];
    assert(one.drop_last() =~= Seq::<(Seq<char>, Seq<char>)>::empty());
    assert(insert_columns(one.drop_last()) == Seq::<char>::empty());
    assert(insert_values(one.drop_last()) == Seq::<char>::empty());
    assert(one.last() == (key, value));
    assert(Seq::<char>::empty() + ", \""@ + key + "\""@ =~= ", \""@ + key + "\""@);
    assert(Seq::<char>::empty() + ", \""@ + stored_value(value) + "\""@ =~= ", \""@
        + stored_value(value) + "\""@);
    assert(insert_columns(one) =~= ", \""@ + key + "\""@);
    assert(insert_values(one) =~= ", \""@ + stored_value(value) + "\""@);
    assert(update_assignments(one.drop_last()) == Seq::<char>::empty());
    assert(Seq::<char>::empty() + Seq::<char>::empty() + "\""@ + key + "\"=\""@ + stored_value(
        value,
    ) + "\" "@ =~= "\""@ + key + "\"=\""@ + stored_value(value) + "\" "@);
    assert(update_assignments(one) =~= "\""@ + key + "\"=\""@ + stored_value(value) + "\" "@);
    assert(save_statement(part_number, one, false) =~= "INSERT INTO parts (part_number"@ + ", \""@
        + key + "\""@ + ") values (\""@ + part_number + "\""@ + ", \""@ + stored_value(value)
        + "\""@ + ")"@);
    assert(save_statement(part_number, one, true) =~= "UPDATE parts SET "@ + "\""@ + key
        + "\"=\""@ + stored_value(value) + "\" "@ + " WHERE part_number = \""@ + part_number
        + "\""@);
    if !value.contains('"') {
        lemma_unquoted_stored_unchanged(value);
    }
}

/// Storing pairs one more: an insertion names the new key after the others
/// and its stored value after theirs; an update of two or more pairs
/// separates each assignment from the one before with ", ".
pub proof fn lemma_save_statement_one_more(
    part_number: Seq<char>,
    pairs: Seq<(Seq<char>, Seq<char>)>,
    key: Seq<char>,
    value: Seq<char>,
)
    ensures
        insert_columns(pairs.push((key, value))) == insert_columns(pairs) + ", \""@ + key
            + "\""@,
        insert_values(pairs.push((key, value))) == insert_values(pairs) + ", \""@ + stored_value(
            value,
        ) + "\""@,
        pairs.len() > 0 ==> update_assignments(pairs.push((key, value))) == update_assignments(
            pairs,
        ) + ", "@ + "\""@ + key + "\"=\""@ + stored_value(value) + "\" "@,
        save_statement(part_number, pairs.push((key, value)), false) == "INSERT INTO parts (part_number"@
            + insert_columns(pairs) + ", \""@ + key + "\""@ + ") values (\""@ + part_number
            + "\""@ + insert_values(pairs) + ", \""@ + stored_value(value) + "\""@ + ")"@,
{
    let more = pairs.push((key, value));
    assert(more.drop_last() =~= pairs);
    assert(more.last() == (key, value));
    assert(insert_columns(more) =~= insert_columns(pairs) + ", \""@ + key + "\""@);
    assert(insert_values(more) =~= insert_values(pairs) + ", \""@ + stored_value(value) + "\""@);
    if pairs.len() > 0 {
        assert(update_assignments(more) =~= update_assignments(pairs) + ", "@ + "\""@ + key
            + "\"=\""@ + stored_value(value) + "\" "@);
    }
    assert(save_statement(part_number, more, false) =~= "INSERT INTO parts (part_number"@
        + insert_columns(pairs) + ", \""@ + key + "\""@ + ") values (\""@ + part_number + "\""@
        + insert_values(pairs) + ", \""@ + stored_value(value) + "\""@ + ")"@);
}

/// The statements that create a column, written out for each type.
pub proof fn lemma_column_statements(column: Seq<char>)
    ensures
        alter_statement(column, DbType::Text) == "alter table parts add column \""@ + column
            + "\" "@ + "text"@,
        alter_statement(column, DbType::Integer) == "alter table parts add column \""@ + column
            + "\" "@ + "integer"@,
        alter_statement(column, DbType::Real) == "alter table parts add column \""@ + column
            + "\" "@ + "real"@,
        key_statement(column) == "insert into keys (key) values (\""@ + column + "\")"@,
{
}

/// Only keys of the pairs that are not columns yet are missing, in the
/// order the pairs give them.
pub proof fn lemma_missing_columns_are_new_keys(
    columns: Seq<Seq<char>>,
    pairs: Seq<(Seq<char>, Seq<char>)>,
    k: int,
)
    requires
        0 <= k < missing_columns(columns, pairs).len(),
    ensures
        !columns.contains(missing_columns(columns, pairs)[k]),
        exists|i: int| 0 <= i < pairs.len() && #[trigger] pairs[i].0 == missing_columns(columns, pairs)[k],
    decreases pairs.len(),
{
    let before = missing_columns(columns, pairs.drop_last());
    if k < before.len() {
        lemma_missing_columns_are_new_keys(columns, pairs.drop_last(), k);
        assert(missing_columns(columns, pairs)[k] == before[k]);
        let i = choose|i: int| 0 <= i < pairs.drop_last().len() && #[trigger] pairs.drop_last()[i].0 == before[k];
        assert(pairs[i] == pairs.drop_last()[i]);
    } else {
        assert(missing_columns(columns, pairs)[k] == pairs.last().0);
        assert(pairs[pairs.len() - 1] == pairs.last());
    }
}

/// Adding the missing columns leaves no key of the pairs without a column:
/// every key is a known column or one of those to add.
pub proof fn lemma_missing_columns_cover(
    columns: Seq<Seq<char>>,
    pairs: Seq<(Seq<char>, Seq<char>)>,
    i: int,
)
    requires
        0 <= i < pairs.len(),
    ensures
        columns.contains(pairs[i].0) || missing_columns(columns, pairs).contains(pairs[i].0),
    decreases pairs.len(),
{
    let before = missing_columns(columns, pairs.drop_last());
    if i < pairs.len() - 1 {
        lemma_missing_columns_cover(columns, pairs.drop_last(), i);
        assert(pairs.drop_last()[i] == pairs[i]);
        if before.contains(pairs[i].0) {
            let k = choose|k: int| 0 <= k < before.len() && before[k] == pairs[i].0;
            assert(missing_columns(columns, pairs)[k] == pairs[i].0);
        }
    } else if !columns.contains(pairs[i].0) {
        assert(missing_columns(columns, pairs)[before.len() as int] == pairs[i].0);
    }
}

} // verus!
