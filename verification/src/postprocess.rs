//! Post-processing: which columns get a typed `pp_` copy, how each value is
//! read for it, and the statements that read and write them.
//!
//! Turning the numeric text into a floating point number happens outside
//! this library.

use vstd::prelude::*;
use crate::pattern::{
    regex_capture, regex_group, PRICE_PATTERN, RESISTANCE_PATTERN, VOLTAGE_PATTERN,
};
use crate::sql::DbType;
use crate::text::{
    concat_text, contains_seq, ends_with, has_prefix, has_substring, has_suffix, push_str, starts_with,
};

verus! {

/// The columns whose text holds a number.
#[derive(Debug, Clone, Copy, PartialEq, Eq, Structural)]
pub enum NumericColumn {
    Resistance,
    Price,
    Voltage,
}

/// How a column is post-processed.
#[derive(Debug, Clone, Copy, PartialEq, Eq, Structural)]
pub enum PostProcessKind {
    /// `true`/`false` become 1/0.
    Basic,
    /// The number at the start of the text.
    Numeric(NumericColumn),
}

/// The type of the `pp_` column a kind of post-processing fills.
pub open spec fn kind_db_type(kind: PostProcessKind) -> DbType {
    match kind {
        PostProcessKind::Basic => DbType::Integer,
        PostProcessKind::Numeric(_) => DbType::Real,
    }
}

impl PostProcessKind {
    pub fn db_type(&self) -> (r: DbType)
        ensures
            r == kind_db_type(*self),
    {
        match self {
            PostProcessKind::Basic => DbType::Integer,
            PostProcessKind::Numeric(_) => DbType::Real,
        }
    }
}

/// One column to post-process.
pub struct PostProcessStep {
    pub column: String,
    pub kind: PostProcessKind,
}

pub open spec fn step_view(s: PostProcessStep) -> (Seq<char>, PostProcessKind) {
    (s.column@, s.kind)
}

/// The columns to process with `kind`: those of `columns` that `pick` selects.
pub open spec fn picked(
    columns: Seq<Seq<char>>,
    pick: spec_fn(Seq<char>) -> bool,
    kind: PostProcessKind,
) -> Seq<(Seq<char>, PostProcessKind)>
    decreases columns.len(),
{
    if columns.len() == 0 {
        Seq::empty()
    } else {
        picked(columns.drop_last(), pick, kind) + if pick(columns.last()) {
            seq![(columns.last(), kind)]
        } else {
            Seq::empty()
        }
    }
}

/// Price columns: not already post-processed, named "Price...".
pub open spec fn is_price_column(c: Seq<char>) -> bool {
    !starts_with(c, "pp_"@) && starts_with(c, "Price"@)
}

/// Voltage columns: not already post-processed, with "Voltage" in the name.
pub open spec fn is_voltage_column(c: Seq<char>) -> bool {
    !starts_with(c, "pp_"@) && contains_seq(c, "Voltage"@)
}

/// The post-processing steps, in the order they run: "Basic", then
/// "Resistance (Ohms)", then every price column, then every voltage column,
/// the columns in the order they are known.
pub open spec fn plan(columns: Seq<Seq<char>>) -> Seq<(Seq<char>, PostProcessKind)> {
    seq![
        ("Basic"@, PostProcessKind::Basic),
        ("Resistance (Ohms)"@, PostProcessKind::Numeric(NumericColumn::Resistance)),
    ] + picked(
        columns,
        |c: Seq<char>| is_price_column(c),
        PostProcessKind::Numeric(NumericColumn::Price),
    ) + picked(
        columns,
        |c: Seq<char>| is_voltage_column(c),
        PostProcessKind::Numeric(NumericColumn::Voltage),
    )
}

fn is_price(c: &str) -> (r: bool)
    ensures
        r == is_price_column(c@),
{
    !has_prefix(c, "pp_") && has_prefix(c, "Price")
}

fn is_voltage(c: &str) -> (r: bool)
    ensures
        r == is_voltage_column(c@),
{
    !has_prefix(c, "pp_") && has_substring(c, "Voltage")
}

fn push_picked(out: &mut Vec<PostProcessStep>, columns: &Vec<String>, kind: PostProcessKind)
    requires
        kind == PostProcessKind::Numeric(NumericColumn::Price) || kind == PostProcessKind::Numeric(
            NumericColumn::Voltage,
        ),
    ensures
        final(out)@.map_values(|s: PostProcessStep| step_view(s)) == old(out)@.map_values(
            |s: PostProcessStep| step_view(s),
        ) + if kind == PostProcessKind::Numeric(NumericColumn::Price) {
            picked(columns.deep_view(), |c: Seq<char>| is_price_column(c), kind)
        } else {
            picked(columns.deep_view(), |c: Seq<char>| is_voltage_column(c), kind)
        },
{
    let ghost pick = if kind == PostProcessKind::Numeric(NumericColumn::Price) {
        |c: Seq<char>| is_price_column(c)
    } else {
        |c: Seq<char>| is_voltage_column(c)
    };
    let ghost start = out@.map_values(|s: PostProcessStep| step_view(s));
    let ghost cs = columns.deep_view();
    let mut i: usize = 0;
    while i < columns.len()
        invariant
            i <= columns.len(),
            cs == columns.deep_view(),
            pick == if kind == PostProcessKind::Numeric(NumericColumn::Price) {
                |c: Seq<char>| is_price_column(c)
            } else {
                |c: Seq<char>| is_voltage_column(c)
            },
            kind == PostProcessKind::Numeric(NumericColumn::Price) || kind
                == PostProcessKind::Numeric(NumericColumn::Voltage),
            out@.map_values(|s: PostProcessStep| step_view(s)) == start + picked(
                cs.take(i as int),
                pick,
                kind,
            ),
        decreases columns.len() - i,
    {
        let ghost before = out@.map_values(|s: PostProcessStep| step_view(s));
        let c = columns[i].as_str();
        let chosen = match kind {
            PostProcessKind::Numeric(NumericColumn::Price) => is_price(c),
            _ => is_voltage(c),
        };
        proof {
            let t = cs.take(i + 1);
            assert(t.drop_last() =~= cs.take(i as int));
            assert(t.last() == cs[i as int]);
            assert(chosen == pick(cs[i as int]));
        }
        if chosen {
            out.push(PostProcessStep { column: columns[i].clone(), kind });
            proof {
                assert(out@.map_values(|s: PostProcessStep| step_view(s)) =~= before.push(
                    (cs[i as int], kind),
                ));
            }
        }
        proof {
            assert(out@.map_values(|s: PostProcessStep| step_view(s)) =~= start + picked(
                cs.take(i + 1),
                pick,
                kind,
            ));
        }
        i = i + 1;
    }
    proof {
        assert(cs.take(columns.len() as int) =~= cs);
    }
}

/// The post-processing steps for the known columns (see `plan`).
pub fn post_process_plan(columns: &Vec<String>) -> (r: Vec<PostProcessStep>)
    ensures
        r@.map_values(|s: PostProcessStep| step_view(s)) == plan(columns.deep_view()),
{
    let mut r: Vec<PostProcessStep> = Vec::new();
    r.push(PostProcessStep { column: "Basic".to_owned(), kind: PostProcessKind::Basic });
    r.push(
        PostProcessStep {
            column: "Resistance (Ohms)".to_owned(),
            kind: PostProcessKind::Numeric(NumericColumn::Resistance),
        },
    );
    proof {
        assert(r@.map_values(|s: PostProcessStep| step_view(s)) =~= seq![
            ("Basic"@, PostProcessKind::Basic),
            ("Resistance (Ohms)"@, PostProcessKind::Numeric(NumericColumn::Resistance)),
        ]);
    }
    push_picked(&mut r, columns, PostProcessKind::Numeric(NumericColumn::Price));
    push_picked(&mut r, columns, PostProcessKind::Numeric(NumericColumn::Voltage));
    r
}

/// The name of the post-processed copy of `column`.
pub open spec fn pp_name(column: Seq<char>) -> Seq<char> {
    "pp_"@ + column
}

pub fn pp_column(column: &str) -> (r: String)
    ensures
        r@ == pp_name(column@),
{
    concat_text("pp_", column)
}

/// The query that reads a column for post-processing.
pub open spec fn select_statement(column: Seq<char>) -> Seq<char> {
    "SELECT part_number, \""@ + column + "\" FROM parts"@
}

pub fn select_column_statement(column: &str) -> (r: String)
    ensures
        r@ == select_statement(column@),
{
    let mut r = String::new();
    push_str(&mut r, "SELECT part_number, \"");
    push_str(&mut r, column);
    push_str(&mut r, "\" FROM parts");
    proof {
        assert(r@ =~= select_statement(column@));
    }
    r
}

/// The statement that writes a post-processed value; the value is written
/// as it is, unquoted.
pub open spec fn update_statement(pp: Seq<char>, output: Seq<char>, part_number: Seq<char>) -> Seq<
    char,
> {
    "\n                UPDATE parts SET \""@ + pp + "\" = "@ + output
        + "\n                WHERE part_number = \""@ + part_number + "\""@
}

pub fn update_pp_statement(pp: &str, output: &str, part_number: &str) -> (r: String)
    ensures
        r@ == update_statement(pp@, output@, part_number@),
{
    let mut r = String::new();
    push_str(&mut r, "\n                UPDATE parts SET \"");
    push_str(&mut r, pp);
    push_str(&mut r, "\" = ");
    push_str(&mut r, output);
    push_str(&mut r, "\n                WHERE part_number = \"");
    push_str(&mut r, part_number);
    push_str(&mut r, "\"");
    proof {
        assert(r@ =~= update_statement(pp@, output@, part_number@));
    }
    r
}

/// The post-processed value of the "Basic" column: 1 for "true", 0 for
/// "false", nothing for any other text or no value.
pub open spec fn basic_flag(value: Option<Seq<char>>) -> Option<Seq<char>> {
    match value {
        Some(v) => if v == "true"@ {
            Some("1"@)
        } else if v == "false"@ {
            Some("0"@)
        } else {
            None
        },
        None => None,
    }
}

pub fn basic_flag_value(value: Option<String>) -> (r: Option<String>)
    ensures
        r.deep_view() == basic_flag(value.deep_view()),
{
    match value {
        Some(v) => {
            if crate::text::same_text(v.as_str(), "true") {
                Some("1".to_owned())
            } else if crate::text::same_text(v.as_str(), "false") {
                Some("0".to_owned())
            } else {
                None
            }
        },
        None => None,
    }
}

/// The expression the text of a numeric column is read with.
pub open spec fn numeric_pattern(c: NumericColumn) -> Seq<char> {
    match c {
        NumericColumn::Resistance => RESISTANCE_PATTERN@,
        NumericColumn::Price => PRICE_PATTERN@,
        NumericColumn::Voltage => VOLTAGE_PATTERN@,
    }
}

/// The number text of a value of a numeric column: the first capture group
/// of the column's expression.
pub fn number_text(c: NumericColumn, value: &str) -> (r: Option<String>)
    ensures
        r.deep_view() == regex_group(numeric_pattern(c), value@, 1),
{
    match c {
        NumericColumn::Resistance => regex_capture(RESISTANCE_PATTERN, value, 1),
        NumericColumn::Price => regex_capture(PRICE_PATTERN, value, 1),
        NumericColumn::Voltage => regex_capture(VOLTAGE_PATTERN, value, 1),
    }
}

/// The unit a voltage is given in.
#[derive(Debug, Clone, Copy, PartialEq, Eq, Structural)]
pub enum VoltageUnit {
    /// `V` or `Vin`
    Volt,
    /// `mV`, a thousandth of a volt
    Millivolt,
}

/// The unit of a voltage: millivolts where the unit group (group 3) of the
/// voltage expression reads `mV`, volts otherwise.
pub open spec fn voltage_scale(v: Seq<char>) -> VoltageUnit {
    if regex_group(VOLTAGE_PATTERN@, v, 3) == Some("mV"@) {
        VoltageUnit::Millivolt
    } else {
        VoltageUnit::Volt
    }
}

/// The unit a voltage value is given in, so that it can be read in volts.
pub fn voltage_unit(value: &str) -> (r: VoltageUnit)
    ensures
        r == voltage_scale(value@),
{
    match regex_capture(VOLTAGE_PATTERN, value, 3) {
        Some(unit) => {
            if crate::text::same_text(unit.as_str(), "mV") {
                VoltageUnit::Millivolt
            } else {
                VoltageUnit::Volt
            }
        },
        None => VoltageUnit::Volt,
    }
}

/// The SI suffixes a resistance may end with.
#[derive(Debug, Clone, Copy, PartialEq, Eq, Structural)]
pub enum ResistanceSuffix {
    /// `K`, times 10^3
    Kilo,
    /// `M`, times 10^6
    Mega,
    /// `m`, times 10^-3
    Milli,
    /// `u`, times 10^-6
    Micro,
    /// `n`, times 10^-9
    Nano,
}

/// The suffix that scales a resistance: the first of `K`, `M`, `m`, `u`, `n`
/// that the text ends with.
pub open spec fn resistance_scale(v: Seq<char>) -> Option<ResistanceSuffix> {
    if ends_with(v, seq!['K']) {
        Some(ResistanceSuffix::Kilo)
    } else if ends_with(v, seq!['M']) {
        Some(ResistanceSuffix::Mega)
    } else if ends_with(v, seq!['m']) {
        Some(ResistanceSuffix::Milli)
    } else if ends_with(v, seq!['u']) {
        Some(ResistanceSuffix::Micro)
    } else if ends_with(v, seq!['n']) {
        Some(ResistanceSuffix::Nano)
    } else {
        None
    }
}

pub fn resistance_suffix(value: &str) -> (r: Option<ResistanceSuffix>)
    ensures
        r == resistance_scale(value@),
{
    proof {
        reveal_strlit("K");
        reveal_strlit("M");
        reveal_strlit("m");
        reveal_strlit("u");
        reveal_strlit("n");
        assert("K"@ =~= seq!['K']);
        assert("M"@ =~= seq!['M']);
        assert("m"@ =~= seq!['m']);
        assert("u"@ =~= seq!['u']);
        assert("n"@ =~= seq!['n']);
    }
    if has_suffix(value, "K") {
        Some(ResistanceSuffix::Kilo)
    } else if has_suffix(value, "M") {
        Some(ResistanceSuffix::Mega)
    } else if has_suffix(value, "m") {
        Some(ResistanceSuffix::Milli)
    } else if has_suffix(value, "u") {
        Some(ResistanceSuffix::Micro)
    } else if has_suffix(value, "n") {
        Some(ResistanceSuffix::Nano)
    } else {
        None
    }
}

proof fn lemma_picked(
    columns: Seq<Seq<char>>,
    pick: spec_fn(Seq<char>) -> bool,
    kind: PostProcessKind,
    k: int,
)
    requires
        0 <= k < picked(columns, pick, kind).len(),
    ensures
        pick(picked(columns, pick, kind)[k].0),
        columns.contains(picked(columns, pick, kind)[k].0),
        picked(columns, pick, kind)[k].1 == kind,
    decreases columns.len(),
{
    let before = picked(columns.drop_last(), pick, kind);
    if k < before.len() {
        lemma_picked(columns.drop_last(), pick, kind, k);
        let c = before[k].0;
        let j = choose|j: int| 0 <= j < columns.drop_last().len() && columns.drop_last()[j] == c;
        assert(columns[j] == c);
    } else {
        assert(columns[columns.len() - 1] == columns.last());
    }
}

/// Post-processing never takes a `pp_` column as its input: every price or
/// voltage step is on a known column whose name does not start with "pp_".
pub proof fn lemma_plan_skips_processed_columns(columns: Seq<Seq<char>>, i: int)
    requires
        2 <= i < plan(columns).len(),
    ensures
        !starts_with(plan(columns)[i].0, "pp_"@),
        columns.contains(plan(columns)[i].0),
{
    let head: Seq<(Seq<char>, PostProcessKind)> = seq![
        ("Basic"@, PostProcessKind::Basic),
        ("Resistance (Ohms)"@, PostProcessKind::Numeric(NumericColumn::Resistance)),
    ];
    let price_pick = |c: Seq<char>| is_price_column(c);
    let voltage_pick = |c: Seq<char>| is_voltage_column(c);
    let prices = picked(columns, price_pick, PostProcessKind::Numeric(NumericColumn::Price));
    let volts = picked(columns, voltage_pick, PostProcessKind::Numeric(NumericColumn::Voltage));
    assert(plan(columns) == head + prices + volts);
    if i < 2 + prices.len() {
        lemma_picked(columns, price_pick, PostProcessKind::Numeric(NumericColumn::Price), i - 2);
        assert(plan(columns)[i] == prices[i - 2]);
    } else {
        lemma_picked(
            columns,
            voltage_pick,
            PostProcessKind::Numeric(NumericColumn::Voltage),
            i - 2 - prices.len(),
        );
        assert(plan(columns)[i] == volts[i - 2 - prices.len()]);
    }
}

/// Columns that `pick` does not select change nothing of what is picked.
proof fn lemma_picked_ignores(
    columns: Seq<Seq<char>>,
    added: Seq<Seq<char>>,
    pick: spec_fn(Seq<char>) -> bool,
    kind: PostProcessKind,
)
    requires
        forall|i: int| 0 <= i < added.len() ==> !pick(#[trigger] added[i]),
    ensures
        picked(columns + added, pick, kind) == picked(columns, pick, kind),
    decreases added.len(),
{
    if added.len() == 0 {
        assert(columns + added =~= columns);
    } else {
        let rest = added.drop_last();
        assert forall|i: int| 0 <= i < rest.len() implies !pick(#[trigger] rest[i]) by {
            assert(rest[i] == added[i]);
        }
        lemma_picked_ignores(columns, rest, pick, kind);
        assert((columns + added).drop_last() =~= columns + rest);
        assert((columns + added).last() == added[added.len() - 1]);
        assert(picked(columns + added, pick, kind) =~= picked(columns + rest, pick, kind));
    }
}

/// Post-processing again does what it did the first time: every column it
/// fills is named with "pp_" in front, and columns so named never change the
/// plan, so the plan after a run is the plan before it.
pub proof fn lemma_plan_unchanged_by_processed_columns(
    columns: Seq<Seq<char>>,
    added: Seq<Seq<char>>,
)
    requires
        forall|i: int| 0 <= i < added.len() ==> starts_with(#[trigger] added[i], "pp_"@),
    ensures
        plan(columns + added) == plan(columns),
        forall|i: int|
            0 <= i < plan(columns).len() ==> starts_with(
                #[trigger] pp_name(plan(columns)[i].0),
                "pp_"@,
            ),
{
    let price_pick = |c: Seq<char>| is_price_column(c);
    let voltage_pick = |c: Seq<char>| is_voltage_column(c);
    assert forall|i: int| 0 <= i < added.len() implies !price_pick(#[trigger] added[i]) by {
        assert(starts_with(added[i], "pp_"@));
    }
    assert forall|i: int| 0 <= i < added.len() implies !voltage_pick(#[trigger] added[i]) by {
        assert(starts_with(added[i], "pp_"@));
    }
    lemma_picked_ignores(columns, added, price_pick, PostProcessKind::Numeric(NumericColumn::Price));
    lemma_picked_ignores(
        columns,
        added,
        voltage_pick,
        PostProcessKind::Numeric(NumericColumn::Voltage),
    );
    assert forall|i: int| 0 <= i < plan(columns).len() implies starts_with(
        #[trigger] pp_name(plan(columns)[i].0),
        "pp_"@,
    ) by {
        let c = plan(columns)[i].0;
        assert(pp_name(c).take("pp_"@.len() as int) =~= "pp_"@);
    }
}

/// The table of parts after one post-processing step, read as the value
/// under each part and column (`None` for NULL): the step's column is read
/// for every part, `convert` turns the value into the output (the floating
/// point reading happens outside this library, so it is a parameter here),
/// and where there is an output the step's update statement
/// (`update_statement`) sets the `pp_` column of that part to it; where
/// there is none, the row is left as it is.
pub open spec fn apply_step(
    table: spec_fn(Seq<char>, Seq<char>) -> Option<Seq<char>>,
    step: (Seq<char>, PostProcessKind),
    convert: spec_fn(PostProcessKind, Option<Seq<char>>) -> Option<Seq<char>>,
) -> spec_fn(Seq<char>, Seq<char>) -> Option<Seq<char>> {
    |part: Seq<char>, column: Seq<char>|
        if column == pp_name(step.0) && convert(step.1, table(part, step.0)) is Some {
            convert(step.1, table(part, step.0))
        } else {
            table(part, column)
        }
}

/// The table after the steps, run in order.
pub open spec fn apply_steps(
    table: spec_fn(Seq<char>, Seq<char>) -> Option<Seq<char>>,
    steps: Seq<(Seq<char>, PostProcessKind)>,
    convert: spec_fn(PostProcessKind, Option<Seq<char>>) -> Option<Seq<char>>,
) -> spec_fn(Seq<char>, Seq<char>) -> Option<Seq<char>>
    decreases steps.len(),
{
    if steps.len() == 0 {
        table
    } else {
        apply_step(apply_steps(table, steps.drop_last(), convert), steps.last(), convert)
    }
}

/// The output that the last of `steps` writing `column` for `part` writes,
/// each step reading its column from `table`; `None` where none writes.
pub open spec fn written(
    table: spec_fn(Seq<char>, Seq<char>) -> Option<Seq<char>>,
    steps: Seq<(Seq<char>, PostProcessKind)>,
    convert: spec_fn(PostProcessKind, Option<Seq<char>>) -> Option<Seq<char>>,
    part: Seq<char>,
    column: Seq<char>,
) -> Option<Seq<char>>
    decreases steps.len(),
{
    if steps.len() == 0 {
        None
    } else if column == pp_name(steps.last().0) && convert(
        steps.last().1,
        table(part, steps.last().0),
    ) is Some {
        convert(steps.last().1, table(part, steps.last().0))
    } else {
        written(table, steps.drop_last(), convert, part, column)
    }
}

/// No step reads a column that a step writes.
pub open spec fn reads_unwritten(steps: Seq<(Seq<char>, PostProcessKind)>) -> bool {
    forall|i: int, j: int|
        0 <= i < steps.len() && 0 <= j < steps.len() ==> #[trigger] pp_name(steps[i].0)
            != #[trigger] steps[j].0
}

proof fn lemma_written_none(
    table: spec_fn(Seq<char>, Seq<char>) -> Option<Seq<char>>,
    steps: Seq<(Seq<char>, PostProcessKind)>,
    convert: spec_fn(PostProcessKind, Option<Seq<char>>) -> Option<Seq<char>>,
    part: Seq<char>,
    column: Seq<char>,
)
    requires
        forall|i: int| 0 <= i < steps.len() ==> pp_name(#[trigger] steps[i].0) != column,
    ensures
        written(table, steps, convert, part, column) is None,
    decreases steps.len(),
{
    if steps.len() > 0 {
        assert(pp_name(steps[steps.len() - 1].0) != column);
        assert forall|i: int| 0 <= i < steps.drop_last().len() implies pp_name(
            #[trigger] steps.drop_last()[i].0,
        ) != column by {
            assert(steps.drop_last()[i] == steps[i]);
        }
        lemma_written_none(table, steps.drop_last(), convert, part, column);
    }
}

proof fn lemma_written_same_inputs(
    table: spec_fn(Seq<char>, Seq<char>) -> Option<Seq<char>>,
    other: spec_fn(Seq<char>, Seq<char>) -> Option<Seq<char>>,
    steps: Seq<(Seq<char>, PostProcessKind)>,
    convert: spec_fn(PostProcessKind, Option<Seq<char>>) -> Option<Seq<char>>,
    part: Seq<char>,
    column: Seq<char>,
)
    requires
        forall|i: int| 0 <= i < steps.len() ==> other(part, #[trigger] steps[i].0) == table(part, steps[i].0),
    ensures
        written(other, steps, convert, part, column) == written(table, steps, convert, part, column),
    decreases steps.len(),
{
    if steps.len() > 0 {
        assert(other(part, steps[steps.len() - 1].0) == table(part, steps[steps.len() - 1].0));
        assert forall|i: int| 0 <= i < steps.drop_last().len() implies other(
            part,
            #[trigger] steps.drop_last()[i].0,
        ) == table(part, steps.drop_last()[i].0) by {
            assert(steps.drop_last()[i] == steps[i]);
        }
        lemma_written_same_inputs(table, other, steps.drop_last(), convert, part, column);
    }
}

proof fn lemma_apply_steps(
    table: spec_fn(Seq<char>, Seq<char>) -> Option<Seq<char>>,
    steps: Seq<(Seq<char>, PostProcessKind)>,
    convert: spec_fn(PostProcessKind, Option<Seq<char>>) -> Option<Seq<char>>,
    part: Seq<char>,
    column: Seq<char>,
)
    requires
        reads_unwritten(steps),
    ensures
        apply_steps(table, steps, convert)(part, column) == match written(
            table,
            steps,
            convert,
            part,
            column,
        ) {
            Some(v) => Some(v),
            None => table(part, column),
        },
    decreases steps.len(),
{
    if steps.len() > 0 {
        let rest = steps.drop_last();
        let last = steps.last();
        assert(reads_unwritten(rest)) by {
            assert forall|i: int, j: int|
                0 <= i < rest.len() && 0 <= j < rest.len() implies #[trigger] pp_name(rest[i].0)
                != #[trigger] rest[j].0 by {
                assert(rest[i] == steps[i]);
                assert(rest[j] == steps[j]);
            }
        }
        lemma_apply_steps(table, rest, convert, part, column);
        lemma_apply_steps(table, rest, convert, part, last.0);
        assert forall|i: int| 0 <= i < rest.len() implies pp_name(#[trigger] rest[i].0)
            != last.0 by {
            assert(rest[i] == steps[i]);
            assert(last == steps[steps.len() - 1]);
        }
        lemma_written_none(table, rest, convert, part, last.0);
        assert(apply_steps(table, rest, convert)(part, last.0) == table(part, last.0));
    }
}

/// Post-processing a second time, with nothing else changed in between,
/// leaves the table as the first run left it. The second run plans the same
/// steps, since the columns the first run added all start with "pp_"; and
/// every step writes "pp_" followed by a column that does not itself start
/// with "pp_" (so no "pp_pp_" column), which no step reads, so the second
/// run reads what the first read and writes what the first wrote. No column
/// that does not start with "pp_" changes.
pub proof fn lemma_second_post_process_run(
    columns: Seq<Seq<char>>,
    added: Seq<Seq<char>>,
    table: spec_fn(Seq<char>, Seq<char>) -> Option<Seq<char>>,
    convert: spec_fn(PostProcessKind, Option<Seq<char>>) -> Option<Seq<char>>,
)
    requires
        forall|i: int| 0 <= i < added.len() ==> starts_with(#[trigger] added[i], "pp_"@),
    ensures
        plan(columns + added) == plan(columns),
        forall|i: int|
            0 <= i < plan(columns).len() ==> !starts_with(#[trigger] plan(columns)[i].0, "pp_"@),
        apply_steps(apply_steps(table, plan(columns), convert), plan(columns + added), convert)
            == apply_steps(table, plan(columns), convert),
        forall|part: Seq<char>, column: Seq<char>|
            !starts_with(column, "pp_"@) ==> #[trigger] apply_steps(table, plan(columns), convert)(
                part,
                column,
            ) == table(part, column),
{
    lemma_plan_unchanged_by_processed_columns(columns, added);
    let steps = plan(columns);
    assert forall|i: int| 0 <= i < steps.len() implies !starts_with(
        #[trigger] steps[i].0,
        "pp_"@,
    ) by {
        if i >= 2 {
            lemma_plan_skips_processed_columns(columns, i);
        } else {
            reveal_strlit("pp_");
            reveal_strlit("Basic");
            reveal_strlit("Resistance (Ohms)");
            assert(steps[i].0[0] != 'p');
            assert("pp_"@[0] == 'p');
        }
    }
    assert forall|x: Seq<char>| #[trigger] starts_with(pp_name(x), "pp_"@) by {
        assert(pp_name(x).take("pp_"@.len() as int) =~= "pp_"@);
    }
    assert(reads_unwritten(steps)) by {
        assert forall|i: int, j: int|
            0 <= i < steps.len() && 0 <= j < steps.len() implies #[trigger] pp_name(steps[i].0)
            != #[trigger] steps[j].0 by {
            assert(starts_with(pp_name(steps[i].0), "pp_"@));
            assert(!starts_with(steps[j].0, "pp_"@));
        }
    }
    let once = apply_steps(table, steps, convert);
    let twice = apply_steps(once, steps, convert);
    assert forall|part: Seq<char>, column: Seq<char>| #[trigger] twice(part, column) == once(
        part,
        column,
    ) by {
        assert forall|i: int| 0 <= i < steps.len() implies once(part, #[trigger] steps[i].0)
            == table(part, steps[i].0) by {
            assert forall|k: int| 0 <= k < steps.len() implies pp_name(#[trigger] steps[k].0)
                != steps[i].0 by {
                assert(starts_with(pp_name(steps[k].0), "pp_"@));
            }
            lemma_written_none(table, steps, convert, part, steps[i].0);
            lemma_apply_steps(table, steps, convert, part, steps[i].0);
        }
        lemma_written_same_inputs(table, once, steps, convert, part, column);
        lemma_apply_steps(once, steps, convert, part, column);
        lemma_apply_steps(table, steps, convert, part, column);
    }
    assert(twice =~= once);
    assert forall|part: Seq<char>, column: Seq<char>| !starts_with(column, "pp_"@) implies #[trigger] once(
        part,
        column,
    ) == table(part, column) by {
        assert forall|k: int| 0 <= k < steps.len() implies pp_name(#[trigger] steps[k].0)
            != column by {
            assert(starts_with(pp_name(steps[k].0), "pp_"@));
        }
        lemma_written_none(table, steps, convert, part, column);
        lemma_apply_steps(table, steps, convert, part, column);
    }
}

proof fn lemma_picked_contains(
    columns: Seq<Seq<char>>,
    pick: spec_fn(Seq<char>) -> bool,
    kind: PostProcessKind,
    i: int,
)
    requires
        0 <= i < columns.len(),
        pick(columns[i]),
    ensures
        picked(columns, pick, kind).contains((columns[i], kind)),
    decreases columns.len(),
{
    let before = picked(columns.drop_last(), pick, kind);
    if i < columns.len() - 1 {
        assert(columns.drop_last()[i] == columns[i]);
        lemma_picked_contains(columns.drop_last(), pick, kind, i);
        let m = choose|m: int| 0 <= m < before.len() && before[m] == (columns[i], kind);
        assert(picked(columns, pick, kind)[m] == (columns[i], kind));
    } else {
        assert(picked(columns, pick, kind)[before.len() as int] == (columns[i], kind));
    }
}

/// What a price or voltage step looks like, by the column's name alone: a
/// known column whose name does not begin with "pp_", the name of a price
/// step beginning with "Price" and that of a voltage step holding "Voltage"
/// somewhere.
pub open spec fn price_or_voltage_step(
    columns: Seq<Seq<char>>,
    step: (Seq<char>, PostProcessKind),
) -> bool {
    let c = step.0;
    &&& columns.contains(c)
    &&& !(c.len() >= 3 && c.take(3) == seq!['p', 'p', '_'])
    &&& match step.1 {
        PostProcessKind::Numeric(NumericColumn::Voltage) => exists|j: int|
            0 <= j && j + 7 <= c.len() && #[trigger] c.subrange(j, j + 7) == seq![
                'V',
                'o',
                'l',
                't',
                'a',
                'g',
                'e',
            ],
        PostProcessKind::Numeric(NumericColumn::Price) => c.len() >= 5 && c.take(5) == seq![
            'P',
            'r',
            'i',
            'c',
            'e',
        ],
        _ => false,
    }
}

/// The steps of the plan: "Basic", then "Resistance (Ohms)", then only
/// price and voltage steps of the shape `price_or_voltage_step` gives.
pub proof fn lemma_plan_columns(columns: Seq<Seq<char>>)
    ensures
        plan(columns)[0] == ("Basic"@, PostProcessKind::Basic),
        plan(columns)[1] == ("Resistance (Ohms)"@, PostProcessKind::Numeric(NumericColumn::Resistance)),
        forall|k: int|
            2 <= k < plan(columns).len() ==> price_or_voltage_step(
                columns,
                #[trigger] plan(columns)[k],
            ),
        forall|k1: int, k2: int|
            2 <= k1 < k2 < plan(columns).len() && #[trigger] plan(columns)[k1].1
                == PostProcessKind::Numeric(NumericColumn::Voltage) ==> #[trigger] plan(
                columns,
            )[k2].1 == PostProcessKind::Numeric(NumericColumn::Voltage),
{
    reveal_strlit("pp_");
    reveal_strlit("Price");
    reveal_strlit("Voltage");
    assert("pp_"@ =~= seq!['p', 'p', '_']);
    assert("Price"@ =~= seq!['P', 'r', 'i', 'c', 'e']);
    assert("Voltage"@ =~= seq!['V', 'o', 'l', 't', 'a', 'g', 'e']);
    let price_pick = |c: Seq<char>| is_price_column(c);
    let voltage_pick = |c: Seq<char>| is_voltage_column(c);
    let prices = picked(columns, price_pick, PostProcessKind::Numeric(NumericColumn::Price));
    let volts = picked(columns, voltage_pick, PostProcessKind::Numeric(NumericColumn::Voltage));
    assert forall|k: int| 2 <= k < plan(columns).len() implies price_or_voltage_step(
        columns,
        #[trigger] plan(columns)[k],
    ) by {
        if k < 2 + prices.len() {
            lemma_picked(columns, price_pick, PostProcessKind::Numeric(NumericColumn::Price), k - 2);
            assert(plan(columns)[k] == prices[k - 2]);
        } else {
            let v = k - 2 - prices.len();
            lemma_picked(columns, voltage_pick, PostProcessKind::Numeric(NumericColumn::Voltage), v);
            assert(plan(columns)[k] == volts[v]);
        }
    }
    assert forall|k1: int, k2: int|
        2 <= k1 < k2 < plan(columns).len() && #[trigger] plan(columns)[k1].1
            == PostProcessKind::Numeric(NumericColumn::Voltage) implies #[trigger] plan(
        columns,
    )[k2].1 == PostProcessKind::Numeric(NumericColumn::Voltage) by {
        if k1 < 2 + prices.len() {
            lemma_picked(columns, price_pick, PostProcessKind::Numeric(NumericColumn::Price), k1 - 2);
            assert(plan(columns)[k1] == prices[k1 - 2]);
        }
        let v = k2 - 2 - prices.len();
        lemma_picked(columns, voltage_pick, PostProcessKind::Numeric(NumericColumn::Voltage), v);
        assert(plan(columns)[k2] == volts[v]);
    }
}

/// The statements of post-processing, written out: the query that reads a
/// column, and the update that writes its `pp_` copy, the output unquoted.
pub proof fn lemma_post_process_statement_texts(
    column: Seq<char>,
    output: Seq<char>,
    part_number: Seq<char>,
)
    ensures
        pp_name(column) == "pp_"@ + column,
        select_statement(column) == "SELECT part_number, \""@ + column + "\" FROM parts"@,
        update_statement(pp_name(column), output, part_number)
            == "\n                UPDATE parts SET \""@ + "pp_"@ + column + "\" = "@ + output
            + "\n                WHERE part_number = \""@ + part_number + "\""@,
{
    assert("\n                UPDATE parts SET \""@ + ("pp_"@ + column) =~= "\n                UPDATE parts SET \""@ + "pp_"@ + column);
}

/// Every known column whose name does not begin with "pp_" and holds
/// "Voltage" anywhere in it (such as "Rated Voltage") gets a voltage step.
pub proof fn lemma_voltage_column_planned(
    columns: Seq<Seq<char>>,
    i: int,
    before: Seq<char>,
    after: Seq<char>,
)
    requires
        0 <= i < columns.len(),
        columns[i] == before + "Voltage"@ + after,
        !(columns[i].len() >= 3 && columns[i].take(3) == "pp_"@),
    ensures
        plan(columns).contains((columns[i], PostProcessKind::Numeric(NumericColumn::Voltage))),
{
    reveal_strlit("pp_");
    reveal_strlit("Voltage");
    assert("pp_"@.len() == 3);
    assert("Voltage"@.len() == 7);
    let c = columns[i];
    let voltage_pick = |c: Seq<char>| is_voltage_column(c);
    let prices = picked(
        columns,
        |c: Seq<char>| is_price_column(c),
        PostProcessKind::Numeric(NumericColumn::Price),
    );
    let volts = picked(columns, voltage_pick, PostProcessKind::Numeric(NumericColumn::Voltage));
    assert(c.subrange(before.len() as int, before.len() + 7int) =~= "Voltage"@);
    assert(contains_seq(c, "Voltage"@));
    assert(voltage_pick(c));
    lemma_picked_contains(columns, voltage_pick, PostProcessKind::Numeric(NumericColumn::Voltage), i);
    let m = choose|m: int|
        0 <= m < volts.len() && volts[m] == (c, PostProcessKind::Numeric(NumericColumn::Voltage));
    assert(plan(columns)[2 + prices.len() + m] == volts[m]);
}

/// Every known column whose name begins with "Price" (and so not with
/// "pp_") gets a price step.
pub proof fn lemma_price_column_planned(columns: Seq<Seq<char>>, i: int, rest: Seq<char>)
    requires
        0 <= i < columns.len(),
        columns[i] == "Price"@ + rest,
    ensures
        plan(columns).contains((columns[i], PostProcessKind::Numeric(NumericColumn::Price))),
{
    reveal_strlit("pp_");
    reveal_strlit("Price");
    assert("pp_"@ =~= seq!['p', 'p', '_']);
    assert("Price"@ =~= seq!['P', 'r', 'i', 'c', 'e']);
    let c = columns[i];
    let price_pick = |c: Seq<char>| is_price_column(c);
    let prices = picked(columns, price_pick, PostProcessKind::Numeric(NumericColumn::Price));
    assert(c.take(5) =~= "Price"@);
    assert(c[0] == 'P');
    assert(c.take(3)[0] == 'P');
    assert(!starts_with(c, "pp_"@));
    assert(price_pick(c));
    lemma_picked_contains(columns, price_pick, PostProcessKind::Numeric(NumericColumn::Price), i);
    let m = choose|m: int|
        0 <= m < prices.len() && prices[m] == (c, PostProcessKind::Numeric(NumericColumn::Price));
    assert(plan(columns)[2 + m] == prices[m]);
}

/// The "Basic" column becomes 1 for "true" and 0 for "false"; any other
/// text, or no value, gives nothing to write.
pub proof fn lemma_basic_flag(v: Seq<char>)
    ensures
        basic_flag(None) is None,
        v == "true"@ ==> basic_flag(Some(v)) == Some("1"@),
        v == "false"@ ==> basic_flag(Some(v)) == Some("0"@),
        v != "true"@ && v != "false"@ ==> basic_flag(Some(v)) is None,
{
    reveal_strlit("true");
    reveal_strlit("false");
    assert("true"@.len() != "false"@.len());
}

/// A resistance is scaled by the letter it ends with: `K` thousands, `M`
/// millions, `m` thousandths, `u` millionths, `n` billionths; a text ending
/// in anything else is not scaled.
pub proof fn lemma_resistance_scale(w: Seq<char>, c: char)
    ensures
        resistance_scale(w.push(c)) == if c == 'K' {
            Some(ResistanceSuffix::Kilo)
        } else if c == 'M' {
            Some(ResistanceSuffix::Mega)
        } else if c == 'm' {
            Some(ResistanceSuffix::Milli)
        } else if c == 'u' {
            Some(ResistanceSuffix::Micro)
        } else if c == 'n' {
            Some(ResistanceSuffix::Nano)
        } else {
            None
        },
        resistance_scale(Seq::empty()) is None,
{
    let v = w.push(c);
    assert(v.skip(v.len() - 1) =~= seq![c]);
    assert(seq![c][0] == c);
    assert(seq!['K'][0] == 'K');
    assert(seq!['M'][0] == 'M');
    assert(seq!['m'][0] == 'm');
    assert(seq!['u'][0] == 'u');
    assert(seq!['n'][0] == 'n');
}

} // verus!
