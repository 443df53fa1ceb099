//! Key/value extraction from the tables of an LCSC product page.
//!
//! The page is read (by `scrape`) into `TableCell`s that hold, as plain
//! values, everything the extraction looks at; the extraction itself is
//! stated and proved over those values here.

use vstd::prelude::*;
use crate::text::{
    bool_string, bool_text, char_count, chars_of, concat_text, pair_view, count_char, keep_ascii, keep_ascii_chars, push_str,
    same_text, string_of, trim, trim_chars,
};

verus! {

/// What the extraction reads of one `<td>` cell of a table row.
pub struct TableCell {
    /// The text nodes below the cell, in document order.
    pub texts: Vec<String>,
    /// How many `span.rohs` elements the cell holds.
    pub rohs_marks: usize,
    /// The `href` attribute of each `a` element in the cell, in document order.
    pub link_targets: Vec<Option<String>>,
    /// The text nodes of each `span.origin-price` element in the cell, in document order.
    pub original_prices: Vec<Vec<String>>,
}

/// The text of a cell: each text node trimmed and cut down to its ASCII
/// characters, all of them joined.
pub open spec fn flatten_texts(texts: Seq<Seq<char>>) -> Seq<char>
    decreases texts.len(),
{
    if texts.len() == 0 {
        Seq::empty()
    } else {
        flatten_texts(texts.drop_last()) + keep_ascii(trim(texts.last()))
    }
}

/// The last link target that is present, or `default` when none is.
pub open spec fn last_link(links: Seq<Option<Seq<char>>>, default: Seq<char>) -> Seq<char>
    decreases links.len(),
{
    if links.len() == 0 {
        default
    } else {
        match links.last() {
            Some(h) => h,
            None => last_link(links.drop_last(), default),
        }
    }
}

/// The text of the last original-price element, or `default` when there is none.
pub open spec fn last_original_price(
    prices: Seq<Seq<Seq<char>>>,
    default: Seq<char>,
) -> Seq<char> {
    if prices.len() == 0 {
        default
    } else {
        flatten_texts(prices.last())
    }
}

impl TableCell {
    pub open spec fn text(self) -> Seq<char> {
        flatten_texts(self.texts.deep_view())
    }
}

/// Whether some link target is present.
pub open spec fn has_link(links: Seq<Option<Seq<char>>>) -> bool {
    exists|i: int| 0 <= i < links.len() && #[trigger] links[i] is Some
}

/// The key/value pair a table row yields: `Err` for a row of fewer than two
/// cells, `Ok(None)` for a row that carries no value, else the pair. "-" and
/// a blank cell both mean no value; a blank cell only where the value would
/// be the cell's text, so a RoHS cell still gives its mark and a Datasheet
/// cell its link.
pub open spec fn row_pair(cells: Seq<TableCell>) -> Result<Option<(Seq<char>, Seq<char>)>, ()> {
    if cells.len() < 2 {
        Err(())
    } else {
        let key = cells[0].text();
        let value = cells[1].text();
        let links = cells[1].link_targets.deep_view();
        if value == seq!['-'] {
            Ok(None)
        } else if key == seq!['R', 'o', 'H', 'S'] {
            Ok(Some((key, bool_text(cells[1].rohs_marks > 0))))
        } else if key == seq!['D', 'a', 't', 'a', 's', 'h', 'e', 'e', 't'] {
            if value.len() == 0 && !has_link(links) {
                Ok(None)
            } else {
                Ok(Some((key, last_link(links, value))))
            }
        } else if key == "EasyEDA Libraries"@ || key == "Customer #"@ {
            Ok(None)
        } else if value.len() == 0 {
            Ok(None)
        } else if count_char(value, '$') > 1 {
            Ok(Some((key, last_original_price(cells[1].original_prices.deep_view(), value))))
        } else {
            Ok(Some((key, value)))
        }
    }
}

pub open spec fn row_outcome_view(r: Result<Option<(String, String)>, ()>) -> Result<
    Option<(Seq<char>, Seq<char>)>,
    (),
> {
    match r {
        Ok(Some(p)) => Ok(Some(pair_view(p))),
        Ok(None) => Ok(None),
        Err(e) => Err(e),
    }
}

/// A row gives no pair only where the original drops it: fewer than two
/// cells is an error; otherwise, for any key other than "RoHS", "Datasheet",
/// "EasyEDA Libraries" and "Customer #", the row gives no value exactly when
/// its value cell reads "-" or nothing at all, and any other value (one that
/// merely starts with "-", such as "-55~+155", included) is kept as it is
/// unless it holds more than one "$".
pub proof fn lemma_row_pair_keeps_values(cells: Seq<TableCell>)
    ensures
        cells.len() < 2 <==> row_pair(cells) is Err,
        cells.len() >= 2 && cells[0].text() != "RoHS"@ && cells[0].text() != "Datasheet"@
            && cells[0].text() != "EasyEDA Libraries"@ && cells[0].text() != "Customer #"@ ==> {
            &&& (row_pair(cells) == Ok::<Option<(Seq<char>, Seq<char>)>, ()>(None) <==> (
            cells[1].text() == "-"@ || cells[1].text().len() == 0))
            &&& (cells[1].text() != "-"@ && cells[1].text().len() > 0 && count_char(
                cells[1].text(),
                '$',
            ) <= 1 ==> row_pair(cells) == Ok::<Option<(Seq<char>, Seq<char>)>, ()>(
                Some((cells[0].text(), cells[1].text())),
            ))
        },
        cells.len() >= 2 && cells[1].text() != "-"@ && cells[0].text() == "RoHS"@ ==> row_pair(
            cells,
        ) == Ok::<Option<(Seq<char>, Seq<char>)>, ()>(
            Some((cells[0].text(), if cells[1].rohs_marks > 0 {
                "true"@
            } else {
                "false"@
            })),
        ),
        cells.len() >= 2 && (cells[0].text() == "EasyEDA Libraries"@ || cells[0].text()
            == "Customer #"@) ==> row_pair(cells) == Ok::<Option<(Seq<char>, Seq<char>)>, ()>(
            None,
        ),
{
    reveal_strlit("-");
    reveal_strlit("RoHS");
    reveal_strlit("Datasheet");
    reveal_strlit("true");
    reveal_strlit("false");
    reveal_strlit("EasyEDA Libraries");
    reveal_strlit("Customer #");
    assert("-"@ =~= seq!['-']);
    assert("EasyEDA Libraries"@.len() == 17);
    assert("Customer #"@.len() == 10);
    assert("RoHS"@ =~= seq!['R', 'o', 'H', 'S']);
    assert("Datasheet"@ =~= seq!['D', 'a', 't', 'a', 's', 'h', 'e', 'e', 't']);
    assert("true"@ =~= seq!['t', 'r', 'u', 'e']);
    assert("false"@ =~= seq!['f', 'a', 'l', 's', 'e']);
    if cells.len() >= 2 {
        let value = cells[1].text();
        if value.len() > 0 && count_char(value, '$') > 1 {
            assert(value != Seq::<char>::empty());
        }
    }
}

/// A Datasheet row gives the last link present in its value cell, whatever
/// the cell's text, or the text where no link is present and the text is
/// not blank; "-" still means no value.
pub proof fn lemma_datasheet_row(cells: Seq<TableCell>, j: int, h: Seq<char>)
    requires
        cells.len() >= 2,
        cells[0].text() == "Datasheet"@,
        cells[1].text() != "-"@,
    ensures
        0 <= j < cells[1].link_targets.deep_view().len() && cells[1].link_targets.deep_view()[j]
            == Some(h) && (forall|k: int|
            j < k < cells[1].link_targets.deep_view().len()
                ==> #[trigger] cells[1].link_targets.deep_view()[k] is None) ==> row_pair(cells)
            == Ok::<Option<(Seq<char>, Seq<char>)>, ()>(Some((cells[0].text(), h))),
        (forall|k: int|
            0 <= k < cells[1].link_targets.deep_view().len()
                ==> #[trigger] cells[1].link_targets.deep_view()[k] is None) ==> row_pair(cells)
            == if cells[1].text().len() == 0 {
            Ok::<Option<(Seq<char>, Seq<char>)>, ()>(None)
        } else {
            Ok::<Option<(Seq<char>, Seq<char>)>, ()>(Some((cells[0].text(), cells[1].text())))
        },
{
    reveal_strlit("-");
    reveal_strlit("RoHS");
    reveal_strlit("Datasheet");
    assert("-"@ =~= seq!['-']);
    assert("RoHS"@ =~= seq!['R', 'o', 'H', 'S']);
    assert("Datasheet"@ =~= seq!['D', 'a', 't', 'a', 's', 'h', 'e', 'e', 't']);
    let links = cells[1].link_targets.deep_view();
    let value = cells[1].text();
    if 0 <= j < links.len() && links[j] == Some(h) && (forall|k: int|
        j < k < links.len() ==> #[trigger] links[k] is None) {
        lemma_last_link_found(links, value, j, h);
        assert(has_link(links));
    }
    if forall|k: int| 0 <= k < links.len() ==> #[trigger] links[k] is None {
        lemma_last_link_none(links, value);
    }
}

proof fn lemma_last_link_found(links: Seq<Option<Seq<char>>>, default: Seq<char>, j: int, h: Seq<char>)
    requires
        0 <= j < links.len(),
        links[j] == Some(h),
        forall|k: int| j < k < links.len() ==> #[trigger] links[k] is None,
    ensures
        last_link(links, default) == h,
    decreases links.len(),
{
    if j < links.len() - 1 {
        assert(links[links.len() - 1] is None);
        assert forall|k: int| j < k < links.drop_last().len() implies #[trigger] links.drop_last()[k]
            is None by {
            assert(links.drop_last()[k] == links[k]);
        }
        assert(links.drop_last()[j] == links[j]);
        lemma_last_link_found(links.drop_last(), default, j, h);
    }
}

proof fn lemma_last_link_none(links: Seq<Option<Seq<char>>>, default: Seq<char>)
    requires
        forall|k: int| 0 <= k < links.len() ==> #[trigger] links[k] is None,
    ensures
        last_link(links, default) == default,
        !has_link(links),
    decreases links.len(),
{
    if links.len() > 0 {
        assert(links[links.len() - 1] is None);
        assert forall|k: int| 0 <= k < links.drop_last().len() implies #[trigger] links.drop_last()[k]
            is None by {
            assert(links.drop_last()[k] == links[k]);
        }
        lemma_last_link_none(links.drop_last(), default);
    }
}

/// A discounted price (a value cell whose text holds more than one "$") of
/// an ordinary key gives the text of the last original-price element of the
/// cell, or the whole text where the cell has no such element.
pub proof fn lemma_discounted_price_row(cells: Seq<TableCell>)
    requires
        cells.len() >= 2,
        cells[0].text() != "RoHS"@,
        cells[0].text() != "Datasheet"@,
        cells[0].text() != "EasyEDA Libraries"@,
        cells[0].text() != "Customer #"@,
        count_char(cells[1].text(), '$') > 1,
    ensures
        row_pair(cells) == Ok::<Option<(Seq<char>, Seq<char>)>, ()>(
            Some(
                (
                    cells[0].text(),
                    if cells[1].original_prices.deep_view().len() == 0 {
                        cells[1].text()
                    } else {
                        flatten_texts(cells[1].original_prices.deep_view().last())
                    },
                ),
            ),
        ),
{
    reveal_strlit("-");
    reveal_strlit("RoHS");
    reveal_strlit("Datasheet");
    assert("-"@ =~= seq!['-']);
    assert("RoHS"@ =~= seq!['R', 'o', 'H', 'S']);
    assert("Datasheet"@ =~= seq!['D', 'a', 't', 'a', 's', 'h', 'e', 'e', 't']);
    let value = cells[1].text();
    if value.len() == 0 {
        assert(count_char(value, '$') == 0);
    }
    if value == seq!['-'] {
        assert(value.drop_last() =~= Seq::<char>::empty());
        assert(count_char(value.drop_last(), '$') == 0);
        assert(value.last() == '-');
        assert(count_char(value, '$') == 0);
    }
}

/// The text of a cell is the text of each of its text nodes, trimmed and cut
/// down to ASCII, one after the other: the texts of two runs of nodes join.
pub proof fn lemma_flatten_joins(a: Seq<Seq<char>>, b: Seq<Seq<char>>, t: Seq<char>)
    ensures
        flatten_texts(a + b) == flatten_texts(a) + flatten_texts(b),
        flatten_texts(seq![t]) == keep_ascii(trim(t)),
    decreases b.len(),
{
    if b.len() == 0 {
        assert(a + b =~= a);
        assert(flatten_texts(a) + Seq::<char>::empty() =~= flatten_texts(a));
    } else {
        lemma_flatten_joins(a, b.drop_last(), t);
        assert((a + b).drop_last() =~= a + b.drop_last());
        assert((a + b).last() == b.last());
        assert(flatten_texts(a) + flatten_texts(b.drop_last()) + keep_ascii(trim(b.last()))
            =~= flatten_texts(a) + (flatten_texts(b.drop_last()) + keep_ascii(trim(b.last()))));
    }
    let one = seq![t];
    assert(one.drop_last() =~= Seq::<Seq<char>>::empty());
    assert(flatten_texts(one.drop_last()) == Seq::<char>::empty());
    assert(one.last() == t);
    assert(flatten_texts(one) == flatten_texts(one.drop_last()) + keep_ascii(trim(one.last())));
    assert(Seq::<char>::empty() + keep_ascii(trim(t)) =~= keep_ascii(trim(t)));
}

/// The pairs of the rows of one table, in row order.
pub open spec fn rows_pairs(rows: Seq<Vec<TableCell>>) -> Seq<(Seq<char>, Seq<char>)>
    decreases rows.len(),
{
    if rows.len() == 0 {
        Seq::empty()
    } else {
        rows_pairs(rows.drop_last()) + match row_pair(rows.last()@) {
            Ok(Some(p)) => seq![p],
            _ => Seq::empty(),
        }
    }
}

/// The pairs of all rows of all tables, tables in order, rows in order.
pub open spec fn tables_pairs(tables: Seq<Vec<Vec<TableCell>>>) -> Seq<(Seq<char>, Seq<char>)>
    decreases tables.len(),
{
    if tables.len() == 0 {
        Seq::empty()
    } else {
        tables_pairs(tables.drop_last()) + rows_pairs(tables.last()@)
    }
}

/// Joins the trimmed, ASCII-only text nodes.
pub fn flatten(texts: &Vec<String>) -> (r: String)
    ensures
        r@ == flatten_texts(texts.deep_view()),
{
    let mut r = String::new();
    let mut i: usize = 0;
    while i < texts.len()
        invariant
            i <= texts.len(),
            r@ == flatten_texts(texts.deep_view().take(i as int)),
        decreases texts.len() - i,
    {
        let cs = chars_of(texts[i].as_str());
        let trimmed = trim_chars(&cs);
        let ascii = keep_ascii_chars(&trimmed);
        let piece = string_of(&ascii);
        push_str(&mut r, piece.as_str());
        proof {
            assert(texts.deep_view().take(i + 1).drop_last() =~= texts.deep_view().take(i as int));
            assert(texts.deep_view().take(i + 1).last() == texts@[i as int]@);
        }
        i = i + 1;
    }
    proof {
        assert(texts.deep_view().take(texts.len() as int) =~= texts.deep_view());
    }
    r
}

/// The last link target that is present, else `default`.
fn pick_last_link(links: &Vec<Option<String>>, default: String) -> (r: String)
    ensures
        r@ == last_link(links.deep_view(), default@),
{
    let mut i: usize = links.len();
    proof {
        assert(links.deep_view().take(links.len() as int) =~= links.deep_view());
    }
    while i > 0
        invariant
            i <= links.len(),
            last_link(links.deep_view(), default@) == last_link(
                links.deep_view().take(i as int),
                default@,
            ),
        decreases i,
    {
        proof {
            assert(links.deep_view().take(i as int).drop_last() =~= links.deep_view().take(
                i - 1,
            ));
        }
        match &links[i - 1] {
            Some(h) => {
                return h.clone();
            },
            None => {},
        }
        i = i - 1;
    }
    proof {
        assert(links.deep_view().take(0) =~= Seq::<Option<Seq<char>>>::empty());
    }
    default
}

/// Whether some link target is present.
fn any_link(links: &Vec<Option<String>>) -> (r: bool)
    ensures
        r == has_link(links.deep_view()),
{
    let mut i: usize = 0;
    while i < links.len()
        invariant
            i <= links.len(),
            forall|j: int| 0 <= j < i ==> #[trigger] links.deep_view()[j] is None,
        decreases links.len() - i,
    {
        if links[i].is_some() {
            assert(links.deep_view()[i as int] is Some);
            return true;
        }
        i = i + 1;
    }
    false
}

/// The key/value pair of a table row, read from its cells.
pub fn extract_row_kvp(cells: &Vec<TableCell>) -> (r: Result<Option<(String, String)>, ()>)
    ensures
        row_outcome_view(r) == row_pair(cells@),
{
    if cells.len() < 2 {
        return Err(());
    }
    let key = flatten(&cells[0].texts);
    let value = flatten(&cells[1].texts);
    proof {
        reveal_strlit("-");
        reveal_strlit("");
        reveal_strlit("RoHS");
        reveal_strlit("Datasheet");
        assert("-"@ =~= seq!['-']);
        assert(""@ =~= Seq::<char>::empty());
        assert("RoHS"@ =~= seq!['R', 'o', 'H', 'S']);
        assert("Datasheet"@ =~= seq!['D', 'a', 't', 'a', 's', 'h', 'e', 'e', 't']);
        assert(key@ == cells@[0].text());
        assert(value@ == cells@[1].text());
    }
    if same_text(value.as_str(), "-") {
        return Ok(None);
    }
    let blank = same_text(value.as_str(), "");
    assert(blank == (value@.len() == 0)) by {
        if value@.len() == 0 {
            assert(value@ =~= ""@);
        }
    }
    if same_text(key.as_str(), "RoHS") {
        let value = bool_string(cells[1].rohs_marks > 0);
        Ok(Some((key, value)))
    } else if same_text(key.as_str(), "Datasheet") {
        if blank && !any_link(&cells[1].link_targets) {
            Ok(None)
        } else {
            let value = pick_last_link(&cells[1].link_targets, value);
            Ok(Some((key, value)))
        }
    } else if same_text(key.as_str(), "EasyEDA Libraries") || same_text(
        key.as_str(),
        "Customer #",
    ) {
        Ok(None)
    } else if blank {
        Ok(None)
    } else if char_count(value.as_str(), '$') > 1 {
        let prices = &cells[1].original_prices;
        if prices.len() == 0 {
            Ok(Some((key, value)))
        } else {
            let value = flatten(&prices[prices.len() - 1]);
            proof {
                assert(prices.deep_view().last() == prices@[prices.len() - 1].deep_view());
            }
            Ok(Some((key, value)))
        }
    } else {
        Ok(Some((key, value)))
    }
}

/// The pairs of every row of every table that yields one.
pub fn extract_table_kvp(tables: &Vec<Vec<Vec<TableCell>>>) -> (r: Vec<(String, String)>)
    ensures
        r@.map_values(|p: (String, String)| pair_view(p)) == tables_pairs(tables@),
{
    let mut r: Vec<(String, String)> = Vec::new();
    let mut t: usize = 0;
    while t < tables.len()
        invariant
            t <= tables.len(),
            r@.map_values(|p: (String, String)| pair_view(p)) == tables_pairs(
                tables@.take(t as int),
            ),
        decreases tables.len() - t,
    {
        let rows = &tables[t];
        let ghost before = r@.map_values(|p: (String, String)| pair_view(p));
        let mut k: usize = 0;
        while k < rows.len()
            invariant
                k <= rows.len(),
                r@.map_values(|p: (String, String)| pair_view(p)) == before + rows_pairs(
                    rows@.take(k as int),
                ),
            decreases rows.len() - k,
        {
            let ghost prev = r@;
            let outcome = extract_row_kvp(&rows[k]);
            proof {
                assert(rows@.take(k + 1).drop_last() =~= rows@.take(k as int));
                assert(rows@.take(k + 1).last() == rows@[k as int]);
            }
            match outcome {
                Ok(Some(pair)) => {
                    r.push(pair);
                    proof {
                        assert(r@.map_values(|p: (String, String)| pair_view(p)) =~= prev.map_values(
                            |p: (String, String)| pair_view(p),
                        ).push(pair_view(pair)));
                    }
                },
                _ => {},
            }
            proof {
                assert(r@.map_values(|p: (String, String)| pair_view(p)) =~= before + rows_pairs(
                    rows@.take(k + 1),
                ));
            }
            k = k + 1;
        }
        proof {
            assert(rows@.take(rows.len() as int) =~= rows@);
            assert(tables@.take(t + 1).drop_last() =~= tables@.take(t as int));
        }
        t = t + 1;
    }
    proof {
        assert(tables@.take(tables.len() as int) =~= tables@);
    }
    r
}

/// The three kinds of tables read from a product page.
pub struct LcscTables {
    /// `table.products-specifications`
    pub spec: Vec<Vec<Vec<TableCell>>>,
    /// `table.info-table`
    pub info: Vec<Vec<Vec<TableCell>>>,
    /// `table.main-table`, the price breaks
    pub price: Vec<Vec<Vec<TableCell>>>,
}

/// `pairs` with `prefix` put in front of every key.
pub open spec fn prefix_keys(pairs: Seq<(Seq<char>, Seq<char>)>, prefix: Seq<char>) -> Seq<
    (Seq<char>, Seq<char>),
> {
    pairs.map_values(|p: (Seq<char>, Seq<char>)| (prefix + p.0, p.1))
}

/// The pairs of a product page: specification rows, then information rows,
/// then price rows with their keys prefixed by "Price ".
pub open spec fn page_pairs(t: LcscTables) -> Seq<(Seq<char>, Seq<char>)> {
    tables_pairs(t.spec@) + tables_pairs(t.info@) + prefix_keys(tables_pairs(t.price@), "Price "@)
}

/// Appends `more` to `out`, with `prefix` put in front of every key.
fn append_prefixed(out: &mut Vec<(String, String)>, more: &Vec<(String, String)>, prefix: &str)
    ensures
        final(out)@.map_values(|p: (String, String)| pair_view(p)) == old(out)@.map_values(
            |p: (String, String)| pair_view(p),
        ) + prefix_keys(more@.map_values(|p: (String, String)| pair_view(p)), prefix@),
{
    let ghost start = out@.map_values(|p: (String, String)| pair_view(p));
    let ghost tail = prefix_keys(more@.map_values(|p: (String, String)| pair_view(p)), prefix@);
    let mut i: usize = 0;
    while i < more.len()
        invariant
            i <= more.len(),
            tail == prefix_keys(more@.map_values(|p: (String, String)| pair_view(p)), prefix@),
            out@.map_values(|p: (String, String)| pair_view(p)) == start + tail.take(i as int),
        decreases more.len() - i,
    {
        let ghost prev = out@;
        let key = concat_text(prefix, more[i].0.as_str());
        let value = more[i].1.clone();
        out.push((key, value));
        proof {
            assert(out@.map_values(|p: (String, String)| pair_view(p)) =~= prev.map_values(
                |p: (String, String)| pair_view(p),
            ).push((prefix@ + more@[i as int].0@, more@[i as int].1@)));
            assert(tail.take(i + 1) =~= tail.take(i as int).push(tail[i as int]));
            assert(out@.map_values(|p: (String, String)| pair_view(p)) =~= start + tail.take(
                i + 1,
            ));
        }
        i = i + 1;
    }
    proof {
        assert(tail.take(more.len() as int) =~= tail);
    }
}

/// The pairs of a product page, in the order `page_pairs` gives.
pub fn product_page_pairs(tables: &LcscTables) -> (r: Vec<(String, String)>)
    ensures
        r@.map_values(|p: (String, String)| pair_view(p)) == page_pairs(*tables),
{
    let spec = extract_table_kvp(&tables.spec);
    let info = extract_table_kvp(&tables.info);
    let price = extract_table_kvp(&tables.price);
    let mut r: Vec<(String, String)> = Vec::new();
    append_prefixed(&mut r, &spec, "");
    append_prefixed(&mut r, &info, "");
    append_prefixed(&mut r, &price, "Price ");
    proof {
        reveal_strlit("");
        let e: Seq<char> = ""@;
        assert(e =~= Seq::<char>::empty());
        let a = tables_pairs(tables.spec@);
        let b = tables_pairs(tables.info@);
        assert(prefix_keys(a, e) =~= a);
        assert(prefix_keys(b, e) =~= b);
        assert(Seq::<(Seq<char>, Seq<char>)>::empty() + a =~= a);
    }
    r
}

} // verus!
