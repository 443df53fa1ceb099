//! Reading an LCSC product page with `scraper` into the plain `TableCell`
//! model that `page` works on.
//!
//! What `scraper` makes of a document is named, not written out: the
//! `scraped_*` functions give, for a document's text, what a chain of CSS
//! selections finds in it. Every table, row and cell read here is stated over
//! those names, so the cells are tied to the document and to the selectors
//! they were found with.

use vstd::prelude::*;
use scraper::{ElementRef, Html, Selector};
use crate::page::{LcscTables, TableCell};

verus! {

#[verifier::external_type_specification]
#[verifier::external_body]
pub struct ExHtml(Html);

/// A parsed document together with the text it was parsed from. The fields
/// are private to this module and `parse_page` is the only place that makes
/// one, so `html` is always the tree of `document`.
struct ParsedPage {
    document: String,
    html: Html,
}

/// `scraper::Html::parse_document`, kept with the text it parsed. The
/// contract says only which text the page holds; the tree is reached through
/// `match_texts` and `match_attributes`.
#[verifier::external_body]
fn parse_page(document: &str) -> (p: ParsedPage)
    ensures
        p.document@ == document@,
{
    ParsedPage { document: document.to_string(), html: Html::parse_document(document) }
}

/// A selection path: each step `(css, i)` takes the `i`-th (from 0) element
/// that selector `css` matches; the first step among the elements of the
/// document as `Html::select` yields them, each later step among the
/// descendants of the element reached so far, as `ElementRef::select` yields
/// them.
///
/// `scraped_texts(document, path, css)` is what `scraper` finds for the
/// parsed `document`: the elements that `css` matches (in the document for an
/// empty path, else among the descendants of the element the path reaches),
/// each given by its text nodes (`ElementRef::text`). `None` where a selector
/// does not parse or a step has no `i`-th match.
pub uninterp spec fn scraped_texts(
    document: Seq<char>,
    path: Seq<(Seq<char>, usize)>,
    css: Seq<char>,
) -> Option<Seq<Seq<Seq<char>>>>;

/// As `scraped_texts`, but each matched element is given by the value of its
/// attribute `name` (`Element::attr`), `None` where it has no such attribute.
pub uninterp spec fn scraped_attributes(
    document: Seq<char>,
    path: Seq<(Seq<char>, usize)>,
    css: Seq<char>,
    name: Seq<char>,
) -> Option<Seq<Option<Seq<char>>>>;

/// `Selector::parse`, `Html::select`, `ElementRef::select` with `nth`, and
/// `ElementRef::text`: the text nodes of each element that `css` matches at
/// the end of `path` (see `scraped_texts`, which names the result).
#[verifier::external_body]
fn match_texts(page: &ParsedPage, path: &Vec<(String, usize)>, css: &str) -> (r: Option<
    Vec<Vec<String>>,
>)
    ensures
        r.deep_view() == scraped_texts(page.document@, path.deep_view(), css@),
{
    let mut e: Option<ElementRef> = None;
    for (c, i) in path {
        let s = Selector::parse(c).ok()?;
        e = Some(match e { None => page.html.select(&s).nth(*i)?, Some(x) => x.select(&s).nth(*i)? });
    }
    let s = Selector::parse(css).ok()?;
    Some(match e {
        None => page.html.select(&s).map(|m| m.text().map(String::from).collect()).collect(),
        Some(x) => x.select(&s).map(|m| m.text().map(String::from).collect()).collect(),
    })
}

/// As `match_texts`, with `Element::attr`: the value of attribute `name` of
/// each element that `css` matches at the end of `path` (see
/// `scraped_attributes`, which names the result).
#[verifier::external_body]
fn match_attributes(page: &ParsedPage, path: &Vec<(String, usize)>, css: &str, name: &str) -> (r:
    Option<Vec<Option<String>>>)
    ensures
        r.deep_view() == scraped_attributes(page.document@, path.deep_view(), css@, name@),
{
    let mut e: Option<ElementRef> = None;
    for (c, i) in path {
        let s = Selector::parse(c).ok()?;
        e = Some(match e { None => page.html.select(&s).nth(*i)?, Some(x) => x.select(&s).nth(*i)? });
    }
    let s = Selector::parse(css).ok()?;
    Some(match e {
        None => page.html.select(&s).map(|m| m.value().attr(name).map(String::from)).collect(),
        Some(x) => x.select(&s).map(|m| m.value().attr(name).map(String::from)).collect(),
    })
}

/// The sequence held by `r`, or the empty sequence for `None`.
pub open spec fn or_empty<T>(r: Option<Seq<T>>) -> Seq<T> {
    match r {
        Some(s) => s,
        None => Seq::empty(),
    }
}

/// `c` is the cell reached by `path` in `document`, whose text nodes are
/// `texts`: its `span.rohs` elements counted, the `href` of its `a`
/// elements, and the text nodes of its `span.origin-price` elements.
pub open spec fn cell_read(
    c: TableCell,
    document: Seq<char>,
    path: Seq<(Seq<char>, usize)>,
    texts: Seq<Seq<char>>,
) -> bool {
    &&& c.texts.deep_view() == texts
    &&& c.rohs_marks == or_empty(scraped_texts(document, path, "span.rohs"@)).len()
    &&& c.link_targets.deep_view() == or_empty(scraped_attributes(document, path, "a"@, "href"@))
    &&& c.original_prices.deep_view() == or_empty(
        scraped_texts(document, path, "span.origin-price"@),
    )
}

/// `cells` are the `td` cells of the row reached by `path`, in order.
pub open spec fn row_read(
    cells: Seq<TableCell>,
    document: Seq<char>,
    path: Seq<(Seq<char>, usize)>,
) -> bool {
    let tds = or_empty(scraped_texts(document, path, "td"@));
    &&& cells.len() == tds.len()
    &&& forall|k: int|
        0 <= k < cells.len() ==> cell_read(
            #[trigger] cells[k],
            document,
            path.push(("td"@, k as usize)),
            tds[k],
        )
}

/// `rows` are the `tbody > tr` rows of the table reached by `path`, in order.
pub open spec fn table_read(
    rows: Seq<Vec<TableCell>>,
    document: Seq<char>,
    path: Seq<(Seq<char>, usize)>,
) -> bool {
    &&& rows.len() == or_empty(scraped_texts(document, path, "tbody > tr"@)).len()
    &&& forall|j: int|
        0 <= j < rows.len() ==> row_read(
            #[trigger] rows[j]@,
            document,
            path.push(("tbody > tr"@, j as usize)),
        )
}

/// `tables` are the tables of `document` that `css` selects, in order.
pub open spec fn tables_read(
    tables: Seq<Vec<Vec<TableCell>>>,
    document: Seq<char>,
    css: Seq<char>,
) -> bool {
    &&& tables.len() == or_empty(scraped_texts(document, Seq::empty(), css)).len()
    &&& forall|t: int|
        0 <= t < tables.len() ==> table_read(
            #[trigger] tables[t]@,
            document,
            seq![(css, t as usize)],
        )
}

/// `path` with the step `(css, i)` added.
fn extend_path(path: &Vec<(String, usize)>, css: &str, i: usize) -> (r: Vec<(String, usize)>)
    ensures
        r.deep_view() == path.deep_view().push((css@, i)),
{
    let mut r: Vec<(String, usize)> = Vec::new();
    let mut j: usize = 0;
    while j < path.len()
        invariant
            j <= path.len(),
            r@.len() == j,
            r.deep_view() == path.deep_view().take(j as int),
        decreases path.len() - j,
    {
        let step = (path[j].0.clone(), path[j].1);
        let ghost before = r@;
        r.push(step);
        proof {
            assert forall|m: int| 0 <= m < j + 1 implies #[trigger] r.deep_view()[m]
                == path.deep_view().take(j + 1)[m] by {
                if m < j {
                    assert(r@[m] == before[m]);
                }
            }
            assert(r.deep_view() =~= path.deep_view().take(j + 1));
        }
        j = j + 1;
    }
    let ghost before = r@;
    r.push((css.to_owned(), i));
    proof {
        assert(path.deep_view().take(path.len() as int) =~= path.deep_view());
        assert forall|m: int| 0 <= m < path.len() implies #[trigger] r.deep_view()[m]
            == path.deep_view()[m] by {
            assert(r@[m] == before[m]);
        }
        assert(r.deep_view() =~= path.deep_view().push((css@, i)));
    }
    r
}

/// A copy of `v`.
fn copy_texts(v: &Vec<String>) -> (r: Vec<String>)
    ensures
        r.deep_view() == v.deep_view(),
{
    let mut r: Vec<String> = Vec::new();
    let mut j: usize = 0;
    while j < v.len()
        invariant
            j <= v.len(),
            r@.len() == j,
            r.deep_view() == v.deep_view().take(j as int),
        decreases v.len() - j,
    {
        let ghost before = r@;
        r.push(v[j].clone());
        proof {
            assert forall|m: int| 0 <= m < j + 1 implies #[trigger] r.deep_view()[m]
                == v.deep_view().take(j + 1)[m] by {
                if m < j {
                    assert(r@[m] == before[m]);
                }
            }
            assert(r.deep_view() =~= v.deep_view().take(j + 1));
        }
        j = j + 1;
    }
    proof {
        assert(v.deep_view().take(v.len() as int) =~= v.deep_view());
    }
    r
}

/// An empty list of matches.
fn no_texts() -> (r: Vec<Vec<String>>)
    ensures
        r.deep_view() == Seq::<Seq<Seq<char>>>::empty(),
{
    let r: Vec<Vec<String>> = Vec::new();
    assert(r.deep_view() =~= Seq::<Seq<Seq<char>>>::empty());
    r
}

/// Reads the cell reached by `path`, whose text nodes are `texts`.
fn read_cell(page: &ParsedPage, path: &Vec<(String, usize)>, texts: Vec<String>) -> (c: TableCell)
    ensures
        cell_read(c, page.document@, path.deep_view(), texts.deep_view()),
{
    let rohs_marks = match match_texts(page, path, "span.rohs") {
        Some(marks) => marks.len(),
        None => 0,
    };
    let link_targets = match match_attributes(page, path, "a", "href") {
        Some(links) => links,
        None => {
            let none: Vec<Option<String>> = Vec::new();
            assert(none.deep_view() =~= Seq::<Option<Seq<char>>>::empty());
            none
        },
    };
    let original_prices = match match_texts(page, path, "span.origin-price") {
        Some(prices) => prices,
        None => no_texts(),
    };
    TableCell { texts, rohs_marks, link_targets, original_prices }
}

/// Reads the `td` cells of the row reached by `path`.
fn read_row(page: &ParsedPage, path: &Vec<(String, usize)>) -> (cells: Vec<TableCell>)
    ensures
        row_read(cells@, page.document@, path.deep_view()),
{
    let ghost doc = page.document@;
    let tds = match match_texts(page, path, "td") {
        Some(tds) => tds,
        None => no_texts(),
    };
    let ghost all = tds.deep_view();
    let mut cells: Vec<TableCell> = Vec::new();
    let mut k: usize = 0;
    while k < tds.len()
        invariant
            k <= tds.len(),
            doc == page.document@,
            all == tds.deep_view(),
            all == or_empty(scraped_texts(doc, path.deep_view(), "td"@)),
            cells@.len() == k,
            forall|m: int|
                0 <= m < k ==> cell_read(
                    #[trigger] cells@[m],
                    doc,
                    path.deep_view().push(("td"@, m as usize)),
                    all[m],
                ),
        decreases tds.len() - k,
    {
        let cell_path = extend_path(path, "td", k);
        let texts = copy_texts(&tds[k]);
        let cell = read_cell(page, &cell_path, texts);
        cells.push(cell);
        k = k + 1;
    }
    cells
}

/// Reads the `tbody > tr` rows of the table reached by `path`.
fn read_table(page: &ParsedPage, path: &Vec<(String, usize)>) -> (rows: Vec<Vec<TableCell>>)
    ensures
        table_read(rows@, page.document@, path.deep_view()),
{
    let ghost doc = page.document@;
    let count = match match_texts(page, path, "tbody > tr") {
        Some(found) => found.len(),
        None => 0,
    };
    let mut rows: Vec<Vec<TableCell>> = Vec::new();
    let mut j: usize = 0;
    while j < count
        invariant
            j <= count,
            doc == page.document@,
            count == or_empty(scraped_texts(doc, path.deep_view(), "tbody > tr"@)).len(),
            rows@.len() == j,
            forall|m: int|
                0 <= m < j ==> row_read(
                    #[trigger] rows@[m]@,
                    doc,
                    path.deep_view().push(("tbody > tr"@, m as usize)),
                ),
        decreases count - j,
    {
        let row_path = extend_path(path, "tbody > tr", j);
        let row = read_row(page, &row_path);
        rows.push(row);
        j = j + 1;
    }
    rows
}

/// Reads every table of the page that `css` selects.
fn read_tables(page: &ParsedPage, css: &str) -> (tables: Vec<Vec<Vec<TableCell>>>)
    ensures
        tables_read(tables@, page.document@, css@),
{
    let ghost doc = page.document@;
    let root: Vec<(String, usize)> = Vec::new();
    proof {
        assert(root.deep_view() =~= Seq::<(Seq<char>, usize)>::empty());
    }
    let count = match match_texts(page, &root, css) {
        Some(found) => found.len(),
        None => 0,
    };
    let mut tables: Vec<Vec<Vec<TableCell>>> = Vec::new();
    let mut t: usize = 0;
    while t < count
        invariant
            t <= count,
            doc == page.document@,
            root.deep_view() == Seq::<(Seq<char>, usize)>::empty(),
            count == or_empty(scraped_texts(doc, Seq::empty(), css@)).len(),
            tables@.len() == t,
            forall|m: int|
                0 <= m < t ==> table_read(#[trigger] tables@[m]@, doc, seq![(css@, m as usize)]),
        decreases count - t,
    {
        let table_path = extend_path(&root, css, t);
        proof {
            assert(table_path.deep_view() =~= seq![(css@, t)]);
        }
        let table = read_table(page, &table_path);
        tables.push(table);
        t = t + 1;
    }
    tables
}

/// Reads the specification, information and price tables of an LCSC product
/// page: the tables that `table.products-specifications`, `table.info-table`
/// and `table.main-table` select, each with its rows and cells as `scraper`
/// finds them in the document.
pub fn read_product_page(document: &str) -> (r: LcscTables)
    ensures
        tables_read(r.spec@, document@, "table.products-specifications"@),
        tables_read(r.info@, document@, "table.info-table"@),
        tables_read(r.price@, document@, "table.main-table"@),
{
    let page = parse_page(document);
    let spec = read_tables(&page, "table.products-specifications");
    let info = read_tables(&page, "table.info-table");
    let price = read_tables(&page, "table.main-table");
    LcscTables { spec, info, price }
}

} // verus!
