use lcsc_scrape::lcsc::{
    lcsc_search_url, product_link, SearchResponse, SearchResult, SearchResultLink,
};
use lcsc_scrape::page::{
    extract_row_kvp, extract_table_kvp, flatten, product_page_pairs, LcscTables, TableCell,
};
use lcsc_scrape::scrape::read_product_page;

fn s(x: &str) -> String {
    x.to_string()
}

fn pair(k: &str, v: &str) -> (String, String) {
    (s(k), s(v))
}

fn cell(texts: &[&str]) -> TableCell {
    TableCell {
        texts: texts.iter().map(|t| s(t)).collect(),
        rohs_marks: 0,
        link_targets: vec![],
        original_prices: vec![],
    }
}

#[test]
fn flatten_trims_and_keeps_ascii() {
    assert_eq!(flatten(&vec![s("  10µF "), s("\n"), s(" ±5% ")]), "10F5%");
    assert_eq!(flatten(&vec![]), "");
}

#[test]
fn row_with_too_few_cells_is_an_error() {
    assert_eq!(extract_row_kvp(&vec![]), Err(()));
    assert_eq!(extract_row_kvp(&vec![cell(&["Key"])]), Err(()));
}

#[test]
fn plain_row() {
    let r = extract_row_kvp(&vec![cell(&[" Package "]), cell(&["0603", " "]), cell(&["x"])]);
    assert_eq!(r, Ok(Some(pair("Package", "0603"))));
}

#[test]
fn dash_means_no_value() {
    assert_eq!(extract_row_kvp(&vec![cell(&["Package"]), cell(&[" - "])]), Ok(None));
    assert_eq!(extract_row_kvp(&vec![cell(&["RoHS"]), cell(&["-"])]), Ok(None));
}

#[test]
fn blank_means_no_value() {
    assert_eq!(extract_row_kvp(&vec![cell(&["Package"]), cell(&[" "])]), Ok(None));
    assert_eq!(extract_row_kvp(&vec![cell(&["Package"]), cell(&[])]), Ok(None));
    assert_eq!(extract_row_kvp(&vec![cell(&["Datasheet"]), cell(&[" "])]), Ok(None));
}

#[test]
fn blank_rohs_and_datasheet_cells_keep_their_marks() {
    let mut marked = cell(&["\n"]);
    marked.rohs_marks = 1;
    assert_eq!(extract_row_kvp(&vec![cell(&["RoHS"]), marked]), Ok(Some(pair("RoHS", "true"))));
    assert_eq!(
        extract_row_kvp(&vec![cell(&["RoHS"]), cell(&[""])]),
        Ok(Some(pair("RoHS", "false")))
    );
    let mut icon = cell(&[" "]);
    icon.link_targets = vec![Some(s("d.pdf"))];
    assert_eq!(
        extract_row_kvp(&vec![cell(&["Datasheet"]), icon]),
        Ok(Some(pair("Datasheet", "d.pdf")))
    );
}

#[test]
fn rohs_row() {
    let mut yes = cell(&["Yes"]);
    yes.rohs_marks = 1;
    assert_eq!(extract_row_kvp(&vec![cell(&["RoHS"]), yes]), Ok(Some(pair("RoHS", "true"))));
    assert_eq!(
        extract_row_kvp(&vec![cell(&["RoHS"]), cell(&["Yes"])]),
        Ok(Some(pair("RoHS", "false")))
    );
}

#[test]
fn datasheet_row_takes_last_link() {
    let mut links = cell(&["Download"]);
    links.link_targets = vec![Some(s("a.pdf")), Some(s("b.pdf")), None];
    assert_eq!(
        extract_row_kvp(&vec![cell(&["Datasheet"]), links]),
        Ok(Some(pair("Datasheet", "b.pdf")))
    );
    let mut none = cell(&["Download"]);
    none.link_targets = vec![None];
    assert_eq!(
        extract_row_kvp(&vec![cell(&["Datasheet"]), none]),
        Ok(Some(pair("Datasheet", "Download")))
    );
}

#[test]
fn skipped_keys() {
    assert_eq!(extract_row_kvp(&vec![cell(&["EasyEDA Libraries"]), cell(&["x"])]), Ok(None));
    assert_eq!(extract_row_kvp(&vec![cell(&["Customer #"]), cell(&["x"])]), Ok(None));
}

#[test]
fn discounted_price_takes_original() {
    let mut price = cell(&["US$0.10", "US$0.08"]);
    price.original_prices = vec![vec![s(" US$0.10 ")]];
    assert_eq!(
        extract_row_kvp(&vec![cell(&["10+"]), price]),
        Ok(Some(pair("10+", "US$0.10")))
    );
    let single = cell(&["US$0.10"]);
    assert_eq!(extract_row_kvp(&vec![cell(&["10+"]), single]), Ok(Some(pair("10+", "US$0.10"))));
    let no_span = cell(&["US$0.10", "US$0.08"]);
    assert_eq!(
        extract_row_kvp(&vec![cell(&["10+"]), no_span]),
        Ok(Some(pair("10+", "US$0.10US$0.08")))
    );
}

#[test]
fn tables_in_order() {
    let tables = vec![
        vec![vec![cell(&["A"]), cell(&["1"])], vec![cell(&["only"])]],
        vec![vec![cell(&["B"]), cell(&["-"])], vec![cell(&["C"]), cell(&["3"])]],
    ];
    assert_eq!(extract_table_kvp(&tables), vec![pair("A", "1"), pair("C", "3")]);
}

#[test]
fn page_pairs_prefix_prices() {
    let tables = LcscTables {
        spec: vec![vec![vec![cell(&["Package"]), cell(&["0603"])]]],
        info: vec![vec![vec![cell(&["Manufacturer"]), cell(&["X"])]]],
        price: vec![vec![vec![cell(&["10+"]), cell(&["US$0.1"])]]],
    };
    assert_eq!(
        product_page_pairs(&tables),
        vec![pair("Package", "0603"), pair("Manufacturer", "X"), pair("Price 10+", "US$0.1")]
    );
}

const PAGE: &str = r#"<html><body>
<table class="products-specifications"><tbody>
<tr><td>Package</td><td> 0603 </td></tr>
<tr><td>RoHS</td><td><span class="rohs">ok</span></td></tr>
<tr><td>lonely</td></tr>
</tbody></table>
<table class="info-table"><tbody>
<tr><td>Datasheet</td><td><a href="https://example.com/d.pdf">PDF</a></td></tr>
<tr><td>Customer #</td><td>abc</td></tr>
</tbody></table>
<table class="main-table"><tbody>
<tr><td>10+</td><td><span class="origin-price">US$0.20</span> US$0.15</td></tr>
<tr><td>100+</td><td>US$0.12</td></tr>
</tbody></table>
</body></html>"#;

#[test]
fn product_page_is_read() {
    let tables = read_product_page(PAGE);
    assert_eq!(
        product_page_pairs(&tables),
        vec![
            pair("Package", "0603"),
            pair("RoHS", "true"),
            pair("Datasheet", "https://example.com/d.pdf"),
            pair("Price 10+", "US$0.20"),
            pair("Price 100+", "US$0.12"),
        ]
    );
}

#[test]
fn empty_page_gives_nothing() {
    let tables = read_product_page("<html></html>");
    assert!(product_page_pairs(&tables).is_empty());
}

#[test]
fn search_result_link() {
    let link = SearchResult::Link(SearchResultLink { lcsc_part_number: true, links: s("/p/1") });
    assert!(link.is_link());
    assert_eq!(link.get_link().links, "/p/1");
    assert!(!SearchResult::Array(vec![]).is_link());
}

#[test]
fn search_url() {
    assert_eq!(
        lcsc_search_url("C25804"),
        "https://lcsc.com/api/global/additional/search?q=C25804"
    );
}

#[test]
fn product_link_outcomes() {
    let ok = SearchResponse {
        success: true,
        message: s(""),
        result: SearchResult::Link(SearchResultLink {
            lcsc_part_number: true,
            links: s("/product-detail/C25804.html"),
        }),
    };
    assert_eq!(
        product_link(ok).ok().unwrap(),
        "https://lcsc.com/product-detail/C25804.html"
    );
    let no_link = SearchResponse { success: true, message: s(""), result: SearchResult::Array(vec![]) };
    let e = product_link(no_link).err().unwrap();
    assert!(e.success && !e.is_link);
    let failed = SearchResponse {
        success: false,
        message: s("x"),
        result: SearchResult::Link(SearchResultLink { lcsc_part_number: false, links: s("/p") }),
    };
    let e = product_link(failed).err().unwrap();
    assert!(!e.success && e.is_link);
}
