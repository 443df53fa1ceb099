//! Data returned by the JLCPCB SMT component search, and the logic that
//! combines and reads it.

use vstd::prelude::*;
use crate::text::{concat_text, decimal, int_decimal, pair_view, push_char, push_str};

verus! {

/// Library type of a JLCPCB SMT part.
#[derive(Debug, Clone, Copy, PartialEq, Eq, Structural)]
pub enum JlcComponentLibraryType {
    Expand,
    Basic,
    Base,
}

impl Default for JlcComponentLibraryType {
    fn default() -> (r: JlcComponentLibraryType)
        ensures
            r == JlcComponentLibraryType::Basic,
    {
        JlcComponentLibraryType::Basic
    }
}

impl JlcComponentLibraryType {
    /// Everything except an "expanded" part counts as a basic part.
    pub open spec fn spec_is_basic(self) -> bool {
        !(self is Expand)
    }

    pub fn is_basic(&self) -> (r: bool)
        ensures
            r == self.spec_is_basic(),
    {
        match self {
            JlcComponentLibraryType::Expand => false,
            _ => true,
        }
    }
}

/// One price break of a JLCPCB part. The price is held as the text that
/// `Display` gives for the price the service returned.
pub struct JlcComponentPrice {
    pub product_price: String,
    pub start_number: isize,
    pub end_number: isize,
}

/// One part in a JLCPCB search result.
pub struct JlcSmtCompListItem {
    pub stock_count: isize,
    pub component_code: String,
    pub component_library_type: JlcComponentLibraryType,
    pub component_prices: Vec<JlcComponentPrice>,
    pub describe: Option<String>,
    pub data_manual_url: Option<String>,
}

/// One page of a JLCPCB search result.
pub struct JlcSmtCompListData {
    pub total: isize,
    pub list: Vec<JlcSmtCompListItem>,
}

/// A JLCPCB search response, or several of them merged.
pub struct JlcSmtCompListResult {
    pub code: isize,
    pub data: JlcSmtCompListData,
    pub message: Option<String>,
}

/// The abstract content of a search result.
pub struct JlcResultView {
    pub code: int,
    pub total: int,
    pub list: Seq<JlcSmtCompListItem>,
    pub message: Option<Seq<char>>,
}

impl View for JlcSmtCompListResult {
    type V = JlcResultView;

    open spec fn view(&self) -> JlcResultView {
        JlcResultView {
            code: self.code as int,
            total: self.data.total as int,
            list: self.data.list@,
            message: self.message.deep_view(),
        }
    }
}

/// The empty result a merge starts from.
pub open spec fn empty_result_view() -> JlcResultView {
    JlcResultView { code: 0, total: 0, list: Seq::empty(), message: None }
}

/// Two optional messages joined by a newline; a missing one contributes nothing.
pub open spec fn joined_message(a: Option<Seq<char>>, b: Option<Seq<char>>) -> Option<Seq<char>> {
    match b {
        None => a,
        Some(y) => match a {
            None => Some(y),
            Some(x) => Some(x + seq!['\n'] + y),
        },
    }
}

/// `a` with the page `b` merged into it: `b`'s code, both lists in order,
/// the larger total, and both messages.
pub open spec fn merge_view(a: JlcResultView, b: JlcResultView) -> JlcResultView {
    JlcResultView {
        code: b.code,
        total: if a.total >= b.total {
            a.total
        } else {
            b.total
        },
        list: a.list + b.list,
        message: joined_message(a.message, b.message),
    }
}

impl Default for JlcSmtCompListResult {
    fn default() -> (r: JlcSmtCompListResult)
        ensures
            r@ == empty_result_view(),
    {
        let r = JlcSmtCompListResult {
            code: 0,
            data: JlcSmtCompListData { total: 0, list: Vec::new() },
            message: None,
        };
        proof {
            assert(r@.list =~= Seq::<JlcSmtCompListItem>::empty());
        }
        r
    }
}

impl JlcSmtCompListResult {
    /// Merges another page of results into this one.
    pub fn merge(&mut self, other: Self)
        ensures
            final(self)@ == merge_view(old(self)@, other@),
    {
        let JlcSmtCompListResult { code, data, message } = other;
        let JlcSmtCompListData { total, list } = data;
        let mut list = list;
        self.code = code;
        self.data.list.append(&mut list);
        if total > self.data.total {
            self.data.total = total;
        }
        match message {
            Some(o_msg) => {
                let mine = self.message.take();
                match mine {
                    Some(msg) => {
                        let mut msg = msg;
                        push_char(&mut msg, '\n');
                        push_str(&mut msg, o_msg.as_str());
                        self.message = Some(msg);
                    },
                    None => {
                        self.message = Some(o_msg);
                    },
                }
            },
            None => {},
        }
        proof {
            assert(self@.message == merge_view(old(self)@, other@).message);
            assert(self@ =~= merge_view(old(self)@, other@));
        }
    }
}

/// Merging is associative: merging pages one at a time gives the same result
/// however the merges are grouped.
pub proof fn lemma_merge_associative(a: JlcResultView, b: JlcResultView, c: JlcResultView)
    ensures
        merge_view(merge_view(a, b), c) == merge_view(a, merge_view(b, c)),
{
    assert(a.list + b.list + c.list =~= a.list + (b.list + c.list));
    match (a.message, b.message, c.message) {
        (Some(x), Some(y), Some(z)) => {
            assert(x + seq!['\n'] + y + seq!['\n'] + z =~= x + seq!['\n'] + (y + seq!['\n'] + z));
        },
        _ => {},
    }
    assert(merge_view(merge_view(a, b), c) =~= merge_view(a, merge_view(b, c)));
}

/// Merging a page into the empty result gives back that page, when its total
/// is not negative.
pub proof fn lemma_merge_into_empty(b: JlcResultView)
    requires
        b.total >= 0,
    ensures
        merge_view(empty_result_view(), b) == b,
{
    assert(Seq::<JlcSmtCompListItem>::empty() + b.list =~= b.list);
    assert(merge_view(empty_result_view(), b) =~= b);
}

/// The form fields of a request for page `page` of the search for `part_number`.
pub open spec fn search_form(part_number: Seq<char>, page: int) -> Seq<(Seq<char>, Seq<char>)> {
    seq![
        ("pageSize"@, "10"@),
        ("searchSource"@, "search"@),
        ("keyword"@, part_number),
        ("currentPage"@, int_decimal(page)),
    ]
}

/// Whether the merged result still lacks parts the service reported: a
/// negative total counts as unbounded, as converting it to `usize` makes it.
pub open spec fn more_pages(v: JlcResultView) -> bool {
    v.total < 0 || v.list.len() < v.total
}

/// The state of a paged JLCPCB search: the pages merged so far and the
/// number of the page to request next.
pub struct JlcPager {
    pub merged: JlcSmtCompListResult,
    pub current_page: u64,
}

impl JlcPager {
    /// A search that has received nothing and asks for page 1 first.
    pub fn new() -> (p: JlcPager)
        ensures
            p.merged@ == empty_result_view(),
            p.current_page == 1,
    {
        JlcPager { merged: JlcSmtCompListResult::default(), current_page: 1 }
    }

    /// The form fields of the request for the current page.
    pub fn request_form(&self, part_number: &str) -> (r: Vec<(String, String)>)
        ensures
            r@.map_values(|p: (String, String)| pair_view(p)) == search_form(
                part_number@,
                self.current_page as int,
            ),
    {
        let mut r: Vec<(String, String)> = Vec::new();
        r.push(("pageSize".to_owned(), "10".to_owned()));
        r.push(("searchSource".to_owned(), "search".to_owned()));
        r.push(("keyword".to_owned(), part_number.to_owned()));
        r.push(("currentPage".to_owned(), decimal(self.current_page as i128)));
        proof {
            assert(r@.map_values(|p: (String, String)| pair_view(p)) =~= search_form(
                part_number@,
                self.current_page as int,
            ));
        }
        r
    }

    /// Takes in the response for the current page. A response whose code is
    /// not 200 is refused with that code and leaves the state as it was;
    /// otherwise the page is merged in, the next page becomes current, and
    /// the result says whether more pages are to be fetched.
    pub fn accept_page(&mut self, page: JlcSmtCompListResult) -> (r: Result<bool, isize>)
        requires
            old(self).current_page < u64::MAX,
        ensures
            page.code != 200 ==> {
                &&& r == Err::<bool, isize>(page.code)
                &&& final(self).merged@ == old(self).merged@
                &&& final(self).current_page == old(self).current_page
            },
            page.code == 200 ==> {
                &&& final(self).merged@ == merge_view(old(self).merged@, page@)
                &&& final(self).current_page == old(self).current_page + 1
                &&& r == Ok::<bool, isize>(more_pages(final(self).merged@))
            },
    {
        if page.code != 200 {
            return Err(page.code);
        }
        self.merged.merge(page);
        self.current_page = self.current_page + 1;
        let total = self.merged.data.total;
        let more = total < 0 || self.merged.data.list.len() < total as usize;
        Ok(more)
    }
}

/// A field that is present becomes one pair; an absent one none.
pub open spec fn optional_pair(key: Seq<char>, value: Option<Seq<char>>) -> Seq<
    (Seq<char>, Seq<char>),
> {
    match value {
        Some(v) => seq![(key, v)],
        None => Seq::empty(),
    }
}

/// The key of the price break that starts at `start`.
pub open spec fn price_break_key(start: int) -> Seq<char> {
    "Price JLC "@ + int_decimal(start) + "+"@
}

/// The pairs recorded for a part found in a JLCPCB result: stock, then the
/// description and datasheet where present, then one pair per price break.
pub open spec fn item_pairs(item: JlcSmtCompListItem) -> Seq<(Seq<char>, Seq<char>)> {
    seq![("JLC_Stock"@, int_decimal(item.stock_count as int))] + optional_pair(
        "JLC_Description"@,
        item.describe.deep_view(),
    ) + optional_pair("JLC_Datasheet"@, item.data_manual_url.deep_view())
        + item.component_prices@.map_values(
        |p: JlcComponentPrice| (price_break_key(p.start_number as int), p.product_price@),
    )
}

/// The pairs of a found part, field by field: the stock first; then the
/// description where there is one; then the datasheet link where there is
/// one, whether or not there is a description; then one pair per price
/// break, in order; and nothing else.
pub proof fn lemma_item_pairs_fields(item: JlcSmtCompListItem)
    ensures
        item_pairs(item).len() == 1 + (if item.describe is Some {
            1int
        } else {
            0
        }) + (if item.data_manual_url is Some {
            1int
        } else {
            0
        }) + item.component_prices@.len(),
        item_pairs(item)[0] == ("JLC_Stock"@, int_decimal(item.stock_count as int)),
        item.describe matches Some(d) ==> item_pairs(item)[1] == ("JLC_Description"@, d@),
        item.data_manual_url matches Some(u) ==> item_pairs(item)[if item.describe is Some {
            2int
        } else {
            1
        }] == ("JLC_Datasheet"@, u@),
        item.data_manual_url matches Some(u) ==> item_pairs(item).contains(("JLC_Datasheet"@, u@)),
        item.describe matches Some(d) ==> item_pairs(item).contains(("JLC_Description"@, d@)),
        forall|k: int|
            0 <= k < item.component_prices@.len() ==> #[trigger] item_pairs(item)[item_pairs(
                item,
            ).len() - item.component_prices@.len() + k] == (
                price_break_key(item.component_prices@[k].start_number as int),
                item.component_prices@[k].product_price@,
            ),
{
    let pairs = item_pairs(item);
    if item.data_manual_url is Some {
        let j: int = if item.describe is Some {
            2
        } else {
            1
        };
        assert(pairs[j] == ("JLC_Datasheet"@, item.data_manual_url.deep_view()->0));
    }
    if item.describe is Some {
        assert(pairs[1] == ("JLC_Description"@, item.describe.deep_view()->0));
    }
}

/// What a JLCPCB result says about one part.
pub enum JlcPartInfo {
    /// The response code was not 200.
    BadCode(isize),
    /// No item of the result has the part's code.
    Missing,
    /// The first item with the part's code: whether it is a basic part, and its pairs.
    Found { basic: bool, pairs: Vec<(String, String)> },
}

/// Whether the part at `i` is the first in `list` with code `part`.
pub open spec fn first_with_code(list: Seq<JlcSmtCompListItem>, part: Seq<char>, i: int) -> bool {
    &&& 0 <= i < list.len()
    &&& list[i].component_code@ == part
    &&& forall|j: int| 0 <= j < i ==> #[trigger] list[j].component_code@ != part
}

fn optional_field(out: &mut Vec<(String, String)>, key: &str, value: &Option<String>)
    ensures
        final(out)@.map_values(|p: (String, String)| pair_view(p)) == old(out)@.map_values(
            |p: (String, String)| pair_view(p),
        ) + optional_pair(key@, value.deep_view()),
{
    let ghost before = out@;
    match value {
        Some(v) => {
            out.push((key.to_owned(), v.clone()));
        },
        None => {},
    }
    proof {
        assert(out@.map_values(|p: (String, String)| pair_view(p)) =~= before.map_values(
            |p: (String, String)| pair_view(p),
        ) + optional_pair(key@, value.deep_view()));
    }
}

/// The pairs recorded for a part found in a JLCPCB result.
pub fn jlc_item_pairs(item: &JlcSmtCompListItem) -> (r: Vec<(String, String)>)
    ensures
        r@.map_values(|p: (String, String)| pair_view(p)) == item_pairs(*item),
{
    let mut r: Vec<(String, String)> = Vec::new();
    r.push(("JLC_Stock".to_owned(), decimal(item.stock_count as i128)));
    proof {
        assert(r@.map_values(|p: (String, String)| pair_view(p)) =~= seq![
            ("JLC_Stock"@, int_decimal(item.stock_count as int)),
        ]);
    }
    optional_field(&mut r, "JLC_Description", &item.describe);
    optional_field(&mut r, "JLC_Datasheet", &item.data_manual_url);
    let ghost head = r@.map_values(|p: (String, String)| pair_view(p));
    let ghost tail = item.component_prices@.map_values(
        |p: JlcComponentPrice| (price_break_key(p.start_number as int), p.product_price@),
    );
    let prices = &item.component_prices;
    let mut i: usize = 0;
    while i < prices.len()
        invariant
            i <= prices.len(),
            prices@ == item.component_prices@,
            tail == item.component_prices@.map_values(
                |p: JlcComponentPrice| (price_break_key(p.start_number as int), p.product_price@),
            ),
            r@.map_values(|p: (String, String)| pair_view(p)) == head + tail.take(i as int),
        decreases prices.len() - i,
    {
        let ghost prev = r@;
        let number = decimal(prices[i].start_number as i128);
        let key = concat_text("Price JLC ", number.as_str());
        let key = concat_text(key.as_str(), "+");
        r.push((key, prices[i].product_price.clone()));
        proof {
            assert(r@.map_values(|p: (String, String)| pair_view(p)) =~= prev.map_values(
                |p: (String, String)| pair_view(p),
            ).push(tail[i as int]));
            assert(tail.take(i + 1) =~= tail.take(i as int).push(tail[i as int]));
        }
        i = i + 1;
    }
    proof {
        assert(tail.take(prices.len() as int) =~= tail);
    }
    r
}

/// What the result `info` says about part `part`: the first item whose code
/// is `part` decides.
pub fn jlc_part_info(info: &JlcSmtCompListResult, part: &str) -> (r: JlcPartInfo)
    ensures
        info.code != 200 ==> r == JlcPartInfo::BadCode(info.code),
        info.code == 200 ==> match r {
            JlcPartInfo::BadCode(_) => false,
            JlcPartInfo::Missing => forall|j: int|
                0 <= j < info.data.list@.len() ==> #[trigger] info.data.list@[j].component_code@
                    != part@,
            JlcPartInfo::Found { basic, pairs } => exists|i: int|
                #![trigger info.data.list@[i]]
                first_with_code(info.data.list@, part@, i) && basic
                    == info.data.list@[i].component_library_type.spec_is_basic()
                    && pairs@.map_values(|p: (String, String)| pair_view(p)) == item_pairs(
                    info.data.list@[i],
                ),
        },
{
    if info.code != 200 {
        return JlcPartInfo::BadCode(info.code);
    }
    let list = &info.data.list;
    let mut i: usize = 0;
    while i < list.len()
        invariant
            i <= list.len(),
            info.code == 200,
            list@ == info.data.list@,
            forall|j: int| 0 <= j < i ==> #[trigger] list@[j].component_code@ != part@,
        decreases list.len() - i,
    {
        if crate::text::same_text(list[i].component_code.as_str(), part) {
            let basic = list[i].component_library_type.is_basic();
            let pairs = jlc_item_pairs(&list[i]);
            proof {
                assert(first_with_code(info.data.list@, part@, i as int));
            }
            return JlcPartInfo::Found { basic, pairs };
        }
        i = i + 1;
    }
    JlcPartInfo::Missing
}

} // verus!
