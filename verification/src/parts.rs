//! Part numbers and the record kept for each part: validation, the basic-part
//! marker, combining the JLCPCB and LCSC data, and removing duplicate keys.

use vstd::prelude::*;
use crate::jlc::JlcPartInfo;
use crate::pattern::{regex_is_match, regex_matches, PART_NUMBER_PATTERN};
use crate::text::{
    bool_string, bool_text, chars_of, concat_text, contains_seq, ends_with, has_substring,
    has_suffix, is_white_space, pair_view, push_char, string_of, white_space,
};

verus! {

/// Whether `part` is accepted as a part number.
pub open spec fn valid_part_number(part: Seq<char>) -> bool {
    regex_matches(PART_NUMBER_PATTERN@, part) == Some(true)
}

/// Whether one part number is accepted.
pub fn is_valid_part_number(part: &str) -> (r: bool)
    ensures
        r == valid_part_number(part@),
{
    match regex_is_match(PART_NUMBER_PATTERN, part) {
        Some(found) => found,
        None => false,
    }
}

/// A part number that is not accepted.
pub struct InvalidPartNumber {
    pub part: String,
}

/// Checks every part number before any work is done; the first one that is
/// not accepted is reported.
pub fn validate_part_numbers(parts: &Vec<String>) -> (r: Result<(), InvalidPartNumber>)
    ensures
        r is Ok <==> forall|i: int| 0 <= i < parts@.len() ==> valid_part_number(#[trigger] parts@[i]@),
        r matches Err(e) ==> exists|i: int|
            0 <= i < parts@.len() && !valid_part_number(#[trigger] parts@[i]@) && e.part@
                == parts@[i]@ && forall|j: int| 0 <= j < i ==> valid_part_number(parts@[j]@),
{
    let mut i: usize = 0;
    while i < parts.len()
        invariant
            i <= parts.len(),
            forall|j: int| 0 <= j < i ==> valid_part_number(#[trigger] parts@[j]@),
        decreases parts.len() - i,
    {
        if !is_valid_part_number(parts[i].as_str()) {
            return Err(InvalidPartNumber { part: parts[i].clone() });
        }
        i = i + 1;
    }
    Ok(())
}

/// A part number with one trailing `_b` marker taken off, and whether it had one.
pub open spec fn without_basic_marker(part: Seq<char>) -> (Seq<char>, bool) {
    if ends_with(part, seq!['_', 'b']) {
        (part.take(part.len() - 2), true)
    } else {
        (part, false)
    }
}

/// Takes one trailing `_b` (the basic-part marker) off a part number.
pub fn strip_basic_marker(part: String) -> (r: (String, bool))
    ensures
        (r.0@, r.1) == without_basic_marker(part@),
{
    proof {
        reveal_strlit("_b");
        assert("_b"@ =~= seq!['_', 'b']);
    }
    if has_suffix(part.as_str(), "_b") {
        let cs = chars_of(part.as_str());
        let mut kept: Vec<char> = Vec::new();
        let n = cs.len() - 2;
        let mut i: usize = 0;
        while i < n
            invariant
                i <= n,
                n + 2 == cs.len(),
                kept@ == cs@.take(i as int),
            decreases n - i,
        {
            kept.push(cs[i]);
            proof {
                assert(cs@.take(i + 1) =~= cs@.take(i as int).push(cs@[i as int]));
            }
            i = i + 1;
        }
        (string_of(&kept), true)
    } else {
        (part, false)
    }
}

/// Whether a cached response has to be fetched (again): when asked to
/// refresh, when there is no cached copy, or when the cached copy is empty.
pub fn needs_download(refresh: bool, cached: bool, cached_len: u64) -> (r: bool)
    ensures
        r == (refresh || !cached || cached_len == 0),
{
    refresh || !cached || cached_len == 0
}

/// What the JLCPCB data contributes to a part's record.
pub struct JlcContribution {
    /// Whether the part counts as basic.
    pub basic: bool,
    /// The pairs taken from the JLCPCB data.
    pub pairs: Vec<(String, String)>,
    /// Whether the cached JLCPCB response is to be deleted.
    pub purge_cache: bool,
}

/// Applies what a JLCPCB result says about a part: a found part decides the
/// basic flag and gives its pairs, and keeps its cached response; otherwise
/// the flag from the part-number marker stands, there are no pairs, and the
/// cache is purged when purging of failed responses was asked for.
pub fn apply_jlc_info(info: JlcPartInfo, marked_basic: bool, purge_cached_errors: bool) -> (r:
    JlcContribution)
    ensures
        match info {
            JlcPartInfo::Found { basic, pairs } => r.basic == basic && r.pairs@ == pairs@
                && !r.purge_cache,
            _ => r.basic == marked_basic && r.pairs@.len() == 0 && r.purge_cache
                == purge_cached_errors,
        },
{
    match info {
        JlcPartInfo::Found { basic, pairs } => JlcContribution { basic, pairs, purge_cache: false },
        _ => JlcContribution {
            basic: marked_basic,
            pairs: Vec::new(),
            purge_cache: purge_cached_errors,
        },
    }
}

/// `acc` with `p` appended, unless `acc` already holds a pair with `p`'s key.
pub open spec fn add_if_new(acc: Seq<(Seq<char>, Seq<char>)>, p: (Seq<char>, Seq<char>)) -> Seq<
    (Seq<char>, Seq<char>),
> {
    if exists|i: int| 0 <= i < acc.len() && #[trigger] acc[i].0 == p.0 {
        acc
    } else {
        acc.push(p)
    }
}

/// The pairs with one pair per key: the pairs are in priority order, so each
/// key keeps the place and the value of its first pair.
pub open spec fn dedup_spec(s: Seq<(Seq<char>, Seq<char>)>) -> Seq<(Seq<char>, Seq<char>)>
    decreases s.len(),
{
    if s.len() == 0 {
        s
    } else {
        add_if_new(dedup_spec(s.drop_last()), s.last())
    }
}

/// No key occurs twice.
pub open spec fn keys_unique(s: Seq<(Seq<char>, Seq<char>)>) -> bool {
    forall|i: int, j: int| 0 <= i < j < s.len() ==> #[trigger] s[i].0 != #[trigger] s[j].0
}

/// The value that key `k` has first in `s`.
pub open spec fn first_value(s: Seq<(Seq<char>, Seq<char>)>, k: Seq<char>) -> Option<Seq<char>>
    decreases s.len(),
{
    if s.len() == 0 {
        None
    } else if first_value(s.drop_last(), k) is Some {
        first_value(s.drop_last(), k)
    } else if s.last().0 == k {
        Some(s.last().1)
    } else {
        None
    }
}

proof fn lemma_add_if_new_unique(acc: Seq<(Seq<char>, Seq<char>)>, p: (Seq<char>, Seq<char>))
    requires
        keys_unique(acc),
    ensures
        keys_unique(add_if_new(acc, p)),
{
}

proof fn lemma_dedup_unique(s: Seq<(Seq<char>, Seq<char>)>)
    ensures
        keys_unique(dedup_spec(s)),
    decreases s.len(),
{
    if s.len() > 0 {
        lemma_dedup_unique(s.drop_last());
        lemma_add_if_new_unique(dedup_spec(s.drop_last()), s.last());
    }
}

proof fn lemma_first_value_present(s: Seq<(Seq<char>, Seq<char>)>, i: int)
    requires
        0 <= i < s.len(),
    ensures
        first_value(s, s[i].0) is Some,
    decreases s.len(),
{
    if i < s.len() - 1 {
        assert(s.drop_last()[i] == s[i]);
        lemma_first_value_present(s.drop_last(), i);
    }
}

proof fn lemma_first_value_absent(s: Seq<(Seq<char>, Seq<char>)>, k: Seq<char>)
    requires
        forall|i: int| 0 <= i < s.len() ==> #[trigger] s[i].0 != k,
    ensures
        first_value(s, k) is None,
    decreases s.len(),
{
    if s.len() > 0 {
        assert(s[s.len() - 1].0 != k);
        assert forall|i: int| 0 <= i < s.drop_last().len() implies #[trigger] s.drop_last()[i].0
            != k by {
            assert(s.drop_last()[i] == s[i]);
        }
        lemma_first_value_absent(s.drop_last(), k);
    }
}

proof fn lemma_first_value_unique(s: Seq<(Seq<char>, Seq<char>)>, i: int)
    requires
        keys_unique(s),
        0 <= i < s.len(),
    ensures
        first_value(s, s[i].0) == Some(s[i].1),
    decreases s.len(),
{
    if i < s.len() - 1 {
        assert(s.drop_last()[i] == s[i]);
        assert(keys_unique(s.drop_last()));
        lemma_first_value_unique(s.drop_last(), i);
    } else {
        assert forall|m: int| 0 <= m < s.drop_last().len() implies #[trigger] s.drop_last()[m].0
            != s[i].0 by {
            assert(s.drop_last()[m] == s[m]);
        }
        lemma_first_value_absent(s.drop_last(), s[i].0);
    }
}

proof fn lemma_first_value_add_if_new(
    acc: Seq<(Seq<char>, Seq<char>)>,
    p: (Seq<char>, Seq<char>),
    k: Seq<char>,
)
    ensures
        first_value(add_if_new(acc, p), k) == first_value(acc.push(p), k),
{
    assert(acc.push(p).drop_last() =~= acc);
    if exists|i: int| 0 <= i < acc.len() && #[trigger] acc[i].0 == p.0 {
        let j = choose|i: int| 0 <= i < acc.len() && #[trigger] acc[i].0 == p.0;
        if k == p.0 {
            lemma_first_value_present(acc, j);
        }
    }
}

/// One pair per key, the first one winning: the result has no key twice,
/// gives every key the value it has first in the input (and so holds exactly
/// the input's keys), and each of its pairs is the first pair of its key.
pub proof fn lemma_dedup_first_value_wins(s: Seq<(Seq<char>, Seq<char>)>)
    ensures
        keys_unique(dedup_spec(s)),
        forall|k: Seq<char>|
            #![trigger first_value(s, k)]
            first_value(s, k) == first_value(dedup_spec(s), k),
        forall|i: int|
            0 <= i < dedup_spec(s).len() ==> first_value(s, #[trigger] dedup_spec(s)[i].0) == Some(
                dedup_spec(s)[i].1,
            ),
    decreases s.len(),
{
    lemma_dedup_unique(s);
    if s.len() > 0 {
        let prev = s.drop_last();
        let acc = dedup_spec(prev);
        let p = s.last();
        lemma_dedup_first_value_wins(prev);
        let d = dedup_spec(s);
        assert(d == add_if_new(acc, p));
        assert forall|k: Seq<char>| #![trigger first_value(s, k)] first_value(s, k) == first_value(
            d,
            k,
        ) by {
            lemma_first_value_add_if_new(acc, p, k);
            assert(acc.push(p).drop_last() =~= acc);
            assert(first_value(prev, k) == first_value(acc, k));
        }
        assert forall|i: int| 0 <= i < d.len() implies first_value(s, #[trigger] d[i].0) == Some(
            d[i].1,
        ) by {
            lemma_first_value_unique(d, i);
            assert(first_value(s, d[i].0) == first_value(d, d[i].0));
        }
    }
}

/// The position of the pair with key `key`, if any.
fn find_key(r: &Vec<(String, String)>, key: &String) -> (idx: Option<usize>)
    ensures
        idx matches Some(j) ==> j < r@.len() && r@[j as int].0@ == key@,
        idx is None ==> forall|m: int| 0 <= m < r@.len() ==> #[trigger] r@[m].0@ != key@,
{
    let mut j: usize = 0;
    while j < r.len()
        invariant
            j <= r.len(),
            forall|m: int| 0 <= m < j ==> #[trigger] r@[m].0@ != key@,
        decreases r.len() - j,
    {
        if r[j].0 == *key {
            return Some(j);
        }
        j = j + 1;
    }
    None
}

/// One pair per key: a pair whose key came earlier is dropped.
pub fn dedup_pairs(pairs: Vec<(String, String)>) -> (r: Vec<(String, String)>)
    ensures
        r@.map_values(|p: (String, String)| pair_view(p)) == dedup_spec(
            pairs@.map_values(|p: (String, String)| pair_view(p)),
        ),
{
    let ghost input = pairs@.map_values(|p: (String, String)| pair_view(p));
    let mut r: Vec<(String, String)> = Vec::new();
    let mut i: usize = 0;
    while i < pairs.len()
        invariant
            i <= pairs.len(),
            input == pairs@.map_values(|p: (String, String)| pair_view(p)),
            r@.map_values(|p: (String, String)| pair_view(p)) == dedup_spec(
                input.take(i as int),
            ),
        decreases pairs.len() - i,
    {
        let ghost acc = r@.map_values(|p: (String, String)| pair_view(p));
        let key = pairs[i].0.clone();
        let value = pairs[i].1.clone();
        proof {
            assert(input.take(i + 1).drop_last() =~= input.take(i as int));
            assert(input.take(i + 1).last() == (key@, value@));
        }
        match find_key(&r, &key) {
            Some(j) => {
                proof {
                    assert(acc[j as int].0 == key@);
                }
            },
            None => {
                r.push((key, value));
                proof {
                    assert(r@.map_values(|p: (String, String)| pair_view(p)) =~= acc.push(
                        (key@, value@),
                    ));
                }
            },
        }
        i = i + 1;
    }
    proof {
        assert(input.take(pairs.len() as int) =~= input);
    }
    r
}

/// The pairs recorded for a part: the JLCPCB pairs, then the product page
/// pairs, then the basic flag, with one pair per key.
pub open spec fn record_pairs(
    jlc: Seq<(Seq<char>, Seq<char>)>,
    page: Seq<(Seq<char>, Seq<char>)>,
    basic: bool,
) -> Seq<(Seq<char>, Seq<char>)> {
    dedup_spec(jlc + page + seq![("Basic"@, bool_text(basic))])
}

/// What is recorded for one part.
pub struct PartRecord {
    /// The pairs to store, one per key.
    pub pairs: Vec<(String, String)>,
    /// Whether the cached product page is to be deleted: purging was asked
    /// for and the page gave no pairs.
    pub purge_page_cache: bool,
}

/// Combines the JLCPCB pairs, the product page pairs and the basic flag into
/// the record of a part.
pub fn part_record(
    jlc_pairs: Vec<(String, String)>,
    page_pairs: Vec<(String, String)>,
    basic: bool,
    purge_cached_errors: bool,
) -> (r: PartRecord)
    ensures
        r.pairs@.map_values(|p: (String, String)| pair_view(p)) == record_pairs(
            jlc_pairs@.map_values(|p: (String, String)| pair_view(p)),
            page_pairs@.map_values(|p: (String, String)| pair_view(p)),
            basic,
        ),
        r.purge_page_cache == (purge_cached_errors && page_pairs@.len() == 0),
{
    let purge_page_cache = purge_cached_errors && page_pairs.len() == 0;
    let ghost j = jlc_pairs@;
    let ghost g = page_pairs@;
    let mut all = jlc_pairs;
    let mut page = page_pairs;
    all.append(&mut page);
    all.push(("Basic".to_owned(), bool_string(basic)));
    proof {
        assert(all@.map_values(|p: (String, String)| pair_view(p)) =~= j.map_values(
            |p: (String, String)| pair_view(p),
        ) + g.map_values(|p: (String, String)| pair_view(p)) + seq![("Basic"@, bool_text(basic))]);
    }
    PartRecord { pairs: dedup_pairs(all), purge_page_cache }
}

/// The words of `s`: the maximal runs of characters that are not whitespace.
pub open spec fn words(s: Seq<char>) -> Seq<Seq<char>>
    decreases s.len(),
{
    if s.len() == 0 {
        Seq::empty()
    } else if is_white_space(s.last()) {
        words(s.drop_last())
    } else if s.len() >= 2 && !is_white_space(s[s.len() - 2]) {
        let w = words(s.drop_last());
        w.update(w.len() - 1, w.last().push(s.last()))
    } else {
        words(s.drop_last()).push(seq![s.last()])
    }
}

/// The part numbers of a parts list: its words (`str::split_whitespace`).
pub fn split_part_list(text: &str) -> (r: Vec<String>)
    ensures
        r.deep_view() == words(text@),
{
    let cs = chars_of(text);
    let mut r: Vec<String> = Vec::new();
    let mut i: usize = 0;
    while i < cs.len()
        invariant
            i <= cs.len(),
            cs@ == text@,
            r.deep_view() == words(cs@.take(i as int)),
            (i > 0 && !is_white_space(cs@[i - 1])) ==> r@.len() > 0,
        decreases cs.len() - i,
    {
        let c = cs[i];
        let ghost before = r.deep_view();
        proof {
            let t = cs@.take(i + 1);
            assert(t.drop_last() =~= cs@.take(i as int));
            assert(t.last() == c);
            if i > 0 {
                assert(t[i - 1] == cs@[i - 1]);
            }
        }
        if white_space(c) {
        } else if i > 0 && !white_space(cs[i - 1]) {
            let mut w = r.pop().unwrap();
            push_char(&mut w, c);
            r.push(w);
            proof {
                assert(r.deep_view() =~= before.update(before.len() - 1, before.last().push(c)));
            }
        } else {
            let mut w = String::new();
            push_char(&mut w, c);
            r.push(w);
            proof {
                assert(r.deep_view() =~= before.push(seq![c]));
            }
        }
        i = i + 1;
    }
    proof {
        assert(cs@.take(cs.len() as int) =~= cs@);
    }
    r
}

/// The index of the last cell of `header` that holds `name`.
pub open spec fn last_index_with(header: Seq<Option<Seq<char>>>, name: Seq<char>) -> Option<int>
    decreases header.len(),
{
    if header.len() == 0 {
        None
    } else if header.last() == Some(name) {
        Some(header.len() - 1)
    } else {
        last_index_with(header.drop_last(), name)
    }
}

/// The columns of the part number and of the library type in a parts
/// spreadsheet, found by their header ("LCSC Part", "Library Type"); the
/// last matching header cell counts. `None` unless both are found.
pub open spec fn part_columns(header: Seq<Option<Seq<char>>>) -> Option<(u32, u32)> {
    match (last_index_with(header, "LCSC Part"@), last_index_with(header, "Library Type"@)) {
        (Some(a), Some(b)) => Some((a as u32, b as u32)),
        _ => None,
    }
}

/// Finds the part number and library type columns of a spreadsheet header
/// row, whose text cells are `Some`.
pub fn find_part_columns(header: &Vec<Option<String>>) -> (r: Option<(u32, u32)>)
    ensures
        r == part_columns(header.deep_view()),
{
    let ghost h = header.deep_view();
    let mut part: Option<u32> = None;
    let mut library: Option<u32> = None;
    let mut i: usize = 0;
    while i < header.len()
        invariant
            i <= header.len(),
            h == header.deep_view(),
            part == match last_index_with(h.take(i as int), "LCSC Part"@) {
                Some(a) => Some(a as u32),
                None => None::<u32>,
            },
            library == match last_index_with(h.take(i as int), "Library Type"@) {
                Some(a) => Some(a as u32),
                None => None::<u32>,
            },
        decreases header.len() - i,
    {
        proof {
            assert(h.take(i + 1).drop_last() =~= h.take(i as int));
            assert(h.take(i + 1).last() == h[i as int]);
            reveal_strlit("LCSC Part");
            reveal_strlit("Library Type");
            assert("LCSC Part"@[1] != "Library Type"@[1]);
        }
        match &header[i] {
            Some(s) => {
                if crate::text::same_text(s.as_str(), "LCSC Part") {
                    part = Some(i as u32);
                } else if crate::text::same_text(s.as_str(), "Library Type") {
                    library = Some(i as u32);
                }
            },
            None => {},
        }
        i = i + 1;
    }
    proof {
        assert(h.take(header.len() as int) =~= h);
    }
    match (part, library) {
        (Some(a), Some(b)) => Some((a, b)),
        _ => None,
    }
}

/// The lower-case form of a text, by the Unicode case mapping.
pub uninterp spec fn unicode_lowercase(s: Seq<char>) -> Seq<char>;

/// `str::to_lowercase`. The result is named (`unicode_lowercase`), not
/// described: the Unicode lower-case mapping is left to the standard library.
#[verifier::external_body]
fn lowercase(s: &str) -> (r: String)
    ensures
        r@ == unicode_lowercase(s@),
{
    s.to_lowercase()
}

/// The part number a spreadsheet row gives: both cells must hold text; the
/// part counts as basic (marked `_b`) when its library type, in lower case,
/// holds "bas" ("Basic" and "Base" both occur).
pub open spec fn spreadsheet_entry(part: Option<Seq<char>>, library: Option<Seq<char>>) -> Option<
    Seq<char>,
> {
    match (part, library) {
        (Some(p), Some(b)) => Some(
            if contains_seq(unicode_lowercase(b), "bas"@) {
                p + "_b"@
            } else {
                p
            },
        ),
        _ => None,
    }
}

/// The part numbers the rows give, in row order.
pub open spec fn spreadsheet_entries(rows: Seq<(Option<Seq<char>>, Option<Seq<char>>)>) -> Seq<
    Seq<char>,
>
    decreases rows.len(),
{
    if rows.len() == 0 {
        Seq::empty()
    } else {
        spreadsheet_entries(rows.drop_last()) + match spreadsheet_entry(
            rows.last().0,
            rows.last().1,
        ) {
            Some(p) => seq![p],
            None => Seq::empty(),
        }
    }
}

/// The part numbers of the rows of a parts spreadsheet, each row given as
/// its part number cell and its library type cell (`Some` for a text cell).
pub fn spreadsheet_part_numbers(rows: &Vec<(Option<String>, Option<String>)>) -> (r: Vec<String>)
    ensures
        r.deep_view() == spreadsheet_entries(rows.deep_view()),
{
    let ghost d = rows.deep_view();
    let mut r: Vec<String> = Vec::new();
    let mut i: usize = 0;
    while i < rows.len()
        invariant
            i <= rows.len(),
            d == rows.deep_view(),
            r.deep_view() == spreadsheet_entries(d.take(i as int)),
        decreases rows.len() - i,
    {
        let ghost before = r.deep_view();
        proof {
            assert(d.take(i + 1).drop_last() =~= d.take(i as int));
            assert(d.take(i + 1).last() == d[i as int]);
        }
        match (&rows[i].0, &rows[i].1) {
            (Some(p), Some(b)) => {
                let lower = lowercase(b.as_str());
                let entry = if has_substring(lower.as_str(), "bas") {
                    concat_text(p.as_str(), "_b")
                } else {
                    p.clone()
                };
                r.push(entry);
                proof {
                    assert(r.deep_view() =~= before.push(entry@));
                }
            },
            _ => {
                proof {
                    assert(r.deep_view() =~= before + Seq::<Seq<char>>::empty());
                }
            },
        }
        i = i + 1;
    }
    proof {
        assert(d.take(rows.len() as int) =~= d);
    }
    r
}

/// The `_b` marker a part number is given is the one that is taken off: a
/// marked number gives back the unmarked number, flagged basic.
pub proof fn lemma_basic_marker_round_trip(part: Seq<char>)
    ensures
        without_basic_marker(part + "_b"@) == (part, true),
{
    reveal_strlit("_b");
    let m = part + "_b"@;
    assert(m.skip(m.len() - 2) =~= seq!['_', 'b']);
    assert(m.take(m.len() - 2) =~= part);
}

/// A spreadsheet row of a basic part gives a part number that reads back as
/// that part, flagged basic; any other row's part number reads as it stands.
pub proof fn lemma_spreadsheet_basic_marker(part: Seq<char>, library: Seq<char>)
    ensures
        spreadsheet_entry(Some(part), Some(library)) matches Some(e) && without_basic_marker(e)
            == if contains_seq(unicode_lowercase(library), "bas"@) {
            (part, true)
        } else {
            without_basic_marker(part)
        },
{
    lemma_basic_marker_round_trip(part);
}

/// The basic flag ends up in a part's record, with the value given, whenever
/// neither the JLCPCB pairs nor the product page pairs hold a "Basic" key of
/// their own (such a pair would come first and win).
pub proof fn lemma_record_basic_flag(
    jlc: Seq<(Seq<char>, Seq<char>)>,
    page: Seq<(Seq<char>, Seq<char>)>,
    basic: bool,
)
    requires
        forall|i: int| 0 <= i < (jlc + page).len() ==> #[trigger] (jlc + page)[i].0 != "Basic"@,
    ensures
        first_value(record_pairs(jlc, page, basic), "Basic"@) == Some(bool_text(basic)),
        keys_unique(record_pairs(jlc, page, basic)),
{
    let all = jlc + page + seq![("Basic"@, bool_text(basic))];
    lemma_dedup_first_value_wins(all);
    assert(all.drop_last() =~= jlc + page);
    lemma_first_value_absent(jlc + page, "Basic"@);
    assert(first_value(all, "Basic"@) == Some(bool_text(basic)));
}

} // verus!
