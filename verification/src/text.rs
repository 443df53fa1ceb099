//! Character-level text handling: whitespace, trimming, ASCII filtering,
//! substring tests and decimal rendering, each stated over `Seq<char>`.

use vstd::prelude::*;

verus! {

broadcast use vstd::string::group_string_axioms;

/// The Unicode `White_Space` property, which `char::is_whitespace`,
/// `str::trim` and `str::split_whitespace` use.
pub open spec fn is_white_space(c: char) -> bool {
    let u = c as u32;
    ||| 0x9 <= u <= 0xd
    ||| u == 0x20 || u == 0x85 || u == 0xa0 || u == 0x1680
    ||| 0x2000 <= u <= 0x200a
    ||| u == 0x2028 || u == 0x2029 || u == 0x202f || u == 0x205f || u == 0x3000
}

/// Tests the Unicode `White_Space` property.
pub fn white_space(c: char) -> (r: bool)
    ensures
        r == is_white_space(c),
{
    let u: u32 = c as u32;
    (0x9 <= u && u <= 0xd) || u == 0x20 || u == 0x85 || u == 0xa0 || u == 0x1680 || (0x2000
        <= u && u <= 0x200a) || u == 0x2028 || u == 0x2029 || u == 0x202f || u == 0x205f || u
        == 0x3000
}

/// `s` without its leading whitespace.
pub open spec fn trim_start(s: Seq<char>) -> Seq<char>
    decreases s.len(),
{
    if s.len() > 0 && is_white_space(s[0]) {
        trim_start(s.drop_first())
    } else {
        s
    }
}

/// `s` without its trailing whitespace.
pub open spec fn trim_end(s: Seq<char>) -> Seq<char>
    decreases s.len(),
{
    if s.len() > 0 && is_white_space(s.last()) {
        trim_end(s.drop_last())
    } else {
        s
    }
}

/// `s` without leading and trailing whitespace, as `str::trim` gives it.
pub open spec fn trim(s: Seq<char>) -> Seq<char> {
    trim_end(trim_start(s))
}

/// The ASCII characters of `s`, in order.
pub open spec fn keep_ascii(s: Seq<char>) -> Seq<char>
    decreases s.len(),
{
    if s.len() == 0 {
        s
    } else if (s.last() as u32) < 128 {
        keep_ascii(s.drop_last()).push(s.last())
    } else {
        keep_ascii(s.drop_last())
    }
}

/// `s` with every occurrence of `c` removed.
pub open spec fn without_char(s: Seq<char>, c: char) -> Seq<char>
    decreases s.len(),
{
    if s.len() == 0 {
        s
    } else if s.last() == c {
        without_char(s.drop_last(), c)
    } else {
        without_char(s.drop_last(), c).push(s.last())
    }
}

/// How many times `c` occurs in `s`.
pub open spec fn count_char(s: Seq<char>, c: char) -> nat
    decreases s.len(),
{
    if s.len() == 0 {
        0
    } else {
        count_char(s.drop_last(), c) + if s.last() == c {
            1nat
        } else {
            0nat
        }
    }
}

pub open spec fn starts_with(s: Seq<char>, p: Seq<char>) -> bool {
    p.len() <= s.len() && s.take(p.len() as int) == p
}

pub open spec fn ends_with(s: Seq<char>, p: Seq<char>) -> bool {
    p.len() <= s.len() && s.skip(s.len() - p.len()) == p
}

/// `p` occurs in `s` as a contiguous piece.
pub open spec fn contains_seq(s: Seq<char>, p: Seq<char>) -> bool {
    exists|i: int| 0 <= i && i + p.len() <= s.len() && #[trigger] s.subrange(i, i + p.len()) == p
}

/// The decimal digit character for `d < 10`.
pub open spec fn digit_char(d: nat) -> char {
    (('0' as u32) + d) as char
}

/// Decimal digits of `n`, most significant first, without leading zeros.
pub open spec fn nat_decimal(n: nat) -> Seq<char>
    decreases n,
{
    if n < 10 {
        seq![digit_char(n)]
    } else {
        nat_decimal(n / 10).push(digit_char(n % 10))
    }
}

/// How `Display` renders an integer: a minus sign for negatives, then the digits.
pub open spec fn int_decimal(i: int) -> Seq<char> {
    if i < 0 {
        seq!['-'] + nat_decimal((-i) as nat)
    } else {
        nat_decimal(i as nat)
    }
}

/// How `Display` renders a `bool`.
pub open spec fn bool_text(b: bool) -> Seq<char> {
    if b {
        seq!['t', 'r', 'u', 'e']
    } else {
        seq!['f', 'a', 'l', 's', 'e']
    }
}

/// A pair of texts, by the characters of each.
pub open spec fn pair_view(p: (String, String)) -> (Seq<char>, Seq<char>) {
    (p.0@, p.1@)
}

/// Appends one character to a `String` (`String::push`).
#[verifier::external_body]
pub(crate) fn push_char(s: &mut String, c: char)
    ensures
        final(s)@ == old(s)@.push(c),
{
    s.push(c);
}

/// Appends a string slice to a `String`.
pub(crate) fn push_str(s: &mut String, t: &str)
    ensures
        final(s)@ == old(s)@ + t@,
{
    s.append(t);
}

/// The characters of `s`, in order.
pub fn chars_of(s: &str) -> (v: Vec<char>)
    ensures
        v@ == s@,
{
    let mut v: Vec<char> = Vec::new();
    for c in it: s.chars()
        invariant
            it.seq() == s@,
            v@ == it.seq().take(it.index() as int),
    {
        proof {
            assert(it.seq().take(it.index() as int + 1) =~= v@.push(c));
        }
        v.push(c);
    }
    proof {
        assert(v@ =~= s@);
    }
    v
}

/// A `String` holding the characters `v@`.
pub fn string_of(v: &Vec<char>) -> (s: String)
    ensures
        s@ == v@,
{
    let mut s = String::new();
    let mut i: usize = 0;
    while i < v.len()
        invariant
            i <= v.len(),
            s@ == v@.take(i as int),
        decreases v.len() - i,
    {
        push_char(&mut s, v[i]);
        proof {
            assert(v@.take(i + 1) =~= v@.take(i as int).push(v@[i as int]));
        }
        i = i + 1;
    }
    proof {
        assert(v@.take(v.len() as int) =~= v@);
    }
    s
}

/// Concatenation of two texts.
pub fn concat_text(a: &str, b: &str) -> (r: String)
    ensures
        r@ == a@ + b@,
{
    let mut r = String::new();
    push_str(&mut r, a);
    push_str(&mut r, b);
    proof {
        assert(r@ =~= a@ + b@);
    }
    r
}

/// `str::trim` on a character vector.
pub fn trim_chars(v: &Vec<char>) -> (r: Vec<char>)
    ensures
        r@ == trim(v@),
{
    let n = v.len();
    let mut i: usize = 0;
    proof {
        assert(v@.subrange(0, n as int) =~= v@);
    }
    while i < n && white_space(v[i])
        invariant
            i <= n == v.len(),
            trim_start(v@) == trim_start(v@.subrange(i as int, n as int)),
        decreases n - i,
    {
        proof {
            assert(v@.subrange(i as int, n as int).drop_first() =~= v@.subrange(
                i + 1,
                n as int,
            ));
        }
        i = i + 1;
    }
    let mut j: usize = n;
    while j > i && white_space(v[j - 1])
        invariant
            i <= j <= n == v.len(),
            trim_start(v@) == v@.subrange(i as int, n as int),
            trim(v@) == trim_end(v@.subrange(i as int, j as int)),
        decreases j,
    {
        proof {
            assert(v@.subrange(i as int, j as int).drop_last() =~= v@.subrange(
                i as int,
                j - 1,
            ));
        }
        j = j - 1;
    }
    let mut r: Vec<char> = Vec::new();
    let mut k: usize = i;
    while k < j
        invariant
            i <= k <= j <= n == v.len(),
            r@ == v@.subrange(i as int, k as int),
        decreases j - k,
    {
        r.push(v[k]);
        proof {
            assert(r@ =~= v@.subrange(i as int, k + 1));
        }
        k = k + 1;
    }
    r
}

/// The ASCII characters of `v`, in order.
pub fn keep_ascii_chars(v: &Vec<char>) -> (r: Vec<char>)
    ensures
        r@ == keep_ascii(v@),
{
    let mut r: Vec<char> = Vec::new();
    let mut i: usize = 0;
    while i < v.len()
        invariant
            i <= v.len(),
            r@ == keep_ascii(v@.take(i as int)),
        decreases v.len() - i,
    {
        let c = v[i];
        proof {
            assert(v@.take(i + 1).drop_last() =~= v@.take(i as int));
        }
        if (c as u32) < 128 {
            r.push(c);
        }
        i = i + 1;
    }
    proof {
        assert(v@.take(v.len() as int) =~= v@);
    }
    r
}

/// `s` with every occurrence of `c` removed (`str::replace(c, "")`).
pub fn remove_char(s: &str, c: char) -> (r: String)
    ensures
        r@ == without_char(s@, c),
{
    let v = chars_of(s);
    let mut r = String::new();
    let mut i: usize = 0;
    while i < v.len()
        invariant
            i <= v.len(),
            v@ == s@,
            r@ == without_char(v@.take(i as int), c),
        decreases v.len() - i,
    {
        let d = v[i];
        proof {
            assert(v@.take(i + 1).drop_last() =~= v@.take(i as int));
        }
        if d != c {
            push_char(&mut r, d);
        }
        i = i + 1;
    }
    proof {
        assert(v@.take(v.len() as int) =~= v@);
    }
    r
}

/// How many times `c` occurs in `s`.
pub fn char_count(s: &str, c: char) -> (r: usize)
    ensures
        r == count_char(s@, c),
{
    let v = chars_of(s);
    let mut r: usize = 0;
    let mut i: usize = 0;
    while i < v.len()
        invariant
            i <= v.len(),
            v@ == s@,
            r == count_char(v@.take(i as int), c),
            r <= i,
        decreases v.len() - i,
    {
        proof {
            assert(v@.take(i + 1).drop_last() =~= v@.take(i as int));
        }
        if v[i] == c {
            r = r + 1;
        }
        i = i + 1;
    }
    proof {
        assert(v@.take(v.len() as int) =~= v@);
    }
    r
}

/// Whether `s` begins with `p` (`str::starts_with`).
pub fn has_prefix(s: &str, p: &str) -> (r: bool)
    ensures
        r == starts_with(s@, p@),
{
    let sv = chars_of(s);
    let pv = chars_of(p);
    if pv.len() > sv.len() {
        return false;
    }
    let mut i: usize = 0;
    while i < pv.len()
        invariant
            i <= pv.len() <= sv.len(),
            sv@ == s@,
            pv@ == p@,
            forall|k: int| 0 <= k < i ==> sv@[k] == pv@[k],
        decreases pv.len() - i,
    {
        if sv[i] != pv[i] {
            proof {
                assert(s@.take(p@.len() as int)[i as int] != p@[i as int]);
            }
            return false;
        }
        i = i + 1;
    }
    proof {
        assert(s@.take(p@.len() as int) =~= p@);
    }
    true
}

/// Whether `s` ends with `p` (`str::ends_with`).
pub fn has_suffix(s: &str, p: &str) -> (r: bool)
    ensures
        r == ends_with(s@, p@),
{
    let sv = chars_of(s);
    let pv = chars_of(p);
    if pv.len() > sv.len() {
        return false;
    }
    let off = sv.len() - pv.len();
    let mut i: usize = 0;
    while i < pv.len()
        invariant
            i <= pv.len() <= sv.len(),
            off == sv.len() - pv.len(),
            sv@ == s@,
            pv@ == p@,
            forall|k: int| 0 <= k < i ==> sv@[off + k] == pv@[k],
        decreases pv.len() - i,
    {
        if sv[off + i] != pv[i] {
            proof {
                assert(s@.skip(off as int)[i as int] != p@[i as int]);
            }
            return false;
        }
        i = i + 1;
    }
    proof {
        assert(s@.skip(off as int) =~= p@);
    }
    true
}

/// Whether `p` occurs in `s` at position `start`.
fn occurs_at(sv: &Vec<char>, pv: &Vec<char>, start: usize) -> (r: bool)
    requires
        start + pv.len() <= sv.len(),
    ensures
        r == (sv@.subrange(start as int, start + pv@.len()) == pv@),
{
    let mut i: usize = 0;
    while i < pv.len()
        invariant
            i <= pv.len(),
            start + pv.len() <= sv.len(),
            forall|k: int| 0 <= k < i ==> sv@[start + k] == pv@[k],
        decreases pv.len() - i,
    {
        if sv[start + i] != pv[i] {
            proof {
                assert(sv@.subrange(start as int, start + pv@.len())[i as int] != pv@[i as int]);
            }
            return false;
        }
        i = i + 1;
    }
    proof {
        assert(sv@.subrange(start as int, start + pv@.len()) =~= pv@);
    }
    true
}

/// Whether `p` occurs in `s` (`str::contains`).
pub fn has_substring(s: &str, p: &str) -> (r: bool)
    ensures
        r == contains_seq(s@, p@),
{
    let sv = chars_of(s);
    let pv = chars_of(p);
    if pv.len() > sv.len() {
        return false;
    }
    let last = sv.len() - pv.len();
    let mut start: usize = 0;
    while start < last
        invariant
            start <= last == sv.len() - pv.len(),
            pv.len() <= sv.len(),
            sv@ == s@,
            pv@ == p@,
            forall|q: int| 0 <= q < start ==> #[trigger] s@.subrange(q, q + p@.len()) != p@,
        decreases last - start,
    {
        if occurs_at(&sv, &pv, start) {
            return true;
        }
        start = start + 1;
    }
    if occurs_at(&sv, &pv, last) {
        return true;
    }
    proof {
        if contains_seq(s@, p@) {
            let q = choose|q: int|
                0 <= q && q + p@.len() <= s@.len() && #[trigger] s@.subrange(q, q + p@.len())
                    == p@;
            assert(s@.subrange(q, q + p@.len()) != p@);
        }
    }
    false
}

/// Appends the decimal digits of `n` to `out`.
fn push_nat_decimal(out: &mut String, n: u128)
    ensures
        final(out)@ == old(out)@ + nat_decimal(n as nat),
    decreases n,
{
    if n >= 10 {
        push_nat_decimal(out, n / 10);
    }
    let d: u32 = (n % 10) as u32;
    let c: char = if d == 0 {
        '0'
    } else if d == 1 {
        '1'
    } else if d == 2 {
        '2'
    } else if d == 3 {
        '3'
    } else if d == 4 {
        '4'
    } else if d == 5 {
        '5'
    } else if d == 6 {
        '6'
    } else if d == 7 {
        '7'
    } else if d == 8 {
        '8'
    } else {
        '9'
    };
    push_char(out, c);
    proof {
        assert(c == digit_char((n % 10) as nat));
        if n >= 10 {
            assert(nat_decimal(n as nat) == nat_decimal((n / 10) as nat).push(
                digit_char((n % 10) as nat),
            ));
        }
    }
}

/// The decimal rendering of an integer, as `format!("{}", i)` gives it.
pub fn decimal(i: i128) -> (r: String)
    requires
        i > i128::MIN,
    ensures
        r@ == int_decimal(i as int),
{
    let mut r = String::new();
    if i < 0 {
        push_char(&mut r, '-');
        push_nat_decimal(&mut r, (-i) as u128);
    } else {
        push_nat_decimal(&mut r, i as u128);
    }
    proof {
        assert(r@ =~= int_decimal(i as int));
    }
    r
}

/// The text `format!("{}", b)` gives for a `bool`.
pub fn bool_string(b: bool) -> (r: String)
    ensures
        r@ == bool_text(b),
{
    let mut r = String::new();
    if b {
        push_char(&mut r, 't');
        push_char(&mut r, 'r');
        push_char(&mut r, 'u');
        push_char(&mut r, 'e');
    } else {
        push_char(&mut r, 'f');
        push_char(&mut r, 'a');
        push_char(&mut r, 'l');
        push_char(&mut r, 's');
        push_char(&mut r, 'e');
    }
    proof {
        assert(r@ =~= bool_text(b));
    }
    r
}

/// Whether two texts are equal, character by character.
pub fn same_text(a: &str, b: &str) -> (r: bool)
    ensures
        r == (a@ == b@),
{
    let av = chars_of(a);
    let bv = chars_of(b);
    if av.len() != bv.len() {
        return false;
    }
    let r = occurs_at(&av, &bv, 0);
    proof {
        assert(av@.subrange(0, bv@.len() as int) =~= av@);
    }
    r
}

/// Trimming a `String` where it stands.
pub trait TrimInPlace {
    fn trim_in_place(&mut self);
}

impl TrimInPlace for String {
    /// Removes leading and trailing whitespace, as `str::trim` does.
    fn trim_in_place(&mut self)
        ensures
            final(self)@ == trim(old(self)@),
    {
        let cs = chars_of(self.as_str());
        let trimmed = trim_chars(&cs);
        *self = string_of(&trimmed);
    }
}

proof fn lemma_trim_start_shape(s: Seq<char>)
    ensures
        trim_start(s).len() == 0 || !is_white_space(trim_start(s)[0]),
        trim_start(s).len() <= s.len(),
        trim_start(s) == s.skip(s.len() - trim_start(s).len()),
    decreases s.len(),
{
    if s.len() > 0 && is_white_space(s[0]) {
        lemma_trim_start_shape(s.drop_first());
        let t = trim_start(s.drop_first());
        assert(s.drop_first().skip(s.drop_first().len() - t.len()) =~= s.skip(s.len() - t.len()));
    } else {
        assert(s.skip(0) =~= s);
    }
}

proof fn lemma_trim_end_shape(s: Seq<char>)
    ensures
        trim_end(s).len() == 0 || !is_white_space(trim_end(s).last()),
        trim_end(s).len() <= s.len(),
        trim_end(s) == s.take(trim_end(s).len() as int),
        s.len() > 0 && !is_white_space(s[0]) ==> trim_end(s).len() > 0,
    decreases s.len(),
{
    if s.len() > 0 && is_white_space(s.last()) {
        lemma_trim_end_shape(s.drop_last());
        let t = trim_end(s.drop_last());
        assert(s.drop_last().take(t.len() as int) =~= s.take(t.len() as int));
        if s.len() > 0 && !is_white_space(s[0]) {
            assert(s.len() > 1);
            assert(s.drop_last()[0] == s[0]);
        }
    } else {
        assert(s.take(s.len() as int) =~= s);
    }
}

/// Trimming twice gives what trimming once gives.
pub proof fn lemma_trim_idempotent(s: Seq<char>)
    ensures
        trim(trim(s)) == trim(s),
{
    let a = trim_start(s);
    lemma_trim_start_shape(s);
    let t = trim_end(a);
    lemma_trim_end_shape(a);
    if t.len() > 0 {
        assert(t[0] == a[0]);
    }
    assert(trim_start(t) == t);
    assert(trim_end(t) == t);
}

proof fn lemma_trim_start_drops_white_space(s: Seq<char>)
    ensures
        forall|k: int| 0 <= k < s.len() - trim_start(s).len() ==> is_white_space(#[trigger] s[k]),
    decreases s.len(),
{
    if s.len() > 0 && is_white_space(s[0]) {
        lemma_trim_start_drops_white_space(s.drop_first());
        assert forall|k: int| 0 <= k < s.len() - trim_start(s).len() implies is_white_space(
            #[trigger] s[k],
        ) by {
            if k > 0 {
                assert(s.drop_first()[k - 1] == s[k]);
            }
        }
    }
}

proof fn lemma_trim_end_drops_white_space(s: Seq<char>)
    ensures
        forall|k: int| trim_end(s).len() <= k < s.len() ==> is_white_space(#[trigger] s[k]),
    decreases s.len(),
{
    if s.len() > 0 && is_white_space(s.last()) {
        lemma_trim_end_drops_white_space(s.drop_last());
        assert forall|k: int| trim_end(s).len() <= k < s.len() implies is_white_space(
            #[trigger] s[k],
        ) by {
            if k < s.len() - 1 {
                assert(s.drop_last()[k] == s[k]);
            }
        }
    }
}

/// Trimming keeps a contiguous piece of the text, from its first character
/// that is not white space to its last one, and drops only white space
/// around it: what is kept neither starts nor ends with white space, and a
/// text that neither starts nor ends with white space is kept whole.
pub proof fn lemma_trim_keeps_the_middle(s: Seq<char>)
    ensures
        exists|i: int|
            0 <= i && i + trim(s).len() <= s.len() && trim(s) == (#[trigger] s.skip(i)).take(
                trim(s).len() as int,
            ) && (forall|k: int| 0 <= k < i ==> is_white_space(#[trigger] s[k])) && (forall|
                k: int,
            |
                i + trim(s).len() <= k < s.len() ==> is_white_space(#[trigger] s[k])),
        trim(s).len() > 0 ==> !is_white_space(trim(s)[0]) && !is_white_space(trim(s).last()),
        (s.len() == 0 || (!is_white_space(s[0]) && !is_white_space(s.last()))) ==> trim(s) == s,
{
    let a = trim_start(s);
    lemma_trim_start_shape(s);
    lemma_trim_start_drops_white_space(s);
    let t = trim_end(a);
    lemma_trim_end_shape(a);
    lemma_trim_end_drops_white_space(a);
    let i = s.len() - a.len();
    assert(t == s.skip(i).take(t.len() as int)) by {
        assert(a.take(t.len() as int) =~= s.skip(i).take(t.len() as int));
    }
    assert forall|k: int| i + t.len() <= k < s.len() implies is_white_space(#[trigger] s[k]) by {
        assert(a[k - i] == s[k]);
    }
    if t.len() > 0 {
        assert(t[0] == a[0]);
    }
    if s.len() > 0 && !is_white_space(s[0]) && !is_white_space(s.last()) {
        assert(a == s);
        assert(trim_end(s) == s);
    }
    if s.len() == 0 {
        assert(a == s);
    }
}

/// Keeping the ASCII characters keeps exactly those, in order: each kept
/// character is ASCII, an all-ASCII text is kept whole, and the kept part of
/// two pieces is the kept part of each, one after the other.
pub proof fn lemma_keep_ascii(a: Seq<char>, b: Seq<char>)
    ensures
        forall|k: int| 0 <= k < keep_ascii(a).len() ==> (#[trigger] keep_ascii(a)[k] as u32) < 128,
        (forall|k: int| 0 <= k < a.len() ==> (#[trigger] a[k] as u32) < 128) ==> keep_ascii(a) == a,
        keep_ascii(a + b) == keep_ascii(a) + keep_ascii(b),
    decreases a.len() + b.len(),
{
    if b.len() > 0 {
        lemma_keep_ascii(a, b.drop_last());
        assert((a + b).drop_last() =~= a + b.drop_last());
        assert((a + b).last() == b.last());
        if (b.last() as u32) < 128 {
            assert(keep_ascii(a) + keep_ascii(b.drop_last()).push(b.last()) =~= (keep_ascii(a)
                + keep_ascii(b.drop_last())).push(b.last()));
        }
    } else {
        assert(a + b =~= a);
        assert(keep_ascii(a) + keep_ascii(b) =~= keep_ascii(a));
        if a.len() > 0 {
            lemma_keep_ascii(a.drop_last(), b);
            let k0 = keep_ascii(a.drop_last());
            assert forall|k: int| 0 <= k < keep_ascii(a).len() implies (#[trigger] keep_ascii(
                a,
            )[k] as u32) < 128 by {
                if k < k0.len() {
                    assert(keep_ascii(a)[k] == k0[k]);
                }
            }
            if forall|k: int| 0 <= k < a.len() ==> (#[trigger] a[k] as u32) < 128 {
                assert forall|k: int| 0 <= k < a.drop_last().len() implies (
                #[trigger] a.drop_last()[k] as u32) < 128 by {
                    assert(a.drop_last()[k] == a[k]);
                }
                assert((a[a.len() - 1] as u32) < 128);
                assert(k0.push(a.last()) =~= a);
            }
        }
    }
}

/// The decimal digits, by value.
pub open spec fn digits() -> Seq<char> {
    seq!['0', '1', '2', '3', '4', '5', '6', '7', '8', '9']
}

/// Integers are written in decimal as `Display` writes them: one digit for
/// 0 to 9, the digits of `n / 10` followed by the last digit for larger
/// numbers, and a minus sign before the digits of a negative number.
pub proof fn lemma_int_decimal(n: int)
    ensures
        0 <= n < 10 ==> int_decimal(n) == seq![digits()[n]],
        n >= 10 ==> int_decimal(n) == int_decimal(n / 10).push(digits()[n % 10]),
        n < 0 ==> int_decimal(n) == seq!['-'] + int_decimal(-n),
{
    if n >= 0 {
        let d = n % 10;
        assert(digit_char(0) == '0');
        assert(digit_char(1) == '1');
        assert(digit_char(2) == '2');
        assert(digit_char(3) == '3');
        assert(digit_char(4) == '4');
        assert(digit_char(5) == '5');
        assert(digit_char(6) == '6');
        assert(digit_char(7) == '7');
        assert(digit_char(8) == '8');
        assert(digit_char(9) == '9');
        assert(digit_char(d as nat) == digits()[d]);
        if n < 10 {
            assert(digit_char(n as nat) == digits()[n]);
        }
    }
}

} // verus!
