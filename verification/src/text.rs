//! Text as sequences of characters: the small operations that parsing,
//! slugs and messages are built from.

use vstd::prelude::*;

verus! {

/// `String::push` of std appends one character to the end of the string.
pub assume_specification[ String::push ](s: &mut String, c: char)
    ensures
        final(s)@ == old(s)@.push(c),
;

/// What `{:?}` prints for a string: the string in quotes, with the escapes
/// that std's `Debug` for `str` writes.
pub uninterp spec fn debug_text(s: Seq<char>) -> Seq<char>;

/// `{:?}` of std's `str`. The result depends on the text alone; which
/// characters it escapes is left to std.
#[verifier::external_body]
pub(crate) fn quoted(s: &str) -> (r: String)
    ensures
        r@ == debug_text(s@),
{
    format!("{s:?}")
}

/// The texts of a list of strings.
pub open spec fn texts(v: Seq<String>) -> Seq<Seq<char>> {
    v.map_values(|s: String| s@)
}

/// The text of an optional string.
pub open spec fn opt_text(o: Option<String>) -> Option<Seq<char>> {
    match o {
        Some(s) => Some(s@),
        None => None,
    }
}

/// A copy of an optional string.
pub fn copy_opt(o: &Option<String>) -> (r: Option<String>)
    ensures
        opt_text(r) == opt_text(*o),
{
    match o {
        Some(s) => Some(s.clone()),
        None => None,
    }
}

/// Whether an optional string holds the given text.
pub fn opt_is(o: &Option<String>, t: &str) -> (r: bool)
    ensures
        r == (opt_text(*o) == Some(t@)),
{
    match o {
        Some(s) => same(s, t),
        None => false,
    }
}

/// Whether two optional strings hold the same text, or neither holds one.
pub fn same_opt(a: &Option<String>, b: &Option<String>) -> (r: bool)
    ensures
        r == (opt_text(*a) == opt_text(*b)),
{
    match (a, b) {
        (Some(x), Some(y)) => same(x, y),
        (None, None) => true,
        _ => false,
    }
}

/// Append one text to a list.
pub fn add_text(v: &mut Vec<String>, s: &str)
    ensures
        texts(final(v)@) == texts(old(v)@).push(s@),
{
    let t: String = s.to_owned();
    v.push(t);
    assert(texts(v@) =~= texts(old(v)@).push(s@));
}

/// The empty list of texts.
pub fn no_texts() -> (r: Vec<String>)
    ensures
        r@.len() == 0,
        texts(r@) == Seq::<Seq<char>>::empty(),
{
    let r: Vec<String> = Vec::new();
    assert(texts(r@) =~= Seq::<Seq<char>>::empty());
    r
}

// ---------------------------------------------------------------------
// Equality, slices
// ---------------------------------------------------------------------

/// Whether two strings hold the same text.
pub fn same(a: &str, b: &str) -> (r: bool)
    ensures
        r == (a@ == b@),
{
    a.to_owned() == b.to_owned()
}

/// The characters of a string, in order.
pub fn chars_of(s: &str) -> (r: Vec<char>)
    ensures
        r@ == s@,
{
    let mut out: Vec<char> = Vec::new();
    for c in it: s.chars()
        invariant
            it.seq() == s@,
            out@ == s@.take(it.index()),
    {
        out.push(c);
        assert(s@.take(it.index() + 1) =~= s@.take(it.index()).push(c));
    }
    assert(s@.take(s@.len() as int) =~= s@);
    out
}

/// The first `n` characters, or all of them where there are fewer.
pub open spec fn first_chars(s: Seq<char>, n: int) -> Seq<char> {
    if n < s.len() { s.take(n) } else { s }
}

pub fn take_chars(s: &str, n: usize) -> (r: String)
    ensures
        r@ == first_chars(s@, n as int),
{
    let len: usize = s.unicode_len();
    if n < len {
        let t = s.substring_char(0, n);
        assert(s@.subrange(0, n as int) =~= s@.take(n as int));
        t.to_owned()
    } else {
        s.to_owned()
    }
}

// ---------------------------------------------------------------------
// Decimal numbers
// ---------------------------------------------------------------------

/// The decimal digit `d`.
pub open spec fn digit_char(d: int) -> char {
    ('0' as int + d) as char
}

/// Decimal digits of a natural number, without leading zeros.
pub open spec fn nat_text(n: nat) -> Seq<char>
    decreases n,
{
    if n < 10 {
        seq![digit_char(n as int)]
    } else {
        nat_text(n / 10).push(digit_char((n % 10) as int))
    }
}

/// Decimal form of an integer, with a minus sign where it is negative.
pub open spec fn int_text(n: int) -> Seq<char> {
    if n < 0 {
        seq!['-'] + nat_text((-n) as nat)
    } else {
        nat_text(n as nat)
    }
}

fn push_u64(out: &mut String, n: u64)
    ensures
        final(out)@ == old(out)@ + nat_text(n as nat),
    decreases n,
{
    if n >= 10 {
        push_u64(out, n / 10);
    }
    let d: u8 = (n % 10) as u8;
    let c: char = (48u8 + d) as char;
    out.push(c);
    assert(c == digit_char((n % 10) as int));
    assert(out@ =~= old(out)@ + nat_text(n as nat));
}

/// An unsigned number in decimal.
pub fn u64_to_text(n: u64) -> (r: String)
    ensures
        r@ == nat_text(n as nat),
{
    let mut out = String::new();
    push_u64(&mut out, n);
    assert(out@ =~= nat_text(n as nat));
    out
}

/// A count in decimal.
pub fn count_to_text(n: usize) -> (r: String)
    ensures
        r@ == nat_text(n as nat),
{
    u64_to_text(n as u64)
}

/// An integer in decimal.
pub fn int_to_text(n: i64) -> (r: String)
    ensures
        r@ == int_text(n as int),
{
    let mut out = String::new();
    if n < 0 {
        out.push('-');
        if n == i64::MIN {
            push_u64(&mut out, 9_223_372_036_854_775_808u64);
        } else {
            push_u64(&mut out, (-n) as u64);
        }
    } else {
        push_u64(&mut out, n as u64);
    }
    assert(out@ =~= int_text(n as int));
    out
}


// ---------------------------------------------------------------------
// Letters and white space
// ---------------------------------------------------------------------

/// ASCII lower case of one character; other characters stay.
pub open spec fn lower_char(c: char) -> char {
    if 'A' <= c <= 'Z' { (c as int + 32) as char } else { c }
}

/// ASCII upper case of one character; other characters stay.
pub open spec fn upper_char(c: char) -> char {
    if 'a' <= c <= 'z' { (c as int - 32) as char } else { c }
}

/// ASCII lower case of a text.
pub open spec fn lower(s: Seq<char>) -> Seq<char> {
    s.map_values(|c: char| lower_char(c))
}

/// ASCII upper case of a text.
pub open spec fn upper(s: Seq<char>) -> Seq<char> {
    s.map_values(|c: char| upper_char(c))
}

pub fn lower_of(c: char) -> (r: char)
    ensures
        r == lower_char(c),
{
    let u: u32 = c as u32;
    if 65 <= u && u <= 90 {
        (u + 32) as u8 as char
    } else {
        c
    }
}

pub fn upper_of(c: char) -> (r: char)
    ensures
        r == upper_char(c),
{
    let u: u32 = c as u32;
    if 97 <= u && u <= 122 {
        (u - 32) as u8 as char
    } else {
        c
    }
}

/// The text with its ASCII letters in lower case.
pub fn to_lower(s: &str) -> (r: String)
    ensures
        r@ == lower(s@),
{
    let mut out = String::new();
    for c in it: s.chars()
        invariant
            it.seq() == s@,
            out@ == lower(s@.take(it.index())),
    {
        out.push(lower_of(c));
        assert(lower(s@.take(it.index() + 1)) =~= lower(s@.take(it.index())).push(lower_char(c)));
    }
    assert(s@.take(s@.len() as int) =~= s@);
    out
}

/// The text with its ASCII letters in upper case.
pub fn to_upper(s: &str) -> (r: String)
    ensures
        r@ == upper(s@),
{
    let mut out = String::new();
    for c in it: s.chars()
        invariant
            it.seq() == s@,
            out@ == upper(s@.take(it.index())),
    {
        out.push(upper_of(c));
        assert(upper(s@.take(it.index() + 1)) =~= upper(s@.take(it.index())).push(upper_char(c)));
    }
    assert(s@.take(s@.len() as int) =~= s@);
    out
}

/// ASCII digits `0` to `9`.
pub open spec fn is_digit(c: char) -> bool {
    '0' <= c <= '9'
}

/// ASCII letters and digits.
pub open spec fn is_alnum(c: char) -> bool {
    is_digit(c) || 'a' <= c <= 'z' || 'A' <= c <= 'Z'
}

pub fn digit(c: char) -> (r: bool)
    ensures
        r == is_digit(c),
{
    let u: u32 = c as u32;
    48 <= u && u <= 57
}

pub fn alnum(c: char) -> (r: bool)
    ensures
        r == is_alnum(c),
{
    let u: u32 = c as u32;
    (48 <= u && u <= 57) || (97 <= u && u <= 122) || (65 <= u && u <= 90)
}

/// Unicode white space (the `White_Space` property).
pub open spec fn is_white(c: char) -> bool {
    let u = c as int;
    ||| 9 <= u <= 13
    ||| u == 0x20
    ||| u == 0x85
    ||| u == 0xA0
    ||| u == 0x1680
    ||| 0x2000 <= u <= 0x200A
    ||| u == 0x2028
    ||| u == 0x2029
    ||| u == 0x202F
    ||| u == 0x205F
    ||| u == 0x3000
}

pub fn white(c: char) -> (r: bool)
    ensures
        r == is_white(c),
{
    let u: u32 = c as u32;
    (9 <= u && u <= 13) || u == 0x20 || u == 0x85 || u == 0xA0 || u == 0x1680 || (0x2000 <= u && u
        <= 0x200A) || u == 0x2028 || u == 0x2029 || u == 0x202F || u == 0x205F || u == 0x3000
}

// ---------------------------------------------------------------------
// Searching
// ---------------------------------------------------------------------

/// Whether `p` stands in `s` at position `i`.
pub open spec fn occurs_at(s: Seq<char>, p: Seq<char>, i: int) -> bool {
    0 <= i && i + p.len() <= s.len() && s.subrange(i, i + p.len()) == p
}

/// First position from `i` on at which `p` stands in `s`.
pub open spec fn find_from(s: Seq<char>, p: Seq<char>, i: int) -> Option<int>
    decreases s.len() + 1 - i,
{
    if i < 0 || i + p.len() > s.len() {
        None
    } else if occurs_at(s, p, i) {
        Some(i)
    } else {
        find_from(s, p, i + 1)
    }
}

/// First position at which `p` stands in `s`.
pub open spec fn find(s: Seq<char>, p: Seq<char>) -> Option<int> {
    find_from(s, p, 0)
}

/// Last position up to `i` at which `p` stands in `s`.
pub open spec fn rfind_to(s: Seq<char>, p: Seq<char>, i: int) -> Option<int>
    decreases i + 1,
{
    if i < 0 {
        None
    } else if occurs_at(s, p, i) {
        Some(i)
    } else {
        rfind_to(s, p, i - 1)
    }
}

/// Last position at which `p` stands in `s`.
pub open spec fn rfind(s: Seq<char>, p: Seq<char>) -> Option<int> {
    rfind_to(s, p, s.len() - p.len())
}

/// Whether `p` stands somewhere in `s`.
pub open spec fn has(s: Seq<char>, p: Seq<char>) -> bool {
    find(s, p) is Some
}

/// A position that `find` gives is one at which the pattern stands, and the
/// pattern stands at none before it.
pub proof fn lemma_find_from(s: Seq<char>, p: Seq<char>, i: int)
    requires
        0 <= i,
    ensures
        match find_from(s, p, i) {
            Some(k) => i <= k && occurs_at(s, p, k) && forall|j: int|
                i <= j < k ==> !#[trigger] occurs_at(s, p, j),
            None => forall|j: int| i <= j ==> !#[trigger] occurs_at(s, p, j),
        },
    decreases s.len() + 1 - i,
{
    if i + p.len() <= s.len() && !occurs_at(s, p, i) {
        lemma_find_from(s, p, i + 1);
    }
}

/// The mirror image of `lemma_find_from` for the search from the end.
pub proof fn lemma_rfind_to(s: Seq<char>, p: Seq<char>, i: int)
    ensures
        match rfind_to(s, p, i) {
            Some(k) => 0 <= k <= i && occurs_at(s, p, k) && forall|j: int|
                k < j <= i ==> !#[trigger] occurs_at(s, p, j),
            None => forall|j: int| j <= i ==> !#[trigger] occurs_at(s, p, j),
        },
    decreases i + 1,
{
    if i >= 0 && !occurs_at(s, p, i) {
        lemma_rfind_to(s, p, i - 1);
    }
}

fn stands_at(s: &Vec<char>, p: &Vec<char>, i: usize) -> (r: bool)
    requires
        i + p@.len() <= s@.len(),
    ensures
        r == occurs_at(s@, p@, i as int),
{
    let total: usize = s.len();
    let mut k: usize = 0;
    while k < p.len()
        invariant
            k <= p@.len(),
            total == s@.len(),
            i + p@.len() <= s@.len(),
            forall|j: int| 0 <= j < k ==> s@[i + j] == p@[j],
        decreases p@.len() - k,
    {
        if s[i + k] != p[k] {
            assert(s@.subrange(i as int, i + p@.len())[k as int] != p@[k as int]);
            return false;
        }
        k = k + 1;
    }
    assert(s@.subrange(i as int, i + p@.len()) =~= p@);
    true
}

/// First position of `p` in `s`, counted in characters.
pub fn find_text(s: &str, p: &str) -> (r: Option<usize>)
    ensures
        match r {
            Some(k) => find(s@, p@) == Some(k as int),
            None => find(s@, p@) is None,
        },
{
    let sv = chars_of(s);
    let pv = chars_of(p);
    let mut i: usize = 0;
    while i <= sv.len() && pv.len() <= sv.len() - i
        invariant
            sv@ == s@,
            pv@ == p@,
            i <= sv@.len() + 1,
            find(s@, p@) == find_from(s@, p@, i as int),
        decreases sv@.len() + 1 - i,
    {
        if stands_at(&sv, &pv, i) {
            return Some(i);
        }
        if i == sv.len() {
            assert(find_from(s@, p@, i + 1) is None);
            return None;
        }
        i = i + 1;
    }
    None
}

/// Last position of `p` in `s`, counted in characters.
pub fn rfind_text(s: &str, p: &str) -> (r: Option<usize>)
    ensures
        match r {
            Some(k) => rfind(s@, p@) == Some(k as int),
            None => rfind(s@, p@) is None,
        },
{
    let sv = chars_of(s);
    let pv = chars_of(p);
    if pv.len() > sv.len() {
        return None;
    }
    let mut i: usize = sv.len() - pv.len();
    loop
        invariant
            sv@ == s@,
            pv@ == p@,
            i + pv@.len() <= sv@.len(),
            rfind(s@, p@) == rfind_to(s@, p@, i as int),
        decreases i,
    {
        if stands_at(&sv, &pv, i) {
            return Some(i);
        }
        if i == 0 {
            assert(rfind_to(s@, p@, -1) is None);
            return None;
        }
        i = i - 1;
    }
}

/// Whether `p` stands somewhere in `s`.
pub fn contains(s: &str, p: &str) -> (r: bool)
    ensures
        r == has(s@, p@),
{
    find_text(s, p).is_some()
}

/// Whether `s` begins with `p`.
pub fn starts_with(s: &str, p: &str) -> (r: bool)
    ensures
        r == p@.is_prefix_of(s@),
{
    let sv = chars_of(s);
    let pv = chars_of(p);
    if pv.len() > sv.len() {
        return false;
    }
    let r = stands_at(&sv, &pv, 0);
    assert(s@.subrange(0, p@.len() as int) =~= s@.take(p@.len() as int));
    r
}

/// Whether `s` ends with `p`.
pub fn ends_with(s: &str, p: &str) -> (r: bool)
    ensures
        r == p@.is_suffix_of(s@),
{
    let sv = chars_of(s);
    let pv = chars_of(p);
    if pv.len() > sv.len() {
        return false;
    }
    let at: usize = sv.len() - pv.len();
    stands_at(&sv, &pv, at)
}

/// The characters from position `i` on.
pub fn skip_chars(s: &str, i: usize) -> (r: String)
    requires
        i <= s@.len(),
    ensures
        r@ == s@.skip(i as int),
{
    let n: usize = s.unicode_len();
    let t = s.substring_char(i, n);
    assert(s@.subrange(i as int, n as int) =~= s@.skip(i as int));
    t.to_owned()
}

/// The characters before position `i`.
pub fn before(s: &str, i: usize) -> (r: String)
    requires
        i <= s@.len(),
    ensures
        r@ == s@.take(i as int),
{
    let t = s.substring_char(0, i);
    assert(s@.subrange(0, i as int) =~= s@.take(i as int));
    t.to_owned()
}

/// What stands before and after the first `p`.
pub open spec fn split_once(s: Seq<char>, p: Seq<char>) -> Option<(Seq<char>, Seq<char>)> {
    match find(s, p) {
        Some(i) => Some((s.take(i), s.skip(i + p.len()))),
        None => None,
    }
}

/// What stands before and after the last `p`.
pub open spec fn rsplit_once(s: Seq<char>, p: Seq<char>) -> Option<(Seq<char>, Seq<char>)> {
    match rfind(s, p) {
        Some(i) => Some((s.take(i), s.skip(i + p.len()))),
        None => None,
    }
}

/// The texts of an optional pair of strings.
pub open spec fn opt_pair(o: Option<(String, String)>) -> Option<(Seq<char>, Seq<char>)> {
    match o {
        Some((a, b)) => Some((a@, b@)),
        None => None,
    }
}

/// What stands before and after the first `p`, where it occurs.
pub fn cut_once(s: &str, p: &str) -> (r: Option<(String, String)>)
    ensures
        opt_pair(r) == split_once(s@, p@),
{
    match find_text(s, p) {
        Some(i) => {
            proof {
                lemma_find_from(s@, p@, 0);
            }
            let n: usize = p.unicode_len();
            let total: usize = s.unicode_len();
            assert(i + n <= total);
            Some((before(s, i), skip_chars(s, i + n)))
        },
        None => None,
    }
}

/// What stands before and after the last `p`, where it occurs.
pub fn rcut_once(s: &str, p: &str) -> (r: Option<(String, String)>)
    ensures
        opt_pair(r) == rsplit_once(s@, p@),
{
    match rfind_text(s, p) {
        Some(i) => {
            proof {
                lemma_rfind_to(s@, p@, s@.len() - p@.len());
            }
            let n: usize = p.unicode_len();
            let total: usize = s.unicode_len();
            assert(i + n <= total);
            Some((before(s, i), skip_chars(s, i + n)))
        },
        None => None,
    }
}


// ---------------------------------------------------------------------
// Splitting, trimming, joining
// ---------------------------------------------------------------------

/// Where a text is cut into pieces.
#[derive(Clone, Copy, Debug, PartialEq, Eq)]
pub enum Cut {
    /// At one character.
    At(char),
    /// At white space.
    White,
    /// At the characters that end a path segment of a web address.
    UrlPart,
}

/// Whether the text is cut at `c`.
pub open spec fn cuts(k: Cut, c: char) -> bool {
    match k {
        Cut::At(x) => c == x,
        Cut::White => is_white(c),
        Cut::UrlPart => c == '/' || c == '?' || c == '#',
    }
}

pub fn cuts_at(k: Cut, c: char) -> (r: bool)
    ensures
        r == cuts(k, c),
{
    match k {
        Cut::At(x) => c == x,
        Cut::White => white(c),
        Cut::UrlPart => c == '/' || c == '?' || c == '#',
    }
}

/// The pieces between the cuts; one more than there are cuts.
pub open spec fn split(s: Seq<char>, k: Cut) -> Seq<Seq<char>>
    decreases s.len(),
{
    if s.len() == 0 {
        seq![Seq::<char>::empty()]
    } else {
        let p = split(s.drop_last(), k);
        if cuts(k, s.last()) {
            p.push(Seq::empty())
        } else {
            p.drop_last().push(p.last().push(s.last()))
        }
    }
}

/// There is always at least one piece.
pub proof fn lemma_split_len(s: Seq<char>, k: Cut)
    ensures
        split(s, k).len() >= 1,
    decreases s.len(),
{
    if s.len() > 0 {
        lemma_split_len(s.drop_last(), k);
    }
}

/// The pieces of `s` between its cuts.
pub fn split_text(s: &str, k: Cut) -> (r: Vec<String>)
    ensures
        texts(r@) == split(s@, k),
        r@.len() >= 1,
{
    let mut out: Vec<String> = Vec::new();
    let mut cur = String::new();
    for c in it: s.chars()
        invariant
            it.seq() == s@,
            texts(out@).push(cur@) == split(s@.take(it.index()), k),
    {
        proof {
            assert(s@.take(it.index() + 1).drop_last() =~= s@.take(it.index()));
            lemma_split_len(s@.take(it.index()), k);
        }
        let ghost before = texts(out@).push(cur@);
        if cuts_at(k, c) {
            out.push(cur);
            cur = String::new();
            assert(texts(out@) =~= before);
        } else {
            cur.push(c);
            assert(texts(out@).push(cur@) =~= before.drop_last().push(before.last().push(c)));
        }
    }
    assert(s@.take(s@.len() as int) =~= s@);
    let ghost parts = texts(out@).push(cur@);
    out.push(cur);
    assert(texts(out@) =~= parts);
    out
}

/// The non-empty pieces between white space.
pub open spec fn words(s: Seq<char>) -> Seq<Seq<char>> {
    split(s, Cut::White).filter(|w: Seq<char>| w.len() > 0)
}

/// Without the characters at the end at which `k` cuts.
pub open spec fn trim_end(s: Seq<char>, k: Cut) -> Seq<char>
    decreases s.len(),
{
    if s.len() > 0 && cuts(k, s.last()) {
        trim_end(s.drop_last(), k)
    } else {
        s
    }
}

/// Without the characters at the start at which `k` cuts.
pub open spec fn trim_start(s: Seq<char>, k: Cut) -> Seq<char>
    decreases s.len(),
{
    if s.len() > 0 && cuts(k, s[0]) {
        trim_start(s.skip(1), k)
    } else {
        s
    }
}

/// Without the characters at either end at which `k` cuts.
pub open spec fn trim(s: Seq<char>, k: Cut) -> Seq<char> {
    trim_end(trim_start(s, k), k)
}

pub fn trim_end_text(s: &str, k: Cut) -> (r: String)
    ensures
        r@ == trim_end(s@, k),
{
    let v = chars_of(s);
    let mut n: usize = v.len();
    assert(s@.take(n as int) =~= s@);
    while n > 0 && cuts_at(k, v[n - 1])
        invariant
            v@ == s@,
            n <= v@.len(),
            trim_end(s@, k) == trim_end(s@.take(n as int), k),
        decreases n,
    {
        assert(s@.take(n as int).drop_last() =~= s@.take(n - 1));
        n = n - 1;
    }
    before(s, n)
}

pub fn trim_start_text(s: &str, k: Cut) -> (r: String)
    ensures
        r@ == trim_start(s@, k),
{
    let v = chars_of(s);
    let mut i: usize = 0;
    assert(s@.skip(0) =~= s@);
    while i < v.len() && cuts_at(k, v[i])
        invariant
            v@ == s@,
            i <= v@.len(),
            trim_start(s@, k) == trim_start(s@.skip(i as int), k),
        decreases v@.len() - i,
    {
        assert(s@.skip(i as int).skip(1) =~= s@.skip(i + 1));
        i = i + 1;
    }
    skip_chars(s, i)
}

pub fn trim_text(s: &str, k: Cut) -> (r: String)
    ensures
        r@ == trim(s@, k),
{
    let t = trim_start_text(s, k);
    trim_end_text(&t, k)
}

/// Without any copy of `p`, looked for from the start.
pub open spec fn without(s: Seq<char>, p: Seq<char>) -> Seq<char>
    decreases s.len(),
{
    match split_once(s, p) {
        Some((a, b)) => if b.len() < s.len() { a + without(b, p) } else { s },
        None => s,
    }
}

pub fn remove_all(s: &str, p: &str) -> (r: String)
    requires
        p@.len() > 0,
    ensures
        r@ == without(s@, p@),
{
    let mut out = String::new();
    let mut rest: String = s.to_owned();
    assert(out@ + without(rest@, p@) =~= without(s@, p@));
    loop
        invariant
            p@.len() > 0,
            out@ + without(rest@, p@) == without(s@, p@),
        decreases rest@.len(),
    {
        proof {
            lemma_find_from(rest@, p@, 0);
        }
        match cut_once(&rest, p) {
            Some((a, b)) => {
                let ghost done = out@;
                let ghost was = rest@;
                out.append(&a);
                assert(done + (a@ + without(b@, p@)) =~= done + a@ + without(b@, p@));
                rest = b;
            },
            None => {
                out.append(&rest);
                return out;
            },
        }
    }
}

/// Without any number of copies of `p` at the end.
pub open spec fn trim_suffixes(s: Seq<char>, p: Seq<char>) -> Seq<char>
    decreases s.len(),
{
    if p.len() > 0 && p.is_suffix_of(s) {
        trim_suffixes(s.take(s.len() - p.len()), p)
    } else {
        s
    }
}

pub fn trim_suffixes_text(s: &str, p: &str) -> (r: String)
    ensures
        r@ == trim_suffixes(s@, p@),
{
    let m: usize = p.unicode_len();
    let mut cur: String = s.to_owned();
    while m > 0 && ends_with(&cur, p)
        invariant
            m == p@.len(),
            trim_suffixes(s@, p@) == trim_suffixes(cur@, p@),
        decreases cur@.len(),
    {
        let n: usize = cur.as_str().unicode_len();
        cur = before(&cur, n - m);
    }
    cur
}

/// The texts of a list, with `sep` between neighbours.
pub open spec fn join(v: Seq<Seq<char>>, sep: Seq<char>) -> Seq<char>
    decreases v.len(),
{
    if v.len() == 0 {
        Seq::empty()
    } else if v.len() == 1 {
        v[0]
    } else {
        join(v.drop_last(), sep) + sep + v.last()
    }
}

pub fn join_texts(v: &Vec<String>, sep: &str) -> (r: String)
    ensures
        r@ == join(texts(v@), sep@),
{
    let mut out = String::new();
    let mut i: usize = 0;
    while i < v.len()
        invariant
            i <= v@.len(),
            out@ == join(texts(v@).take(i as int), sep@),
        decreases v@.len() - i,
    {
        let ghost old_out = out@;
        if i > 0 {
            out.append(sep);
        }
        out.append(v[i].as_str());
        proof {
            let t = texts(v@).take(i + 1);
            assert(t.drop_last() =~= texts(v@).take(i as int));
            assert(t.last() == v@[i as int]@);
            if i == 0 {
                assert(old_out =~= Seq::<char>::empty());
                assert(out@ =~= t[0]);
            }
        }
        i = i + 1;
    }
    assert(texts(v@).take(v@.len() as int) =~= texts(v@));
    out
}

/// Each `c` replaced by the text `with`.
pub open spec fn replace_char(s: Seq<char>, c: char, with: Seq<char>) -> Seq<char>
    decreases s.len(),
{
    if s.len() == 0 {
        Seq::empty()
    } else {
        replace_char(s.drop_last(), c, with) + (if s.last() == c { with } else { seq![s.last()] })
    }
}

pub fn replace_text(s: &str, c: char, with: &str) -> (r: String)
    ensures
        r@ == replace_char(s@, c, with@),
{
    let mut out = String::new();
    for x in it: s.chars()
        invariant
            it.seq() == s@,
            out@ == replace_char(s@.take(it.index()), c, with@),
    {
        assert(s@.take(it.index() + 1).drop_last() =~= s@.take(it.index()));
        let ghost prev = out@;
        if x == c {
            out.append(with);
        } else {
            out.push(x);
            assert(out@ =~= prev + seq![x]);
        }
    }
    assert(s@.take(s@.len() as int) =~= s@);
    out
}

/// A line without the carriage return at its end.
pub open spec fn strip_cr(s: Seq<char>) -> Seq<char> {
    if s.len() > 0 && s.last() == '\r' { s.drop_last() } else { s }
}

/// The lines of a text: what ends in a line feed, or in carriage return and
/// line feed, and what follows the last of these where it is not empty.
pub open spec fn lines(s: Seq<char>) -> Seq<Seq<char>> {
    let p = split(s, Cut::At('\n'));
    let ended = p.drop_last().map_values(|l: Seq<char>| strip_cr(l));
    if p.last().len() == 0 { ended } else { ended.push(p.last()) }
}

pub fn lines_of(s: &str) -> (r: Vec<String>)
    ensures
        texts(r@) == lines(s@),
{
    let p = split_text(s, Cut::At('\n'));
    let ghost pieces = texts(p@);
    let ghost ended = pieces.drop_last().map_values(|l: Seq<char>| strip_cr(l));
    let mut out: Vec<String> = Vec::new();
    let mut i: usize = 0;
    let n: usize = p.len() - 1;
    while i < n
        invariant
            n == p@.len() - 1,
            i <= n,
            pieces == texts(p@),
            ended == pieces.drop_last().map_values(|l: Seq<char>| strip_cr(l)),
            texts(out@) == ended.take(i as int),
        decreases n - i,
    {
        let len: usize = p[i].as_str().unicode_len();
        let ghost prev = texts(out@);
        let line = if len > 0 && p[i].as_str().get_char(len - 1) == '\r' {
            let t = before(&p[i], len - 1);
            assert(t@ =~= p@[i as int]@.drop_last());
            t
        } else {
            p[i].clone()
        };
        assert(line@ == strip_cr(pieces[i as int]));
        out.push(line);
        assert(texts(out@) =~= prev.push(line@));
        assert(ended.take(i + 1) =~= ended.take(i as int).push(ended[i as int]));
        i = i + 1;
    }
    assert(ended.take(n as int) =~= ended);
    if !p[n].as_str().is_empty() {
        let ghost prev = texts(out@);
        let last = p[n].clone();
        out.push(last);
        assert(texts(out@) =~= prev.push(last@));
    }
    out
}

/// The first line, or nothing where the text is empty.
pub open spec fn first_line(s: Seq<char>) -> Seq<char> {
    if lines(s).len() > 0 { lines(s)[0] } else { Seq::empty() }
}

pub fn first_line_of(s: &str) -> (r: String)
    ensures
        r@ == first_line(s@),
{
    let v = lines_of(s);
    if v.len() > 0 {
        assert(texts(v@)[0] == v@[0]@);
        v[0].clone()
    } else {
        String::new()
    }
}

/// The last line, or nothing where the text is empty.
pub open spec fn last_line(s: Seq<char>) -> Seq<char> {
    if lines(s).len() > 0 { lines(s).last() } else { Seq::empty() }
}

pub fn last_line_of(s: &str) -> (r: String)
    ensures
        r@ == last_line(s@),
{
    let v = lines_of(s);
    if v.len() > 0 {
        let i: usize = v.len() - 1;
        assert(texts(v@)[i as int] == v@[i as int]@);
        v[i].clone()
    } else {
        String::new()
    }
}


/// The non-empty pieces of `s` between white space.
pub fn words_of(s: &str) -> (r: Vec<String>)
    ensures
        texts(r@) == words(s@),
{
    let p = split_text(s, Cut::White);
    non_empty(p)
}

/// The non-empty texts of a list, in order.
pub fn non_empty(p: Vec<String>) -> (r: Vec<String>)
    ensures
        texts(r@) == texts(p@).filter(|w: Seq<char>| w.len() > 0),
{
    let ghost pieces = texts(p@);
    let ghost keep = |w: Seq<char>| w.len() > 0;
    let mut out: Vec<String> = Vec::new();
    let mut i: usize = 0;
    assert(pieces.take(0) =~= Seq::<Seq<char>>::empty());
    reveal(Seq::filter);
    assert(pieces.take(0).filter(keep) =~= Seq::<Seq<char>>::empty());
    assert(texts(out@) =~= Seq::<Seq<char>>::empty());
    while i < p.len()
        invariant
            i <= p@.len(),
            pieces == texts(p@),
            keep == (|w: Seq<char>| w.len() > 0),
            texts(out@) == pieces.take(i as int).filter(keep),
        decreases p@.len() - i,
    {
        let ghost prev = texts(out@);
        proof {
            reveal(Seq::filter);
            assert(pieces.take(i + 1).drop_last() =~= pieces.take(i as int));
            assert(pieces.take(i + 1).last() == p@[i as int]@);
        }
        if !p[i].as_str().is_empty() {
            let w = p[i].clone();
            out.push(w);
            assert(texts(out@) =~= prev.push(w@));
        }
        i = i + 1;
    }
    assert(pieces.take(p@.len() as int) =~= pieces);
    out
}

// ---------------------------------------------------------------------
// Reading numbers
// ---------------------------------------------------------------------

/// The value of a text of decimal digits.
pub open spec fn digits_value(s: Seq<char>) -> int
    decreases s.len(),
{
    if s.len() == 0 {
        0
    } else {
        digits_value(s.drop_last()) * 10 + (s.last() as int - '0' as int)
    }
}

/// One or more decimal digits and nothing else.
pub open spec fn all_digits(s: Seq<char>) -> bool {
    s.len() > 0 && forall|i: int| 0 <= i < s.len() ==> is_digit(#[trigger] s[i])
}

pub fn only_digits(s: &str) -> (r: bool)
    ensures
        r == all_digits(s@),
{
    let v = chars_of(s);
    if v.len() == 0 {
        return false;
    }
    let mut i: usize = 0;
    while i < v.len()
        invariant
            v@ == s@,
            i <= v@.len(),
            forall|k: int| 0 <= k < i ==> is_digit(#[trigger] s@[k]),
        decreases v@.len() - i,
    {
        let c: char = v[i];
        if !digit(c) {
            assert(!is_digit(s@[i as int]));
            return false;
        }
        i = i + 1;
    }
    true
}

/// The integer between `lo` and `hi` that a text names: digits, with an
/// optional `+`, or an optional `-` where `lo` is negative.
pub open spec fn parse_int(s: Seq<char>, lo: int, hi: int) -> Option<int> {
    let neg = lo < 0 && s.len() > 0 && s[0] == '-';
    let ds = if s.len() > 0 && (neg || s[0] == '+') { s.skip(1) } else { s };
    let v = if neg { -digits_value(ds) } else { digits_value(ds) };
    if all_digits(ds) && lo <= v <= hi { Some(v) } else { None }
}

/// `parse_int` over the range of `i64`.
pub open spec fn parse_i64(s: Seq<char>) -> Option<int> {
    parse_int(s, i64::MIN as int, i64::MAX as int)
}

/// The value of the digits from position `from` on, where all of them are
/// digits, there is at least one, and the value is at most 2^64.
fn read_digits(v: &Vec<char>, from: usize) -> (r: Option<i128>)
    requires
        from <= v@.len(),
    ensures
        match r {
            Some(n) => all_digits(v@.skip(from as int)) && n == digits_value(v@.skip(from as int))
                && 0 <= n <= 0x1_0000_0000_0000_0000,
            None => !all_digits(v@.skip(from as int)) || digits_value(v@.skip(from as int))
                > 0x1_0000_0000_0000_0000,
        },
{
    let ghost ds = v@.skip(from as int);
    if from == v.len() {
        return None;
    }
    let mut acc: i128 = 0;
    let mut big: bool = false;
    let mut i: usize = from;
    while i < v.len()
        invariant
            from <= i <= v@.len(),
            ds == v@.skip(from as int),
            forall|k: int| 0 <= k < i - from ==> is_digit(#[trigger] ds[k]),
            0 <= acc <= 0x1_0000_0000_0000_0000,
            !big ==> acc == digits_value(ds.take(i - from)),
            big ==> digits_value(ds.take(i - from)) > 0x1_0000_0000_0000_0000,
        decreases v@.len() - i,
    {
        let c: char = v[i];
        assert(ds[i - from] == c);
        if !digit(c) {
            return None;
        }
        let d: i128 = (c as u32 - 48) as i128;
        proof {
            assert(ds.take(i + 1 - from).drop_last() =~= ds.take(i - from));
            assert(ds.take(i + 1 - from).last() == c);
        }
        if !big {
            let next: i128 = acc * 10 + d;
            if next > 0x1_0000_0000_0000_0000 {
                big = true;
            } else {
                acc = next;
            }
        }
        i = i + 1;
    }
    assert(ds.take(ds.len() as int) =~= ds);
    if big {
        None
    } else {
        Some(acc)
    }
}

/// The integer of a range that `s` names.
fn read_int(s: &str, lo: i128, hi: i128) -> (r: Option<i128>)
    requires
        -0x8000_0000_0000_0000 <= lo <= 0,
        0 <= hi <= 0xFFFF_FFFF_FFFF_FFFF,
    ensures
        match r {
            Some(n) => parse_int(s@, lo as int, hi as int) == Some(n as int),
            None => parse_int(s@, lo as int, hi as int) is None,
        },
{
    let v = chars_of(s);
    let neg: bool = lo < 0 && v.len() > 0 && v[0] == '-';
    let signed: bool = neg || (v.len() > 0 && v[0] == '+');
    let from: usize = if signed { 1 } else { 0 };
    assert(s@.skip(0) =~= s@);
    match read_digits(&v, from) {
        Some(n) => {
            let x: i128 = if neg { -n } else { n };
            if lo <= x && x <= hi {
                Some(x)
            } else {
                None
            }
        },
        None => None,
    }
}

/// The `i64` that `s` names, as std's `str::parse` reads it.
pub fn read_i64(s: &str) -> (r: Option<i64>)
    ensures
        match r {
            Some(n) => parse_i64(s@) == Some(n as int),
            None => parse_i64(s@) is None,
        },
{
    match read_int(s, -0x8000_0000_0000_0000i128, 0x7FFF_FFFF_FFFF_FFFFi128) {
        Some(n) => Some(n as i64),
        None => None,
    }
}

/// The `u32` that `s` names, as std's `str::parse` reads it.
pub fn read_u32(s: &str) -> (r: Option<u32>)
    ensures
        match r {
            Some(n) => parse_int(s@, 0, u32::MAX as int) == Some(n as int),
            None => parse_int(s@, 0, u32::MAX as int) is None,
        },
{
    match read_int(s, 0i128, 0xFFFF_FFFFi128) {
        Some(n) => Some(n as u32),
        None => None,
    }
}

/// The `u16` that `s` names, as std's `str::parse` reads it.
pub fn read_u16(s: &str) -> (r: Option<u16>)
    ensures
        match r {
            Some(n) => parse_int(s@, 0, u16::MAX as int) == Some(n as int),
            None => parse_int(s@, 0, u16::MAX as int) is None,
        },
{
    match read_int(s, 0i128, 0xFFFFi128) {
        Some(n) => Some(n as u16),
        None => None,
    }
}

proof fn lemma_nat_text(n: nat)
    ensures
        all_digits(nat_text(n)),
        digits_value(nat_text(n)) == n,
    decreases n,
{
    reveal_with_fuel(digits_value, 2);
    if n >= 10 {
        lemma_nat_text(n / 10);
        assert(nat_text(n).drop_last() =~= nat_text(n / 10));
        assert forall|i: int| 0 <= i < nat_text(n).len() implies is_digit(
            #[trigger] nat_text(n)[i],
        ) by {
            if i < nat_text(n / 10).len() {
                assert(nat_text(n)[i] == nat_text(n / 10)[i]);
            }
        }
    } else {
        assert(nat_text(n).drop_last() =~= Seq::<char>::empty());
    }
}

/// Reading the decimal form of an `i64` gives the number back.
pub proof fn law_decimal_round_trip(n: i64)
    ensures
        parse_i64(int_text(n as int)) == Some(n as int),
{
    if n < 0 {
        lemma_nat_text((-n) as nat);
        assert(int_text(n as int).skip(1) =~= nat_text((-n) as nat));
    } else {
        lemma_nat_text(n as nat);
        assert(is_digit(nat_text(n as nat)[0]));
    }
}

/// A decimal form is not empty and holds digits and a minus sign only.
pub proof fn lemma_int_text_chars(n: i64)
    ensures
        int_text(n as int).len() > 0,
        forall|i: int|
            0 <= i < int_text(n as int).len() ==> is_digit(#[trigger] int_text(n as int)[i]) || int_text(
                n as int,
            )[i] == '-',
{
    let t = int_text(n as int);
    if n < 0 {
        let digits = nat_text((-n) as nat);
        lemma_nat_text((-n) as nat);
        assert(t.skip(1) =~= digits);
        assert forall|i: int| 0 <= i < t.len() implies is_digit(#[trigger] t[i]) || t[i] == '-' by {
            if i > 0 {
                assert(t[i] == digits[i - 1]);
            }
        }
    } else {
        lemma_nat_text(n as nat);
    }
}

/// Different integers have different decimal forms.
pub proof fn law_decimal_injective(a: i64, b: i64)
    requires
        int_text(a as int) == int_text(b as int),
    ensures
        a == b,
{
    law_decimal_round_trip(a);
    law_decimal_round_trip(b);
}


// ---------------------------------------------------------------------
// Cutting at a known place
// ---------------------------------------------------------------------

/// Whether a character stands in a text.
pub open spec fn holds_char(s: Seq<char>, c: char) -> bool {
    exists|i: int| 0 <= i < s.len() && s[i] == c
}

/// One character stands at a position where the text has it there.
pub proof fn lemma_occurs_one(s: Seq<char>, c: char, i: int)
    ensures
        occurs_at(s, seq![c], i) <==> 0 <= i < s.len() && s[i] == c,
{
    if 0 <= i < s.len() {
        assert(s.subrange(i, i + 1) =~= seq![s[i]]);
        if occurs_at(s, seq![c], i) {
            assert(s.subrange(i, i + 1)[0] == seq![c][0]);
        }
    }
}

/// A text that holds `c` nowhere before the place `a.len()` is cut there.
pub proof fn lemma_split_once_at(a: Seq<char>, c: char, b: Seq<char>)
    requires
        !holds_char(a, c),
    ensures
        split_once(a + seq![c] + b, seq![c]) == Some((a, b)),
        find(a + seq![c] + b, seq![c]) == Some(a.len() as int),
{
    let s = a + seq![c] + b;
    lemma_find_from(s, seq![c], 0);
    lemma_occurs_one(s, c, a.len() as int);
    assert(s[a.len() as int] == c);
    match find(s, seq![c]) {
        Some(k) => {
            lemma_occurs_one(s, c, k);
            if k < a.len() {
                assert(s[k] == a[k]);
                assert(holds_char(a, c));
            }
            assert(k == a.len());
            assert(s.take(k) =~= a);
            assert(s.skip(k + 1) =~= b);
        },
        None => {
            assert(occurs_at(s, seq![c], a.len() as int));
        },
    }
}

/// A text that holds `c` nowhere is not cut at it.
pub proof fn lemma_split_once_none(a: Seq<char>, c: char)
    requires
        !holds_char(a, c),
    ensures
        split_once(a, seq![c]) is None,
        rsplit_once(a, seq![c]) is None,
        find(a, seq![c]) is None,
{
    lemma_find_from(a, seq![c], 0);
    lemma_rfind_to(a, seq![c], a.len() - 1);
    if let Some(k) = find(a, seq![c]) {
        lemma_occurs_one(a, c, k);
        assert(holds_char(a, c));
    }
    if let Some(k) = rfind(a, seq![c]) {
        lemma_occurs_one(a, c, k);
        assert(holds_char(a, c));
    }
}

/// A text that holds `c` nowhere after the place `a.len()` is cut there from
/// the end.
pub proof fn lemma_rsplit_once_at(a: Seq<char>, c: char, b: Seq<char>)
    requires
        !holds_char(b, c),
    ensures
        rsplit_once(a + seq![c] + b, seq![c]) == Some((a, b)),
        rfind(a + seq![c] + b, seq![c]) == Some(a.len() as int),
{
    let s = a + seq![c] + b;
    lemma_rfind_to(s, seq![c], s.len() - 1);
    lemma_occurs_one(s, c, a.len() as int);
    assert(s[a.len() as int] == c);
    match rfind(s, seq![c]) {
        Some(k) => {
            lemma_occurs_one(s, c, k);
            if k > a.len() {
                assert(s[k] == b[k - a.len() - 1]);
                assert(holds_char(b, c));
            }
            if k < a.len() {
                assert(occurs_at(s, seq![c], a.len() as int));
            }
            assert(s.take(k) =~= a);
            assert(s.skip(k + 1) =~= b);
        },
        None => {
            assert(occurs_at(s, seq![c], a.len() as int));
        },
    }
}

/// A text without cuts is one piece.
pub proof fn lemma_split_whole(a: Seq<char>, c: char)
    requires
        !holds_char(a, c),
    ensures
        split(a, Cut::At(c)) == seq![a],
    decreases a.len(),
{
    if a.len() == 0 {
        assert(a =~= Seq::<char>::empty());
    } else {
        let short = a.drop_last();
        assert forall|i: int| 0 <= i < short.len() implies short[i] != c by {
            assert(a[i] == short[i]);
        }
        lemma_split_whole(short, c);
        assert(a[a.len() - 1] != c);
        assert(short.push(a.last()) =~= a);
        assert(split(a, Cut::At(c)) =~= seq![a]);
    }
}

/// What stands behind the last cut is the last piece.
pub proof fn lemma_split_at(base: Seq<char>, c: char, name: Seq<char>)
    requires
        !holds_char(name, c),
    ensures
        split(base + seq![c] + name, Cut::At(c)) == split(base, Cut::At(c)).push(name),
    decreases name.len(),
{
    let s = base + seq![c] + name;
    let k = Cut::At(c);
    if name.len() == 0 {
        assert(s.drop_last() =~= base);
        assert(s.last() == c);
        assert(name =~= Seq::<char>::empty());
        assert(split(s, k) =~= split(base, k).push(name));
    } else {
        let short = name.drop_last();
        assert forall|i: int| 0 <= i < short.len() implies short[i] != c by {
            assert(name[i] == short[i]);
        }
        lemma_split_at(base, c, short);
        assert(s.drop_last() =~= base + seq![c] + short);
        assert(s.last() == name.last());
        assert(name[name.len() - 1] != c);
        assert(short.push(name.last()) =~= name);
        assert(split(s, k) =~= split(base, k).push(name));
    }
}

// ---------------------------------------------------------------------
// Order
// ---------------------------------------------------------------------

/// Whether `a` stands before `b` in the order of their characters.
pub open spec fn lex_lt(a: Seq<char>, b: Seq<char>) -> bool
    decreases a.len(),
{
    if b.len() == 0 {
        false
    } else if a.len() == 0 {
        true
    } else if a[0] != b[0] {
        a[0] < b[0]
    } else {
        lex_lt(a.skip(1), b.skip(1))
    }
}

/// No text stands before itself.
pub proof fn lemma_lex_irreflexive(a: Seq<char>)
    ensures
        !lex_lt(a, a),
    decreases a.len(),
{
    if a.len() > 0 {
        lemma_lex_irreflexive(a.skip(1));
    }
}

/// The order is transitive.
pub proof fn lemma_lex_transitive(a: Seq<char>, b: Seq<char>, c: Seq<char>)
    requires
        lex_lt(a, b),
        lex_lt(b, c),
    ensures
        lex_lt(a, c),
    decreases a.len(),
{
    if a.len() > 0 && a[0] == b[0] && b[0] == c[0] {
        lemma_lex_transitive(a.skip(1), b.skip(1), c.skip(1));
    }
}

/// Of two different texts one stands before the other.
pub proof fn lemma_lex_total(a: Seq<char>, b: Seq<char>)
    ensures
        a == b || lex_lt(a, b) || lex_lt(b, a),
    decreases a.len(),
{
    if a.len() > 0 && b.len() > 0 && a[0] == b[0] {
        lemma_lex_total(a.skip(1), b.skip(1));
        if a.skip(1) == b.skip(1) {
            assert(a =~= seq![a[0]] + a.skip(1));
            assert(b =~= seq![b[0]] + b.skip(1));
        }
    } else if a.len() == 0 && b.len() == 0 {
        assert(a =~= b);
    }
}

fn char_less(c: char, d: char) -> (r: bool)
    ensures
        r == (c < d),
{
    (c as u32) < (d as u32)
}

/// Whether `a` stands before `b`.
pub fn less(a: &str, b: &str) -> (r: bool)
    ensures
        r == lex_lt(a@, b@),
{
    let x = chars_of(a);
    let y = chars_of(b);
    let mut i: usize = 0;
    assert(a@.skip(0) =~= a@);
    assert(b@.skip(0) =~= b@);
    while i < x.len() && i < y.len()
        invariant
            x@ == a@,
            y@ == b@,
            i <= x@.len(),
            i <= y@.len(),
            lex_lt(a@, b@) == lex_lt(a@.skip(i as int), b@.skip(i as int)),
        decreases x@.len() - i,
    {
        let c: char = x[i];
        let d: char = y[i];
        if c != d {
            assert(a@.skip(i as int)[0] == c);
            assert(b@.skip(i as int)[0] == d);
            return char_less(c, d);
        }
        assert(a@.skip(i as int).skip(1) =~= a@.skip(i + 1));
        assert(b@.skip(i as int).skip(1) =~= b@.skip(i + 1));
        i = i + 1;
    }
    i < y.len()
}

/// Strictly ascending, so that nothing occurs twice.
pub open spec fn ascending(v: Seq<Seq<char>>) -> bool {
    forall|i: int, j: int| 0 <= i < j < v.len() ==> lex_lt(#[trigger] v[i], #[trigger] v[j])
}

/// Put a text into an ascending list, unless it is there.
pub fn insert_text(v: &mut Vec<String>, s: &str)
    requires
        ascending(texts(old(v)@)),
    ensures
        ascending(texts(final(v)@)),
        forall|t: Seq<char>| #[trigger]
            texts(final(v)@).contains(t) <==> texts(old(v)@).contains(t) || t == s@,
{
    let ghost all = texts(v@);
    let mut i: usize = 0;
    while i < v.len() && less(&v[i], s)
        invariant
            *v == *old(v),
            all == texts(v@),
            i <= v@.len(),
            forall|k: int| 0 <= k < i ==> lex_lt(#[trigger] all[k], s@),
        decreases v@.len() - i,
    {
        assert(all[i as int] == v@[i as int]@);
        i = i + 1;
    }
    if i < v.len() && same(&v[i], s) {
        assert(all[i as int] == s@);
        assert forall|t: Seq<char>| all.contains(t) <==> all.contains(t) || t == s@ by {
            assert(all.contains(s@));
        }
        return;
    }
    let w: String = s.to_owned();
    v.insert(i, w);
    let ghost now = texts(v@);
    proof {
        assert(now =~= all.insert(i as int, s@));
        assert forall|k: int| i <= k < all.len() implies lex_lt(s@, #[trigger] all[k]) by {
            lemma_lex_total(all[i as int], s@);
            assert(all[i as int] == old(v)@[i as int]@);
            if k > i {
                assert(lex_lt(all[i as int], all[k]));
                lemma_lex_transitive(s@, all[i as int], all[k]);
            }
        }
        assert forall|x: int, y: int| 0 <= x < y < now.len() implies lex_lt(
            #[trigger] now[x],
            #[trigger] now[y],
        ) by {
            let (p, q) = (if x < i { x } else { x - 1 }, if y < i { y } else { y - 1 });
            if x == i {
                assert(now[y] == all[y - 1]);
            } else if y == i {
                assert(now[x] == all[x]);
            } else {
                assert(now[x] == all[p] && now[y] == all[q]);
            }
        }
        assert forall|t: Seq<char>| #[trigger] now.contains(t) <==> all.contains(t) || t == s@ by {
            if all.contains(t) {
                let k = choose|k: int| 0 <= k < all.len() && all[k] == t;
                assert(now[if k < i { k } else { k + 1 }] == t);
            }
            if t == s@ {
                assert(now[i as int] == t);
            }
            if now.contains(t) {
                let k = choose|k: int| 0 <= k < now.len() && now[k] == t;
                if k != i {
                    assert(all[if k < i { k } else { k - 1 }] == t);
                }
            }
        }
    }
}

// ---------------------------------------------------------------------
// Laws
// ---------------------------------------------------------------------

/// Splitting loses nothing: the pieces joined by the character at which they
/// were cut are the text again, and no piece holds that character.
pub proof fn law_joined_pieces_are_the_text(s: Seq<char>, c: char)
    ensures
        join(split(s, Cut::At(c)), seq![c]) == s,
        forall|i: int|
            0 <= i < split(s, Cut::At(c)).len() ==> !holds_char(#[trigger] split(s, Cut::At(c))[i], c),
    decreases s.len(),
{
    let k = Cut::At(c);
    if s.len() == 0 {
        assert(join(split(s, k), seq![c]) =~= s);
    } else {
        let short = s.drop_last();
        let p = split(short, k);
        law_joined_pieces_are_the_text(short, c);
        lemma_split_len(short, k);
        if s.last() == c {
            let q = p.push(Seq::empty());
            assert(q.drop_last() =~= p);
            assert(join(q, seq![c]) =~= s);
        } else {
            let l = p.last().push(s.last());
            let q = p.drop_last().push(l);
            assert(q.drop_last() =~= p.drop_last());
            assert(join(q, seq![c]) =~= join(p, seq![c]).push(s.last()));
            assert(s =~= short.push(s.last()));
            assert(!holds_char(p[p.len() - 1], c));
            assert(!holds_char(l, c)) by {
                if holds_char(l, c) {
                    let i = choose|i: int| 0 <= i < l.len() && l[i] == c;
                    assert(p.last()[i] == c);
                }
            }
            assert forall|i: int| 0 <= i < q.len() implies !holds_char(#[trigger] q[i], c) by {
                if i < q.len() - 1 {
                    assert(q[i] == p[i]);
                }
            }
        }
    }
}

/// Trimming takes away what cuts at both ends and nothing else: there is a
/// place in the text where the rest stands, what is before and after it
/// cuts, and its own ends do not.
pub proof fn law_trim_takes_the_ends_away(s: Seq<char>, k: Cut) -> (at: int)
    ensures
        0 <= at,
        at + trim(s, k).len() <= s.len(),
        trim(s, k) == s.subrange(at, at + trim(s, k).len()),
        forall|i: int| 0 <= i < at ==> cuts(k, #[trigger] s[i]),
        forall|i: int| at + trim(s, k).len() <= i < s.len() ==> cuts(k, #[trigger] s[i]),
        trim(s, k).len() > 0 ==> !cuts(k, trim(s, k)[0]) && !cuts(k, trim(s, k).last()),
{
    let t = trim_start(s, k);
    let r = trim_end(t, k);
    lemma_trim_start(s, k);
    lemma_trim_end(t, k);
    let at = s.len() - t.len();
    assert(r =~= s.subrange(at, at + r.len()));
    assert forall|i: int| at + r.len() <= i < s.len() implies cuts(k, #[trigger] s[i]) by {
        assert(t[i - at] == s[i]);
    }
    if r.len() > 0 {
        assert(r[0] == t[0]);
    }
    at
}

proof fn lemma_trim_start(s: Seq<char>, k: Cut)
    ensures
        trim_start(s, k).len() <= s.len(),
        trim_start(s, k) == s.skip(s.len() - trim_start(s, k).len()),
        forall|i: int| 0 <= i < s.len() - trim_start(s, k).len() ==> cuts(k, #[trigger] s[i]),
        trim_start(s, k).len() > 0 ==> !cuts(k, trim_start(s, k)[0]),
    decreases s.len(),
{
    if s.len() > 0 && cuts(k, s[0]) {
        let u = s.skip(1);
        lemma_trim_start(u, k);
        let n = s.len() - trim_start(s, k).len();
        assert(trim_start(s, k) =~= s.skip(n));
        assert forall|i: int| 0 <= i < n implies cuts(k, #[trigger] s[i]) by {
            if i > 0 {
                assert(u[i - 1] == s[i]);
            }
        }
    } else {
        assert(s.skip(0) =~= s);
    }
}

proof fn lemma_trim_end(s: Seq<char>, k: Cut)
    ensures
        trim_end(s, k).len() <= s.len(),
        trim_end(s, k) == s.take(trim_end(s, k).len() as int),
        forall|i: int| trim_end(s, k).len() <= i < s.len() ==> cuts(k, #[trigger] s[i]),
        trim_end(s, k).len() > 0 ==> !cuts(k, trim_end(s, k).last()),
    decreases s.len(),
{
    if s.len() > 0 && cuts(k, s.last()) {
        let u = s.drop_last();
        lemma_trim_end(u, k);
        let n = trim_end(s, k).len() as int;
        assert(trim_end(s, k) =~= s.take(n));
        assert forall|i: int| n <= i < s.len() implies cuts(k, #[trigger] s[i]) by {
            if i < u.len() {
                assert(u[i] == s[i]);
            }
        }
    } else {
        assert(s.take(s.len() as int) =~= s);
    }
}

/// A word that follows white space is one more word, and white space adds
/// none.
pub proof fn law_words_stand_apart(s: Seq<char>, c: char, w: Seq<char>)
    requires
        is_white(c),
        forall|i: int| 0 <= i < w.len() ==> !is_white(#[trigger] w[i]),
    ensures
        w.len() > 0 ==> words(s + seq![c] + w) == words(s).push(w),
        w.len() == 0 ==> words(s + seq![c] + w) == words(s),
{
    lemma_split_white(s, c, w);
    let p = split(s, Cut::White);
    reveal(Seq::filter);
    assert(p.push(w).drop_last() =~= p);
}

proof fn lemma_split_white(s: Seq<char>, c: char, w: Seq<char>)
    requires
        is_white(c),
        forall|i: int| 0 <= i < w.len() ==> !is_white(#[trigger] w[i]),
    ensures
        split(s + seq![c] + w, Cut::White) == split(s, Cut::White).push(w),
    decreases w.len(),
{
    let t = s + seq![c] + w;
    let k = Cut::White;
    if w.len() == 0 {
        assert(t.drop_last() =~= s);
        assert(t.last() == c);
        assert(w =~= Seq::<char>::empty());
        assert(split(t, k) =~= split(s, k).push(w));
    } else {
        let short = w.drop_last();
        assert forall|i: int| 0 <= i < short.len() implies !is_white(#[trigger] short[i]) by {
            assert(w[i] == short[i]);
        }
        lemma_split_white(s, c, short);
        assert(t.drop_last() =~= s + seq![c] + short);
        assert(t.last() == w[w.len() - 1]);
        assert(short.push(w.last()) =~= w);
        assert(split(t, k) =~= split(s, k).push(w));
    }
}

/// What follows a line feed is one more line, the last, and a text without
/// one is a single line; a line feed at the end adds no empty line.
pub proof fn law_line_feeds_end_lines(s: Seq<char>, l: Seq<char>)
    requires
        !holds_char(l, '\n'),
    ensures
        l.len() > 0 ==> lines(s + seq!['\n'] + l) == lines(s + seq!['\n']).push(l),
        l.len() > 0 ==> last_line(s + seq!['\n'] + l) == l,
        l.len() > 0 ==> lines(l) == seq![l],
        l.len() > 0 ==> first_line(l) == l,
        lines(l + seq!['\n']) == seq![strip_cr(l)],
        lines(Seq::empty()) == Seq::<Seq<char>>::empty(),
{
    let none = Seq::<char>::empty();
    let p = split(s, Cut::At('\n'));
    lemma_split_at(s, '\n', l);
    lemma_split_at(s, '\n', none);
    assert(s + seq!['\n'] + none =~= s + seq!['\n']);
    assert(p.push(l).drop_last() =~= p);
    assert(p.push(none).drop_last() =~= p);
    lemma_split_whole(l, '\n');
    lemma_split_at(l, '\n', none);
    assert(l + seq!['\n'] + none =~= l + seq!['\n']);
    assert(seq![l].push(none).drop_last() =~= seq![l]);
    assert(seq![l].map_values(|x: Seq<char>| strip_cr(x)) =~= seq![strip_cr(l)]);
    let e = Seq::<Seq<char>>::empty();
    assert(seq![l].drop_last() =~= e);
    assert(e.map_values(|x: Seq<char>| strip_cr(x)) =~= e);
    if l.len() > 0 {
        assert(lines(l) =~= seq![l]);
    }
    lemma_split_whole(none, '\n');
    assert(seq![none].drop_last() =~= e);
    assert(lines(none) =~= e);
}

/// The order is that of the first characters that differ; a text stands
/// before those that it begins.
pub proof fn law_first_difference_orders(a: Seq<char>, x: char, b: Seq<char>, y: char, c: Seq<char>)
    requires
        x != y,
    ensures
        lex_lt(a + seq![x] + b, a + seq![y] + c) <==> x < y,
        lex_lt(a, a + seq![y] + c),
        !lex_lt(a + seq![y] + c, a),
    decreases a.len(),
{
    let p = a + seq![x] + b;
    let q = a + seq![y] + c;
    if a.len() > 0 {
        law_first_difference_orders(a.skip(1), x, b, y, c);
        assert(p.skip(1) =~= a.skip(1) + seq![x] + b);
        assert(q.skip(1) =~= a.skip(1) + seq![y] + c);
        assert(p[0] == a[0] && q[0] == a[0]);
    } else {
        assert(p[0] == x && q[0] == y);
    }
}

/// All endings of the kind are taken away, and nothing else.
pub proof fn law_no_ending_is_left(s: Seq<char>, p: Seq<char>)
    requires
        p.len() > 0,
    ensures
        !p.is_suffix_of(trim_suffixes(s, p)),
        trim_suffixes(s + p, p) == trim_suffixes(s, p),
        !p.is_suffix_of(s) ==> trim_suffixes(s, p) == s,
    decreases s.len(),
{
    if p.is_suffix_of(s) {
        law_no_ending_is_left(s.take(s.len() - p.len()), p);
    }
    assert((s + p).subrange((s + p).len() - p.len(), (s + p).len() as int) =~= p);
    assert((s + p).take((s + p).len() - p.len()) =~= s);
}

/// The first characters are the beginning of a text, as many as are asked for
/// or as there are.
pub proof fn law_first_chars_begin_the_text(s: Seq<char>, n: nat)
    ensures
        first_chars(s, n as int).is_prefix_of(s),
        first_chars(s, n as int).len() == (if n <= s.len() { n } else { s.len() }),
{
    assert(s.take(s.len() as int) =~= s);
}

/// Letters lose their case and nothing else is changed: two texts that differ
/// only in case have one lower form.
pub proof fn law_case_is_lost(s: Seq<char>)
    ensures
        lower(s).len() == s.len(),
        lower(upper(s)) == lower(s),
        lower(lower(s)) == lower(s),
        upper(lower(s)) == upper(s),
        forall|i: int| 0 <= i < s.len() ==> !('A' <= #[trigger] lower(s)[i] <= 'Z'),
        forall|i: int| 0 <= i < s.len() ==> !('a' <= #[trigger] upper(s)[i] <= 'z'),
{
    assert(lower(upper(s)) =~= lower(s));
    assert(lower(lower(s)) =~= lower(s));
    assert(upper(lower(s)) =~= upper(s));
}

} // verus!
