//! Character-level text utilities with exact specifications.

use vstd::prelude::*;

verus! {

broadcast use vstd::string::group_string_axioms;

/// `pat` occurs in `hay` starting at char index `i`.
pub open spec fn match_at(hay: Seq<char>, pat: Seq<char>, i: int) -> bool {
    &&& 0 <= i
    &&& i + pat.len() <= hay.len()
    &&& hay.subrange(i, i + pat.len()) == pat
}

/// The first index at or after `from` where `pat` occurs in `hay`.
pub open spec fn find_from(hay: Seq<char>, pat: Seq<char>, from: int) -> Option<int>
    decreases hay.len() + 1 - from,
{
    if from < 0 || from + pat.len() > hay.len() {
        None
    } else if match_at(hay, pat, from) {
        Some(from)
    } else {
        find_from(hay, pat, from + 1)
    }
}

/// The chars of a string slice.
pub fn to_chars(s: &str) -> (v: Vec<char>)
    ensures
        v@ == s@,
{
    let mut v: Vec<char> = Vec::new();
    for c in it: s.chars()
        invariant
            v@ == it.seq().take(it.index()),
    {
        v.push(c);
    }
    v
}

} // verus!

verus! {

/// Appends one char to a string (`String::push`).
#[verifier::external_body]
pub(crate) fn push_char(s: &mut String, c: char)
    ensures
        final(s)@ == old(s)@.push(c),
{
    s.push(c);
}

/// Appends a string slice to a string.
pub fn push_str(s: &mut String, t: &str)
    ensures
        final(s)@ == old(s)@ + t@,
{
    s.append(t);
}

/// The string made of the given chars.
pub fn string_of(v: &[char]) -> (r: String)
    ensures
        r@ == v@,
{
    let mut r = String::new();
    let mut i: usize = 0;
    while i < v.len()
        invariant
            0 <= i <= v.len(),
            r@ == v@.take(i as int),
        decreases v.len() - i,
    {
        push_char(&mut r, v[i]);
        assert(v@.take(i + 1) == v@.take(i as int).push(v@[i as int]));
        i = i + 1;
    }
    assert(v@.take(v@.len() as int) == v@);
    r
}

/// The string with the same chars as the slice.
pub fn to_string(s: &str) -> (r: String)
    ensures
        r@ == s@,
{
    s.to_owned()
}

/// Whether `pat` occurs in `hay` at char index `i`.
pub fn matches_at(hay: &[char], pat: &[char], i: usize) -> (r: bool)
    ensures
        r == match_at(hay@, pat@, i as int),
{
    if i > hay.len() || pat.len() > hay.len() - i {
        return false;
    }
    let mut j: usize = 0;
    while j < pat.len()
        invariant
            0 <= j <= pat.len(),
            i + pat.len() <= hay.len(),
            forall|k: int| 0 <= k < j ==> hay@[i + k] == pat@[k],
        decreases pat.len() - j,
    {
        if hay[i + j] != pat[j] {
            assert(hay@.subrange(i as int, i + pat.len())[j as int] != pat@[j as int]);
            return false;
        }
        j = j + 1;
    }
    assert(hay@.subrange(i as int, i + pat.len()) =~= pat@);
    true
}

/// The first occurrence of `pat` in `hay` at or after char index `from`.
pub fn find_chars(hay: &[char], pat: &[char], from: usize) -> (r: Option<usize>)
    ensures
        r matches Some(i) ==> find_from(hay@, pat@, from as int) == Some(i as int),
        r matches Some(i) ==> from <= i && match_at(hay@, pat@, i as int),
        r is None ==> find_from(hay@, pat@, from as int) is None,
{
    let mut i = from;
    while i <= hay.len() && pat.len() <= hay.len() - i
        invariant
            from <= i,
            find_from(hay@, pat@, from as int) == find_from(hay@, pat@, i as int),
        decreases hay.len() + 1 - i,
    {
        if matches_at(hay, pat, i) {
            proof { lemma_find_from(hay@, pat@, from as int); }
            return Some(i);
        }
        if i == hay.len() {
            assert(find_from(hay@, pat@, i + 1) is None);
            return None;
        }
        i = i + 1;
    }
    None
}

/// `p` is a prefix of `s`.
pub open spec fn has_prefix(s: Seq<char>, p: Seq<char>) -> bool {
    p.len() <= s.len() && s.take(p.len() as int) == p
}

/// `p` is a suffix of `s`.
pub open spec fn has_suffix(s: Seq<char>, p: Seq<char>) -> bool {
    p.len() <= s.len() && s.skip(s.len() - p.len()) == p
}

/// `p` occurs somewhere in `s`.
pub open spec fn has_infix(s: Seq<char>, p: Seq<char>) -> bool {
    find_from(s, p, 0) is Some
}

pub fn starts_with(s: &[char], p: &[char]) -> (r: bool)
    ensures
        r == has_prefix(s@, p@),
{
    let r = matches_at(s, p, 0);
    proof {
        if p@.len() <= s@.len() {
            assert(s@.subrange(0, p@.len() as int) == s@.take(p@.len() as int));
        }
    }
    r
}

pub fn ends_with(s: &[char], p: &[char]) -> (r: bool)
    ensures
        r == has_suffix(s@, p@),
{
    if p.len() > s.len() {
        return false;
    }
    let r = matches_at(s, p, s.len() - p.len());
    assert(s@.subrange(s@.len() - p@.len(), s@.len() as int) == s@.skip(s@.len() - p@.len()));
    r
}

pub fn contains(s: &[char], p: &[char]) -> (r: bool)
    ensures
        r == has_infix(s@, p@),
{
    find_chars(s, p, 0).is_some()
}

/// The first index at or after `from` holding `c`.
pub open spec fn index_of_from(s: Seq<char>, c: char, from: int) -> Option<int>
    decreases s.len() - from,
{
    if from < 0 || from >= s.len() {
        None
    } else if s[from] == c {
        Some(from)
    } else {
        index_of_from(s, c, from + 1)
    }
}

/// A found index is in range and holds the char.
pub proof fn lemma_index_of_from(s: Seq<char>, c: char, from: int)
    ensures
        index_of_from(s, c, from) matches Some(i) ==> from <= i < s.len() && s[i] == c,
    decreases s.len() - from,
{
    if from >= 0 && from < s.len() && s[from] != c {
        lemma_index_of_from(s, c, from + 1);
    }
}

pub fn index_of(s: &[char], c: char, from: usize) -> (r: Option<usize>)
    ensures
        r matches Some(i) ==> from <= i < s@.len() && s@[i as int] == c,
        r matches Some(i) ==> index_of_from(s@, c, from as int) == Some(i as int),
        r is None ==> index_of_from(s@, c, from as int) is None,
{
    let mut i = from;
    while i < s.len()
        invariant
            from <= i,
            index_of_from(s@, c, from as int) == index_of_from(s@, c, i as int),
        decreases s.len() - i,
    {
        if s[i] == c {
            proof { lemma_index_of_from(s@, c, from as int); }
            return Some(i);
        }
        i = i + 1;
    }
    None
}

/// A copy of the chars `s[from..to]`.
pub fn slice_chars(s: &[char], from: usize, to: usize) -> (r: Vec<char>)
    requires
        from <= to <= s.len(),
    ensures
        r@ == s@.subrange(from as int, to as int),
{
    let mut r: Vec<char> = Vec::new();
    let mut i = from;
    while i < to
        invariant
            from <= i <= to <= s.len(),
            r@ == s@.subrange(from as int, i as int),
        decreases to - i,
    {
        r.push(s[i]);
        assert(s@.subrange(from as int, i + 1) == s@.subrange(from as int, i as int).push(s@[i as int]));
        i = i + 1;
    }
    r
}

pub fn chars_eq(a: &[char], b: &[char]) -> (r: bool)
    ensures
        r == (a@ == b@),
{
    if a.len() != b.len() {
        return false;
    }
    let r = matches_at(a, b, 0);
    assert(a@.subrange(0, b@.len() as int) == a@);
    r
}

/// Decimal digit `d` as a char.
pub open spec fn digit_char(d: nat) -> char {
    (48 + d) as char
}

/// The decimal text of a natural number.
pub open spec fn decimal(n: nat) -> Seq<char>
    decreases n,
{
    if n < 10 {
        seq![digit_char(n)]
    } else {
        decimal(n / 10).push(digit_char(n % 10))
    }
}

/// The decimal text of an integer, with a leading `-` when negative.
pub open spec fn signed_decimal(n: int) -> Seq<char> {
    if n < 0 {
        seq!['-'] + decimal((-n) as nat)
    } else {
        decimal(n as nat)
    }
}

fn digit(d: u64) -> (c: char)
    requires
        d < 10,
    ensures
        c == digit_char(d as nat),
{
    ((48 + d) as u8) as char
}

/// Appends the decimal text of `n`.
pub fn push_decimal(s: &mut String, n: u64)
    ensures
        final(s)@ == old(s)@ + decimal(n as nat),
    decreases n,
{
    if n < 10 {
        push_char(s, digit(n));
        assert(old(s)@.push(digit_char(n as nat)) == old(s)@ + seq![digit_char(n as nat)]);
    } else {
        push_decimal(s, n / 10);
        push_char(s, digit(n % 10));
        assert(old(s)@ + decimal(n as nat) == old(s)@ + decimal((n / 10) as nat) + seq![digit_char((n % 10) as nat)]);
    }
}

/// The decimal text of an unsigned number.
pub fn u64_text(n: u64) -> (r: String)
    ensures
        r@ == decimal(n as nat),
{
    let mut r = String::new();
    push_decimal(&mut r, n);
    assert(Seq::<char>::empty() + decimal(n as nat) == decimal(n as nat));
    r
}

/// Appends the decimal text of a signed number.
pub fn push_signed(s: &mut String, n: i64)
    ensures
        final(s)@ == old(s)@ + signed_decimal(n as int),
{
    if n < 0 {
        push_char(s, '-');
        let m: u64 = ((-(n + 1)) as u64) + 1;
        push_decimal(s, m);
        assert(old(s)@.push('-') + decimal(m as nat) == old(s)@ + (seq!['-'] + decimal(m as nat)));
    } else {
        push_decimal(s, n as u64);
    }
}

} // verus!

verus! {

/// Names what `char::is_alphanumeric` returns for a char.
pub uninterp spec fn unicode_alphanumeric(c: char) -> bool;

/// The chars with Unicode's White_Space property: tab to carriage return,
/// space, next line, no-break space, ogham space mark, en quad to hair
/// space, line and paragraph separators, narrow no-break space, medium
/// mathematical space and ideographic space.
pub open spec fn unicode_whitespace(c: char) -> bool {
    let n = c as u32;
    ||| 0x09 <= n <= 0x0D
    ||| n == 0x20
    ||| n == 0x85
    ||| n == 0xA0
    ||| n == 0x1680
    ||| 0x2000 <= n <= 0x200A
    ||| n == 0x2028
    ||| n == 0x2029
    ||| n == 0x202F
    ||| n == 0x205F
    ||| n == 0x3000
}

/// Names what `str::to_lowercase` returns for a text.
pub uninterp spec fn unicode_lowercase(s: Seq<char>) -> Seq<char>;

pub open spec fn is_ascii_digit(c: char) -> bool {
    '0' <= c <= '9'
}

pub open spec fn is_ascii_lower(c: char) -> bool {
    'a' <= c <= 'z'
}

pub open spec fn is_ascii_upper(c: char) -> bool {
    'A' <= c <= 'Z'
}

pub open spec fn is_ascii_alnum(c: char) -> bool {
    is_ascii_digit(c) || is_ascii_lower(c) || is_ascii_upper(c)
}

pub open spec fn is_ascii_space(c: char) -> bool {
    c == ' ' || c == '\t' || c == '\n' || c == '\x0B' || c == '\x0C' || c == '\r'
}

pub open spec fn ascii_lower(c: char) -> char {
    if is_ascii_upper(c) {
        ((c as u32) + 32) as char
    } else {
        c
    }
}

pub open spec fn all_ascii(s: Seq<char>) -> bool {
    forall|i: int| 0 <= i < s.len() ==> (s[i] as u32) < 128
}

/// `char::is_alphanumeric`: true for chars with the Alphabetic or Numeric
/// property; among ASCII chars these are exactly the letters and digits.
#[verifier::external_body]
pub(crate) fn is_alphanumeric(c: char) -> (r: bool)
    ensures
        r == unicode_alphanumeric(c),
        (c as u32) < 128 ==> (r <==> is_ascii_alnum(c)),
{
    c.is_alphanumeric()
}

/// Whether a char has the White_Space property (as `char::is_whitespace`
/// decides); among ASCII chars these are space, tab, LF, VT, FF and CR.
pub fn is_whitespace(c: char) -> (r: bool)
    ensures
        r == unicode_whitespace(c),
        (c as u32) < 128 ==> (r <==> is_ascii_space(c)),
{
    let n = c as u32;
    (0x09 <= n && n <= 0x0D) || n == 0x20 || n == 0x85 || n == 0xA0 || n == 0x1680
        || (0x2000 <= n && n <= 0x200A) || n == 0x2028 || n == 0x2029 || n == 0x202F
        || n == 0x205F || n == 0x3000
}

/// `str::to_lowercase`: the Unicode lowercase of a text; a text of ASCII
/// chars is lowered char by char, `A`-`Z` to `a`-`z`.
#[verifier::external_body]
pub(crate) fn to_lowercase(s: &str) -> (r: String)
    ensures
        r@ == unicode_lowercase(s@),
        all_ascii(s@) ==> r@ == s@.map_values(|c: char| ascii_lower(c)),
{
    s.to_lowercase()
}

pub fn is_digit(c: char) -> (r: bool)
    ensures
        r == is_ascii_digit(c),
{
    '0' <= c && c <= '9'
}

pub fn all_digits(s: &[char]) -> (r: bool)
    ensures
        r == (forall|i: int| 0 <= i < s@.len() ==> is_ascii_digit(#[trigger] s@[i])),
{
    let mut i: usize = 0;
    while i < s.len()
        invariant
            0 <= i <= s.len(),
            forall|k: int| 0 <= k < i ==> is_ascii_digit(#[trigger] s@[k]),
        decreases s.len() - i,
    {
        if !is_digit(s[i]) {
            return false;
        }
        i = i + 1;
    }
    true
}

/// `s` with leading whitespace removed.
pub open spec fn trim_start(s: Seq<char>) -> Seq<char>
    decreases s.len(),
{
    if s.len() > 0 && unicode_whitespace(s[0]) {
        trim_start(s.drop_first())
    } else {
        s
    }
}

/// `s` with trailing whitespace removed.
pub open spec fn trim_end(s: Seq<char>) -> Seq<char>
    decreases s.len(),
{
    if s.len() > 0 && unicode_whitespace(s.last()) {
        trim_end(s.drop_last())
    } else {
        s
    }
}

/// `s` with leading and trailing whitespace removed (`str::trim`).
pub open spec fn trim(s: Seq<char>) -> Seq<char> {
    trim_end(trim_start(s))
}

/// The chars of `str::trim(s)`.
pub fn trim_chars(s: &[char]) -> (r: Vec<char>)
    ensures
        r@ == trim(s@),
{
    let mut a: usize = 0;
    assert(s@.skip(0) == s@);
    while a < s.len() && is_whitespace(s[a])
        invariant
            0 <= a <= s.len(),
            trim_start(s@) == trim_start(s@.skip(a as int)),
        decreases s.len() - a,
    {
        assert(s@.skip(a as int).drop_first() == s@.skip(a + 1));
        a = a + 1;
    }
    let ghost t = s@.skip(a as int);
    assert(trim_start(s@) == t);
    let mut b: usize = s.len();
    while b > a && is_whitespace(s[b - 1])
        invariant
            a <= b <= s.len(),
            trim_end(t) == trim_end(s@.subrange(a as int, b as int)),
        decreases b,
    {
        assert(s@.subrange(a as int, b as int).drop_last() == s@.subrange(a as int, b - 1));
        b = b - 1;
    }
    assert(s@.subrange(a as int, s@.len() as int) == t);
    slice_chars(s, a, b)
}

/// Hexadecimal digit `d` in upper case.
pub open spec fn hex_digit(d: nat) -> char {
    if d < 10 {
        (48 + d) as char
    } else {
        (55 + d) as char
    }
}

/// The upper-case hexadecimal text of a natural number.
pub open spec fn hex_upper(n: nat) -> Seq<char>
    decreases n,
{
    if n < 16 {
        seq![hex_digit(n)]
    } else {
        hex_upper(n / 16).push(hex_digit(n % 16))
    }
}

/// `format!("{:02X}", n)`: at least two upper-case hex digits.
pub open spec fn hex2(n: nat) -> Seq<char> {
    if n < 16 {
        seq!['0'] + hex_upper(n)
    } else {
        hex_upper(n)
    }
}

fn hex_char(d: u32) -> (c: char)
    requires
        d < 16,
    ensures
        c == hex_digit(d as nat),
{
    if d < 10 {
        ((48 + d) as u8) as char
    } else {
        ((55 + d) as u8) as char
    }
}

/// Appends the upper-case hexadecimal text of `n`.
pub fn push_hex(s: &mut String, n: u32)
    ensures
        final(s)@ == old(s)@ + hex_upper(n as nat),
    decreases n,
{
    if n < 16 {
        push_char(s, hex_char(n));
        assert(old(s)@.push(hex_digit(n as nat)) == old(s)@ + seq![hex_digit(n as nat)]);
    } else {
        push_hex(s, n / 16);
        push_char(s, hex_char(n % 16));
        assert(old(s)@ + hex_upper(n as nat) == old(s)@ + hex_upper((n / 16) as nat) + seq![hex_digit((n % 16) as nat)]);
    }
}

/// Appends `format!("{:02X}", n)`.
pub fn push_hex2(s: &mut String, n: u32)
    ensures
        final(s)@ == old(s)@ + hex2(n as nat),
{
    if n < 16 {
        push_char(s, '0');
        push_hex(s, n);
        assert(old(s)@.push('0') + hex_upper(n as nat) == old(s)@ + (seq!['0'] + hex_upper(n as nat)));
    } else {
        push_hex(s, n);
    }
}

/// A char kept as it is by URL encoding.
pub open spec fn url_unreserved(c: char) -> bool {
    unicode_alphanumeric(c) || c == '-' || c == '_' || c == '.' || c == '~'
}

/// The URL encoding of one char: unreserved chars stay, any other becomes
/// `%` and its code point in upper-case hex (at least two digits).
pub open spec fn url_encode_char(c: char) -> Seq<char> {
    if url_unreserved(c) {
        seq![c]
    } else {
        seq!['%'] + hex2((c as u32) as nat)
    }
}

/// The URL encoding of a text, char by char.
pub open spec fn url_encoded(s: Seq<char>) -> Seq<char>
    decreases s.len(),
{
    if s.len() == 0 {
        Seq::empty()
    } else {
        url_encoded(s.drop_last()) + url_encode_char(s.last())
    }
}

/// Encodes a query text for use in a URL.
pub fn url_encode(s: &str) -> (r: String)
    ensures
        r@ == url_encoded(s@),
{
    let cs = to_chars(s);
    let mut r = String::new();
    let mut i: usize = 0;
    while i < cs.len()
        invariant
            0 <= i <= cs.len(),
            cs@ == s@,
            r@ == url_encoded(cs@.take(i as int)),
        decreases cs.len() - i,
    {
        let c = cs[i];
        assert(cs@.take(i + 1).drop_last() == cs@.take(i as int));
        if is_alphanumeric(c) || c == '-' || c == '_' || c == '.' || c == '~' {
            push_char(&mut r, c);
            assert(r@ == url_encoded(cs@.take(i as int)) + seq![c]);
        } else {
            push_char(&mut r, '%');
            push_hex2(&mut r, c as u32);
            assert(r@ == url_encoded(cs@.take(i as int)) + (seq!['%'] + hex2((c as u32) as nat)));
        }
        i = i + 1;
    }
    assert(cs@.take(cs@.len() as int) == cs@);
    r
}

} // verus!

verus! {

/// A match found by `find_from` is in range and is a match.
pub proof fn lemma_find_from(hay: Seq<char>, pat: Seq<char>, from: int)
    ensures
        find_from(hay, pat, from) matches Some(i) ==> from <= i && match_at(hay, pat, i),
    decreases hay.len() + 1 - from,
{
    if from >= 0 && from + pat.len() <= hay.len() && !match_at(hay, pat, from) {
        lemma_find_from(hay, pat, from + 1);
    }
}

/// The pieces of `s` between the occurrences of `sep` (`str::split`).
pub open spec fn split(s: Seq<char>, sep: Seq<char>) -> Seq<Seq<char>>
    decreases s.len(),
{
    if sep.len() == 0 {
        seq![s]
    } else {
        match find_from(s, sep, 0) {
            None => seq![s],
            Some(i) => if 0 <= i && i + sep.len() <= s.len() {
                seq![s.take(i)] + split(s.skip(i + sep.len()), sep)
            } else {
                seq![s]
            },
        }
    }
}

/// The chars of each piece of a list.
pub open spec fn pieces_view(v: Seq<Vec<char>>) -> Seq<Seq<char>> {
    v.map_values(|p: Vec<char>| p@)
}

/// Searching a suffix finds what searching the whole text from the same place finds.
pub proof fn lemma_find_shift(s: Seq<char>, p: Seq<char>, pos: int, k: int)
    requires
        0 <= pos <= k,
        pos <= s.len(),
    ensures
        find_from(s, p, k) matches Some(i) ==> find_from(s.skip(pos), p, k - pos) == Some(i - pos),
        find_from(s, p, k) is None ==> find_from(s.skip(pos), p, k - pos) is None,
    decreases s.len() + 1 - k,
{
    let t = s.skip(pos);
    if k + p.len() <= s.len() {
        assert(s.subrange(k, k + p.len()) == t.subrange(k - pos, k - pos + p.len()));
        if !match_at(s, p, k) {
            lemma_find_shift(s, p, pos, k + 1);
        }
    }
}

/// The pieces of `s` between the occurrences of a non-empty `sep`.
pub fn split_chars(s: &[char], sep: &[char]) -> (r: Vec<Vec<char>>)
    requires
        sep@.len() > 0,
    ensures
        pieces_view(r@) == split(s@, sep@),
        r@.len() >= 1,
{
    let mut r: Vec<Vec<char>> = Vec::new();
    let mut pos: usize = 0;
    assert(s@.skip(0) == s@);
    assert(pieces_view(r@) =~= Seq::<Seq<char>>::empty());
    loop
        invariant
            0 <= pos <= s.len(),
            sep@.len() > 0,
            pieces_view(r@) + split(s@.skip(pos as int), sep@) == split(s@, sep@),
        decreases s.len() - pos,
    {
        let ghost rest = s@.skip(pos as int);
        let ghost before = pieces_view(r@);
        proof {
            lemma_find_shift(s@, sep@, pos as int, pos as int);
        }
        match find_chars(s, sep, pos) {
            None => {
                let last = slice_chars(s, pos, s.len());
                assert(last@ == rest);
                assert(split(rest, sep@) == seq![rest]);
                r.push(last);
                assert(pieces_view(r@) =~= before.push(last@));
                assert(before.push(rest) == before + seq![rest]);
                return r;
            },
            Some(i) => {
                let piece = slice_chars(s, pos, i);
                proof {
                    lemma_find_from(s@, sep@, pos as int);
                    assert(piece@ == rest.take(i - pos));
                    assert(rest.skip(i - pos + sep@.len()) == s@.skip(i + sep@.len()));
                    assert(split(rest, sep@) == seq![rest.take(i - pos)] + split(rest.skip(i - pos + sep@.len()), sep@));
                }
                r.push(piece);
                assert(pieces_view(r@) =~= before.push(piece@));
                assert(before.push(piece@) + split(s@.skip(i + sep@.len()), sep@) == before + split(rest, sep@));
                pos = i + sep.len();
            },
        }
    }
}

} // verus!

verus! {

/// The texts joined with `sep` between neighbours (`join`).
pub open spec fn join(ws: Seq<Seq<char>>, sep: Seq<char>) -> Seq<char>
    decreases ws.len(),
{
    if ws.len() == 0 {
        Seq::empty()
    } else if ws.len() == 1 {
        ws[0]
    } else {
        join(ws.drop_last(), sep) + sep + ws.last()
    }
}

/// The texts one after another.
pub open spec fn concat(ws: Seq<Seq<char>>) -> Seq<char>
    decreases ws.len(),
{
    if ws.len() == 0 {
        Seq::empty()
    } else {
        concat(ws.drop_last()) + ws.last()
    }
}

/// Taking one more text appends it.
pub proof fn lemma_concat_step(ws: Seq<Seq<char>>, i: int)
    requires
        0 <= i < ws.len(),
    ensures
        concat(ws.take(i + 1)) == concat(ws.take(i)) + ws[i],
{
    assert(ws.take(i + 1).drop_last() == ws.take(i));
}

/// The texts of a list of strings.
pub open spec fn strings_view(v: Seq<String>) -> Seq<Seq<char>> {
    v.map_values(|s: String| s@)
}

/// Joins strings with a separator.
pub fn join_strings(v: &Vec<String>, sep: &str) -> (r: String)
    ensures
        r@ == join(strings_view(v@), sep@),
{
    let mut r = String::new();
    let ghost ws = strings_view(v@);
    let mut i: usize = 0;
    while i < v.len()
        invariant
            0 <= i <= v.len(),
            ws == strings_view(v@),
            r@ == join(ws.take(i as int), sep@),
        decreases v.len() - i,
    {
        assert(ws.take(i + 1).drop_last() == ws.take(i as int));
        assert(ws.take(i + 1).last() == v@[i as int]@);
        if i > 0 {
            push_str(&mut r, sep);
        } else {
            assert(join(ws.take(0), sep@) == Seq::<char>::empty());
            assert(Seq::<char>::empty() + v@[0]@ == v@[0]@);
        }
        push_str(&mut r, v[i].as_str());
        i = i + 1;
    }
    assert(ws.take(v@.len() as int) == ws);
    r
}

/// `s` with every occurrence of a non-empty `pat`, left to right, replaced
/// by `with` (`str::replace`).
pub open spec fn replace_all(s: Seq<char>, pat: Seq<char>, with: Seq<char>) -> Seq<char>
    decreases s.len(),
{
    if pat.len() == 0 {
        s
    } else {
        match find_from(s, pat, 0) {
            None => s,
            Some(i) => if 0 <= i && i + pat.len() <= s.len() {
                s.take(i) + with + replace_all(s.skip(i + pat.len()), pat, with)
            } else {
                s
            },
        }
    }
}

/// Replaces every occurrence of a non-empty pattern.
pub fn replace_chars(s: &[char], pat: &[char], with: &[char]) -> (r: Vec<char>)
    requires
        pat@.len() > 0,
    ensures
        r@ == replace_all(s@, pat@, with@),
{
    let mut r: Vec<char> = Vec::new();
    let mut pos: usize = 0;
    assert(s@.skip(0) == s@);
    loop
        invariant
            0 <= pos <= s.len(),
            pat@.len() > 0,
            r@ + replace_all(s@.skip(pos as int), pat@, with@) == replace_all(s@, pat@, with@),
        decreases s.len() - pos,
    {
        let ghost rest = s@.skip(pos as int);
        let ghost before = r@;
        proof {
            lemma_find_shift(s@, pat@, pos as int, pos as int);
        }
        match find_chars(s, pat, pos) {
            None => {
                let mut k = pos;
                while k < s.len()
                    invariant
                        pos <= k <= s.len(),
                        r@ == before + s@.subrange(pos as int, k as int),
                    decreases s.len() - k,
                {
                    r.push(s[k]);
                    assert(s@.subrange(pos as int, k + 1) == s@.subrange(pos as int, k as int).push(s@[k as int]));
                    k = k + 1;
                }
                assert(s@.subrange(pos as int, s@.len() as int) == rest);
                return r;
            },
            Some(i) => {
                let mut k = pos;
                while k < i
                    invariant
                        pos <= k <= i,
                        i <= s.len(),
                        r@ == before + s@.subrange(pos as int, k as int),
                    decreases i - k,
                {
                    r.push(s[k]);
                    assert(s@.subrange(pos as int, k + 1) == s@.subrange(pos as int, k as int).push(s@[k as int]));
                    k = k + 1;
                }
                let ghost mid = r@;
                let mut j: usize = 0;
                while j < with.len()
                    invariant
                        0 <= j <= with.len(),
                        r@ == mid + with@.take(j as int),
                    decreases with.len() - j,
                {
                    r.push(with[j]);
                    assert(with@.take(j + 1) == with@.take(j as int).push(with@[j as int]));
                    j = j + 1;
                }
                proof {
                    lemma_find_from(s@, pat@, pos as int);
                    assert(with@.take(with@.len() as int) == with@);
                    assert(s@.subrange(pos as int, i as int) == rest.take(i - pos));
                    assert(rest.skip(i - pos + pat@.len()) == s@.skip(i + pat@.len()));
                }
                pos = i + pat.len();
            },
        }
    }
}

/// The index of the last `c` in `s`.
pub open spec fn last_index_of(s: Seq<char>, c: char) -> Option<int>
    decreases s.len(),
{
    if s.len() == 0 {
        None
    } else if s.last() == c {
        Some(s.len() - 1)
    } else {
        last_index_of(s.drop_last(), c)
    }
}

/// What follows the last `c` in `s`, or all of `s` when there is none
/// (the first piece of `str::rsplit`).
pub open spec fn after_last(s: Seq<char>, c: char) -> Seq<char> {
    match last_index_of(s, c) {
        Some(i) => s.skip(i + 1),
        None => s,
    }
}

pub fn after_last_chars(s: &[char], c: char) -> (r: Vec<char>)
    ensures
        r@ == after_last(s@, c),
{
    let mut k: usize = s.len();
    assert(s@.take(s@.len() as int) == s@);
    while k > 0 && s[k - 1] != c
        invariant
            0 <= k <= s.len(),
            last_index_of(s@, c) == last_index_of(s@.take(k as int), c),
        decreases k,
    {
        assert(s@.take(k as int).drop_last() == s@.take(k - 1));
        k = k - 1;
    }
    proof {
        assert(s@.take(s@.len() as int) == s@);
    }
    if k == 0 {
        assert(last_index_of(s@.take(0), c) is None);
        assert(s@.skip(0) == s@);
    }
    slice_chars(s, k, s.len())
}

} // verus!

verus! {

/// The last run of non-whitespace chars at the end of `s` (none when `s`
/// ends in whitespace or is empty).
pub open spec fn tail_run(s: Seq<char>) -> Seq<char>
    decreases s.len(),
{
    if s.len() == 0 || unicode_whitespace(s.last()) {
        Seq::empty()
    } else {
        tail_run(s.drop_last()).push(s.last())
    }
}

/// The last whitespace-separated word of `s` (`split_whitespace().last()`).
pub open spec fn last_word(s: Seq<char>) -> Option<Seq<char>> {
    let e = trim_end(s);
    if e.len() == 0 {
        None
    } else {
        Some(tail_run(e))
    }
}

pub fn last_word_chars(s: &[char]) -> (r: Option<Vec<char>>)
    ensures
        match r {
            Some(v) => last_word(s@) == Some(v@),
            None => last_word(s@) is None,
        },
{
    let mut b: usize = s.len();
    assert(s@.take(s@.len() as int) == s@);
    while b > 0 && is_whitespace(s[b - 1])
        invariant
            0 <= b <= s.len(),
            trim_end(s@) == trim_end(s@.take(b as int)),
        decreases b,
    {
        assert(s@.take(b as int).drop_last() == s@.take(b - 1));
        b = b - 1;
    }
    let ghost e = s@.take(b as int);
    assert(trim_end(e) == e);
    if b == 0 {
        return None;
    }
    let mut a: usize = b;
    while a > 0 && !is_whitespace(s[a - 1])
        invariant
            0 <= a <= b <= s.len(),
            e == s@.take(b as int),
            tail_run(e) == tail_run(s@.take(a as int)) + s@.subrange(a as int, b as int),
        decreases a,
    {
        assert(s@.take(a as int).drop_last() == s@.take(a - 1));
        assert(s@.subrange(a - 1, b as int) == seq![s@[a - 1]] + s@.subrange(a as int, b as int));
        a = a - 1;
    }
    assert(tail_run(s@.take(a as int)) == Seq::<char>::empty());
    assert(Seq::<char>::empty() + s@.subrange(a as int, b as int) == s@.subrange(a as int, b as int));
    Some(slice_chars(s, a, b))
}

/// The text before the first `c` in `s`, or all of `s` (the first piece of
/// `str::split`).
pub open spec fn before_first(s: Seq<char>, c: char) -> Seq<char> {
    match index_of_from(s, c, 0) {
        Some(i) => s.take(i),
        None => s,
    }
}

pub fn before_first_chars(s: &[char], c: char) -> (r: Vec<char>)
    ensures
        r@ == before_first(s@, c),
{
    match index_of(s, c, 0) {
        Some(i) => {
            let v = slice_chars(s, 0, i);
            assert(v@ == s@.take(i as int));
            v
        },
        None => {
            let v = slice_chars(s, 0, s.len());
            assert(v@ == s@);
            v
        },
    }
}

/// The alphanumeric chars of `s`, in order.
pub open spec fn alphanumerics(s: Seq<char>) -> Seq<char> {
    s.filter(|c: char| unicode_alphanumeric(c))
}

pub fn alphanumerics_chars(s: &[char]) -> (r: Vec<char>)
    ensures
        r@ == alphanumerics(s@),
{
    let mut r: Vec<char> = Vec::new();
    let mut i: usize = 0;
    while i < s.len()
        invariant
            0 <= i <= s.len(),
            r@ == alphanumerics(s@.take(i as int)),
        decreases s.len() - i,
    {
        proof {
            reveal_with_fuel(Seq::<_>::filter, 1);
            assert(s@.take(i + 1).drop_last() == s@.take(i as int));
        }
        if is_alphanumeric(s[i]) {
            r.push(s[i]);
        }
        i = i + 1;
    }
    assert(s@.take(s@.len() as int) == s@);
    r
}

} // verus!
