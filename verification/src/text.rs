//! Small string utilities with exact contracts over `Seq<char>`.

use vstd::prelude::*;
use vstd::string::*;

verus! {

/// The characters of an optional string.
pub open spec fn opt_view(o: Option<String>) -> Option<Seq<char>> {
    match o {
        Some(s) => Some(s@),
        None => None,
    }
}

/// A copy of an optional string.
pub fn clone_opt(o: &Option<String>) -> (r: Option<String>)
    ensures
        opt_view(r) == opt_view(*o),
{
    match o {
        Some(s) => Some(s.clone()),
        None => None,
    }
}

/// `a` followed by `b`.
pub fn concat(a: &str, b: &str) -> (r: String)
    ensures
        r@ == a@ + b@,
{
    let mut r = String::from_str(a);
    r.append(b);
    r
}

/// The characters of `s`, in order.
pub fn to_chars(s: &str) -> (v: Vec<char>)
    ensures
        v@ == s@,
{
    let mut v: Vec<char> = Vec::new();
    for c in it: s.chars()
        invariant
            v@ == it.seq().take(it.index() as int),
            it.seq() == s@,
    {
        v.push(c);
    }
    v
}

/// The number of bytes of the UTF-8 form of `s`.
pub fn byte_len(s: &str) -> (n: usize)
    ensures
        n == vstd::utf8::encode_utf8(s@).len(),
{
    s.as_bytes().len()
}

/// `String::push`: the string grows by exactly the given character.
#[verifier::external_body]
pub(crate) fn push_char(s: &mut String, c: char)
    ensures
        final(s)@ == old(s)@.push(c),
{
    s.push(c)
}

/// The string made of the characters of `v[from..to]`.
pub fn from_char_range(v: &Vec<char>, from: usize, to: usize) -> (s: String)
    requires
        from <= to <= v.len(),
    ensures
        s@ == v@.subrange(from as int, to as int),
{
    let mut s = String::new();
    let mut i: usize = from;
    while i < to
        invariant
            from <= i <= to <= v.len(),
            s@ == v@.subrange(from as int, i as int),
        decreases to - i,
    {
        push_char(&mut s, v[i]);
        i += 1;
    }
    s
}

/// The string made of the characters of `v`.
pub fn from_chars(v: &Vec<char>) -> (s: String)
    ensures
        s@ == v@,
{
    let s = from_char_range(v, 0, v.len());
    assert(v@.subrange(0, v.len() as int) == v@);
    s
}

/// Whether two strings hold the same characters.
pub fn str_eq(a: &str, b: &str) -> (r: bool)
    ensures
        r == (a@ == b@),
{
    let x = to_chars(a);
    let y = to_chars(b);
    if x.len() != y.len() {
        return false;
    }
    let mut i: usize = 0;
    while i < x.len()
        invariant
            i <= x.len(),
            x.len() == y.len(),
            x@ == a@,
            y@ == b@,
            forall|j: int| 0 <= j < i ==> x@[j] == y@[j],
        decreases x.len() - i,
    {
        if x[i] != y[i] {
            assert(a@[i as int] != b@[i as int]);
            return false;
        }
        i += 1;
    }
    assert(x@ =~= y@);
    true
}

/// Whether `c` occurs in `s`.
pub fn contains_char(s: &str, c: char) -> (r: bool)
    ensures
        r == s@.contains(c),
{
    let v = to_chars(s);
    let mut i: usize = 0;
    while i < v.len()
        invariant
            i <= v.len(),
            v@ == s@,
            forall|j: int| 0 <= j < i ==> v@[j] != c,
        decreases v.len() - i,
    {
        if v[i] == c {
            return true;
        }
        i += 1;
    }
    false
}

/// `needle` stands in `hay` at position `i`.
pub open spec fn occurs_at(needle: Seq<char>, hay: Seq<char>, i: int) -> bool {
    0 <= i && i + needle.len() <= hay.len() && hay.subrange(i, i + needle.len()) == needle
}

/// `needle` occurs in `hay` as a contiguous run.
pub open spec fn is_substring(needle: Seq<char>, hay: Seq<char>) -> bool {
    exists|i: int| occurs_at(needle, hay, i)
}

/// Whether `hay[at..]` begins with `needle`.
fn matches_at(hay: &Vec<char>, at: usize, needle: &Vec<char>) -> (r: bool)
    requires
        at + needle.len() <= hay.len(),
    ensures
        r == occurs_at(needle@, hay@, at as int),
{
    let mut j: usize = 0;
    while j < needle.len()
        invariant
            j <= needle.len(),
            at + needle.len() <= hay.len(),
            forall|k: int| 0 <= k < j ==> hay@[at + k] == needle@[k],
        decreases needle.len() - j,
    {
        if hay[at + j] != needle[j] {
            assert(hay@.subrange(at as int, at + needle.len())[j as int] != needle@[j as int]);
            return false;
        }
        j += 1;
    }
    assert(hay@.subrange(at as int, at + needle.len()) =~= needle@);
    true
}

/// Whether `needle` occurs in `hay`.
pub fn contains_str(hay: &str, needle: &str) -> (r: bool)
    ensures
        r == is_substring(needle@, hay@),
{
    let h = to_chars(hay);
    let n = to_chars(needle);
    if n.len() > h.len() {
        return false;
    }
    let last: usize = h.len() - n.len();
    let mut i: usize = 0;
    while i < last
        invariant
            i <= last,
            last == h.len() - n.len(),
            n.len() <= h.len(),
            h@ == hay@,
            n@ == needle@,
            forall|k: int| 0 <= k < i ==> !occurs_at(n@, h@, k),
        decreases last - i,
    {
        if matches_at(&h, i, &n) {
            return true;
        }
        i += 1;
    }
    matches_at(&h, last, &n)
}

/// Whether `s` begins with `prefix`.
pub fn starts_with(s: &str, prefix: &str) -> (r: bool)
    ensures
        r == prefix@.is_prefix_of(s@),
{
    let h = to_chars(s);
    let p = to_chars(prefix);
    if p.len() > h.len() {
        return false;
    }
    matches_at(&h, 0, &p)
}

/// Whether `s` ends with `suffix`.
pub fn ends_with(s: &str, suffix: &str) -> (r: bool)
    ensures
        r == suffix@.is_suffix_of(s@),
{
    let h = to_chars(s);
    let p = to_chars(suffix);
    if p.len() > h.len() {
        return false;
    }
    matches_at(&h, h.len() - p.len(), &p)
}

/// A copy of a list of strings.
pub fn clone_strings(v: &Vec<String>) -> (r: Vec<String>)
    ensures
        r.deep_view() == v.deep_view(),
{
    let mut r: Vec<String> = Vec::new();
    let mut i: usize = 0;
    while i < v.len()
        invariant
            i <= v.len(),
            r.len() == i,
            forall|j: int| 0 <= j < i ==> r@[j]@ == v@[j]@,
        decreases v.len() - i,
    {
        r.push(v[i].clone());
        i += 1;
    }
    assert(r.deep_view() =~= v.deep_view());
    r
}

/// Whether two lists hold the same strings in the same order.
pub fn strings_equal(a: &Vec<String>, b: &Vec<String>) -> (r: bool)
    ensures
        r == (a.deep_view() == b.deep_view()),
{
    if a.len() != b.len() {
        assert(a.deep_view().len() != b.deep_view().len());
        return false;
    }
    let mut i: usize = 0;
    while i < a.len()
        invariant
            i <= a.len(),
            a.len() == b.len(),
            forall|j: int| 0 <= j < i ==> a@[j]@ == b@[j]@,
        decreases a.len() - i,
    {
        if !str_eq(a[i].as_str(), b[i].as_str()) {
            assert(a.deep_view()[i as int] != b.deep_view()[i as int]);
            return false;
        }
        i += 1;
    }
    assert(a.deep_view() =~= b.deep_view());
    true
}

/// A character with an upper-case ASCII letter turned into lower case.
pub open spec fn ascii_lower_char(c: char) -> char {
    if 'A' <= c && c <= 'Z' {
        ((c as u8) + 32) as char
    } else {
        c
    }
}

/// A text with its upper-case ASCII letters turned into lower case.
pub open spec fn ascii_lower(s: Seq<char>) -> Seq<char> {
    s.map_values(|c: char| ascii_lower_char(c))
}

/// A copy of `s` with its upper-case ASCII letters turned into lower case.
pub fn to_ascii_lowercase(s: &str) -> (r: String)
    ensures
        r@ == ascii_lower(s@),
{
    let v = to_chars(s);
    let mut r = String::new();
    let mut i: usize = 0;
    while i < v.len()
        invariant
            i <= v.len(),
            v@ == s@,
            r@ == ascii_lower(v@.take(i as int)),
        decreases v.len() - i,
    {
        let c = v[i];
        let lower = if 'A' <= c && c <= 'Z' {
            ((c as u8) + 32) as char
        } else {
            c
        };
        push_char(&mut r, lower);
        assert(r@ =~= ascii_lower(v@.take(i + 1)));
        i += 1;
    }
    assert(v@.take(v.len() as int) =~= v@);
    r
}

/// The lower-case form of a text, by the rules of Unicode.
pub uninterp spec fn lowercased(s: Seq<char>) -> Seq<char>;

/// The upper-case form of a text, by the rules of Unicode.
pub uninterp spec fn uppercased(s: Seq<char>) -> Seq<char>;

/// Whether a character is a letter or a digit, by the rules of Unicode.
pub uninterp spec fn is_alphanumeric_char(c: char) -> bool;

/// Whether every character of a text is ASCII.
pub open spec fn is_ascii_text(s: Seq<char>) -> bool {
    forall|i: int| 0 <= i < s.len() ==> ((#[trigger] s[i]) as u32) < 128
}

/// A character with a lower-case ASCII letter turned into upper case.
pub open spec fn ascii_upper_char(c: char) -> char {
    if 'a' <= c && c <= 'z' {
        ((c as u8) - 32) as char
    } else {
        c
    }
}

/// A text with its lower-case ASCII letters turned into upper case.
pub open spec fn ascii_upper(s: Seq<char>) -> Seq<char> {
    s.map_values(|c: char| ascii_upper_char(c))
}

/// Whether a character is an ASCII letter or an ASCII digit.
pub open spec fn is_ascii_alphanumeric(c: char) -> bool {
    ('0' <= c && c <= '9') || ('A' <= c && c <= 'Z') || ('a' <= c && c <= 'z')
}

/// `str::to_lowercase`. Trusted: the result is a function of the text
/// alone, and of a text in ASCII it is the text with its ASCII letters in
/// lower case.
#[verifier::external_body]
pub(crate) fn to_lowercase(s: &str) -> (r: String)
    ensures
        r@ == lowercased(s@),
        is_ascii_text(s@) ==> r@ == ascii_lower(s@),
{
    s.to_lowercase()
}

/// `str::to_uppercase`. Trusted: the result is a function of the text
/// alone, and of a text in ASCII it is the text with its ASCII letters in
/// upper case.
#[verifier::external_body]
pub(crate) fn to_uppercase(s: &str) -> (r: String)
    ensures
        r@ == uppercased(s@),
        is_ascii_text(s@) ==> r@ == ascii_upper(s@),
{
    s.to_uppercase()
}

/// `char::is_alphanumeric`. Trusted: the result is a function of the
/// character alone, and of an ASCII character it says whether that is a
/// letter or a digit.
#[verifier::external_body]
pub(crate) fn char_is_alphanumeric(c: char) -> (r: bool)
    ensures
        r == is_alphanumeric_char(c),
        (c as u32) < 128 ==> r == is_ascii_alphanumeric(c),
{
    c.is_alphanumeric()
}

/// The lower-case form of a text: of a text in ASCII, the text with its
/// ASCII letters in lower case; of any other, what Unicode makes of it.
pub open spec fn lower_case(s: Seq<char>) -> Seq<char> {
    if is_ascii_text(s) {
        ascii_lower(s)
    } else {
        lowercased(s)
    }
}

/// The upper-case form of a text: of a text in ASCII, the text with its
/// ASCII letters in upper case; of any other, what Unicode makes of it.
pub open spec fn upper_case(s: Seq<char>) -> Seq<char> {
    if is_ascii_text(s) {
        ascii_upper(s)
    } else {
        uppercased(s)
    }
}

/// Whether a character is a letter or a digit: of an ASCII character,
/// whether it is one of `0-9`, `A-Z`, `a-z`; of any other, what Unicode
/// says.
pub open spec fn is_letter_or_digit(c: char) -> bool {
    if (c as u32) < 128 {
        is_ascii_alphanumeric(c)
    } else {
        is_alphanumeric_char(c)
    }
}

/// The lower-case form of a text.
pub fn lowercase(s: &str) -> (r: String)
    ensures
        r@ == lower_case(s@),
{
    to_lowercase(s)
}

/// The upper-case form of a text.
pub fn uppercase(s: &str) -> (r: String)
    ensures
        r@ == upper_case(s@),
{
    to_uppercase(s)
}

/// Whether a character is a letter or a digit.
pub fn letter_or_digit(c: char) -> (r: bool)
    ensures
        r == is_letter_or_digit(c),
{
    char_is_alphanumeric(c)
}

/// A text in which every occurrence of `from` has been replaced by `to`:
/// the text is read from the left; where `from` stands, `to` is written and
/// reading goes on behind it; any other character is kept. With an empty
/// `from` the text stays as it is.
pub open spec fn replaced_text(s: Seq<char>, from: Seq<char>, to: Seq<char>) -> Seq<char>
    decreases s.len(),
{
    if from.len() == 0 || s.len() < from.len() {
        s
    } else if s.subrange(0, from.len() as int) == from {
        to + replaced_text(s.skip(from.len() as int), from, to)
    } else {
        seq![s[0]] + replaced_text(s.drop_first(), from, to)
    }
}

/// `str::replace` with a pattern that is not empty. Trusted: every match
/// of the pattern, found from the left and not overlapping an earlier one,
/// is replaced.
#[verifier::external_body]
pub(crate) fn replace_text(s: &str, from: &str, to: &str) -> (r: String)
    requires
        from@.len() > 0,
    ensures
        r@ == replaced_text(s@, from@, to@),
{
    s.replace(from, to)
}

/// The first position at or after `i` at which `c` stands in `s`, or the
/// length of `s`.
pub open spec fn index_of_char(s: Seq<char>, c: char, i: int) -> int
    decreases s.len() - i,
{
    if i < 0 || i >= s.len() {
        s.len() as int
    } else if s[i] == c {
        i
    } else {
        index_of_char(s, c, i + 1)
    }
}

/// Splits `s` at the first `c`: what stands before it and what stands
/// after it. `None` where `c` does not occur.
pub fn split_once(s: &str, c: char) -> (r: Option<(String, String)>)
    ensures
        match r {
            Some(parts) => {
                let at = index_of_char(s@, c, 0);
                &&& 0 <= at < s@.len()
                &&& parts.0@ == s@.take(at)
                &&& parts.1@ == s@.skip(at + 1)
            },
            None => index_of_char(s@, c, 0) == s@.len(),
        },
{
    let v = to_chars(s);
    let mut i: usize = 0;
    while i < v.len()
        invariant
            i <= v.len(),
            v@ == s@,
            index_of_char(s@, c, 0) == index_of_char(s@, c, i as int),
        decreases v.len() - i,
    {
        if v[i] == c {
            let before = from_char_range(&v, 0, i);
            let after = from_char_range(&v, i + 1, v.len());
            assert(v@.subrange(0, i as int) =~= s@.take(i as int));
            assert(v@.subrange(i + 1, v.len() as int) =~= s@.skip(i + 1));
            return Some((before, after));
        }
        i += 1;
    }
    None
}

/// The pieces of `s` between the occurrences of `sep`, where the piece in
/// progress began at `start` and `s` has been read up to `i`.
pub open spec fn pieces_from(s: Seq<char>, sep: char, start: int, i: int) -> Seq<Seq<char>>
    decreases s.len() - i,
{
    if i < 0 || start < 0 || start > i || i >= s.len() {
        seq![s.subrange(start, s.len() as int)]
    } else if s[i] == sep {
        seq![s.subrange(start, i)] + pieces_from(s, sep, i + 1, i + 1)
    } else {
        pieces_from(s, sep, start, i + 1)
    }
}

/// The pieces of `s` between the occurrences of `sep`; a text without `sep`
/// is one piece.
pub open spec fn pieces(s: Seq<char>, sep: char) -> Seq<Seq<char>> {
    pieces_from(s, sep, 0, 0)
}

/// Splits `s` at every `sep`.
pub fn split(s: &str, sep: char) -> (out: Vec<String>)
    ensures
        out.deep_view() == pieces(s@, sep),
{
    let v = to_chars(s);
    let mut out: Vec<String> = Vec::new();
    let mut start: usize = 0;
    let mut i: usize = 0;
    assert(out.deep_view() + pieces_from(v@, sep, 0, 0) =~= pieces(s@, sep));
    while i < v.len()
        invariant
            start <= i <= v.len(),
            v@ == s@,
            out.deep_view() + pieces_from(v@, sep, start as int, i as int) == pieces(s@, sep),
        decreases v.len() - i,
    {
        if v[i] == sep {
            let ghost before = out.deep_view();
            let piece = from_char_range(&v, start, i);
            out.push(piece);
            assert(out.deep_view() =~= before + seq![v@.subrange(start as int, i as int)]);
            assert(out.deep_view() + pieces_from(v@, sep, i + 1, i + 1) =~= pieces(s@, sep));
            start = i + 1;
        }
        i += 1;
    }
    let ghost before = out.deep_view();
    let piece = from_char_range(&v, start, v.len());
    out.push(piece);
    assert(out.deep_view() =~= before + seq![v@.subrange(start as int, v.len() as int)]);
    out
}

/// The character of a decimal digit.
pub open spec fn digit_char(d: nat) -> char {
    (48 + d % 10) as u8 as char
}

/// The decimal digits of a number, most significant first.
pub open spec fn decimal(n: nat) -> Seq<char>
    decreases n,
{
    if n < 10 {
        seq![digit_char(n)]
    } else {
        decimal(n / 10).push(digit_char(n % 10))
    }
}

/// The decimal digits of a number, with zeros in front up to three places.
pub open spec fn padded(n: nat) -> Seq<char> {
    if n < 10 {
        seq!['0', '0'] + decimal(n)
    } else if n < 100 {
        seq!['0'] + decimal(n)
    } else {
        decimal(n)
    }
}

/// Appends the decimal digits of `n` to `s`.
pub fn push_decimal(s: &mut String, n: usize)
    ensures
        final(s)@ == old(s)@ + decimal(n as nat),
    decreases n,
{
    if n >= 10 {
        push_decimal(s, n / 10);
    }
    let d: u8 = (n % 10) as u8;
    push_char(s, (48u8 + d) as char);
    assert(s@ =~= old(s)@ + decimal(n as nat));
}

/// The decimal digits of `n`.
pub fn decimal_string(n: usize) -> (s: String)
    ensures
        s@ == decimal(n as nat),
{
    let mut s = String::new();
    push_decimal(&mut s, n);
    assert(s@ =~= decimal(n as nat));
    s
}

/// Appends the decimal digits of `n`, at least three of them.
pub fn push_padded(s: &mut String, n: usize)
    ensures
        final(s)@ == old(s)@ + padded(n as nat),
{
    if n < 10 {
        push_char(s, '0');
        push_char(s, '0');
    } else if n < 100 {
        push_char(s, '0');
    }
    push_decimal(s, n);
    assert(s@ =~= old(s)@ + padded(n as nat));
}

/// Where a text of `bytes` is cut to keep at most `limit` bytes and whole
/// characters.
pub open spec fn cut_point(bytes: Seq<u8>, limit: int) -> int
    decreases limit,
{
    if limit <= 0 || vstd::utf8::is_char_boundary(bytes, limit) {
        limit
    } else {
        cut_point(bytes, limit - 1)
    }
}

/// A text as it is shown in a report: one of more than `limit` bytes is cut
/// to at most `limit` bytes, at the end of a character, and `...` follows.
pub open spec fn preview(s: Seq<char>, limit: nat) -> Seq<char> {
    let bytes = vstd::utf8::encode_utf8(s);
    if bytes.len() > limit {
        vstd::utf8::decode_utf8(bytes.subrange(0, cut_point(bytes, limit as int))) + "..."@
    } else {
        s
    }
}

/// A text as it is shown in a report.
pub fn preview_of(s: &str, limit: usize) -> (r: String)
    ensures
        r@ == preview(s@, limit as nat),
{
    let ghost bytes = vstd::utf8::encode_utf8(s@);
    if byte_len(s) <= limit {
        return String::from_str(s);
    }
    proof {
        vstd::utf8::encode_utf8_valid_utf8(s@);
    }
    let mut cut: usize = limit;
    while cut > 0 && !s.is_char_boundary(cut)
        invariant
            cut <= limit < bytes.len(),
            bytes == vstd::utf8::encode_utf8(s@),
            vstd::utf8::valid_utf8(bytes),
            cut_point(bytes, limit as int) == cut_point(bytes, cut as int),
        decreases cut,
    {
        cut -= 1;
    }
    assert(vstd::utf8::is_char_boundary(bytes, cut as int));
    let parts = s.split_at(cut);
    let head = parts.0;
    proof {
        vstd::utf8::encode_utf8_decode_utf8(head@);
        assert(vstd::utf8::encode_utf8(head@) =~= bytes.subrange(0, cut as int));
    }
    concat(head, "...")
}

/// `prefix` and the decimal digits of `n`.
pub fn numbered(prefix: &str, n: usize) -> (r: String)
    ensures
        r@ == prefix@ + decimal(n as nat),
{
    let mut r = String::from_str(prefix);
    push_decimal(&mut r, n);
    r
}

/// How many digits a number has.
pub proof fn lemma_decimal_len(n: nat)
    ensures
        n < 10 ==> decimal(n).len() == 1,
        10 <= n < 100 ==> decimal(n).len() == 2,
        100 <= n < 1000 ==> decimal(n).len() == 3,
        1000 <= n ==> decimal(n).len() >= 4,
    decreases n,
{
    if n >= 10 {
        lemma_decimal_len(n / 10);
    }
}

/// A number above zero does not begin with the digit zero.
pub proof fn lemma_decimal_leading(n: nat)
    requires
        n > 0,
    ensures
        decimal(n).len() > 0,
        decimal(n)[0] != '0',
    decreases n,
{
    if n >= 10 {
        lemma_decimal_leading(n / 10);
        lemma_decimal_len(n / 10);
        assert(decimal(n)[0] == decimal(n / 10)[0]);
    }
}

/// Two numbers with the same digits are the same number.
pub proof fn lemma_decimal_injective(a: nat, b: nat)
    requires
        decimal(a) == decimal(b),
    ensures
        a == b,
    decreases a,
{
    lemma_decimal_len(a);
    lemma_decimal_len(b);
    if a < 10 {
        assert(decimal(a)[0] == digit_char(a));
        assert(decimal(b)[0] == digit_char(b));
    } else {
        assert(b >= 10);
        let x = decimal(a / 10);
        let y = decimal(b / 10);
        assert(decimal(a).drop_last() =~= x);
        assert(decimal(b).drop_last() =~= y);
        assert(decimal(a).last() == digit_char(a % 10));
        assert(decimal(b).last() == digit_char(b % 10));
        lemma_decimal_injective(a / 10, b / 10);
    }
}

/// Two numbers with the same padded digits are the same number.
pub proof fn lemma_padded_injective(a: nat, b: nat)
    requires
        padded(a) == padded(b),
    ensures
        a == b,
{
    lemma_decimal_len(a);
    lemma_decimal_len(b);
    if a > 0 {
        lemma_decimal_leading(a);
    }
    if b > 0 {
        lemma_decimal_leading(b);
    }
    let pa = padded(a);
    let pb = padded(b);
    if a < 10 {
        assert(pa[0] == '0' && pa[1] == '0' && pa[2] == decimal(a)[0]);
        if b < 10 {
            assert(pb[2] == decimal(b)[0]);
            assert(decimal(a) =~= decimal(b));
        } else if b < 100 {
            assert(pb[1] == decimal(b)[0]);
        } else {
            assert(pb[0] == decimal(b)[0]);
        }
    } else if a < 100 {
        assert(pa[0] == '0' && pa[1] == decimal(a)[0] && pa[2] == decimal(a)[1]);
        if b < 10 {
            assert(pb[1] == '0');
        } else if b < 100 {
            assert(pb[1] == decimal(b)[0] && pb[2] == decimal(b)[1]);
            assert(decimal(a) =~= decimal(b));
        } else {
            assert(pb[0] == decimal(b)[0]);
        }
    } else {
        assert(pa =~= decimal(a));
        if b < 10 {
            assert(pb[0] == '0');
        } else if b < 100 {
            assert(pb[0] == '0');
        } else {
            assert(pb =~= decimal(b));
        }
    }
    lemma_decimal_injective(a, b);
}

/// How many characters the padded digits of a number have.
pub proof fn lemma_padded_len(n: nat)
    ensures
        padded(n).len() >= 3,
{
    lemma_decimal_len(n);
}

} // verus!
