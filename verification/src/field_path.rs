//! Paths into a document, such as `request.headers.accept[0]`.

use crate::text::{from_char_range, index_of_char, to_chars};
use vstd::prelude::*;

verus! {

/// One step of a path: into a member of an object or into an item of an
/// array.
#[derive(Debug)]
pub enum FieldPathPart {
    Key(String),
    Index(usize),
}

/// What a [`FieldPathPart`] holds.
pub enum PartView {
    Key(Seq<char>),
    Index(usize),
}

impl View for FieldPathPart {
    type V = PartView;

    open spec fn view(&self) -> PartView {
        match self {
            FieldPathPart::Key(k) => PartView::Key(k@),
            FieldPathPart::Index(i) => PartView::Index(*i),
        }
    }
}

/// What a list of parts holds.
pub open spec fn parts_view(parts: Seq<FieldPathPart>) -> Seq<PartView> {
    parts.map_values(|p: FieldPathPart| p@)
}

/// Whether a character is a decimal digit.
pub open spec fn is_digit(c: char) -> bool {
    '0' <= c && c <= '9'
}

/// The number that the digits of `s` before position `n` spell.
pub open spec fn digits_value(s: Seq<char>, n: int) -> nat
    decreases n,
{
    if n <= 0 || n > s.len() {
        0
    } else {
        digits_value(s, n - 1) * 10 + ((s[n - 1] as u8) - 48) as nat
    }
}

/// Whether `s` consists of digits from position `from` on.
pub open spec fn all_digits(s: Seq<char>, from: int) -> bool {
    forall|i: int| from <= i < s.len() ==> is_digit(#[trigger] s[i])
}

/// The number that a text spells: digits, with `+` in front if one likes;
/// `None` where the text is anything else or the number does not fit.
pub open spec fn parsed_index(text: Seq<char>) -> Option<usize> {
    let digits = if text.len() > 0 && text[0] == '+' {
        text.skip(1)
    } else {
        text
    };
    if digits.len() > 0 && all_digits(digits, 0) && digits_value(digits, digits.len() as int)
        <= usize::MAX {
        Some(digits_value(digits, digits.len() as int) as usize)
    } else {
        None
    }
}

/// The key that has been read, as a list of none or one part.
pub open spec fn key_part(current: Seq<char>) -> Seq<PartView> {
    if current.len() > 0 {
        seq![PartView::Key(current)]
    } else {
        Seq::empty()
    }
}

/// The index between brackets, as a list of none or one part.
pub open spec fn index_part(text: Seq<char>) -> Seq<PartView> {
    match parsed_index(text) {
        Some(n) => seq![PartView::Index(n)],
        None => Seq::empty(),
    }
}

/// The parts of the path `s` from position `i` on, where `current` is the
/// key read so far. A `.` ends a key. A `[` ends a key and begins an index
/// that runs to the next `]` or to the end; an index that is no number
/// gives no part.
pub open spec fn parts_from(s: Seq<char>, i: int, current: Seq<char>) -> Seq<PartView>
    decreases s.len() - i,
{
    if i < 0 || i >= s.len() {
        key_part(current)
    } else if s[i] == '.' {
        key_part(current) + parts_from(s, i + 1, Seq::empty())
    } else if s[i] == '[' {
        let close = index_of_char(s, ']', i + 1);
        let next = if i < close < s.len() {
            close + 1
        } else {
            s.len() as int
        };
        key_part(current) + index_part(s.subrange(i + 1, close)) + parts_from(
            s,
            next,
            Seq::empty(),
        )
    } else {
        parts_from(s, i + 1, current.push(s[i]))
    }
}

/// The parts of a path.
pub open spec fn path_parts(s: Seq<char>) -> Seq<PartView> {
    parts_from(s, 0, Seq::empty())
}

/// Each further digit makes the number no smaller.
proof fn lemma_digits_grow(s: Seq<char>, n: int, m: int)
    requires
        0 <= n <= m <= s.len(),
    ensures
        digits_value(s, n) <= digits_value(s, m),
    decreases m - n,
{
    if n < m {
        lemma_digits_grow(s, n, m - 1);
    }
}

/// Reads a number from `v[from..to]`.
fn parse_index(v: &Vec<char>, from: usize, to: usize) -> (r: Option<usize>)
    requires
        from <= to <= v.len(),
    ensures
        r == parsed_index(v@.subrange(from as int, to as int)),
{
    let ghost text = v@.subrange(from as int, to as int);
    let start: usize = if from < to && v[from] == '+' {
        from + 1
    } else {
        from
    };
    let ghost digits = v@.subrange(start as int, to as int);
    assert(digits =~= if text.len() > 0 && text[0] == '+' {
        text.skip(1)
    } else {
        text
    });
    if start == to {
        return None;
    }
    let mut value: usize = 0;
    let mut i: usize = start;
    while i < to
        invariant
            start <= i <= to <= v.len(),
            digits == v@.subrange(start as int, to as int),
            text == v@.subrange(from as int, to as int),
            digits.len() > 0,
            digits == (if text.len() > 0 && text[0] == '+' {
                text.skip(1)
            } else {
                text
            }),
            all_digits(digits.take(i - start), 0),
            value == digits_value(digits, i - start),
        decreases to - i,
    {
        let c = v[i];
        assert(digits[i - start] == c);
        if !('0' <= c && c <= '9') {
            assert(!is_digit(digits[i - start]));
            return None;
        }
        let d: usize = ((c as u8) - 48) as usize;
        proof {
            lemma_digits_grow(digits, i - start + 1, digits.len() as int);
        }
        if value > (usize::MAX - d) / 10 {
            assert(digits_value(digits, i - start + 1) > usize::MAX);
            return None;
        }
        value = value * 10 + d;
        assert forall|k: int| 0 <= k < i + 1 - start implies is_digit(
            #[trigger] digits.take(i + 1 - start)[k],
        ) by {
            if k < i - start {
                assert(digits.take(i - start)[k] == digits[k]);
            }
        }
        i += 1;
    }
    assert(digits.take(to - start) =~= digits);
    Some(value)
}

/// Adds the key read so far to `parts`, if there is one.
fn flush_key(parts: &mut Vec<FieldPathPart>, v: &Vec<char>, start: usize, end: usize)
    requires
        start <= end <= v.len(),
    ensures
        parts_view(final(parts)@) == parts_view(old(parts)@) + key_part(
            v@.subrange(start as int, end as int),
        ),
{
    let ghost before = parts_view(parts@);
    if start < end {
        let key = from_char_range(v, start, end);
        parts.push(FieldPathPart::Key(key));
        assert(parts_view(parts@) =~= before + seq![PartView::Key(key@)]);
    } else {
        assert(parts_view(parts@) =~= before + Seq::empty());
    }
}

/// Reads a path into its parts.
pub fn parse_field_path(field_path: &str) -> (parts: Vec<FieldPathPart>)
    ensures
        parts_view(parts@) == path_parts(field_path@),
{
    let v = to_chars(field_path);
    let mut parts: Vec<FieldPathPart> = Vec::new();
    let mut key: Vec<char> = Vec::new();
    let mut i: usize = 0;
    assert(parts_view(parts@) + parts_from(v@, 0, key@) =~= path_parts(field_path@));
    while i < v.len()
        invariant
            i <= v.len(),
            v@ == field_path@,
            parts_view(parts@) + parts_from(v@, i as int, key@) == path_parts(field_path@),
        decreases v.len() - i,
    {
        let c = v[i];
        if c == '.' {
            flush_key(&mut parts, &key, 0, key.len());
            assert(key@.subrange(0, key@.len() as int) =~= key@);
            key = Vec::new();
            i += 1;
            assert(parts_view(parts@) + parts_from(v@, i as int, key@) =~= path_parts(
                field_path@,
            ));
        } else if c == '[' {
            flush_key(&mut parts, &key, 0, key.len());
            assert(key@.subrange(0, key@.len() as int) =~= key@);
            key = Vec::new();
            let mut close: usize = i + 1;
            while close < v.len() && v[close] != ']'
                invariant
                    i + 1 <= close <= v.len(),
                    index_of_char(v@, ']', i + 1) == index_of_char(v@, ']', close as int),
                decreases v.len() - close,
            {
                close += 1;
            }
            let ghost flushed = parts_view(parts@);
            match parse_index(&v, i + 1, close) {
                Some(n) => {
                    parts.push(FieldPathPart::Index(n));
                    assert(parts_view(parts@) =~= flushed + seq![PartView::Index(n)]);
                },
                None => {
                    assert(parts_view(parts@) =~= flushed + Seq::empty());
                },
            }
            let next: usize = if close < v.len() {
                close + 1
            } else {
                close
            };
            assert(parts_view(parts@) + parts_from(v@, next as int, key@) =~= path_parts(
                field_path@,
            ));
            i = next;
        } else {
            key.push(c);
            i += 1;
        }
    }
    flush_key(&mut parts, &key, 0, key.len());
    assert(key@.subrange(0, key@.len() as int) =~= key@);
    parts
}

} // verus!
