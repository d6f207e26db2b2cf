//! Reading and rewriting the query string of a URL, through the `url` crate.

use url::Url;
use vstd::prelude::*;
use vstd::utf8::*;

verus! {

/// The number of bytes below which the serialization of a URL must stay:
/// the `url` crate keeps its offsets in 32 bits.
pub const SERIALIZER_LIMIT: usize = 0xFFFF_FFFF;

/// The serialization of a URL text after parsing, or `None` where the text
/// is no URL.
pub uninterp spec fn normalized_url(text: Seq<char>) -> Option<Seq<char>>;

/// The decoded name/value pairs of the query of a URL text, in order, or
/// `None` where the text is no URL.
pub uninterp spec fn url_query(text: Seq<char>) -> Option<Seq<(Seq<char>, Seq<char>)>>;

/// The serialization of a URL whose query has been replaced by the given
/// pairs, or `None` where the text is no URL.
pub uninterp spec fn url_with_query(text: Seq<char>, pairs: Seq<(Seq<char>, Seq<char>)>) -> Option<
    Seq<char>,
>;

/// The plain view of a list of pairs of strings.
pub open spec fn pairs_view(pairs: Seq<(String, String)>) -> Seq<(Seq<char>, Seq<char>)> {
    pairs.map_values(|p: (String, String)| (p.0@, p.1@))
}

/// The number of bytes of a query's names and values, with two more for
/// each pair.
pub open spec fn query_size(pairs: Seq<(Seq<char>, Seq<char>)>) -> nat
    decreases pairs.len(),
{
    if pairs.len() == 0 {
        0
    } else {
        query_size(pairs.drop_last()) + encode_utf8(pairs.last().0).len() + encode_utf8(
            pairs.last().1,
        ).len() + 2
    }
}

/// `Url::parse` followed by `Url::to_string`. Trusted: the result is a
/// function of the text alone.
#[verifier::external_body]
pub(crate) fn parse_url(text: &str) -> (out: Option<String>)
    ensures
        match out {
            Some(s) => normalized_url(text@) == Some(s@),
            None => normalized_url(text@).is_none(),
        },
{
    match Url::parse(text) {
        Ok(url) => Some(url.to_string()),
        Err(_) => None,
    }
}

/// `Url::parse` followed by `Url::query_pairs`. Trusted: the pairs are a
/// function of the text alone, and parsing fails exactly where `parse_url`
/// fails.
#[verifier::external_body]
pub(crate) fn query_pairs(text: &str) -> (out: Option<Vec<(String, String)>>)
    ensures
        match out {
            Some(pairs) => url_query(text@) == Some(pairs_view(pairs@)),
            None => url_query(text@).is_none(),
        },
        out.is_some() == normalized_url(text@).is_some(),
{
    match Url::parse(text) {
        Ok(url) => {
            let mut pairs = Vec::new();
            for (name, value) in url.query_pairs() {
                pairs.push((name.into_owned(), value.into_owned()));
            }
            Some(pairs)
        },
        Err(_) => None,
    }
}

/// Whether a URL with the given serialization can take the given pairs as
/// its query: a name or value grows to at most three times its bytes when
/// it is written into a query, so the serialization and three times the
/// size of the query must stay below the limit of the serializer.
pub open spec fn fits_serializer(normalized: Seq<char>, pairs: Seq<(Seq<char>, Seq<char>)>) -> bool {
    encode_utf8(normalized).len() + 3 * query_size(pairs) < SERIALIZER_LIMIT
}

/// `Url::parse`, then `query_pairs_mut().clear()` and one `append_pair` per
/// pair, then `Url::to_string`. Trusted: the result is a function of the
/// text and the pairs alone, and parsing fails exactly where `parse_url`
/// fails. The rewritten serialization must fit the 32-bit offsets of the
/// `url` crate, which panics where it does not.
#[verifier::external_body]
pub(crate) fn replace_query(text: &str, pairs: &Vec<(String, String)>) -> (out: Option<String>)
    requires
        match normalized_url(text@) {
            Some(normalized) => fits_serializer(normalized, pairs_view(pairs@)),
            None => true,
        },
    ensures
        match out {
            Some(s) => url_with_query(text@, pairs_view(pairs@)) == Some(s@),
            None => url_with_query(text@, pairs_view(pairs@)).is_none(),
        },
        out.is_some() == normalized_url(text@).is_some(),
{
    match Url::parse(text) {
        Ok(mut url) => {
            url.query_pairs_mut().clear();
            for (name, value) in pairs {
                url.query_pairs_mut().append_pair(name, value);
            }
            Some(url.to_string())
        },
        Err(_) => None,
    }
}

/// Whether the names and values of a query fit within `limit` bytes.
pub fn query_fits(pairs: &Vec<(String, String)>, limit: usize) -> (r: bool)
    ensures
        r == (query_size(pairs_view(pairs@)) <= limit),
{
    let mut total: usize = 0;
    let mut i: usize = 0;
    while i < pairs.len()
        invariant
            i <= pairs.len(),
            total == query_size(pairs_view(pairs@).take(i as int)),
            total <= limit,
        decreases pairs.len() - i,
    {
        let ghost before = pairs_view(pairs@).take(i as int);
        let ghost after = pairs_view(pairs@).take(i + 1);
        proof {
            assert(after.drop_last() =~= before);
            assert(after.last() == (pairs@[i as int].0@, pairs@[i as int].1@));
            lemma_query_size_grows(pairs_view(pairs@), i + 1);
            assert(query_size(after) == query_size(before) + encode_utf8(pairs@[i as int].0@).len()
                + encode_utf8(pairs@[i as int].1@).len() + 2);
        }
        let name_len = crate::text::byte_len(pairs[i].0.as_str());
        let value_len = crate::text::byte_len(pairs[i].1.as_str());
        if name_len > limit - total {
            return false;
        }
        let with_name: usize = total + name_len;
        if value_len > limit - with_name {
            return false;
        }
        let with_value: usize = with_name + value_len;
        if 2 > limit - with_value {
            return false;
        }
        total = with_value + 2;
        i += 1;
    }
    assert(pairs_view(pairs@).take(pairs.len() as int) =~= pairs_view(pairs@));
    true
}

/// Whether a URL of `normalized_len` bytes can take the given pairs as its
/// query.
pub fn query_fits_serializer(normalized_len: usize, pairs: &Vec<(String, String)>) -> (r: bool)
    ensures
        r == (normalized_len + 3 * query_size(pairs_view(pairs@)) < SERIALIZER_LIMIT),
{
    if normalized_len >= SERIALIZER_LIMIT {
        return false;
    }
    let budget: usize = (SERIALIZER_LIMIT - 1 - normalized_len) / 3;
    query_fits(pairs, budget)
}

/// The size of a query is at least the size of each of its beginnings.
pub proof fn lemma_query_size_grows(pairs: Seq<(Seq<char>, Seq<char>)>, n: int)
    requires
        0 <= n <= pairs.len(),
    ensures
        query_size(pairs.take(n)) <= query_size(pairs),
    decreases pairs.len() - n,
{
    if n < pairs.len() {
        lemma_query_size_grows(pairs, n + 1);
        assert(pairs.take(n + 1).drop_last() =~= pairs.take(n));
    } else {
        assert(pairs.take(n) =~= pairs);
    }
}

} // verus!
