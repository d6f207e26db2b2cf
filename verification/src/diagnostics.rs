//! What a failed replay tells its reader: the recorded URLs nearest to the
//! one asked for, the methods on record, and the message built from them.

use crate::cassette::{Interaction, InteractionView};
use crate::text::{push_decimal, to_chars};
use vstd::prelude::*;
use vstd::string::*;

verus! {

/// The least of three numbers.
pub open spec fn least(a: nat, b: nat, c: nat) -> nat {
    if a <= b && a <= c {
        a
    } else if b <= c {
        b
    } else {
        c
    }
}

/// The Levenshtein distance between two texts, counted in characters: the
/// least number of characters to insert, to delete or to replace by another
/// so that the one text becomes the other.
pub open spec fn edit_distance(a: Seq<char>, b: Seq<char>) -> nat
    decreases a.len() + b.len(),
{
    if a.len() == 0 {
        b.len()
    } else if b.len() == 0 {
        a.len()
    } else {
        least(
            edit_distance(a.drop_last(), b) + 1,
            edit_distance(a, b.drop_last()) + 1,
            edit_distance(a.drop_last(), b.drop_last()) + if a.last() == b.last() {
                0nat
            } else {
                1nat
            },
        )
    }
}

/// `levenshtein::levenshtein`. Trusted: the result is the Levenshtein
/// distance of the two texts, counted in characters.
#[verifier::external_body]
pub(crate) fn levenshtein(a: &str, b: &str) -> (d: usize)
    ensures
        d == edit_distance(a@, b@),
{
    levenshtein::levenshtein(a, b)
}

/// Where an item of distance `d` goes into a ranked list, looking from
/// position `p` towards the front: behind every item that is not farther.
pub open spec fn rank_point(ranked: Seq<(Seq<char>, nat)>, d: nat, p: nat) -> nat
    decreases p,
{
    if p > 0 && p <= ranked.len() && ranked[p - 1].1 > d {
        rank_point(ranked, d, (p - 1) as nat)
    } else {
        p
    }
}

/// A ranked list with one more item put in its place.
pub open spec fn rank_insert(ranked: Seq<(Seq<char>, nat)>, item: (Seq<char>, nat)) -> Seq<
    (Seq<char>, nat),
> {
    ranked.insert(rank_point(ranked, item.1, ranked.len()) as int, item)
}

/// The first `n` of `items`, ordered by distance, nearest first; items at
/// the same distance keep their order.
pub open spec fn ranked(items: Seq<(Seq<char>, nat)>, n: nat) -> Seq<(Seq<char>, nat)>
    decreases n,
{
    if n == 0 || n > items.len() {
        Seq::empty()
    } else {
        rank_insert(ranked(items, (n - 1) as nat), items[n - 1])
    }
}

/// The URLs of the recorded requests, each with its distance from `url`.
pub open spec fn scored_urls(url: Seq<char>, recorded: Seq<InteractionView>) -> Seq<
    (Seq<char>, nat),
> {
    Seq::new(recorded.len(), |k: int| (recorded[k].request.url, edit_distance(url, recorded[k].request.url)))
}

/// The at most five recorded URLs nearest to `url`, nearest first, each
/// with its distance.
pub open spec fn similar_urls(url: Seq<char>, recorded: Seq<InteractionView>) -> Seq<
    (Seq<char>, nat),
> {
    let all = ranked(scored_urls(url, recorded), recorded.len());
    if all.len() > 5 {
        all.take(5)
    } else {
        all
    }
}

/// URLs with distances, as plain values.
pub open spec fn scores_view(scores: Seq<(String, usize)>) -> Seq<(Seq<char>, nat)> {
    scores.map_values(|s: (String, usize)| (s.0@, s.1 as nat))
}

/// Ranking keeps every item.
pub proof fn lemma_ranked_len(items: Seq<(Seq<char>, nat)>, n: nat)
    requires
        n <= items.len(),
    ensures
        ranked(items, n).len() == n,
    decreases n,
{
    if n > 0 {
        lemma_ranked_len(items, (n - 1) as nat);
        lemma_rank_point_bound(ranked(items, (n - 1) as nat), items[n - 1].1, (n - 1) as nat);
    }
}

/// The place of a new item lies within the list.
pub proof fn lemma_rank_point_bound(ranked: Seq<(Seq<char>, nat)>, d: nat, p: nat)
    ensures
        rank_point(ranked, d, p) <= p,
    decreases p,
{
    if p > 0 && p <= ranked.len() && ranked[p - 1].1 > d {
        lemma_rank_point_bound(ranked, d, (p - 1) as nat);
    }
}

/// Puts one more item into a ranked list.
fn insert_ranked(list: &mut Vec<(String, usize)>, url: String, distance: usize)
    ensures
        scores_view(final(list)@) == rank_insert(scores_view(old(list)@), (url@, distance as nat)),
{
    let ghost before = scores_view(list@);
    let mut p: usize = list.len();
    while p > 0 && list[p - 1].1 > distance
        invariant
            p <= list.len(),
            list@ == old(list)@,
            rank_point(before, distance as nat, before.len()) == rank_point(
                before,
                distance as nat,
                p as nat,
            ),
            before == scores_view(list@),
        decreases p,
    {
        assert(before[p - 1].1 == list@[p - 1].1);
        p -= 1;
    }
    assert(p > 0 ==> before[p - 1].1 == list@[p - 1].1);
    list.insert(p, (url, distance));
    assert(scores_view(list@) =~= before.insert(p as int, (url@, distance as nat)));
}

/// The at most five recorded URLs nearest to `url`, with their distances.
pub fn find_similar_urls(url: &str, recorded: &Vec<Interaction>) -> (out: Vec<(String, usize)>)
    ensures
        scores_view(out@) == similar_urls(url@, crate::cassette::interactions_view(recorded@)),
{
    let ghost views = crate::cassette::interactions_view(recorded@);
    let ghost scored = scored_urls(url@, views);
    let mut list: Vec<(String, usize)> = Vec::new();
    let mut i: usize = 0;
    assert(scores_view(list@) =~= ranked(scored, 0));
    while i < recorded.len()
        invariant
            i <= recorded.len(),
            views == crate::cassette::interactions_view(recorded@),
            scored == scored_urls(url@, views),
            scores_view(list@) == ranked(scored, i as nat),
        decreases recorded.len() - i,
    {
        let recorded_url = &recorded[i].request.url;
        let distance = levenshtein(url, recorded_url.as_str());
        assert(scored[i as int] == (recorded_url@, distance as nat));
        insert_ranked(&mut list, recorded_url.clone(), distance);
        i += 1;
    }
    proof {
        lemma_ranked_len(scored, recorded.len() as nat);
    }
    if list.len() > 5 {
        list.truncate(5);
        assert(scores_view(list@) =~= ranked(scored, recorded.len() as nat).take(5));
    }
    list
}

/// Whether `a` comes before `b` when both are compared character by
/// character from position `i` on.
pub open spec fn text_less_from(a: Seq<char>, b: Seq<char>, i: int) -> bool
    decreases b.len() - i,
{
    if i < 0 || i >= b.len() {
        false
    } else if i >= a.len() {
        true
    } else if a[i] != b[i] {
        a[i] < b[i]
    } else {
        text_less_from(a, b, i + 1)
    }
}

/// Whether `a` comes before `b` in the order of strings.
pub open spec fn text_less(a: Seq<char>, b: Seq<char>) -> bool {
    text_less_from(a, b, 0)
}

/// Whether `a` comes before `b` in the order of strings.
pub fn text_less_than(a: &str, b: &str) -> (r: bool)
    ensures
        r == text_less(a@, b@),
{
    let x = to_chars(a);
    let y = to_chars(b);
    let mut i: usize = 0;
    while i < y.len()
        invariant
            i <= y.len(),
            x@ == a@,
            y@ == b@,
            text_less(a@, b@) == text_less_from(a@, b@, i as int),
        decreases y.len() - i,
    {
        if i >= x.len() {
            return true;
        }
        if x[i] != y[i] {
            return x[i] < y[i];
        }
        i += 1;
    }
    false
}

/// Where a method goes into an ordered list, looking from position `p`
/// towards the front: behind every method that does not come after it.
pub open spec fn method_point(sorted: Seq<Seq<char>>, m: Seq<char>, p: nat) -> nat
    decreases p,
{
    if p > 0 && p <= sorted.len() && text_less(m, sorted[p - 1]) {
        method_point(sorted, m, (p - 1) as nat)
    } else {
        p
    }
}

/// An ordered list of methods with one more method, unless it is there.
pub open spec fn method_insert(sorted: Seq<Seq<char>>, m: Seq<char>) -> Seq<Seq<char>> {
    let p = method_point(sorted, m, sorted.len());
    if p > 0 && sorted[p - 1] == m {
        sorted
    } else {
        sorted.insert(p as int, m)
    }
}

/// The methods of the first `n` recorded requests, in the order of strings,
/// each once.
pub open spec fn recorded_methods(recorded: Seq<InteractionView>, n: nat) -> Seq<Seq<char>>
    decreases n,
{
    if n == 0 || n > recorded.len() {
        Seq::empty()
    } else {
        method_insert(recorded_methods(recorded, (n - 1) as nat), recorded[n - 1].request.method)
    }
}

/// The methods on record, in the order of strings, each once.
pub fn list_methods(recorded: &Vec<Interaction>) -> (out: Vec<String>)
    ensures
        out.deep_view() == recorded_methods(
            crate::cassette::interactions_view(recorded@),
            recorded.len() as nat,
        ),
{
    let ghost views = crate::cassette::interactions_view(recorded@);
    let mut list: Vec<String> = Vec::new();
    let mut i: usize = 0;
    assert(list.deep_view() =~= recorded_methods(views, 0));
    while i < recorded.len()
        invariant
            i <= recorded.len(),
            views == crate::cassette::interactions_view(recorded@),
            list.deep_view() == recorded_methods(views, i as nat),
        decreases recorded.len() - i,
    {
        let method = &recorded[i].request.method;
        let ghost before = list.deep_view();
        let mut p: usize = list.len();
        while p > 0 && text_less_than(method.as_str(), list[p - 1].as_str())
            invariant
                p <= list.len(),
                before == list.deep_view(),
                method_point(before, method@, before.len()) == method_point(
                    before,
                    method@,
                    p as nat,
                ),
            decreases p,
        {
            assert(before[p - 1] == list@[p - 1]@);
            p -= 1;
        }
        assert(p > 0 ==> before[p - 1] == list@[p - 1]@);
        if p == 0 || !crate::text::str_eq(list[p - 1].as_str(), method.as_str()) {
            list.insert(p, method.clone());
            assert(list.deep_view() =~= before.insert(p as int, method@));
        }
        assert(views[i as int].request.method == method@);
        i += 1;
    }
    list
}

/// The first `n` of `parts` with `sep` between them.
pub open spec fn joined(parts: Seq<Seq<char>>, sep: Seq<char>, n: nat) -> Seq<char>
    decreases n,
{
    if n == 0 || n > parts.len() {
        Seq::empty()
    } else if n == 1 {
        parts[0]
    } else {
        joined(parts, sep, (n - 1) as nat) + sep + parts[n - 1]
    }
}

/// Appends `parts` to `s` with `sep` between them.
pub fn push_joined(s: &mut String, parts: &Vec<String>, sep: &str)
    ensures
        final(s)@ == old(s)@ + joined(parts.deep_view(), sep@, parts.len() as nat),
{
    let mut i: usize = 0;
    assert(s@ =~= old(s)@ + joined(parts.deep_view(), sep@, 0));
    while i < parts.len()
        invariant
            i <= parts.len(),
            s@ == old(s)@ + joined(parts.deep_view(), sep@, i as nat),
        decreases parts.len() - i,
    {
        if i > 0 {
            s.append(sep);
        }
        s.append(parts[i].as_str());
        assert(parts.deep_view()[i as int] == parts@[i as int]@);
        assert(s@ =~= old(s)@ + joined(parts.deep_view(), sep@, (i + 1) as nat));
        i += 1;
    }
}

/// The lines that list the first `n` similar URLs, numbered from one.
pub open spec fn similar_lines(similar: Seq<(Seq<char>, nat)>, n: nat) -> Seq<char>
    decreases n,
{
    if n == 0 || n > similar.len() {
        Seq::empty()
    } else {
        similar_lines(similar, (n - 1) as nat) + "\n  "@ + crate::text::decimal(n) + ". "@
            + similar[n - 1].0 + " (distance: "@ + crate::text::decimal(similar[n - 1].1) + ")"@
    }
}

/// The message of a failed replay: what was asked for, how much is on
/// record, the nearest recorded URLs and the recorded methods.
pub open spec fn no_match_message(
    mode_description: Seq<char>,
    method: Seq<char>,
    url: Seq<char>,
    recorded: Seq<InteractionView>,
) -> Seq<char> {
    let head = "No matching interaction found in cassette ("@ + mode_description
        + ")\n\nRequest details:\n  Method: "@ + method + "\n  URL: "@ + url;
    if recorded.len() == 0 {
        head + "\n\nCassette is empty - no recorded interactions available."@
    } else {
        let similar = similar_urls(url, recorded);
        head + "\n\nCassette contains "@ + crate::text::decimal(recorded.len())
            + " recorded interactions."@ + (if similar.len() > 0 {
            "\n\nMost similar recorded URLs (by Levenshtein distance):"@ + similar_lines(
                similar,
                similar.len(),
            )
        } else {
            Seq::empty()
        }) + "\n\nRecorded methods: "@ + joined(
            recorded_methods(recorded, recorded.len()),
            ", "@,
            recorded_methods(recorded, recorded.len()).len(),
        )
    }
}

/// Builds the message of a failed replay.
pub fn no_match_text(mode_description: &str, method: &str, url: &str, recorded: &Vec<Interaction>) -> (msg:
    String)
    ensures
        msg@ == no_match_message(
            mode_description@,
            method@,
            url@,
            crate::cassette::interactions_view(recorded@),
        ),
{
    let ghost views = crate::cassette::interactions_view(recorded@);
    let mut msg = String::from_str("No matching interaction found in cassette (");
    msg.append(mode_description);
    msg.append(")\n\nRequest details:\n  Method: ");
    msg.append(method);
    msg.append("\n  URL: ");
    msg.append(url);
    let ghost head = msg@;
    if recorded.len() == 0 {
        msg.append("\n\nCassette is empty - no recorded interactions available.");
        return msg;
    }
    msg.append("\n\nCassette contains ");
    push_decimal(&mut msg, recorded.len());
    msg.append(" recorded interactions.");
    let ghost counted = msg@;
    let similar = find_similar_urls(url, recorded);
    if similar.len() > 0 {
        msg.append("\n\nMost similar recorded URLs (by Levenshtein distance):");
        let ghost titled = msg@;
        let mut i: usize = 0;
        assert(msg@ =~= titled + similar_lines(scores_view(similar@), 0));
        while i < similar.len()
            invariant
                i <= similar.len(),
                msg@ == titled + similar_lines(scores_view(similar@), i as nat),
            decreases similar.len() - i,
        {
            msg.append("\n  ");
            push_decimal(&mut msg, i + 1);
            msg.append(". ");
            msg.append(similar[i].0.as_str());
            msg.append(" (distance: ");
            push_decimal(&mut msg, similar[i].1);
            msg.append(")");
            assert(scores_view(similar@)[i as int] == (similar@[i as int].0@, similar@[i as int].1 as nat));
            assert(msg@ =~= titled + similar_lines(scores_view(similar@), (i + 1) as nat));
            i += 1;
        }
    }
    let ghost listed = msg@;
    assert(listed =~= counted + (if similar_urls(url@, views).len() > 0 {
        "\n\nMost similar recorded URLs (by Levenshtein distance):"@ + similar_lines(
            similar_urls(url@, views),
            similar_urls(url@, views).len(),
        )
    } else {
        Seq::empty()
    }));
    let methods = list_methods(recorded);
    msg.append("\n\nRecorded methods: ");
    push_joined(&mut msg, &methods, ", ");
    assert(msg@ =~= no_match_message(mode_description@, method@, url@, views));
    msg
}

} // verus!
