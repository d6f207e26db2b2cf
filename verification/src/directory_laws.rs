//! A cassette survives being laid out as a directory and loaded again.

use crate::cassette::{
    body_file_name, body_files_of, file_list, first_failure, loaded, loaded_body, manifest_of,
    request_file, response_file, InteractionView,
};
use crate::ordered_map::{has_key, lemma_lookup_right};
use crate::text::{lemma_padded_injective, lemma_padded_len, padded};
use vstd::prelude::*;

verus! {

/// Whether a stored body can be told from the file it is kept in: an inline
/// text is not empty and stands alone, an opaque payload is not empty.
pub open spec fn is_storable_body(body: Option<Seq<char>>, body_base64: Option<Seq<char>>) -> bool {
    match body {
        Some(b) => b.len() > 0 && body_base64.is_none(),
        None => match body_base64 {
            Some(p) => p.len() > 0,
            None => true,
        },
    }
}

/// Whether both bodies of an interaction can be told from their files.
pub open spec fn is_storable(i: InteractionView) -> bool {
    is_storable_body(i.request.body, i.request.body_base64) && is_storable_body(
        i.response.body,
        i.response.body_base64,
    )
}

/// Whether `prefix` is one of the two directions of a body file.
pub open spec fn is_direction(prefix: Seq<char>) -> bool {
    prefix == "req_"@ || prefix == "resp_"@
}

/// The name of a body file ends in `.b64` exactly where the body is an
/// opaque payload.
pub proof fn lemma_name_suffix(prefix: Seq<char>, ordinal: nat, opaque: bool)
    ensures
        ".b64"@.is_suffix_of(body_file_name(prefix, ordinal, opaque)) == opaque,
{
    reveal_strlit(".b64");
    reveal_strlit(".txt");
    let name = body_file_name(prefix, ordinal, opaque);
    let ext = if opaque {
        ".b64"@
    } else {
        ".txt"@
    };
    assert(name.subrange(name.len() - 4, name.len() as int) =~= ext);
    if !opaque {
        assert(".txt"@[1] != ".b64"@[1]);
    }
}

/// Two body files of the same name have the same direction and the same
/// ordinal.
pub proof fn lemma_names_differ(
    first: Seq<char>,
    first_ordinal: nat,
    first_opaque: bool,
    second: Seq<char>,
    second_ordinal: nat,
    second_opaque: bool,
)
    requires
        is_direction(first),
        is_direction(second),
        body_file_name(first, first_ordinal, first_opaque) == body_file_name(second, second_ordinal, second_opaque),
    ensures
        first == second,
        first_ordinal == second_ordinal,
{
    reveal_strlit("req_");
    reveal_strlit("resp_");
    reveal_strlit(".b64");
    reveal_strlit(".txt");
    let first_name = body_file_name(first, first_ordinal, first_opaque);
    let second_name = body_file_name(second, second_ordinal, second_opaque);
    lemma_padded_len(first_ordinal);
    lemma_padded_len(second_ordinal);
    assert(first_name[2] == first[2]);
    assert(second_name[2] == second[2]);
    assert(first == second);
    let first_ext = if first_opaque {
        ".b64"@
    } else {
        ".txt"@
    };
    let second_ext = if second_opaque {
        ".b64"@
    } else {
        ".txt"@
    };
    assert(first_name.len() == first.len() + padded(first_ordinal).len() + 4);
    assert(second_name.len() == second.len() + padded(second_ordinal).len() + 4);
    assert(first_name.subrange(first.len() as int, first_name.len() - 4) =~= padded(first_ordinal));
    assert(second_name.subrange(second.len() as int, second_name.len() - 4) =~= padded(second_ordinal));
    lemma_padded_injective(first_ordinal, second_ordinal);
}

/// Whether `e` is a body file of the interaction at `j`.
pub open spec fn is_file_at(s: Seq<InteractionView>, j: int, e: (Seq<char>, Seq<char>)) -> bool {
    0 <= j < s.len() && (request_file(s[j], (j + 1) as nat) == Some(e) || response_file(
        s[j],
        (j + 1) as nat,
    ) == Some(e))
}

/// Whether `e` is a body file of one of the interactions.
pub open spec fn belongs(s: Seq<InteractionView>, e: (Seq<char>, Seq<char>)) -> bool {
    exists|j: int| is_file_at(s, j, e)
}

/// Every body file belongs to one of the interactions.
pub proof fn lemma_files_belong(s: Seq<InteractionView>)
    ensures
        forall|i: int|
            0 <= i < body_files_of(s).len() ==> belongs(s, #[trigger] body_files_of(s)[i]),
    decreases s.len(),
{
    if s.len() > 0 {
        let front = s.drop_last();
        lemma_files_belong(front);
        let files = body_files_of(s);
        let early = body_files_of(front);
        let req = file_list(request_file(s.last(), s.len()));
        let resp = file_list(response_file(s.last(), s.len()));
        assert(files == early + req + resp);
        assert forall|i: int| 0 <= i < files.len() implies belongs(s, #[trigger] files[i]) by {
            if i < early.len() {
                assert(files[i] == early[i]);
                assert(belongs(front, early[i]));
                let j = choose|j: int| is_file_at(front, j, early[i]);
                assert(front[j] == s[j]);
                assert(is_file_at(s, j, files[i]));
            } else {
                assert(is_file_at(s, s.len() - 1, files[i]));
            }
        }
    } else {
        assert(body_files_of(s).len() == 0);
    }
}

/// The name of a body file of the interaction at `k` is not among the body
/// files of the interactions before it.
pub proof fn lemma_name_is_new(
    s: Seq<InteractionView>,
    k: int,
    prefix: Seq<char>,
    opaque: bool,
)
    requires
        0 <= k < s.len(),
        is_direction(prefix),
    ensures
        !has_key(body_files_of(s.take(k)), body_file_name(prefix, (k + 1) as nat, opaque)),
{
    let early = body_files_of(s.take(k));
    let name = body_file_name(prefix, (k + 1) as nat, opaque);
    lemma_files_belong(s.take(k));
    crate::ordered_map::lemma_position_bounds(early, name, 0);
    if has_key(early, name) {
        let p = crate::ordered_map::position(early, name);
        assert(belongs(s.take(k), early[p]));
        let j = choose|j: int| is_file_at(s.take(k), j, early[p]);
        reveal_strlit("req_");
        reveal_strlit("resp_");
        let i = s.take(k)[j];
        if request_file(i, (j + 1) as nat) == Some(early[p]) {
            let q = i.request.body.is_none();
            lemma_names_differ("req_"@, (j + 1) as nat, q, prefix, (k + 1) as nat, opaque);
        } else {
            let q = i.response.body.is_none();
            lemma_names_differ("resp_"@, (j + 1) as nat, q, prefix, (k + 1) as nat, opaque);
        }
    }
}

/// The body files of the first interactions stay where they are when more
/// interactions follow.
pub proof fn lemma_files_extend(s: Seq<InteractionView>, k: int)
    requires
        0 <= k <= s.len(),
    ensures
        exists|rest: Seq<(Seq<char>, Seq<char>)>|
            body_files_of(s) == #[trigger] (body_files_of(s.take(k)) + rest),
    decreases s.len() - k,
{
    if k == s.len() {
        assert(s.take(k) =~= s);
        assert(body_files_of(s) =~= body_files_of(s.take(k)) + Seq::empty());
    } else {
        lemma_files_extend(s, k + 1);
        let rest = choose|rest: Seq<(Seq<char>, Seq<char>)>|
            body_files_of(s) == #[trigger] (body_files_of(s.take(k + 1)) + rest);
        let next = s.take(k + 1);
        assert(next.drop_last() =~= s.take(k));
        let added = file_list(request_file(next.last(), next.len())) + file_list(
            response_file(next.last(), next.len()),
        );
        assert(body_files_of(s) =~= body_files_of(s.take(k)) + (added + rest));
    }
}

/// Both bodies of the interaction at `k` are loaded as they were stored.
pub proof fn lemma_bodies_load(s: Seq<InteractionView>, k: int)
    requires
        0 <= k < s.len(),
        is_storable(s[k]),
    ensures
        loaded_body(manifest_of(s)[k].request.body, body_files_of(s)) == Some(
            (s[k].request.body, s[k].request.body_base64),
        ),
        loaded_body(manifest_of(s)[k].response.body, body_files_of(s)) == Some(
            (s[k].response.body, s[k].response.body_base64),
        ),
{
    reveal_strlit("req_");
    reveal_strlit("resp_");
    let files = body_files_of(s);
    let early = body_files_of(s.take(k));
    let upto = s.take(k + 1);
    assert(upto.drop_last() =~= s.take(k));
    assert(upto.last() == s[k]);
    let ordinal = (k + 1) as nat;
    let req = request_file(s[k], ordinal);
    let resp = response_file(s[k], ordinal);
    lemma_files_extend(s, k + 1);
    let rest = choose|rest: Seq<(Seq<char>, Seq<char>)>|
        body_files_of(s) == #[trigger] (body_files_of(upto) + rest);
    let own = file_list(req) + file_list(resp);
    assert(body_files_of(upto) =~= early + own);
    assert(files =~= early + (own + rest));
    match req {
        Some(file) => {
            let opaque = s[k].request.body.is_none();
            assert(file.0 == body_file_name("req_"@, ordinal, opaque));
            lemma_name_is_new(s, k, "req_"@, opaque);
            lemma_lookup_right(early, own + rest, file.0);
            assert((own + rest)[0] == file);
            crate::ordered_map::lemma_position_is(own + rest, file.0, 0, 0);
            lemma_name_suffix("req_"@, ordinal, opaque);
        },
        None => {},
    }
    match resp {
        Some(file) => {
            let opaque = s[k].response.body.is_none();
            assert(file.0 == body_file_name("resp_"@, ordinal, opaque));
            lemma_name_is_new(s, k, "resp_"@, opaque);
            lemma_lookup_right(early, own + rest, file.0);
            match req {
                Some(other) => {
                    let other_opaque = s[k].request.body.is_none();
                    if other.0 == file.0 {
                        lemma_names_differ(
                            "req_"@,
                            ordinal,
                            other_opaque,
                            "resp_"@,
                            ordinal,
                            opaque,
                        );
                    }
                    assert((own + rest)[0] == other);
                    assert((own + rest)[1] == file);
                    crate::ordered_map::lemma_position_is(own + rest, file.0, 1, 0);
                },
                None => {
                    assert((own + rest)[0] == file);
                    crate::ordered_map::lemma_position_is(own + rest, file.0, 0, 0);
                },
            }
            lemma_name_suffix("resp_"@, ordinal, opaque);
        },
        None => {},
    }
}

/// No entry among the first `n` of the manifest fails to load.
proof fn lemma_no_failure(s: Seq<InteractionView>, n: int)
    requires
        0 <= n <= s.len(),
        forall|k: int| 0 <= k < s.len() ==> is_storable(#[trigger] s[k]),
    ensures
        first_failure(manifest_of(s).take(n), body_files_of(s)).is_none(),
    decreases n,
{
    if n > 0 {
        lemma_no_failure(s, n - 1);
        lemma_bodies_load(s, n - 1);
        assert(manifest_of(s).take(n).drop_last() =~= manifest_of(s).take(n - 1));
        assert(manifest_of(s).take(n).last() == manifest_of(s)[n - 1]);
    }
}

/// Round trip through the directory shape. Where every body can be told
/// from the file it is kept in, loading the manifest and the body files of
/// a list of interactions gives the same interactions: no entry fails, and
/// each interaction is loaded as it was stored.
pub proof fn lemma_directory_round_trip(s: Seq<InteractionView>)
    requires
        forall|k: int| 0 <= k < s.len() ==> is_storable(#[trigger] s[k]),
    ensures
        first_failure(manifest_of(s), body_files_of(s)).is_none(),
        loaded(manifest_of(s), body_files_of(s)) == s,
{
    lemma_no_failure(s, s.len() as int);
    assert(manifest_of(s).take(s.len() as int) =~= manifest_of(s));
    assert forall|k: int| 0 <= k < s.len() implies loaded(manifest_of(s), body_files_of(s))[k]
        == s[k] by {
        lemma_bodies_load(s, k);
    }
    assert(loaded(manifest_of(s), body_files_of(s)) =~= s);
}

} // verus!
