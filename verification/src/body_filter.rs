//! The body filter: in a JSON body it removes and replaces keys at every
//! depth; in any other body it applies pattern replacements in order.

use crate::error::{ErrorKind, VcrError};
use crate::filter::{names_view, Filter};
use crate::json::{
    clone_number, items_view, json_parsed, json_text, lemma_array_view, lemma_object_view,
    members_view, parse, to_text, JsonMember, JsonValue, JsonView,
};
use crate::ordered_map::{has_key, lookup, with_entry, Fields};
use crate::pattern::{compiles, pattern_compiles, pattern_replaced, replace_all};
use crate::serializable::{RequestView, ResponseView, SerializableRequest, SerializableResponse};
use crate::text::{concat, opt_view, str_eq};
use vstd::prelude::*;
use vstd::string::*;

verus! {

/// A JSON tree with keys removed and replaced at every depth.
pub open spec fn json_filtered(
    tree: JsonView,
    remove: Seq<Seq<char>>,
    replace: Seq<(Seq<char>, Seq<char>)>,
) -> JsonView
    decreases tree, 0nat,
{
    match tree {
        JsonView::Array(items) => JsonView::Array(
            items_filtered(items, items.len(), remove, replace),
        ),
        JsonView::Object(members) => JsonView::Object(
            members_filtered(members, members.len(), remove, replace),
        ),
        other => other,
    }
}

/// The first `n` items of an array, each filtered.
pub open spec fn items_filtered(
    items: Seq<JsonView>,
    n: nat,
    remove: Seq<Seq<char>>,
    replace: Seq<(Seq<char>, Seq<char>)>,
) -> Seq<JsonView>
    decreases items, n,
{
    if n == 0 || n > items.len() {
        Seq::empty()
    } else {
        items_filtered(items, (n - 1) as nat, remove, replace).push(
            json_filtered(items[n - 1], remove, replace),
        )
    }
}

/// The first `n` members of an object, filtered: a member whose key is to be
/// removed is dropped; one whose key is to be replaced gets the replacement
/// as a string; any other keeps its key and has its value filtered.
pub open spec fn members_filtered(
    members: Seq<(Seq<char>, JsonView)>,
    n: nat,
    remove: Seq<Seq<char>>,
    replace: Seq<(Seq<char>, Seq<char>)>,
) -> Seq<(Seq<char>, JsonView)>
    decreases members, n,
{
    if n == 0 || n > members.len() {
        Seq::empty()
    } else {
        let rest = members_filtered(members, (n - 1) as nat, remove, replace);
        let member = members[n - 1];
        if remove.contains(member.0) {
            rest
        } else if has_key(replace, member.0) {
            rest.push((member.0, JsonView::String(lookup(replace, member.0).unwrap())))
        } else {
            rest.push((member.0, json_filtered(member.1, remove, replace)))
        }
    }
}

/// A text after the first `n` pattern replacements, applied in order.
pub open spec fn patterns_applied(
    text: Seq<char>,
    patterns: Seq<(Seq<char>, Seq<char>)>,
    n: nat,
) -> Seq<char>
    decreases n,
{
    if n == 0 || n > patterns.len() {
        text
    } else {
        pattern_replaced(
            patterns[n - 1].0,
            patterns_applied(text, patterns, (n - 1) as nat),
            patterns[n - 1].1,
        )
    }
}

/// A body after filtering. A body that parses as JSON has its keys filtered
/// and is written again; it stays as it is where it cannot be written. Any
/// other body has the patterns applied.
pub open spec fn body_filtered(
    text: Seq<char>,
    remove: Seq<Seq<char>>,
    replace: Seq<(Seq<char>, Seq<char>)>,
    patterns: Seq<(Seq<char>, Seq<char>)>,
) -> Seq<char> {
    match json_parsed(text) {
        Some(tree) => match json_text(json_filtered(tree, remove, replace)) {
            Some(written) => written,
            None => text,
        },
        None => patterns_applied(text, patterns, patterns.len()),
    }
}

/// Whether `key` is among `names`.
pub fn contains_name(names: &Vec<String>, key: &str) -> (r: bool)
    ensures
        r == names_view(names@).contains(key@),
{
    let mut i: usize = 0;
    while i < names.len()
        invariant
            i <= names.len(),
            forall|k: int| 0 <= k < i ==> names_view(names@)[k] != key@,
        decreases names.len() - i,
    {
        if str_eq(names[i].as_str(), key) {
            assert(names_view(names@)[i as int] == key@);
            return true;
        }
        i += 1;
    }
    false
}

/// Patterns with their replacements, as plain text.
pub open spec fn patterns_view(patterns: Seq<(String, String)>) -> Seq<(Seq<char>, Seq<char>)> {
    patterns.map_values(|p: (String, String)| (p.0@, p.1@))
}

/// Removes and replaces keys in JSON bodies, and applies pattern
/// replacements to other bodies.
#[derive(Debug)]
pub struct BodyFilter {
    json_keys_to_remove: Vec<String>,
    json_keys_to_replace: Fields,
    regex_replacements: Vec<(String, String)>,
}

impl BodyFilter {
    #[verifier::type_invariant]
    spec fn patterns_compile(&self) -> bool {
        forall|i: int|
            0 <= i < self.regex_replacements@.len() ==> pattern_compiles(
                (#[trigger] self.regex_replacements@[i]).0@,
            )
    }

    /// The keys that are removed.
    pub closed spec fn removed(&self) -> Seq<Seq<char>> {
        names_view(self.json_keys_to_remove@)
    }

    /// The keys whose values are replaced, with the replacements.
    pub closed spec fn replaced(&self) -> Seq<(Seq<char>, Seq<char>)> {
        self.json_keys_to_replace@
    }

    /// The patterns with their replacements, in the order given.
    pub closed spec fn patterns(&self) -> Seq<(Seq<char>, Seq<char>)> {
        patterns_view(self.regex_replacements@)
    }

    /// What the filter makes of a body.
    pub open spec fn filtered(&self, body: Option<Seq<char>>) -> Option<Seq<char>> {
        match body {
            Some(text) => Some(
                body_filtered(text, self.removed(), self.replaced(), self.patterns()),
            ),
            None => None,
        }
    }

    /// A filter that changes nothing in JSON and has no pattern.
    pub fn new() -> (f: Self)
        ensures
            f.removed().len() == 0,
            f.replaced().len() == 0,
            f.patterns().len() == 0,
    {
        BodyFilter {
            json_keys_to_remove: Vec::new(),
            json_keys_to_replace: Fields::new(),
            regex_replacements: Vec::new(),
        }
    }

    /// Also removes `key` from JSON objects.
    pub fn remove_json_key(self, key: &str) -> (f: Self)
        ensures
            f.removed() == self.removed().push(key@),
            f.replaced() == self.replaced(),
            f.patterns() == self.patterns(),
    {
        proof {
            use_type_invariant(&self);
        }
        let mut names = self.json_keys_to_remove;
        names.push(String::from_str(key));
        let f = BodyFilter {
            json_keys_to_remove: names,
            json_keys_to_replace: self.json_keys_to_replace,
            regex_replacements: self.regex_replacements,
        };
        assert(f.removed() =~= self.removed().push(key@));
        f
    }

    /// Also replaces the value under `key` in JSON objects by the string
    /// `replacement`.
    pub fn replace_json_key(self, key: &str, replacement: &str) -> (f: Self)
        ensures
            f.removed() == self.removed(),
            f.replaced() == with_entry(self.replaced(), key@, replacement@),
            f.patterns() == self.patterns(),
    {
        proof {
            use_type_invariant(&self);
        }
        let mut replace = self.json_keys_to_replace;
        replace.insert(String::from_str(key), String::from_str(replacement));
        BodyFilter {
            json_keys_to_remove: self.json_keys_to_remove,
            json_keys_to_replace: replace,
            regex_replacements: self.regex_replacements,
        }
    }

    /// Also replaces every match of `pattern` in a body that is no JSON.
    /// Fails on a pattern that does not compile.
    pub fn replace_regex(self, pattern: &str, replacement: &str) -> (r: Result<Self, VcrError>)
        ensures
            match r {
                Ok(f) => {
                    &&& pattern_compiles(pattern@)
                    &&& f.removed() == self.removed()
                    &&& f.replaced() == self.replaced()
                    &&& f.patterns() == self.patterns().push((pattern@, replacement@))
                },
                Err(e) => {
                    &&& !pattern_compiles(pattern@)
                    &&& e.kind == ErrorKind::InvalidConfiguration
                    &&& e.status == 400
                    &&& e.message@ == "Invalid pattern: "@ + pattern@
                },
            },
    {
        proof {
            use_type_invariant(&self);
        }
        if !compiles(pattern) {
            return Err(
                VcrError::new(
                    ErrorKind::InvalidConfiguration,
                    400,
                    concat("Invalid pattern: ", pattern),
                ),
            );
        }
        let mut patterns = self.regex_replacements;
        patterns.push((String::from_str(pattern), String::from_str(replacement)));
        let f = BodyFilter {
            json_keys_to_remove: self.json_keys_to_remove,
            json_keys_to_replace: self.json_keys_to_replace,
            regex_replacements: patterns,
        };
        assert(f.patterns() =~= self.patterns().push((pattern@, replacement@)));
        Ok(f)
    }

    /// Also removes the keys under which secrets are commonly kept.
    pub fn remove_common_sensitive_keys(self) -> (f: Self)
        ensures
            f.removed() == self.removed().push("password"@).push("token"@).push("api_key"@).push(
                "secret"@,
            ).push("access_token"@).push("refresh_token"@).push("client_secret"@),
            f.replaced() == self.replaced(),
            f.patterns() == self.patterns(),
    {
        self.remove_json_key("password").remove_json_key("token").remove_json_key(
            "api_key",
        ).remove_json_key("secret").remove_json_key("access_token").remove_json_key(
            "refresh_token",
        ).remove_json_key("client_secret")
    }

    /// Filters the members of a JSON object.
    pub fn filter_json_object(&self, members: &Vec<JsonMember>) -> (out: Vec<JsonMember>)
        ensures
            members_view(out@) == members_filtered(
                members_view(members@),
                members.len() as nat,
                self.removed(),
                self.replaced(),
            ),
        decreases members,
    {
        let ghost source = members_view(members@);
        let mut out: Vec<JsonMember> = Vec::new();
        let mut i: usize = 0;
        assert(members_view(out@) =~= members_filtered(source, 0, self.removed(), self.replaced()));
        while i < members.len()
            invariant
                i <= members.len(),
                source == members_view(members@),
                members_view(out@) == members_filtered(
                    source,
                    i as nat,
                    self.removed(),
                    self.replaced(),
                ),
            decreases members.len() - i,
        {
            let ghost before = members_view(out@);
            let member = &members[i];
            if !contains_name(&self.json_keys_to_remove, member.key.as_str()) {
                match self.json_keys_to_replace.get(member.key.as_str()) {
                    Some(replacement) => {
                        out.push(
                            JsonMember {
                                key: member.key.clone(),
                                value: JsonValue::String(replacement.clone()),
                            },
                        );
                        assert(members_view(out@) =~= before.push(
                            (member.key@, JsonView::String(replacement@)),
                        ));
                    },
                    None => {
                        assert(decreases_to!(*members => members[i as int]));
                        let value = self.filter_json_value(&member.value);
                        out.push(JsonMember { key: member.key.clone(), value });
                        assert(members_view(out@) =~= before.push((member.key@, value@)));
                    },
                }
            }
            i += 1;
        }
        out
    }

    /// Filters a JSON value: objects have their members filtered, arrays
    /// their items; anything else stays.
    pub fn filter_json_value(&self, value: &JsonValue) -> (out: JsonValue)
        ensures
            out@ == json_filtered(value@, self.removed(), self.replaced()),
        decreases value,
    {
        match value {
            JsonValue::Null => JsonValue::Null,
            JsonValue::Bool(b) => JsonValue::Bool(*b),
            JsonValue::Number(n) => JsonValue::Number(clone_number(n)),
            JsonValue::String(s) => JsonValue::String(s.clone()),
            JsonValue::Array(items) => {
                let mut out: Vec<JsonValue> = Vec::new();
                let mut i: usize = 0;
                let ghost source = items_view(items@);
                assert(items_view(out@) =~= items_filtered(
                    source,
                    0,
                    self.removed(),
                    self.replaced(),
                ));
                while i < items.len()
                    invariant
                        i <= items.len(),
                        *value is Array,
                        *items == value->Array_0,
                        decreases_to!(*value => value->Array_0),
                        source == items_view(items@),
                        items_view(out@) == items_filtered(
                            source,
                            i as nat,
                            self.removed(),
                            self.replaced(),
                        ),
                    decreases items.len() - i,
                {
                    let ghost before = items_view(out@);
                    assert(decreases_to!(*items => items[i as int]));
                    let item = self.filter_json_value(&items[i]);
                    out.push(item);
                    assert(items_view(out@) =~= before.push(item@));
                    i += 1;
                }
                proof {
                    lemma_array_view(*items);
                    lemma_array_view(out);
                }
                JsonValue::Array(out)
            },
            JsonValue::Object(members) => {
                let out = self.filter_json_object(members);
                proof {
                    lemma_object_view(*members);
                    lemma_object_view(out);
                }
                JsonValue::Object(out)
            },
        }
    }

    /// Filters a body in place.
    pub fn filter_body(&self, body: &mut Option<String>)
        ensures
            opt_view(*final(body)) == self.filtered(opt_view(*old(body))),
    {
        proof {
            use_type_invariant(self);
        }
        let text = match body {
            Some(t) => t.clone(),
            None => {
                return ;
            },
        };
        match parse(text.as_str()) {
            Some(tree) => {
                let filtered = self.filter_json_value(&tree);
                match to_text(&filtered) {
                    Some(written) => {
                        *body = Some(written);
                    },
                    None => {},
                }
            },
            None => {
                let mut current = text;
                let mut i: usize = 0;
                while i < self.regex_replacements.len()
                    invariant
                        i <= self.regex_replacements.len(),
                        forall|k: int|
                            0 <= k < self.regex_replacements@.len() ==> pattern_compiles(
                                (#[trigger] self.regex_replacements@[k]).0@,
                            ),
                        current@ == patterns_applied(old(body).unwrap()@, self.patterns(), i as nat),
                    decreases self.regex_replacements.len() - i,
                {
                    current = replace_all(
                        self.regex_replacements[i].0.as_str(),
                        current.as_str(),
                        self.regex_replacements[i].1.as_str(),
                    );
                    i += 1;
                }
                *body = Some(current);
            },
        }
    }
}

impl Filter for BodyFilter {
    open spec fn request_outcome(&self, before: RequestView, after: RequestView) -> bool {
        after == RequestView { body: self.filtered(before.body), ..before }
    }

    open spec fn response_outcome(&self, before: ResponseView, after: ResponseView) -> bool {
        after == ResponseView { body: self.filtered(before.body), ..before }
    }

    fn filter_request(&self, request: &mut SerializableRequest) {
        self.filter_body(&mut request.body);
    }

    fn filter_response(&self, response: &mut SerializableResponse) {
        self.filter_body(&mut response.body);
    }
}

impl Default for BodyFilter {
    fn default() -> (f: Self)
        ensures
            f.removed().len() == 0,
            f.replaced().len() == 0,
            f.patterns().len() == 0,
    {
        BodyFilter::new()
    }
}

} // verus!
