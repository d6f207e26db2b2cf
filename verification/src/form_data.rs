//! URL-encoded form data: reading it, writing it, and finding the fields
//! that look like credentials.

use crate::diagnostics::{joined, push_joined};
use crate::encoding::{percent_decode, percent_decoded, percent_encode, percent_encoded};
use crate::ordered_map::{has_key, with_entry, Fields};
use crate::text::{
    byte_len, concat, contains_str, index_of_char, is_letter_or_digit, is_substring,
    letter_or_digit, lower_case, lowercase, pieces, split, split_once, to_chars, upper_case,
    uppercase,
};
use vstd::prelude::*;
use vstd::string::*;
use vstd::utf8::*;

verus! {

/// A text after percent-decoding, or the text itself where the decoded
/// bytes are no UTF-8.
pub open spec fn decoded_or_raw(s: Seq<char>) -> Seq<char> {
    match percent_decoded(s) {
        Some(d) => d,
        None => s,
    }
}

/// The fields of the first `n` of `parts`: a part with `=` gives a field,
/// named by what stands before the first `=`; a later field of the same
/// name takes the place of the earlier one; a part without `=` gives none.
pub open spec fn fields_from(parts: Seq<Seq<char>>, n: nat) -> Seq<(Seq<char>, Seq<char>)>
    decreases n,
{
    if n == 0 || n > parts.len() {
        Seq::empty()
    } else {
        let prev = fields_from(parts, (n - 1) as nat);
        let part = parts[n - 1];
        let at = index_of_char(part, '=', 0);
        if at < part.len() {
            with_entry(prev, decoded_or_raw(part.take(at)), decoded_or_raw(part.skip(at + 1)))
        } else {
            prev
        }
    }
}

/// The fields of URL-encoded form data.
pub open spec fn form_fields(data: Seq<char>) -> Seq<(Seq<char>, Seq<char>)> {
    fields_from(pieces(data, '&'), pieces(data, '&').len())
}

/// Percent-decodes a text, or copies it where that fails.
fn decode_or_copy(s: &str) -> (r: String)
    ensures
        r@ == decoded_or_raw(s@),
{
    match percent_decode(s) {
        Some(d) => d,
        None => String::from_str(s),
    }
}

/// Reads URL-encoded form data into its fields.
pub fn parse_form_data(data: &str) -> (params: Fields)
    ensures
        params@ == form_fields(data@),
{
    let parts = split(data, '&');
    let mut params = Fields::new();
    let mut i: usize = 0;
    while i < parts.len()
        invariant
            i <= parts.len(),
            params@ == fields_from(parts.deep_view(), i as nat),
        decreases parts.len() - i,
    {
        assert(parts.deep_view()[i as int] == parts@[i as int]@);
        match split_once(parts[i].as_str(), '=') {
            Some(pair) => {
                let key = decode_or_copy(pair.0.as_str());
                let value = decode_or_copy(pair.1.as_str());
                params.insert(key, value);
            },
            None => {},
        }
        i += 1;
    }
    params
}

/// A field as it stands in URL-encoded form data.
pub open spec fn encoded_pair(key: Seq<char>, value: Seq<char>) -> Seq<char> {
    percent_encoded(encode_utf8(key)) + "="@ + percent_encoded(encode_utf8(value))
}

/// The fields as they stand in URL-encoded form data, one text each.
pub open spec fn encoded_pairs(fields: Seq<(Seq<char>, Seq<char>)>) -> Seq<Seq<char>> {
    Seq::new(fields.len(), |i: int| encoded_pair(fields[i].0, fields[i].1))
}

/// The URL-encoded form data of a list of fields, in their order.
pub open spec fn form_text(fields: Seq<(Seq<char>, Seq<char>)>) -> Seq<char> {
    joined(encoded_pairs(fields), "&"@, fields.len())
}

/// Writes fields as URL-encoded form data.
pub fn encode_form_data(params: &Fields) -> (out: String)
    ensures
        out@ == form_text(params@),
{
    let mut pairs: Vec<String> = Vec::new();
    let mut i: usize = 0;
    while i < params.len()
        invariant
            i <= params@.len(),
            pairs.len() == i,
            forall|k: int| 0 <= k < i ==> (#[trigger] pairs@[k])@ == encoded_pairs(params@)[k],
        decreases params@.len() - i,
    {
        let mut pair = percent_encode(params.key_at(i).as_str());
        pair.append("=");
        pair.append(percent_encode(params.value_at(i).as_str()).as_str());
        pairs.push(pair);
        i += 1;
    }
    assert(pairs.deep_view() =~= encoded_pairs(params@));
    let mut out = String::new();
    push_joined(&mut out, &pairs, "&");
    assert(out@ =~= form_text(params@));
    out
}

/// The parts of field names that point to a credential.
pub open spec fn credential_patterns() -> Seq<Seq<char>> {
    seq![
        "username"@,
        "user"@,
        "login"@,
        "email"@,
        "username_or_email"@,
        "user_name"@,
        "password"@,
        "pass"@,
        "passwd"@,
        "pwd"@,
        "secret"@,
        "_token"@,
        "session"@,
        "sessionid"@,
        "sid"@,
        "auth"@,
        "authorization"@,
        "api_key"@,
        "apikey"@,
        "key"@,
        "client_secret"@,
        "access_token"@,
        "refresh_token"@,
    ]
}

/// Whether the lower-case form of a field name holds one of the
/// credential patterns.
pub open spec fn is_credential_name(key: Seq<char>) -> bool {
    exists|k: int|
        0 <= k < credential_patterns().len() && is_substring(
            #[trigger] credential_patterns()[k],
            lower_case(key),
        )
}

/// Whether a value looks like a token: longer than ten bytes, letters and
/// digits only.
pub open spec fn is_token_like(value: Seq<char>) -> bool {
    encode_utf8(value).len() > 10 && forall|i: int|
        0 <= i < value.len() ==> is_letter_or_digit(#[trigger] value[i])
}

/// The credentials among the first `n` fields: a field whose name is a
/// credential name, and again a field whose value looks like a token.
pub open spec fn credentials_among(fields: Seq<(Seq<char>, Seq<char>)>, n: nat) -> Seq<
    (Seq<char>, Seq<char>),
>
    decreases n,
{
    if n == 0 || n > fields.len() {
        Seq::empty()
    } else {
        let prev = credentials_among(fields, (n - 1) as nat);
        let field = fields[n - 1];
        let named = if is_credential_name(field.0) {
            prev.push(field)
        } else {
            prev
        };
        if is_token_like(field.1) {
            named.push(field)
        } else {
            named
        }
    }
}

/// Plain pairs of strings.
pub open spec fn fields_view(fields: Seq<(String, String)>) -> Seq<(Seq<char>, Seq<char>)> {
    fields.map_values(|f: (String, String)| (f.0@, f.1@))
}

/// The credential patterns, as strings.
fn pattern_list() -> (v: Vec<String>)
    ensures
        v.deep_view() == credential_patterns(),
{
    let mut v: Vec<String> = Vec::new();
    v.push(String::from_str("username"));
    v.push(String::from_str("user"));
    v.push(String::from_str("login"));
    v.push(String::from_str("email"));
    v.push(String::from_str("username_or_email"));
    v.push(String::from_str("user_name"));
    v.push(String::from_str("password"));
    v.push(String::from_str("pass"));
    v.push(String::from_str("passwd"));
    v.push(String::from_str("pwd"));
    v.push(String::from_str("secret"));
    v.push(String::from_str("_token"));
    v.push(String::from_str("session"));
    v.push(String::from_str("sessionid"));
    v.push(String::from_str("sid"));
    v.push(String::from_str("auth"));
    v.push(String::from_str("authorization"));
    v.push(String::from_str("api_key"));
    v.push(String::from_str("apikey"));
    v.push(String::from_str("key"));
    v.push(String::from_str("client_secret"));
    v.push(String::from_str("access_token"));
    v.push(String::from_str("refresh_token"));
    assert(v.deep_view() =~= credential_patterns());
    v
}

/// Whether a field name is a credential name.
fn credential_name(key: &str, patterns: &Vec<String>) -> (r: bool)
    requires
        patterns.deep_view() == credential_patterns(),
    ensures
        r == is_credential_name(key@),
{
    let key_lower = lowercase(key);
    let mut k: usize = 0;
    while k < patterns.len()
        invariant
            k <= patterns.len(),
            patterns.deep_view() == credential_patterns(),
            key_lower@ == lower_case(key@),
            forall|j: int|
                0 <= j < k ==> !is_substring(#[trigger] credential_patterns()[j], lower_case(key@)),
        decreases patterns.len() - k,
    {
        assert(patterns.deep_view()[k as int] == patterns@[k as int]@);
        if contains_str(key_lower.as_str(), patterns[k].as_str()) {
            return true;
        }
        k += 1;
    }
    false
}

/// Whether a value looks like a token.
fn token_like(value: &str) -> (r: bool)
    ensures
        r == is_token_like(value@),
{
    if byte_len(value) <= 10 {
        return false;
    }
    let v = to_chars(value);
    let mut i: usize = 0;
    while i < v.len()
        invariant
            i <= v.len(),
            v@ == value@,
            encode_utf8(value@).len() > 10,
            forall|j: int| 0 <= j < i ==> is_letter_or_digit(#[trigger] value@[j]),
        decreases v.len() - i,
    {
        if !letter_or_digit(v[i]) {
            return false;
        }
        i += 1;
    }
    true
}

/// The fields that look like credentials, in the order of the fields.
pub fn find_credential_fields(params: &Fields) -> (credentials: Vec<(String, String)>)
    ensures
        fields_view(credentials@) == credentials_among(params@, params@.len()),
{
    let patterns = pattern_list();
    let mut credentials: Vec<(String, String)> = Vec::new();
    let mut i: usize = 0;
    assert(fields_view(credentials@) =~= credentials_among(params@, 0));
    while i < params.len()
        invariant
            i <= params@.len(),
            patterns.deep_view() == credential_patterns(),
            fields_view(credentials@) == credentials_among(params@, i as nat),
        decreases params@.len() - i,
    {
        let key = params.key_at(i);
        let value = params.value_at(i);
        let ghost before = fields_view(credentials@);
        if credential_name(key.as_str(), &patterns) {
            credentials.push((key.clone(), value.clone()));
            assert(fields_view(credentials@) =~= before.push((key@, value@)));
        }
        let ghost named = fields_view(credentials@);
        if token_like(value.as_str()) {
            credentials.push((key.clone(), value.clone()));
            assert(fields_view(credentials@) =~= named.push((key@, value@)));
        }
        i += 1;
    }
    credentials
}

/// The value that takes the place of a credential.
pub open spec fn mask(replacement: Seq<char>, key: Seq<char>) -> Seq<char> {
    replacement + "_"@ + upper_case(key)
}

/// `fields` after the first `n` of `credentials` have been masked.
pub open spec fn masked(
    fields: Seq<(Seq<char>, Seq<char>)>,
    credentials: Seq<(Seq<char>, Seq<char>)>,
    n: nat,
    replacement: Seq<char>,
) -> Seq<(Seq<char>, Seq<char>)>
    decreases n,
{
    if n == 0 || n > credentials.len() {
        fields
    } else {
        let prev = masked(fields, credentials, (n - 1) as nat, replacement);
        let key = credentials[n - 1].0;
        if has_key(prev, key) {
            with_entry(prev, key, mask(replacement, key))
        } else {
            prev
        }
    }
}

/// Form data with the value of every credential replaced by
/// `replacement`, `_` and the field name in upper case.
pub open spec fn form_filtered(data: Seq<char>, replacement: Seq<char>) -> Seq<char> {
    let fields = form_fields(data);
    let credentials = credentials_among(fields, fields.len());
    form_text(masked(fields, credentials, credentials.len(), replacement))
}

/// Replaces the values of the credentials in form data.
pub fn filter_form_data(data: &str, replacement_pattern: &str) -> (out: String)
    ensures
        out@ == form_filtered(data@, replacement_pattern@),
{
    let mut params = parse_form_data(data);
    let credentials = find_credential_fields(&params);
    let ghost fields = params@;
    let mut i: usize = 0;
    while i < credentials.len()
        invariant
            i <= credentials.len(),
            params@ == masked(fields, fields_view(credentials@), i as nat, replacement_pattern@),
        decreases credentials.len() - i,
    {
        let key = &credentials[i].0;
        assert(fields_view(credentials@)[i as int].0 == key@);
        if params.contains_key(key.as_str()) {
            let mut value = concat(replacement_pattern, "_");
            value.append(uppercase(key.as_str()).as_str());
            assert(value@ =~= mask(replacement_pattern@, key@));
            params.insert(key.clone(), value);
        }
        i += 1;
    }
    encode_form_data(&params)
}

/// What form data holds.
#[derive(Debug)]
pub struct FormDataAnalysis {
    pub total_fields: usize,
    pub credential_fields: Vec<(String, String)>,
    pub all_fields: Fields,
}

/// Reads form data and finds the credentials in it.
pub fn analyze_form_data(data: &str) -> (analysis: FormDataAnalysis)
    ensures
        analysis.all_fields@ == form_fields(data@),
        analysis.total_fields == form_fields(data@).len(),
        fields_view(analysis.credential_fields@) == credentials_among(
            form_fields(data@),
            form_fields(data@).len(),
        ),
{
    let params = parse_form_data(data);
    let credentials = find_credential_fields(&params);
    FormDataAnalysis {
        total_fields: params.len(),
        credential_fields: credentials,
        all_fields: params,
    }
}

/// The lines that show the first `n` of `fields`, each value cut to
/// `limit` bytes.
pub open spec fn field_lines(fields: Seq<(Seq<char>, Seq<char>)>, n: nat, limit: nat) -> Seq<
    Seq<char>,
>
    decreases n,
{
    if n == 0 || n > fields.len() {
        Seq::empty()
    } else {
        field_lines(fields, (n - 1) as nat, limit).push(
            "    "@ + fields[n - 1].0 + ": "@ + crate::text::preview(fields[n - 1].1, limit),
        )
    }
}

/// The summary of an analysis, line by line: the counts, the credentials
/// if there are any, and all fields.
pub open spec fn summary_lines(
    total: nat,
    credentials: Seq<(Seq<char>, Seq<char>)>,
    fields: Seq<(Seq<char>, Seq<char>)>,
) -> Seq<Seq<char>> {
    seq![
        "Form Data Analysis:"@,
        "  Total fields: "@ + crate::text::decimal(total),
        "  Credential fields found: "@ + crate::text::decimal(credentials.len()),
    ] + (if credentials.len() > 0 {
        seq!["  Sensitive fields:"@] + field_lines(credentials, credentials.len(), 20)
    } else {
        Seq::empty()
    }) + seq!["  All fields:"@] + field_lines(fields, fields.len(), 50)
}

/// One line of a summary.
fn field_line(key: &str, value: &str, limit: usize) -> (line: String)
    ensures
        line@ == "    "@ + key@ + ": "@ + crate::text::preview(value@, limit as nat),
{
    let mut line = concat("    ", key);
    line.append(": ");
    line.append(crate::text::preview_of(value, limit).as_str());
    line
}

impl FormDataAnalysis {
    /// The summary of the analysis, line by line, for printing.
    pub fn print_summary(&self) -> (lines: Vec<String>)
        ensures
            lines.deep_view() == summary_lines(
                self.total_fields as nat,
                fields_view(self.credential_fields@),
                self.all_fields@,
            ),
    {
        let ghost credentials = fields_view(self.credential_fields@);
        let mut lines: Vec<String> = Vec::new();
        lines.push(String::from_str("Form Data Analysis:"));
        lines.push(crate::text::numbered("  Total fields: ", self.total_fields));
        lines.push(
            crate::text::numbered("  Credential fields found: ", self.credential_fields.len()),
        );
        let ghost head = lines.deep_view();
        assert(head =~~= seq![
            "Form Data Analysis:"@,
            "  Total fields: "@ + crate::text::decimal(self.total_fields as nat),
            "  Credential fields found: "@ + crate::text::decimal(credentials.len()),
        ]);
        if self.credential_fields.len() > 0 {
            lines.push(String::from_str("  Sensitive fields:"));
            let ghost titled = lines.deep_view();
            assert(titled =~= head + seq!["  Sensitive fields:"@]);
            let mut i: usize = 0;
            assert(lines.deep_view() =~= titled + field_lines(credentials, 0, 20));
            while i < self.credential_fields.len()
                invariant
                    i <= self.credential_fields.len(),
                    credentials == fields_view(self.credential_fields@),
                    lines.deep_view() == titled + field_lines(credentials, i as nat, 20),
                decreases self.credential_fields.len() - i,
            {
                let ghost before = lines.deep_view();
                let line = field_line(
                    self.credential_fields[i].0.as_str(),
                    self.credential_fields[i].1.as_str(),
                    20,
                );
                lines.push(line);
                assert(lines.deep_view() =~= before.push(line@));
                assert(credentials[i as int] == (
                    self.credential_fields@[i as int].0@,
                    self.credential_fields@[i as int].1@,
                ));
                i += 1;
                assert(lines.deep_view() =~= titled + field_lines(credentials, i as nat, 20));
            }
        }
        let ghost listed = lines.deep_view();
        assert(listed =~= head + (if credentials.len() > 0 {
            seq!["  Sensitive fields:"@] + field_lines(credentials, credentials.len(), 20)
        } else {
            Seq::empty()
        }));
        lines.push(String::from_str("  All fields:"));
        let ghost titled = lines.deep_view();
        assert(titled =~= listed + seq!["  All fields:"@]);
        let mut i: usize = 0;
        assert(lines.deep_view() =~= titled + field_lines(self.all_fields@, 0, 50));
        while i < self.all_fields.len()
            invariant
                i <= self.all_fields@.len(),
                lines.deep_view() == titled + field_lines(self.all_fields@, i as nat, 50),
            decreases self.all_fields@.len() - i,
        {
            let ghost before = lines.deep_view();
            let line = field_line(
                self.all_fields.key_at(i).as_str(),
                self.all_fields.value_at(i).as_str(),
                50,
            );
            lines.push(line);
            assert(lines.deep_view() =~= before.push(line@));
            i += 1;
            assert(lines.deep_view() =~= titled + field_lines(self.all_fields@, i as nat, 50));
        }
        assert(lines.deep_view() =~= summary_lines(
            self.total_fields as nat,
            credentials,
            self.all_fields@,
        ));
        lines
    }
}

} // verus!
