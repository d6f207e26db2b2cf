//! The cassette: recorded interactions in recording order, and the layout of
//! the directory shape in which a cassette can be kept on disk.

use crate::error::{ErrorKind, VcrError};
use crate::ordered_map::{lookup, Fields, Headers};
use crate::serializable::{RequestView, ResponseView, SerializableRequest, SerializableResponse};
use crate::text::{concat, ends_with, opt_view, padded, push_padded};
use std::path::PathBuf;
use vstd::prelude::*;
use vstd::string::*;

verus! {

/// `std::path::PathBuf`, carried as it is.
#[verifier::external_type_specification]
#[verifier::external_body]
pub struct ExPathBuf(PathBuf);

/// One request with the response that answered it.
#[derive(Debug)]
pub struct Interaction {
    pub request: SerializableRequest,
    pub response: SerializableResponse,
}

/// What an [`Interaction`] holds.
pub struct InteractionView {
    pub request: RequestView,
    pub response: ResponseView,
}

impl View for Interaction {
    type V = InteractionView;

    open spec fn view(&self) -> InteractionView {
        InteractionView { request: self.request@, response: self.response@ }
    }
}

impl Clone for Interaction {
    fn clone(&self) -> (r: Self)
        ensures
            r@ == self@,
    {
        Interaction { request: self.request.clone(), response: self.response.clone() }
    }
}

/// What a list of interactions holds.
pub open spec fn interactions_view(s: Seq<Interaction>) -> Seq<InteractionView> {
    s.map_values(|i: Interaction| i@)
}

/// The shape in which a cassette is kept on disk.
#[derive(Debug, Clone, Copy, PartialEq, Eq, Structural)]
pub enum CassetteFormat {
    /// One document that holds everything.
    File,
    /// A directory with a manifest and one file per body.
    Directory,
}

impl Default for CassetteFormat {
    fn default() -> (f: Self)
        ensures
            f == CassetteFormat::File,
    {
        CassetteFormat::File
    }
}

/// Recorded interactions, in recording order, with where and how they are
/// kept.
#[derive(Debug)]
pub struct Cassette {
    pub interactions: Vec<Interaction>,
    pub path: Option<PathBuf>,
    pub modified_since_load: bool,
    pub format: CassetteFormat,
}

impl View for Cassette {
    type V = Seq<InteractionView>;

    open spec fn view(&self) -> Seq<InteractionView> {
        interactions_view(self.interactions@)
    }
}

/// The request of a manifest entry: a stored request whose body is kept in a
/// file of its own.
#[derive(Debug)]
pub struct DirectoryRequest {
    pub method: String,
    pub url: String,
    pub headers: Headers,
    pub body_file: Option<String>,
    pub version: String,
}

/// The response of a manifest entry.
#[derive(Debug)]
pub struct DirectoryResponse {
    pub status: u16,
    pub headers: Headers,
    pub body_file: Option<String>,
    pub version: String,
}

/// One entry of the manifest of a directory cassette.
#[derive(Debug)]
pub struct DirectoryInteraction {
    pub request: DirectoryRequest,
    pub response: DirectoryResponse,
}

/// What a [`DirectoryInteraction`] holds. The request and the response are
/// given as stored ones whose `body` is the name of the body file and whose
/// `body_base64` is empty.
pub struct EntryView {
    pub request: RequestView,
    pub response: ResponseView,
}

impl View for DirectoryInteraction {
    type V = EntryView;

    open spec fn view(&self) -> EntryView {
        EntryView {
            request: RequestView {
                method: self.request.method@,
                url: self.request.url@,
                headers: self.request.headers@,
                body: opt_view(self.request.body_file),
                body_base64: None,
                version: self.request.version@,
            },
            response: ResponseView {
                status: self.response.status,
                headers: self.response.headers@,
                body: opt_view(self.response.body_file),
                body_base64: None,
                version: self.response.version@,
            },
        }
    }
}

/// What a manifest holds.
pub open spec fn manifest_view(s: Seq<DirectoryInteraction>) -> Seq<EntryView> {
    s.map_values(|e: DirectoryInteraction| e@)
}

/// One body kept in a file of its own.
#[derive(Debug)]
pub struct BodyFile {
    pub name: String,
    pub content: String,
}

/// What a list of body files holds: names with contents.
pub open spec fn body_files_view(s: Seq<BodyFile>) -> Seq<(Seq<char>, Seq<char>)> {
    s.map_values(|f: BodyFile| (f.name@, f.content@))
}

/// Everything that the directory shape of a cassette consists of.
#[derive(Debug)]
pub struct DirectoryLayout {
    pub manifest: Vec<DirectoryInteraction>,
    pub bodies: Vec<BodyFile>,
}

/// What has to be written to save a cassette.
#[derive(Debug)]
pub enum SavePlan {
    /// The whole cassette as one document.
    SingleFile,
    /// A manifest and body files.
    Directory(DirectoryLayout),
}

/// The name of a body file: the direction, the ordinal in at least three
/// digits, and `.b64` for an opaque payload or `.txt` for inline text.
pub open spec fn body_file_name(prefix: Seq<char>, ordinal: nat, opaque: bool) -> Seq<char> {
    prefix + padded(ordinal) + if opaque {
        ".b64"@
    } else {
        ".txt"@
    }
}

/// The file in which a stored body is kept, with its content. An inline text
/// decides, even when it is empty; an empty body has no file.
pub open spec fn body_file(
    body: Option<Seq<char>>,
    body_base64: Option<Seq<char>>,
    prefix: Seq<char>,
    ordinal: nat,
) -> Option<(Seq<char>, Seq<char>)> {
    match body {
        Some(b) => if b.len() > 0 {
            Some((body_file_name(prefix, ordinal, false), b))
        } else {
            None
        },
        None => match body_base64 {
            Some(p) => if p.len() > 0 {
                Some((body_file_name(prefix, ordinal, true), p))
            } else {
                None
            },
            None => None,
        },
    }
}

/// The file of the request body of the interaction with the given ordinal.
pub open spec fn request_file(i: InteractionView, ordinal: nat) -> Option<(Seq<char>, Seq<char>)> {
    body_file(i.request.body, i.request.body_base64, "req_"@, ordinal)
}

/// The file of the response body of the interaction with the given ordinal.
pub open spec fn response_file(i: InteractionView, ordinal: nat) -> Option<(Seq<char>, Seq<char>)> {
    body_file(i.response.body, i.response.body_base64, "resp_"@, ordinal)
}

/// The name in an optional file.
pub open spec fn file_name(f: Option<(Seq<char>, Seq<char>)>) -> Option<Seq<char>> {
    match f {
        Some(p) => Some(p.0),
        None => None,
    }
}

/// An optional file as a list of none or one.
pub open spec fn file_list(f: Option<(Seq<char>, Seq<char>)>) -> Seq<(Seq<char>, Seq<char>)> {
    match f {
        Some(p) => seq![p],
        None => Seq::empty(),
    }
}

/// The manifest entry of the interaction with the given ordinal.
pub open spec fn manifest_entry(i: InteractionView, ordinal: nat) -> EntryView {
    EntryView {
        request: RequestView {
            method: i.request.method,
            url: i.request.url,
            headers: i.request.headers,
            body: file_name(request_file(i, ordinal)),
            body_base64: None,
            version: i.request.version,
        },
        response: ResponseView {
            status: i.response.status,
            headers: i.response.headers,
            body: file_name(response_file(i, ordinal)),
            body_base64: None,
            version: i.response.version,
        },
    }
}

/// The manifest of a list of interactions: ordinals count from one.
pub open spec fn manifest_of(s: Seq<InteractionView>) -> Seq<EntryView> {
    Seq::new(s.len(), |k: int| manifest_entry(s[k], (k + 1) as nat))
}

/// The body files of a list of interactions: for each interaction in turn
/// the request body, then the response body.
pub open spec fn body_files_of(s: Seq<InteractionView>) -> Seq<(Seq<char>, Seq<char>)>
    decreases s.len(),
{
    if s.len() == 0 {
        Seq::empty()
    } else {
        body_files_of(s.drop_last()) + file_list(request_file(s.last(), s.len()))
            + file_list(response_file(s.last(), s.len()))
    }
}

/// Picks the file for one stored body and adds it to `bodies`.
fn place_body(
    body: &Option<String>,
    body_base64: &Option<String>,
    prefix: &str,
    ordinal: usize,
    bodies: &mut Vec<BodyFile>,
) -> (name: Option<String>)
    ensures
        opt_view(name) == file_name(
            body_file(opt_view(*body), opt_view(*body_base64), prefix@, ordinal as nat),
        ),
        body_files_view(final(bodies)@) == body_files_view(old(bodies)@) + file_list(
            body_file(opt_view(*body), opt_view(*body_base64), prefix@, ordinal as nat),
        ),
{
    let ghost before = body_files_view(bodies@);
    let (content, suffix) = match body {
        Some(b) => {
            if b.as_str().is_empty() {
                assert(body_files_view(bodies@) =~= before + Seq::empty());
                return None;
            }
            (b, ".txt")
        },
        None => match body_base64 {
            Some(p) => {
                if p.as_str().is_empty() {
                    assert(body_files_view(bodies@) =~= before + Seq::empty());
                    return None;
                }
                (p, ".b64")
            },
            None => {
                assert(body_files_view(bodies@) =~= before + Seq::empty());
                return None;
            },
        },
    };
    let mut name = String::from_str(prefix);
    push_padded(&mut name, ordinal);
    name.append(suffix);
    bodies.push(BodyFile { name: name.clone(), content: content.clone() });
    assert(body_files_view(bodies@) =~= before + seq![(name@, content@)]);
    Some(name)
}

impl Cassette {
    /// An empty cassette without a path, kept as a single document.
    pub fn new() -> (c: Self)
        ensures
            c@.len() == 0,
            c.path.is_none(),
            !c.modified_since_load,
            c.format == CassetteFormat::File,
    {
        Cassette {
            interactions: Vec::new(),
            path: None,
            modified_since_load: false,
            format: CassetteFormat::File,
        }
    }

    /// The same cassette, kept at `path`.
    pub fn with_path(self, path: PathBuf) -> (c: Self)
        ensures
            c.path == Some(path),
            c.interactions == self.interactions,
            c.modified_since_load == self.modified_since_load,
            c.format == self.format,
    {
        Cassette {
            interactions: self.interactions,
            path: Some(path),
            modified_since_load: self.modified_since_load,
            format: self.format,
        }
    }

    /// The same cassette, kept in the given shape.
    pub fn with_format(self, format: CassetteFormat) -> (c: Self)
        ensures
            c.format == format,
            c.interactions == self.interactions,
            c.modified_since_load == self.modified_since_load,
            c.path == self.path,
    {
        Cassette {
            interactions: self.interactions,
            path: self.path,
            modified_since_load: self.modified_since_load,
            format,
        }
    }

    /// Drops every interaction. Path, shape and the modified flag stay.
    pub fn clear(&mut self)
        ensures
            final(self)@.len() == 0,
            final(self).path == old(self).path,
            final(self).modified_since_load == old(self).modified_since_load,
            final(self).format == old(self).format,
    {
        self.interactions.clear();
    }

    /// Appends one interaction and marks the cassette as modified.
    pub fn record_interaction(
        &mut self,
        serializable_request: SerializableRequest,
        serializable_response: SerializableResponse,
    ) -> (r: Result<(), VcrError>)
        ensures
            r.is_ok(),
            final(self)@ == old(self)@.push(
                InteractionView { request: serializable_request@, response: serializable_response@ },
            ),
            final(self).modified_since_load,
            final(self).path == old(self).path,
            final(self).format == old(self).format,
    {
        let interaction = Interaction {
            request: serializable_request,
            response: serializable_response,
        };
        self.interactions.push(interaction);
        self.modified_since_load = true;
        assert(self@ =~= old(self)@.push(interaction@));
        Ok(())
    }

    /// The number of interactions.
    pub fn len(&self) -> (n: usize)
        ensures
            n == self@.len(),
    {
        self.interactions.len()
    }

    /// Whether there is no interaction.
    pub fn is_empty(&self) -> (b: bool)
        ensures
            b == (self@.len() == 0),
    {
        self.interactions.is_empty()
    }

    /// The manifest and the body files of the directory shape.
    pub fn directory_layout(&self) -> (layout: DirectoryLayout)
        ensures
            manifest_view(layout.manifest@) == manifest_of(self@),
            body_files_view(layout.bodies@) == body_files_of(self@),
    {
        let mut manifest: Vec<DirectoryInteraction> = Vec::new();
        let mut bodies: Vec<BodyFile> = Vec::new();
        let mut i: usize = 0;
        assert(body_files_view(bodies@) =~= body_files_of(self@.take(0)));
        while i < self.interactions.len()
            invariant
                i <= self.interactions.len(),
                manifest.len() == i,
                forall|k: int|
                    0 <= k < i ==> (#[trigger] manifest@[k])@ == manifest_entry(
                        self@[k],
                        (k + 1) as nat,
                    ),
                body_files_view(bodies@) == body_files_of(self@.take(i as int)),
            decreases self.interactions.len() - i,
        {
            let interaction = &self.interactions[i];
            let ghost iv = self@[i as int];
            assert(iv == interaction@);
            let ordinal: usize = i + 1;
            let request_body_file = place_body(
                &interaction.request.body,
                &interaction.request.body_base64,
                "req_",
                ordinal,
                &mut bodies,
            );
            let response_body_file = place_body(
                &interaction.response.body,
                &interaction.response.body_base64,
                "resp_",
                ordinal,
                &mut bodies,
            );
            proof {
                let next = self@.take(i + 1);
                assert(next.drop_last() =~= self@.take(i as int));
                assert(next.last() == iv);
                assert(next.len() == ordinal);
            }
            manifest.push(
                DirectoryInteraction {
                    request: DirectoryRequest {
                        method: interaction.request.method.clone(),
                        url: interaction.request.url.clone(),
                        headers: interaction.request.headers.clone(),
                        body_file: request_body_file,
                        version: interaction.request.version.clone(),
                    },
                    response: DirectoryResponse {
                        status: interaction.response.status,
                        headers: interaction.response.headers.clone(),
                        body_file: response_body_file,
                        version: interaction.response.version.clone(),
                    },
                },
            );
            i += 1;
        }
        assert(self@.take(self@.len() as int) =~= self@);
        assert(manifest_view(manifest@) =~= manifest_of(self@));
        DirectoryLayout { manifest, bodies }
    }

    /// What has to be written to save the cassette in its shape. Fails where
    /// the cassette has no path.
    pub fn save_plan(&self) -> (r: Result<SavePlan, VcrError>)
        ensures
            is_save_plan(self@, self.path.is_some(), self.format, r),
    {
        if self.path.is_none() {
            return Err(
                VcrError::new(
                    ErrorKind::InvalidConfiguration,
                    400,
                    String::from_str("No path specified for cassette"),
                ),
            );
        }
        match self.format {
            CassetteFormat::File => Ok(SavePlan::SingleFile),
            CassetteFormat::Directory => Ok(SavePlan::Directory(self.directory_layout())),
        }
    }
}

/// Whether `r` is what saving asks for: for a cassette with a path, the
/// single document or the layout of the directory, by the format; for one
/// without, a failure.
pub open spec fn is_save_plan(
    interactions: Seq<InteractionView>,
    has_path: bool,
    format: CassetteFormat,
    r: Result<SavePlan, VcrError>,
) -> bool {
    match r {
        Ok(SavePlan::SingleFile) => has_path && format == CassetteFormat::File,
        Ok(SavePlan::Directory(layout)) => {
            &&& has_path
            &&& format == CassetteFormat::Directory
            &&& manifest_view(layout.manifest@) == manifest_of(interactions)
            &&& body_files_view(layout.bodies@) == body_files_of(interactions)
        },
        Err(e) => {
            &&& !has_path
            &&& e.kind == ErrorKind::InvalidConfiguration
            &&& e.status == 400
            &&& e.message@ == "No path specified for cassette"@
        },
    }
}

/// What a body file reference loads as: the inline text and the opaque
/// payload. A name that ends in `.b64` is an opaque payload. The outer `None`
/// says that the file is not among `files`.
pub open spec fn loaded_body(name: Option<Seq<char>>, files: Seq<(Seq<char>, Seq<char>)>) -> Option<
    (Option<Seq<char>>, Option<Seq<char>>),
> {
    match name {
        Some(n) => match lookup(files, n) {
            Some(content) => if ".b64"@.is_suffix_of(n) {
                Some((None, Some(content)))
            } else {
                Some((Some(content), None))
            },
            None => None,
        },
        None => Some((None, None)),
    }
}

/// The message for a manifest entry that cannot be loaded, the request body
/// checked first; `None` where both body files are there.
pub open spec fn load_failure(e: EntryView, files: Seq<(Seq<char>, Seq<char>)>) -> Option<
    Seq<char>,
> {
    if loaded_body(e.request.body, files).is_none() {
        Some("Failed to read request body file "@ + e.request.body.unwrap())
    } else if loaded_body(e.response.body, files).is_none() {
        Some("Failed to read response body file "@ + e.response.body.unwrap())
    } else {
        None
    }
}

/// The interaction that a manifest entry loads as, where it can be loaded.
pub open spec fn loaded_interaction(
    e: EntryView,
    files: Seq<(Seq<char>, Seq<char>)>,
) -> InteractionView {
    InteractionView {
        request: RequestView {
            method: e.request.method,
            url: e.request.url,
            headers: e.request.headers,
            body: loaded_body(e.request.body, files).unwrap().0,
            body_base64: loaded_body(e.request.body, files).unwrap().1,
            version: e.request.version,
        },
        response: ResponseView {
            status: e.response.status,
            headers: e.response.headers,
            body: loaded_body(e.response.body, files).unwrap().0,
            body_base64: loaded_body(e.response.body, files).unwrap().1,
            version: e.response.version,
        },
    }
}

/// The message for the first manifest entry that cannot be loaded.
pub open spec fn first_failure(manifest: Seq<EntryView>, files: Seq<(Seq<char>, Seq<char>)>) -> Option<
    Seq<char>,
>
    decreases manifest.len(),
{
    if manifest.len() == 0 {
        None
    } else {
        match first_failure(manifest.drop_last(), files) {
            Some(m) => Some(m),
            None => load_failure(manifest.last(), files),
        }
    }
}

/// The interactions that a manifest loads as.
pub open spec fn loaded(manifest: Seq<EntryView>, files: Seq<(Seq<char>, Seq<char>)>) -> Seq<
    InteractionView,
> {
    Seq::new(manifest.len(), |k: int| loaded_interaction(manifest[k], files))
}

/// A failure among the first entries is the failure of the whole manifest.
pub proof fn lemma_first_failure_stays(
    manifest: Seq<EntryView>,
    files: Seq<(Seq<char>, Seq<char>)>,
    n: int,
)
    requires
        0 <= n <= manifest.len(),
        first_failure(manifest.take(n), files).is_some(),
    ensures
        first_failure(manifest, files) == first_failure(manifest.take(n), files),
    decreases manifest.len() - n,
{
    if n < manifest.len() {
        assert(manifest.take(n + 1).drop_last() =~= manifest.take(n));
        lemma_first_failure_stays(manifest, files, n + 1);
    } else {
        assert(manifest.take(n) =~= manifest);
    }
}

/// Loads the body that a manifest entry refers to.
fn load_body(name: &Option<String>, files: &Fields) -> (r: Option<(Option<String>, Option<String>)>)
    ensures
        match r {
            Some(b) => loaded_body(opt_view(*name), files@) == Some((opt_view(b.0), opt_view(b.1))),
            None => loaded_body(opt_view(*name), files@).is_none(),
        },
{
    match name {
        Some(n) => match files.get(n.as_str()) {
            Some(content) => {
                if ends_with(n.as_str(), ".b64") {
                    Some((None, Some(content.clone())))
                } else {
                    Some((Some(content.clone()), None))
                }
            },
            None => None,
        },
        None => Some((None, None)),
    }
}

impl Cassette {
    /// The cassette that a directory holds: the manifest with each body read
    /// from `files`, which maps the names of the files in the body area to
    /// their contents. Fails on the first entry whose body file is missing.
    pub fn from_directory(path: PathBuf, manifest: &Vec<DirectoryInteraction>, files: &Fields) -> (r:
        Result<Cassette, VcrError>)
        ensures
            match r {
                Ok(c) => {
                    &&& first_failure(manifest_view(manifest@), files@).is_none()
                    &&& c@ == loaded(manifest_view(manifest@), files@)
                    &&& c.path == Some(path)
                    &&& c.format == CassetteFormat::Directory
                    &&& !c.modified_since_load
                },
                Err(e) => {
                    &&& e.kind == ErrorKind::IoError
                    &&& e.status == 500
                    &&& first_failure(manifest_view(manifest@), files@) == Some(e.message@)
                },
            },
    {
        let ghost entries = manifest_view(manifest@);
        let mut interactions: Vec<Interaction> = Vec::new();
        let mut i: usize = 0;
        while i < manifest.len()
            invariant
                i <= manifest.len(),
                entries == manifest_view(manifest@),
                interactions.len() == i,
                first_failure(entries.take(i as int), files@).is_none(),
                forall|k: int|
                    0 <= k < i ==> (#[trigger] interactions@[k])@ == loaded_interaction(
                        entries[k],
                        files@,
                    ),
            decreases manifest.len() - i,
        {
            let entry = &manifest[i];
            proof {
                assert(entries.take(i + 1).drop_last() =~= entries.take(i as int));
                assert(entries.take(i + 1).last() == entry@);
            }
            let (request_body, request_body_base64) = match load_body(
                &entry.request.body_file,
                files,
            ) {
                Some(b) => b,
                None => {
                    let name = match &entry.request.body_file {
                        Some(n) => n.as_str(),
                        None => "",
                    };
                    proof {
                        lemma_first_failure_stays(entries, files@, i + 1);
                    }
                    return Err(
                        VcrError::new(
                            ErrorKind::IoError,
                            500,
                            concat("Failed to read request body file ", name),
                        ),
                    );
                },
            };
            let (response_body, response_body_base64) = match load_body(
                &entry.response.body_file,
                files,
            ) {
                Some(b) => b,
                None => {
                    let name = match &entry.response.body_file {
                        Some(n) => n.as_str(),
                        None => "",
                    };
                    proof {
                        lemma_first_failure_stays(entries, files@, i + 1);
                    }
                    return Err(
                        VcrError::new(
                            ErrorKind::IoError,
                            500,
                            concat("Failed to read response body file ", name),
                        ),
                    );
                },
            };
            interactions.push(
                Interaction {
                    request: SerializableRequest {
                        method: entry.request.method.clone(),
                        url: entry.request.url.clone(),
                        headers: entry.request.headers.clone(),
                        body: request_body,
                        body_base64: request_body_base64,
                        version: entry.request.version.clone(),
                    },
                    response: SerializableResponse {
                        status: entry.response.status,
                        headers: entry.response.headers.clone(),
                        body: response_body,
                        body_base64: response_body_base64,
                        version: entry.response.version.clone(),
                    },
                },
            );
            i += 1;
        }
        assert(entries.take(manifest.len() as int) =~= entries);
        let c = Cassette {
            interactions,
            path: Some(path),
            modified_since_load: false,
            format: CassetteFormat::Directory,
        };
        assert(c@ =~= loaded(entries, files@));
        Ok(c)
    }
}

impl Default for Cassette {
    fn default() -> (c: Self)
        ensures
            c@.len() == 0,
            c.path.is_none(),
            !c.modified_since_load,
            c.format == CassetteFormat::File,
    {
        Cassette::new()
    }
}

} // verus!
