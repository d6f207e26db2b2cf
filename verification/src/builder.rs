//! Building a client step by step.

use crate::cassette::{Cassette, CassetteFormat};
use crate::client::{is_default_boxed, is_default_matcher, VcrClient, VcrMode};
use crate::error::{ErrorKind, VcrError};
use crate::filter::{Filter, FilterChain};
use crate::matcher::{DefaultMatcher, RequestMatcher};
use std::path::PathBuf;
use vstd::prelude::*;
use vstd::string::*;

verus! {

/// What a builder holds.
pub struct BuilderView<C, M: ?Sized, T: ?Sized> {
    pub inner: Option<C>,
    pub mode: VcrMode,
    pub cassette_path: PathBuf,
    pub matcher: Option<Box<M>>,
    /// Whether a matcher has been set: `matcher.is_some()`.
    pub matcher_set: bool,
    pub filters: Seq<Box<T>>,
    pub format: Option<CassetteFormat>,
}

/// The settings of a client that is yet to be built.
pub struct VcrClientBuilder<
    C,
    M: RequestMatcher + ?Sized = dyn RequestMatcher,
    T: Filter + ?Sized = dyn Filter,
> {
    inner: Option<C>,
    mode: VcrMode,
    cassette_path: PathBuf,
    matcher: Option<Box<M>>,
    filter_chain: FilterChain<T>,
    format: Option<CassetteFormat>,
}

impl<C, M: RequestMatcher + ?Sized, T: Filter + ?Sized> View for VcrClientBuilder<C, M, T> {
    type V = BuilderView<C, M, T>;

    closed spec fn view(&self) -> BuilderView<C, M, T> {
        BuilderView {
            inner: self.inner,
            mode: self.mode,
            cassette_path: self.cassette_path,
            matcher: self.matcher,
            matcher_set: self.matcher.is_some(),
            filters: self.filter_chain@,
            format: self.format,
        }
    }
}

/// Whether `client` is what `builder` builds: over the cassette that was
/// found, or over an empty one at the builder's path and in its format.
pub open spec fn built<C, M: RequestMatcher + ?Sized, T: Filter + ?Sized>(
    builder: BuilderView<C, M, T>,
    existing: Option<Cassette>,
    client: crate::client::ClientView<C, M, T>,
) -> bool {
    &&& builder.inner == Some(client.inner)
    &&& client.mode == builder.mode
    &&& client.filters == builder.filters
    &&& !client.recording_started
    &&& client.used == Set::<usize>::empty()
    &&& match existing {
        Some(cassette) => {
            &&& client.interactions == cassette@
            &&& client.path == cassette.path
            &&& client.format == cassette.format
            &&& client.modified == cassette.modified_since_load
        },
        None => {
            &&& client.interactions.len() == 0
            &&& client.path == Some(builder.cassette_path)
            &&& client.format == match builder.format {
                Some(format) => format,
                None => CassetteFormat::File,
            }
            &&& !client.modified
        },
    }
}

/// What building gives: a failure where no transport was set, else a
/// client with the matcher that was set, if one was.
pub open spec fn build_outcome<C, M: RequestMatcher + ?Sized, T: Filter + ?Sized>(
    builder: BuilderView<C, M, T>,
    existing: Option<Cassette>,
    r: Result<VcrClient<C, M, T>, VcrError>,
) -> bool {
    match r {
        Ok(client) => {
            &&& builder.inner.is_some()
            &&& built(builder, existing, client@)
            &&& builder.matcher_set ==> builder.matcher == Some(client@.matcher)
        },
        Err(e) => {
            &&& builder.inner.is_none()
            &&& e.kind == ErrorKind::InvalidConfiguration
            &&& e.status == 400
            &&& e.message@ == "Inner HttpClient is required"@
        },
    }
}

/// The cassette that was found, or an empty one at `path` in `format`.
pub fn new_or_existing(existing: Option<Cassette>, path: PathBuf, format: Option<CassetteFormat>) -> (c:
    Cassette)
    ensures
        match existing {
            Some(cassette) => c == cassette,
            None => {
                &&& c@.len() == 0
                &&& c.path == Some(path)
                &&& c.format == match format {
                    Some(f) => f,
                    None => CassetteFormat::File,
                }
                &&& !c.modified_since_load
            },
        },
{
    match existing {
        Some(cassette) => cassette,
        None => {
            let cassette = Cassette::new().with_path(path);
            match format {
                Some(format) => cassette.with_format(format),
                None => cassette,
            }
        },
    }
}

impl<C> VcrClientBuilder<C, dyn RequestMatcher, dyn Filter> {
    /// A builder for a client in `Once` mode over the cassette at
    /// `cassette_path`.
    pub fn new(cassette_path: PathBuf) -> (b: Self)
        ensures
            b@.inner.is_none(),
            b@.mode == VcrMode::Once,
            b@.cassette_path == cassette_path,
            b@.matcher.is_none(),
            !b@.matcher_set,
            b@.filters.len() == 0,
            b@.format.is_none(),
    {
        VcrClientBuilder::with_path(cassette_path)
    }

    /// The client. `existing` is the cassette found at the path, if there is
    /// one. Fails where no transport was given. Without a matcher the client
    /// gets the default one.
    pub fn build(self, existing: Option<Cassette>) -> (r: Result<VcrClient<C>, VcrError>)
        ensures
            build_outcome(self@, existing, r),
            r.is_ok() && !self@.matcher_set ==> is_default_boxed(r.unwrap()@.matcher),
    {
        if !self.is_ready() {
            return Err(
                VcrError::new(
                    ErrorKind::InvalidConfiguration,
                    400,
                    String::from_str("Inner HttpClient is required"),
                ),
            );
        }
        let matcher = DefaultMatcher::new();
        assert(is_default_matcher(&matcher));
        let boxed: Box<dyn RequestMatcher> = Box::new(matcher);
        let ghost fallback = boxed;
        assert(is_default_boxed(fallback));
        if self.has_matcher() {
            Ok(self.build_ready(existing, boxed))
        } else {
            let ghost before = self@;
            let (inner, mode, path, filters, format) = self.into_parts();
            let cassette = new_or_existing(existing, path, format);
            let client = VcrClient::with_parts(inner, mode, cassette, boxed, filters);
            assert(client@.matcher == fallback);
            assert(built(before, existing, client@));
            Ok(client)
        }
    }
}

impl<C, M: RequestMatcher + ?Sized, T: Filter + ?Sized> VcrClientBuilder<C, M, T> {
    /// A builder for a client in `Once` mode over the cassette at
    /// `cassette_path`.
    pub fn with_path(cassette_path: PathBuf) -> (b: Self)
        ensures
            b@.inner.is_none(),
            b@.mode == VcrMode::Once,
            b@.cassette_path == cassette_path,
            b@.matcher.is_none(),
            !b@.matcher_set,
            b@.filters.len() == 0,
            b@.format.is_none(),
    {
        VcrClientBuilder {
            inner: None,
            mode: VcrMode::Once,
            cassette_path,
            matcher: None,
            filter_chain: FilterChain::empty(),
            format: None,
        }
    }

    /// Sets the transport.
    pub fn inner_client(self, client: C) -> (b: Self)
        ensures
            b@ == (BuilderView { inner: Some(client), ..self@ }),
    {
        VcrClientBuilder {
            inner: Some(client),
            mode: self.mode,
            cassette_path: self.cassette_path,
            matcher: self.matcher,
            filter_chain: self.filter_chain,
            format: self.format,
        }
    }

    /// Sets the mode.
    pub fn mode(self, mode: VcrMode) -> (b: Self)
        ensures
            b@ == (BuilderView { mode, ..self@ }),
    {
        VcrClientBuilder {
            inner: self.inner,
            mode,
            cassette_path: self.cassette_path,
            matcher: self.matcher,
            filter_chain: self.filter_chain,
            format: self.format,
        }
    }

    /// Sets the matcher.
    pub fn matcher(self, matcher: Box<M>) -> (b: Self)
        ensures
            b@ == (BuilderView { matcher: Some(matcher), matcher_set: true, ..self@ }),
    {
        VcrClientBuilder {
            inner: self.inner,
            mode: self.mode,
            cassette_path: self.cassette_path,
            matcher: Some(matcher),
            filter_chain: self.filter_chain,
            format: self.format,
        }
    }

    /// Sets the filters.
    pub fn filter_chain(self, filter_chain: FilterChain<T>) -> (b: Self)
        ensures
            b@ == (BuilderView { filters: filter_chain@, ..self@ }),
    {
        VcrClientBuilder {
            inner: self.inner,
            mode: self.mode,
            cassette_path: self.cassette_path,
            matcher: self.matcher,
            filter_chain,
            format: self.format,
        }
    }

    /// Adds a filter at the end of the chain.
    pub fn add_filter(self, filter: Box<T>) -> (b: Self)
        ensures
            b@ == (BuilderView { filters: self@.filters.push(filter), ..self@ }),
    {
        VcrClientBuilder {
            inner: self.inner,
            mode: self.mode,
            cassette_path: self.cassette_path,
            matcher: self.matcher,
            filter_chain: self.filter_chain.add_filter(filter),
            format: self.format,
        }
    }

    /// Sets the shape in which a new cassette is kept.
    pub fn format(self, format: CassetteFormat) -> (b: Self)
        ensures
            b@ == (BuilderView { format: Some(format), ..self@ }),
    {
        VcrClientBuilder {
            inner: self.inner,
            mode: self.mode,
            cassette_path: self.cassette_path,
            matcher: self.matcher,
            filter_chain: self.filter_chain,
            format: Some(format),
        }
    }

    /// Whether a matcher has been set.
    pub fn has_matcher(&self) -> (set: bool)
        ensures
            set == self@.matcher_set,
    {
        self.matcher.is_some()
    }

    /// The transport, the mode, the path, the filters and the format of a
    /// builder that has its transport.
    fn into_parts(self) -> (parts: (C, VcrMode, PathBuf, FilterChain<T>, Option<CassetteFormat>))
        requires
            self@.inner.is_some(),
        ensures
            self@.inner == Some(parts.0),
            parts.1 == self@.mode,
            parts.2 == self@.cassette_path,
            parts.3@ == self@.filters,
            parts.4 == self@.format,
    {
        (self.inner.unwrap(), self.mode, self.cassette_path, self.filter_chain, self.format)
    }

    /// Whether a transport has been given, so that the client can be built.
    pub fn is_ready(&self) -> (ready: bool)
        ensures
            ready == self@.inner.is_some(),
    {
        self.inner.is_some()
    }

    /// The path of the cassette.
    pub fn cassette_path(&self) -> (path: &PathBuf)
        ensures
            *path == self@.cassette_path,
    {
        &self.cassette_path
    }

    /// The client, with `fallback` as its matcher where none was set.
    /// Fails where no transport was given.
    pub fn build_with(self, existing: Option<Cassette>, fallback: Box<M>) -> (r: Result<
        VcrClient<C, M, T>,
        VcrError,
    >)
        ensures
            build_outcome(self@, existing, r),
            r.is_ok() && !self@.matcher_set ==> r.unwrap()@.matcher == fallback,
    {
        if !self.is_ready() {
            return Err(
                VcrError::new(
                    ErrorKind::InvalidConfiguration,
                    400,
                    String::from_str("Inner HttpClient is required"),
                ),
            );
        }
        Ok(self.build_ready(existing, fallback))
    }

    /// The client of a builder that has its transport, with `fallback` as
    /// its matcher where none was set.
    fn build_ready(self, existing: Option<Cassette>, fallback: Box<M>) -> (client: VcrClient<
        C,
        M,
        T,
    >)
        requires
            self@.inner.is_some(),
        ensures
            built(self@, existing, client@),
            self@.matcher_set ==> self@.matcher == Some(client@.matcher),
            !self@.matcher_set ==> client@.matcher == fallback,
    {
        let inner = self.inner.unwrap();
        let cassette = new_or_existing(existing, self.cassette_path, self.format);
        let matcher = match self.matcher {
            Some(matcher) => matcher,
            None => fallback,
        };
        VcrClient::with_parts(inner, self.mode, cassette, matcher, self.filter_chain)
    }
}

impl<C> VcrClient<C, dyn RequestMatcher, dyn Filter> {
    /// A builder for a client over the cassette at `cassette_path`.
    pub fn builder(cassette_path: PathBuf) -> (b: VcrClientBuilder<C>)
        ensures
            b@.inner.is_none(),
            b@.mode == VcrMode::Once,
            b@.cassette_path == cassette_path,
            b@.matcher.is_none(),
            !b@.matcher_set,
            b@.filters.len() == 0,
            b@.format.is_none(),
    {
        VcrClientBuilder::with_path(cassette_path)
    }
}

} // verus!
