//! Record-and-replay of HTTP exchanges: a cassette of recorded interactions,
//! the filters that scrub what is stored, the matchers that find a recorded
//! interaction for a live request, and the mode-driven decisions of the client.

pub mod body_filter;
pub mod builder;
pub mod cassette;
pub mod client;
pub mod custom_filter;
pub mod diagnostics;
pub mod directory_laws;
pub mod encoding;
pub mod error;
pub mod field_path;
pub mod filter;
pub mod filter_laws;
pub mod form_data;
pub mod http;
pub mod json;
pub mod json_path;
pub mod matcher;
pub mod noop_client;
pub mod ordered_map;
pub mod pattern;
pub mod ranking_laws;
pub mod replay_laws;
pub mod serializable;
pub mod text;
pub mod url_filter;
pub mod url_query;
pub mod utils;

pub use body_filter::BodyFilter;
pub use builder::VcrClientBuilder;
pub use cassette::{
    BodyFile, Cassette, CassetteFormat, DirectoryInteraction, DirectoryLayout, DirectoryRequest,
    DirectoryResponse, Interaction, SavePlan,
};
pub use client::{Step, VcrClient, VcrMode};
pub use custom_filter::CustomFilter;
pub use error::{ErrorKind, VcrError};
pub use field_path::{parse_field_path, FieldPathPart};
pub use filter::{Filter, FilterChain, HeaderFilter};
pub use form_data::{
    analyze_form_data, encode_form_data, filter_form_data, find_credential_fields,
    parse_form_data, FormDataAnalysis,
};
pub use http::{LiveRequest, LiveResponse};
pub use json::{JsonMember, JsonValue};
pub use json_path::{collect_field_paths, extract_nested_field};
pub use matcher::{DefaultMatcher, ExactMatcher, RequestMatcher};
pub use noop_client::{NoOpClient, PanickingNoOpClient};
pub use ordered_map::{Fields, Headers, OrderedMap};
pub use serializable::{SerializableRequest, SerializableResponse};
pub use url_filter::UrlFilter;
pub use utils::{
    analyze_cassette_file, extract_username_from_cassette, filter_cassette_file,
    mutate_all_interactions, mutate_all_requests, mutate_all_responses,
    remove_header_from_all_requests, replace_form_field_in_all_requests,
    replace_header_in_all_requests, replace_username_in_all_requests,
    sanitize_cassette_for_sharing, scrub_urls_in_all_requests, set_test_password_in_cassette,
    strip_all_cookies, strip_all_credentials_from_requests, CassetteAnalysis,
};
