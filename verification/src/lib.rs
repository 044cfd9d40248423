//! Verified core of a YouTube transcript client: the parsing, extraction and
//! decision logic, with the network and file system left to the caller.

pub mod json;
pub mod text;
pub mod models;
pub mod errors;
pub mod proxies;
pub mod transcript;
pub mod transcript_list;
pub mod pattern;
pub mod js_var_parser;
pub mod playability_asserter;
pub mod video_details_extractor;
pub mod captions_extractor;
pub mod video_data_fetcher;
pub mod cookie_jar_loader;
pub mod transcript_parser;
pub mod youtube_page_fetcher;
