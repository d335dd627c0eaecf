//! A client for debuginfod servers: it asks a ranked list of servers for the
//! debug information that belongs to a build id, and decides how a
//! file-system cache in front of it is used.
pub mod buildid;
pub mod cache;
pub mod client;
pub mod http_client;
pub mod policy;
pub mod server_url;
pub mod text;
pub mod util;

pub use buildid::BuildId;
pub use client::BuildError;
pub use client::Client;
pub use client::ClientBuilder;
pub use client::Response;
pub use http_client::HttpClient;
pub use http_client::HttpClientError;
pub use policy::FetchError;
