pub mod text;
pub mod json;
pub mod markdown;
pub mod chunk_spec;
pub mod chunking;
pub mod mcp;
pub mod resource_uri;
pub mod mcp_endpoint;
pub mod pdf_filters;
pub mod documents;
pub mod ocr;
pub mod ask;
pub mod regression;
pub mod memory_settings;
pub mod model_catalog;
pub mod window_state;
pub mod model_endpoints;
pub mod server_settings;
pub mod desktop_settings;
pub mod stored_settings;
pub mod auth;
pub mod rate_limit;
pub mod audit;
pub mod logs;
pub mod oidc;
pub mod settings_rank;
pub mod excerpt;
pub mod indexing;
pub mod engine_errors;
pub mod legacy_answer;
pub mod clock;
pub mod model_files;
pub mod sessions;
pub mod oidc_verify;
pub mod model_env;
pub mod mcp_tools;
pub mod preview;
pub mod search_scopes;
pub mod reports;
pub mod watch_root;
pub mod enterprise_policy;
pub mod request_id;
pub mod provider_fetch;
pub mod rerank_download;
pub mod server_metrics;
pub mod tool_calls;
pub mod office;
pub mod legacy_office;
