//! Requests and responses of agent clients: what chat-completions servers
//! expect, and what agent clients expect back.

pub mod request;
pub mod response;
pub mod snapshot;
pub mod sse;
pub mod tool_calls;

pub use request::{
    apply_ollama_body_defaults, apply_ollama_body_defaults_with_default, ensure_ollama_ctx_options,
    ensure_ollama_ctx_options_with_default, ensure_ollama_predict_options,
    ensure_ollama_predict_options_with_default, ensure_stream_usage, normalize_chat_request,
    normalize_chat_request_with_default, AgentRequestSummary, AgentResponseFormat,
};
pub use response::{
    agent_debug_enabled, chat_completion_to_responses, chat_response_content_type,
    parse_chat_response_body, rewrite_chat_response, AgentResponseSummary,
};
pub use snapshot::AgentDebugSnapshot;
pub use sse::SseTransformState;
