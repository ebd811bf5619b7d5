//! The kinds of servers.

use crate::client_config::servers;
use crate::text;
use vstd::prelude::*;

verus! {

/// How a server is spoken to.
#[derive(Debug, Clone, Copy, PartialEq, Eq, Structural)]
pub enum LlmBackendKind {
    Ollama,
    OpenAiCompat,
    LocalAi,
    Custom,
}

/// How a server of the kind `s` is spoken to: as Ollama, where the kind is not
/// known.
pub open spec fn kind_of(s: Seq<char>) -> LlmBackendKind {
    let k = text::lower(s);
    if servers::is_custom(s) {
        LlmBackendKind::Custom
    } else if k == "localai"@ {
        LlmBackendKind::LocalAi
    } else if k == "openai"@ || k == "vllm"@ || k == "llamacpp"@ || k == "llama.cpp"@ || k
        == "inference-cell"@ || k == "inference_cell"@ || k == "lmstudio"@ || k == "lm-studio"@ || k
        == "tgi"@ || k == "tensorrt"@ || k == "tensorrt-llm"@ {
        LlmBackendKind::OpenAiCompat
    } else {
        LlmBackendKind::Ollama
    }
}

/// How a server of the kind `s` is spoken to: as Ollama, where the kind is not
/// known.
pub fn parse_kind(s: &str) -> (r: LlmBackendKind)
    ensures
        r == kind_of(s@),
{
    if servers::is_custom_server_kind(s) {
        return LlmBackendKind::Custom;
    }
    let k = text::to_lower(s);
    if text::str_eq(&k, "localai") {
        LlmBackendKind::LocalAi
    } else if text::str_eq(&k, "openai") || text::str_eq(&k, "vllm") || text::str_eq(
        &k,
        "llamacpp",
    ) || text::str_eq(&k, "llama.cpp") || text::str_eq(&k, "inference-cell") || text::str_eq(
        &k,
        "inference_cell",
    ) || text::str_eq(&k, "lmstudio") || text::str_eq(&k, "lm-studio") || text::str_eq(&k, "tgi")
        || text::str_eq(&k, "tensorrt") || text::str_eq(&k, "tensorrt-llm") {
        LlmBackendKind::OpenAiCompat
    } else {
        LlmBackendKind::Ollama
    }
}

/// The one name of the kind `s`, which may go by several.
pub open spec fn label_of(s: Seq<char>) -> Seq<char> {
    let k = text::lower(s);
    if servers::is_custom(s) {
        "custom"@
    } else if k == "vllm"@ {
        "vllm"@
    } else if k == "llamacpp"@ || k == "llama.cpp"@ {
        "llamacpp"@
    } else if k == "inference-cell"@ || k == "inference_cell"@ {
        "inference-cell"@
    } else if k == "lmstudio"@ || k == "lm-studio"@ {
        "lmstudio"@
    } else if k == "localai"@ {
        "localai"@
    } else if k == "tgi"@ {
        "tgi"@
    } else if k == "tensorrt"@ || k == "tensorrt-llm"@ {
        "tensorrt"@
    } else if k == "openai"@ {
        "openai"@
    } else {
        "ollama"@
    }
}

/// The one name of the kind `s`, which may go by several.
pub fn normalize_backend_label(s: &str) -> (r: String)
    ensures
        r@ == label_of(s@),
{
    if servers::is_custom_server_kind(s) {
        return text::copy("custom");
    }
    let k = text::to_lower(s);
    if text::str_eq(&k, "vllm") {
        text::copy("vllm")
    } else if text::str_eq(&k, "llamacpp") || text::str_eq(&k, "llama.cpp") {
        text::copy("llamacpp")
    } else if text::str_eq(&k, "inference-cell") || text::str_eq(&k, "inference_cell") {
        text::copy("inference-cell")
    } else if text::str_eq(&k, "lmstudio") || text::str_eq(&k, "lm-studio") {
        text::copy("lmstudio")
    } else if text::str_eq(&k, "localai") {
        text::copy("localai")
    } else if text::str_eq(&k, "tgi") {
        text::copy("tgi")
    } else if text::str_eq(&k, "tensorrt") || text::str_eq(&k, "tensorrt-llm") {
        text::copy("tensorrt")
    } else if text::str_eq(&k, "openai") {
        text::copy("openai")
    } else {
        text::copy("ollama")
    }
}

/// What helps where a server does not answer.
pub fn backend_help(kind: LlmBackendKind) -> (r: &'static str)
    ensures
        r@ == match kind {
            LlmBackendKind::Ollama => "Make sure Ollama is running: ollama serve"@,
            LlmBackendKind::OpenAiCompat => {
                "Start your OpenAI-compatible server (vLLM, llama.cpp, LM Studio)"@
            },
            LlmBackendKind::LocalAi => "Start LocalAI on the configured port"@,
            LlmBackendKind::Custom => {
                "Configure a custom chat-completions endpoint with static models"@
            },
        },
{
    match kind {
        LlmBackendKind::Ollama => "Make sure Ollama is running: ollama serve",
        LlmBackendKind::OpenAiCompat => {
            "Start your OpenAI-compatible server (vLLM, llama.cpp, LM Studio)"
        },
        LlmBackendKind::LocalAi => "Start LocalAI on the configured port",
        LlmBackendKind::Custom => {
            "Configure a custom chat-completions endpoint with static models"
        },
    }
}

} // verus!
