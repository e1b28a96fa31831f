//! LLM calls during setup: provider detection, the requests each provider
//! takes, and the reading of their replies, for soul generation.
//!
//! The provider is detected from the API key prefix and a provider hint;
//! Anthropic, OpenRouter, OpenAI, ChatGPT/Codex and OpenAI-compatible
//! endpoints are supported.
use vstd::prelude::*;

use crate::http::{headers_are, is_message, is_str, HttpPost};
use crate::json::{array_of, at, field, item, str_of, JsonValue};
use crate::text::{
    ascii_lower, ascii_upper, chars_eq_str, chars_of, concat_str, find, find_from, find_from_exec, lines,
    lines_of, owned, starts_with, starts_with_str, str_eq, string_of, string_of_range,
    to_ascii_lower, trim, trim_chars, trim_str,
};

verus! {

pub const OPENAI_CODEX_RESPONSES_URL: &'static str = "https://chatgpt.com/backend-api/codex/responses";

pub const OPENAI_CODEX_ORIGINATOR: &'static str = "temperpaw";

pub const OPENAI_CODEX_USER_AGENT: &'static str = "temperpaw";

/// The JWT claim of a ChatGPT OAuth token that holds the account metadata.
pub const CHATGPT_ACCOUNT_ID_CLAIM: &'static str = "https://api.openai.com/auth";

/// Why a setup LLM step failed.
#[derive(Debug)]
pub enum SetupError {
    /// No model was given.
    ModelRequired,
    /// The `openai_codex` hint came without ChatGPT/Codex OAuth metadata.
    CodexNeedsOauthMetadata,
    /// No access token was given for `openai_codex`.
    CodexAccessTokenRequired,
    /// Neither an account id nor a token holding one was given for `openai_codex`.
    CodexAccountIdRequired,
    /// No API URL was given for an OpenAI-compatible provider.
    ApiUrlRequired { provider: String },
    /// The provider answered with a non-success status.
    ApiError { provider: String, status: u16, message: String },
    /// A success reply held no text where the provider puts it.
    NoText { provider: String },
    /// A success reply held no content where the provider puts it.
    NoContent { provider: String },
    /// The reply held no follow-up question.
    NoFollowupQuestions,
    /// The generated soul lacked its SOUL or SUMMARY section.
    MissingSoulSections,
}

/// The human-readable description of an error.
pub open spec fn error_text(e: SetupError) -> Seq<char> {
    match e {
        SetupError::ModelRequired => "LLM model is required for setup LLM calls"@,
        SetupError::CodexNeedsOauthMetadata => "openai_codex setup calls require ChatGPT/Codex OAuth account metadata and must not fall through to public OpenAI"@,
        SetupError::CodexAccessTokenRequired => "openai_codex requires openai_codex_access_token"@,
        SetupError::CodexAccountIdRequired => "openai_codex requires openai_codex_account_id or a ChatGPT OAuth token containing chatgpt_account_id"@,
        SetupError::ApiUrlRequired { provider } => provider@ + " requires an OpenAI-compatible API URL"@,
        SetupError::ApiError { provider, status, message } => provider@ + " API error ("@
            + crate::http::status_text_of(status) + "): "@ + message@,
        SetupError::NoText { provider } => "No text in "@ + provider@ + " response"@,
        SetupError::NoContent { provider } => "No content in "@ + provider@ + " response"@,
        SetupError::NoFollowupQuestions => "No follow-up questions generated"@,
        SetupError::MissingSoulSections => "Failed to parse generated soul \u{2014} missing sections"@,
    }
}

impl SetupError {
    /// The human-readable description of the error. The HTTP status of an
    /// `ApiError` is given by its number and reason phrase.
    pub fn message(&self) -> (m: String)
        ensures
            m@ == error_text(*self),
    {
        match self {
            SetupError::ModelRequired => owned("LLM model is required for setup LLM calls"),
            SetupError::CodexNeedsOauthMetadata => owned(
                "openai_codex setup calls require ChatGPT/Codex OAuth account metadata and must not fall through to public OpenAI",
            ),
            SetupError::CodexAccessTokenRequired => owned(
                "openai_codex requires openai_codex_access_token",
            ),
            SetupError::CodexAccountIdRequired => owned(
                "openai_codex requires openai_codex_account_id or a ChatGPT OAuth token containing chatgpt_account_id",
            ),
            SetupError::ApiUrlRequired { provider } => concat_str(
                owned(provider.as_str()),
                " requires an OpenAI-compatible API URL",
            ),
            SetupError::ApiError { provider, status, message } => {
                let m = concat_str(owned(provider.as_str()), " API error (");
                let st = crate::http::status_text(*status);
                let m = concat_str(m, st.as_str());
                let m = concat_str(m, "): ");
                concat_str(m, message.as_str())
            },
            SetupError::NoText { provider } => {
                let m = concat_str(owned("No text in "), provider.as_str());
                concat_str(m, " response")
            },
            SetupError::NoContent { provider } => {
                let m = concat_str(owned("No content in "), provider.as_str());
                concat_str(m, " response")
            },
            SetupError::NoFollowupQuestions => owned("No follow-up questions generated"),
            SetupError::MissingSoulSections => owned(
                "Failed to parse generated soul \u{2014} missing sections",
            ),
        }
    }
}

// ---------------------------------------------------------------- hints
/// The canonical name of a provider alias (already trimmed and lower-cased).
pub open spec fn canonical_hint(t: Seq<char>) -> Seq<char> {
    if t == "codex"@ || t == "openai-codex"@ {
        "openai_codex"@
    } else if t == "hf"@ || t == "hugging_face"@ || t == "hugging-face"@ {
        "huggingface"@
    } else if t == "fireworks_ai"@ || t == "fireworks-ai"@ {
        "fireworks"@
    } else if t == "sakana"@ || t == "sakana-fugu"@ || t == "fugu"@ {
        "sakana_fugu"@
    } else if t == "ollama"@ || t == "local"@ || t == "local-openai"@ {
        "local_openai"@
    } else if t == "openai-compatible"@ || t == "openai_compat"@ || t == "openai-compat"@ || t
        == "custom_openai"@ {
        "openai_compatible"@
    } else {
        t
    }
}

/// A provider hint, trimmed, ASCII lower-cased, with aliases replaced by
/// their canonical name.
pub open spec fn normalized_hint(provider: Seq<char>) -> Seq<char> {
    canonical_hint(ascii_lower(trim(provider)))
}

/// Normalize a provider hint: trim, lower-case (ASCII), and map aliases to
/// their canonical name.
pub fn normalize_provider_hint(provider: &str) -> (r: String)
    ensures
        r@ == normalized_hint(provider@),
{
    let t = to_ascii_lower(&trim_chars(&chars_of(provider)));
    if chars_eq_str(&t, "codex") || chars_eq_str(&t, "openai-codex") {
        owned("openai_codex")
    } else if chars_eq_str(&t, "hf") || chars_eq_str(&t, "hugging_face") || chars_eq_str(
        &t,
        "hugging-face",
    ) {
        owned("huggingface")
    } else if chars_eq_str(&t, "fireworks_ai") || chars_eq_str(&t, "fireworks-ai") {
        owned("fireworks")
    } else if chars_eq_str(&t, "sakana") || chars_eq_str(&t, "sakana-fugu") || chars_eq_str(
        &t,
        "fugu",
    ) {
        owned("sakana_fugu")
    } else if chars_eq_str(&t, "ollama") || chars_eq_str(&t, "local") || chars_eq_str(
        &t,
        "local-openai",
    ) {
        owned("local_openai")
    } else if chars_eq_str(&t, "openai-compatible") || chars_eq_str(&t, "openai_compat")
        || chars_eq_str(&t, "openai-compat") || chars_eq_str(&t, "custom_openai") {
        owned("openai_compatible")
    } else {
        crate::text::string_of(&t)
    }
}

/// The default chat-completions endpoint of a provider that is reached
/// through the OpenAI-compatible API.
pub open spec fn default_compatible_url(provider: Seq<char>) -> Option<Seq<char>> {
    if provider == "huggingface"@ {
        Some("https://router.huggingface.co/v1/chat/completions"@)
    } else if provider == "fireworks"@ {
        Some("https://api.fireworks.ai/inference/v1/chat/completions"@)
    } else if provider == "local_openai"@ {
        Some("http://127.0.0.1:11434/v1/chat/completions"@)
    } else {
        None
    }
}

pub fn default_openai_compatible_url(provider: &str) -> (r: Option<&'static str>)
    ensures
        r matches Some(u) ==> default_compatible_url(provider@) == Some(u@),
        r is None ==> default_compatible_url(provider@) is None,
{
    if crate::text::str_eq(provider, "huggingface") {
        Some("https://router.huggingface.co/v1/chat/completions")
    } else if crate::text::str_eq(provider, "fireworks") {
        Some("https://api.fireworks.ai/inference/v1/chat/completions")
    } else if crate::text::str_eq(provider, "local_openai") {
        Some("http://127.0.0.1:11434/v1/chat/completions")
    } else {
        None
    }
}

/// A canonical provider name is already trimmed, lower-case, and no alias.
proof fn lemma_canonical_fixed(c: Seq<char>)
    requires
        c == "openai_codex"@ || c == "huggingface"@ || c == "fireworks"@ || c == "sakana_fugu"@
            || c == "local_openai"@ || c == "openai_compatible"@,
    ensures
        normalized_hint(c) == c,
{
    reveal_strlit("codex");
    reveal_strlit("openai-codex");
    reveal_strlit("hf");
    reveal_strlit("hugging_face");
    reveal_strlit("hugging-face");
    reveal_strlit("fireworks_ai");
    reveal_strlit("fireworks-ai");
    reveal_strlit("sakana");
    reveal_strlit("sakana-fugu");
    reveal_strlit("fugu");
    reveal_strlit("ollama");
    reveal_strlit("local");
    reveal_strlit("local-openai");
    reveal_strlit("openai-compatible");
    reveal_strlit("openai_compat");
    reveal_strlit("openai-compat");
    reveal_strlit("custom_openai");
    reveal_strlit("openai_codex");
    reveal_strlit("huggingface");
    reveal_strlit("fireworks");
    reveal_strlit("sakana_fugu");
    reveal_strlit("local_openai");
    reveal_strlit("openai_compatible");
    assert("openai_codex"@.len() != "codex"@.len());
    assert("openai_codex"@[6] != "openai-codex"@[6]);
    assert("openai_codex"@.len() != "hf"@.len());
    assert("openai_codex"@[0] != "hugging_face"@[0]);
    assert("openai_codex"@[0] != "hugging-face"@[0]);
    assert("openai_codex"@[0] != "fireworks_ai"@[0]);
    assert("openai_codex"@[0] != "fireworks-ai"@[0]);
    assert("openai_codex"@.len() != "sakana"@.len());
    assert("openai_codex"@.len() != "sakana-fugu"@.len());
    assert("openai_codex"@.len() != "fugu"@.len());
    assert("openai_codex"@.len() != "ollama"@.len());
    assert("openai_codex"@.len() != "local"@.len());
    assert("openai_codex"@[0] != "local-openai"@[0]);
    assert("openai_codex"@.len() != "openai-compatible"@.len());
    assert("openai_codex"@.len() != "openai_compat"@.len());
    assert("openai_codex"@.len() != "openai-compat"@.len());
    assert("openai_codex"@.len() != "custom_openai"@.len());
    assert("huggingface"@.len() != "codex"@.len());
    assert("huggingface"@.len() != "openai-codex"@.len());
    assert("huggingface"@.len() != "hf"@.len());
    assert("huggingface"@.len() != "hugging_face"@.len());
    assert("huggingface"@.len() != "hugging-face"@.len());
    assert("huggingface"@.len() != "fireworks_ai"@.len());
    assert("huggingface"@.len() != "fireworks-ai"@.len());
    assert("huggingface"@.len() != "sakana"@.len());
    assert("huggingface"@[0] != "sakana-fugu"@[0]);
    assert("huggingface"@.len() != "fugu"@.len());
    assert("huggingface"@.len() != "ollama"@.len());
    assert("huggingface"@.len() != "local"@.len());
    assert("huggingface"@.len() != "local-openai"@.len());
    assert("huggingface"@.len() != "openai-compatible"@.len());
    assert("huggingface"@.len() != "openai_compat"@.len());
    assert("huggingface"@.len() != "openai-compat"@.len());
    assert("huggingface"@.len() != "custom_openai"@.len());
    assert("fireworks"@.len() != "codex"@.len());
    assert("fireworks"@.len() != "openai-codex"@.len());
    assert("fireworks"@.len() != "hf"@.len());
    assert("fireworks"@.len() != "hugging_face"@.len());
    assert("fireworks"@.len() != "hugging-face"@.len());
    assert("fireworks"@.len() != "fireworks_ai"@.len());
    assert("fireworks"@.len() != "fireworks-ai"@.len());
    assert("fireworks"@.len() != "sakana"@.len());
    assert("fireworks"@.len() != "sakana-fugu"@.len());
    assert("fireworks"@.len() != "fugu"@.len());
    assert("fireworks"@.len() != "ollama"@.len());
    assert("fireworks"@.len() != "local"@.len());
    assert("fireworks"@.len() != "local-openai"@.len());
    assert("fireworks"@.len() != "openai-compatible"@.len());
    assert("fireworks"@.len() != "openai_compat"@.len());
    assert("fireworks"@.len() != "openai-compat"@.len());
    assert("fireworks"@.len() != "custom_openai"@.len());
    assert("sakana_fugu"@.len() != "codex"@.len());
    assert("sakana_fugu"@.len() != "openai-codex"@.len());
    assert("sakana_fugu"@.len() != "hf"@.len());
    assert("sakana_fugu"@.len() != "hugging_face"@.len());
    assert("sakana_fugu"@.len() != "hugging-face"@.len());
    assert("sakana_fugu"@.len() != "fireworks_ai"@.len());
    assert("sakana_fugu"@.len() != "fireworks-ai"@.len());
    assert("sakana_fugu"@.len() != "sakana"@.len());
    assert("sakana_fugu"@[6] != "sakana-fugu"@[6]);
    assert("sakana_fugu"@.len() != "fugu"@.len());
    assert("sakana_fugu"@.len() != "ollama"@.len());
    assert("sakana_fugu"@.len() != "local"@.len());
    assert("sakana_fugu"@.len() != "local-openai"@.len());
    assert("sakana_fugu"@.len() != "openai-compatible"@.len());
    assert("sakana_fugu"@.len() != "openai_compat"@.len());
    assert("sakana_fugu"@.len() != "openai-compat"@.len());
    assert("sakana_fugu"@.len() != "custom_openai"@.len());
    assert("local_openai"@.len() != "codex"@.len());
    assert("local_openai"@[0] != "openai-codex"@[0]);
    assert("local_openai"@.len() != "hf"@.len());
    assert("local_openai"@[0] != "hugging_face"@[0]);
    assert("local_openai"@[0] != "hugging-face"@[0]);
    assert("local_openai"@[0] != "fireworks_ai"@[0]);
    assert("local_openai"@[0] != "fireworks-ai"@[0]);
    assert("local_openai"@.len() != "sakana"@.len());
    assert("local_openai"@.len() != "sakana-fugu"@.len());
    assert("local_openai"@.len() != "fugu"@.len());
    assert("local_openai"@.len() != "ollama"@.len());
    assert("local_openai"@.len() != "local"@.len());
    assert("local_openai"@[5] != "local-openai"@[5]);
    assert("local_openai"@.len() != "openai-compatible"@.len());
    assert("local_openai"@.len() != "openai_compat"@.len());
    assert("local_openai"@.len() != "openai-compat"@.len());
    assert("local_openai"@.len() != "custom_openai"@.len());
    assert("openai_compatible"@.len() != "codex"@.len());
    assert("openai_compatible"@.len() != "openai-codex"@.len());
    assert("openai_compatible"@.len() != "hf"@.len());
    assert("openai_compatible"@.len() != "hugging_face"@.len());
    assert("openai_compatible"@.len() != "hugging-face"@.len());
    assert("openai_compatible"@.len() != "fireworks_ai"@.len());
    assert("openai_compatible"@.len() != "fireworks-ai"@.len());
    assert("openai_compatible"@.len() != "sakana"@.len());
    assert("openai_compatible"@.len() != "sakana-fugu"@.len());
    assert("openai_compatible"@.len() != "fugu"@.len());
    assert("openai_compatible"@.len() != "ollama"@.len());
    assert("openai_compatible"@.len() != "local"@.len());
    assert("openai_compatible"@.len() != "local-openai"@.len());
    assert("openai_compatible"@[6] != "openai-compatible"@[6]);
    assert("openai_compatible"@.len() != "openai_compat"@.len());
    assert("openai_compatible"@.len() != "openai-compat"@.len());
    assert("openai_compatible"@.len() != "custom_openai"@.len());
    assert(c.len() > 0);
    assert(!crate::text::is_whitespace(c[0]));
    assert(!crate::text::is_whitespace(c.last()));
    assert(crate::text::trim_start(c) == c);
    assert(crate::text::trim_end(c) == c);
    assert(ascii_lower(c) =~= c);
    assert(canonical_hint(c) == c);
}

/// Normalizing a provider hint twice is normalizing it once.
pub proof fn lemma_normalize_idempotent(provider: Seq<char>)
    ensures
        normalized_hint(normalized_hint(provider)) == normalized_hint(provider),
{
    let t = ascii_lower(trim(provider));
    crate::text::lemma_trim_idempotent(provider);
    crate::text::lemma_lower_keeps_trimmed(trim(provider));
    if canonical_hint(t) == t {
        assert(trim(t) == t);
        assert(ascii_lower(t) == t);
    } else {
        lemma_canonical_fixed(canonical_hint(t));
    }
}

/// A provider hint normalizes the same with surrounding spaces and in ASCII
/// upper case: `" CODEX "` names the same provider as `"codex"`.
pub proof fn lemma_normalize_ignores_case_and_spaces(provider: Seq<char>)
    ensures
        normalized_hint(seq![' '] + ascii_upper(provider) + seq![' ']) == normalized_hint(
            provider,
        ),
{
    crate::text::lemma_lower_trim_ignores_case_and_spaces(provider);
}

// ---------------------------------------------------------------- providers
/// Detected LLM provider with its configuration.
#[derive(Debug, Clone)]
pub enum LlmProvider {
    Anthropic { api_key: String, model: String },
    OpenRouter { api_key: String, model: String },
    OpenAi { api_key: String, model: String },
    OpenAiCodex { access_token: String, account_id: String, api_url: String, model: String },
    OpenAiCompatible { provider: String, api_key: String, api_url: String, model: String },
}

/// Whether `s` is empty or all whitespace.
pub open spec fn is_blank(s: Seq<char>) -> bool {
    trim(s).len() == 0
}

/// What `detect` gives for an API key, a provider hint and a model.
pub open spec fn detected(
    api_key: Seq<char>,
    hint: Seq<char>,
    model: Seq<char>,
    r: Result<LlmProvider, SetupError>,
) -> bool {
    let h = normalized_hint(hint);
    if is_blank(model) {
        r matches Err(SetupError::ModelRequired)
    } else if starts_with(api_key, "sk-ant-"@) || h == "anthropic"@ {
        r matches Ok(LlmProvider::Anthropic { api_key: k, model: m }) && k@ == api_key && m@
            == model
    } else if starts_with(api_key, "sk-or-"@) || h == "openrouter"@ {
        r matches Ok(LlmProvider::OpenRouter { api_key: k, model: m }) && k@ == api_key && m@
            == model
    } else if h == "openai_codex"@ {
        r matches Err(SetupError::CodexNeedsOauthMetadata)
    } else if default_compatible_url(h) is Some {
        r matches Ok(LlmProvider::OpenAiCompatible { provider: p, api_key: k, api_url: u, model: m })
            && p@ == h && k@ == api_key && u@ == default_compatible_url(h)->0 && m@ == model
    } else {
        r matches Ok(LlmProvider::OpenAi { api_key: k, model: m }) && k@ == api_key && m@ == model
    }
}

/// Detection by key prefix, for any non-blank model: an Anthropic key
/// (`sk-ant-`) always gives the Anthropic provider; an OpenRouter key
/// (`sk-or-`), unless the hint names Anthropic, gives the OpenRouter provider;
/// a hint naming OpenRouter does too for any key but an Anthropic one. Each
/// carries the key and the model it was given; so a detected OpenAI provider
/// never holds an Anthropic or OpenRouter key. A blank model is refused.
pub proof fn lemma_detect_by_key_prefix(
    api_key: Seq<char>,
    hint: Seq<char>,
    model: Seq<char>,
    r: Result<LlmProvider, SetupError>,
)
    requires
        detected(api_key, hint, model, r),
    ensures
        is_blank(model) ==> r matches Err(SetupError::ModelRequired),
        !is_blank(model) && starts_with(api_key, "sk-ant-"@) ==> (r matches Ok(
            LlmProvider::Anthropic { api_key: k, model: m },
        ) && k@ == api_key && m@ == model),
        !is_blank(model) && starts_with(api_key, "sk-or-"@) && !starts_with(api_key, "sk-ant-"@)
            && normalized_hint(hint) != "anthropic"@ ==> (r matches Ok(
            LlmProvider::OpenRouter { api_key: k, model: m },
        ) && k@ == api_key && m@ == model),
        !is_blank(model) && normalized_hint(hint) == "openrouter"@ && !starts_with(
            api_key,
            "sk-ant-"@,
        ) ==> (r matches Ok(LlmProvider::OpenRouter { api_key: k, model: m }) && k@ == api_key
            && m@ == model),
        r matches Ok(LlmProvider::OpenAi { .. }) ==> !starts_with(api_key, "sk-ant-"@)
            && !starts_with(api_key, "sk-or-"@),
{
    reveal_strlit("anthropic");
    reveal_strlit("openrouter");
    assert("anthropic"@[0] != "openrouter"@[0]);
}

/// Detection by hint, for any non-blank model and a key with neither the
/// Anthropic nor the OpenRouter prefix: the `openai_codex` hint is refused
/// (it needs OAuth metadata and must not fall through to public OpenAI); the
/// Hugging Face, Fireworks and local hints give an OpenAI-compatible provider
/// at that provider's default endpoint; a key with no recognized hint goes to
/// OpenAI.
pub proof fn lemma_detect_by_hint(
    api_key: Seq<char>,
    hint: Seq<char>,
    model: Seq<char>,
    r: Result<LlmProvider, SetupError>,
)
    requires
        detected(api_key, hint, model, r),
        !is_blank(model),
        !starts_with(api_key, "sk-ant-"@),
        !starts_with(api_key, "sk-or-"@),
    ensures
        normalized_hint(hint) == "openai_codex"@ ==> r matches Err(
            SetupError::CodexNeedsOauthMetadata,
        ),
        normalized_hint(hint) == "huggingface"@ ==> (r matches Ok(
            LlmProvider::OpenAiCompatible { provider: p, api_key: k, api_url: u, model: m },
        ) && p@ == "huggingface"@ && k@ == api_key && m@ == model && u@
            == "https://router.huggingface.co/v1/chat/completions"@),
        normalized_hint(hint) == "fireworks"@ ==> (r matches Ok(
            LlmProvider::OpenAiCompatible { provider: p, api_key: k, api_url: u, model: m },
        ) && p@ == "fireworks"@ && k@ == api_key && m@ == model && u@
            == "https://api.fireworks.ai/inference/v1/chat/completions"@),
        normalized_hint(hint) == "local_openai"@ ==> (r matches Ok(
            LlmProvider::OpenAiCompatible { provider: p, api_key: k, api_url: u, model: m },
        ) && p@ == "local_openai"@ && k@ == api_key && m@ == model && u@
            == "http://127.0.0.1:11434/v1/chat/completions"@),
        ({
            let h = normalized_hint(hint);
            h != "anthropic"@ && h != "openrouter"@ && h != "openai_codex"@ && h != "huggingface"@
                && h != "fireworks"@ && h != "local_openai"@
        }) ==> (r matches Ok(LlmProvider::OpenAi { api_key: k, model: m }) && k@ == api_key && m@
            == model),
{
    reveal_strlit("anthropic");
    reveal_strlit("openrouter");
    reveal_strlit("openai_codex");
    reveal_strlit("huggingface");
    reveal_strlit("fireworks");
    reveal_strlit("local_openai");
    assert("anthropic"@[0] != "openai_codex"@[0]);
    assert("openrouter"@.len() != "openai_codex"@.len());
    assert("anthropic"@[0] != "huggingface"@[0]);
    assert("openrouter"@[0] != "huggingface"@[0]);
    assert("openai_codex"@[0] != "huggingface"@[0]);
    assert("anthropic"@[0] != "fireworks"@[0]);
    assert("openrouter"@[0] != "fireworks"@[0]);
    assert("openai_codex"@[0] != "fireworks"@[0]);
    assert("huggingface"@[0] != "fireworks"@[0]);
    assert("anthropic"@[0] != "local_openai"@[0]);
    assert("openrouter"@[0] != "local_openai"@[0]);
    assert("openai_codex"@[0] != "local_openai"@[0]);
    assert("huggingface"@[0] != "local_openai"@[0]);
    assert("fireworks"@[0] != "local_openai"@[0]);
}

pub fn is_blank_str(s: &str) -> (r: bool)
    ensures
        r == is_blank(s@),
{
    trim_chars(&chars_of(s)).len() == 0
}

impl LlmProvider {
    /// Detect the provider from the API key prefix and the provider hint.
    pub fn detect(api_key: &str, provider_hint: &str, model: &str) -> (r: Result<
        LlmProvider,
        SetupError,
    >)
        ensures
            detected(api_key@, provider_hint@, model@, r),
    {
        if is_blank_str(model) {
            return Err(SetupError::ModelRequired);
        }
        let hint = normalize_provider_hint(provider_hint);
        let key = chars_of(api_key);
        if starts_with_str(&key, "sk-ant-") || crate::text::str_eq(hint.as_str(), "anthropic") {
            Ok(LlmProvider::Anthropic { api_key: owned(api_key), model: owned(model) })
        } else if starts_with_str(&key, "sk-or-") || crate::text::str_eq(
            hint.as_str(),
            "openrouter",
        ) {
            Ok(LlmProvider::OpenRouter { api_key: owned(api_key), model: owned(model) })
        } else if crate::text::str_eq(hint.as_str(), "openai_codex") {
            Err(SetupError::CodexNeedsOauthMetadata)
        } else {
            match default_openai_compatible_url(hint.as_str()) {
                Some(api_url) => Ok(
                    LlmProvider::OpenAiCompatible {
                        provider: hint,
                        api_key: owned(api_key),
                        api_url: owned(api_url),
                        model: owned(model),
                    },
                ),
                None => Ok(LlmProvider::OpenAi { api_key: owned(api_key), model: owned(model) }),
            }
        }
    }

    /// A ChatGPT/Codex provider. The account id is `account_id` where it is
    /// not blank, else the one carried by the access token (`token_account_id`,
    /// see `chatgpt_account_id_from_claims`).
    pub fn openai_codex(
        access_token: &str,
        account_id: Option<&str>,
        token_account_id: Option<&str>,
        model: &str,
    ) -> (r: Result<LlmProvider, SetupError>)
        ensures
            is_blank(model@) ==> r matches Err(SetupError::ModelRequired),
            !is_blank(model@) && is_blank(access_token@) ==> r matches Err(
                SetupError::CodexAccessTokenRequired,
            ),
            !is_blank(model@) && !is_blank(access_token@) ==> match chosen_account_id(
                account_id,
                token_account_id,
            ) {
                None => r matches Err(SetupError::CodexAccountIdRequired),
                Some(a) => (r matches Ok(
                    LlmProvider::OpenAiCodex { access_token: t, account_id: id, api_url: u, model: m },
                ) && t@ == access_token@ && id@ == a && u@ == OPENAI_CODEX_RESPONSES_URL@ && m@
                    == model@),
            },
    {
        if is_blank_str(model) {
            return Err(SetupError::ModelRequired);
        }
        if is_blank_str(access_token) {
            return Err(SetupError::CodexAccessTokenRequired);
        }
        let chosen = match account_id {
            Some(a) => if is_blank_str(a) {
                token_account_id
            } else {
                Some(a)
            },
            None => token_account_id,
        };
        match chosen {
            Some(a) => Ok(
                LlmProvider::OpenAiCodex {
                    access_token: owned(access_token),
                    account_id: owned(a),
                    api_url: owned(OPENAI_CODEX_RESPONSES_URL),
                    model: owned(model),
                },
            ),
            None => Err(SetupError::CodexAccountIdRequired),
        }
    }

    /// An OpenAI-compatible provider at an explicit API URL.
    pub fn openai_compatible(provider: &str, api_key: &str, api_url: &str, model: &str) -> (r:
        Result<LlmProvider, SetupError>)
        ensures
            is_blank(model@) ==> r matches Err(SetupError::ModelRequired),
            !is_blank(model@) && is_blank(api_url@) ==> (r matches Err(
                SetupError::ApiUrlRequired { provider: p },
            ) && p@ == provider@),
            !is_blank(model@) && !is_blank(api_url@) ==> (r matches Ok(
                LlmProvider::OpenAiCompatible { provider: p, api_key: k, api_url: u, model: m },
            ) && p@ == normalized_hint(provider@) && k@ == api_key@ && u@ == api_url@ && m@
                == model@),
    {
        if is_blank_str(model) {
            return Err(SetupError::ModelRequired);
        }
        if is_blank_str(api_url) {
            return Err(SetupError::ApiUrlRequired { provider: owned(provider) });
        }
        Ok(
            LlmProvider::OpenAiCompatible {
                provider: normalize_provider_hint(provider),
                api_key: owned(api_key),
                api_url: owned(api_url),
                model: owned(model),
            },
        )
    }
}

/// The account id a Codex provider uses: the given one where it is not
/// blank, else the one the token carries.
pub open spec fn chosen_account_id(account_id: Option<&str>, token_account_id: Option<&str>) -> Option<Seq<char>> {
    match account_id {
        Some(a) if !is_blank(a@) => Some(a@),
        _ => match token_account_id {
            Some(t) => Some(t@),
            None => None,
        },
    }
}

/// Codex OAuth tokens never become public OpenAI keys: whatever the key,
/// where the hint names `openai_codex` (or an alias of it) detection does not
/// produce a public OpenAI provider.
pub proof fn lemma_codex_hint_never_public_openai(
    api_key: Seq<char>,
    hint: Seq<char>,
    model: Seq<char>,
    r: Result<LlmProvider, SetupError>,
)
    requires
        detected(api_key, hint, model, r),
        normalized_hint(hint) == "openai_codex"@,
    ensures
        !(r matches Ok(LlmProvider::OpenAi { .. })),
        !(r matches Ok(LlmProvider::OpenAiCompatible { .. })),
{
    reveal_strlit("openai_codex");
    reveal_strlit("anthropic");
    reveal_strlit("openrouter");
    assert("openai_codex"@ != "anthropic"@) by {
        assert("openai_codex"@[0] != "anthropic"@[0]);
    }
    assert("openai_codex"@ != "openrouter"@) by {
        assert("openai_codex"@.len() != "openrouter"@.len());
    }
}

// ---------------------------------------------------------------- requests
/// Whether `b` is a chat-completions body: model, token limit, and a system
/// then a user message.
pub open spec fn is_chat_body(
    b: JsonValue,
    model: Seq<char>,
    max_tokens: u32,
    system: Seq<char>,
    user_msg: Seq<char>,
) -> bool {
    &&& b matches JsonValue::Object(es)
    &&& es@.len() == 3
    &&& es@[0].0@ == "model"@ && is_str(es@[0].1, model)
    &&& es@[1].0@ == "max_tokens"@ && es@[1].1 == JsonValue::Int(max_tokens as i64)
    &&& es@[2].0@ == "messages"@
    &&& es@[2].1 matches JsonValue::Array(ms)
    &&& ms@.len() == 2
    &&& is_message(ms@[0], "system"@, system)
    &&& is_message(ms@[1], "user"@, user_msg)
}

/// Whether `b` is an Anthropic messages body: model, token limit, system
/// prompt, and one user message.
pub open spec fn is_anthropic_body(
    b: JsonValue,
    model: Seq<char>,
    max_tokens: u32,
    system: Seq<char>,
    user_msg: Seq<char>,
) -> bool {
    &&& b matches JsonValue::Object(es)
    &&& es@.len() == 4
    &&& es@[0].0@ == "model"@ && is_str(es@[0].1, model)
    &&& es@[1].0@ == "max_tokens"@ && es@[1].1 == JsonValue::Int(max_tokens as i64)
    &&& es@[2].0@ == "system"@ && is_str(es@[2].1, system)
    &&& es@[3].0@ == "messages"@
    &&& es@[3].1 matches JsonValue::Array(ms)
    &&& ms@.len() == 1
    &&& is_message(ms@[0], "user"@, user_msg)
}

/// Whether `b` is a ChatGPT/Codex responses body: model, instructions, one
/// user input, streamed, not stored, medium reasoning effort with automatic
/// summaries, and no token limit (the subscription endpoint rejects
/// `max_output_tokens`).
pub open spec fn is_codex_body(b: JsonValue, model: Seq<char>, system: Seq<char>, user_msg: Seq<char>) -> bool {
    &&& b matches JsonValue::Object(es)
    &&& es@.len() == 6
    &&& es@[0].0@ == "model"@ && is_str(es@[0].1, model)
    &&& es@[1].0@ == "instructions"@ && is_str(es@[1].1, system)
    &&& es@[2].0@ == "input"@
    &&& es@[2].1 matches JsonValue::Array(ms)
    &&& ms@.len() == 1
    &&& is_message(ms@[0], "user"@, user_msg)
    &&& es@[3].0@ == "stream"@ && es@[3].1 == JsonValue::Bool(true)
    &&& es@[4].0@ == "store"@ && es@[4].1 == JsonValue::Bool(false)
    &&& es@[5].0@ == "reasoning"@
    &&& es@[5].1 matches JsonValue::Object(rs)
    &&& rs@.len() == 2
    &&& rs@[0].0@ == "effort"@ && is_str(rs@[0].1, "medium"@)
    &&& rs@[1].0@ == "summary"@ && is_str(rs@[1].1, "auto"@)
}

/// A Codex request body never carries a token limit: it has no
/// `max_output_tokens` member, whatever the token limit asked for.
pub proof fn lemma_codex_body_has_no_token_limit(
    b: JsonValue,
    model: Seq<char>,
    system: Seq<char>,
    user_msg: Seq<char>,
)
    requires
        is_codex_body(b, model, system, user_msg),
    ensures
        field(b, "max_output_tokens"@) is None,
{
    reveal_strlit("max_output_tokens");
    reveal_strlit("model");
    reveal_strlit("instructions");
    reveal_strlit("input");
    reveal_strlit("stream");
    reveal_strlit("store");
    reveal_strlit("reasoning");
    let es = b->Object_0;
    let key = "max_output_tokens"@;
    assert(key.len() != "model"@.len());
    assert(key.len() != "instructions"@.len());
    assert(key.len() != "input"@.len());
    assert(key.len() != "stream"@.len());
    assert(key.len() != "store"@.len());
    assert(key.len() != "reasoning"@.len());
    assert forall|k: int| 0 <= k < es@.len() implies #[trigger] es@[k].0@ != key by {
        if k == 0 {
        } else if k == 1 {
        } else if k == 2 {
        } else if k == 3 {
        } else if k == 4 {
        } else {
        }
    }
    crate::json::lemma_key_absent(es@, key, 0);
}

fn entry(key: &str, value: JsonValue) -> (e: (String, JsonValue))
    ensures
        e.0@ == key@,
        e.1 == value,
{
    (owned(key), value)
}

fn message_object(role: &str, content: &str) -> (v: JsonValue)
    ensures
        is_message(v, role@, content@),
{
    JsonValue::Object(
        vec![entry("role", JsonValue::string(role)), entry("content", JsonValue::string(content))],
    )
}

/// The body of a chat-completions request.
pub fn chat_completions_body(model: &str, max_tokens: u32, system: &str, user_msg: &str) -> (b:
    JsonValue)
    ensures
        is_chat_body(b, model@, max_tokens, system@, user_msg@),
{
    let messages = vec![message_object("system", system), message_object("user", user_msg)];
    JsonValue::Object(
        vec![
            entry("model", JsonValue::string(model)),
            entry("max_tokens", JsonValue::Int(max_tokens as i64)),
            entry("messages", JsonValue::Array(messages)),
        ],
    )
}

/// The body of an Anthropic messages request.
pub fn anthropic_messages_body(model: &str, max_tokens: u32, system: &str, user_msg: &str) -> (b:
    JsonValue)
    ensures
        is_anthropic_body(b, model@, max_tokens, system@, user_msg@),
{
    let messages = vec![message_object("user", user_msg)];
    JsonValue::Object(
        vec![
            entry("model", JsonValue::string(model)),
            entry("max_tokens", JsonValue::Int(max_tokens as i64)),
            entry("system", JsonValue::string(system)),
            entry("messages", JsonValue::Array(messages)),
        ],
    )
}

/// The body of a ChatGPT/Codex responses request. The token limit is not
/// sent: the subscription endpoint rejects it.
pub fn build_openai_codex_responses_body(
    model: &str,
    system: &str,
    user_msg: &str,
    _max_tokens: u32,
) -> (b: JsonValue)
    ensures
        is_codex_body(b, model@, system@, user_msg@),
{
    let input = vec![message_object("user", user_msg)];
    let reasoning = JsonValue::Object(
        vec![entry("effort", JsonValue::string("medium")), entry("summary", JsonValue::string("auto"))],
    );
    JsonValue::Object(
        vec![
            entry("model", JsonValue::string(model)),
            entry("instructions", JsonValue::string(system)),
            entry("input", JsonValue::Array(input)),
            entry("stream", JsonValue::Bool(true)),
            entry("store", JsonValue::Bool(false)),
            entry("reasoning", reasoning),
        ],
    )
}

fn header(name: &str, value: String) -> (h: (String, String))
    ensures
        h.0@ == name@,
        h.1 == value,
{
    (owned(name), value)
}

/// The headers of a ChatGPT/Codex request.
pub open spec fn codex_headers(access_token: Seq<char>, account_id: Seq<char>) -> Seq<
    (Seq<char>, Seq<char>),
> {
    seq![
        ("authorization"@, "Bearer "@ + access_token),
        ("content-type"@, "application/json"@),
        ("accept"@, "text/event-stream"@),
        ("chatgpt-account-id"@, account_id),
        ("originator"@, OPENAI_CODEX_ORIGINATOR@),
        ("user-agent"@, OPENAI_CODEX_USER_AGENT@),
        ("openai-beta"@, "responses=v1"@),
    ]
}

/// The headers of a ChatGPT/Codex request, in order.
pub fn openai_codex_headers(access_token: &str, account_id: &str) -> (h: Vec<(String, String)>)
    ensures
        headers_are(h@, codex_headers(access_token@, account_id@)),
{
    let h = vec![
        header("authorization", concat_str(owned("Bearer "), access_token)),
        header("content-type", owned("application/json")),
        header("accept", owned("text/event-stream")),
        header("chatgpt-account-id", owned(account_id)),
        header("originator", owned(OPENAI_CODEX_ORIGINATOR)),
        header("user-agent", owned(OPENAI_CODEX_USER_AGENT)),
        header("openai-beta", owned("responses=v1")),
    ];
    assert(headers_are(h@, codex_headers(access_token@, account_id@)));
    h
}

/// The endpoint, headers and body a provider's request takes.
pub open spec fn is_request_for(
    p: LlmProvider,
    system: Seq<char>,
    user_msg: Seq<char>,
    max_tokens: u32,
    r: HttpPost,
) -> bool {
    match p {
        LlmProvider::Anthropic { api_key, model } => {
            &&& r.url@ == "https://api.anthropic.com/v1/messages"@
            &&& headers_are(
                r.headers@,
                seq![
                    ("x-api-key"@, api_key@),
                    ("anthropic-version"@, "2023-06-01"@),
                    ("content-type"@, "application/json"@),
                ],
            )
            &&& is_anthropic_body(r.body, model@, max_tokens, system, user_msg)
        },
        LlmProvider::OpenRouter { api_key, model } => {
            &&& r.url@ == "https://openrouter.ai/api/v1/chat/completions"@
            &&& headers_are(
                r.headers@,
                seq![
                    ("authorization"@, "Bearer "@ + api_key@),
                    ("content-type"@, "application/json"@),
                ],
            )
            &&& is_chat_body(r.body, model@, max_tokens, system, user_msg)
        },
        LlmProvider::OpenAi { api_key, model } => {
            &&& r.url@ == "https://api.openai.com/v1/chat/completions"@
            &&& headers_are(
                r.headers@,
                seq![
                    ("authorization"@, "Bearer "@ + api_key@),
                    ("content-type"@, "application/json"@),
                ],
            )
            &&& is_chat_body(r.body, model@, max_tokens, system, user_msg)
        },
        LlmProvider::OpenAiCodex { access_token, account_id, api_url, model } => {
            &&& r.url@ == api_url@
            &&& headers_are(r.headers@, codex_headers(access_token@, account_id@))
            &&& is_codex_body(r.body, model@, system, user_msg)
        },
        LlmProvider::OpenAiCompatible { provider, api_key, api_url, model } => {
            &&& r.url@ == api_url@
            &&& headers_are(
                r.headers@,
                if is_blank(api_key@) {
                    seq![("content-type"@, "application/json"@)]
                } else {
                    seq![
                        ("content-type"@, "application/json"@),
                        ("authorization"@, "Bearer "@ + api_key@),
                    ]
                },
            )
            &&& is_chat_body(r.body, model@, max_tokens, system, user_msg)
        },
    }
}

/// Each provider's request goes to that provider's own endpoint: Anthropic,
/// OpenRouter and OpenAI to their fixed endpoints (three different URLs, so
/// a key never reaches another provider's API), ChatGPT/Codex and
/// OpenAI-compatible providers to the URL they were made with.
pub proof fn lemma_request_endpoints(
    p: LlmProvider,
    system: Seq<char>,
    user_msg: Seq<char>,
    max_tokens: u32,
    r: HttpPost,
)
    requires
        is_request_for(p, system, user_msg, max_tokens, r),
    ensures
        p is Anthropic ==> r.url@ == "https://api.anthropic.com/v1/messages"@,
        p is OpenRouter ==> r.url@ == "https://openrouter.ai/api/v1/chat/completions"@,
        p is OpenAi ==> r.url@ == "https://api.openai.com/v1/chat/completions"@,
        p matches LlmProvider::OpenAiCodex { api_url, .. } ==> r.url@ == api_url@,
        p matches LlmProvider::OpenAiCompatible { api_url, .. } ==> r.url@ == api_url@,
        p is OpenRouter ==> r.url@ != "https://api.openai.com/v1/chat/completions"@ && r.url@
            != "https://api.anthropic.com/v1/messages"@,
        p is OpenAi ==> r.url@ != "https://openrouter.ai/api/v1/chat/completions"@ && r.url@
            != "https://api.anthropic.com/v1/messages"@,
        p is Anthropic ==> r.url@ != "https://openrouter.ai/api/v1/chat/completions"@ && r.url@
            != "https://api.openai.com/v1/chat/completions"@,
{
    reveal_strlit("https://api.anthropic.com/v1/messages");
    reveal_strlit("https://openrouter.ai/api/v1/chat/completions");
    reveal_strlit("https://api.openai.com/v1/chat/completions");
    assert("https://openrouter.ai/api/v1/chat/completions"@[8] != "https://api.openai.com/v1/chat/completions"@[8]);
    assert("https://openrouter.ai/api/v1/chat/completions"@[8] != "https://api.anthropic.com/v1/messages"@[8]);
    assert("https://api.openai.com/v1/chat/completions"@[12] != "https://api.anthropic.com/v1/messages"@[12]);
}

/// Each request carries the provider's own credential: the Anthropic key as
/// `x-api-key`, the OpenRouter and OpenAI keys as a bearer token, each first
/// among the headers; a JSON body is announced in every request.
pub proof fn lemma_request_carries_key(
    p: LlmProvider,
    system: Seq<char>,
    user_msg: Seq<char>,
    max_tokens: u32,
    r: HttpPost,
)
    requires
        is_request_for(p, system, user_msg, max_tokens, r),
    ensures
        p matches LlmProvider::Anthropic { api_key, .. } ==> r.headers@.len() == 3
            && r.headers@[0].0@ == "x-api-key"@ && r.headers@[0].1@ == api_key@,
        p matches LlmProvider::OpenRouter { api_key, .. } ==> r.headers@.len() == 2
            && r.headers@[0].0@ == "authorization"@ && r.headers@[0].1@ == "Bearer "@ + api_key@,
        p matches LlmProvider::OpenAi { api_key, .. } ==> r.headers@.len() == 2
            && r.headers@[0].0@ == "authorization"@ && r.headers@[0].1@ == "Bearer "@ + api_key@,
        !(p is OpenAiCodex) ==> exists|k: int|
            0 <= k < r.headers@.len() && #[trigger] r.headers@[k].0@ == "content-type"@
                && r.headers@[k].1@ == "application/json"@,
{
    match p {
        LlmProvider::Anthropic { api_key, .. } => {
            let expected = seq![
                ("x-api-key"@, api_key@),
                ("anthropic-version"@, "2023-06-01"@),
                ("content-type"@, "application/json"@),
            ];
            assert(expected[0].0 == "x-api-key"@ && expected[0].1 == api_key@);
            assert(headers_are(r.headers@, expected));
            assert(expected.len() == 3);
            assert(r.headers@.len() == 3);
            assert(r.headers@[0].0@ == expected[0].0);
            assert(r.headers@[0].1@ == expected[0].1);
            assert(r.headers@[2].0@ == "content-type"@);
        },
        LlmProvider::OpenRouter { .. } => {
            assert(r.headers@[1].0@ == "content-type"@);
        },
        LlmProvider::OpenAi { .. } => {
            assert(r.headers@[1].0@ == "content-type"@);
        },
        LlmProvider::OpenAiCompatible { .. } => {
            assert(r.headers@[0].0@ == "content-type"@);
        },
        _ => {},
    }
}

impl LlmProvider {
    /// The request that asks this provider for a reply to `user_msg` under
    /// the system prompt `system`.
    pub fn request(&self, system: &str, user_msg: &str, max_tokens: u32) -> (r: HttpPost)
        ensures
            is_request_for(*self, system@, user_msg@, max_tokens, r),
    {
        match self {
            LlmProvider::Anthropic { api_key, model } => {
                let headers = vec![
                    header("x-api-key", owned(api_key.as_str())),
                    header("anthropic-version", owned("2023-06-01")),
                    header("content-type", owned("application/json")),
                ];
                HttpPost {
                    url: owned("https://api.anthropic.com/v1/messages"),
                    headers,
                    body: anthropic_messages_body(model.as_str(), max_tokens, system, user_msg),
                }
            },
            LlmProvider::OpenRouter { api_key, model } => {
                let headers = vec![
                    header("authorization", concat_str(owned("Bearer "), api_key.as_str())),
                    header("content-type", owned("application/json")),
                ];
                HttpPost {
                    url: owned("https://openrouter.ai/api/v1/chat/completions"),
                    headers,
                    body: chat_completions_body(model.as_str(), max_tokens, system, user_msg),
                }
            },
            LlmProvider::OpenAi { api_key, model } => {
                let headers = vec![
                    header("authorization", concat_str(owned("Bearer "), api_key.as_str())),
                    header("content-type", owned("application/json")),
                ];
                HttpPost {
                    url: owned("https://api.openai.com/v1/chat/completions"),
                    headers,
                    body: chat_completions_body(model.as_str(), max_tokens, system, user_msg),
                }
            },
            LlmProvider::OpenAiCodex { access_token, account_id, api_url, model } => {
                HttpPost {
                    url: owned(api_url.as_str()),
                    headers: openai_codex_headers(access_token.as_str(), account_id.as_str()),
                    body: build_openai_codex_responses_body(
                        model.as_str(),
                        system,
                        user_msg,
                        max_tokens,
                    ),
                }
            },
            LlmProvider::OpenAiCompatible { provider, api_key, api_url, model } => {
                let mut headers = vec![header("content-type", owned("application/json"))];
                if !is_blank_str(api_key.as_str()) {
                    headers.push(
                        header("authorization", concat_str(owned("Bearer "), api_key.as_str())),
                    );
                }
                HttpPost {
                    url: owned(api_url.as_str()),
                    headers,
                    body: chat_completions_body(model.as_str(), max_tokens, system, user_msg),
                }
            },
        }
    }
}

// ---------------------------------------------------------------- replies
/// The text of a content part, or nothing where it has none.
pub open spec fn part_text(p: JsonValue) -> Seq<char> {
    match str_of(field(p, "text"@)) {
        Some(t) => t,
        None => Seq::empty(),
    }
}

/// The texts of the parts, joined.
pub open spec fn combined_text(parts: Seq<JsonValue>) -> Seq<char>
    decreases parts.len(),
{
    if parts.len() == 0 {
        Seq::empty()
    } else {
        combined_text(parts.drop_last()) + part_text(parts.last())
    }
}

/// The text of an output item: that of a `message` item whose joined content
/// is not blank.
pub open spec fn item_text(it: JsonValue) -> Option<Seq<char>> {
    if str_of(field(it, "type"@)) == Some("message"@) {
        match array_of(field(it, "content"@)) {
            Some(parts) => if !is_blank(combined_text(parts)) {
                Some(combined_text(parts))
            } else {
                None
            },
            None => None,
        }
    } else {
        None
    }
}

/// The text of the first output item, from index `i` on, that has one.
pub open spec fn first_item_text(items: Seq<JsonValue>, i: int) -> Option<Seq<char>>
    decreases items.len() - i,
{
    if i < 0 || i >= items.len() {
        None
    } else {
        match item_text(items[i]) {
            Some(t) => Some(t),
            None => first_item_text(items, i + 1),
        }
    }
}

/// The reply text of a Responses API result: that of its first output item
/// that has one.
pub open spec fn responses_text(v: JsonValue) -> Option<Seq<char>> {
    match array_of(field(v, "output"@)) {
        Some(items) => first_item_text(items, 0),
        None => None,
    }
}

fn output_item_text(it: &JsonValue) -> (r: Option<String>)
    ensures
        r matches Some(t) ==> item_text(*it) == Some(t@),
        r is None ==> item_text(*it) is None,
{
    let is_message = match it.get("type") {
        Some(t) => match t.as_str() {
            Some(s) => str_eq(s, "message"),
            None => false,
        },
        None => false,
    };
    if !is_message {
        return None;
    }
    let parts = match it.get("content") {
        Some(c) => match c.as_array() {
            Some(a) => a,
            None => {
                return None;
            },
        },
        None => {
            return None;
        },
    };
    let mut combined = String::new();
    let mut k: usize = 0;
    while k < parts.len()
        invariant
            k <= parts@.len(),
            combined@ == combined_text(parts@.take(k as int)),
        decreases parts.len() - k,
    {
        let part = &parts[k];
        match part.get("text") {
            Some(t) => match t.as_str() {
                Some(s) => {
                    combined.append(s);
                },
                None => {},
            },
            None => {},
        }
        assert(parts@.take(k + 1).drop_last() == parts@.take(k as int));
        k += 1;
    }
    assert(parts@.take(parts.len() as int) == parts@);
    if is_blank_str(combined.as_str()) {
        None
    } else {
        Some(combined)
    }
}

/// The reply text of a Responses API result.
pub fn parse_openai_responses_text(parsed: &JsonValue) -> (r: Option<String>)
    ensures
        r matches Some(t) ==> responses_text(*parsed) == Some(t@),
        r is None ==> responses_text(*parsed) is None,
{
    let items = match parsed.get("output") {
        Some(o) => match o.as_array() {
            Some(a) => a,
            None => {
                return None;
            },
        },
        None => {
            return None;
        },
    };
    let mut i: usize = 0;
    while i < items.len()
        invariant
            i <= items@.len(),
            responses_text(*parsed) == first_item_text(items@, 0),
            first_item_text(items@, 0) == first_item_text(items@, i as int),
        decreases items.len() - i,
    {
        match output_item_text(&items[i]) {
            Some(t) => {
                assert(item_text(items@[i as int]) == Some(t@));
                assert(first_item_text(items@, i as int) == Some(t@));
                return Some(t);
            },
            None => {},
        }
        i += 1;
    }
    None
}

/// The JSON payload a server-sent-events line carries: the trimmed line
/// without a `data: ` prefix; blank lines, `[DONE]` and `event:` lines carry
/// none.
pub open spec fn sse_payload(line: Seq<char>) -> Option<Seq<char>> {
    let l = trim(line);
    if l.len() == 0 || l == "[DONE]"@ || starts_with(l, "event:"@) {
        None
    } else if starts_with(l, "data: "@) {
        Some(l.skip(6))
    } else {
        Some(l)
    }
}

/// The payloads the lines carry, in order.
pub open spec fn sse_payloads(ls: Seq<Seq<char>>) -> Seq<Seq<char>>
    decreases ls.len(),
{
    if ls.len() == 0 {
        Seq::empty()
    } else {
        let rest = sse_payloads(ls.drop_last());
        match sse_payload(ls.last()) {
            Some(p) => rest.push(p),
            None => rest,
        }
    }
}

/// The JSON payloads of a server-sent-events body, line by line, in order.
pub fn codex_sse_payloads(body: &str) -> (r: Vec<String>)
    ensures
        r@.len() == sse_payloads(lines(body@)).len(),
        forall|k: int| 0 <= k < r@.len() ==> #[trigger] r@[k]@ == sse_payloads(lines(body@))[k],
{
    let ls = lines_of(&chars_of(body));
    let ghost all = lines(body@);
    let mut out: Vec<String> = Vec::new();
    let mut i: usize = 0;
    proof {
        reveal_strlit("data: ");
    }
    while i < ls.len()
        invariant
            i <= ls@.len() == all.len(),
            forall|k: int| 0 <= k < ls@.len() ==> #[trigger] ls@[k]@ == all[k],
            out@.len() == sse_payloads(all.take(i as int)).len(),
            forall|k: int|
                0 <= k < out@.len() ==> #[trigger] out@[k]@ == sse_payloads(all.take(i as int))[k],
            "data: "@.len() == 6,
        decreases ls.len() - i,
    {
        let l = trim_chars(&ls[i]);
        assert(ls@[i as int]@ == all[i as int]);
        let skip = l.len() == 0 || chars_eq_str(&l, "[DONE]") || starts_with_str(&l, "event:");
        let ghost before = sse_payloads(all.take(i as int));
        assert(all.take(i + 1).drop_last() == all.take(i as int));
        assert(all.take(i + 1).last() == all[i as int]);
        if !skip {
            let payload = if starts_with_str(&l, "data: ") {
                string_of_range(&l, 6, l.len())
            } else {
                string_of(&l)
            };
            assert(l@.subrange(6, l@.len() as int) == l@.skip(6));
            out.push(payload);
            assert(sse_payloads(all.take(i + 1)) == before.push(payload@));
        }
        i += 1;
    }
    assert(all.take(ls.len() as int) == all);
    out
}

/// The state a stream of Responses events builds: the output items, and the
/// text streamed so far.
pub open spec fn sse_step(items: Seq<JsonValue>, text: Seq<char>, ev: JsonValue) -> (
    Seq<JsonValue>,
    Seq<char>,
) {
    let ty = match str_of(field(ev, "type"@)) {
        Some(t) => t,
        None => Seq::empty(),
    };
    if ty == "response.output_item.done"@ {
        match field(ev, "item"@) {
            Some(it) => (items.push(it), text),
            None => (items, text),
        }
    } else if ty == "response.output_text.delta"@ {
        match str_of(field(ev, "delta"@)) {
            Some(d) => (items, text + d),
            None => match str_of(field(ev, "text"@)) {
                Some(t) => (items, text + t),
                None => (items, text),
            },
        }
    } else if ty == "response.output_text.done"@ {
        if text.len() == 0 {
            match str_of(field(ev, "text"@)) {
                Some(t) => (items, text + t),
                None => (items, text),
            }
        } else {
            (items, text)
        }
    } else if ty == "response.completed"@ {
        match array_of(at(field(ev, "response"@), "output"@)) {
            Some(out) => if out.len() > 0 {
                (out, text)
            } else {
                (items, text)
            },
            None => (items, text),
        }
    } else {
        (items, text)
    }
}

/// The state after a sequence of events.
pub open spec fn sse_fold(events: Seq<JsonValue>) -> (Seq<JsonValue>, Seq<char>)
    decreases events.len(),
{
    if events.len() == 0 {
        (Seq::empty(), Seq::empty())
    } else {
        let (items, text) = sse_fold(events.drop_last());
        sse_step(items, text, events.last())
    }
}

/// The payloads of two runs of lines, one after the other, are the payloads
/// of the first run followed by those of the second.
pub proof fn lemma_sse_payloads_concat(a: Seq<Seq<char>>, b: Seq<Seq<char>>)
    ensures
        sse_payloads(a + b) == sse_payloads(a) + sse_payloads(b),
    decreases b.len(),
{
    if b.len() == 0 {
        assert(a + b =~= a);
        assert(sse_payloads(a) + sse_payloads(b) =~= sse_payloads(a));
    } else {
        assert((a + b).drop_last() =~= a + b.drop_last());
        assert((a + b).last() == b.last());
        lemma_sse_payloads_concat(a, b.drop_last());
        match sse_payload(b.last()) {
            Some(p) => {
                assert(sse_payloads(a) + sse_payloads(b.drop_last()).push(p) =~= (sse_payloads(a)
                    + sse_payloads(b.drop_last())).push(p));
            },
            None => {},
        }
    }
}

/// A line that carries no payload (blank, `[DONE]` or `event:`), put anywhere
/// among the lines, leaves the payloads as they are.
pub proof fn lemma_sse_payloads_skip_line(ls: Seq<Seq<char>>, i: int, line: Seq<char>)
    requires
        0 <= i <= ls.len(),
        sse_payload(line) is None,
    ensures
        sse_payloads(ls.insert(i, line)) == sse_payloads(ls),
{
    let a = ls.take(i);
    let b = ls.skip(i);
    assert(ls =~= a + b);
    assert(ls.insert(i, line) =~= a.push(line) + b);
    lemma_sse_payloads_concat(a, b);
    lemma_sse_payloads_concat(a.push(line), b);
    assert(a.push(line).drop_last() =~= a);
}

/// A whole line that carries no payload, put into a body at the start of any
/// of its lines (or at its end, where it ends a line), leaves the body's
/// payloads as they are.
pub proof fn lemma_sse_body_skip_line(before: Seq<char>, line: Seq<char>, after: Seq<char>)
    requires
        before.len() == 0 || before.last() == '\n',
        forall|k: int| 0 <= k < line.len() ==> line[k] != '\n',
        sse_payload(line) is None,
    ensures
        sse_payloads(lines(before + line.push('\n') + after)) == sse_payloads(
            lines(before + after),
        ),
{
    let with_end = line.push('\n');
    crate::text::lemma_lines_concat(before, with_end);
    crate::text::lemma_lines_concat(before + with_end, after);
    crate::text::lemma_lines_concat(before, after);
    crate::text::lemma_lines_single(line);
    let read = if line.len() > 0 && line.last() == '\r' {
        line.drop_last()
    } else {
        line
    };
    if line.len() > 0 && line.last() == '\r' {
        assert(crate::text::is_whitespace('\r'));
        crate::text::lemma_trim_drops_trailing_space(line.drop_last(), '\r');
        assert(line.drop_last().push('\r') =~= line);
    }
    assert(sse_payload(read) is None);
    let lp = lines(before);
    let lq = lines(after);
    assert((lp + lq).insert(lp.len() as int, read) =~= lp + seq![read] + lq);
    lemma_sse_payloads_skip_line(lp + lq, lp.len() as int, read);
}

proof fn lemma_sse_payloads_single(x: Seq<char>)
    ensures
        sse_payloads(seq![x]) == match sse_payload(x) {
            Some(p) => seq![p],
            None => Seq::<Seq<char>>::empty(),
        },
{
    assert(seq![x].drop_last() =~= Seq::<Seq<char>>::empty());
    assert(seq![x].last() == x);
    assert(sse_payloads(Seq::<Seq<char>>::empty()) =~= Seq::<Seq<char>>::empty());
    match sse_payload(x) {
        Some(p) => {
            assert(Seq::<Seq<char>>::empty().push(p) =~= seq![p]);
        },
        None => {},
    }
}

/// Ending a body's last line with a line break leaves its payloads as they
/// are.
pub proof fn lemma_sse_body_end_line(body: Seq<char>)
    ensures
        sse_payloads(lines(body.push('\n'))) == sse_payloads(lines(body)),
{
    let (a, b) = crate::text::lemma_split_last_line(body);
    assert(body.push('\n') =~= a + b.push('\n'));
    crate::text::lemma_lines_concat(a, b.push('\n'));
    crate::text::lemma_lines_concat(a, b);
    crate::text::lemma_lines_single(b);
    crate::text::lemma_lines_unended(b);
    let read = if b.len() > 0 && b.last() == '\r' {
        b.drop_last()
    } else {
        b
    };
    lemma_sse_payloads_concat(lines(a), seq![read]);
    lemma_sse_payloads_concat(lines(a), lines(b));
    lemma_sse_payloads_single(read);
    if b.len() == 0 {
        assert(sse_payload(b) is None);
        assert(sse_payloads(Seq::<Seq<char>>::empty()) =~= Seq::<Seq<char>>::empty());
    } else {
        lemma_sse_payloads_single(b);
        if b.last() == '\r' {
            assert(crate::text::is_whitespace('\r'));
            crate::text::lemma_trim_drops_trailing_space(b.drop_last(), '\r');
            assert(b.drop_last().push('\r') =~= b);
        }
        assert(sse_payload(read) == sse_payload(b));
    }
}

/// A whole line that carries no payload, appended to a body after a line
/// break (whether or not the body's last line had one), with or without a
/// line break of its own, leaves the body's payloads as they are.
pub proof fn lemma_sse_body_append_line(body: Seq<char>, line: Seq<char>)
    requires
        forall|k: int| 0 <= k < line.len() ==> line[k] != '\n',
        sse_payload(line) is None,
    ensures
        sse_payloads(lines(body.push('\n') + line)) == sse_payloads(lines(body)),
        sse_payloads(lines(body.push('\n') + line.push('\n'))) == sse_payloads(lines(body)),
{
    let ended = body.push('\n');
    lemma_sse_body_end_line(body);
    crate::text::lemma_lines_concat(ended, line);
    crate::text::lemma_lines_unended(line);
    lemma_sse_payloads_concat(lines(ended), lines(line));
    if line.len() > 0 {
        lemma_sse_payloads_single(line);
    }
    assert(sse_payloads(Seq::<Seq<char>>::empty()) =~= Seq::<Seq<char>>::empty());
    assert(sse_payloads(lines(ended)) + Seq::<Seq<char>>::empty() =~= sse_payloads(lines(ended)));
    lemma_sse_body_skip_line(ended, line, Seq::empty());
    assert(ended + line.push('\n') + Seq::<char>::empty() =~= ended + line.push('\n'));
    assert(ended + Seq::<char>::empty() =~= ended);
}

/// Whether an event leaves every state of a stream as it is: one whose
/// `type` is none of `response.output_item.done`,
/// `response.output_text.delta`, `response.output_text.done` and
/// `response.completed`.
pub open spec fn is_ignored_event(ev: JsonValue) -> bool {
    let ty = match str_of(field(ev, "type"@)) {
        Some(t) => t,
        None => Seq::empty(),
    };
    &&& ty != "response.output_item.done"@
    &&& ty != "response.output_text.delta"@
    &&& ty != "response.output_text.done"@
    &&& ty != "response.completed"@
}

/// The state after events folded from a given state.
pub open spec fn sse_fold_from(state: (Seq<JsonValue>, Seq<char>), events: Seq<JsonValue>) -> (
    Seq<JsonValue>,
    Seq<char>,
)
    decreases events.len(),
{
    if events.len() == 0 {
        state
    } else {
        let (items, text) = sse_fold_from(state, events.drop_last());
        sse_step(items, text, events.last())
    }
}

proof fn lemma_sse_fold_from_concat(
    state: (Seq<JsonValue>, Seq<char>),
    a: Seq<JsonValue>,
    b: Seq<JsonValue>,
)
    ensures
        sse_fold_from(state, a + b) == sse_fold_from(sse_fold_from(state, a), b),
    decreases b.len(),
{
    if b.len() == 0 {
        assert(a + b =~= a);
    } else {
        assert((a + b).drop_last() =~= a + b.drop_last());
        assert((a + b).last() == b.last());
        lemma_sse_fold_from_concat(state, a, b.drop_last());
    }
}

proof fn lemma_sse_fold_is_from_empty(events: Seq<JsonValue>)
    ensures
        sse_fold(events) == sse_fold_from((Seq::empty(), Seq::empty()), events),
    decreases events.len(),
{
    if events.len() > 0 {
        lemma_sse_fold_is_from_empty(events.drop_last());
    }
}

/// An event of a type the stream does not handle, put anywhere among the
/// events, leaves what they amount to as it is.
pub proof fn lemma_sse_fold_skip_event(events: Seq<JsonValue>, i: int, ev: JsonValue)
    requires
        0 <= i <= events.len(),
        is_ignored_event(ev),
    ensures
        sse_fold(events.insert(i, ev)) == sse_fold(events),
        stream_text(events.insert(i, ev)) == stream_text(events),
        forall|r: JsonValue|
            #[trigger] is_collected_output(events.insert(i, ev), r) == is_collected_output(
                events,
                r,
            ),
{
    let a = events.take(i);
    let b = events.skip(i);
    let e = (Seq::<JsonValue>::empty(), Seq::<char>::empty());
    assert(events =~= a + b);
    assert(events.insert(i, ev) =~= a.push(ev) + b);
    lemma_sse_fold_is_from_empty(events);
    lemma_sse_fold_is_from_empty(events.insert(i, ev));
    lemma_sse_fold_from_concat(e, a, b);
    lemma_sse_fold_from_concat(e, a.push(ev), b);
    assert(a.push(ev).drop_last() =~= a);
    let (items, text) = sse_fold_from(e, a);
    assert(sse_step(items, text, ev) == (items, text));
}

/// Whether `v` is a `message` output item with one `output_text` part `t`.
pub open spec fn is_text_message_item(v: JsonValue, t: Seq<char>) -> bool {
    &&& v matches JsonValue::Object(es)
    &&& es@.len() == 2
    &&& es@[0].0@ == "type"@ && crate::http::is_str(es@[0].1, "message"@)
    &&& es@[1].0@ == "content"@
    &&& es@[1].1 matches JsonValue::Array(parts)
    &&& parts@.len() == 1
    &&& parts@[0] matches JsonValue::Object(ps)
    &&& ps@.len() == 2
    &&& ps@[0].0@ == "type"@ && crate::http::is_str(ps@[0].1, "output_text"@)
    &&& ps@[1].0@ == "text"@ && crate::http::is_str(ps@[1].1, t)
}

/// Whether `r` is the Responses result a stream of events amounts to: its
/// output items, or, where there are none but text was streamed, one message
/// holding the trimmed text.
pub open spec fn is_collected_output(events: Seq<JsonValue>, r: JsonValue) -> bool {
    let (items, text) = sse_fold(events);
    &&& r matches JsonValue::Object(es)
    &&& es@.len() == 1
    &&& es@[0].0@ == "output"@
    &&& es@[0].1 matches JsonValue::Array(out)
    &&& if items.len() == 0 && !is_blank(text) {
        out@.len() == 1 && is_text_message_item(out@[0], trim(text))
    } else {
        out@ == items
    }
}

fn text_of_field<'a>(ev: &'a JsonValue, key: &str) -> (r: Option<&'a str>)
    ensures
        r matches Some(s) ==> str_of(field(*ev, key@)) == Some(s@),
        r is None ==> str_of(field(*ev, key@)) is None,
{
    match ev.get(key) {
        Some(v) => v.as_str(),
        None => None,
    }
}

/// The Responses result a stream of events amounts to.
pub fn collect_codex_sse_output(events: Vec<JsonValue>) -> (r: JsonValue)
    ensures
        is_collected_output(events@, r),
{
    let ghost all = events@;
    let mut events = events;
    let mut items: Vec<JsonValue> = Vec::new();
    let mut text = String::new();
    let ghost mut k: int = 0;
    while events.len() > 0
        invariant
            0 <= k <= all.len(),
            events@ == all.skip(k),
            (items@, text@) == sse_fold(all.take(k)),
        decreases events.len(),
    {
        let ev = events.remove(0);
        proof {
            assert(all.take(k + 1).drop_last() == all.take(k));
            assert(all.take(k + 1).last() == ev);
            assert(all.skip(k + 1) == all.skip(k).remove(0));
        }
        let ty = match text_of_field(&ev, "type") {
            Some(t) => owned(t),
            None => String::new(),
        };
        if str_eq(ty.as_str(), "response.output_item.done") {
            match ev.into_field("item") {
                Some(it) => items.push(it),
                None => {},
            }
        } else if str_eq(ty.as_str(), "response.output_text.delta") {
            match text_of_field(&ev, "delta") {
                Some(d) => text.append(d),
                None => match text_of_field(&ev, "text") {
                    Some(t) => text.append(t),
                    None => {},
                },
            }
        } else if str_eq(ty.as_str(), "response.output_text.done") {
            if text.as_str().is_empty() {
                match text_of_field(&ev, "text") {
                    Some(t) => text.append(t),
                    None => {},
                }
            }
        } else if str_eq(ty.as_str(), "response.completed") {
            match ev.into_field("response") {
                Some(resp) => match resp.into_field("output") {
                    Some(o) => match o.into_array() {
                        Some(out) => if out.len() > 0 {
                            items = out;
                        },
                        None => {},
                    },
                    None => {},
                },
                None => {},
            }
        }
        proof {
            k = k + 1;
        }
    }
    assert(all.take(k) == all);
    if items.len() == 0 {
        let t = trim_str(text.as_str());
        if !t.as_str().is_empty() {
            let part = JsonValue::Object(
                vec![
                    (owned("type"), JsonValue::string("output_text")),
                    (owned("text"), JsonValue::Str(t)),
                ],
            );
            let message = JsonValue::Object(
                vec![
                    (owned("type"), JsonValue::string("message")),
                    (owned("content"), JsonValue::Array(vec![part])),
                ],
            );
            items.push(message);
        }
    }
    JsonValue::Object(vec![(owned("output"), JsonValue::Array(items))])
}

/// The value an optional reference refers to.
pub open spec fn deref_opt(v: Option<&JsonValue>) -> Option<JsonValue> {
    match v {
        Some(p) => Some(*p),
        None => None,
    }
}

/// The text a stream of Responses events amounts to.
pub open spec fn stream_text(events: Seq<JsonValue>) -> Option<Seq<char>> {
    let (items, text) = sse_fold(events);
    if items.len() == 0 && !is_blank(text) {
        Some(trim(text))
    } else {
        first_item_text(items, 0)
    }
}

proof fn lemma_collected_text(events: Seq<JsonValue>, r: JsonValue)
    requires
        is_collected_output(events, r),
    ensures
        responses_text(r) == stream_text(events),
{
    let (items, text) = sse_fold(events);
    reveal_strlit("type");
    reveal_strlit("text");
    reveal_strlit("content");
    if items.len() == 0 && !is_blank(text) {
        let t = trim(text);
        crate::text::lemma_trim_idempotent(text);
        let es = r->Object_0;
        let out = es@[0].1->Array_0;
        let m = out@[0];
        let ms = m->Object_0;
        let parts = ms@[1].1->Array_0;
        let part = parts@[0];
        let ps = part->Object_0;
        assert("text"@ != "type"@) by {
            assert("text"@[1] != "type"@[1]);
        }
        assert("content"@ != "type"@) by {
            assert("content"@[0] != "type"@[0]);
        }
        assert(crate::json::key_index_from(ps@, "text"@, 1) == Some(1int));
        assert(field(part, "text"@) == Some(ps@[1].1));
        assert(part_text(part) == t);
        assert(parts@.drop_last() =~= Seq::<JsonValue>::empty());
        assert(combined_text(parts@.drop_last()) == Seq::<char>::empty());
        assert(parts@.last() == part);
        assert(combined_text(parts@) == Seq::<char>::empty() + t);
        assert(Seq::<char>::empty() + t == t);
        assert(crate::json::key_index_from(ms@, "content"@, 1) == Some(1int));
        assert(item_text(m) == Some(t));
        assert(first_item_text(out@, 0) == Some(t));
    }
}

/// The reply text of a ChatGPT/Codex body: from the body read as one JSON
/// result where that has text, else from the body's event stream.
pub open spec fn codex_reply_text(parsed: Option<JsonValue>, events: Seq<JsonValue>) -> Option<
    Seq<char>,
> {
    match parsed {
        Some(p) if responses_text(p) is Some => responses_text(p),
        _ => stream_text(events),
    }
}

/// The reply text of a ChatGPT/Codex body, given the body read as one JSON
/// value (`None` where it is not JSON) and the JSON events of its
/// `codex_sse_payloads` (those that are JSON, in order).
pub fn parse_openai_codex_response_text(parsed: Option<&JsonValue>, events: Vec<JsonValue>) -> (r:
    Option<String>)
    ensures
        r matches Some(t) ==> codex_reply_text(deref_opt(parsed), events@) == Some(t@),
        r is None ==> codex_reply_text(deref_opt(parsed), events@) is None,
{
    match parsed {
        Some(p) => match parse_openai_responses_text(p) {
            Some(t) => {
                return Some(t);
            },
            None => {},
        },
        None => {},
    }
    let ghost evs = events@;
    let collected = collect_codex_sse_output(events);
    proof {
        lemma_collected_text(evs, collected);
    }
    parse_openai_responses_text(&collected)
}

/// The most of an error body that is shown.
pub const MAX_ERROR_BODY_SNIPPET_CHARS: usize = 512;

/// A body shown in an error: trimmed, cut to 512 characters with an ellipsis
/// where longer, and nothing where blank.
pub open spec fn body_snippet(body: Seq<char>) -> Option<Seq<char>> {
    let t = trim(body);
    if t.len() == 0 {
        None
    } else if t.len() > MAX_ERROR_BODY_SNIPPET_CHARS {
        Some(t.take(MAX_ERROR_BODY_SNIPPET_CHARS as int) + "\u{2026}"@)
    } else {
        Some(t)
    }
}

/// The part of a response body shown in an error.
pub fn response_body_snippet(body: &str) -> (r: Option<String>)
    ensures
        r matches Some(s) ==> body_snippet(body@) == Some(s@),
        r is None ==> body_snippet(body@) is None,
{
    let t = trim_chars(&chars_of(body));
    if t.len() == 0 {
        return None;
    }
    if t.len() > MAX_ERROR_BODY_SNIPPET_CHARS {
        let cut = string_of_range(&t, 0, MAX_ERROR_BODY_SNIPPET_CHARS);
        assert(t@.subrange(0, 512) == t@.take(512));
        Some(concat_str(cut, "\u{2026}"))
    } else {
        Some(string_of(&t))
    }
}

/// An error snippet is never longer than 512 characters and an ellipsis, and
/// is never blank.
pub proof fn lemma_snippet_bounded(body: Seq<char>)
    ensures
        body_snippet(body) matches Some(s) ==> s.len() <= MAX_ERROR_BODY_SNIPPET_CHARS + 1 && s.len()
            > 0,
        body_snippet(body) is None <==> is_blank(body),
{
    reveal_strlit("\u{2026}");
}

/// The message of an error reply: `error.message`, else `message`, of the
/// body read as JSON, else a snippet of the body.
pub open spec fn error_message_of(body: Seq<char>, parsed: Option<JsonValue>) -> Option<Seq<char>> {
    let from_json = match parsed {
        Some(p) => match str_of(at(field(p, "error"@), "message"@)) {
            Some(m) => Some(m),
            None => str_of(field(p, "message"@)),
        },
        None => None,
    };
    match from_json {
        Some(m) => Some(m),
        None => body_snippet(body),
    }
}

/// The message of an error reply, given its body and the body read as JSON
/// (`None` where it is not JSON).
pub fn response_error_message(body: &str, parsed: Option<&JsonValue>) -> (r: Option<String>)
    ensures
        r matches Some(m) ==> error_message_of(body@, deref_opt(parsed)) == Some(m@),
        r is None ==> error_message_of(body@, deref_opt(parsed)) is None,
{
    match parsed {
        Some(p) => {
            match p.get("error") {
                Some(e) => match text_of_field(e, "message") {
                    Some(m) => {
                        return Some(owned(m));
                    },
                    None => {},
                },
                None => {},
            }
            match text_of_field(p, "message") {
                Some(m) => {
                    return Some(owned(m));
                },
                None => {},
            }
        },
        None => {},
    }
    response_body_snippet(body)
}

/// Whether an HTTP status is a success (2xx).
pub open spec fn is_success(status: u16) -> bool {
    200 <= status <= 299
}

/// The name a provider's errors go under.
pub open spec fn provider_label(p: LlmProvider) -> Seq<char> {
    match p {
        LlmProvider::Anthropic { .. } => "Anthropic"@,
        LlmProvider::OpenRouter { .. } => "OpenRouter"@,
        LlmProvider::OpenAi { .. } => "OpenAI"@,
        LlmProvider::OpenAiCodex { .. } => "OpenAI Codex"@,
        LlmProvider::OpenAiCompatible { provider, .. } => provider@,
    }
}

/// The reply text of a JSON reply: `content[0].text` for Anthropic,
/// `choices[0].message.content` for the chat-completions providers.
pub open spec fn json_reply_text(p: LlmProvider, data: JsonValue) -> Option<Seq<char>> {
    match p {
        LlmProvider::Anthropic { .. } => str_of(at(item(field(data, "content"@), 0), "text"@)),
        _ => str_of(at(at(item(field(data, "choices"@), 0), "message"@), "content"@)),
    }
}

/// The message of a JSON error reply: `error.message`, else "Unknown error".
pub open spec fn json_error_message(data: JsonValue) -> Seq<char> {
    match str_of(at(field(data, "error"@), "message"@)) {
        Some(m) => m,
        None => "Unknown error"@,
    }
}

impl LlmProvider {
    /// The name this provider's errors go under.
    pub fn label(&self) -> (l: String)
        ensures
            l@ == provider_label(*self),
    {
        match self {
            LlmProvider::Anthropic { .. } => owned("Anthropic"),
            LlmProvider::OpenRouter { .. } => owned("OpenRouter"),
            LlmProvider::OpenAi { .. } => owned("OpenAI"),
            LlmProvider::OpenAiCodex { .. } => owned("OpenAI Codex"),
            LlmProvider::OpenAiCompatible { provider, .. } => owned(provider.as_str()),
        }
    }

    /// Read the JSON reply of a provider that answers in JSON (all but
    /// ChatGPT/Codex): the error of a non-success status, or the reply text.
    pub fn read_json_reply(&self, status: u16, data: &JsonValue) -> (r: Result<String, SetupError>)
        requires
            !(*self is OpenAiCodex),
        ensures
            !is_success(status) ==> (r matches Err(
                SetupError::ApiError { provider: l, status: s, message: m },
            ) && l@ == provider_label(*self) && s == status && m@ == json_error_message(*data)),
            is_success(status) ==> match json_reply_text(*self, *data) {
                Some(t) => r matches Ok(x) && x@ == t,
                None => if *self is Anthropic {
                    r matches Err(SetupError::NoText { provider: l }) && l@ == provider_label(*self)
                } else {
                    r matches Err(SetupError::NoContent { provider: l }) && l@ == provider_label(
                        *self,
                    )
                },
            },
    {
        if !(200 <= status && status <= 299) {
            let message = match data.get("error") {
                Some(e) => match text_of_field(e, "message") {
                    Some(m) => owned(m),
                    None => owned("Unknown error"),
                },
                None => owned("Unknown error"),
            };
            return Err(SetupError::ApiError { provider: self.label(), status, message });
        }
        match self {
            LlmProvider::Anthropic { .. } => {
                let text = match data.get("content") {
                    Some(c) => match c.as_array() {
                        Some(a) => if a.len() > 0 {
                            text_of_field(&a[0], "text")
                        } else {
                            None
                        },
                        None => None,
                    },
                    None => None,
                };
                match text {
                    Some(t) => Ok(owned(t)),
                    None => Err(SetupError::NoText { provider: self.label() }),
                }
            },
            _ => {
                let text = match data.get("choices") {
                    Some(c) => match c.as_array() {
                        Some(a) => if a.len() > 0 {
                            match a[0].get("message") {
                                Some(m) => text_of_field(m, "content"),
                                None => None,
                            }
                        } else {
                            None
                        },
                        None => None,
                    },
                    None => None,
                };
                match text {
                    Some(t) => Ok(owned(t)),
                    None => Err(SetupError::NoContent { provider: self.label() }),
                }
            },
        }
    }
}

/// Read a ChatGPT/Codex reply: the error of a non-success status, or the
/// reply text. `parsed` is the body read as one JSON value (`None` where it
/// is not JSON); `events` are the JSON events of its `codex_sse_payloads`.
pub fn read_codex_reply(
    status: u16,
    body: &str,
    parsed: Option<&JsonValue>,
    events: Vec<JsonValue>,
) -> (r: Result<String, SetupError>)
    ensures
        !is_success(status) ==> (r matches Err(
            SetupError::ApiError { provider: l, status: s, message: m },
        ) && l@ == "OpenAI Codex"@ && s == status && m@ == match error_message_of(
            body@,
            deref_opt(parsed),
        ) {
            Some(e) => e,
            None => "Unknown error"@,
        }),
        is_success(status) ==> match codex_reply_text(deref_opt(parsed), events@) {
            Some(t) => r matches Ok(x) && x@ == t,
            None => r matches Err(SetupError::NoContent { provider: l }) && l@ == "OpenAI Codex"@,
        },
{
    if !(200 <= status && status <= 299) {
        let message = match response_error_message(body, parsed) {
            Some(m) => m,
            None => owned("Unknown error"),
        };
        return Err(SetupError::ApiError { provider: owned("OpenAI Codex"), status, message });
    }
    match parse_openai_codex_response_text(parsed, events) {
        Some(t) => Ok(t),
        None => Err(SetupError::NoContent { provider: owned("OpenAI Codex") }),
    }
}

// ---------------------------------------------------------------- interview
/// Interview data collected from the user.
#[derive(Debug, Clone)]
pub struct UserInterview {
    pub name: String,
    pub about_you: String,
    pub ideal_paw: String,
    pub followup_answers: Vec<(String, String)>,
}

/// Generated soul artifacts.
#[derive(Debug, Clone)]
pub struct GeneratedSoul {
    pub soul_md: String,
    pub style_md: String,
    pub user_md: String,
    pub summary: String,
}

pub const FOLLOWUP_SYSTEM: &'static str = "\
You're getting to know someone who's setting up an AI teammate. They just told you about themselves and what they want. Ask 1-2 follow-up questions that:

- Are specific to what they said, not generic
- Reveal something they didn't think to mention \u{2014} a value, a tension, a preference
- Feel fun and genuine, not like a corporate questionnaire
- Are short (one sentence each)

Output ONLY the questions, one per line, prefixed with Q:";

pub const SOUL_SYSTEM: &'static str = "\
You are generating a personalized agent soul for Temper Paw.

Temper Paw's chief of staff agent (\"Paw\") manages software projects and creative work through specialized project leads. Paw doesn't write code directly \u{2014} it sets direction, crafts the right lead for each project, and ensures things land. But Paw adapts deeply to the human it works with.

The human below has told you about themselves and what kind of Paw they want. Generate content that is deeply personalized \u{2014} not a template with blanks filled in, but a soul that reads like it was written by someone who knows this person.

Output exactly four sections separated by these markers on their own lines:

---SOUL---
A SOUL.md following this structure:
## Who I Am
## Worldview (2-4 beliefs specific to this human's domain and values)
## Opinions (on engineering, planning, communication, scope \u{2014} adapted to this human)
## How I Think
## Tensions I Hold
## Boundaries

---STYLE---
A STYLE.md covering:
## Voice (register, density, confidence \u{2014} matched to what the human wants)
## Sentence Structure
## Vocabulary (domain-specific terms, words to avoid)
## What Right Sounds Like (2-3 example lines in this Paw's voice)
## What Wrong Sounds Like (1-2 anti-examples)

---USER---
A USER.md profile of the human:
## [Their Name]
### Who They Are
### What They Value
### How They Work
### What They Need From Paw

---SUMMARY---
2-3 sentences describing what this Paw will be like, written directly to the human in second person. This is shown as a preview before they commit. Make it vivid and specific, not generic.";

/// The token limit of the follow-up questions call.
pub const FOLLOWUP_MAX_TOKENS: u32 = 512;

/// The token limit of the soul generation calls.
pub const SOUL_MAX_TOKENS: u32 = 4096;

/// The opening of every interview message: name, self-description, and the
/// kind of Paw wanted.
pub open spec fn intro_text(name: Seq<char>, about_you: Seq<char>, ideal_paw: Seq<char>) -> Seq<char> {
    "Name: "@ + name + "\n\nAbout themselves:\n"@ + about_you + "\n\nWhat kind of Paw they want:\n"@
        + ideal_paw
}

/// The follow-up answers as `Q:`/`A:` blocks.
pub open spec fn answers_text(qas: Seq<(String, String)>) -> Seq<char>
    decreases qas.len(),
{
    if qas.len() == 0 {
        Seq::empty()
    } else {
        answers_text(qas.drop_last()) + "\n\nQ: "@ + qas.last().0@ + "\nA: "@ + qas.last().1@
    }
}

fn intro_message(name: &str, about_you: &str, ideal_paw: &str) -> (m: String)
    ensures
        m@ == intro_text(name@, about_you@, ideal_paw@),
{
    let m = concat_str(owned("Name: "), name);
    let m = concat_str(m, "\n\nAbout themselves:\n");
    let m = concat_str(m, about_you);
    let m = concat_str(m, "\n\nWhat kind of Paw they want:\n");
    concat_str(m, ideal_paw)
}

fn append_answers(m: String, qas: &Vec<(String, String)>) -> (r: String)
    ensures
        r@ == m@ + answers_text(qas@),
{
    let mut m = m;
    let ghost start = m@;
    let mut i: usize = 0;
    while i < qas.len()
        invariant
            i <= qas@.len(),
            m@ == start + answers_text(qas@.take(i as int)),
        decreases qas.len() - i,
    {
        m.append("\n\nQ: ");
        m.append(qas[i].0.as_str());
        m.append("\nA: ");
        m.append(qas[i].1.as_str());
        assert(qas@.take(i + 1).drop_last() == qas@.take(i as int));
        i += 1;
    }
    assert(qas@.take(qas.len() as int) == qas@);
    m
}

/// The user message of the follow-up questions call.
pub fn followup_user_message(name: &str, about_you: &str, ideal_paw: &str) -> (m: String)
    ensures
        m@ == intro_text(name@, about_you@, ideal_paw@),
{
    intro_message(name, about_you, ideal_paw)
}

/// The user message of the personalized soul call: the interview, with the
/// follow-up answers where there are any.
pub fn personalized_soul_user_message(interview: &UserInterview) -> (m: String)
    ensures
        m@ == intro_text(interview.name@, interview.about_you@, interview.ideal_paw@) + if interview.followup_answers@.len() == 0 {
            Seq::empty()
        } else {
            "\n\nFollow-up answers:"@ + answers_text(interview.followup_answers@)
        },
{
    let m = intro_message(
        interview.name.as_str(),
        interview.about_you.as_str(),
        interview.ideal_paw.as_str(),
    );
    if interview.followup_answers.len() == 0 {
        assert(m@ + Seq::<char>::empty() == m@);
        m
    } else {
        let m2 = concat_str(m, "\n\nFollow-up answers:");
        append_answers(m2, &interview.followup_answers)
    }
}

/// The user message of the refinement call: the interview, its answers, the
/// previous summary and the user's feedback.
pub fn refine_soul_user_message(interview: &UserInterview, previous_summary: &str, feedback: &str) -> (m:
    String)
    ensures
        m@ == intro_text(interview.name@, interview.about_you@, interview.ideal_paw@)
            + answers_text(interview.followup_answers@) + "\n\n---\nPrevious attempt summary: "@
            + previous_summary@ + "\n\nUser feedback: "@ + feedback@
            + "\n\nRegenerate the soul incorporating this feedback."@,
{
    let m = intro_message(
        interview.name.as_str(),
        interview.about_you.as_str(),
        interview.ideal_paw.as_str(),
    );
    let m = append_answers(m, &interview.followup_answers);
    let m = concat_str(m, "\n\n---\nPrevious attempt summary: ");
    let m = concat_str(m, previous_summary);
    let m = concat_str(m, "\n\nUser feedback: ");
    let m = concat_str(m, feedback);
    concat_str(m, "\n\nRegenerate the soul incorporating this feedback.")
}

/// The question a reply line asks: a trimmed line starting `Q:`, with the
/// rest trimmed and not empty.
pub open spec fn line_question(line: Seq<char>) -> Option<Seq<char>> {
    let t = trim(line);
    if starts_with(t, "Q:"@) && trim(t.skip(2)).len() > 0 {
        Some(trim(t.skip(2)))
    } else {
        None
    }
}

/// The questions the lines ask, in order.
pub open spec fn line_questions(ls: Seq<Seq<char>>) -> Seq<Seq<char>>
    decreases ls.len(),
{
    if ls.len() == 0 {
        Seq::empty()
    } else {
        let rest = line_questions(ls.drop_last());
        match line_question(ls.last()) {
            Some(q) => rest.push(q),
            None => rest,
        }
    }
}

/// A line `Q:` followed by a question asks that whole question, trimmed:
/// with or without a space after the colon, and with whitespace around the
/// line.
pub proof fn lemma_line_question_reads_question(q: Seq<char>)
    requires
        q.len() > 0,
        trim(q) == q,
    ensures
        line_question("Q:"@ + q) == Some(q),
        line_question("Q: "@ + q) == Some(q),
        line_question(seq![' '] + ("Q: "@ + q) + seq![' ']) == Some(q),
{
    reveal_strlit("Q:");
    reveal_strlit("Q: ");
    crate::text::lemma_trim_idempotent(q);
    assert(crate::text::is_whitespace(' '));
    assert(!crate::text::is_whitespace('Q'));
    let a = "Q:"@ + q;
    let b = "Q: "@ + q;
    assert(a[0] == 'Q' && a.last() == q.last());
    assert(b[0] == 'Q' && b.last() == q.last());
    assert(crate::text::trim_start(a) == a);
    assert(crate::text::trim_end(a) == a);
    assert(crate::text::trim_start(b) == b);
    assert(crate::text::trim_end(b) == b);
    assert(a.take(2) =~= "Q:"@);
    assert(b.take(2) =~= "Q:"@);
    assert(a.skip(2) =~= q);
    assert(b.skip(2) =~= seq![' '] + q);
    crate::text::lemma_trim_drops_leading_space(q, ' ');
    assert(seq![' '] + b + seq![' '] =~= (seq![' '] + b).push(' '));
    crate::text::lemma_trim_drops_trailing_space(seq![' '] + b, ' ');
    crate::text::lemma_trim_drops_leading_space(b, ' ');
}

/// A reply of two `Q:` lines asks those two whole questions, in order.
pub proof fn lemma_two_question_reply(q1: Seq<char>, q2: Seq<char>)
    requires
        q1.len() > 0,
        trim(q1) == q1,
        q2.len() > 0,
        trim(q2) == q2,
        forall|k: int| 0 <= k < q1.len() ==> q1[k] != '\n',
        forall|k: int| 0 <= k < q2.len() ==> q2[k] != '\n',
    ensures
        followup_questions_of(("Q: "@ + q1).push('\n') + ("Q: "@ + q2)) == seq![q1, q2],
{
    reveal_strlit("Q: ");
    let l1 = "Q: "@ + q1;
    let l2 = "Q: "@ + q2;
    assert forall|k: int| 0 <= k < l1.len() implies l1[k] != '\n' by {
        if k >= 3 {
            assert(l1[k] == q1[k - 3]);
        }
    }
    assert forall|k: int| 0 <= k < l2.len() implies l2[k] != '\n' by {
        if k >= 3 {
            assert(l2[k] == q2[k - 3]);
        }
    }
    crate::text::lemma_trim_idempotent(q1);
    assert(l1.last() == q1.last());
    assert(!crate::text::is_whitespace(q1.last()));
    assert(crate::text::is_whitespace('\r'));
    assert(l1.last() != '\r');
    crate::text::lemma_lines_concat(l1.push('\n'), l2);
    crate::text::lemma_lines_single(l1);
    crate::text::lemma_lines_unended(l2);
    lemma_line_question_reads_question(q1);
    lemma_line_question_reads_question(q2);
    let ls = seq![l1] + seq![l2];
    assert(ls =~= seq![l1, l2]);
    assert(seq![l1, l2].drop_last() =~= seq![l1]);
    assert(seq![l1].drop_last() =~= Seq::<Seq<char>>::empty());
    assert(seq![l1].last() == l1);
    assert(line_question(l1) == Some(q1));
    assert(line_questions(Seq::<Seq<char>>::empty()) =~= Seq::<Seq<char>>::empty());
    assert(Seq::<Seq<char>>::empty().push(q1) =~= seq![q1]);
    assert(line_questions(seq![l1]) =~= seq![q1]);
    assert(seq![l1, l2].last() == l2);
    assert(seq![q1].push(q2) =~= seq![q1, q2]);
    assert(line_questions(seq![l1, l2]) =~= seq![q1, q2]);
}

/// The follow-up questions of a reply: the first two it asks.
pub open spec fn followup_questions_of(response: Seq<char>) -> Seq<Seq<char>> {
    let qs = line_questions(lines(response));
    if qs.len() > 2 {
        qs.take(2)
    } else {
        qs
    }
}

pub proof fn lemma_line_questions_not_blank(ls: Seq<Seq<char>>)
    ensures
        forall|k: int|
            0 <= k < line_questions(ls).len() ==> #[trigger] line_questions(ls)[k].len() > 0,
    decreases ls.len(),
{
    if ls.len() > 0 {
        lemma_line_questions_not_blank(ls.drop_last());
        let rest = line_questions(ls.drop_last());
        match line_question(ls.last()) {
            Some(q) => {
                assert(q.len() > 0);
                assert forall|k: int| 0 <= k < rest.push(q).len() implies #[trigger] rest.push(
                    q,
                )[k].len() > 0 by {
                    if k < rest.len() {
                        assert(rest.push(q)[k] == rest[k]);
                    }
                }
            },
            None => {},
        }
    }
}

/// A reply yields at most two follow-up questions, none of them empty.
pub proof fn lemma_followups_bounded(response: Seq<char>)
    ensures
        followup_questions_of(response).len() <= 2,
        forall|k: int|
            0 <= k < followup_questions_of(response).len() ==> #[trigger] followup_questions_of(
                response,
            )[k].len() > 0,
{
    lemma_line_questions_not_blank(lines(response));
}

/// The follow-up questions of a reply (at most two), or an error where it
/// asks none.
pub fn parse_followup_questions(response: &str) -> (r: Result<Vec<String>, SetupError>)
    ensures
        followup_questions_of(response@).len() == 0 ==> r matches Err(SetupError::NoFollowupQuestions),
        followup_questions_of(response@).len() > 0 ==> (r matches Ok(qs) && qs@.len()
            == followup_questions_of(response@).len() && forall|k: int|
            0 <= k < qs@.len() ==> #[trigger] qs@[k]@ == followup_questions_of(response@)[k]),
{
    let ls = lines_of(&chars_of(response));
    let ghost all = lines(response@);
    let mut out: Vec<String> = Vec::new();
    let mut i: usize = 0;
    proof {
        reveal_strlit("Q:");
    }
    while i < ls.len()
        invariant
            i <= ls@.len() == all.len(),
            forall|k: int| 0 <= k < ls@.len() ==> #[trigger] ls@[k]@ == all[k],
            out@.len() == line_questions(all.take(i as int)).len(),
            forall|k: int|
                0 <= k < out@.len() ==> #[trigger] out@[k]@ == line_questions(all.take(i as int))[k],
            "Q:"@.len() == 2,
        decreases ls.len() - i,
    {
        let t = trim_chars(&ls[i]);
        assert(ls@[i as int]@ == all[i as int]);
        let ghost before = line_questions(all.take(i as int));
        assert(all.take(i + 1).drop_last() == all.take(i as int));
        assert(all.take(i + 1).last() == all[i as int]);
        if starts_with_str(&t, "Q:") {
            let mut rest: Vec<char> = Vec::new();
            let mut k: usize = 2;
            while k < t.len()
                invariant
                    2 <= k <= t@.len(),
                    rest@ == t@.subrange(2, k as int),
                decreases t.len() - k,
            {
                rest.push(t[k]);
                assert(t@.subrange(2, k + 1) == t@.subrange(2, k as int).push(t@[k as int]));
                k += 1;
            }
            assert(rest@ == t@.skip(2));
            let q = trim_chars(&rest);
            if q.len() > 0 {
                out.push(string_of(&q));
                assert(line_questions(all.take(i + 1)) == before.push(q@));
            }
        }
        i += 1;
    }
    assert(all.take(ls.len() as int) == all);
    if out.len() == 0 {
        return Err(SetupError::NoFollowupQuestions);
    }
    if out.len() > 2 {
        out.truncate(2);
    }
    Ok(out)
}

/// The text of a soul section: after the first `start` marker, up to the
/// next `end` marker (or the end), trimmed; empty where `start` is missing.
pub open spec fn section_text(response: Seq<char>, start: Seq<char>, end: Option<Seq<char>>) -> Seq<
    char,
> {
    match find(response, start) {
        None => Seq::empty(),
        Some(i) => {
            let from = i + start.len();
            let to = match end {
                Some(e) => match find_from(response, e, from) {
                    Some(j) => j,
                    None => response.len() as int,
                },
                None => response.len() as int,
            };
            trim(response.subrange(from, to))
        },
    }
}

fn extract_section(response: &[char], start: &str, end: Option<&str>) -> (r: String)
    ensures
        r@ == section_text(
            response@,
            start@,
            match end {
                Some(e) => Some(e@),
                None => None,
            },
        ),
{
    let st = chars_of(start);
    match find_from_exec(response, &st, 0) {
        None => String::new(),
        Some(i) => {
            proof {
                crate::text::lemma_find_from_bounds(response@, st@, 0);
            }
            assert(i + st@.len() <= response@.len());
            assert(response@.len() == response.len());
            let from = i + st.len();
            let to = match end {
                Some(e) => {
                    let ec = chars_of(e);
                    match find_from_exec(response, &ec, from) {
                        Some(j) => {
                            proof {
                                crate::text::lemma_find_from_bounds(response@, ec@, from as int);
                            }
                            j
                        },
                        None => response.len(),
                    }
                },
                None => response.len(),
            };
            let mut part: Vec<char> = Vec::new();
            let mut k: usize = from;
            while k < to
                invariant
                    from <= k <= to <= response@.len(),
                    part@ == response@.subrange(from as int, k as int),
                decreases to - k,
            {
                part.push(response[k]);
                assert(response@.subrange(from as int, k + 1) == response@.subrange(
                    from as int,
                    k as int,
                ).push(response@[k as int]));
                k += 1;
            }
            string_of(&trim_chars(&part))
        },
    }
}

/// The four sections of a generated soul, or an error where the SOUL or the
/// SUMMARY section is empty.
pub fn parse_generated_soul(response: &str) -> (r: Result<GeneratedSoul, SetupError>)
    ensures
        ({
            let soul = section_text(response@, "---SOUL---"@, Some("---STYLE---"@));
            let style = section_text(response@, "---STYLE---"@, Some("---USER---"@));
            let user = section_text(response@, "---USER---"@, Some("---SUMMARY---"@));
            let summary = section_text(response@, "---SUMMARY---"@, None);
            if soul.len() == 0 || summary.len() == 0 {
                r matches Err(SetupError::MissingSoulSections)
            } else {
                r matches Ok(g) && g.soul_md@ == soul && g.style_md@ == style && g.user_md@ == user
                    && g.summary@ == summary
            }
        }),
{
    let v = chars_of(response);
    let soul_md = extract_section(&v, "---SOUL---", Some("---STYLE---"));
    let style_md = extract_section(&v, "---STYLE---", Some("---USER---"));
    let user_md = extract_section(&v, "---USER---", Some("---SUMMARY---"));
    let summary = extract_section(&v, "---SUMMARY---", None);
    if soul_md.as_str().is_empty() || summary.as_str().is_empty() {
        return Err(SetupError::MissingSoulSections);
    }
    Ok(GeneratedSoul { soul_md, style_md, user_md, summary })
}

} // verus!
