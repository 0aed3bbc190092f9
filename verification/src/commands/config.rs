//! The application's settings.
use vstd::prelude::*;
use crate::llm::client::LlmConfig;
use crate::text::{copy_opt_string, copy_string, opt_view};

verus! {

/// Which LLM service the application talks to.
#[derive(Debug)]
pub struct LlmProviderConfig {
    /// "ollama" or "openai" (stored as `type` in the settings file).
    pub provider_type: String,
    pub base_url: String,
    pub model: String,
    pub api_key: Option<String>,
}

/// The application's settings.
#[derive(Debug)]
pub struct AppConfig {
    pub llm_provider: LlmProviderConfig,
    pub whisper_model: String,
    pub language: String,
    pub whisper_cli_path: String,
    pub whisper_model_dir: String,
    pub asr_provider: String,
    pub aliyun_asr_app_key: String,
    pub aliyun_asr_access_key_id: String,
    pub aliyun_asr_access_key_secret: String,
    pub funasr_ws_url: String,
    pub funasr_server_path: String,
    pub funasr_port: u16,
    pub funasr_enabled: bool,
}

/// The ASR provider used when the settings name none.
pub fn default_asr_provider() -> (r: String)
    ensures
        r@ == "local_whisper"@,
{
    "local_whisper".to_owned()
}

/// The FunASR port used when the settings name none.
pub fn default_funasr_port() -> (r: u16)
    ensures
        r == 10095,
{
    10095
}

/// The settings used when none are saved.
pub open spec fn is_default_config(c: AppConfig) -> bool {
    &&& c.llm_provider.provider_type@ == "ollama"@
    &&& c.llm_provider.base_url@ == "http://localhost:11434"@
    &&& c.llm_provider.model@ == "llama3"@
    &&& c.llm_provider.api_key is None
    &&& c.whisper_model@ == "base"@
    &&& c.language@ == "zh"@
    &&& c.whisper_cli_path@ == "whisper-cli"@
    &&& c.whisper_model_dir@.len() == 0
    &&& c.asr_provider@ == "local_whisper"@
    &&& c.aliyun_asr_app_key@.len() == 0
    &&& c.aliyun_asr_access_key_id@.len() == 0
    &&& c.aliyun_asr_access_key_secret@.len() == 0
    &&& c.funasr_ws_url@.len() == 0
    &&& c.funasr_server_path@.len() == 0
    &&& c.funasr_port == 10095
    &&& !c.funasr_enabled
}

impl Default for AppConfig {
    fn default() -> (r: AppConfig)
        ensures
            is_default_config(r),
    {
        AppConfig {
            llm_provider: LlmProviderConfig {
                provider_type: "ollama".to_owned(),
                base_url: "http://localhost:11434".to_owned(),
                model: "llama3".to_owned(),
                api_key: None,
            },
            whisper_model: "base".to_owned(),
            language: "zh".to_owned(),
            whisper_cli_path: "whisper-cli".to_owned(),
            whisper_model_dir: String::new(),
            asr_provider: default_asr_provider(),
            aliyun_asr_app_key: String::new(),
            aliyun_asr_access_key_id: String::new(),
            aliyun_asr_access_key_secret: String::new(),
            funasr_ws_url: String::new(),
            funasr_server_path: String::new(),
            funasr_port: default_funasr_port(),
            funasr_enabled: false,
        }
    }
}

impl AppConfig {
    /// The LLM configuration that the settings describe.
    pub fn llm_config(&self) -> (r: LlmConfig)
        ensures
            r.provider@ == self.llm_provider.provider_type@,
            r.base_url@ == self.llm_provider.base_url@,
            r.model@ == self.llm_provider.model@,
            opt_view(r.api_key) == opt_view(self.llm_provider.api_key),
    {
        LlmConfig {
            provider: copy_string(&self.llm_provider.provider_type),
            base_url: copy_string(&self.llm_provider.base_url),
            model: copy_string(&self.llm_provider.model),
            api_key: copy_opt_string(&self.llm_provider.api_key),
        }
    }
}

} // verus!
