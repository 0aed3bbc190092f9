//! Choosing the speech recogniser.
use vstd::prelude::*;
use crate::asr::aliyun::AliyunAsr;
use crate::asr::transcript::TranscriptSegment;
use crate::asr::whisper::WhisperAsr;
use crate::commands::config::AppConfig;
use crate::error::AppError;

verus! {

/// A speech recogniser for recorded audio files.
pub trait AsrProvider {
    /// Transcribes the audio file at `audio_path`.
    fn transcribe(&self, audio_path: &str) -> Result<Vec<TranscriptSegment>, AppError>;

    /// The provider's name.
    fn name(&self) -> &'static str;
}

/// The recogniser that the settings call for.
#[derive(Debug)]
pub enum AsrChoice {
    Aliyun(AliyunAsr),
    Whisper(WhisperAsr),
}

/// The Whisper model file for a model directory and model name:
/// `{dir}/ggml-{model}.bin`.
pub open spec fn whisper_model_path(dir: Seq<char>, model: Seq<char>) -> Seq<char> {
    dir + "/ggml-"@ + model + ".bin"@
}

/// Chooses the recogniser: "aliyun" selects Aliyun with the configured
/// credentials; anything else selects the local Whisper tool with the
/// configured model.
pub fn build_asr(config: &AppConfig) -> (r: AsrChoice)
    ensures
        config.asr_provider@ == "aliyun"@ ==> (r matches AsrChoice::Aliyun(a)
            && a.app_key() == config.aliyun_asr_app_key@
            && a.access_key_id() == config.aliyun_asr_access_key_id@
            && a.access_key_secret() == config.aliyun_asr_access_key_secret@
            && a.lang() == config.language@),
        config.asr_provider@ != "aliyun"@ ==> (r matches AsrChoice::Whisper(w)
            && w.cli() == config.whisper_cli_path@
            && w.model() == whisper_model_path(config.whisper_model_dir@, config.whisper_model@)
            && w.lang() == config.language@),
{
    let aliyun = "aliyun".to_owned();
    if config.asr_provider == aliyun {
        AsrChoice::Aliyun(
            AliyunAsr::new(
                config.aliyun_asr_app_key.as_str(),
                config.aliyun_asr_access_key_id.as_str(),
                config.aliyun_asr_access_key_secret.as_str(),
                config.language.as_str(),
            ),
        )
    } else {
        let mut model_path = config.whisper_model_dir.as_str().to_owned();
        model_path.append("/ggml-");
        model_path.append(config.whisper_model.as_str());
        model_path.append(".bin");
        AsrChoice::Whisper(
            WhisperAsr::with_cli_path(
                config.whisper_cli_path.as_str(),
                model_path.as_str(),
                config.language.as_str(),
            ),
        )
    }
}

} // verus!
