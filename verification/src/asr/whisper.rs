//! Local Whisper recognition through the `whisper` command-line tool.
use vstd::prelude::*;
use crate::asr::transcript::TranscriptSegment;
use crate::error::AppError;
use crate::text::copy_string;

verus! {

/// Runs the Whisper command-line tool on recordings.
#[derive(Debug)]
pub struct WhisperAsr {
    cli_path: String,
    model_path: String,
    language: String,
}

impl WhisperAsr {
    /// The command that is run.
    pub closed spec fn cli(&self) -> Seq<char> {
        self.cli_path@
    }

    /// The model file.
    pub closed spec fn model(&self) -> Seq<char> {
        self.model_path@
    }

    /// The spoken language.
    pub closed spec fn lang(&self) -> Seq<char> {
        self.language@
    }

    /// A recogniser running `whisper` with `model_path` for `language`.
    pub fn new(model_path: &str, language: &str) -> (r: Self)
        ensures
            r.cli() == "whisper"@,
            r.model() == model_path@,
            r.lang() == language@,
    {
        WhisperAsr {
            cli_path: "whisper".to_owned(),
            model_path: model_path.to_owned(),
            language: language.to_owned(),
        }
    }

    /// A recogniser running the tool at `cli_path`.
    pub fn with_cli_path(cli_path: &str, model_path: &str, language: &str) -> (r: Self)
        ensures
            r.cli() == cli_path@,
            r.model() == model_path@,
            r.lang() == language@,
    {
        WhisperAsr {
            cli_path: cli_path.to_owned(),
            model_path: model_path.to_owned(),
            language: language.to_owned(),
        }
    }

    /// The command to run.
    pub fn program(&self) -> (r: String)
        ensures
            r@ == self.cli(),
    {
        copy_string(&self.cli_path)
    }

    /// The arguments of the command for `audio_path`: the file, then the
    /// model, the language and JSON output.
    pub fn args(&self, audio_path: &str) -> (r: Vec<String>)
        ensures
            r@.len() == 7,
            r@[0]@ == audio_path@,
            r@[1]@ == "--model"@,
            r@[2]@ == self.model(),
            r@[3]@ == "--language"@,
            r@[4]@ == self.lang(),
            r@[5]@ == "--output_format"@,
            r@[6]@ == "json"@,
    {
        let mut v: Vec<String> = Vec::new();
        v.push(audio_path.to_owned());
        v.push("--model".to_owned());
        v.push(copy_string(&self.model_path));
        v.push("--language".to_owned());
        v.push(copy_string(&self.language));
        v.push("--output_format".to_owned());
        v.push("json".to_owned());
        v
    }
}

/// The transcript returned when the Whisper tool cannot be started: one
/// placeholder segment covering the first second.
pub fn stub_transcript() -> (r: Vec<TranscriptSegment>)
    ensures
        r@.len() == 1,
        r@[0].start_ms == 0,
        r@[0].end_ms == 1000,
        r@[0].text@ == "[ASR stub: whisper model not loaded]"@,
        r@[0].speaker is None,
{
    let mut v: Vec<TranscriptSegment> = Vec::new();
    v.push(
        TranscriptSegment {
            start_ms: 0,
            end_ms: 1000,
            text: "[ASR stub: whisper model not loaded]".to_owned(),
            speaker: None,
        },
    );
    v
}

/// The error for a Whisper run that exited unsuccessfully.
pub fn whisper_exit_error(stderr: &str) -> (r: AppError)
    ensures
        r matches AppError::Asr(m) && m@ == "whisper exited with error: "@ + stderr@,
{
    let mut m = "whisper exited with error: ".to_owned();
    m.append(stderr);
    AppError::Asr(m)
}

} // verus!
