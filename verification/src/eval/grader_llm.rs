//! LLM-as-judge grading of a summary against the golden one.
use vstd::prelude::*;
use crate::error::AppError;
use crate::llm::client::{reply_view, LlmClient};
use crate::llm::template::{fill_template, filled, strip_fences, strip_fences_spec};
use crate::text::{trim, trim_str};

verus! {

/// What the judge was asked and answered: the prompt, the JSON text found
/// in its reply, and the reply as it came.
#[derive(Debug)]
pub struct JudgeReply {
    pub prompt: String,
    pub json: String,
    pub raw: String,
}

/// The judge prompt: the rubric template with `{{golden_summary}}` filled
/// first and `{{actual_summary}}` second.
pub open spec fn judge_prompt_text(template: Seq<char>, golden: Seq<char>, actual: Seq<char>) -> Seq<
    char,
> {
    filled(filled(template, "golden_summary"@, golden), "actual_summary"@, actual)
}

/// The JSON text in a judge reply: the trimmed reply, or the body of its
/// fenced block.
pub open spec fn judge_json(reply: Seq<char>) -> Seq<char> {
    strip_fences_spec(trim(reply))
}

/// Fills the rubric template with the golden and the actual summary.
pub fn judge_prompt(template: &str, golden: &str, actual: &str) -> (r: String)
    ensures
        r@ == judge_prompt_text(template@, golden@, actual@),
{
    let first = fill_template(template, "golden_summary", golden);
    fill_template(first.as_str(), "actual_summary", actual)
}

/// What a judge's answer `reply` to `prompt` gives: a reply is returned
/// with the JSON text found in it; an error is passed on as it is.
pub open spec fn judge_result(
    prompt: Seq<char>,
    reply: Result<Seq<char>, AppError>,
    r: Result<JudgeReply, AppError>,
) -> bool {
    match reply {
        Ok(text) => r matches Ok(j) && j.prompt@ == prompt && j.raw@ == text && j.json@ == judge_json(
            text,
        ),
        Err(e) => r == Err::<JudgeReply, AppError>(e),
    }
}

/// What the judge's answer `reply` to `prompt` gives (see `judge_result`).
pub fn judge_outcome(prompt: String, reply: Result<String, AppError>) -> (r: Result<
    JudgeReply,
    AppError,
>)
    ensures
        judge_result(prompt@, reply_view(reply), r),
{
    match reply {
        Ok(text) => {
            let trimmed = trim_str(text.as_str());
            let json = strip_fences(trimmed.as_str());
            Ok(JudgeReply { prompt, json, raw: text })
        },
        Err(e) => Err(e),
    }
}

/// Asks the judge to compare `actual` with `golden` using the rubric
/// `template`: the judge is asked once, with the filled rubric, and its
/// answer gives the result (see `judge_result`).
pub fn grade<C: LlmClient>(
    client: &mut C,
    template: &str,
    golden: &str,
    actual: &str,
) -> (r: Result<JudgeReply, AppError>)
    ensures
        old(client).keeps_history() ==> {
            &&& final(client).history().len() == old(client).history().len() + 1
            &&& final(client).history().drop_last() == old(client).history()
            &&& final(client).history().last().0 == judge_prompt_text(template@, golden@, actual@)
            &&& judge_result(
                judge_prompt_text(template@, golden@, actual@),
                final(client).history().last().1,
                r,
            )
        },
{
    let prompt = judge_prompt(template, golden, actual);
    let reply = client.complete(prompt.as_str());
    proof {
        if old(client).keeps_history() {
            assert(client.history().drop_last() =~= old(client).history());
        }
    }
    judge_outcome(prompt, reply)
}

} // verus!
