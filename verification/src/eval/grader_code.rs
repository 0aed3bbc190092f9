//! Code-based grading: fast, deterministic checks on a pipeline run.
use vstd::prelude::*;
use crate::error::{AppError, error_text};
use crate::eval::fixture::FixtureExpected;
use crate::llm::pipeline::PipelineOutput;
use crate::text::{contains, is_blank, str_contains, trim, views};

verus! {

/// The outcome of the code checks. Each check has a weight in half units
/// (0.5 is 1, 1.0 is 2); the score is `passed_weight / total_weight`.
#[derive(Debug)]
pub struct CodeGradeResult {
    pub passed_weight: u32,
    pub total_weight: u32,
    pub passed: Vec<String>,
    pub failed: Vec<String>,
}

/// The names of the checks, in the order they run.
pub open spec fn check_names() -> Seq<Seq<char>> {
    seq![
        "stage3_participants_nonempty"@,
        "stage3_required_participants"@,
        "stage4_summary_keywords"@,
        "stage5_min_action_items"@,
        "stage6_report_nonempty"@,
        "stage1_clean_nonempty"@,
    ]
}

/// The weights of the checks in half units.
pub open spec fn check_weights() -> Seq<nat> {
    seq![1nat, 2, 2, 2, 1, 1]
}

/// Some entry of `hay` contains `needle`.
pub open spec fn some_contains(hay: Seq<Seq<char>>, needle: Seq<char>) -> bool {
    exists|j: int| 0 <= j < hay.len() && contains(#[trigger] hay[j], needle)
}

/// Which checks the run passes:
/// 1. stage 3 found participants;
/// 2. every required participant is contained in some found participant;
/// 3. the summary contains every required keyword;
/// 4. stage 5 found at least the required number of action items;
/// 5. the report is not blank;
/// 6. the cleaned transcript is not blank.
pub open spec fn check_outcomes(out: PipelineOutput, exp: FixtureExpected) -> Seq<bool> {
    let parts = views(out.structure.participants@);
    let required = views(exp.required_participants@);
    let keywords = views(exp.summary_must_contain@);
    seq![
        parts.len() > 0,
        forall|i: int| 0 <= i < required.len() ==> some_contains(parts, #[trigger] required[i]),
        forall|i: int| 0 <= i < keywords.len() ==> contains(out.summary@, #[trigger] keywords[i]),
        out.action_items@.len() >= exp.min_action_items,
        trim(out.report@).len() > 0,
        trim(out.clean_transcript@).len() > 0,
    ]
}

/// The entries of `names` whose flag equals `keep`, in order.
pub open spec fn picked(names: Seq<Seq<char>>, flags: Seq<bool>, keep: bool) -> Seq<Seq<char>>
    decreases names.len(),
{
    if names.len() == 0 {
        Seq::empty()
    } else {
        let rest = picked(names.drop_last(), flags.drop_last(), keep);
        if flags[names.len() - 1] == keep {
            rest.push(names.last())
        } else {
            rest
        }
    }
}

/// The total weight of the entries whose flag is set.
pub open spec fn weight_of(weights: Seq<nat>, flags: Seq<bool>) -> nat
    decreases weights.len(),
{
    if weights.len() == 0 {
        0
    } else {
        weight_of(weights.drop_last(), flags.drop_last()) + if flags[weights.len() - 1] {
            weights.last()
        } else {
            0
        }
    }
}

/// An entry whose flag equals `keep` is among those picked.
proof fn lemma_picked_has(names: Seq<Seq<char>>, flags: Seq<bool>, keep: bool, i: int)
    requires
        names.len() == flags.len(),
        0 <= i < names.len(),
        flags[i] == keep,
    ensures
        picked(names, flags, keep).contains(names[i]),
    decreases names.len(),
{
    let rest = picked(names.drop_last(), flags.drop_last(), keep);
    if i == names.len() - 1 {
        assert(picked(names, flags, keep) == rest.push(names.last()));
        assert(rest.push(names.last())[rest.len() as int] == names[i]);
    } else {
        lemma_picked_has(names.drop_last(), flags.drop_last(), keep, i);
        let j = choose|j: int| 0 <= j < rest.len() && rest[j] == names[i];
        if flags[names.len() - 1] == keep {
            assert(rest.push(names.last())[j] == names[i]);
        }
    }
}

/// The summary-keyword check passes exactly when the summary contains every
/// expected keyword, whatever its position in the list; a keyword missing
/// anywhere puts "stage4_summary_keywords" among the failed checks.
pub proof fn law_summary_needs_every_keyword(out: PipelineOutput, exp: FixtureExpected)
    ensures
        check_outcomes(out, exp)[2] <==> forall|i: int|
            0 <= i < exp.summary_must_contain@.len() ==> contains(
                out.summary@,
                (#[trigger] exp.summary_must_contain@[i])@,
            ),
        (exists|i: int|
            0 <= i < exp.summary_must_contain@.len() && !contains(
                out.summary@,
                (#[trigger] exp.summary_must_contain@[i])@,
            )) ==> picked(check_names(), check_outcomes(out, exp), false).contains(
            "stage4_summary_keywords"@,
        ),
{
    let kw = exp.summary_must_contain@;
    let v = views(kw);
    assert forall|i: int| 0 <= i < kw.len() implies v[i] == (#[trigger] kw[i])@ by {}
    if exists|i: int| 0 <= i < kw.len() && !contains(out.summary@, (#[trigger] kw[i])@) {
        let i = choose|i: int| 0 <= i < kw.len() && !contains(out.summary@, (#[trigger] kw[i])@);
        assert(v[i] == kw[i]@);
        assert(!check_outcomes(out, exp)[2]);
        lemma_picked_has(check_names(), check_outcomes(out, exp), false, 2);
    }
}

/// Some name of `found` contains `name`.
pub open spec fn named_in(found: Seq<String>, name: Seq<char>) -> bool {
    exists|j: int| 0 <= j < found.len() && contains((#[trigger] found[j])@, name)
}

/// What each of the other checks means: participants were found; every
/// required participant is contained in some found participant; at least
/// the required number of action items; a report and a cleaned transcript
/// that are not blank.
pub proof fn law_participant_and_content_checks(out: PipelineOutput, exp: FixtureExpected)
    ensures
        check_outcomes(out, exp)[0] <==> out.structure.participants@.len() > 0,
        check_outcomes(out, exp)[1] <==> forall|i: int|
            0 <= i < exp.required_participants@.len() ==> named_in(
                out.structure.participants@,
                (#[trigger] exp.required_participants@[i])@,
            ),
        check_outcomes(out, exp)[3] <==> out.action_items@.len() >= exp.min_action_items,
        check_outcomes(out, exp)[4] <==> trim(out.report@).len() > 0,
        check_outcomes(out, exp)[5] <==> trim(out.clean_transcript@).len() > 0,
{
    let found = out.structure.participants@;
    let parts = views(found);
    let req = views(exp.required_participants@);
    assert forall|x: Seq<char>| named_in(found, x) <==> some_contains(parts, x) by {
        if named_in(found, x) {
            let j = choose|j: int| 0 <= j < found.len() && contains((#[trigger] found[j])@, x);
            assert(parts[j] == found[j]@);
        }
        if some_contains(parts, x) {
            let j = choose|j: int| 0 <= j < parts.len() && contains(#[trigger] parts[j], x);
            assert(parts[j] == found[j]@);
        }
    }
    assert forall|i: int| 0 <= i < exp.required_participants@.len() implies req[i] == (
    #[trigger] exp.required_participants@[i])@ by {}
}

/// Whether each of `required` is contained in some entry of `found`.
fn all_found(found: &Vec<String>, required: &Vec<String>) -> (r: bool)
    ensures
        r == forall|i: int|
            0 <= i < required@.len() ==> some_contains(views(found@), #[trigger] views(required@)[i]),
{
    let mut i: usize = 0;
    while i < required.len()
        invariant
            i <= required@.len(),
            forall|k: int| 0 <= k < i ==> some_contains(views(found@), #[trigger] views(required@)[k]),
        decreases required.len() - i,
    {
        let mut j: usize = 0;
        let mut hit = false;
        while j < found.len() && !hit
            invariant
                j <= found@.len(),
                i < required@.len(),
                hit ==> some_contains(views(found@), required@[i as int]@),
                !hit ==> forall|k: int| 0 <= k < j ==> !contains(#[trigger] views(found@)[k], required@[i as int]@),
            decreases found.len() - j,
        {
            hit = str_contains(found[j].as_str(), required[i].as_str());
            proof {
                if hit {
                    assert(contains(views(found@)[j as int], required@[i as int]@));
                }
            }
            j = j + 1;
        }
        assert(views(required@)[i as int] == required@[i as int]@);
        if !hit {
            return false;
        }
        i = i + 1;
    }
    true
}

/// Whether `text` contains each of `keywords`.
fn contains_all(text: &String, keywords: &Vec<String>) -> (r: bool)
    ensures
        r == forall|i: int| 0 <= i < keywords@.len() ==> contains(text@, #[trigger] views(keywords@)[i]),
{
    let mut i: usize = 0;
    while i < keywords.len()
        invariant
            i <= keywords@.len(),
            forall|k: int| 0 <= k < i ==> contains(text@, #[trigger] views(keywords@)[k]),
        decreases keywords.len() - i,
    {
        let ok = str_contains(text.as_str(), keywords[i].as_str());
        assert(views(keywords@)[i as int] == keywords@[i as int]@);
        if !ok {
            return false;
        }
        i = i + 1;
    }
    true
}

/// Runs the code checks on a pipeline run: the names of the passed and the
/// failed checks in order, and the passed weight out of the total (9 half
/// units).
pub fn grade(output: &PipelineOutput, expected: &FixtureExpected) -> (r: CodeGradeResult)
    ensures
        r.total_weight == 9,
        r.passed_weight == weight_of(check_weights(), check_outcomes(*output, *expected)),
        views(r.passed@) == picked(check_names(), check_outcomes(*output, *expected), true),
        views(r.failed@) == picked(check_names(), check_outcomes(*output, *expected), false),
        // a summary missing any expected keyword fails the keyword check
        (exists|i: int|
            0 <= i < expected.summary_must_contain@.len() && !contains(
                output.summary@,
                (#[trigger] expected.summary_must_contain@[i])@,
            )) ==> views(r.failed@).contains("stage4_summary_keywords"@),
{
    proof {
        law_summary_needs_every_keyword(*output, *expected);
    }
    let c1 = output.structure.participants.len() > 0;
    let c2 = all_found(&output.structure.participants, &expected.required_participants);
    let c3 = contains_all(&output.summary, &expected.summary_must_contain);
    let c4 = output.action_items.len() >= expected.min_action_items;
    let c5 = !is_blank(output.report.as_str());
    let c6 = !is_blank(output.clean_transcript.as_str());
    let flags = vec![c1, c2, c3, c4, c5, c6];
    let names = vec![
        "stage3_participants_nonempty",
        "stage3_required_participants",
        "stage4_summary_keywords",
        "stage5_min_action_items",
        "stage6_report_nonempty",
        "stage1_clean_nonempty",
    ];
    let weights: Vec<u32> = vec![1, 2, 2, 2, 1, 1];
    let ghost outcomes = check_outcomes(*output, *expected);
    let ghost nm = names@.map_values(|s: &str| s@);
    let ghost ws = weights@.map_values(|w: u32| w as nat);
    assert(flags@ =~= outcomes);
    assert(nm =~= check_names());
    assert(ws =~= check_weights());
    let mut passed: Vec<String> = Vec::new();
    let mut failed: Vec<String> = Vec::new();
    let mut sum: u32 = 0;
    let mut i: usize = 0;
    while i < 6
        invariant
            i <= 6,
            flags@.len() == 6,
            names@.len() == 6,
            weights@.len() == 6,
            flags@ == outcomes,
            nm == names@.map_values(|s: &str| s@),
            ws == weights@.map_values(|w: u32| w as nat),
            forall|k: int| 0 <= k < 6 ==> #[trigger] weights@[k] <= 2,
            sum <= 2 * i,
            sum == weight_of(ws.take(i as int), outcomes.take(i as int)),
            views(passed@) == picked(nm.take(i as int), outcomes.take(i as int), true),
            views(failed@) == picked(nm.take(i as int), outcomes.take(i as int), false),
        decreases 6 - i,
    {
        proof {
            assert(nm.take(i as int + 1).drop_last() =~= nm.take(i as int));
            assert(ws.take(i as int + 1).drop_last() =~= ws.take(i as int));
            assert(outcomes.take(i as int + 1).drop_last() =~= outcomes.take(i as int));
        }
        let name = names[i].to_owned();
        if flags[i] {
            passed.push(name);
            sum = sum + weights[i];
            assert(views(passed@) =~= picked(nm.take(i as int), outcomes.take(i as int), true).push(
                nm[i as int],
            ));
        } else {
            failed.push(name);
            assert(views(failed@) =~= picked(nm.take(i as int), outcomes.take(i as int), false).push(
                nm[i as int],
            ));
        }
        i = i + 1;
    }
    assert(nm.take(6) =~= nm);
    assert(ws.take(6) =~= ws);
    assert(outcomes.take(6) =~= outcomes);
    proof {
        reveal_with_fuel(weight_of, 7);
    }
    CodeGradeResult { passed_weight: sum, total_weight: 9, passed, failed }
}

/// The grade of a pipeline run that failed: nothing passed, the single
/// failed check is "pipeline_run", and the reason names the error.
pub fn failed_run_grade(e: &AppError) -> (r: (CodeGradeResult, String))
    ensures
        r.0.passed_weight == 0,
        r.0.total_weight == 9,
        r.0.passed@.len() == 0,
        views(r.0.failed@) == seq!["pipeline_run"@],
        r.1@ == "Pipeline error: "@ + error_text(*e),
{
    let mut failed: Vec<String> = Vec::new();
    failed.push("pipeline_run".to_owned());
    assert(views(failed@) =~= seq!["pipeline_run"@]);
    let mut reason = "Pipeline error: ".to_owned();
    let text = e.to_string();
    reason.append(text.as_str());
    (CodeGradeResult { passed_weight: 0, total_weight: 9, passed: Vec::new(), failed }, reason)
}

} // verus!
