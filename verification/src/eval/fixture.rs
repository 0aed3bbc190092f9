//! Evaluation fixtures: a raw transcript with what a good pipeline run is
//! expected to produce, and the verdict rules for a graded run.
use vstd::prelude::*;
use crate::text::{chars_of, contains, opt_view, str_contains};

verus! {

/// Identification of a fixture.
#[derive(Debug)]
pub struct FixtureMeta {
    pub id: String,
    pub scene: String,
    pub difficulty: String,
}

/// The input a fixture feeds to the pipeline.
#[derive(Debug)]
pub struct FixtureInput {
    pub raw_transcript: String,
}

/// An action item a good run should find.
#[derive(Debug)]
pub struct GoldenAction {
    pub task: String,
    pub owner: Option<String>,
    pub deadline: Option<String>,
}

/// What a good pipeline run on the fixture produces.
#[derive(Debug)]
pub struct FixtureExpected {
    pub summary_must_contain: Vec<String>,
    pub min_action_items: usize,
    pub required_participants: Vec<String>,
    pub golden_summary: Option<String>,
    pub golden_actions: Vec<GoldenAction>,
}

/// One evaluation case.
#[derive(Debug)]
pub struct Fixture {
    pub meta: FixtureMeta,
    pub input: FixtureInput,
    pub expected: FixtureExpected,
}

/// The verdict on a graded fixture.
#[derive(Debug, Clone, Copy, PartialEq, Eq, Structural)]
pub enum EvalStatus {
    Pass,
    Warn,
    Fail,
}

impl EvalStatus {
    /// "PASS", "WARN" or "FAIL".
    pub fn as_str(&self) -> (r: &'static str)
        ensures
            r@ == status_text(*self),
    {
        match self {
            EvalStatus::Pass => "PASS",
            EvalStatus::Warn => "WARN",
            EvalStatus::Fail => "FAIL",
        }
    }
}

/// The label of a verdict.
pub open spec fn status_text(s: EvalStatus) -> Seq<char> {
    match s {
        EvalStatus::Pass => "PASS"@,
        EvalStatus::Warn => "WARN"@,
        EvalStatus::Fail => "FAIL"@,
    }
}

/// The verdict for a run whose code checks scored `passed` out of `total`
/// weight units, where `judge_low` says that the LLM judge scored it below
/// 0.7. A code score under 0.6 fails; a low judge score or a code score
/// under 0.8 warns; anything else passes.
pub open spec fn verdict(passed: nat, total: nat, judge_low: bool) -> EvalStatus {
    if 10 * passed < 6 * total {
        EvalStatus::Fail
    } else if judge_low {
        EvalStatus::Warn
    } else if 10 * passed >= 8 * total {
        EvalStatus::Pass
    } else {
        EvalStatus::Warn
    }
}

/// The verdict for a run whose code checks scored `passed` out of `total`
/// weight units (see `verdict`).
pub fn status(passed: u32, total: u32, judge_low: bool) -> (r: EvalStatus)
    ensures
        r == verdict(passed as nat, total as nat, judge_low),
{
    let p = passed as u64;
    let t = total as u64;
    if 10 * p < 6 * t {
        EvalStatus::Fail
    } else if judge_low {
        EvalStatus::Warn
    } else if 10 * p >= 8 * t {
        EvalStatus::Pass
    } else {
        EvalStatus::Warn
    }
}

/// The LLM judge is consulted when it is enabled, the code score is at
/// least 0.6 and the fixture has a non-empty golden summary.
pub open spec fn judge_wanted(
    no_llm_judge: bool,
    passed: nat,
    total: nat,
    golden: Option<Seq<char>>,
) -> bool {
    &&& !no_llm_judge
    &&& 10 * passed >= 6 * total
    &&& golden matches Some(g) && g.len() > 0
}

/// Whether the LLM judge should grade this run (see `judge_wanted`).
pub fn should_judge(no_llm_judge: bool, passed: u32, total: u32, golden: &Option<String>) -> (r:
    bool)
    ensures
        r == judge_wanted(no_llm_judge, passed as nat, total as nat, opt_view(*golden)),
{
    let p = passed as u64;
    let t = total as u64;
    if no_llm_judge || 10 * p < 6 * t {
        return false;
    }
    match golden {
        Some(g) => !g.as_str().is_empty(),
        None => false,
    }
}

/// Keeps, in order, the fixtures whose id contains `filter`.
pub fn retain_matching(fixtures: Vec<Fixture>, filter: &str) -> (r: Vec<Fixture>)
    ensures
        r@ == fixtures@.filter(|f: Fixture| contains(f.meta.id@, filter@)),
{
    let ghost pred = |f: Fixture| contains(f.meta.id@, filter@);
    let mut out: Vec<Fixture> = Vec::new();
    let mut rest = fixtures;
    let ghost orig = rest@;
    let mut i: usize = 0;
    let n = rest.len();
    assert(rest@ =~= orig.skip(0));
    proof {
        assert(orig.take(0).filter(pred) =~= Seq::<Fixture>::empty()) by {
            reveal(Seq::filter);
        }
    }
    while i < n
        invariant
            n == orig.len(),
            i <= n,
            rest@ == orig.skip(i as int),
            pred == (|f: Fixture| contains(f.meta.id@, filter@)),
            out@ == orig.take(i as int).filter(pred),
        decreases n - i,
    {
        let f = rest.remove(0);
        assert(f == orig[i as int]);
        assert(rest@ =~= orig.skip(i as int + 1));
        let keep = str_contains(f.meta.id.as_str(), filter);
        proof {
            let t = orig.take(i as int + 1);
            assert(t.drop_last() =~= orig.take(i as int));
            assert(t.last() == f);
            assert(pred(f) == keep);
            reveal(Seq::filter);
            assert(t.filter(pred) == if keep {
                orig.take(i as int).filter(pred).push(f)
            } else {
                orig.take(i as int).filter(pred)
            });
        }
        if keep {
            out.push(f);
        }
        i = i + 1;
    }
    assert(orig.take(n as int) =~= orig);
    out
}

// ───────────────────────── ordering by id ─────────────────────────

/// `a` comes no later than `b` in the lexicographic order of their
/// characters (which is the byte order of their UTF-8 encodings).
pub open spec fn id_le(a: Seq<char>, b: Seq<char>) -> bool
    decreases a.len(),
{
    if a.len() == 0 {
        true
    } else if b.len() == 0 {
        false
    } else if a[0] != b[0] {
        (a[0] as u32) < (b[0] as u32)
    } else {
        id_le(a.drop_first(), b.drop_first())
    }
}

/// Every sequence comes no later than itself.
pub proof fn lemma_id_le_reflexive(a: Seq<char>)
    ensures
        id_le(a, a),
    decreases a.len(),
{
    if a.len() > 0 {
        lemma_id_le_reflexive(a.drop_first());
    }
}

/// Of two sequences, one comes no later than the other.
pub proof fn lemma_id_le_total(a: Seq<char>, b: Seq<char>)
    ensures
        id_le(a, b) || id_le(b, a),
    decreases a.len(),
{
    if a.len() > 0 && b.len() > 0 {
        if a[0] == b[0] {
            lemma_id_le_total(a.drop_first(), b.drop_first());
        } else {
            vstd::utf8::char_u32_cast(a[0], a[0] as u32);
            vstd::utf8::char_u32_cast(b[0], b[0] as u32);
        }
    }
}

/// The order is transitive.
pub proof fn lemma_id_le_transitive(a: Seq<char>, b: Seq<char>, c: Seq<char>)
    requires
        id_le(a, b),
        id_le(b, c),
    ensures
        id_le(a, c),
    decreases a.len(),
{
    if a.len() > 0 && b.len() > 0 && c.len() > 0 && a[0] == b[0] && b[0] == c[0] {
        lemma_id_le_transitive(a.drop_first(), b.drop_first(), c.drop_first());
    }
}

/// Whether `a` comes no later than `b` (see `id_le`).
pub fn id_not_after(a: &str, b: &str) -> (r: bool)
    ensures
        r == id_le(a@, b@),
{
    let x = chars_of(a);
    let y = chars_of(b);
    let mut i: usize = 0;
    assert(x@.skip(0) =~= x@);
    assert(y@.skip(0) =~= y@);
    while i < x.len() && i < y.len()
        invariant
            i <= x@.len(),
            i <= y@.len(),
            x@ == a@,
            y@ == b@,
            id_le(a@, b@) == id_le(x@.skip(i as int), y@.skip(i as int)),
        decreases x.len() - i,
    {
        assert(x@.skip(i as int)[0] == x@[i as int]);
        assert(y@.skip(i as int)[0] == y@[i as int]);
        if x[i] != y[i] {
            return (x[i] as u32) < (y[i] as u32);
        }
        assert(x@.skip(i as int).drop_first() =~= x@.skip(i as int + 1));
        assert(y@.skip(i as int).drop_first() =~= y@.skip(i as int + 1));
        i = i + 1;
    }
    i == x.len()
}

/// The fixtures are in order of their ids.
pub open spec fn sorted_by_id(v: Seq<Fixture>) -> bool {
    forall|i: int, j: int| 0 <= i < j < v.len() ==> id_le(#[trigger] v[i].meta.id@, #[trigger] v[j].meta.id@)
}

/// The position of a fixture with the least id in `v` (the first such).
fn least_id_index(v: &Vec<Fixture>) -> (m: usize)
    requires
        v@.len() > 0,
    ensures
        m < v@.len(),
        forall|j: int| 0 <= j < v@.len() ==> id_le(v@[m as int].meta.id@, #[trigger] v@[j].meta.id@),
{
    let mut m: usize = 0;
    let mut k: usize = 1;
    proof {
        lemma_id_le_reflexive(v@[0].meta.id@);
    }
    while k < v.len()
        invariant
            1 <= k <= v@.len(),
            m < k,
            forall|j: int| 0 <= j < k ==> id_le(v@[m as int].meta.id@, #[trigger] v@[j].meta.id@),
        decreases v.len() - k,
    {
        if !id_not_after(v[m].meta.id.as_str(), v[k].meta.id.as_str()) {
            proof {
                let a = v@[k as int].meta.id@;
                let b = v@[m as int].meta.id@;
                lemma_id_le_total(b, a);
                lemma_id_le_reflexive(a);
                assert forall|j: int| 0 <= j < k + 1 implies id_le(a, #[trigger] v@[j].meta.id@) by {
                    if j < k {
                        lemma_id_le_transitive(a, b, v@[j].meta.id@);
                    }
                }
            }
            m = k;
        }
        k = k + 1;
    }
    m
}

/// The fixtures ordered by id: the same fixtures, each id no later than
/// the next.
pub fn sort_by_id(fixtures: Vec<Fixture>) -> (r: Vec<Fixture>)
    ensures
        r@.to_multiset() == fixtures@.to_multiset(),
        sorted_by_id(r@),
{
    broadcast use vstd::seq_lib::group_to_multiset_ensures;
    broadcast use vstd::multiset::group_multiset_axioms;
    let ghost orig = fixtures@;
    let mut rest = fixtures;
    let mut out: Vec<Fixture> = Vec::new();
    assert(out@.to_multiset().add(rest@.to_multiset()) =~= orig.to_multiset());
    while rest.len() > 0
        invariant
            out@.to_multiset().add(rest@.to_multiset()) == orig.to_multiset(),
            sorted_by_id(out@),
            forall|i: int, k: int|
                0 <= i < out@.len() && 0 <= k < rest@.len() ==> id_le(
                    #[trigger] out@[i].meta.id@,
                    #[trigger] rest@[k].meta.id@,
                ),
        decreases rest.len(),
    {
        let m = least_id_index(&rest);
        let ghost before = rest@;
        let ghost out0 = out@;
        let x = rest.remove(m);
        assert(before[m as int] == x);
        assert(rest@ == before.remove(m as int));
        proof {
            vstd::seq_lib::to_multiset_remove(before, m as int);
            before.to_multiset_ensures();
        }
        assert(before.contains(x));
        assert(before.to_multiset().count(x) > 0);
        out.push(x);
        proof {
            assert(out@ == out0.push(x));
            vstd::seq_lib::to_multiset_build(out0, x);
        }
        assert(out@.to_multiset() == out0.to_multiset().insert(x));
        assert(out@.to_multiset().add(rest@.to_multiset()) =~= orig.to_multiset());
        assert forall|i: int, j: int| 0 <= i < j < out@.len() implies id_le(
            #[trigger] out@[i].meta.id@,
            #[trigger] out@[j].meta.id@,
        ) by {
            if j == out@.len() - 1 {
                assert(out0[i] == out@[i]);
                assert(before[m as int] == x);
            } else {
                assert(out0[i] == out@[i] && out0[j] == out@[j]);
            }
        }
        assert forall|i: int, k: int| 0 <= i < out@.len() && 0 <= k < rest@.len() implies id_le(
            #[trigger] out@[i].meta.id@,
            #[trigger] rest@[k].meta.id@,
        ) by {
            let kk = if k < m { k } else { k + 1 };
            assert(rest@[k] == before[kk]);
            if i == out@.len() - 1 {
                assert(id_le(before[m as int].meta.id@, before[kk].meta.id@));
            } else {
                assert(out0[i] == out@[i]);
            }
        }
    }
    assert(rest@.to_multiset() =~= vstd::multiset::Multiset::empty());
    out
}

} // verus!
