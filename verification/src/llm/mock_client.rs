//! Mock LLM client for unit tests and eval dry-runs.
use vstd::prelude::*;
use crate::error::AppError;
use crate::llm::client::{LlmClient, reply_view};
use crate::text::{chars_of, copy_string, string_of, views};

verus! {

/// Returns preset responses in sequence (round-robin once exhausted).
pub struct MockLlmClient {
    responses: Vec<String>,
    call_count: usize,
    log: Ghost<Seq<(Seq<char>, Result<Seq<char>, AppError>)>>,
}

/// The reply of a mock scripted with `responses` to its call number `n`.
pub open spec fn scripted_reply(responses: Seq<Seq<char>>, n: nat) -> Seq<char>
    recommends
        responses.len() > 0,
{
    responses[(n % responses.len()) as int]
}

impl MockLlmClient {
    /// The scripted responses.
    pub closed spec fn script(&self) -> Seq<Seq<char>> {
        views(self.responses@)
    }

    /// How many completions have been requested (wrapping at `usize::MAX`).
    pub closed spec fn calls(&self) -> nat {
        self.call_count as nat
    }

    /// Every exchange so far got the scripted response at its position,
    /// round-robin, and the call counter counts them.
    pub open spec fn replays_script(&self) -> bool {
        self.script().len() > 0 ==> {
            &&& self.history().len() == self.calls()
            &&& forall|i: int|
                0 <= i < self.history().len() ==> #[trigger] self.history()[i].1 == Ok::<
                    Seq<char>,
                    AppError,
                >(scripted_reply(self.script(), i as nat))
        }
    }

    /// A mock that answers with `responses`, in order, starting over after the
    /// last one.
    pub fn new(responses: Vec<&str>) -> (r: Self)
        ensures
            r.script() == responses@.map_values(|s: &str| s@),
            r.calls() == 0,
            r.history().len() == 0,
            r.replays_script(),
    {
        let mut owned: Vec<String> = Vec::new();
        let mut i: usize = 0;
        while i < responses.len()
            invariant
                i <= responses@.len(),
                owned@.len() == i,
                forall|k: int| 0 <= k < i ==> #[trigger] owned@[k]@ == responses@[k]@,
            decreases responses.len() - i,
        {
            let v = chars_of(responses[i]);
            owned.push(string_of(&v));
            i = i + 1;
        }
        let r = MockLlmClient { responses: owned, call_count: 0, log: Ghost(Seq::empty()) };
        assert(r.script() =~= responses@.map_values(|s: &str| s@));
        r
    }

    /// Convenience: a mock with a single JSON response.
    pub fn with_json(json: &str) -> (r: Self)
        ensures
            r.script() == seq![json@],
            r.calls() == 0,
            r.history().len() == 0,
            r.replays_script(),
    {
        let mut v: Vec<&str> = Vec::new();
        v.push(json);
        let r = Self::new(v);
        assert(v@.map_values(|s: &str| s@) =~= seq![json@]);
        r
    }

    /// Answers the next scripted response, or an error when the script is empty.
    pub fn next_reply(&mut self, prompt: &str) -> (r: Result<String, AppError>)
        ensures
            final(self).script() == old(self).script(),
            old(self).script().len() == 0 ==> (r matches Err(AppError::Other(m))
                && m@ == "MockLlmClient has no responses configured"@
                && final(self).calls() == old(self).calls()),
            old(self).script().len() > 0 ==> (r matches Ok(s)
                && s@ == scripted_reply(old(self).script(), old(self).calls())
                && final(self).calls() == if old(self).calls() == usize::MAX {
                    0
                } else {
                    old(self).calls() + 1
                }),
            final(self).history() == old(self).history().push((prompt@, reply_view(r))),
            old(self).replays_script() && old(self).calls() < usize::MAX
                ==> final(self).replays_script(),
    {
        if self.responses.len() == 0 {
            let r = Err(AppError::Other("MockLlmClient has no responses configured".to_owned()));
            self.log = Ghost(self.log@.push((prompt@, reply_view(r))));
            return r;
        }
        let count = self.call_count;
        let idx = count % self.responses.len();
        self.call_count = count.wrapping_add(1);
        let r = Ok(copy_string(&self.responses[idx]));
        self.log = Ghost(self.log@.push((prompt@, reply_view(r))));
        proof {
            assert(self.script()[idx as int] == self.responses@[idx as int]@);
        }
        r
    }
}

impl LlmClient for MockLlmClient {
    /// The mock keeps its history.
    open spec fn keeps_history(&self) -> bool {
        true
    }

    /// Every prompt the mock was given, in order, with its answer.
    closed spec fn history(&self) -> Seq<(Seq<char>, Result<Seq<char>, AppError>)> {
        self.log@
    }

    fn complete(&mut self, prompt: &str) -> (r: Result<String, AppError>)
        ensures
            final(self).script() == old(self).script(),
            old(self).script().len() == 0 ==> (r matches Err(AppError::Other(m))
                && m@ == "MockLlmClient has no responses configured"@
                && final(self).calls() == old(self).calls()),
            old(self).script().len() > 0 ==> (r matches Ok(s)
                && s@ == scripted_reply(old(self).script(), old(self).calls())
                && final(self).calls() == if old(self).calls() == usize::MAX {
                    0
                } else {
                    old(self).calls() + 1
                }),
            final(self).history() == old(self).history().push((prompt@, reply_view(r))),
            old(self).replays_script() && old(self).calls() < usize::MAX
                ==> final(self).replays_script(),
    {
        self.next_reply(prompt)
    }

    fn provider_name(&self) -> (r: &'static str)
        ensures
            r@ == "mock"@,
    {
        "mock"
    }
}

} // verus!
