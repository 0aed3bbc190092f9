//! Prompt templating and recovery of JSON from model replies.
use vstd::prelude::*;
use crate::text::{
    chars_of, chars_match_at, copy_chars, find, find_chars, lemma_find_from_props, match_at, rfind,
    rfind_chars, rfind_upto, slice_chars, string_of, trim, trim_chars, trim_end, trim_start, is_ws,
    find_from,
};

verus! {

/// `s` with every occurrence of `pat` replaced by `rep`, scanning left to
/// right and never overlapping matches (as `str::replace` for a non-empty
/// pattern).
pub open spec fn replace_all(s: Seq<char>, pat: Seq<char>, rep: Seq<char>) -> Seq<char>
    decreases s.len(),
{
    if pat.len() == 0 || s.len() < pat.len() {
        s
    } else if s.take(pat.len() as int) == pat {
        rep + replace_all(s.skip(pat.len() as int), pat, rep)
    } else {
        seq![s[0]] + replace_all(s.drop_first(), pat, rep)
    }
}

/// The placeholder `{{var}}` that a template uses for variable `var`.
pub open spec fn placeholder(var: Seq<char>) -> Seq<char> {
    seq!['{', '{'] + var + seq!['}', '}']
}

/// `template` with every `{{var}}` replaced by `value`.
pub open spec fn filled(template: Seq<char>, var: Seq<char>, value: Seq<char>) -> Seq<char> {
    replace_all(template, placeholder(var), value)
}

/// Text without any occurrence of `pat` is left as it is.
pub proof fn lemma_replace_absent(s: Seq<char>, pat: Seq<char>, rep: Seq<char>)
    requires
        pat.len() > 0,
        forall|i: int| !match_at(s, pat, i),
    ensures
        replace_all(s, pat, rep) == s,
    decreases s.len(),
{
    if s.len() >= pat.len() {
        assert(!match_at(s, pat, 0));
        assert(s.subrange(0, pat.len() as int) =~= s.take(pat.len() as int));
        let t = s.drop_first();
        assert forall|i: int| !match_at(t, pat, i) by {
            if match_at(t, pat, i) {
                assert(s.subrange(i + 1, i + 1 + pat.len()) =~= t.subrange(i, i + pat.len()));
                assert(match_at(s, pat, i + 1));
            }
        }
        lemma_replace_absent(t, pat, rep);
        assert(seq![s[0]] + t =~= s);
    }
}

/// Replacement distributes over a prefix that is copied unchanged.
proof fn lemma_replace_unfold(s: Seq<char>, pat: Seq<char>, rep: Seq<char>, i: int)
    requires
        pat.len() > 0,
        0 <= i < s.len(),
    ensures
        match_at(s, pat, i) ==> replace_all(s.skip(i), pat, rep) == rep + replace_all(
            s.skip(i + pat.len()),
            pat,
            rep,
        ),
        !match_at(s, pat, i) ==> replace_all(s.skip(i), pat, rep) == seq![s[i]] + replace_all(
            s.skip(i + 1),
            pat,
            rep,
        ),
{
    let t = s.skip(i);
    if match_at(s, pat, i) {
        assert(t.take(pat.len() as int) =~= s.subrange(i, i + pat.len()));
        assert(t.skip(pat.len() as int) =~= s.skip(i + pat.len()));
    } else {
        assert(t.drop_first() =~= s.skip(i + 1));
        if t.len() >= pat.len() {
            assert(t.take(pat.len() as int) =~= s.subrange(i, i + pat.len()));
        }
    }
}

/// `s` with every non-overlapping occurrence of `pat` replaced by `rep`.
pub fn replace_chars(s: &[char], pat: &[char], rep: &[char]) -> (r: Vec<char>)
    requires
        pat@.len() > 0,
    ensures
        r@ == replace_all(s@, pat@, rep@),
{
    let mut out: Vec<char> = Vec::new();
    let mut i: usize = 0;
    assert(out@ + replace_all(s@.skip(0), pat@, rep@) =~= replace_all(s@, pat@, rep@)) by {
        assert(s@.skip(0) =~= s@);
    }
    while i < s.len()
        invariant
            i <= s@.len(),
            pat@.len() > 0,
            out@ + replace_all(s@.skip(i as int), pat@, rep@) == replace_all(s@, pat@, rep@),
        decreases s.len() - i,
    {
        proof {
            lemma_replace_unfold(s@, pat@, rep@, i as int);
        }
        if chars_match_at(s, pat, i) {
            let ghost before = out@;
            let mut k: usize = 0;
            while k < rep.len()
                invariant
                    k <= rep@.len(),
                    out@ == before + rep@.take(k as int),
                decreases rep.len() - k,
            {
                out.push(rep[k]);
                assert(rep@.take(k + 1) =~= rep@.take(k as int).push(rep@[k as int]));
                k = k + 1;
            }
            assert(rep@.take(rep@.len() as int) =~= rep@);
            assert(before + (rep@ + replace_all(s@.skip(i + pat@.len()), pat@, rep@)) =~= out@
                + replace_all(s@.skip(i + pat@.len()), pat@, rep@));
            i = i + pat.len();
        } else {
            let ghost before = out@;
            out.push(s[i]);
            assert(before + (seq![s@[i as int]] + replace_all(s@.skip(i + 1), pat@, rep@))
                =~= out@ + replace_all(s@.skip(i + 1), pat@, rep@));
            i = i + 1;
        }
    }
    proof {
        assert(s@.skip(i as int).len() == 0);
        assert(replace_all(s@.skip(i as int), pat@, rep@) == s@.skip(i as int));
        assert(out@ + s@.skip(i as int) =~= out@);
    }
    out
}

/// The placeholder `{{var}}` as characters.
pub fn placeholder_chars(var: &str) -> (r: Vec<char>)
    ensures
        r@ == placeholder(var@),
{
    let mut r: Vec<char> = Vec::new();
    r.push('{');
    r.push('{');
    let v = chars_of(var);
    let mut i: usize = 0;
    while i < v.len()
        invariant
            i <= v@.len(),
            r@ == seq!['{', '{'] + v@.take(i as int),
        decreases v.len() - i,
    {
        r.push(v[i]);
        assert(v@.take(i + 1) =~= v@.take(i as int).push(v@[i as int]));
        i = i + 1;
    }
    r.push('}');
    r.push('}');
    assert(v@.take(v@.len() as int) =~= v@);
    assert(r@ =~= placeholder(var@));
    r
}

/// Fills a prompt template: every `{{var}}` in `template` becomes `value`.
pub fn fill_template(template: &str, var: &str, value: &str) -> (r: String)
    ensures
        r@ == filled(template@, var@, value@),
{
    let t = chars_of(template);
    let p = placeholder_chars(var);
    let v = chars_of(value);
    let out = replace_chars(&t, &p, &v);
    string_of(&out)
}

// ───────────────────────── JSON in model replies ─────────────────────────

/// The markdown code fence.
pub open spec fn fence() -> Seq<char> {
    seq!['`', '`', '`']
}

/// The body of the first fenced block of `t`: after the first "```", skip the
/// rest of that line, and take everything up to the last "```" that follows,
/// trimmed. Text without such a block is returned as it is.
pub open spec fn strip_fences_spec(t: Seq<char>) -> Seq<char> {
    match find(t, fence()) {
        Some(start) => {
            let after = t.skip(start + 3int);
            let content_start: int = match find(after, seq!['\n']) {
                Some(i) => i + 1int,
                None => 0,
            };
            let content = after.skip(content_start);
            match rfind(content, fence()) {
                Some(end) => trim(content.take(end as int)),
                None => t,
            }
        },
        None => t,
    }
}

/// The JSON part of a model reply: the reply trimmed, then the body of its
/// fenced block if it has one.
pub open spec fn extract_json_spec(text: Seq<char>) -> Seq<char> {
    strip_fences_spec(trim(text))
}

/// Text without a code fence passes through, only trimmed.
pub proof fn lemma_extract_plain(text: Seq<char>)
    requires
        find(trim(text), fence()) is None,
    ensures
        extract_json_spec(text) == trim(text),
{
}

/// Appending a character to a text either extends its whitespace-trimmed
/// start by that character, or (when the text is all whitespace) leaves
/// only the character's own trimmed start.
proof fn lemma_trim_start_push(s: Seq<char>, c: char)
    ensures
        trim_start(s.push(c)) == if trim_start(s).len() > 0 {
            trim_start(s).push(c)
        } else {
            trim_start(seq![c])
        },
    decreases s.len(),
{
    if s.len() == 0 {
        assert(s.push(c) =~= seq![c]);
    } else if is_ws(s[0]) {
        assert(s.push(c)[0] == s[0]);
        assert(s.push(c).drop_first() =~= s.drop_first().push(c));
        lemma_trim_start_push(s.drop_first(), c);
    } else {
        assert(s.push(c)[0] == s[0]);
    }
}

/// A trailing newline does not change a trimmed text.
proof fn lemma_trim_drops_newline(s: Seq<char>)
    ensures
        trim(s.push('\n')) == trim(s),
{
    assert(is_ws('\n'));
    lemma_trim_start_push(s, '\n');
    let ts = trim_start(s);
    if ts.len() > 0 {
        assert(ts.push('\n').drop_last() =~= ts);
    } else {
        let nl = seq!['\n'];
        assert(nl[0] == '\n');
        assert(nl.drop_first() =~= Seq::<char>::empty());
        assert(trim_start(Seq::<char>::empty()) =~= Seq::<char>::empty());
        assert(trim_start(nl) == trim_start(nl.drop_first()));
        assert(trim_start(nl) =~= Seq::<char>::empty());
        assert(ts =~= Seq::<char>::empty());
    }
}

/// A model reply that is one fenced block, "```" and a tag on the first
/// line, then the body, then "```" on a line of its own, gives the whole
/// body, trimmed, however many lines it has (the tag may be empty, as in
/// a bare "```" fence).
pub proof fn law_fenced_reply_gives_its_body(tag: Seq<char>, body: Seq<char>)
    requires
        forall|k: int| 0 <= k < tag.len() ==> tag[k] != '\n',
        forall|k: int| 0 <= k < body.len() ==> !match_at(body, fence(), k),
    ensures
        extract_json_spec(fence() + tag + seq!['\n'] + body + seq!['\n'] + fence()) == trim(body),
{
    let reply = fence() + tag + seq!['\n'] + body + seq!['\n'] + fence();
    let n = reply.len();
    assert(n == tag.len() + body.len() + 8);
    // the reply is already trimmed: it starts and ends with a backquote
    assert(reply[0] == '`');
    assert(reply[n - 1] == '`');
    assert(!is_ws('`'));
    crate::text::lemma_trim_start_skip(reply, 0);
    assert(reply.skip(0) =~= reply);
    crate::text::lemma_trim_end_take(reply, n as int);
    assert(reply.take(n as int) =~= reply);
    assert(trim(reply) == reply);
    // the first fence opens the reply
    assert(reply.subrange(0, 3) =~= fence());
    assert(find(reply, fence()) == Some(0nat));
    let after = reply.skip(3);
    assert(after =~= tag + seq!['\n'] + body + seq!['\n'] + fence());
    // the first newline after it ends the tag
    let tl: int = tag.len() as int;
    lemma_find_from_props(after, seq!['\n'], 0);
    assert(after.subrange(tl, tl + 1) =~= seq!['\n']);
    assert(match_at(after, seq!['\n'], tl));
    match find(after, seq!['\n']) {
        Some(k) => {
            if k < tl {
                assert(after.subrange(k as int, k as int + 1)[0] == after[k as int]);
                assert(after[k as int] == tag[k as int]);
            }
            assert(k == tl);
        },
        None => {},
    }
    let content = after.skip(tl + 1);
    assert(content =~= body + seq!['\n'] + fence());
    // the last fence is the closing one
    let bl: int = body.len() as int;
    assert(content.len() == bl + 4);
    assert(content.subrange(bl + 1, bl + 4) =~= fence());
    assert(rfind(content, fence()) == Some((bl + 1) as nat));
    assert(content.take(bl + 1) =~= body.push('\n'));
    lemma_trim_drops_newline(body);
}

/// Helper: the fenced-block body of `t` (see `strip_fences_spec`).
fn strip_fence_chars(t: &Vec<char>) -> (r: Vec<char>)
    ensures
        r@ == strip_fences_spec(t@),
{
    let f = vec!['`', '`', '`'];
    assert(f@ == fence());
    let nl = vec!['\n'];
    assert(nl@ == seq!['\n']);
    proof {
        lemma_find_from_props(t@, fence(), 0);
    }
    match find_chars(t, &f) {
        Some(start) => {
            assert(find(t@, fence()) == Some(start as nat));
            assert(match_at(t@, fence(), start as int));
            assert(fence().len() == 3);
            let n: usize = t.len();
            assert(start + 3 <= n);
            let after = slice_chars(t, start + 3, n);
            assert(after@ =~= t@.skip(start + 3));
            proof {
                lemma_find_from_props(after@, seq!['\n'], 0);
            }
            let content_start: usize = match find_chars(&after, &nl) {
                Some(i) => i + 1,
                None => 0,
            };
            let content = slice_chars(&after, content_start, after.len());
            assert(content@ =~= after@.skip(content_start as int));
            match rfind_chars(&content, &f) {
                Some(end) => {
                    proof {
                        lemma_rfind_bound(content@, fence());
                    }
                    let body = slice_chars(&content, 0, end);
                    assert(body@ =~= content@.take(end as int));
                    trim_chars(&body)
                },
                None => copy_chars(t),
            }
        },
        None => copy_chars(t),
    }
}

/// A match that `rfind` reports lies inside the text.
pub proof fn lemma_rfind_bound(s: Seq<char>, pat: Seq<char>)
    ensures
        rfind(s, pat) matches Some(k) ==> k + pat.len() <= s.len(),
{
    if pat.len() <= s.len() {
        lemma_rfind_upto_bound(s, pat, (s.len() - pat.len()) as nat);
    }
}

proof fn lemma_rfind_upto_bound(s: Seq<char>, pat: Seq<char>, i: nat)
    ensures
        rfind_upto(s, pat, i) matches Some(k) ==> k + pat.len() <= s.len(),
    decreases i,
{
    if !match_at(s, pat, i as int) && i > 0 {
        lemma_rfind_upto_bound(s, pat, (i - 1) as nat);
    }
}

/// Extracts the JSON content of a model reply, dropping a markdown code fence
/// (```json ... ```) around it if there is one.
pub fn extract_json(text: &str) -> (r: String)
    ensures
        r@ == extract_json_spec(text@),
{
    let v = chars_of(text);
    let t = trim_chars(&v);
    let out = strip_fence_chars(&t);
    string_of(&out)
}

/// The fenced-block body of `text` if it has one, else `text` (the caller
/// trims first).
pub fn strip_fences(text: &str) -> (r: String)
    ensures
        r@ == strip_fences_spec(text@),
{
    let v = chars_of(text);
    let out = strip_fence_chars(&v);
    string_of(&out)
}

} // verus!
