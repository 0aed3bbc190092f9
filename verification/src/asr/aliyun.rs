//! Aliyun (NLS) flash recognition: request URLs, credentials check and the
//! reading of recognition results.
use vstd::prelude::*;
use crate::asr::transcript::TranscriptSegment;
use crate::error::AppError;
use crate::text::{
    chars_of, digits, digits_of, push_char, push_chars, signed_decimal, i64_to_decimal, trim,
    trim_str,
};
use vstd::utf8::{encode_utf8, is_char_boundary};

verus! {

/// Aliyun recognition with an app key and an access key pair.
#[derive(Debug)]
pub struct AliyunAsr {
    app_key: String,
    access_key_id: String,
    access_key_secret: String,
    language: String,
}

impl AliyunAsr {
    /// The app key.
    pub closed spec fn app_key(&self) -> Seq<char> {
        self.app_key@
    }

    /// The access key id.
    pub closed spec fn access_key_id(&self) -> Seq<char> {
        self.access_key_id@
    }

    /// The access key secret.
    pub closed spec fn access_key_secret(&self) -> Seq<char> {
        self.access_key_secret@
    }

    /// The spoken language.
    pub closed spec fn lang(&self) -> Seq<char> {
        self.language@
    }

    /// A recogniser with these credentials.
    pub fn new(app_key: &str, ak_id: &str, ak_secret: &str, language: &str) -> (r: Self)
        ensures
            r.app_key() == app_key@,
            r.access_key_id() == ak_id@,
            r.access_key_secret() == ak_secret@,
            r.lang() == language@,
    {
        AliyunAsr {
            app_key: app_key.to_owned(),
            access_key_id: ak_id.to_owned(),
            access_key_secret: ak_secret.to_owned(),
            language: language.to_owned(),
        }
    }

    /// The app key.
    pub fn app_key_str(&self) -> (r: &str)
        ensures
            r@ == self.app_key(),
    {
        self.app_key.as_str()
    }

    /// The access key id.
    pub fn access_key_id_str(&self) -> (r: &str)
        ensures
            r@ == self.access_key_id(),
    {
        self.access_key_id.as_str()
    }

    /// The access key secret.
    pub fn access_key_secret_str(&self) -> (r: &str)
        ensures
            r@ == self.access_key_secret(),
    {
        self.access_key_secret.as_str()
    }

    /// The flash-recognition endpoint for audio in `format`, with the app key
    /// and the format percent-encoded.
    pub fn flash_url(&self, format: &str) -> (r: String)
        ensures
            r@ == "https://nls-gateway.cn-shanghai.aliyuncs.com/api/v1/recognition/flash?appkey="@
                + url_encoded(self.app_key()) + "&format="@ + url_encoded(format@)
                + "&sample_rate=16000"@,
    {
        let mut s =
            "https://nls-gateway.cn-shanghai.aliyuncs.com/api/v1/recognition/flash?appkey=".to_owned();
        let k = url_encode(self.app_key.as_str());
        s.append(k.as_str());
        s.append("&format=");
        let f = url_encode(format);
        s.append(f.as_str());
        s.append("&sample_rate=16000");
        s
    }
}

/// The message of a successful credentials check.
pub open spec fn auth_ok_message() -> Seq<char> {
    "阿里云 ASR 鉴权成功"@
}

/// Tests credentials by the outcome of obtaining a token: success gives a
/// confirmation message, failure the error's text.
pub fn test_connection(token: Result<String, AppError>) -> (r: Result<String, String>)
    ensures
        token is Ok ==> (r matches Ok(m) && m@ == auth_ok_message()),
        token matches Err(e) ==> (r matches Err(m) && m@ == crate::error::error_text(e)),
{
    match token {
        Ok(_) => Ok("阿里云 ASR 鉴权成功".to_owned()),
        Err(e) => Err(e.to_string()),
    }
}

/// The part of an error body put into an error message: its first 200
/// bytes, or all of it when shorter.
pub open spec fn body_excerpt(body: Seq<char>) -> Seq<u8> {
    if encode_utf8(body).len() > 200 {
        encode_utf8(body).take(200)
    } else {
        encode_utf8(body)
    }
}

/// Cuts an error body to at most 200 bytes (a longer body must have a
/// character boundary there).
pub fn error_body_excerpt(body: &str) -> (r: String)
    requires
        encode_utf8(body@).len() > 200 ==> is_char_boundary(encode_utf8(body@), 200),
    ensures
        encode_utf8(r@) == body_excerpt(body@),
{
    if body.as_bytes().len() > 200 {
        let (head, _) = body.split_at(200);
        let r = head.to_owned();
        assert(encode_utf8(r@) =~= encode_utf8(body@).take(200));
        r
    } else {
        body.to_owned()
    }
}

/// The token in a token response, or an error when the response has none.
pub fn token_id(token: Option<String>) -> (r: Result<String, AppError>)
    ensures
        token matches Some(t) ==> (r matches Ok(s) && s@ == t@),
        token is None ==> (r matches Err(AppError::Asr(m))
            && m@ == "Aliyun token response missing Token field"@),
{
    match token {
        Some(t) => Ok(t),
        None => Err(AppError::Asr("Aliyun token response missing Token field".to_owned())),
    }
}

// ───────────────────────── percent-encoding ─────────────────────────

/// Whether `c` is alphabetic or numeric in Unicode (std `char::is_alphanumeric`).
pub uninterp spec fn char_alphanumeric(c: char) -> bool;

/// std `char::is_alphanumeric`: whether `c` is Unicode alphabetic or numeric.
#[verifier::external_body]
fn is_alphanumeric(c: char) -> (r: bool)
    ensures
        r == char_alphanumeric(c),
{
    c.is_alphanumeric()
}

/// Characters kept as they are besides alphanumerics.
pub open spec fn is_unreserved_mark(c: char) -> bool {
    c == '-' || c == '_' || c == '.' || c == '~'
}

/// Upper-case hexadecimal with at least two digits (as `{:02X}`).
pub open spec fn hex2(n: nat) -> Seq<char> {
    let d = digits(n, 16);
    if d.len() < 2 {
        seq!['0'] + d
    } else {
        d
    }
}

/// The encoding of one character: itself when alphanumeric or one of
/// `-_.~`, else `%` and its code point in hexadecimal.
pub open spec fn encode_char(c: char) -> Seq<char> {
    if char_alphanumeric(c) || is_unreserved_mark(c) {
        seq![c]
    } else {
        seq!['%'] + hex2((c as u32) as nat)
    }
}

/// Percent-encoding of `s`, character by character.
pub open spec fn url_encoded(s: Seq<char>) -> Seq<char>
    decreases s.len(),
{
    if s.len() == 0 {
        Seq::empty()
    } else {
        url_encoded(s.drop_last()) + encode_char(s.last())
    }
}

/// Percent-encodes `s` for use in a URL query.
pub fn url_encode(s: &str) -> (r: String)
    ensures
        r@ == url_encoded(s@),
{
    let v = chars_of(s);
    let mut out = String::new();
    let mut i: usize = 0;
    while i < v.len()
        invariant
            i <= v@.len(),
            out@ == url_encoded(v@.take(i as int)),
        decreases v.len() - i,
    {
        let c = v[i];
        let ghost before = out@;
        if is_alphanumeric(c) || c == '-' || c == '_' || c == '.' || c == '~' {
            push_char(&mut out, c);
        } else {
            push_char(&mut out, '%');
            let code: u64 = c as u32 as u64;
            let d = digits_of(code, 16);
            let ghost mid = out@;
            if d.len() < 2 {
                push_char(&mut out, '0');
            }
            push_chars(&mut out, &d);
            assert(out@ =~= mid + hex2((c as u32) as nat));
        }
        proof {
            let t = v@.take(i + 1);
            assert(t.drop_last() =~= v@.take(i as int));
            assert(t.last() == c);
            assert(out@ =~= before + encode_char(c));
        }
        i = i + 1;
    }
    assert(v@.take(v@.len() as int) =~= v@);
    out
}

// ───────────────────────── flash recognition results ─────────────────────────

/// A recognised sentence of a flash result (times in milliseconds).
#[derive(Debug)]
pub struct FlashSentence {
    pub text: String,
    pub begin_time: Option<u64>,
    pub end_time: Option<u64>,
}

/// A flash recognition response.
#[derive(Debug)]
pub struct FlashResult {
    pub flash_result: Option<Vec<FlashSentence>>,
    pub status: Option<i32>,
    pub message: Option<String>,
}

/// The status code of a successful recognition.
pub open spec fn flash_ok_status() -> i32 {
    20000000
}

/// The segment of a sentence: its times (0 when absent) and trimmed text.
pub open spec fn sentence_segment_ok(s: FlashSentence, seg: TranscriptSegment) -> bool {
    &&& seg.start_ms == (match s.begin_time {
        Some(t) => t,
        None => 0,
    })
    &&& seg.end_ms == (match s.end_time {
        Some(t) => t,
        None => 0,
    })
    &&& seg.text@ == trim(s.text@)
    &&& seg.speaker is None
}

/// Reads a flash recognition response: a status other than success is an
/// error naming the status and the message; otherwise every sentence becomes
/// a segment, in order.
pub fn flash_result_segments(result: &FlashResult) -> (r: Result<Vec<TranscriptSegment>, AppError>)
    ensures
        match result.status {
            Some(st) => st != flash_ok_status(),
            None => false,
        } ==> (r matches Err(AppError::Asr(m)) && m@ == "Aliyun ASR failed (status "@
            + signed_decimal(result.status->Some_0 as int) + "): "@ + (match result.message {
            Some(msg) => msg@,
            None => Seq::empty(),
        })),
        match result.status {
            Some(st) => st == flash_ok_status(),
            None => true,
        } ==> (r matches Ok(segs) && segs@.len() == (match result.flash_result {
            Some(v) => v@.len(),
            None => 0,
        }) && forall|i: int|
            0 <= i < segs@.len() ==> sentence_segment_ok(
                #[trigger] result.flash_result->Some_0@[i],
                segs@[i],
            )),
{
    if let Some(st) = result.status {
        if st != 20000000 {
            let mut m = "Aliyun ASR failed (status ".to_owned();
            let d = i64_to_decimal(st as i64);
            m.append(d.as_str());
            m.append("): ");
            match &result.message {
                Some(msg) => m.append(msg.as_str()),
                None => {},
            }
            proof {
                if result.message is None {
                    assert(m@ =~= "Aliyun ASR failed (status "@ + signed_decimal(st as int) + "): "@
                        + Seq::<char>::empty());
                }
            }
            return Err(AppError::Asr(m));
        }
    }
    let mut segs: Vec<TranscriptSegment> = Vec::new();
    match &result.flash_result {
        Some(sentences) => {
            let mut i: usize = 0;
            while i < sentences.len()
                invariant
                    i <= sentences@.len(),
                    result.flash_result == Some(*sentences),
                    segs@.len() == i,
                    forall|k: int|
                        0 <= k < i ==> sentence_segment_ok(
                            #[trigger] sentences@[k],
                            segs@[k],
                        ),
                decreases sentences.len() - i,
            {
                let s = &sentences[i];
                let start = match s.begin_time {
                    Some(t) => t,
                    None => 0,
                };
                let end = match s.end_time {
                    Some(t) => t,
                    None => 0,
                };
                segs.push(
                    TranscriptSegment {
                        start_ms: start,
                        end_ms: end,
                        text: trim_str(s.text.as_str()),
                        speaker: None,
                    },
                );
                i = i + 1;
            }
        },
        None => {},
    }
    Ok(segs)
}

} // verus!
