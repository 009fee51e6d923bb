//! Construction of speech requests.
//!
//! A phrase is spoken either through the hosted voice — an HTTP request
//! whose JSON body is built here, with string escaping — or through the
//! system's built-in voice. The host performs the request and plays the
//! audio; this module only decides which and builds the exact request.

use vstd::prelude::*;
use crate::strutil::push_char;
use crate::strutil::str_to_string;

verus! {

/// The text-to-speech HTTP request for the hosted voice.
#[derive(Debug)]
pub struct SpeechRequest {
    pub url: String,
    pub api_key: String,
    pub body: String,
}

/// How the host should speak a phrase.
#[derive(Debug)]
pub enum SayPlan {
    /// Request generated audio from the hosted voice, then play it.
    ElevenLabs(SpeechRequest),
    /// Speak through the system's built-in voice.
    Builtin(String),
}

pub open spec fn hex_digit(d: int) -> char {
    if d == 0 {
        '0'
    } else if d == 1 {
        '1'
    } else if d == 2 {
        '2'
    } else if d == 3 {
        '3'
    } else if d == 4 {
        '4'
    } else if d == 5 {
        '5'
    } else if d == 6 {
        '6'
    } else if d == 7 {
        '7'
    } else if d == 8 {
        '8'
    } else if d == 9 {
        '9'
    } else if d == 10 {
        'a'
    } else if d == 11 {
        'b'
    } else if d == 12 {
        'c'
    } else if d == 13 {
        'd'
    } else if d == 14 {
        'e'
    } else {
        'f'
    }
}

/// The JSON encoding of one character inside a string literal.
pub open spec fn esc_char(c: char) -> Seq<char> {
    if c == '"' {
        seq!['\\', '"']
    } else if c == '\\' {
        seq!['\\', '\\']
    } else if c == '\n' {
        seq!['\\', 'n']
    } else if c == '\r' {
        seq!['\\', 'r']
    } else if c == '\t' {
        seq!['\\', 't']
    } else if (c as u32) < 32 {
        seq!['\\', 'u', '0', '0', hex_digit(c as u32 as int / 16), hex_digit(c as u32 as int % 16)]
    } else {
        seq![c]
    }
}

/// The JSON string-literal encoding of a text.
pub open spec fn json_escape(s: Seq<char>) -> Seq<char>
    decreases s.len(),
{
    if s.len() == 0 {
        Seq::empty()
    } else {
        json_escape(s.drop_last()) + esc_char(s.last())
    }
}

/// The JSON body of a speech request for the given text.
pub open spec fn speech_body(text: Seq<char>) -> Seq<char> {
    "{\"text\":\""@ + json_escape(text) + "\",\"model_id\":\"eleven_multilingual_v2\"}"@
}

fn hex_digit_char(d: u32) -> (r: char)
    requires
        d < 16,
    ensures
        r == hex_digit(d as int),
{
    if d == 0 {
        '0'
    } else if d == 1 {
        '1'
    } else if d == 2 {
        '2'
    } else if d == 3 {
        '3'
    } else if d == 4 {
        '4'
    } else if d == 5 {
        '5'
    } else if d == 6 {
        '6'
    } else if d == 7 {
        '7'
    } else if d == 8 {
        '8'
    } else if d == 9 {
        '9'
    } else if d == 10 {
        'a'
    } else if d == 11 {
        'b'
    } else if d == 12 {
        'c'
    } else if d == 13 {
        'd'
    } else if d == 14 {
        'e'
    } else {
        'f'
    }
}

fn push_escaped(out: &mut String, c: char)
    ensures
        final(out)@ == old(out)@ + esc_char(c),
{
    if c == '"' {
        push_char(out, '\\');
        push_char(out, '"');
    } else if c == '\\' {
        push_char(out, '\\');
        push_char(out, '\\');
    } else if c == '\n' {
        push_char(out, '\\');
        push_char(out, 'n');
    } else if c == '\r' {
        push_char(out, '\\');
        push_char(out, 'r');
    } else if c == '\t' {
        push_char(out, '\\');
        push_char(out, 't');
    } else if (c as u32) < 32 {
        push_char(out, '\\');
        push_char(out, 'u');
        push_char(out, '0');
        push_char(out, '0');
        let hi = hex_digit_char(c as u32 / 16);
        push_char(out, hi);
        let lo = hex_digit_char(c as u32 % 16);
        push_char(out, lo);
        proof {
            assert(final(out)@ =~= old(out)@ + esc_char(c));
        }
    } else {
        push_char(out, c);
    }
    proof {
        assert(final(out)@ =~= old(out)@ + esc_char(c));
    }
}

/// Builds the JSON body of a speech request, escaping the text.
pub fn speech_request_body(text: &str) -> (r: String)
    ensures
        r@ == speech_body(text@),
{
    let mut out = str_to_string("{\"text\":\"");
    let n = text.unicode_len();
    let mut i: usize = 0;
    proof {
        assert(text@.subrange(0, 0) =~= Seq::<char>::empty());
        assert(out@ =~= "{\"text\":\""@ + json_escape(text@.subrange(0, 0)));
    }
    while i < n
        invariant
            n == text@.len(),
            i <= n,
            out@ == "{\"text\":\""@ + json_escape(text@.subrange(0, i as int)),
        decreases n - i,
    {
        let c = text.get_char(i);
        proof {
            assert(text@.subrange(0, i as int + 1).drop_last() =~= text@.subrange(0, i as int));
            assert(text@.subrange(0, i as int + 1).last() == text@[i as int]);
        }
        push_escaped(&mut out, c);
        proof {
            assert(out@ =~= "{\"text\":\""@ + json_escape(text@.subrange(0, i as int + 1)));
        }
        i += 1;
    }
    proof {
        assert(text@.subrange(0, n as int) =~= text@);
    }
    out.append("\",\"model_id\":\"eleven_multilingual_v2\"}");
    proof {
        assert(out@ =~= speech_body(text@));
    }
    out
}

/// The recovery after a hosted speech request: a failure is non-fatal and
/// the phrase falls back to the built-in voice, unchanged; a request that
/// succeeded needs nothing more.
pub fn say_fallback(text: &str, hosted_request_succeeded: bool) -> (r: Option<SayPlan>)
    ensures
        (if hosted_request_succeeded {
            r is None
        } else {
            (r matches Some(SayPlan::Builtin(t)) && t@ == text@)
        }),
{
    if hosted_request_succeeded {
        None
    } else {
        Some(SayPlan::Builtin(str_to_string(text)))
    }
}

/// Decides how a phrase is spoken: through the hosted voice when a key is
/// configured, else through the built-in voice.
pub fn say(text: &str, eleven_labs_key: Option<&str>) -> (r: SayPlan)
    ensures
        (match eleven_labs_key {
            Some(k) => (r matches SayPlan::ElevenLabs(q) && q.url@
                == "https://api.elevenlabs.io/v1/text-to-speech/JBFqnCBsd6RMkjVDRZzb?output_format=mp3_44100_128"@
                && q.api_key@ == k@ && q.body@ == speech_body(text@)),
            None => (r matches SayPlan::Builtin(t) && t@ == text@),
        }),
{
    match eleven_labs_key {
        Some(k) => {
            let body = speech_request_body(text);
            SayPlan::ElevenLabs(
                SpeechRequest {
                    url: str_to_string(
                        "https://api.elevenlabs.io/v1/text-to-speech/JBFqnCBsd6RMkjVDRZzb?output_format=mp3_44100_128",
                    ),
                    api_key: str_to_string(k),
                    body,
                },
            )
        },
        None => SayPlan::Builtin(str_to_string(text)),
    }
}

} // verus!
