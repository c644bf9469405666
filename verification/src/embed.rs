//! The embedding-service call, modelled from the library's side.
//!
//! The HTTP transport and the JSON number decoding live outside the library:
//! the driver posts the prompt, walks the response body, and hands back the
//! status together with what it found. This module builds the request
//! prompt, decides what every such outcome means, and fixes the retry
//! policy. Vector elements cross the boundary as bit patterns of the 32-bit
//! floats the store holds, so no floating-point value enters verified code.

use vstd::prelude::*;

verus! {

/// How often one chunk may be attempted before it is skipped.
pub const MAX_EMBED_ATTEMPTS: usize = 3;

/// Why one embedding call failed.
#[derive(Clone, Copy, Debug)]
pub enum EmbedError {
    /// No response, or a non-2xx status: the service may recover, retry.
    Transient,
    /// A 2xx response without the expected `embedding` array of numbers:
    /// retrying cannot help.
    Protocol,
}

/// What the driver found in the body of a response.
pub enum ResponseBody {
    /// The body is not a JSON document.
    NotJson,
    /// The document holds no `embedding` array.
    MissingEmbedding,
    /// The `embedding` array holds an element that fails numeric conversion.
    NotNumeric,
    /// The vector, each element as the bit pattern of one 32-bit float.
    Vector(Vec<u32>),
}

/// The request text for a chunk: its text with newlines replaced by spaces.
pub open spec fn newlines_to_spaces(s: Seq<char>) -> Seq<char> {
    s.map_values(
        |c: char|
            if c == '\n' {
                ' '
            } else {
                c
            },
    )
}

/// Build the prompt sent to the embedding service for `text`.
pub fn embed_prompt(text: &str) -> (r: String)
    ensures
        r@ == newlines_to_spaces(text@),
{
    let n = text.unicode_len();
    let mut r = String::new();
    let mut i: usize = 0;
    proof {
        assert(newlines_to_spaces(text@.take(0)) =~= r@);
    }
    while i < n
        invariant
            i <= n,
            n == text@.len(),
            r@ == newlines_to_spaces(text@.take(i as int)),
        decreases n - i,
    {
        let c = text.get_char(i);
        if c == '\n' {
            r.append(" ");
            proof {
                reveal_strlit(" ");
                assert(" "@ =~= seq![' ']);
            }
        } else {
            let piece = text.substring_char(i, i + 1);
            r.append(piece);
            proof {
                assert(piece@ =~= seq![text@[i as int]]);
            }
        }
        proof {
            assert(newlines_to_spaces(text@.take(i + 1)) =~= newlines_to_spaces(
                text@.take(i as int),
            ).push(
                if text@[i as int] == '\n' {
                    ' '
                } else {
                    text@[i as int]
                },
            ));
        }
        i = i + 1;
    }
    proof {
        assert(text@.take(n as int) =~= text@);
    }
    r
}

/// The name of the embedding model every request asks for.
pub fn embedding_model_name() -> (r: String)
    ensures
        r@ == "nomic-embed-text"@,
{
    String::from_str("nomic-embed-text")
}

/// The hexadecimal digit for `d`.
pub open spec fn hex_digit(d: int) -> char {
    if d == 0 {
        '0'
    } else if d == 1 {
        '1'
    } else if d == 2 {
        '2'
    } else if d == 3 {
        '3'
    } else if d == 4 {
        '4'
    } else if d == 5 {
        '5'
    } else if d == 6 {
        '6'
    } else if d == 7 {
        '7'
    } else if d == 8 {
        '8'
    } else if d == 9 {
        '9'
    } else if d == 10 {
        'a'
    } else if d == 11 {
        'b'
    } else if d == 12 {
        'c'
    } else if d == 13 {
        'd'
    } else if d == 14 {
        'e'
    } else {
        'f'
    }
}

/// How one character reads inside a JSON string literal.
pub open spec fn json_escaped_char(c: char) -> Seq<char> {
    if c == '"' {
        seq!['\\', '"']
    } else if c == '\\' {
        seq!['\\', '\\']
    } else if c == '\n' {
        seq!['\\', 'n']
    } else if c == '\r' {
        seq!['\\', 'r']
    } else if c == '\t' {
        seq!['\\', 't']
    } else if (c as int) < 32 {
        seq!['\\', 'u', '0', '0', hex_digit(c as int / 16), hex_digit(c as int % 16)]
    } else {
        seq![c]
    }
}

/// How a text reads inside a JSON string literal.
pub open spec fn json_escaped(s: Seq<char>) -> Seq<char>
    decreases s.len(),
{
    if s.len() == 0 {
        Seq::empty()
    } else {
        json_escaped_char(s[0]) + json_escaped(s.drop_first())
    }
}

proof fn lemma_json_escaped_push(s: Seq<char>, c: char)
    ensures
        json_escaped(s.push(c)) == json_escaped(s) + json_escaped_char(c),
    decreases s.len(),
{
    if s.len() == 0 {
        assert(s =~= Seq::<char>::empty());
        assert(s.push(c).drop_first() =~= s);
        assert(s.push(c)[0] == c);
        assert(json_escaped(s.push(c)) == json_escaped_char(c) + json_escaped(s));
        assert(json_escaped_char(c) + json_escaped(s) =~= json_escaped(s) + json_escaped_char(c));
    } else {
        lemma_json_escaped_push(s.drop_first(), c);
        assert(s.push(c).drop_first() =~= s.drop_first().push(c));
        assert(s.push(c)[0] == s[0]);
        assert(json_escaped_char(s[0]) + (json_escaped(s.drop_first()) + json_escaped_char(c)) =~= (
        json_escaped_char(s[0]) + json_escaped(s.drop_first())) + json_escaped_char(c));
    }
}

fn hex_digit_str(d: u32) -> (r: &'static str)
    requires
        d < 16,
    ensures
        r@ == seq![hex_digit(d as int)],
{
    let s: &'static str = match d {
        0 => "0",
        1 => "1",
        2 => "2",
        3 => "3",
        4 => "4",
        5 => "5",
        6 => "6",
        7 => "7",
        8 => "8",
        9 => "9",
        10 => "a",
        11 => "b",
        12 => "c",
        13 => "d",
        14 => "e",
        _ => "f",
    };
    proof {
        reveal_strlit("0");
        reveal_strlit("1");
        reveal_strlit("2");
        reveal_strlit("3");
        reveal_strlit("4");
        reveal_strlit("5");
        reveal_strlit("6");
        reveal_strlit("7");
        reveal_strlit("8");
        reveal_strlit("9");
        reveal_strlit("a");
        reveal_strlit("b");
        reveal_strlit("c");
        reveal_strlit("d");
        reveal_strlit("e");
        reveal_strlit("f");
    }
    s
}

/// Escape `s` for use inside a JSON string literal.
pub fn json_escaped_text(s: &str) -> (r: String)
    ensures
        r@ == json_escaped(s@),
{
    let n = s.unicode_len();
    let mut r = String::new();
    let mut i: usize = 0;
    proof {
        assert(json_escaped(s@.take(0)) =~= r@);
    }
    while i < n
        invariant
            i <= n,
            n == s@.len(),
            r@ == json_escaped(s@.take(i as int)),
        decreases n - i,
    {
        let c = s.get_char(i);
        proof {
            lemma_json_escaped_push(s@.take(i as int), s@[i as int]);
            assert(s@.take(i + 1) =~= s@.take(i as int).push(s@[i as int]));
        }
        if c == '"' {
            r.append("\\\"");
            proof {
                reveal_strlit("\\\"");
                assert("\\\""@ =~= seq!['\\', '"']);
            }
        } else if c == '\\' {
            r.append("\\\\");
            proof {
                reveal_strlit("\\\\");
                assert("\\\\"@ =~= seq!['\\', '\\']);
            }
        } else if c == '\n' {
            r.append("\\n");
            proof {
                reveal_strlit("\\n");
                assert("\\n"@ =~= seq!['\\', 'n']);
            }
        } else if c == '\r' {
            r.append("\\r");
            proof {
                reveal_strlit("\\r");
                assert("\\r"@ =~= seq!['\\', 'r']);
            }
        } else if c == '\t' {
            r.append("\\t");
            proof {
                reveal_strlit("\\t");
                assert("\\t"@ =~= seq!['\\', 't']);
            }
        } else if (c as u32) < 32 {
            let d = c as u32;
            r.append("\\u00");
            r.append(hex_digit_str(d / 16));
            r.append(hex_digit_str(d % 16));
            proof {
                reveal_strlit("\\u00");
                assert("\\u00"@ =~= seq!['\\', 'u', '0', '0']);
                assert(("\\u00"@ + seq![hex_digit(d as int / 16)]) + seq![hex_digit(d as int % 16)]
                    =~= json_escaped_char(c));
            }
        } else {
            let piece = s.substring_char(i, i + 1);
            r.append(piece);
            proof {
                assert(piece@ =~= seq![s@[i as int]]);
            }
        }
        i = i + 1;
    }
    proof {
        assert(s@.take(n as int) =~= s@);
    }
    r
}

/// The JSON payload of one embedding request, framed by the library itself:
/// the fixed model name and the prompt, escaped for a JSON string literal.
pub fn embed_request_json(prompt: &str) -> (r: String)
    ensures
        r@ == "{\"model\":\"nomic-embed-text\",\"prompt\":\""@ + json_escaped(prompt@) + "\"}"@,
{
    let mut r = String::from_str("{\"model\":\"nomic-embed-text\",\"prompt\":\"");
    let escaped = json_escaped_text(prompt);
    r.append(escaped.as_str());
    r.append("\"}");
    r
}

/// Interpret one embedding response. A status outside the 2xx range is a
/// transient fault, whatever the body holds; a 2xx response yields its
/// vector, and is a protocol fault exactly when the body is not the
/// expected shape. The driver reports a call that got no response at all as
/// a transient fault through `no_response`.
pub fn interpret_response(status: u16, body: ResponseBody) -> (r: Result<Vec<u32>, EmbedError>)
    ensures
        !(200 <= status < 300) ==> r == Err::<Vec<u32>, EmbedError>(EmbedError::Transient),
        (200 <= status < 300) ==> r == (match body {
            ResponseBody::Vector(v) => Ok::<Vec<u32>, EmbedError>(v),
            ResponseBody::NotJson => Err::<Vec<u32>, EmbedError>(EmbedError::Protocol),
            ResponseBody::MissingEmbedding => Err::<Vec<u32>, EmbedError>(EmbedError::Protocol),
            ResponseBody::NotNumeric => Err::<Vec<u32>, EmbedError>(EmbedError::Protocol),
        }),
{
    if status < 200 || status >= 300 {
        return Err(EmbedError::Transient);
    }
    match body {
        ResponseBody::Vector(v) => Ok(v),
        ResponseBody::NotJson => Err(EmbedError::Protocol),
        ResponseBody::MissingEmbedding => Err(EmbedError::Protocol),
        ResponseBody::NotNumeric => Err(EmbedError::Protocol),
    }
}

/// The outcome when the service could not be reached at all: a transient
/// fault.
pub fn no_response() -> (r: Result<Vec<u32>, EmbedError>)
    ensures
        r == Err::<Vec<u32>, EmbedError>(EmbedError::Transient),
{
    Err(EmbedError::Transient)
}

/// How long to wait before the next attempt on a chunk, after
/// `failed_attempts` failures: a linear backoff of half a second per
/// failure.
pub fn retry_backoff_ms(failed_attempts: usize) -> (r: u64)
    requires
        failed_attempts <= MAX_EMBED_ATTEMPTS,
    ensures
        r == 500 * failed_attempts,
{
    500 * (failed_attempts as u64)
}

} // verus!
