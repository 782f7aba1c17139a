//! The boundary of the library: URL validation and the serialized
//! response shapes handed back to the caller.
//!
//! A request URL must begin with the fixed article prefix; a violation
//! is rejected before any engine interaction. A successful fetch is
//! reported as a JSON object carrying the four article fields, a failed
//! one as a JSON object carrying the error message; every string is
//! JSON-escaped.

use vstd::prelude::*;
use vstd::string::StringExecFns;

use crate::error::message_text;
use crate::error::AppError;
use crate::parser::ArticleData;
use crate::parser::WeixinParser;
use crate::parser::spec_author;
use crate::parser::spec_content;
use crate::parser::spec_publish_time;
use crate::parser::spec_title;
use crate::text;

verus! {

/// The prefix every article URL must begin with.
pub open spec fn url_prefix() -> Seq<char> {
    "https://mp.weixin.qq.com/s/"@
}

/// A URL is valid exactly when it begins with the article prefix.
pub open spec fn is_valid_url(u: Seq<char>) -> bool {
    url_prefix().is_prefix_of(u)
}

/// Whether the URL begins with the required article prefix.
pub fn is_weixin_url(url: &str) -> (b: bool)
    ensures
        b == is_valid_url(url@),
{
    let u = text::chars_vec(url);
    let p = text::chars_vec("https://mp.weixin.qq.com/s/");
    let plen = p.len();
    if u.len() < plen {
        assert(!url_prefix().is_prefix_of(url@));
        return false;
    }
    let mut i: usize = 0;
    while i < plen
        invariant
            plen == p@.len() <= u@.len(),
            u@ == url@,
            p@ == url_prefix(),
            i <= plen,
            forall|j: int| 0 <= j < i ==> u@[j] == p@[j],
        decreases plen - i,
    {
        if u[i] != p[i] {
            proof {
                assert(url@.subrange(0, plen as int)[i as int] == url@[i as int]);
                assert(url@.subrange(0, plen as int) != url_prefix());
            }
            return false;
        }
        i = i + 1;
    }
    proof {
        assert(url@.subrange(0, plen as int) =~= url_prefix());
    }
    true
}

/// The hexadecimal digit for a value below sixteen.
pub open spec fn hex_digit(d: int) -> char {
    if d == 0 {
        '0'
    } else if d == 1 {
        '1'
    } else if d == 2 {
        '2'
    } else if d == 3 {
        '3'
    } else if d == 4 {
        '4'
    } else if d == 5 {
        '5'
    } else if d == 6 {
        '6'
    } else if d == 7 {
        '7'
    } else if d == 8 {
        '8'
    } else if d == 9 {
        '9'
    } else if d == 10 {
        'a'
    } else if d == 11 {
        'b'
    } else if d == 12 {
        'c'
    } else if d == 13 {
        'd'
    } else if d == 14 {
        'e'
    } else {
        'f'
    }
}

fn hex_digit_exec(d: u32) -> (c: char)
    requires
        d < 16,
    ensures
        c == hex_digit(d as int),
{
    if d == 0 {
        '0'
    } else if d == 1 {
        '1'
    } else if d == 2 {
        '2'
    } else if d == 3 {
        '3'
    } else if d == 4 {
        '4'
    } else if d == 5 {
        '5'
    } else if d == 6 {
        '6'
    } else if d == 7 {
        '7'
    } else if d == 8 {
        '8'
    } else if d == 9 {
        '9'
    } else if d == 10 {
        'a'
    } else if d == 11 {
        'b'
    } else if d == 12 {
        'c'
    } else if d == 13 {
        'd'
    } else if d == 14 {
        'e'
    } else {
        'f'
    }
}

/// How one character is written inside a JSON string: quote and
/// backslash escaped, the common control characters by their short
/// escapes, every other control character as a `\u00` escape, and
/// everything else as itself.
pub open spec fn json_escape_char(c: char) -> Seq<char> {
    let u = c as u32;
    if u == 0x22 {
        seq!['\\', '"']
    } else if u == 0x5C {
        seq!['\\', '\\']
    } else if u == 0x8 {
        seq!['\\', 'b']
    } else if u == 0x9 {
        seq!['\\', 't']
    } else if u == 0xA {
        seq!['\\', 'n']
    } else if u == 0xC {
        seq!['\\', 'f']
    } else if u == 0xD {
        seq!['\\', 'r']
    } else if u < 0x20 {
        seq!['\\', 'u', '0', '0', hex_digit(u as int / 16), hex_digit(u as int % 16)]
    } else {
        seq![c]
    }
}

/// A string written inside a JSON string, character by character.
pub open spec fn json_escape_seq(s: Seq<char>) -> Seq<char>
    decreases s.len(),
{
    if s.len() == 0 {
        Seq::empty()
    } else {
        json_escape_seq(s.drop_last()) + json_escape_char(s.last())
    }
}

/// A string as a JSON string literal: quoted and escaped.
pub open spec fn quoted(s: Seq<char>) -> Seq<char> {
    seq!['"'] + json_escape_seq(s) + seq!['"']
}

/// Escapes a string for inclusion in a JSON string literal.
pub fn json_escape(s: &str) -> (r: String)
    ensures
        r@ == json_escape_seq(s@),
{
    let v = text::chars_vec(s);
    let n = v.len();
    let mut out = String::new();
    assert(v@.take(0) =~= Seq::<char>::empty());
    for i in 0..n
        invariant
            n == v@.len(),
            v@ == s@,
            out@ == json_escape_seq(v@.take(i as int)),
    {
        let c = v[i];
        let ghost before = out@;
        let u = c as u32;
        if u == 0x22 {
            text::push_char(&mut out, '\\');
            text::push_char(&mut out, '"');
            assert(out@ =~= before + json_escape_char(c));
        } else if u == 0x5C {
            text::push_char(&mut out, '\\');
            text::push_char(&mut out, '\\');
            assert(out@ =~= before + json_escape_char(c));
        } else if u == 0x8 {
            text::push_char(&mut out, '\\');
            text::push_char(&mut out, 'b');
            assert(out@ =~= before + json_escape_char(c));
        } else if u == 0x9 {
            text::push_char(&mut out, '\\');
            text::push_char(&mut out, 't');
            assert(out@ =~= before + json_escape_char(c));
        } else if u == 0xA {
            text::push_char(&mut out, '\\');
            text::push_char(&mut out, 'n');
            assert(out@ =~= before + json_escape_char(c));
        } else if u == 0xC {
            text::push_char(&mut out, '\\');
            text::push_char(&mut out, 'f');
            assert(out@ =~= before + json_escape_char(c));
        } else if u == 0xD {
            text::push_char(&mut out, '\\');
            text::push_char(&mut out, 'r');
            assert(out@ =~= before + json_escape_char(c));
        } else if u < 0x20 {
            text::push_char(&mut out, '\\');
            text::push_char(&mut out, 'u');
            text::push_char(&mut out, '0');
            text::push_char(&mut out, '0');
            text::push_char(&mut out, hex_digit_exec(u / 16));
            text::push_char(&mut out, hex_digit_exec(u % 16));
            assert(out@ =~= before + json_escape_char(c));
        } else {
            text::push_char(&mut out, c);
            assert(out@ =~= before + json_escape_char(c));
        }
        proof {
            assert(v@.take(i + 1).drop_last() =~= v@.take(i as int));
            assert(v@.take(i + 1).last() == c);
        }
    }
    proof {
        assert(v@.take(n as int) =~= v@);
    }
    out
}

/// Appends `s` as a JSON string literal.
fn push_quoted(out: &mut String, s: &str)
    ensures
        final(out)@ == old(out)@ + quoted(s@),
{
    text::push_char(out, '"');
    let esc = json_escape(s);
    out.append(esc.as_str());
    text::push_char(out, '"');
    assert(final(out)@ =~= old(out)@ + quoted(s@));
}

/// The serialized success response: the four article fields as JSON
/// string members, `success` true and `error` null.
pub open spec fn success_response_text(
    title: Seq<char>,
    author: Seq<char>,
    publish_time: Seq<char>,
    content: Seq<char>,
) -> Seq<char> {
    "{\"success\":true,\"title\":"@ + quoted(title) + ",\"author\":"@ + quoted(author)
        + ",\"publish_time\":"@ + quoted(publish_time) + ",\"content\":"@ + quoted(content)
        + ",\"error\":null}"@
}

/// The serialized failure response: `success` false and the error
/// message as a JSON string member.
pub open spec fn failure_response_text(msg: Seq<char>) -> Seq<char> {
    "{\"success\":false,\"error\":"@ + quoted(msg) + "}"@
}

/// Serializes a successful extraction into the response shape.
pub fn success_response(article: &ArticleData) -> (r: String)
    ensures
        r@ == success_response_text(
            article.title@,
            article.author@,
            article.publish_time@,
            article.content@,
        ),
{
    let mut out = String::from_str("{\"success\":true,\"title\":");
    push_quoted(&mut out, article.title.as_str());
    out.append(",\"author\":");
    push_quoted(&mut out, article.author.as_str());
    out.append(",\"publish_time\":");
    push_quoted(&mut out, article.publish_time.as_str());
    out.append(",\"content\":");
    push_quoted(&mut out, article.content.as_str());
    out.append(",\"error\":null}");
    out
}

/// Serializes a failure into the response shape.
pub fn failure_response(msg: &str) -> (r: String)
    ensures
        r@ == failure_response_text(msg@),
{
    let mut out = String::from_str("{\"success\":false,\"error\":");
    push_quoted(&mut out, msg);
    out.append("}");
    out
}

/// The message of a rejected URL.
pub open spec fn invalid_url_text(url: Seq<char>) -> Seq<char> {
    "Invalid URL format. Must be a Weixin article URL (https://mp.weixin.qq.com/s/xxx). Got: "@
        + url
}

/// Validates the request URL before any engine interaction: a URL
/// without the article prefix is answered with the failure response at
/// once, a valid one is passed on (`None`).
pub fn reject_if_invalid(url: &str) -> (r: Option<String>)
    ensures
        r is None <==> is_valid_url(url@),
        r matches Some(resp) ==> resp@ == failure_response_text(invalid_url_text(url@)),
{
    if is_weixin_url(url) {
        None
    } else {
        let mut m = String::from_str(
            "Invalid URL format. Must be a Weixin article URL (https://mp.weixin.qq.com/s/xxx). Got: ",
        );
        m.append(url);
        Some(failure_response(m.as_str()))
    }
}

/// The response for one fetch outcome: a successfully rendered document
/// is extracted and reported with its four fields; a failure is
/// reported with its message. Extraction is total, so a rendered
/// document always yields the success shape.
pub fn fetch_response(parser: &WeixinParser, outcome: Result<&str, &AppError>) -> (r: String)
    ensures
        outcome matches Ok(html) ==> r@ == success_response_text(
            spec_title(html@),
            spec_author(html@),
            spec_publish_time(html@),
            spec_content(html@),
        ),
        outcome matches Err(e) ==> r@ == failure_response_text(message_text(*e)),
{
    match outcome {
        Ok(html) => {
            let article = parser.parse(html);
            success_response(&article)
        },
        Err(e) => {
            let msg = e.message();
            failure_response(msg.as_str())
        },
    }
}

/// The request handed in by the tool-invocation shell: one URL.
pub struct ReadArticleRequest {
    pub url: String,
}

} // verus!
