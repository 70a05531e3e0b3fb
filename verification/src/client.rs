//! The HTTP/1.1 exchange with a dependency service, as text: where a base URL
//! points, the request that is written to it, and what is read back from the
//! reply. The connection itself is opened, written and read by the caller.

use vstd::prelude::*;
use vstd::string::*;
use vstd::utf8::*;
use crate::api::{lemma_result_body_verdict, result_body, stated_verdict};
use crate::json::{
    bool_text, json_text, one_member_text, parse_json, parsed_json, plain_name, write_json, Json, JsonValue,
};
use crate::text::{
    chars_of, decimal, find, find_from, find_in, is_white_space, lemma_decimal_reads_back, parse_u16,
    parse_u16_range, push_char, push_decimal, second_word, second_word_range, skip_space, skip_word,
    string_of, sub_vec,
};

verus! {

/// The outcome of failing to reach a dependency.
#[derive(Debug, PartialEq, Eq, Structural)]
pub enum DepError {
    Unreachable,
}

/// The scheme prefix that a base URL may carry.
pub open spec fn http_scheme() -> Seq<char> {
    seq!['h', 't', 't', 'p', ':', '/', '/']
}

/// The URL without its leading `http://`, where it has one.
pub open spec fn without_scheme(url: Seq<char>) -> Seq<char> {
    if url.len() >= 7 && url.take(7) == http_scheme() {
        url.skip(7)
    } else {
        url
    }
}

/// The host and port that a URL names: what precedes its first `/`.
pub open spec fn url_authority(url: Seq<char>) -> Seq<char> {
    let rest = without_scheme(url);
    match find(rest, seq!['/']) {
        Some(i) => rest.take(i),
        None => rest,
    }
}

/// The path that a URL names: from its first `/` on, or `/` where it has none.
pub open spec fn url_path(url: Seq<char>) -> Seq<char> {
    let rest = without_scheme(url);
    match find(rest, seq!['/']) {
        Some(i) => rest.skip(i),
        None => seq!['/'],
    }
}

/// Splits a base URL into the authority to connect to and the path to request.
pub fn split_url(url: &str) -> (parts: (String, String))
    ensures
        parts.0@ == url_authority(url@),
        parts.1@ == url_path(url@),
{
    let chars = chars_of(url);
    let has_scheme = chars.len() >= 7 && chars[0] == 'h' && chars[1] == 't' && chars[2] == 't'
        && chars[3] == 'p' && chars[4] == ':' && chars[5] == '/' && chars[6] == '/';
    let start: usize = if has_scheme { 7 } else { 0 };
    proof {
        if chars@.len() >= 7 {
            if has_scheme {
                assert(chars@.take(7) =~= http_scheme());
            } else {
                assert(chars@.take(7) != http_scheme()) by {
                    if chars@.take(7) == http_scheme() {
                        assert(chars@.take(7)[0] == 'h');
                        assert(chars@.take(7)[1] == 't');
                        assert(chars@.take(7)[2] == 't');
                        assert(chars@.take(7)[3] == 'p');
                        assert(chars@.take(7)[4] == ':');
                        assert(chars@.take(7)[5] == '/');
                        assert(chars@.take(7)[6] == '/');
                    }
                }
            }
        }
    }
    let rest = sub_vec(&chars, start, chars.len());
    assert(rest@ =~= without_scheme(url@));
    let slash = vec!['/'];
    assert(slash@ =~= seq!['/']);
    match find_in(&rest, &slash) {
        Some(i) => {
            proof {
                lemma_found_in_bounds(rest@, slash@, i as int);
            }
            let authority = string_of(&rest, 0, i);
            let path = string_of(&rest, i, rest.len());
            assert(rest@.subrange(0, i as int) =~= rest@.take(i as int));
            assert(rest@.subrange(i as int, rest@.len() as int) =~= rest@.skip(i as int));
            (authority, path)
        },
        None => {
            let authority = string_of(&rest, 0, rest.len());
            assert(rest@.subrange(0, rest@.len() as int) =~= rest@);
            let mut path = String::new();
            push_char(&mut path, '/');
            assert(path@ =~= seq!['/']);
            (authority, path)
        },
    }
}

/// A position that [`find`] reports lies within the searched sequence.
pub proof fn lemma_found_in_bounds(s: Seq<char>, pat: Seq<char>, k: int)
    requires
        find(s, pat) == Some(k),
    ensures
        0 <= k,
        k + pat.len() <= s.len(),
        s.subrange(k, k + pat.len()) == pat,
{
    lemma_find_from_bounds(s, pat, 0, k);
}

proof fn lemma_find_from_bounds(s: Seq<char>, pat: Seq<char>, i: int, k: int)
    requires
        find_from(s, pat, i) == Some(k),
    ensures
        i <= k,
        0 <= k,
        k + pat.len() <= s.len(),
        s.subrange(k, k + pat.len()) == pat,
    decreases s.len() + 1 - i,
{
    if i < 0 || i + pat.len() > s.len() {
    } else if s.subrange(i, i + pat.len()) == pat {
    } else {
        lemma_find_from_bounds(s, pat, i + 1, k);
    }
}

/// The request text for `method path` with a JSON `body`, addressed to
/// `authority`, asking the server to close the connection after replying.
/// The length header states `body_len`, the body's length in bytes.
pub open spec fn request_text(
    method: Seq<char>,
    path: Seq<char>,
    authority: Seq<char>,
    body: Seq<char>,
    body_len: nat,
) -> Seq<char> {
    method + " "@ + path + " HTTP/1.1\r\nHost: "@ + authority
        + "\r\nContent-Type: application/json\r\nContent-Length: "@
        + decimal(body_len) + "\r\nConnection: close\r\n\r\n"@ + body
}

/// Writes the request text (see [`request_text`]); the length it states is
/// `body.len()`, the number of bytes of the body's UTF-8 encoding.
pub fn format_request(method: &str, path: &str, authority: &str, body: &str) -> (req: String)
    ensures
        req@ == request_text(method@, path@, authority@, body@, body.len() as nat),
{
    let len = body.len();
    let mut req = method.to_owned();
    req.append(" ");
    req.append(path);
    req.append(" HTTP/1.1\r\nHost: ");
    req.append(authority);
    req.append("\r\nContent-Type: application/json\r\nContent-Length: ");
    push_decimal(&mut req, len);
    req.append("\r\nConnection: close\r\n\r\n");
    req.append(body);
    req
}

/// Prepares a request to a dependency: the authority to connect to, and the
/// text to write there, asking for the URL's path with `body` (empty where
/// there is none).
pub fn prepare_request(method: &str, url: &str, body: Option<&str>) -> (prepared: (String, String))
    ensures
        prepared.0@ == url_authority(url@),
        prepared.1@ == request_text(
            method@,
            url_path(url@),
            url_authority(url@),
            match body {
                Some(b) => b@,
                None => Seq::empty(),
            },
            match body {
                Some(b) => b.len() as nat,
                None => 0,
            },
        ),
{
    let (authority, path) = split_url(url);
    let text = match body {
        Some(b) => format_request(method, path.as_str(), authority.as_str(), b),
        None => {
            proof {
                reveal_strlit("");
            }
            assert(encode_utf8(""@) =~= Seq::<u8>::empty());
            format_request(method, path.as_str(), authority.as_str(), "")
        },
    };
    (authority, text)
}

/// The characters that `String::from_utf8_lossy` makes of `bytes`.
pub uninterp spec fn utf8_lossy(bytes: Seq<u8>) -> Seq<char>;

/// Decodes bytes read from a connection as `String::from_utf8_lossy` does:
/// the result is named by [`utf8_lossy`]; on valid UTF-8 it is the decoding.
#[verifier::external_body]
fn decode_lossy(raw: &[u8]) -> (text: String)
    ensures
        text@ == utf8_lossy(raw@),
        valid_utf8(raw@) ==> text@ == decode_utf8(raw@),
{
    String::from_utf8_lossy(raw).into_owned()
}

/// The blank line that ends the head of a reply.
pub open spec fn blank_line() -> Seq<char> {
    seq!['\r', '\n', '\r', '\n']
}

/// The head of a reply: what precedes the first blank line (all of it, where
/// there is none).
pub open spec fn reply_head(text: Seq<char>) -> Seq<char> {
    match find(text, blank_line()) {
        Some(k) => text.take(k),
        None => text,
    }
}

/// The body of a reply: what follows the first blank line (nothing, where
/// there is none).
pub open spec fn reply_body(text: Seq<char>) -> Seq<char> {
    match find(text, blank_line()) {
        Some(k) => text.skip(k + 4),
        None => Seq::empty(),
    }
}

/// A line without its final carriage return, where it has one.
pub open spec fn without_cr(line: Seq<char>) -> Seq<char> {
    if line.len() > 0 && line.last() == '\r' {
        line.drop_last()
    } else {
        line
    }
}

/// The first line of `s`, as `lines().next()` gives it.
pub open spec fn first_line(s: Seq<char>) -> Option<Seq<char>> {
    if s.len() == 0 {
        None
    } else {
        match find(s, seq!['\n']) {
            Some(j) => Some(without_cr(s.take(j))),
            None => Some(s),
        }
    }
}

/// The status code that the head of a reply states: the second word of its
/// first line read as a `u16`, or 0 where there is no such number.
pub open spec fn status_of(head: Seq<char>) -> u16 {
    match first_line(head) {
        Some(line) => match second_word(line) {
            Some(word) => match parse_u16(word) {
                Some(n) => n,
                None => 0,
            },
            None => 0,
        },
        None => 0,
    }
}

fn status_of_head(head: &Vec<char>) -> (status: u16)
    ensures
        status == status_of(head@),
{
    if head.len() == 0 {
        return 0;
    }
    let newline = vec!['\n'];
    assert(newline@ =~= seq!['\n']);
    let line = match find_in(head, &newline) {
        Some(j) => {
            proof {
                lemma_found_in_bounds(head@, newline@, j as int);
            }
            let end: usize = if j > 0 && head[j - 1] == '\r' { j - 1 } else { j };
            assert(head@.subrange(0, end as int) =~= without_cr(head@.take(j as int)));
            sub_vec(head, 0, end)
        },
        None => {
            assert(head@.subrange(0, head@.len() as int) =~= head@);
            sub_vec(head, 0, head.len())
        },
    };
    assert(first_line(head@) == Some(line@));
    match second_word_range(&line) {
        Some((lo, hi)) => match parse_u16_range(&line, lo, hi) {
            Some(n) => n,
            None => 0,
        },
        None => 0,
    }
}

/// Reads a reply's text: its status code (see [`status_of`]) and its body
/// (see [`reply_body`]).
pub fn read_reply(text: &str) -> (reply: (u16, String))
    ensures
        reply.0 == status_of(reply_head(text@)),
        reply.1@ == reply_body(text@),
{
    let chars = chars_of(text);
    let sep = vec!['\r', '\n', '\r', '\n'];
    assert(sep@ =~= blank_line());
    match find_in(&chars, &sep) {
        Some(k) => {
            proof {
                lemma_found_in_bounds(chars@, sep@, k as int);
            }
            let head = sub_vec(&chars, 0, k);
            assert(head@ =~= chars@.take(k as int));
            let body = string_of(&chars, k + 4, chars.len());
            assert(body@ =~= chars@.skip(k + 4));
            (status_of_head(&head), body)
        },
        None => {
            let body = String::new();
            assert(body@ =~= reply_body(text@));
            (status_of_head(&chars), body)
        },
    }
}

/// Reads the raw bytes of a reply: decodes them (see [`utf8_lossy`]; bytes
/// that are valid UTF-8 read as their decoding) and reads the text (see
/// [`read_reply`]).
pub fn parse_response(raw: &[u8]) -> (reply: (u16, String))
    ensures
        reply.0 == status_of(reply_head(utf8_lossy(raw@))),
        reply.1@ == reply_body(utf8_lossy(raw@)),
        valid_utf8(raw@) ==> reply.0 == status_of(reply_head(decode_utf8(raw@))) && reply.1@ == reply_body(
            decode_utf8(raw@),
        ),
{
    let text = decode_lossy(raw);
    read_reply(text.as_str())
}

/// The request for a call to a dependency: the authority to connect to, and
/// the text that posts `payload`, written as compact JSON (see [`json_text`]),
/// to the URL's path.
pub fn prepare_call(url: &str, payload: &JsonValue) -> (prepared: (String, String))
    ensures
        prepared.0@ == url_authority(url@),
        prepared.1@ == request_text(
            "POST"@,
            url_path(url@),
            url_authority(url@),
            json_text(payload@),
            (encode_utf8(json_text(payload@)).len() as usize) as nat,
        ),
        (payload@ is Object && payload@->Object_0.len() == 1 && plain_name(payload@->Object_0[0].0)
            && payload@->Object_0[0].1 is Bool) ==> prepared.1@ == request_text(
            "POST"@,
            url_path(url@),
            url_authority(url@),
            one_member_text(payload@->Object_0[0].0, bool_text(payload@->Object_0[0].1->Bool_0)),
            (encode_utf8(
                one_member_text(payload@->Object_0[0].0, bool_text(payload@->Object_0[0].1->Bool_0)),
            ).len() as usize) as nat,
        ),
{
    let body = write_json(payload);
    prepare_request("POST", url, Some(body.as_str()))
}

/// The document that a reply's body holds: the parsed body, or `null` where it
/// is not JSON.
pub open spec fn reply_document(body: Seq<char>) -> Json {
    match parsed_json(body) {
        Some(j) => j,
        None => Json::Null,
    }
}

/// Reads the raw bytes of a dependency's reply: its status code (see
/// [`parse_response`]) and its body parsed as JSON (see [`reply_document`]).
pub fn read_call_reply(raw: &[u8]) -> (outcome: (u16, JsonValue))
    ensures
        outcome.0 == status_of(reply_head(utf8_lossy(raw@))),
        outcome.1@ == reply_document(reply_body(utf8_lossy(raw@))),
        valid_utf8(raw@) ==> outcome.0 == status_of(reply_head(decode_utf8(raw@))) && outcome.1@
            == reply_document(reply_body(decode_utf8(raw@))),
        forall|k: Seq<char>, b: bool|
            #![trigger one_member_text(k, bool_text(b))]
            plain_name(k) && reply_body(utf8_lossy(raw@)) == one_member_text(k, bool_text(b))
                ==> outcome.1@ == Json::Object(seq![(k, Json::Bool(b))]),
        forall|b: bool|
            #![trigger result_body(b)]
            reply_body(utf8_lossy(raw@)) == one_member_text("result"@, bool_text(b)) ==> stated_verdict(
                outcome.1@,
            ) == b,
{
    let (status, body) = parse_response(raw);
    let doc = match parse_json(body.as_str()) {
        Some(doc) => doc,
        None => JsonValue::Null,
    };
    proof {
        lemma_plain_reply_names();
        assert forall|b: bool| reply_body(utf8_lossy(raw@)) == one_member_text("result"@, bool_text(b)) implies stated_verdict(
            doc@,
        ) == b by {
            assert(one_member_text("result"@, bool_text(b)) == one_member_text("result"@, bool_text(b)));
            lemma_result_body_verdict(b);
            assert(result_body(b) == Json::Object(seq![("result"@, Json::Bool(b))]));
        }
    }
    (status, doc)
}

/// Where [`find`] finds nothing, `pat` occurs nowhere at or after `i`; where it
/// finds `k`, `pat` occurs nowhere from `i` up to `k`.
proof fn lemma_find_from_first(s: Seq<char>, pat: Seq<char>, i: int, j: int)
    requires
        0 <= i <= j,
        j + pat.len() <= s.len(),
        match find_from(s, pat, i) {
            Some(k) => j < k,
            None => true,
        },
    ensures
        s.subrange(j, j + pat.len()) != pat,
    decreases j - i,
{
    if s.subrange(i, i + pat.len()) == pat {
        assert(find_from(s, pat, i) == Some(i));
    } else if i < j {
        lemma_find_from_first(s, pat, i + 1, j);
    }
}

/// A character of `s` before the first `c` that [`find`] reports (or anywhere,
/// where it reports none) is not `c`.
proof fn lemma_before_first_char(s: Seq<char>, c: char, j: int)
    requires
        0 <= j < s.len(),
        match find(s, seq![c]) {
            Some(k) => j < k,
            None => true,
        },
    ensures
        s[j] != c,
{
    lemma_find_from_first(s, seq![c], 0, j);
    if s[j] == c {
        assert(s.subrange(j, j + 1) =~= seq![c]);
    }
}

/// The parts of a URL: the authority holds no `/` and the path starts with one;
/// where the URL (without its scheme) holds a `/`, the authority and the path
/// make it up, and where it holds none, the authority is all of it.
pub proof fn lemma_url_parts(url: Seq<char>)
    ensures
        !url_authority(url).contains('/'),
        url_path(url).len() > 0,
        url_path(url)[0] == '/',
        without_scheme(url).contains('/') ==> url_authority(url) + url_path(url) == without_scheme(url),
        !without_scheme(url).contains('/') ==> url_authority(url) == without_scheme(url),
{
    let rest = without_scheme(url);
    match find(rest, seq!['/']) {
        Some(i) => {
            lemma_found_in_bounds(rest, seq!['/'], i);
            assert(rest.subrange(i, i + 1)[0] == rest[i]);
            assert forall|j: int| 0 <= j < i implies #[trigger] rest.take(i)[j] != '/' by {
                lemma_before_first_char(rest, '/', j);
            }
            assert(rest.contains('/'));
            assert(rest.take(i) + rest.skip(i) =~= rest);
        },
        None => {
            assert forall|j: int| 0 <= j < rest.len() implies #[trigger] rest[j] != '/' by {
                lemma_before_first_char(rest, '/', j);
            }
        },
    }
}

/// Every digit that [`decimal`] writes is a digit, and none is white space.
proof fn lemma_decimal_digits(n: nat)
    ensures
        decimal(n).len() > 0,
        forall|i: int| 0 <= i < decimal(n).len() ==> !is_white_space(#[trigger] decimal(n)[i]) && decimal(n)[i] != '\n',
    decreases n,
{
    if n >= 10 {
        lemma_decimal_digits(n / 10);
        assert forall|i: int| 0 <= i < decimal(n).len() implies !is_white_space(#[trigger] decimal(n)[i]) && decimal(n)[i] != '\n' by {
            if i < decimal(n / 10).len() {
                assert(decimal(n)[i] == decimal(n / 10)[i]);
            }
        }
    }
}

/// Skipping a word from its first character stops right after its last one.
proof fn lemma_skip_word_to(s: Seq<char>, i: int, k: int)
    requires
        0 <= i <= k <= s.len(),
        forall|x: int| i <= x < k ==> !is_white_space(#[trigger] s[x]),
        k == s.len() || is_white_space(s[k]),
    ensures
        skip_word(s, i) == k,
    decreases k - i,
{
    if i < k {
        lemma_skip_word_to(s, i + 1, k);
    }
}

/// The second word of a line that starts with a word `v`, one space and a word
/// `d`, followed by white space or nothing, is `d`.
proof fn lemma_second_word_is(line: Seq<char>, v: Seq<char>, d: Seq<char>)
    requires
        v.len() > 0,
        d.len() > 0,
        forall|x: int| 0 <= x < v.len() ==> !is_white_space(#[trigger] v[x]),
        forall|x: int| 0 <= x < d.len() ==> !is_white_space(#[trigger] d[x]),
        line.len() >= v.len() + 1 + d.len(),
        line.take((v.len() + 1 + d.len()) as int) == v + seq![' '] + d,
        line.len() == v.len() + 1 + d.len() || is_white_space(line[(v.len() + 1 + d.len()) as int]),
    ensures
        second_word(line) == Some(d),
{
    let p: int = (v.len() + 1 + d.len()) as int;
    let pre = v + seq![' '] + d;
    assert forall|x: int| 0 <= x < p implies #[trigger] line[x] == pre[x] by {
        assert(line.take(p)[x] == line[x]);
    }
    assert(!is_white_space(line[0])) by {
        assert(line[0] == v[0]);
    }
    assert(skip_space(line, 0) == 0);
    assert forall|x: int| 0 <= x < v.len() implies !is_white_space(#[trigger] line[x]) by {
        assert(line[x] == v[x]);
    }
    assert(line[v.len() as int] == ' ');
    lemma_skip_word_to(line, 0, v.len() as int);
    assert(line[v.len() + 1int] == d[0]);
    assert(!is_white_space(line[v.len() + 1int]));
    assert(skip_space(line, v.len() + 1int) == v.len() + 1);
    assert(is_white_space(line[v.len() as int]));
    assert(skip_space(line, v.len() as int) == v.len() + 1);
    assert forall|x: int| v.len() + 1 <= x < p implies !is_white_space(#[trigger] line[x]) by {
        assert(line[x] == d[x - v.len() - 1]);
    }
    lemma_skip_word_to(line, v.len() + 1int, p);
    assert(line.subrange(v.len() + 1int, p) =~= d);
}

/// A status line reads back: where the head of a reply starts with a version
/// word, one space and the code `n` written in base ten, followed by white
/// space or nothing, its status is `n`.
pub proof fn lemma_status_line_reads_back(version: Seq<char>, n: nat, rest: Seq<char>)
    requires
        n <= 65535,
        version.len() > 0,
        forall|x: int| 0 <= x < version.len() ==> !is_white_space(#[trigger] version[x]),
        rest.len() == 0 || is_white_space(rest[0]),
    ensures
        status_of(version + seq![' '] + decimal(n) + rest) == n as u16,
{
    let d = decimal(n);
    lemma_decimal_digits(n);
    lemma_decimal_reads_back(n);
    let head = version + seq![' '] + d + rest;
    let p: int = (version.len() + 1 + d.len()) as int;
    assert(head.take(p) =~= version + seq![' '] + d);
    assert forall|x: int| 0 <= x < p implies #[trigger] head[x] != '\n' by {
        if x < version.len() {
            assert(head[x] == version[x]);
        } else if x == version.len() {
            assert(head[x] == ' ');
        } else {
            assert(head[x] == d[x - version.len() - 1]);
        }
    }
    match find(head, seq!['\n']) {
        Some(j) => {
            lemma_found_in_bounds(head, seq!['\n'], j);
            assert(head.subrange(j, j + 1)[0] == head[j]);
            assert(j >= p);
            let cut = head.take(j);
            let line = without_cr(cut);
            if j == p {
                assert(cut =~= version + seq![' '] + d);
                assert(cut.last() == d.last());
                assert(line == cut);
            } else {
                assert(cut[p] == rest[0]);
            }
            assert(line.len() >= p);
            assert(line.take(p) =~= version + seq![' '] + d);
            if line.len() > p {
                assert(line[p] == rest[0]);
            }
            lemma_second_word_is(line, version, d);
        },
        None => {
            if head.len() > p {
                assert(head[p] == rest[0]);
            }
            lemma_second_word_is(head, version, d);
        },
    }
}

/// The member names that calls and replies carry are written as they stand.
pub proof fn lemma_plain_reply_names()
    ensures
        plain_name("result"@),
        plain_name("value"@),
{
    reveal_strlit("result");
    reveal_strlit("value");
}

} // verus!
