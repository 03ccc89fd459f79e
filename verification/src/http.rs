//! Requests and responses.
use crate::text::{
    decimal, decimal_value, digit, join_lines, joined, law_decimal_reads_back,
    law_decimal_without_leading_zeros, law_joined_lines_split_back, law_no_words_in_empty_text,
    law_single_word, law_unterminated_line, law_words_around_white_space, lemma_encode_concat,
    lines, same_text, segments, single_line, terminated_lines, text_lines, text_words, texts,
    unsigned_text, utf8_lossy, utf8_lossy_text, white_space, without_carriage_return, words,
};
use vstd::prelude::*;

verus! {

broadcast use vstd::string::group_string_axioms;

/// The head of a response, up to and with the empty line before the body.
pub open spec fn response_head(
    status: Seq<char>,
    content_type: Seq<char>,
    content_length: nat,
) -> Seq<char> {
    "HTTP/1.1 "@ + status + "\r\nContent-Type: "@ + content_type + "\r\nContent-Length: "@
        + decimal(content_length) + "\r\nConnection: close\r\n\r\n"@
}

/// A whole response. Its length is that of the body in UTF-8.
pub open spec fn http_response(
    status: Seq<char>,
    content_type: Seq<char>,
    body: Seq<char>,
) -> Seq<char> {
    response_head(status, content_type, vstd::utf8::encode_utf8(body).len()) + body
}

/// The response with the given status, content type and body.
pub fn build_http_response(status: &str, content_type: &str, body: &str) -> (response: String)
    ensures
        response@ == http_response(status@, content_type@, body@),
        response@ == "HTTP/1.1 "@ + status@ + "\r\nContent-Type: "@ + content_type@
            + "\r\nContent-Length: "@ + decimal(vstd::utf8::encode_utf8(body@).len())
            + "\r\nConnection: close\r\n\r\n"@ + body@,
{
    let length = unsigned_text(body.as_bytes().len() as u64);
    let mut response = "HTTP/1.1 ".to_owned();
    response.append(status);
    response.append("\r\nContent-Type: ");
    response.append(content_type);
    response.append("\r\nContent-Length: ");
    response.append(length.as_str());
    response.append("\r\nConnection: close\r\n\r\n");
    response.append(body);
    response
}

/// The path that a request asks for: the second word of its first line, where
/// the first word is `GET`. Any other request has the empty path.
pub open spec fn request_path(request: Seq<char>) -> Seq<char> {
    let lines = text_lines(request);
    if lines.len() == 0 {
        Seq::empty()
    } else {
        let parts = text_words(lines[0]);
        if parts.len() >= 2 && parts[0] == "GET"@ {
            parts[1]
        } else {
            Seq::empty()
        }
    }
}

/// The path that a request asks for.
pub fn path_of(request: &str) -> (path: String)
    ensures
        path@ == request_path(request@),
{
    let all = lines(request);
    assert(texts(all@).len() == all@.len());
    if all.len() == 0 {
        return String::new();
    }
    assert(texts(all@)[0] == all@[0]@);
    let parts = words(all[0].as_str());
    assert(texts(parts@).len() == parts@.len());
    if parts.len() >= 2 && same_text(parts[0].as_str(), "GET") {
        assert(texts(parts@)[0] == parts@[0]@);
        assert(texts(parts@)[1] == parts@[1]@);
        parts[1].clone()
    } else {
        assert(parts@.len() >= 2 ==> texts(parts@)[0] == parts@[0]@);
        String::new()
    }
}

/// The path that a request asks for, read from its bytes.
pub fn read_path(request: &[u8]) -> (path: String)
    ensures
        path@ == request_path(utf8_lossy_text(request@)),
        vstd::utf8::valid_utf8(request@) ==> path@ == request_path(
            vstd::utf8::decode_utf8(request@),
        ),
{
    let text = utf8_lossy(request);
    path_of(text.as_str())
}

/// The response to a request for anything but the report.
pub open spec fn not_found() -> Seq<char> {
    http_response("404 Not Found"@, "text/plain"@, "Not Found"@)
}

/// The response that carries the report with the given lines.
pub open spec fn report_response(lines: Seq<Seq<char>>) -> Seq<char> {
    http_response("200 OK"@, "text/plain; version=0.0.4"@, joined(lines))
}

/// The response where the report could not be made.
pub open spec fn failure_response() -> Seq<char> {
    http_response("500 Internal Server Error"@, "text/plain"@, "Internal Server Error"@)
}

/// What to do about a request.
#[derive(Debug)]
pub enum ClientStep {
    /// Make the report and answer with it.
    Scrape,
    /// Answer with this response.
    Reply(String),
}

/// Whether a step is the right one for a path: the report is made for
/// `/metrics` alone.
pub open spec fn answers(step: ClientStep, path: Seq<char>) -> bool {
    if path == "/metrics"@ {
        step is Scrape
    } else {
        step matches ClientStep::Reply(response) && response@ == not_found()
    }
}

/// What to do about a request for `path`.
pub fn answer_path(path: &str) -> (step: ClientStep)
    ensures
        answers(step, path@),
        path@ == "/metrics"@ ==> step is Scrape,
        path@ != "/metrics"@ ==> (step matches ClientStep::Reply(response) && response@
            == http_response("404 Not Found"@, "text/plain"@, "Not Found"@)),
{
    if same_text(path, "/metrics") {
        ClientStep::Scrape
    } else {
        ClientStep::Reply(build_http_response("404 Not Found", "text/plain", "Not Found"))
    }
}

/// What to do about a request, given its bytes.
pub fn handle_client(request: &[u8]) -> (step: ClientStep)
    ensures
        answers(step, request_path(utf8_lossy_text(request@))),
        vstd::utf8::valid_utf8(request@) ==> answers(
            step,
            request_path(vstd::utf8::decode_utf8(request@)),
        ),
        step is Scrape <==> request_path(utf8_lossy_text(request@)) == "/metrics"@,
        step matches ClientStep::Reply(response) ==> response@ == http_response(
            "404 Not Found"@,
            "text/plain"@,
            "Not Found"@,
        ),
{
    let path = read_path(request);
    answer_path(path.as_str())
}

/// The response to a request for the report, given its lines where it could be
/// made.
pub fn metrics_response(report: &Option<Vec<String>>) -> (response: String)
    ensures
        response@ == (match *report {
            Some(lines) => report_response(texts(lines@)),
            None => failure_response(),
        }),
        *report matches Some(lines) ==> response@ == http_response(
            "200 OK"@,
            "text/plain; version=0.0.4"@,
            joined(texts(lines@)),
        ),
        *report is None ==> response@ == http_response(
            "500 Internal Server Error"@,
            "text/plain"@,
            "Internal Server Error"@,
        ),
{
    match report {
        Some(lines) => {
            let body = join_lines(lines);
            build_http_response("200 OK", "text/plain; version=0.0.4", body.as_str())
        },
        None => build_http_response(
            "500 Internal Server Error",
            "text/plain",
            "Internal Server Error",
        ),
    }
}

// ---------------------------------------------------------------------------
// Laws.

/// On the wire a response is its head and then the body, which has as many
/// bytes as the head declares.
pub proof fn law_response_carries_body(
    status: Seq<char>,
    content_type: Seq<char>,
    body: Seq<char>,
    content_length: nat,
)
    requires
        http_response(status, content_type, body) == response_head(
            status,
            content_type,
            content_length,
        ) + body,
    ensures
        content_length == vstd::utf8::encode_utf8(body).len(),
        vstd::utf8::encode_utf8(http_response(status, content_type, body))
            == vstd::utf8::encode_utf8(response_head(status, content_type, content_length))
            + vstd::utf8::encode_utf8(body),
{
    let actual = vstd::utf8::encode_utf8(body).len();
    let before = "HTTP/1.1 "@ + status + "\r\nContent-Type: "@ + content_type
        + "\r\nContent-Length: "@;
    let end = "\r\nConnection: close\r\n\r\n"@;
    let x = response_head(status, content_type, content_length);
    let y = response_head(status, content_type, actual);
    assert(x + body == y + body);
    assert(x.len() == (x + body).len() - body.len());
    assert(x =~= (x + body).take(x.len() as int));
    assert(y =~= (y + body).take(y.len() as int));
    assert(decimal(content_length) =~= x.subrange(
        before.len() as int,
        x.len() - end.len(),
    ));
    assert(decimal(actual) =~= y.subrange(before.len() as int, y.len() - end.len()));
    law_decimal_reads_back(content_length);
    law_decimal_reads_back(actual);
    lemma_encode_concat(y, body);
}

proof fn lemma_first_segment(start: Seq<char>, rest: Seq<char>)
    requires
        single_line(start),
    ensures
        segments(start + rest).len() == segments(rest).len(),
        segments(rest).len() > 0,
        segments(start + rest)[0] == start + segments(rest)[0],
    decreases rest.len(),
{
    let none = Seq::<char>::empty();
    if rest.len() == 0 {
        assert(start + rest =~= none + start);
        law_joined_lines_split_back(seq![start]);
        assert(start + rest =~= start);
        assert(start + none =~= start);
    } else {
        let shorter = rest.drop_last();
        lemma_first_segment(start, shorter);
        assert((start + rest).drop_last() =~= start + shorter);
        assert((start + rest).last() == rest.last());
        if rest.last() != '\n' {
            assert((start + segments(shorter)[0]).push(rest.last()) =~= start + segments(
                shorter,
            )[0].push(rest.last()));
        }
    }
}

/// The first line of a text begins with what the text begins with, up to a
/// line feed.
proof fn lemma_first_line(start: Seq<char>, rest: Seq<char>) -> (more: Seq<char>)
    requires
        single_line(start),
        start.len() > 0,
        start.last() != '\r',
    ensures
        text_lines(start + rest).len() > 0,
        text_lines(start + rest)[0] == start + more,
{
    lemma_first_segment(start, rest);
    let all = segments(start + rest);
    let first = segments(rest)[0];
    if all.len() == 1 {
        assert(all.last() == start + first);
        assert(text_lines(start + rest) =~= seq![start + first]);
        first
    } else {
        assert(all.drop_last()[0] == start + first);
        assert(terminated_lines(start + rest)[0] == without_carriage_return(start + first));
        if (start + first).last() == '\r' {
            assert(first.len() > 0) by {
                if first.len() == 0 {
                    assert(start + first =~= start);
                }
            }
            assert((start + first).drop_last() =~= start + first.drop_last());
            first.drop_last()
        } else {
            first
        }
    }
}

/// Whether a text is a word: not empty and without white space.
pub open spec fn is_word(text: Seq<char>) -> bool {
    text.len() > 0 && forall|i: int| 0 <= i < text.len() ==> !white_space(#[trigger] text[i])
}

/// A `GET` request has the path that it names, whatever follows it.
pub proof fn law_get_request_path(path: Seq<char>, rest: Seq<char>)
    requires
        is_word(path),
    ensures
        request_path("GET"@.push(' ') + path.push(' ') + rest) == path,
{
    reveal_strlit("GET");
    let method = "GET"@;
    let start = method.push(' ') + path.push(' ');
    assert forall|i: int| 0 <= i < start.len() implies start[i] != '\n' by {
        if i > 3 && i < 4 + path.len() {
            assert(start[i] == path[i - 4]);
        }
    }
    let more = lemma_first_line(start, rest);
    let line = start + more;
    assert(line =~= method.push(' ') + (path.push(' ') + more));
    law_words_around_white_space(method, ' ', path.push(' ') + more);
    law_words_around_white_space(path, ' ', more);
    law_single_word(method);
    law_single_word(path);
    assert(text_words(line)[0] == method);
    assert(text_words(line)[1] == path);
}

/// A request by any other method asks for nothing that is served.
pub proof fn law_other_method_refused(method: Seq<char>, rest: Seq<char>)
    requires
        is_word(method),
        method != "GET"@,
    ensures
        request_path(method.push(' ') + rest) == Seq::<char>::empty(),
        request_path(method.push(' ') + rest) != "/metrics"@,
{
    reveal_strlit("/metrics");
    let start = method.push(' ');
    assert forall|i: int| 0 <= i < start.len() implies start[i] != '\n' by {
        if i < method.len() {
            assert(start[i] == method[i]);
        }
    }
    let more = lemma_first_line(start, rest);
    law_words_around_white_space(method, ' ', more);
    law_single_word(method);
    assert(text_words(start + more)[0] == method);
    assert("/metrics"@.len() == 8);
}

proof fn lemma_decimal_digits(n: nat)
    ensures
        forall|i: int| 0 <= i < decimal(n).len() ==> #[trigger] decimal(n)[i] != '\r',
    decreases n,
{
    if n >= 10 {
        lemma_decimal_digits(n / 10);
        assert(decimal(n) == decimal(n / 10).push(digit((n % 10) as int)));
    }
}

/// The body follows the first empty line of a response, where neither the
/// status nor the content type holds a carriage return.
pub proof fn law_body_follows_first_empty_line(
    status: Seq<char>,
    content_type: Seq<char>,
    body: Seq<char>,
)
    requires
        !status.contains('\r'),
        !content_type.contains('\r'),
    ensures
        ({
            let response = http_response(status, content_type, body);
            let start = response.len() - body.len();
            &&& start >= 4
            &&& response.subrange(start - 4, start) == seq!['\r', '\n', '\r', '\n']
            &&& response.skip(start) == body
            &&& forall|k: int|
                0 <= k < start - 4 ==> #[trigger] response.subrange(k, k + 4) != seq![
                    '\r',
                    '\n',
                    '\r',
                    '\n',
                ]
        }),
{
    let length = decimal(vstd::utf8::encode_utf8(body).len());
    lemma_decimal_digits(vstd::utf8::encode_utf8(body).len());
    reveal_strlit("HTTP/1.1 ");
    reveal_strlit("\r\nContent-Type: ");
    reveal_strlit("\r\nContent-Length: ");
    reveal_strlit("\r\nConnection: close\r\n\r\n");
    let head = response_head(status, content_type, vstd::utf8::encode_utf8(body).len());
    let response = http_response(status, content_type, body);
    let start = response.len() - body.len();
    // Where the second, third and last of the fixed parts begin.
    let a: int = 9 + status.len() as int;
    let b: int = a + 16 + content_type.len();
    let c: int = b + 18 + length.len();
    assert(head.len() == c + 23);
    assert forall|k: int| 0 <= k < head.len() && #[trigger] head[k] == '\r' implies k == a || k == b
        || k == c || k == c + 19 || k == c + 21 by {
        if k < 9 {
            assert(head[k] == "HTTP/1.1 "@[k]);
        } else if k < a {
            assert(head[k] == status[k - 9]);
            assert(status.contains(status[k - 9]));
        } else if k < a + 16 {
            assert(head[k] == "\r\nContent-Type: "@[k - a]);
        } else if k < b {
            assert(head[k] == content_type[k - a - 16]);
            assert(content_type.contains(content_type[k - a - 16]));
        } else if k < b + 18 {
            assert(head[k] == "\r\nContent-Length: "@[k - b]);
        } else if k < c {
            assert(head[k] == length[k - b - 18]);
        } else {
            assert(head[k] == "\r\nConnection: close\r\n\r\n"@[k - c]);
        }
    }
    assert(head[a + 2] == "\r\nContent-Type: "@[2]);
    assert(head[b + 2] == "\r\nContent-Length: "@[2]);
    assert(head[c + 2] == "\r\nConnection: close\r\n\r\n"@[2]);
    assert(response.skip(start) =~= body);
    assert(response.subrange(start - 4, start) =~= seq!['\r', '\n', '\r', '\n']);
    assert forall|k: int| 0 <= k < start - 4 implies #[trigger] response.subrange(k, k + 4) != seq![
        '\r',
        '\n',
        '\r',
        '\n',
    ] by {
        let window = response.subrange(k, k + 4);
        assert(window[0] == head[k]);
        assert(window[2] == head[k + 2]);
    }
}

/// A response is the status line, the three header fields, the empty line and
/// the body; the length that it declares reads as the number of bytes of the
/// body.
pub proof fn law_response_text(status: Seq<char>, content_type: Seq<char>, body: Seq<char>)
    ensures
        exists|length: Seq<char>|
            {
                &&& decimal_value(length) == vstd::utf8::encode_utf8(body).len()
                &&& length.len() > 0
                &&& forall|i: int| 0 <= i < length.len() ==> '0' <= #[trigger] length[i] <= '9'
                &&& length[0] == '0' ==> length.len() == 1
                &&& http_response(status, content_type, body) == #[trigger] ("HTTP/1.1 "@ + status
                    + "\r\nContent-Type: "@ + content_type + "\r\nContent-Length: "@ + length)
                    + "\r\nConnection: close\r\n\r\n"@ + body
            },
{
    let n = vstd::utf8::encode_utf8(body).len();
    let length = decimal(n);
    law_decimal_reads_back(n);
    law_decimal_without_leading_zeros(n);
    assert(http_response(status, content_type, body) == ("HTTP/1.1 "@ + status
        + "\r\nContent-Type: "@ + content_type + "\r\nContent-Length: "@ + length)
        + "\r\nConnection: close\r\n\r\n"@ + body);
}

/// The path of a request is the second word of its first line where the first
/// word is `GET`, and empty where there is no such word.
pub proof fn law_path_is_second_word(request: Seq<char>, line: Seq<char>, rest: Seq<Seq<char>>)
    requires
        text_lines(request) == seq![line] + rest,
    ensures
        text_words(line).len() >= 2 && text_words(line)[0] == "GET"@ ==> request_path(request)
            == text_words(line)[1],
        text_words(line).len() < 2 ==> request_path(request) == Seq::<char>::empty(),
        text_words(line).len() > 0 && text_words(line)[0] != "GET"@ ==> request_path(request)
            == Seq::<char>::empty(),
{
    assert(text_lines(request)[0] == line);
}

/// A request without a line asks for nothing.
pub proof fn law_no_line_no_path(request: Seq<char>)
    requires
        text_lines(request).len() == 0,
    ensures
        request_path(request) == Seq::<char>::empty(),
{
}

/// White space before, between and after the words of a `GET` request does not
/// change its path.
pub proof fn law_white_space_around_path(
    before: Seq<char>,
    between: Seq<char>,
    path: Seq<char>,
    after: Seq<char>,
)
    requires
        is_word(path),
        !after.contains('\n'),
        forall|i: int|
            0 <= i < before.len() ==> white_space(#[trigger] before[i]) && before[i] != '\n',
        forall|i: int|
            0 <= i < between.len() ==> white_space(#[trigger] between[i]) && between[i] != '\n',
    ensures
        request_path(before + "GET"@ + between.push(' ') + path.push(' ') + after) == path,
{
    reveal_strlit("GET");
    let method = "GET"@;
    let line = before + method + between.push(' ') + path.push(' ') + after;
    assert forall|i: int| 0 <= i < line.len() implies line[i] != '\n' by {
        let a: int = before.len() as int;
        let b: int = a + 3;
        let c: int = b + between.len() + 1;
        let d: int = c + path.len() + 1;
        if i < a {
            assert(line[i] == before[i]);
        } else if i < b {
            assert(line[i] == method[i - a]);
        } else if i < c {
            assert(line[i] == between.push(' ')[i - b]);
            if i < c - 1 {
                assert(line[i] == between[i - b]);
            }
        } else if i < d {
            assert(line[i] == path.push(' ')[i - c]);
            if i < d - 1 {
                assert(line[i] == path[i - c]);
            }
        } else {
            assert(line[i] == after[i - d]);
            assert(after.contains(after[i - d]));
        }
    }
    law_unterminated_line(line);
    let rest = path.push(' ') + after;
    law_words_around_white_space(path, ' ', after);
    law_single_word(path);
    assert(text_words(rest) == seq![path] + text_words(after));
    lemma_words_after_white_space(between.push(' '), rest);
    let middle = between.push(' ') + rest;
    law_single_word(method);
    assert(middle =~= middle.take(1) + middle.skip(1));
    assert(white_space(middle[0])) by {
        assert(middle[0] == between.push(' ')[0]);
    }
    assert(method + middle =~= method.push(middle[0]) + middle.skip(1));
    law_words_around_white_space(method, middle[0], middle.skip(1));
    lemma_words_after_white_space(seq![middle[0]], middle.skip(1));
    assert(seq![middle[0]] + middle.skip(1) =~= middle);
    lemma_words_after_white_space(before, method + middle);
    assert(line =~= before + (method + middle));
    assert(text_words(line) == seq![method] + (seq![path] + text_words(after)));
    assert(text_words(line)[0] == method);
    assert(text_words(line)[1] == path);
}

proof fn lemma_words_after_white_space(space: Seq<char>, text: Seq<char>)
    requires
        forall|i: int| 0 <= i < space.len() ==> white_space(#[trigger] space[i]),
    ensures
        text_words(space + text) == text_words(text),
    decreases space.len(),
{
    let none = Seq::<char>::empty();
    if space.len() == 0 {
        assert(space + text =~= text);
    } else {
        let rest = space.drop_first();
        assert forall|i: int| 0 <= i < rest.len() implies white_space(#[trigger] rest[i]) by {
            assert(rest[i] == space[i + 1]);
        }
        lemma_words_after_white_space(rest, text);
        law_words_around_white_space(none, space[0], rest + text);
        assert(space + text =~= none.push(space[0]) + (rest + text));
        law_no_words_in_empty_text(none);
        assert(Seq::<Seq<char>>::empty() + text_words(text) =~= text_words(text));
    }
}

/// The report is made for the path `/metrics` and for no other; every other
/// path is answered that it was not found.
pub proof fn law_only_metrics_served(step: ClientStep, path: Seq<char>)
    requires
        answers(step, path),
    ensures
        step is Scrape <==> path == "/metrics"@,
        step matches ClientStep::Reply(response) ==> response@ == http_response(
            "404 Not Found"@,
            "text/plain"@,
            "Not Found"@,
        ),
{
}

/// A response that is built has the status, the content type and the body that
/// it is built from, unchanged, and declares the length of the body.
pub proof fn law_built_response(
    status: &str,
    content_type: &str,
    body: &str,
    response: String,
)
    requires
        call_ensures(build_http_response, (status, content_type, body), response),
    ensures
        response@ == "HTTP/1.1 "@ + status@ + "\r\nContent-Type: "@ + content_type@
            + "\r\nContent-Length: "@ + decimal(vstd::utf8::encode_utf8(body@).len())
            + "\r\nConnection: close\r\n\r\n"@ + body@,
{
}

/// The path that is read off a request is the second word of its first line
/// where the first word is `GET`, and empty where there is no such word.
pub proof fn law_path_read(request: &str, path: String)
    requires
        call_ensures(path_of, (request,), path),
    ensures
        ({
            let lines = text_lines(request@);
            let found = text_words(lines[0]);
            if lines.len() > 0 && found.len() >= 2 && found[0] == "GET"@ {
                path@ == found[1]
            } else {
                path@ == Seq::<char>::empty()
            }
        }),
{
}

/// The path that is read off the bytes of a request is that of their text.
pub proof fn law_path_read_from_bytes(request: &[u8], path: String)
    requires
        call_ensures(read_path, (request,), path),
    ensures
        path@ == request_path(utf8_lossy_text(request@)),
{
}

/// A client that asks for the path `/metrics` is served the report, every other
/// one is told that nothing was found.
pub proof fn law_path_answered(path: &str, step: ClientStep)
    requires
        call_ensures(answer_path, (path,), step),
    ensures
        step is Scrape <==> path@ == "/metrics"@,
        step matches ClientStep::Reply(response) ==> response@ == http_response(
            "404 Not Found"@,
            "text/plain"@,
            "Not Found"@,
        ),
{
}

/// A client is answered by the path of its request alone.
pub proof fn law_client_answered(request: &[u8], step: ClientStep)
    requires
        call_ensures(handle_client, (request,), step),
    ensures
        step is Scrape <==> request_path(utf8_lossy_text(request@)) == "/metrics"@,
        step matches ClientStep::Reply(response) ==> response@ == http_response(
            "404 Not Found"@,
            "text/plain"@,
            "Not Found"@,
        ),
{
}

/// A report that could be made is sent whole, as its lines with a line feed
/// between each two; one that could not be made is answered as a failure.
pub proof fn law_report_sent(report: &Option<Vec<String>>, response: String)
    requires
        call_ensures(metrics_response, (report,), response),
    ensures
        *report matches Some(lines) ==> response@ == http_response(
            "200 OK"@,
            "text/plain; version=0.0.4"@,
            joined(texts(lines@)),
        ),
        *report is None ==> response@ == http_response(
            "500 Internal Server Error"@,
            "text/plain"@,
            "Internal Server Error"@,
        ),
{
}

} // verus!
