//! The VSCode REST log format (`.http` files): a request block that the
//! editor can replay, followed by the response as a comment block.

use std::sync::{Arc, Mutex};
use crate::codecs::{
    ascii_text, canonical_reason, header_value_text, json_pretty, pretty_json, status_reason,
    utf8_text, visible_ascii,
};
use crate::record::{HeaderField, LogEntry, RequestRecord, ResponseRecord};
use crate::text::{comment_continuation, decimal, push_comment_continuation, push_decimal};
use crate::writer::{LockableWriter, LockableWriterGuard, WriteLog};
use vstd::utf8::encode_utf8;
use vstd::prelude::*;
use vstd::utf8::{decode_utf8, valid_utf8};

verus! {

/// Every byte of a header value is visible ASCII or a tab.
pub open spec fn all_visible_ascii(value: Seq<u8>) -> bool {
    forall|i: int| 0 <= i < value.len() ==> visible_ascii(#[trigger] value[i])
}

/// How a header value is shown: its text, or a marker where it has none.
pub open spec fn value_display(value: Seq<u8>) -> Seq<char> {
    if all_visible_ascii(value) {
        ascii_text(value)
    } else {
        "<invalid UTF-8>"@
    }
}

/// The header lines of a request block: `name: value`, one per header, in order.
pub open spec fn request_header_lines(headers: Seq<HeaderField>) -> Seq<char>
    decreases headers.len(),
{
    if headers.len() == 0 {
        seq![]
    } else {
        request_header_lines(headers.drop_last()) + headers.last().name@ + ": "@
            + value_display(headers.last().value@) + "\n"@
    }
}

/// The header lines of a response block: `#   name: value`, one per header, in order.
pub open spec fn response_header_lines(headers: Seq<HeaderField>) -> Seq<char>
    decreases headers.len(),
{
    if headers.len() == 0 {
        seq![]
    } else {
        response_header_lines(headers.drop_last()) + "#   "@ + headers.last().name@ + ": "@
            + value_display(headers.last().value@) + "\n"@
    }
}

/// The body as logged: its pretty JSON form where it has one, else the text itself.
pub open spec fn shown_body(body: Seq<char>, pretty: Option<Seq<char>>) -> Seq<char> {
    match pretty {
        Some(p) => p,
        None => body,
    }
}

/// The request block of an entry, given the pretty form of its body.
pub open spec fn request_text(
    method: Seq<char>,
    uri: Seq<char>,
    headers: Seq<HeaderField>,
    body: Seq<char>,
    pretty: Option<Seq<char>>,
) -> Seq<char> {
    "\n###\n\n"@ + method + " "@ + uri + "\n"@ + request_header_lines(headers) + (if body.len()
        == 0 {
        seq![]
    } else {
        "\n"@ + shown_body(body, pretty) + "\n"@
    })
}

/// The reason phrase as logged.
pub open spec fn reason_text(reason: Option<Seq<char>>) -> Seq<char> {
    match reason {
        Some(r) => r,
        None => "<unknown status code>"@,
    }
}

/// The response block of an entry, given the reason phrase of its status
/// and the pretty form of its body.
pub open spec fn response_text(
    status: u16,
    reason: Option<Seq<char>>,
    headers: Seq<HeaderField>,
    body: Seq<char>,
    pretty: Option<Seq<char>>,
) -> Seq<char> {
    "\n### Response ###\n#\n# Status Code: "@ + decimal(status as nat) + " "@ + reason_text(reason)
        + "\n# Response Headers:\n"@ + response_header_lines(headers) + "#\n"@ + (if body.len()
        == 0 {
        seq![]
    } else {
        "# Body:\n# "@ + comment_continuation(shown_body(body, pretty)) + "\n#\n"@
    })
}

/// The text of an optional string.
pub open spec fn opt_text(s: Option<String>) -> Option<Seq<char>> {
    match s {
        Some(t) => Some(t@),
        None => None,
    }
}

/// Appends the display form of a header value.
fn push_header_value(out: &mut String, value: &[u8])
    ensures
        final(out)@ == old(out)@ + value_display(value@),
{
    match header_value_text(value) {
        Some(text) => out.append(text.as_str()),
        None => out.append("<invalid UTF-8>"),
    }
}

/// Why an entry could not be logged.
#[derive(Debug)]
pub enum LogError {
    /// The request body is not valid UTF-8; std's description of the fault.
    RequestBodyNotUtf8(std::str::Utf8Error),
    /// The response body is not valid UTF-8; std's description of the fault.
    ResponseBodyNotUtf8(std::str::Utf8Error),
    /// Locking, writing to or flushing the destination failed.
    Io(std::io::Error),
}

impl LogError {
    /// The outcome of an operation on the destination as a logging outcome:
    /// success stays success, and a failure is that very I/O error.
    pub fn from_io(result: std::io::Result<()>) -> (res: Result<(), LogError>)
        ensures
            match result {
                Ok(()) => res is Ok,
                Err(e) => res == Err::<(), LogError>(LogError::Io(e)),
            },
    {
        match result {
            Ok(()) => Ok(()),
            Err(e) => Err(LogError::Io(e)),
        }
    }
}

/// The text of a body, where it is valid UTF-8.
pub fn body_to_string(body: &Vec<u8>) -> (res: Result<&str, std::str::Utf8Error>)
    ensures
        res is Ok <==> valid_utf8(body@),
        res matches Ok(s) ==> s@ == decode_utf8(body@),
{
    utf8_text(body.as_slice())
}

/// The whole log text of an entry whose bodies are valid UTF-8.
pub open spec fn entry_text(entry: LogEntry) -> Seq<char> {
    let request_body = decode_utf8(entry.request.body@);
    let response_body = decode_utf8(entry.response.body@);
    request_text(
        entry.request.method@,
        entry.request.uri@,
        entry.request.headers@,
        request_body,
        json_pretty(request_body),
    ) + response_text(
        entry.response.status,
        canonical_reason(entry.response.status),
        entry.response.headers@,
        response_body,
        json_pretty(response_body),
    )
}

/// A logger that outputs request and response details to VSCode's REST log format.
pub struct VSCodeRestLogger {
    writer: LockableWriter,
    /// The bytes this logger has written to its destination.
    logged: WriteLog,
}

impl VSCodeRestLogger {
    /// The destination this logger writes to.
    pub closed spec fn destination(&self) -> LockableWriter {
        self.writer
    }

    /// The bytes this logger has written to its destination so far, in order.
    pub closed spec fn logged(&self) -> Seq<u8> {
        self.logged.bytes()
    }

    /// Everything this logger wrote has been flushed since.
    pub closed spec fn flushed(&self) -> bool {
        self.logged.flushed()
    }

    /// A logger that writes to standard output.
    pub fn from_stdout(stdout: std::io::Stdout) -> (res: Self)
        ensures
            res.destination() == LockableWriter::Stdout(stdout),
            res.logged() == Seq::<u8>::empty(),
            res.flushed(),
    {
        Self { writer: LockableWriter::Stdout(stdout), logged: WriteLog::new() }
    }

    /// A logger that appends to a shared in-memory buffer.
    pub fn from_buf_writer(buf_writer: Arc<Mutex<Vec<u8>>>) -> (res: Self)
        ensures
            res.destination() == LockableWriter::BufWriter(buf_writer),
            res.logged() == Seq::<u8>::empty(),
            res.flushed(),
    {
        Self { writer: LockableWriter::BufWriter(buf_writer), logged: WriteLog::new() }
    }

    /// The request block for a request whose body reads `body`, where
    /// `pretty_body` is the pretty JSON form of that body, if it has one.
    pub fn format_request(request: &RequestRecord, body: &str, pretty_body: Option<String>) -> (res: String)
        ensures
            res@ == request_text(request.method@, request.uri@, request.headers@, body@, opt_text(pretty_body)),
    {
        let mut out = String::new();
        out.append("\n###\n\n");
        out.append(request.method.as_str());
        out.append(" ");
        out.append(request.uri.as_str());
        out.append("\n");
        let ghost start = out@;
        let headers = &request.headers;
        for i in 0..headers.len()
            invariant
                out@ == start + request_header_lines(headers@.take(i as int)),
        {
            assert(headers@.take(i + 1).drop_last() =~= headers@.take(i as int));
            out.append(headers[i].name.as_str());
            out.append(": ");
            push_header_value(&mut out, headers[i].value.as_slice());
            out.append("\n");
        }
        assert(headers@.take(headers@.len() as int) =~= headers@);
        if !body.is_empty() {
            out.append("\n");
            match pretty_body {
                Some(p) => out.append(p.as_str()),
                None => out.append(body),
            }
            out.append("\n");
        }
        out
    }

    /// The request block for a request whose body reads `body`.
    pub fn log_request(request: &RequestRecord, body: &str) -> (res: String)
        ensures
            res@ == request_text(request.method@, request.uri@, request.headers@, body@, json_pretty(body@)),
    {
        let pretty = if body.is_empty() { None } else { pretty_json(body) };
        Self::format_request(request, body, pretty)
    }

    /// The response block for a response whose body reads `body`, where
    /// `reason` is the reason phrase of its status and `pretty_body` the
    /// pretty JSON form of its body, if they have one.
    pub fn format_response(
        response: &ResponseRecord,
        reason: Option<String>,
        body: &str,
        pretty_body: Option<String>,
    ) -> (res: String)
        ensures
            res@ == response_text(response.status, opt_text(reason), response.headers@, body@, opt_text(pretty_body)),
    {
        let mut out = String::new();
        out.append("\n### Response ###\n#\n# Status Code: ");
        push_decimal(&mut out, response.status);
        out.append(" ");
        match reason {
            Some(r) => out.append(r.as_str()),
            None => out.append("<unknown status code>"),
        }
        out.append("\n# Response Headers:\n");
        let ghost start = out@;
        let headers = &response.headers;
        for i in 0..headers.len()
            invariant
                out@ == start + response_header_lines(headers@.take(i as int)),
        {
            assert(headers@.take(i + 1).drop_last() =~= headers@.take(i as int));
            out.append("#   ");
            out.append(headers[i].name.as_str());
            out.append(": ");
            push_header_value(&mut out, headers[i].value.as_slice());
            out.append("\n");
        }
        assert(headers@.take(headers@.len() as int) =~= headers@);
        out.append("#\n");
        if !body.is_empty() {
            out.append("# Body:\n# ");
            match pretty_body {
                Some(p) => push_comment_continuation(&mut out, p.as_str()),
                None => push_comment_continuation(&mut out, body),
            }
            out.append("\n#\n");
        }
        out
    }

    /// The response block for a response whose body reads `body`.
    pub fn log_response(response: &ResponseRecord, body: &str) -> (res: String)
        ensures
            res@ == response_text(
                response.status,
                canonical_reason(response.status),
                response.headers@,
                body@,
                json_pretty(body@),
            ),
    {
        let reason = status_reason(response.status);
        let pretty = if body.is_empty() { None } else { pretty_json(body) };
        Self::format_response(response, reason, body, pretty)
    }

    /// The log text of an entry: its request block, then its response block.
    pub fn render_entry(entry: &LogEntry) -> (res: Result<String, LogError>)
        ensures
            !valid_utf8(entry.request.body@) ==> res matches Err(LogError::RequestBodyNotUtf8(_)),
            valid_utf8(entry.request.body@) && !valid_utf8(entry.response.body@) ==> res matches Err(
                LogError::ResponseBodyNotUtf8(_),
            ),
            valid_utf8(entry.request.body@) && valid_utf8(entry.response.body@) ==> (res matches Ok(
                text,
            ) && text@ == entry_text(*entry)),
    {
        let request_body = match body_to_string(&entry.request.body) {
            Ok(b) => b,
            Err(e) => return Err(LogError::RequestBodyNotUtf8(e)),
        };
        let response_body = match body_to_string(&entry.response.body) {
            Ok(b) => b,
            Err(e) => return Err(LogError::ResponseBodyNotUtf8(e)),
        };
        let mut text = Self::log_request(&entry.request, request_body);
        let response_text = Self::log_response(&entry.response, response_body);
        text.append(response_text.as_str());
        Ok(text)
    }

    /// Writes one entry to a locked destination: renders it and writes the
    /// whole text. Where a body is not UTF-8 nothing is written. On success
    /// the destination has received exactly the entry's UTF-8 text; on a
    /// failed write, some first part of it, and the destination's own error
    /// comes back. The in-memory buffer always succeeds.
    pub fn write_entry(guard: &mut LockableWriterGuard, entry: &LogEntry) -> (res: Result<(), LogError>)
        ensures
            (*final(guard) is Stdout) <==> (*old(guard) is Stdout),
            !valid_utf8(entry.request.body@) ==> (res matches Err(LogError::RequestBodyNotUtf8(_))
                && *final(guard) == *old(guard)),
            valid_utf8(entry.request.body@) && !valid_utf8(entry.response.body@) ==> (res matches Err(
                LogError::ResponseBodyNotUtf8(_),
            ) && *final(guard) == *old(guard)),
            valid_utf8(entry.request.body@) && valid_utf8(entry.response.body@) ==> (res is Ok
                || res matches Err(LogError::Io(_))),
            valid_utf8(entry.request.body@) && valid_utf8(entry.response.body@) && res is Ok
                ==> final(guard).written() == old(guard).written() + encode_utf8(entry_text(*entry)),
            valid_utf8(entry.request.body@) && valid_utf8(entry.response.body@) && res is Err
                ==> exists|k: int|
                0 <= k <= encode_utf8(entry_text(*entry)).len() && final(guard).written()
                    == old(guard).written() + encode_utf8(entry_text(*entry)).take(k),
            valid_utf8(entry.request.body@) && valid_utf8(entry.response.body@) && *old(guard) is BufWriter
                ==> res is Ok,
    {
        let text = match Self::render_entry(entry) {
            Ok(t) => t,
            Err(e) => return Err(e),
        };
        LogError::from_io(guard.write_all(text.as_str().as_bytes()))
    }

    /// Logs one entry: checks that both bodies are UTF-8, then locks the
    /// destination, writes the whole entry under that one lock and flushes
    /// it, so that entries do not interleave. Nothing is locked or written
    /// where a body is not UTF-8. On success the destination has received
    /// exactly the entry's UTF-8 text, all flushed; on a failure, some first
    /// part of it.
    pub fn log_request_response(&mut self, entry: LogEntry) -> (res: Result<(), LogError>)
        ensures
            final(self).destination() == old(self).destination(),
            !valid_utf8(entry.request.body@) ==> (res matches Err(LogError::RequestBodyNotUtf8(_))
                && final(self).logged() == old(self).logged() && final(self).flushed() == old(self).flushed()),
            valid_utf8(entry.request.body@) && !valid_utf8(entry.response.body@) ==> (res matches Err(
                LogError::ResponseBodyNotUtf8(_),
            ) && final(self).logged() == old(self).logged() && final(self).flushed() == old(self).flushed()),
            valid_utf8(entry.request.body@) && valid_utf8(entry.response.body@) ==> (res is Ok
                || res matches Err(LogError::Io(_))),
            valid_utf8(entry.request.body@) && valid_utf8(entry.response.body@) && res is Ok
                ==> final(self).logged() == old(self).logged() + encode_utf8(entry_text(entry))
                && final(self).flushed(),
            valid_utf8(entry.request.body@) && valid_utf8(entry.response.body@) && res is Err
                ==> exists|k: int|
                0 <= k <= encode_utf8(entry_text(entry)).len() && final(self).logged()
                    == old(self).logged() + encode_utf8(entry_text(entry)).take(k),
    {
        let ghost text = encode_utf8(entry_text(entry));
        if let Err(e) = body_to_string(&entry.request.body) {
            return Err(LogError::RequestBodyNotUtf8(e));
        }
        if let Err(e) = body_to_string(&entry.response.body) {
            return Err(LogError::ResponseBodyNotUtf8(e));
        }
        let rendered = match Self::render_entry(&entry) {
            Ok(t) => t,
            Err(e) => return Err(e),
        };
        proof {
            assert(self.logged() + text.take(0) =~= self.logged());
        }
        let mut guard = match self.writer.lock() {
            Ok(g) => g,
            Err(e) => return Err(LogError::Io(e)),
        };
        let written = self.logged.write_all(&mut guard, rendered.as_str().as_bytes());
        if let Err(e) = written {
            return Err(LogError::Io(e));
        }
        let flushed = self.logged.flush(&mut guard);
        proof {
            assert(text.take(text.len() as int) =~= text);
        }
        LogError::from_io(flushed)
    }
}

} // verus!

verus! {

/// Every line of `s` that starts inside `s` begins with `#`; `fresh` says
/// whether `s` itself starts at the beginning of a line.
pub open spec fn commented(s: Seq<char>, fresh: bool) -> bool {
    forall|i: int|
        0 <= i < s.len() && ((i == 0 && fresh) || (i > 0 && s[i - 1] == '\n')) ==> #[trigger] s[i]
            == '#'
}

/// Whether what follows `s` starts a line, given whether `s` started one.
pub open spec fn ends_line(s: Seq<char>, fresh: bool) -> bool {
    if s.len() == 0 {
        fresh
    } else {
        s.last() == '\n'
    }
}

proof fn lemma_commented_concat(a: Seq<char>, b: Seq<char>, fresh: bool)
    requires
        commented(a, fresh),
        commented(b, ends_line(a, fresh)),
    ensures
        commented(a + b, fresh),
        ends_line(a + b, fresh) == ends_line(b, ends_line(a, fresh)),
{
    let s = a + b;
    assert forall|i: int|
        0 <= i < s.len() && ((i == 0 && fresh) || (i > 0 && s[i - 1] == '\n')) implies #[trigger] s[i]
        == '#' by {
        if i < a.len() {
            assert(s[i] == a[i]);
            if i > 0 {
                assert(s[i - 1] == a[i - 1]);
            }
        } else {
            let j = i - a.len();
            assert(s[i] == b[j]);
            if j > 0 {
                assert(s[i - 1] == b[j - 1]);
            } else if i > 0 {
                assert(s[i - 1] == a.last());
            }
        }
    }
    if b.len() > 0 {
        assert(s.last() == b.last());
    }
}

proof fn lemma_plain_commented(s: Seq<char>, fresh: bool)
    requires
        !s.contains('\n'),
        fresh && s.len() > 0 ==> s[0] == '#',
    ensures
        commented(s, fresh),
        ends_line(s, fresh) == (fresh && s.len() == 0),
{
    assert forall|i: int|
        0 <= i < s.len() && ((i == 0 && fresh) || (i > 0 && s[i - 1] == '\n')) implies #[trigger] s[i]
        == '#' by {
        if i > 0 {
            assert(s.contains(s[i - 1]));
        }
    }
    if s.len() > 0 {
        assert(s.contains(s.last()));
    }
}

proof fn lemma_value_display_plain(value: Seq<u8>)
    ensures
        !value_display(value).contains('\n'),
{
    reveal_strlit("<invalid UTF-8>");
    if all_visible_ascii(value) {
        let t = ascii_text(value);
        assert forall|i: int| 0 <= i < t.len() implies #[trigger] t[i] != '\n' by {
            assert(visible_ascii(value[i]));
        }
    }
}

proof fn lemma_header_line_literals()
    ensures
        !"#   "@.contains('\n'),
        "#   "@.len() > 0,
        "#   "@[0] == '#',
        !": "@.contains('\n'),
        commented("\n"@, false),
        ends_line("\n"@, false),
{
    reveal_strlit("#   ");
    reveal_strlit(": ");
    reveal_strlit("\n");
    let p1 = "#   "@;
    let p3 = ": "@;
    assert forall|i: int| 0 <= i < p1.len() implies #[trigger] p1[i] != '\n' by {}
    assert forall|i: int| 0 <= i < p3.len() implies #[trigger] p3[i] != '\n' by {}
}

proof fn lemma_response_header_lines_commented(headers: Seq<HeaderField>)
    requires
        forall|i: int| 0 <= i < headers.len() ==> (#[trigger] headers[i]).well_formed(),
    ensures
        commented(response_header_lines(headers), true),
        ends_line(response_header_lines(headers), true),
    decreases headers.len(),
{
    if headers.len() > 0 {
        let init = headers.drop_last();
        let h = headers.last();
        assert forall|i: int| 0 <= i < init.len() implies (#[trigger] init[i]).well_formed() by {
            assert(init[i] == headers[i]);
        }
        lemma_response_header_lines_commented(init);
        assert(!h.name@.contains('\n')) by {
            assert(h == headers[headers.len() - 1]);
        }
        lemma_header_line_literals();
        let a = response_header_lines(init);
        let p1 = "#   "@;
        let p2 = h.name@;
        let p3 = ": "@;
        let p4 = value_display(h.value@);
        let p5 = "\n"@;
        lemma_value_display_plain(h.value@);
        lemma_plain_commented(p1, true);
        lemma_plain_commented(p2, false);
        lemma_plain_commented(p3, false);
        lemma_plain_commented(p4, false);
        lemma_commented_concat(a, p1, true);
        lemma_commented_concat(a + p1, p2, true);
        lemma_commented_concat(a + p1 + p2, p3, true);
        lemma_commented_concat(a + p1 + p2 + p3, p4, true);
        lemma_commented_concat(a + p1 + p2 + p3 + p4, p5, true);
    }
}

proof fn lemma_comment_continuation_commented(s: Seq<char>)
    ensures
        commented(comment_continuation(s), false),
        !ends_line(comment_continuation(s), false),
    decreases s.len(),
{
    if s.len() > 0 {
        let init = s.drop_last();
        lemma_comment_continuation_commented(init);
        if s.last() == '\n' {
            let piece = seq!['\n', '#', ' '];
            lemma_commented_concat(comment_continuation(init), piece, false);
        } else {
            let piece = seq![s.last()];
            assert(!piece.contains('\n')) by {
                assert forall|i: int| 0 <= i < piece.len() implies #[trigger] piece[i] != '\n' by {}
            }
            lemma_plain_commented(piece, false);
            lemma_commented_concat(comment_continuation(init), piece, false);
            assert(comment_continuation(init).push(s.last()) =~= comment_continuation(init) + piece);
        }
    }
}

proof fn lemma_decimal_plain(n: nat)
    ensures
        !decimal(n).contains('\n'),
        decimal(n).len() > 0,
    decreases n,
{
    let d = decimal(n);
    if n >= 10 {
        lemma_decimal_plain(n / 10);
        assert forall|i: int| 0 <= i < d.len() implies #[trigger] d[i] != '\n' by {
            if i < d.len() - 1 {
                assert(d[i] == decimal(n / 10)[i]);
                assert(decimal(n / 10).contains(decimal(n / 10)[i]));
            }
        }
    } else {
        assert forall|i: int| 0 <= i < d.len() implies #[trigger] d[i] != '\n' by {}
    }
}

proof fn lemma_response_literals()
    ensures
        commented("\n### Response ###\n#\n# Status Code: "@, false),
        !ends_line("\n### Response ###\n#\n# Status Code: "@, false),
        "\n### Response ###\n#\n# Status Code: "@.len() > 0,
        "\n### Response ###\n#\n# Status Code: "@[0] == '\n',
        !" "@.contains('\n'),
        !"<unknown status code>"@.contains('\n'),
        commented("\n# Response Headers:\n"@, false),
        ends_line("\n# Response Headers:\n"@, false),
        commented("#\n"@, true),
        ends_line("#\n"@, true),
        commented("# Body:\n# "@, true),
        !ends_line("# Body:\n# "@, true),
        commented("\n#\n"@, false),
        ends_line("\n#\n"@, false),
{
    lemma_heading_literal();
    lemma_plain_literals();
    lemma_section_literals();
}

proof fn lemma_heading_literal()
    ensures
        commented("\n### Response ###\n#\n# Status Code: "@, false),
        !ends_line("\n### Response ###\n#\n# Status Code: "@, false),
        "\n### Response ###\n#\n# Status Code: "@.len() > 0,
        "\n### Response ###\n#\n# Status Code: "@[0] == '\n',
{
    reveal_strlit("\n### Response ###\n#\n# Status Code: ");
}

proof fn lemma_plain_literals()
    ensures
        !" "@.contains('\n'),
        !"<unknown status code>"@.contains('\n'),
{
    reveal_strlit(" ");
    reveal_strlit("<unknown status code>");
    let sp = " "@;
    let un = "<unknown status code>"@;
    assert forall|i: int| 0 <= i < sp.len() implies #[trigger] sp[i] != '\n' by {}
    assert forall|i: int| 0 <= i < un.len() implies #[trigger] un[i] != '\n' by {}
}

proof fn lemma_section_literals()
    ensures
        commented("\n# Response Headers:\n"@, false),
        ends_line("\n# Response Headers:\n"@, false),
        commented("#\n"@, true),
        ends_line("#\n"@, true),
        commented("# Body:\n# "@, true),
        !ends_line("# Body:\n# "@, true),
        commented("\n#\n"@, false),
        ends_line("\n#\n"@, false),
{
    reveal_strlit("\n# Response Headers:\n");
    reveal_strlit("#\n");
    reveal_strlit("# Body:\n# ");
    reveal_strlit("\n#\n");
}

/// The response block is a comment for the `.http` file: it begins with a
/// line break, every line after it begins with `#`, and it ends with a
/// line break; so the editor never takes the response for part of a
/// request. It holds whenever the reason phrase holds no line break and
/// every header is well formed (as no status reason and no header name of
/// the HTTP library has a line break).
pub proof fn response_block_is_comment(
    status: u16,
    reason: Option<Seq<char>>,
    headers: Seq<HeaderField>,
    body: Seq<char>,
    pretty: Option<Seq<char>>,
)
    requires
        reason matches Some(r) ==> !r.contains('\n'),
        forall|i: int| 0 <= i < headers.len() ==> (#[trigger] headers[i]).well_formed(),
    ensures
        ({
            let t = response_text(status, reason, headers, body, pretty);
            &&& t.len() > 0
            &&& t[0] == '\n'
            &&& commented(t, false)
            &&& t.last() == '\n'
        }),
{
    lemma_response_literals();
    let l1 = "\n### Response ###\n#\n# Status Code: "@;
    let dec = decimal(status as nat);
    let sp = " "@;
    let rs = reason_text(reason);
    let l2 = "\n# Response Headers:\n"@;
    let rhl = response_header_lines(headers);
    let l3 = "#\n"@;
    lemma_decimal_plain(status as nat);
    lemma_plain_commented(dec, false);
    lemma_plain_commented(sp, false);
    lemma_plain_commented(rs, false);
    lemma_response_header_lines_commented(headers);
    lemma_commented_concat(l1, dec, false);
    lemma_commented_concat(l1 + dec, sp, false);
    lemma_commented_concat(l1 + dec + sp, rs, false);
    lemma_commented_concat(l1 + dec + sp + rs, l2, false);
    lemma_commented_concat(l1 + dec + sp + rs + l2, rhl, false);
    lemma_commented_concat(l1 + dec + sp + rs + l2 + rhl, l3, false);
    let head = l1 + dec + sp + rs + l2 + rhl + l3;
    assert(head[0] == l1[0]);
    if body.len() == 0 {
        assert(head + seq![] =~= head);
    } else {
        let l4 = "# Body:\n# "@;
        let cc = comment_continuation(shown_body(body, pretty));
        let l5 = "\n#\n"@;
        lemma_comment_continuation_commented(shown_body(body, pretty));
        lemma_commented_concat(l4, cc, true);
        lemma_commented_concat(l4 + cc, l5, true);
        lemma_commented_concat(head, l4 + cc + l5, false);
        assert((head + (l4 + cc + l5))[0] == head[0]);
    }
}

/// Every logged entry opens with the `###` separator on a line of its own,
/// so that each entry is a request of its own in the `.http` file, and its
/// whole request line `method uri` follows after one empty line. The entry
/// is the request block followed by the response block, each as its own
/// rendering (`log_request`, `log_response`) gives it.
pub proof fn entry_opens_with_separator(entry: LogEntry)
    ensures
        entry_text(entry).take(7 + entry.request.method@.len() as int) =~= "\n###\n\n"@
            + entry.request.method@ + " "@,
        ({
            let line = "\n###\n\n"@ + entry.request.method@ + " "@ + entry.request.uri@ + "\n"@;
            entry_text(entry).take(line.len() as int) == line
        }),
        ({
            let request_body = decode_utf8(entry.request.body@);
            let response_body = decode_utf8(entry.response.body@);
            entry_text(entry) == request_text(
                entry.request.method@,
                entry.request.uri@,
                entry.request.headers@,
                request_body,
                json_pretty(request_body),
            ) + response_text(
                entry.response.status,
                canonical_reason(entry.response.status),
                entry.response.headers@,
                response_body,
                json_pretty(response_body),
            )
        }),
{
    reveal_strlit("\n###\n\n");
    reveal_strlit(" ");
    let prefix = "\n###\n\n"@ + entry.request.method@ + " "@;
    let t = entry_text(entry);
    assert(prefix.len() == 7 + entry.request.method@.len());
    assert forall|i: int| 0 <= i < prefix.len() implies #[trigger] t[i] == prefix[i] by {}
    let request_body = decode_utf8(entry.request.body@);
    let rt = request_text(
        entry.request.method@,
        entry.request.uri@,
        entry.request.headers@,
        request_body,
        json_pretty(request_body),
    );
    request_block_layout(
        entry.request.method@,
        entry.request.uri@,
        entry.request.headers@,
        request_body,
        json_pretty(request_body),
    );
    let line = "\n###\n\n"@ + entry.request.method@ + " "@ + entry.request.uri@ + "\n"@;
    assert(rt.take(line.len() as int) == line);
    assert forall|i: int| 0 <= i < line.len() implies #[trigger] t[i] == line[i] by {
        assert(t[i] == rt[i]);
        assert(rt.take(line.len() as int)[i] == rt[i]);
    }
    assert(t.take(line.len() as int) =~= line);
}

/// A header value is shown as its own bytes, one character per byte, when
/// every byte is visible ASCII or a tab (those `http`'s `to_str` accepts),
/// and as the marker `<invalid UTF-8>` exactly otherwise.
pub proof fn header_value_shown_verbatim_or_marked(value: Seq<u8>)
    ensures
        (forall|i: int| 0 <= i < value.len() ==> (32 <= #[trigger] value[i] < 127 || value[i] == 9))
            ==> value_display(value).len() == value.len() && forall|i: int|
            0 <= i < value.len() ==> #[trigger] value_display(value)[i] as int == value[i] as int,
        !(forall|i: int| 0 <= i < value.len() ==> (32 <= #[trigger] value[i] < 127 || value[i] == 9))
            ==> value_display(value) == "<invalid UTF-8>"@,
{
    if forall|i: int| 0 <= i < value.len() ==> (32 <= #[trigger] value[i] < 127 || value[i] == 9) {
        assert(all_visible_ascii(value));
        let t = value_display(value);
        assert forall|i: int| 0 <= i < value.len() implies #[trigger] t[i] as int == value[i] as int by {
            assert(t[i] == value[i] as char);
        }
    } else {
        let j = choose|j: int| 0 <= j < value.len() && !(32 <= #[trigger] value[j] < 127 || value[j] == 9);
        assert(!visible_ascii(value[j]));
        assert(!all_visible_ascii(value));
    }
}

/// The header lines of a request list every header once, in order: the
/// lines of the first `i + 1` headers are those of the first `i`, then
/// `name: value` for header `i`.
pub proof fn request_headers_listed_in_order(headers: Seq<HeaderField>, i: int)
    requires
        0 <= i < headers.len(),
    ensures
        request_header_lines(headers.take(0)) == Seq::<char>::empty(),
        request_header_lines(headers.take(i + 1)) == request_header_lines(headers.take(i))
            + headers[i].name@ + ": "@ + value_display(headers[i].value@) + "\n"@,
        request_header_lines(headers.take(headers.len() as int)) == request_header_lines(headers),
{
    assert(headers.take(0).len() == 0);
    assert(headers.take(i + 1).drop_last() =~= headers.take(i));
    assert(headers.take(i + 1).last() == headers[i]);
    assert(headers.take(headers.len() as int) =~= headers);
}

/// The header lines of a response list every header once, in order: the
/// lines of the first `i + 1` headers are those of the first `i`, then
/// `#   name: value` for header `i`.
pub proof fn response_headers_listed_in_order(headers: Seq<HeaderField>, i: int)
    requires
        0 <= i < headers.len(),
    ensures
        response_header_lines(headers.take(0)) == Seq::<char>::empty(),
        response_header_lines(headers.take(i + 1)) == response_header_lines(headers.take(i)) + "#   "@
            + headers[i].name@ + ": "@ + value_display(headers[i].value@) + "\n"@,
        response_header_lines(headers.take(headers.len() as int)) == response_header_lines(headers),
{
    assert(headers.take(0).len() == 0);
    assert(headers.take(i + 1).drop_last() =~= headers.take(i));
    assert(headers.take(i + 1).last() == headers[i]);
    assert(headers.take(headers.len() as int) =~= headers);
}

/// A request block is the separator, the whole request line `method uri`
/// (the target exactly as given), the header lines, and, for a non-empty
/// body, an empty line and the body: its pretty form where it has one,
/// else the body itself.
pub proof fn request_block_layout(
    method: Seq<char>,
    uri: Seq<char>,
    headers: Seq<HeaderField>,
    body: Seq<char>,
    pretty: Option<Seq<char>>,
)
    ensures
        ({
            let t = request_text(method, uri, headers, body, pretty);
            let line = "\n###\n\n"@ + method + " "@ + uri + "\n"@;
            let lines = line + request_header_lines(headers);
            let shown = match pretty {
                Some(p) => p,
                None => body,
            };
            &&& t.take(line.len() as int) == line
            &&& t.take(lines.len() as int) == lines
            &&& body.len() == 0 ==> t == lines
            &&& body.len() > 0 ==> t == lines + "\n"@ + shown + "\n"@
        }),
{
    let t = request_text(method, uri, headers, body, pretty);
    let line = "\n###\n\n"@ + method + " "@ + uri + "\n"@;
    let lines = line + request_header_lines(headers);
    if body.len() == 0 {
        assert(t =~= lines);
    } else {
        let shown = match pretty {
            Some(p) => p,
            None => body,
        };
        assert(t =~= lines + "\n"@ + shown + "\n"@);
    }
    assert(t.take(lines.len() as int) =~= lines);
    assert(t.take(line.len() as int) =~= line);
}

/// A response block is the heading with the status line `code reason`
/// (the reason phrase, or `<unknown status code>` where there is none), the
/// header lines, a closing `#` line, and, for a non-empty body, the body
/// commented out: its pretty form where it has one, else the body itself.
pub proof fn response_block_layout(
    status: u16,
    reason: Option<Seq<char>>,
    headers: Seq<HeaderField>,
    body: Seq<char>,
    pretty: Option<Seq<char>>,
)
    ensures
        ({
            let t = response_text(status, reason, headers, body, pretty);
            let shown_reason = match reason {
                Some(r) => r,
                None => "<unknown status code>"@,
            };
            let head = "\n### Response ###\n#\n# Status Code: "@ + decimal(status as nat) + " "@
                + shown_reason + "\n# Response Headers:\n"@;
            let lines = head + response_header_lines(headers) + "#\n"@;
            let shown = match pretty {
                Some(p) => p,
                None => body,
            };
            &&& t.take(head.len() as int) == head
            &&& body.len() == 0 ==> t == lines
            &&& body.len() > 0 ==> t == lines + "# Body:\n# "@ + comment_continuation(shown) + "\n#\n"@
        }),
{
    let t = response_text(status, reason, headers, body, pretty);
    let shown_reason = match reason {
        Some(r) => r,
        None => "<unknown status code>"@,
    };
    let head = "\n### Response ###\n#\n# Status Code: "@ + decimal(status as nat) + " "@ + shown_reason
        + "\n# Response Headers:\n"@;
    let lines = head + response_header_lines(headers) + "#\n"@;
    assert(reason_text(reason) == shown_reason);
    if body.len() == 0 {
        assert(t =~= lines);
    } else {
        let shown = match pretty {
            Some(p) => p,
            None => body,
        };
        assert(t =~= lines + "# Body:\n# "@ + comment_continuation(shown) + "\n#\n"@);
    }
    assert(t.take(head.len() as int) =~= head);
}

} // verus!
