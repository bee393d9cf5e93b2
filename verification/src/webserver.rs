//! HTTP front end:
//!   * `GET /` is the dashboard,
//!   * `GET /api/status` gives relay and safety state,
//!   * `POST /api/relay/N` switches relay `N`, with a body `{"state":0|1}`
//!     (`/api/relay/N/set` does the same),
//!   * `POST /api/ota` uploads a firmware image, whose length and CRC-32 are in
//!     the fields `Content-Length` and `X-Ota-Crc32`.

use vstd::prelude::*;
use vstd::slice::slice_subrange;
use vstd::string::StringSliceAdditionalSpecFns;
use vstd::utf8::{encode_utf8, is_ascii_chars_encode_utf8, valid_utf8};

use crate::format::{
    byte_len, decimal, decimal_text, joined, law_decimal_reads_back, lemma_decimal_ascii,
    lemma_decimal_len, lemma_decimal_reads, lemma_joined_len, texts, total_len, write_pieces,
    written,
};
use crate::http::{
    field_line, field_number, head_len, header_number, headers_end, is_field, is_utf8,
    law_field_names_ignore_case, law_field_value_is_read_whole,
    law_head_ends_at_the_first_empty_line, law_last_field_counts, law_message_comes_apart,
    law_no_field_without_a_colon, law_request_line_comes_apart, lines, message, method_of,
    next_line, path_of, request_line, request_target, same_letter, single,
};
use crate::ota_upload::{verdict_text, Verdict};
use crate::relays::RelayCommand;
use crate::shared::Shared;
use crate::text::{
    begins_with, bytes_eq, contains, ends_with, is_digit, law_prefixes_are_stripped, occurs,
    occurs_at, parse_u8, strip_prefix, strip_suffix, trim_start_matches, unsigned,
    without_prefixes,
};

verus! {

/// Port of the server.
pub const HTTP_PORT: u16 = 80;

/// Time after which a silent client is dropped, in milliseconds.
pub const CLIENT_TIMEOUT_MS: u64 = 15_000;

/// What a request asks for.
#[derive(Debug, Clone, Copy, PartialEq, Eq, Structural)]
pub enum Route {
    Dashboard,
    Status,
    /// An image of `size` bytes follows. Its first bytes stand in the request
    /// from `body_at` on.
    Ota { size: u32, crc: u32, body_at: usize },
    /// The relay command to pass on, if the body gave one. The client is told
    /// that all is well either way.
    Relay { command: Option<RelayCommand> },
    /// Not served, and not answered.
    Silent,
}

/// The index in the path of a relay request.
pub open spec fn index_text(path: Seq<u8>) -> Seq<u8> {
    let suffix = without_prefixes(path, "/api/relay/".spec_bytes());
    if ends_with(suffix, "/set".spec_bytes()) {
        suffix.take(suffix.len() - "/set".spec_bytes().len())
    } else {
        suffix
    }
}

/// The level that the body of a relay request asks for.
pub open spec fn body_level(body: Seq<u8>) -> Option<bool> {
    if !valid_utf8(body) {
        None
    } else if occurs(body, "\"state\":1".spec_bytes()) {
        Some(true)
    } else if occurs(body, "\"state\":0".spec_bytes()) {
        Some(false)
    } else {
        None
    }
}

/// What a relay request comes to.
pub open spec fn relay_route(path: Seq<u8>, body: Seq<u8>) -> Route {
    match unsigned(index_text(path), 0xFF) {
        None => Route::Silent,
        Some(index) => Route::Relay {
            command: match body_level(body) {
                None => None,
                Some(on) => Some(RelayCommand::SetRelay { index: index as u8, on }),
            },
        },
    }
}

/// What a request comes to.
pub open spec fn route_of(request: Seq<u8>) -> Route {
    match head_len(request) {
        None => Route::Silent,
        Some(end) => {
            let head = request.take(end);
            let method = method_of(lines(head)[0]);
            let path = path_of(lines(head)[0]);
            let headers = lines(head).drop_first();
            if !valid_utf8(head) {
                Route::Silent
            } else if method == "GET".spec_bytes() && path == "/".spec_bytes() {
                Route::Dashboard
            } else if method == "GET".spec_bytes() && path == "/api/status".spec_bytes() {
                Route::Status
            } else if method == "POST".spec_bytes() && path == "/api/ota".spec_bytes() {
                Route::Ota {
                    size: field_number(headers, "content-length".spec_bytes()),
                    crc: field_number(headers, "x-ota-crc32".spec_bytes()),
                    body_at: end as usize,
                }
            } else if method == "POST".spec_bytes() && begins_with(
                path,
                "/api/relay/".spec_bytes(),
            ) {
                relay_route(path, request.skip(end))
            } else {
                Route::Silent
            }
        },
    }
}

/// What the first segment of a request asks for. The head must be complete in
/// it and be text; the body may be anything.
pub fn dispatch(request: &[u8]) -> (route: Route)
    ensures
        route == route_of(request@),
{
    let head_end: usize = match headers_end(request) {
        None => {
            return Route::Silent;
        },
        Some(end) => end,
    };
    let head: &[u8] = slice_subrange(request, 0, head_end);
    assert(head@ =~= request@.take(head_end as int));
    if !is_utf8(head) {
        return Route::Silent;
    }
    let (line, _) = next_line(head);
    assert(lines(head@)[0] == line@);
    let (method, path) = request_target(line);
    if bytes_eq(method, "GET".as_bytes()) {
        if bytes_eq(path, "/".as_bytes()) {
            return Route::Dashboard;
        }
        if bytes_eq(path, "/api/status".as_bytes()) {
            return Route::Status;
        }
    }
    if bytes_eq(method, "POST".as_bytes()) {
        if bytes_eq(path, "/api/ota".as_bytes()) {
            let size: u32 = header_number(head, "content-length".as_bytes());
            let crc: u32 = header_number(head, "x-ota-crc32".as_bytes());
            return Route::Ota { size, crc, body_at: head_end };
        }
        if strip_prefix(path, "/api/relay/".as_bytes()).is_some() {
            let body: &[u8] = slice_subrange(request, head_end, request.len());
            assert(body@ =~= request@.skip(head_end as int));
            return handle_relay(path, body);
        }
    }
    Route::Silent
}

/// What a relay request with this path and body comes to.
pub fn handle_relay(path: &[u8], body: &[u8]) -> (route: Route)
    ensures
        route == relay_route(path@, body@),
{
    proof {
        reveal_strlit("/api/relay/");
        is_ascii_chars_encode_utf8("/api/relay/"@);
    }
    let suffix: &[u8] = trim_start_matches(path, "/api/relay/".as_bytes());
    let index: &[u8] = match strip_suffix(suffix, "/set".as_bytes()) {
        Some(shorter) => shorter,
        None => suffix,
    };
    let index: u8 = match parse_u8(index) {
        None => {
            return Route::Silent;
        },
        Some(index) => index,
    };
    if !is_utf8(body) {
        return Route::Relay { command: None };
    }
    if contains(body, "\"state\":1".as_bytes()) {
        return Route::Relay { command: Some(RelayCommand::SetRelay { index, on: true }) };
    }
    if contains(body, "\"state\":0".as_bytes()) {
        return Route::Relay { command: Some(RelayCommand::SetRelay { index, on: false }) };
    }
    Route::Relay { command: None }
}

/// Head and body of a response.
pub struct Response {
    pub head: String,
    pub body: String,
}

/// The head of a response to the dashboard request.
pub open spec fn html_head_text(len: nat) -> Seq<char> {
    joined(
        seq![
            "HTTP/1.1 200 OK\r\nContent-Type: text/html; charset=utf-8\r\nContent-Length: "@,
            decimal_text(len),
            "\r\nConnection: close\r\n\r\n"@,
        ],
    )
}

/// Head of the response that carries the dashboard, a page of `len` bytes.
pub fn html_head(len: u32) -> (head: String)
    ensures
        head@ == html_head_text(len as nat),
{
    let number: String = decimal(len);
    let parts: [&str; 3] = [
        "HTTP/1.1 200 OK\r\nContent-Type: text/html; charset=utf-8\r\nContent-Length: ",
        number.as_str(),
        "\r\nConnection: close\r\n\r\n",
    ];
    let ghost pieces = texts(parts@);
    proof {
        reveal_strlit(
            "HTTP/1.1 200 OK\r\nContent-Type: text/html; charset=utf-8\r\nContent-Length: ",
        );
        reveal_strlit("\r\nConnection: close\r\n\r\n");
        is_ascii_chars_encode_utf8(parts[0]@);
        is_ascii_chars_encode_utf8(parts[2]@);
        lemma_decimal_ascii(len as nat);
        lemma_decimal_len(len as nat);
        lemma_joined_len(pieces);
        reveal_with_fuel(total_len, 4);
        assert(pieces =~= seq![parts[0]@, number@, parts[2]@]);
    }
    write_pieces::<160>(parts.as_slice()).text
}

/// The JSON text of a truth value.
pub open spec fn bool_text(value: bool) -> Seq<char> {
    if value {
        "true"@
    } else {
        "false"@
    }
}

fn json_bool(value: bool) -> (text: &'static str)
    ensures
        text@ == bool_text(value),
        text@.len() <= 5,
        byte_len(text@) <= 5,
{
    proof {
        reveal_strlit("true");
        reveal_strlit("false");
        is_ascii_chars_encode_utf8("true"@);
        is_ascii_chars_encode_utf8("false"@);
    }
    if value {
        "true"
    } else {
        "false"
    }
}

/// Length of a text in bytes, in decimal.
fn length_text(text: &String) -> (length: String)
    requires
        byte_len(text@) <= 0xFFFF_FFFF,
    ensures
        length@ == decimal_text(byte_len(text@)),
{
    let len: usize = text.as_str().as_bytes().len();
    decimal(len as u32)
}

/// The body of a status response.
pub open spec fn status_body(on_mask: u8, locked: bool) -> Seq<char> {
    joined(
        seq![
            "{\"mask\":"@,
            decimal_text(on_mask as nat),
            ",\"locked\":"@,
            bool_text(locked),
            "}"@,
        ],
    )
}

/// The head of a status response with a body of `len` bytes.
pub open spec fn status_head(len: nat) -> Seq<char> {
    joined(
        seq![
            "HTTP/1.1 200 OK\r\nContent-Type: application/json\r\nContent-Length: "@,
            decimal_text(len),
            "\r\nConnection: close\r\n\r\n"@,
        ],
    )
}

/// `response` tells the relays and the interlock.
pub open spec fn answers_status(shared: Shared, response: Response) -> bool {
    &&& response.body@ == status_body(shared.on_mask, shared.locked)
    &&& response.head@ == status_head(byte_len(response.body@))
}

/// The response to a status request.
pub fn status_response(shared: &Shared) -> (response: Response)
    ensures
        response.body@ == status_body(shared.on_mask, shared.locked),
        response.head@ == status_head(byte_len(response.body@)),
        answers_status(*shared, response),
{
    let mask: String = decimal(shared.on_mask as u32);
    let locked: &'static str = json_bool(shared.locked);
    let parts: [&str; 5] = ["{\"mask\":", mask.as_str(), ",\"locked\":", locked, "}"];
    let ghost pieces = texts(parts@);
    proof {
        reveal_strlit("{\"mask\":");
        reveal_strlit(",\"locked\":");
        reveal_strlit("}");
        is_ascii_chars_encode_utf8(parts[0]@);
        is_ascii_chars_encode_utf8(parts[2]@);
        is_ascii_chars_encode_utf8(parts[4]@);
        lemma_decimal_ascii(shared.on_mask as nat);
        lemma_decimal_len(shared.on_mask as nat);
        lemma_joined_len(pieces);
        reveal_with_fuel(total_len, 6);
        assert(pieces =~= seq![parts[0]@, mask@, parts[2]@, locked@, parts[4]@]);
    }
    let body: String = write_pieces::<256>(parts.as_slice()).text;
    let number: String = length_text(&body);
    let parts: [&str; 3] = [
        "HTTP/1.1 200 OK\r\nContent-Type: application/json\r\nContent-Length: ",
        number.as_str(),
        "\r\nConnection: close\r\n\r\n",
    ];
    let ghost pieces = texts(parts@);
    proof {
        reveal_strlit("HTTP/1.1 200 OK\r\nContent-Type: application/json\r\nContent-Length: ");
        reveal_strlit("\r\nConnection: close\r\n\r\n");
        is_ascii_chars_encode_utf8(parts[0]@);
        is_ascii_chars_encode_utf8(parts[2]@);
        lemma_decimal_ascii(byte_len(body@));
        lemma_decimal_len(byte_len(body@));
        lemma_joined_len(pieces);
        reveal_with_fuel(total_len, 4);
        assert(pieces =~= seq![parts[0]@, number@, parts[2]@]);
    }
    let head: String = write_pieces::<128>(parts.as_slice()).text;
    Response { head, body }
}

/// The response to a relay request.
pub fn ok_response() -> (response: Response)
    ensures
        response.head@
            == "HTTP/1.1 200 OK\r\nContent-Type: application/json\r\nContent-Length: 2\r\nConnection: close\r\n\r\n"@,
        response.body@ == "{}"@,
{
    Response {
        head: "HTTP/1.1 200 OK\r\nContent-Type: application/json\r\nContent-Length: 2\r\nConnection: close\r\n\r\n".to_owned(),
        body: "{}".to_owned(),
    }
}

/// The pieces of the body that answers an upload.
pub open spec fn ota_body(ok: bool, msg: Seq<char>) -> Seq<Seq<char>> {
    seq!["{\"ok\":"@, bool_text(ok), ",\"msg\":\""@, msg, "\"}"@]
}

/// The head of the response to an upload, with a body of `len` bytes.
pub open spec fn ota_head(ok: bool, len: nat) -> Seq<char> {
    joined(
        seq![
            "HTTP/1.1 "@,
            if ok {
                "200 OK"@
            } else {
                "400 Bad Request"@
            },
            "\r\nContent-Type: application/json\r\nContent-Length: "@,
            decimal_text(len),
            "\r\nConnection: close\r\n\r\n"@,
        ],
    )
}

/// `response` tells how an upload ended.
pub open spec fn answers_upload(ok: bool, msg: Seq<char>, response: Response) -> bool {
    &&& written(ota_body(ok, msg), 128, response.body@)
    &&& response.head@ == ota_head(ok, byte_len(response.body@))
}

/// The response to an upload. A message that is too long for the body is left
/// out, with what follows it.
pub fn ota_response(ok: bool, msg: &str) -> (response: Response)
    ensures
        written(ota_body(ok, msg@), 128, response.body@),
        response.head@ == ota_head(ok, byte_len(response.body@)),
        answers_upload(ok, msg@, response),
{
    let flag: &'static str = json_bool(ok);
    let parts: [&str; 5] = ["{\"ok\":", flag, ",\"msg\":\"", msg, "\"}"];
    assert(texts(parts@) =~= ota_body(ok, msg@));
    let body: String = write_pieces::<128>(parts.as_slice()).text;
    let number: String = length_text(&body);
    let status: &'static str = if ok {
        "200 OK"
    } else {
        "400 Bad Request"
    };
    let parts: [&str; 5] = [
        "HTTP/1.1 ",
        status,
        "\r\nContent-Type: application/json\r\nContent-Length: ",
        number.as_str(),
        "\r\nConnection: close\r\n\r\n",
    ];
    let ghost pieces = texts(parts@);
    proof {
        reveal_strlit("HTTP/1.1 ");
        reveal_strlit("200 OK");
        reveal_strlit("400 Bad Request");
        reveal_strlit("\r\nContent-Type: application/json\r\nContent-Length: ");
        reveal_strlit("\r\nConnection: close\r\n\r\n");
        is_ascii_chars_encode_utf8(parts[0]@);
        is_ascii_chars_encode_utf8(parts[1]@);
        is_ascii_chars_encode_utf8(parts[2]@);
        is_ascii_chars_encode_utf8(parts[4]@);
        lemma_decimal_ascii(byte_len(body@));
        lemma_decimal_len(byte_len(body@));
        lemma_joined_len(pieces);
        reveal_with_fuel(total_len, 6);
        assert(pieces =~= seq![parts[0]@, status@, parts[2]@, number@, parts[4]@]);
    }
    let head: String = write_pieces::<160>(parts.as_slice()).text;
    Response { head, body }
}

/// Every message that answers an upload fits its response whole.
pub proof fn law_verdicts_fit(verdict: Verdict, ok: bool)
    requires
        verdict_text(verdict) is Some,
    ensures
        byte_len(joined(ota_body(ok, verdict_text(verdict).unwrap()))) <= 128,
{
    reveal_strlit("{\"ok\":");
    reveal_strlit("true");
    reveal_strlit("false");
    reveal_strlit(",\"msg\":\"");
    reveal_strlit("\"}");
    reveal_strlit("OK - rebooting into new firmware");
    reveal_strlit("missing Content-Length");
    reveal_strlit("short upload");
    reveal_strlit("no OTA partitions");
    reveal_strlit("image too big for slot");
    reveal_strlit("flash error");
    reveal_strlit("CRC mismatch");
    let pieces = ota_body(ok, verdict_text(verdict).unwrap());
    is_ascii_chars_encode_utf8(pieces[0]);
    is_ascii_chars_encode_utf8(pieces[1]);
    is_ascii_chars_encode_utf8(pieces[2]);
    is_ascii_chars_encode_utf8(pieces[3]);
    is_ascii_chars_encode_utf8(pieces[4]);
    lemma_joined_len(pieces);
    reveal_with_fuel(total_len, 6);
}

/// Pause after a connection could not be accepted, in milliseconds.
pub const ACCEPT_RETRY_MS: u64 = 200;

/// Time that the last segment gets to go out before the buffers are used again,
/// in milliseconds.
pub const DRAIN_MS: u64 = 50;

/// Time that the client gets to read the reply before the board reboots, in
/// milliseconds.
pub const REBOOT_DELAY_MS: u64 = 1_200;

/// Where the server is. It serves one connection at a time.
#[derive(Debug, Clone, Copy, PartialEq, Eq, Structural)]
pub enum ServerTask {
    Accept,
    AcceptRetry,
    Read,
    Serve,
    Close { reboot: bool },
    Drain { reboot: bool },
    Reboot,
}

/// What the server is to do.
#[derive(Debug, Clone, Copy, PartialEq, Eq, Structural)]
pub enum ServerAction {
    /// Take a new connection.
    Accept,
    /// Read the first segment of a request.
    Read,
    /// Dispatch the request, answer it and flush.
    Serve,
    Close,
    Wait { ms: u64 },
    Reboot,
}

/// What came of it.
#[derive(Debug, Clone, Copy, PartialEq, Eq, Structural)]
pub enum ServerEvent {
    Accepted { ok: bool },
    /// Bytes that came in; none if the read failed.
    Received { bytes: usize },
    /// The request was answered; `reboot` if it committed a new image.
    Served { reboot: bool },
    Closed,
    Waited,
}

impl ServerTask {
    pub fn new() -> (task: Self)
        ensures
            task == ServerTask::Accept,
    {
        ServerTask::Accept
    }

    pub open spec fn to_do(self) -> ServerAction {
        match self {
            ServerTask::Accept => ServerAction::Accept,
            ServerTask::AcceptRetry => ServerAction::Wait { ms: ACCEPT_RETRY_MS },
            ServerTask::Read => ServerAction::Read,
            ServerTask::Serve => ServerAction::Serve,
            ServerTask::Close { .. } => ServerAction::Close,
            ServerTask::Drain { reboot: true } => ServerAction::Wait { ms: REBOOT_DELAY_MS },
            ServerTask::Drain { reboot: false } => ServerAction::Wait { ms: DRAIN_MS },
            ServerTask::Reboot => ServerAction::Reboot,
        }
    }

    /// Where the server is after `event`. An event that does not belong to its
    /// action changes nothing.
    pub open spec fn next(self, event: ServerEvent) -> ServerTask {
        match (self, event) {
            (ServerTask::Accept, ServerEvent::Accepted { ok: true }) => ServerTask::Read,
            (ServerTask::Accept, ServerEvent::Accepted { ok: false }) => ServerTask::AcceptRetry,
            (ServerTask::AcceptRetry, ServerEvent::Waited) => ServerTask::Accept,
            (ServerTask::Read, ServerEvent::Received { bytes }) => if bytes > 0 {
                ServerTask::Serve
            } else {
                ServerTask::Close { reboot: false }
            },
            (ServerTask::Serve, ServerEvent::Served { reboot }) => ServerTask::Close { reboot },
            (ServerTask::Close { reboot }, ServerEvent::Closed) => ServerTask::Drain { reboot },
            (ServerTask::Drain { reboot: true }, ServerEvent::Waited) => ServerTask::Reboot,
            (ServerTask::Drain { reboot: false }, ServerEvent::Waited) => ServerTask::Accept,
            _ => self,
        }
    }

    /// What to do now.
    pub fn action(&self) -> (action: ServerAction)
        ensures
            action == self.to_do(),
    {
        match self {
            ServerTask::Accept => ServerAction::Accept,
            ServerTask::AcceptRetry => ServerAction::Wait { ms: ACCEPT_RETRY_MS },
            ServerTask::Read => ServerAction::Read,
            ServerTask::Serve => ServerAction::Serve,
            ServerTask::Close { .. } => ServerAction::Close,
            ServerTask::Drain { reboot: true } => ServerAction::Wait { ms: REBOOT_DELAY_MS },
            ServerTask::Drain { reboot: false } => ServerAction::Wait { ms: DRAIN_MS },
            ServerTask::Reboot => ServerAction::Reboot,
        }
    }

    /// Take in what came of the action.
    pub fn advance(&mut self, event: ServerEvent)
        ensures
            *final(self) == old(self).next(event),
    {
        let next = match (*self, event) {
            (ServerTask::Accept, ServerEvent::Accepted { ok: true }) => ServerTask::Read,
            (ServerTask::Accept, ServerEvent::Accepted { ok: false }) => ServerTask::AcceptRetry,
            (ServerTask::AcceptRetry, ServerEvent::Waited) => ServerTask::Accept,
            (ServerTask::Read, ServerEvent::Received { bytes }) => if bytes > 0 {
                ServerTask::Serve
            } else {
                ServerTask::Close { reboot: false }
            },
            (ServerTask::Serve, ServerEvent::Served { reboot }) => ServerTask::Close { reboot },
            (ServerTask::Close { reboot }, ServerEvent::Closed) => ServerTask::Drain { reboot },
            (ServerTask::Drain { reboot: true }, ServerEvent::Waited) => ServerTask::Reboot,
            (ServerTask::Drain { reboot: false }, ServerEvent::Waited) => ServerTask::Accept,
            (same, _) => same,
        };
        *self = next;
    }
}

/// The states that lie between a committed image and the reboot.
pub open spec fn heads_for_reboot(task: ServerTask) -> bool {
    match task {
        ServerTask::Close { reboot } => reboot,
        ServerTask::Drain { reboot } => reboot,
        ServerTask::Reboot => true,
        _ => false,
    }
}

/// The board reboots only after an image was committed: nothing else leads
/// there, and nothing leads away once it was.
pub proof fn law_reboot_needs_a_commit(task: ServerTask, event: ServerEvent)
    ensures
        heads_for_reboot(task.next(event)) <==> {
            ||| heads_for_reboot(task)
            ||| task == ServerTask::Serve && event == (ServerEvent::Served { reboot: true })
        },
{
}

/// Every connection that was taken is closed, and then the next one is
/// accepted.
pub proof fn law_connections_are_closed(bytes: usize)
    ensures
        ({
            let read = ServerTask::Accept.next(ServerEvent::Accepted { ok: true });
            let served = if bytes > 0 {
                read.next(ServerEvent::Received { bytes }).next(
                    ServerEvent::Served { reboot: false },
                )
            } else {
                read.next(ServerEvent::Received { bytes })
            };
            &&& served.to_do() == ServerAction::Close
            &&& served.next(ServerEvent::Closed).next(ServerEvent::Waited) == ServerTask::Accept
        }),
{
}

/// The lines of a request.
pub open spec fn request_lines(
    method: Seq<u8>,
    path: Seq<u8>,
    version: Seq<u8>,
    fields: Seq<Seq<u8>>,
) -> Seq<Seq<u8>> {
    seq![request_line(method, path, version)] + fields
}

/// A request whose head is text, with a method and a path that hold no space.
pub open spec fn text_request(
    method: Seq<u8>,
    path: Seq<u8>,
    version: Seq<u8>,
    fields: Seq<Seq<u8>>,
) -> bool {
    &&& single(request_line(method, path, version))
    &&& !method.contains(0x20)
    &&& !path.contains(0x20)
    &&& forall|i: int| 0 <= i < fields.len() ==> single(#[trigger] fields[i])
    &&& valid_utf8(message(request_lines(method, path, version, fields), Seq::empty()))
}

/// What such a request comes to, from its parts.
proof fn lemma_request_comes_apart(
    method: Seq<u8>,
    path: Seq<u8>,
    version: Seq<u8>,
    fields: Seq<Seq<u8>>,
    body: Seq<u8>,
)
    requires
        text_request(method, path, version, fields),
    ensures
        ({
            let request = message(request_lines(method, path, version, fields), body);
            let end = request.len() - body.len();
            let head = request.take(end);
            &&& head_len(request) == Some(end)
            &&& valid_utf8(head)
            &&& method_of(lines(head)[0]) == method
            &&& path_of(lines(head)[0]) == path
            &&& lines(head).drop_first() == fields.push(Seq::empty())
            &&& request.skip(end) == body
        }),
{
    let list = request_lines(method, path, version, fields);
    let request = message(list, body);
    let head = request.take(request.len() - body.len());
    assert forall|i: int| 0 <= i < list.len() implies single(#[trigger] list[i]) by {
        if i > 0 {
            assert(list[i] == fields[i - 1]);
        }
    }
    law_message_comes_apart(list, body);
    law_request_line_comes_apart(method, path, version);
    assert(lines(head)[0] == list[0]);
    assert(lines(head).drop_first() =~= fields.push(Seq::empty()));
}

/// The words of the routes in bytes.
proof fn lemma_route_words()
    ensures
        "GET".spec_bytes() =~= seq![0x47u8, 0x45, 0x54],
        "POST".spec_bytes() =~= seq![0x50u8, 0x4F, 0x53, 0x54],
        "/".spec_bytes() =~= seq![0x2Fu8],
        "/api/status".spec_bytes() =~= seq![
            0x2Fu8,
            0x61,
            0x70,
            0x69,
            0x2F,
            0x73,
            0x74,
            0x61,
            0x74,
            0x75,
            0x73,
        ],
        "/api/ota".spec_bytes() =~= seq![0x2Fu8, 0x61, 0x70, 0x69, 0x2F, 0x6F, 0x74, 0x61],
        "/api/relay/".spec_bytes() =~= seq![
            0x2Fu8,
            0x61,
            0x70,
            0x69,
            0x2F,
            0x72,
            0x65,
            0x6C,
            0x61,
            0x79,
            0x2F,
        ],
        "/set".spec_bytes() =~= seq![0x2Fu8, 0x73, 0x65, 0x74],
{
    reveal_strlit("GET");
    reveal_strlit("POST");
    reveal_strlit("/");
    reveal_strlit("/api/status");
    reveal_strlit("/api/ota");
    reveal_strlit("/api/relay/");
    reveal_strlit("/set");
    is_ascii_chars_encode_utf8("GET"@);
    is_ascii_chars_encode_utf8("POST"@);
    is_ascii_chars_encode_utf8("/"@);
    is_ascii_chars_encode_utf8("/api/status"@);
    is_ascii_chars_encode_utf8("/api/ota"@);
    is_ascii_chars_encode_utf8("/api/relay/"@);
    is_ascii_chars_encode_utf8("/set"@);
}

/// `GET /` is the dashboard and `GET /api/status` the state, whatever header
/// lines and body the request has.
pub proof fn law_get_requests(version: Seq<u8>, fields: Seq<Seq<u8>>, body: Seq<u8>)
    ensures
        ({
            let get = "GET".spec_bytes();
            let page = "/".spec_bytes();
            let status = "/api/status".spec_bytes();
            &&& text_request(get, page, version, fields) ==> route_of(
                message(request_lines(get, page, version, fields), body),
            ) == Route::Dashboard
            &&& text_request(get, status, version, fields) ==> route_of(
                message(request_lines(get, status, version, fields), body),
            ) == Route::Status
        }),
{
    let get = "GET".spec_bytes();
    let page = "/".spec_bytes();
    let status = "/api/status".spec_bytes();
    lemma_route_words();
    assert(page.len() != status.len());
    if text_request(get, page, version, fields) {
        lemma_request_comes_apart(get, page, version, fields, body);
    }
    if text_request(get, status, version, fields) {
        lemma_request_comes_apart(get, status, version, fields, body);
    }
}

/// A request with any other method and path is not answered.
pub proof fn law_other_requests_are_silent(
    method: Seq<u8>,
    path: Seq<u8>,
    version: Seq<u8>,
    fields: Seq<Seq<u8>>,
    body: Seq<u8>,
)
    requires
        text_request(method, path, version, fields),
        method == "GET".spec_bytes() ==> path != "/".spec_bytes() && path
            != "/api/status".spec_bytes(),
        method == "POST".spec_bytes() ==> path != "/api/ota".spec_bytes() && !(path.len() >= 11
            && path.take(11) == "/api/relay/".spec_bytes()),
    ensures
        route_of(message(request_lines(method, path, version, fields), body)) == Route::Silent,
{
    lemma_route_words();
    lemma_request_comes_apart(method, path, version, fields, body);
}

/// A request whose head is not complete, or is not text, is not answered.
pub proof fn law_broken_heads_are_silent(request: Seq<u8>)
    ensures
        !occurs(request, seq![0x0Du8, 0x0A, 0x0D, 0x0A]) ==> route_of(request) == Route::Silent,
        head_len(request) matches Some(end) && !valid_utf8(request.take(end)) ==> route_of(request)
            == Route::Silent,
{
    law_head_ends_at_the_first_empty_line(request);
    assert(crate::http::HEAD_END@ =~= seq![0x0Du8, 0x0A, 0x0D, 0x0A]);
    if let Some(end) = head_len(request) {
        assert(occurs_at(request, seq![0x0Du8, 0x0A, 0x0D, 0x0A], end - 4));
    }
}

/// `name` is `word`, in whatever case.
pub open spec fn names(name: Seq<u8>, word: Seq<u8>) -> bool {
    name.len() == word.len() && forall|i: int|
        0 <= i < name.len() ==> same_letter(#[trigger] name[i], word[i])
}

/// Header line `at` gives `number` for the field `word`, and no later one gives
/// that field.
pub open spec fn gives(
    fields: Seq<Seq<u8>>,
    at: int,
    name: Seq<u8>,
    word: Seq<u8>,
    number: u32,
) -> bool {
    &&& 0 <= at < fields.len()
    &&& names(name, word)
    &&& fields[at] == field_line(name, encode_utf8(decimal_text(number as nat)))
    &&& forall|i: int| at < i < fields.len() ==> !is_field(#[trigger] fields[i], word)
}

/// A word of letters, digits and hyphens.
spec fn is_word(word: Seq<u8>) -> bool {
    word.len() > 0 && forall|i: int|
        0 <= i < word.len() ==> {
            let byte = #[trigger] word[i];
            byte == 0x2D || 0x30 <= byte <= 0x39 || 0x61 <= byte <= 0x7A
        }
}

proof fn lemma_field_words()
    ensures
        is_word("content-length".spec_bytes()),
        is_word("x-ota-crc32".spec_bytes()),
{
    reveal_strlit("content-length");
    reveal_strlit("x-ota-crc32");
    is_ascii_chars_encode_utf8("content-length"@);
    is_ascii_chars_encode_utf8("x-ota-crc32"@);
    let length = "content-length".spec_bytes();
    let sum = "x-ota-crc32".spec_bytes();
    assert forall|i: int| 0 <= i < length.len() implies {
        let byte = #[trigger] length[i];
        byte == 0x2D || 0x30 <= byte <= 0x39 || 0x61 <= byte <= 0x7A
    } by {
        assert("content-length"@[i] as u8 == length[i]);
    }
    assert forall|i: int| 0 <= i < sum.len() implies {
        let byte = #[trigger] sum[i];
        byte == 0x2D || 0x30 <= byte <= 0x39 || 0x61 <= byte <= 0x7A
    } by {
        assert("x-ota-crc32"@[i] as u8 == sum[i]);
    }
}

proof fn lemma_given_number(
    fields: Seq<Seq<u8>>,
    at: int,
    name: Seq<u8>,
    word: Seq<u8>,
    number: u32,
)
    requires
        is_word(word),
        gives(fields, at, name, word, number),
    ensures
        field_number(fields.push(Seq::empty()), word) == number,
{
    let value = encode_utf8(decimal_text(number as nat));
    let headers = fields.push(Seq::empty());
    assert forall|i: int| 0 <= i < name.len() implies 0x21 <= #[trigger] name[i] <= 0x7E && name[i]
        != 0x3A by {
        let byte = word[i];
        assert(byte == 0x2D || 0x30 <= byte <= 0x39 || 0x61 <= byte <= 0x7A);
        assert(same_letter(name[i], word[i]));
    }
    lemma_decimal_reads(number as nat);
    law_decimal_reads_back(number as nat, 0xFFFF_FFFF);
    assert forall|i: int| 0 <= i < value.len() implies 0x21 <= #[trigger] value[i] <= 0x7E by {
        assert(is_digit(value[i]));
    }
    law_field_names_ignore_case(name, word, value);
    law_field_value_is_read_whole(name, value);
    law_no_field_without_a_colon(Seq::empty(), word);
    assert(headers[at] == fields[at]);
    assert forall|i: int| at < i < headers.len() implies !is_field(#[trigger] headers[i], word) by {
        if i < fields.len() {
            assert(headers[i] == fields[i]);
        }
    }
    law_last_field_counts(headers, word, at);
}

/// An upload announces its length and sum in decimal, up to the largest 32-bit
/// number, and both are read as they were announced: in whatever order and case
/// the two header lines come, whatever other lines stand around them, and
/// whatever body follows. The image starts right behind the head.
pub proof fn law_upload_announces_size_and_sum(
    version: Seq<u8>,
    fields: Seq<Seq<u8>>,
    body: Seq<u8>,
    size_at: int,
    size_name: Seq<u8>,
    size: u32,
    crc_at: int,
    crc_name: Seq<u8>,
    crc: u32,
)
    requires
        text_request("POST".spec_bytes(), "/api/ota".spec_bytes(), version, fields),
        gives(fields, size_at, size_name, "content-length".spec_bytes(), size),
        gives(fields, crc_at, crc_name, "x-ota-crc32".spec_bytes(), crc),
        message(
            request_lines("POST".spec_bytes(), "/api/ota".spec_bytes(), version, fields),
            body,
        ).len() <= usize::MAX,
    ensures
        ({
            let request = message(
                request_lines("POST".spec_bytes(), "/api/ota".spec_bytes(), version, fields),
                body,
            );
            route_of(request) matches Route::Ota { size: s, crc: c, body_at } && s == size && c
                == crc && body_at == request.len() - body.len() && request.skip(body_at as int)
                == body
        }),
{
    let post = "POST".spec_bytes();
    let ota = "/api/ota".spec_bytes();
    lemma_route_words();
    lemma_field_words();
    assert(post.len() != "GET".spec_bytes().len());
    lemma_request_comes_apart(post, ota, version, fields, body);
    lemma_given_number(fields, size_at, size_name, "content-length".spec_bytes(), size);
    lemma_given_number(fields, crc_at, crc_name, "x-ota-crc32".spec_bytes(), crc);
}

/// An upload that does not announce its length counts as one without bytes, and
/// one that does not announce its sum as one with the sum 0.
pub proof fn law_upload_without_announcement(
    version: Seq<u8>,
    fields: Seq<Seq<u8>>,
    body: Seq<u8>,
)
    requires
        text_request("POST".spec_bytes(), "/api/ota".spec_bytes(), version, fields),
    ensures
        ({
            let request = message(
                request_lines("POST".spec_bytes(), "/api/ota".spec_bytes(), version, fields),
                body,
            );
            &&& route_of(request) is Ota
            &&& (forall|i: int|
                0 <= i < fields.len() ==> !is_field(
                    #[trigger] fields[i],
                    "content-length".spec_bytes(),
                )) ==> route_of(request)->size == 0
            &&& (forall|i: int|
                0 <= i < fields.len() ==> !is_field(
                    #[trigger] fields[i],
                    "x-ota-crc32".spec_bytes(),
                )) ==> route_of(request)->crc == 0
        }),
{
    let post = "POST".spec_bytes();
    let ota = "/api/ota".spec_bytes();
    let length = "content-length".spec_bytes();
    let sum = "x-ota-crc32".spec_bytes();
    let headers = fields.push(Seq::empty());
    lemma_route_words();
    assert(post.len() != "GET".spec_bytes().len());
    lemma_request_comes_apart(post, ota, version, fields, body);
    law_no_field_without_a_colon(Seq::empty(), length);
    law_no_field_without_a_colon(Seq::empty(), sum);
    law_last_field_counts(headers, length, 0);
    law_last_field_counts(headers, sum, 0);
    if forall|i: int| 0 <= i < fields.len() ==> !is_field(#[trigger] fields[i], length) {
        assert forall|i: int| 0 <= i < headers.len() implies !is_field(
            #[trigger] headers[i],
            length,
        ) by {
            if i < fields.len() {
                assert(headers[i] == fields[i]);
            }
        }
    }
    if forall|i: int| 0 <= i < fields.len() ==> !is_field(#[trigger] fields[i], sum) {
        assert forall|i: int| 0 <= i < headers.len() implies !is_field(
            #[trigger] headers[i],
            sum,
        ) by {
            if i < fields.len() {
                assert(headers[i] == fields[i]);
            }
        }
    }
}

/// The path of a relay request, in the short form or with `/set` behind it.
pub open spec fn relay_path(index: u8, long: bool) -> Seq<u8> {
    let short = "/api/relay/".spec_bytes() + encode_utf8(decimal_text(index as nat));
    if long {
        short + "/set".spec_bytes()
    } else {
        short
    }
}

proof fn lemma_relay_path(index: u8, long: bool)
    ensures
        unsigned(index_text(relay_path(index, long)), 0xFF) == Some(index as nat),
        begins_with(relay_path(index, long), "/api/relay/".spec_bytes()),
        !relay_path(index, long).contains(0x20),
        forall|i: int|
            0 <= i < relay_path(index, long).len() ==> 0x21 <= #[trigger] relay_path(index, long)[i]
                <= 0x7E,
{
    let prefix = "/api/relay/".spec_bytes();
    let set = "/set".spec_bytes();
    let digits = encode_utf8(decimal_text(index as nat));
    let path = relay_path(index, long);
    lemma_route_words();
    lemma_decimal_reads(index as nat);
    law_decimal_reads_back(index as nat, 0xFF);
    assert(is_digit(digits[0]) && is_digit(digits[digits.len() - 1]));
    let suffix = if long {
        digits + set
    } else {
        digits
    };
    assert(path =~= prefix + suffix);
    assert(path.take(prefix.len() as int) =~= prefix);
    if begins_with(suffix, prefix) {
        assert(suffix.take(prefix.len() as int)[0] == prefix[0]);
        assert(suffix[0] == digits[0]);
    }
    law_prefixes_are_stripped(prefix, suffix);
    if long {
        assert(suffix.skip(suffix.len() - set.len()) =~= set);
        assert(suffix.take(suffix.len() - set.len()) =~= digits);
    } else if ends_with(suffix, set) {
        assert(suffix.skip(suffix.len() - set.len())[3] == set[3]);
        assert(suffix[suffix.len() - 1] == digits[digits.len() - 1]);
    }
    assert forall|i: int| 0 <= i < path.len() implies 0x21 <= #[trigger] path[i] <= 0x7E by {
        if i < prefix.len() {
            assert(path[i] == prefix[i]);
        } else if i < prefix.len() + digits.len() {
            assert(path[i] == digits[i - prefix.len()]);
            assert(is_digit(digits[i - prefix.len()]));
        } else {
            assert(path[i] == set[i - prefix.len() - digits.len()]);
        }
    }
}

/// A relay request switches the relay that its path names, all eight bits of
/// the number, in either form of the path. A body with `"state":1` in it
/// switches on, one with `"state":0` and not that switches off, and any other
/// switches nothing. Header lines do not matter.
pub proof fn law_relay_requests_switch_their_relay(
    index: u8,
    long: bool,
    version: Seq<u8>,
    fields: Seq<Seq<u8>>,
    body: Seq<u8>,
)
    requires
        text_request("POST".spec_bytes(), relay_path(index, long), version, fields),
    ensures
        ({
            let request = message(
                request_lines("POST".spec_bytes(), relay_path(index, long), version, fields),
                body,
            );
            let on = valid_utf8(body) && occurs(body, "\"state\":1".spec_bytes());
            let off = valid_utf8(body) && !on && occurs(body, "\"state\":0".spec_bytes());
            &&& on ==> route_of(request) == (Route::Relay {
                command: Some(RelayCommand::SetRelay { index, on: true }),
            })
            &&& off ==> route_of(request) == (Route::Relay {
                command: Some(RelayCommand::SetRelay { index, on: false }),
            })
            &&& !on && !off ==> route_of(request) == (Route::Relay { command: None })
        }),
{
    let post = "POST".spec_bytes();
    let path = relay_path(index, long);
    let prefix = "/api/relay/".spec_bytes();
    lemma_route_words();
    lemma_relay_path(index, long);
    lemma_request_comes_apart(post, path, version, fields, body);
    assert(post.len() != "GET".spec_bytes().len());
    if path == "/api/ota".spec_bytes() {
        assert(path.len() >= prefix.len());
    }
}

/// A path that names no number up to 255 is not answered.
pub proof fn law_relay_requests_need_a_number(path: Seq<u8>, body: Seq<u8>)
    ensures
        unsigned(index_text(path), 0xFF) is None <==> relay_route(path, body) == Route::Silent,
{
}

/// The text of a status response: the mask in decimal and whether the interlock
/// is engaged.
pub proof fn law_status_text(on_mask: u8, locked: bool)
    ensures
        status_body(on_mask, locked) == "{\"mask\":"@ + decimal_text(on_mask as nat)
            + ",\"locked\":"@ + (if locked {
            "true"@
        } else {
            "false"@
        }) + "}"@,
{
    reveal_with_fuel(joined, 6);
    let pieces = seq![
        "{\"mask\":"@,
        decimal_text(on_mask as nat),
        ",\"locked\":"@,
        bool_text(locked),
        "}"@,
    ];
    lemma_five_pieces(pieces);
}

proof fn lemma_three_pieces(pieces: Seq<Seq<char>>)
    requires
        pieces.len() == 3,
    ensures
        joined(pieces) == pieces[0] + pieces[1] + pieces[2],
{
    reveal_with_fuel(joined, 4);
    let two = pieces.drop_last();
    let one = two.drop_last();
    assert(one.drop_last() =~= Seq::empty());
    assert(joined(one) =~= pieces[0]);
    assert(joined(two) =~= pieces[0] + pieces[1]);
}

proof fn lemma_five_pieces(pieces: Seq<Seq<char>>)
    requires
        pieces.len() == 5,
    ensures
        joined(pieces) == pieces[0] + pieces[1] + pieces[2] + pieces[3] + pieces[4],
{
    reveal_with_fuel(joined, 3);
    let four = pieces.drop_last();
    let three = four.drop_last();
    lemma_three_pieces(three);
    assert(joined(four) =~= joined(three) + pieces[3]);
    assert(joined(pieces) =~= joined(four) + pieces[4]);
}

/// Every response announces the length of its body in decimal, and an upload is
/// answered with 200 exactly if it went well.
pub proof fn law_heads_announce_the_length(len: nat, ok: bool)
    ensures
        html_head_text(len)
            == "HTTP/1.1 200 OK\r\nContent-Type: text/html; charset=utf-8\r\nContent-Length: "@
            + decimal_text(len) + "\r\nConnection: close\r\n\r\n"@,
        status_head(len)
            == "HTTP/1.1 200 OK\r\nContent-Type: application/json\r\nContent-Length: "@
            + decimal_text(len) + "\r\nConnection: close\r\n\r\n"@,
        ota_head(ok, len) == "HTTP/1.1 "@ + (if ok {
            "200 OK"@
        } else {
            "400 Bad Request"@
        }) + "\r\nContent-Type: application/json\r\nContent-Length: "@ + decimal_text(len)
            + "\r\nConnection: close\r\n\r\n"@,
{
    lemma_three_pieces(
        seq![
            "HTTP/1.1 200 OK\r\nContent-Type: text/html; charset=utf-8\r\nContent-Length: "@,
            decimal_text(len),
            "\r\nConnection: close\r\n\r\n"@,
        ],
    );
    lemma_three_pieces(
        seq![
            "HTTP/1.1 200 OK\r\nContent-Type: application/json\r\nContent-Length: "@,
            decimal_text(len),
            "\r\nConnection: close\r\n\r\n"@,
        ],
    );
    lemma_five_pieces(
        seq![
            "HTTP/1.1 "@,
            if ok {
                "200 OK"@
            } else {
                "400 Bad Request"@
            },
            "\r\nContent-Type: application/json\r\nContent-Length: "@,
            decimal_text(len),
            "\r\nConnection: close\r\n\r\n"@,
        ],
    );
}

/// The body that answers an upload: whether it went well, and the message.
pub proof fn law_upload_answer_text(ok: bool, msg: Seq<char>)
    ensures
        joined(ota_body(ok, msg)) == "{\"ok\":"@ + (if ok {
            "true"@
        } else {
            "false"@
        }) + ",\"msg\":\""@ + msg + "\"}"@,
{
    lemma_five_pieces(ota_body(ok, msg));
}

/// The server waits 200 ms after a connection that could not be accepted, 50 ms
/// after one that was closed, and 1200 ms before it reboots.
pub proof fn law_server_pauses(reboot: bool)
    ensures
        ServerTask::Accept.to_do() == ServerAction::Accept,
        ServerTask::Accept.next(ServerEvent::Accepted { ok: false }).to_do() == (
        ServerAction::Wait { ms: 200 }),
        ServerTask::Accept.next(ServerEvent::Accepted { ok: false }).next(ServerEvent::Waited)
            == ServerTask::Accept,
        ServerTask::Accept.next(ServerEvent::Accepted { ok: true }).to_do() == ServerAction::Read,
        ServerTask::Serve.next(ServerEvent::Served { reboot }).to_do() == ServerAction::Close,
        ServerTask::Serve.next(ServerEvent::Served { reboot }).next(ServerEvent::Closed).to_do()
            == (ServerAction::Wait { ms: if reboot { 1_200u64 } else { 50u64 } }),
        ServerTask::Serve.next(ServerEvent::Served { reboot }).next(ServerEvent::Closed).next(
            ServerEvent::Waited,
        ).to_do() == (if reboot {
            ServerAction::Reboot
        } else {
            ServerAction::Accept
        }),
{
}

/// Whatever came in is served, however many bytes it is; nothing is not.
pub proof fn law_every_request_is_served(bytes: usize)
    ensures
        ServerTask::Read.next(ServerEvent::Received { bytes }).to_do() == (if bytes == 0 {
            ServerAction::Close
        } else {
            ServerAction::Serve
        }),
        !heads_for_reboot(ServerTask::Read.next(ServerEvent::Received { bytes })),
{
}

/// A status response tells the relays that are on and whether the interlock is
/// engaged, and announces the length of its body in bytes.
pub proof fn law_status_response(shared: Shared, response: Response)
    requires
        answers_status(shared, response),
    ensures
        response.body@ == "{\"mask\":"@ + decimal_text(shared.on_mask as nat) + ",\"locked\":"@ + (
        if shared.locked {
            "true"@
        } else {
            "false"@
        }) + "}"@,
        response.head@
            == "HTTP/1.1 200 OK\r\nContent-Type: application/json\r\nContent-Length: "@
            + decimal_text(encode_utf8(response.body@).len()) + "\r\nConnection: close\r\n\r\n"@,
{
    law_status_text(shared.on_mask, shared.locked);
    law_heads_announce_the_length(byte_len(response.body@), true);
}

/// The response to an upload tells whether it went well, in its status and in
/// its body, and announces the length of its body in bytes. A message that fits
/// is told whole.
pub proof fn law_upload_response(ok: bool, msg: Seq<char>, response: Response)
    requires
        answers_upload(ok, msg, response),
    ensures
        byte_len("{\"ok\":"@ + bool_text(ok) + ",\"msg\":\""@ + msg + "\"}"@) <= 128
            ==> response.body@ == "{\"ok\":"@ + (if ok {
            "true"@
        } else {
            "false"@
        }) + ",\"msg\":\""@ + msg + "\"}"@,
        response.head@ == "HTTP/1.1 "@ + (if ok {
            "200 OK"@
        } else {
            "400 Bad Request"@
        }) + "\r\nContent-Type: application/json\r\nContent-Length: "@ + decimal_text(
            encode_utf8(response.body@).len(),
        ) + "\r\nConnection: close\r\n\r\n"@,
{
    law_upload_answer_text(ok, msg);
    law_heads_announce_the_length(byte_len(response.body@), ok);
}

/// An event that answers something else changes nothing.
pub proof fn law_stray_events_change_nothing(task: ServerTask, event: ServerEvent)
    requires
        match event {
            ServerEvent::Accepted { .. } => task != ServerTask::Accept,
            ServerEvent::Received { .. } => task != ServerTask::Read,
            ServerEvent::Served { .. } => task != ServerTask::Serve,
            ServerEvent::Closed => !(task is Close),
            ServerEvent::Waited => task != ServerTask::AcceptRetry && !(task is Drain),
        },
    ensures
        task.next(event) == task,
{
}

/// The number of a relay request is what stands behind the last of the prefixes
/// in front of its path, without the `/set` at its end if there is one.
pub proof fn law_number_stands_behind_the_prefix(rest: Seq<u8>)
    ensures
        ({
            let prefix = "/api/relay/".spec_bytes();
            let set = "/set".spec_bytes();
            let path = prefix + rest;
            &&& begins_with(rest, prefix) ==> index_text(path) == index_text(rest)
            &&& !begins_with(rest, prefix) && !begins_with(rest + set, prefix) ==> index_text(
                path + set,
            ) == rest
            &&& !begins_with(rest, prefix) && !ends_with(rest, set) ==> index_text(path) == rest
        }),
{
    let prefix = "/api/relay/".spec_bytes();
    let set = "/set".spec_bytes();
    let path = prefix + rest;
    lemma_route_words();
    law_prefixes_are_stripped(prefix, rest);
    law_prefixes_are_stripped(prefix, rest + set);
    assert(path + set =~= prefix + (rest + set));
    assert((rest + set).skip(rest.len() as int) =~= set);
    assert((rest + set).take(rest.len() as int) =~= rest);
}

} // verus!
