//! What the daemon and its clients say to each other, and how messages are framed.

use vstd::prelude::*;

use crate::numeral::{decimal, numeral};

verus! {

/// The version of the protocol.
pub const PROTOCOL_VERSION: u16 = 1;

/// The byte that ends a message.
pub const LINE_END: u8 = 10;

/// What a client asks of the daemon.
#[derive(Debug, Clone, PartialEq, Eq)]
pub enum IpcCommand {
    State,
    ReloadConfig,
    SubscribeState,
    Command { command: String },
}

/// A request, with the version of the protocol that it follows.
#[derive(Debug, Clone, PartialEq, Eq)]
pub struct IpcRequest {
    pub protocol_version: u16,
    pub command: IpcCommand,
}

/// How a window takes part in the layout.
#[derive(Debug, Clone, Copy, PartialEq, Eq, Structural)]
pub enum WindowParticipationSnapshot {
    Tiled,
    Floating,
    TemporarilyFloating,
    OverflowFloating,
}

/// What the daemon says of a window.
#[derive(Debug, Clone, PartialEq, Eq)]
pub struct WindowStateSnapshot {
    pub handle: u64,
    pub title: String,
    pub monitor_id: Option<u64>,
    pub workspace_id: Option<u16>,
    pub focused: bool,
    pub is_minimized: bool,
    pub participation: WindowParticipationSnapshot,
    pub constrained: bool,
    pub visible_on_active_workspace: bool,
}

/// What the daemon says of a monitor.
#[derive(Debug, Clone, Copy, PartialEq, Eq, Structural)]
pub struct MonitorStateSnapshot {
    pub monitor_id: u64,
    pub workspace_id: u16,
    pub focused: bool,
}

/// What the daemon says of its own work.
#[derive(Debug, Clone, Copy, PartialEq, Eq, Structural)]
pub struct DaemonPerformanceSnapshot {
    pub relayout_count: u64,
    pub skipped_relayout_count: u64,
    pub last_relayout_duration_ms: u64,
    pub last_relayout_move_count: usize,
    pub managed_window_count: usize,
    pub border_window_count: usize,
    pub game_mode_active: bool,
    pub config_reload_count: u64,
}

/// What the daemon says of its state.
#[derive(Debug, Clone, PartialEq, Eq)]
pub struct DaemonStateSnapshot {
    pub config_path: Option<String>,
    pub config_version: u64,
    pub config_loaded_at_unix_ms: u64,
    pub total_windows: usize,
    pub manageable_windows: usize,
    pub floating_windows: usize,
    pub temporary_floating_windows: usize,
    pub active_workspace: u16,
    pub foreground_window: Option<u64>,
    pub monitors: Vec<MonitorStateSnapshot>,
    pub windows: Vec<WindowStateSnapshot>,
    pub performance: DaemonPerformanceSnapshot,
}

/// What the daemon says of a reload of the settings.
#[derive(Debug, Clone, PartialEq, Eq)]
pub struct ReloadConfigReport {
    pub config_path: Option<String>,
    pub config_version: u64,
    pub reloaded_at_unix_ms: u64,
    pub changed_sections: Vec<String>,
    pub state: DaemonStateSnapshot,
}

/// What the daemon says of a command that it ran.
#[derive(Debug, Clone, PartialEq, Eq)]
pub struct CommandReport {
    pub command: String,
}

/// Why the daemon could not do what it was asked.
#[derive(Debug, Clone, PartialEq, Eq)]
pub struct IpcError {
    pub message: String,
}

/// What the daemon answers.
#[derive(Debug, Clone, PartialEq, Eq)]
pub enum IpcResponseResult {
    State(DaemonStateSnapshot),
    ReloadConfig(ReloadConfigReport),
    Command(CommandReport),
    Error(IpcError),
}

/// A response, with the version of the protocol that it follows.
#[derive(Debug, Clone, PartialEq, Eq)]
pub struct IpcResponse {
    pub protocol_version: u16,
    pub result: IpcResponseResult,
}

/// Why a message cannot be used: it is no message at all, for the reason given, or it follows another
/// version of the protocol.
#[derive(Debug, Clone, PartialEq, Eq)]
pub enum ProtocolError {
    Json(String),
    UnsupportedVersion { actual: u16, expected: u16 },
}

/// A copy of a text.
fn text_from(text: &str) -> (r: String)
    ensures
        r@ == text@,
{
    text.to_owned()
}

impl IpcRequest {
    /// Asks for the state.
    pub fn state() -> (r: IpcRequest)
        ensures
            r == (IpcRequest { protocol_version: PROTOCOL_VERSION, command: IpcCommand::State }),
    {
        IpcRequest { protocol_version: PROTOCOL_VERSION, command: IpcCommand::State }
    }

    /// Asks for a reload of the settings.
    pub fn reload_config() -> (r: IpcRequest)
        ensures
            r == (IpcRequest {
                protocol_version: PROTOCOL_VERSION,
                command: IpcCommand::ReloadConfig,
            }),
    {
        IpcRequest { protocol_version: PROTOCOL_VERSION, command: IpcCommand::ReloadConfig }
    }

    /// Asks for the state now and whenever it changes.
    pub fn subscribe_state() -> (r: IpcRequest)
        ensures
            r == (IpcRequest {
                protocol_version: PROTOCOL_VERSION,
                command: IpcCommand::SubscribeState,
            }),
    {
        IpcRequest { protocol_version: PROTOCOL_VERSION, command: IpcCommand::SubscribeState }
    }

    /// Asks for a command to be run.
    pub fn command(command: &str) -> (r: IpcRequest)
        ensures
            r.protocol_version == PROTOCOL_VERSION,
            r.command matches IpcCommand::Command { command: named } && named@ == command@,
    {
        IpcRequest {
            protocol_version: PROTOCOL_VERSION,
            command: IpcCommand::Command { command: text_from(command) },
        }
    }
}

impl IpcResponse {
    /// Answers with the state.
    pub fn state(snapshot: DaemonStateSnapshot) -> (r: IpcResponse)
        ensures
            r == (IpcResponse {
                protocol_version: PROTOCOL_VERSION,
                result: IpcResponseResult::State(snapshot),
            }),
    {
        IpcResponse { protocol_version: PROTOCOL_VERSION, result: IpcResponseResult::State(snapshot) }
    }

    /// Answers with the report of a reload.
    pub fn reload_config(report: ReloadConfigReport) -> (r: IpcResponse)
        ensures
            r == (IpcResponse {
                protocol_version: PROTOCOL_VERSION,
                result: IpcResponseResult::ReloadConfig(report),
            }),
    {
        IpcResponse {
            protocol_version: PROTOCOL_VERSION,
            result: IpcResponseResult::ReloadConfig(report),
        }
    }

    /// Answers with the report of a command.
    pub fn command(report: CommandReport) -> (r: IpcResponse)
        ensures
            r == (IpcResponse {
                protocol_version: PROTOCOL_VERSION,
                result: IpcResponseResult::Command(report),
            }),
    {
        IpcResponse {
            protocol_version: PROTOCOL_VERSION,
            result: IpcResponseResult::Command(report),
        }
    }

    /// Answers that it could not be done.
    pub fn error(message: &str) -> (r: IpcResponse)
        ensures
            r.protocol_version == PROTOCOL_VERSION,
            r.result matches IpcResponseResult::Error(error) && error.message@ == message@,
    {
        IpcResponse {
            protocol_version: PROTOCOL_VERSION,
            result: IpcResponseResult::Error(IpcError { message: text_from(message) }),
        }
    }
}

impl ProtocolError {
    /// The error as text.
    pub open spec fn spec_text(self) -> Seq<char> {
        match self {
            ProtocolError::Json(reason) => "invalid IPC JSON: "@ + reason@,
            ProtocolError::UnsupportedVersion { actual, expected } => {
                "unsupported IPC protocol version "@ + numeral(actual as nat, 10) + "; expected "@
                    + numeral(expected as nat, 10)
            },
        }
    }

    /// The error as text.
    pub fn to_text(&self) -> (r: String)
        ensures
            r@ == self.spec_text(),
    {
        let mut text: String = String::new();
        match self {
            ProtocolError::Json(reason) => {
                text.push_str("invalid IPC JSON: ");
                text.push_str(reason);
            },
            ProtocolError::UnsupportedVersion { actual, expected } => {
                text.push_str("unsupported IPC protocol version ");
                text.push_str(&decimal(*actual as u64));
                text.push_str("; expected ");
                text.push_str(&decimal(*expected as u64));
            },
        }
        proof {
            assert(text@ =~= self.spec_text());
        }
        text
    }
}

/// Whether a byte is white space.
pub open spec fn is_blank_byte(byte: u8) -> bool {
    byte == 9 || byte == 10 || byte == 12 || byte == 13 || byte == 32
}

/// Bytes without the white space at their end.
pub open spec fn trimmed_bytes(bytes: Seq<u8>) -> Seq<u8>
    decreases bytes.len(),
{
    if bytes.len() > 0 && is_blank_byte(bytes.last()) {
        trimmed_bytes(bytes.drop_last())
    } else {
        bytes
    }
}

/// Bytes without the white space at their end.
pub fn trim_message(input: &[u8]) -> (r: Vec<u8>)
    ensures
        r@ == trimmed_bytes(input@),
{
    let mut message: Vec<u8> = Vec::new();
    message.extend_from_slice(input);
    proof {
        assert(message@ =~= input@);
    }
    while message.len() > 0 && (message[message.len() - 1] == 9 || message[message.len() - 1] == 10
        || message[message.len() - 1] == 12 || message[message.len() - 1] == 13
        || message[message.len() - 1] == 32)
        invariant
            trimmed_bytes(message@) == trimmed_bytes(input@),
        decreases message.len(),
    {
        let ghost before = message@;
        message.pop();
        proof {
            assert(message@ =~= before.drop_last());
        }
    }
    message
}

/// Whether a version of the protocol is the one that is spoken here.
pub fn ensure_version(actual: u16) -> (r: Result<(), ProtocolError>)
    ensures
        r == if actual == PROTOCOL_VERSION {
            Ok::<(), ProtocolError>(())
        } else {
            Err(ProtocolError::UnsupportedVersion { actual, expected: PROTOCOL_VERSION })
        },
{
    if actual == PROTOCOL_VERSION {
        Ok(())
    } else {
        Err(ProtocolError::UnsupportedVersion { actual, expected: PROTOCOL_VERSION })
    }
}

/// The frame around a message of the given version: the message and a line end, or why it is not sent.
pub open spec fn framed(version: u16, body: Result<Vec<u8>, String>) -> Result<Seq<u8>, ProtocolError> {
    if version != PROTOCOL_VERSION {
        Err(
            ProtocolError::UnsupportedVersion { actual: version, expected: PROTOCOL_VERSION },
        )
    } else {
        match body {
            Ok(bytes) => Ok(bytes@.push(LINE_END)),
            Err(reason) => Err(ProtocolError::Json(reason)),
        }
    }
}

/// The bytes of a framed message.
pub open spec fn bytes_of(message: Result<Vec<u8>, ProtocolError>) -> Result<Seq<u8>, ProtocolError> {
    match message {
        Ok(bytes) => Ok(bytes@),
        Err(error) => Err(error),
    }
}

fn frame(version: u16, body: Result<Vec<u8>, String>) -> (r: Result<Vec<u8>, ProtocolError>)
    ensures
        bytes_of(r) == framed(version, body),
{
    match ensure_version(version) {
        Err(error) => Err(error),
        Ok(()) => match body {
            Ok(bytes) => {
                let mut output: Vec<u8> = bytes;
                output.push(LINE_END);
                Ok(output)
            },
            Err(reason) => Err(ProtocolError::Json(reason)),
        },
    }
}

/// Frames a request; `body` is the request as JSON, or why there is none.
pub fn encode_request(request: &IpcRequest, body: Result<Vec<u8>, String>) -> (r: Result<
    Vec<u8>,
    ProtocolError,
>)
    ensures
        bytes_of(r) == framed(request.protocol_version, body),
{
    frame(request.protocol_version, body)
}

/// Frames a response; `body` is the response as JSON, or why there is none.
pub fn encode_response(response: &IpcResponse, body: Result<Vec<u8>, String>) -> (r: Result<
    Vec<u8>,
    ProtocolError,
>)
    ensures
        bytes_of(r) == framed(response.protocol_version, body),
{
    frame(response.protocol_version, body)
}

/// What is made of a request that was read: it, or why it cannot be used.
pub open spec fn accepted_request(read: Result<IpcRequest, String>) -> Result<IpcRequest, ProtocolError> {
    match read {
        Err(reason) => Err(ProtocolError::Json(reason)),
        Ok(request) => if request.protocol_version == PROTOCOL_VERSION {
            Ok(request)
        } else {
            Err(
                ProtocolError::UnsupportedVersion {
                    actual: request.protocol_version,
                    expected: PROTOCOL_VERSION,
                },
            )
        },
    }
}

/// What is made of a response that was read: it, or why it cannot be used.
pub open spec fn accepted_response(read: Result<IpcResponse, String>) -> Result<
    IpcResponse,
    ProtocolError,
> {
    match read {
        Err(reason) => Err(ProtocolError::Json(reason)),
        Ok(response) => if response.protocol_version == PROTOCOL_VERSION {
            Ok(response)
        } else {
            Err(
                ProtocolError::UnsupportedVersion {
                    actual: response.protocol_version,
                    expected: PROTOCOL_VERSION,
                },
            )
        },
    }
}

/// Accepts a request that was read from the JSON of a trimmed message.
pub fn decode_request(read: Result<IpcRequest, String>) -> (r: Result<IpcRequest, ProtocolError>)
    ensures
        r == accepted_request(read),
{
    match read {
        Err(reason) => Err(ProtocolError::Json(reason)),
        Ok(request) => match ensure_version(request.protocol_version) {
            Ok(()) => Ok(request),
            Err(error) => Err(error),
        },
    }
}

/// Accepts a response that was read from the JSON of a trimmed message.
pub fn decode_response(read: Result<IpcResponse, String>) -> (r: Result<IpcResponse, ProtocolError>)
    ensures
        r == accepted_response(read),
{
    match read {
        Err(reason) => Err(ProtocolError::Json(reason)),
        Ok(response) => match ensure_version(response.protocol_version) {
            Ok(()) => Ok(response),
            Err(error) => Err(error),
        },
    }
}

/// The bytes behind the last line end.
pub open spec fn unfinished(bytes: Seq<u8>) -> Seq<u8>
    decreases bytes.len(),
{
    if bytes.len() == 0 || bytes.last() == LINE_END {
        Seq::empty()
    } else {
        unfinished(bytes.drop_last()).push(bytes.last())
    }
}

/// The messages that are finished, without the white space at their ends; blank ones are left out.
pub open spec fn messages(bytes: Seq<u8>) -> Seq<Seq<u8>>
    decreases bytes.len(),
{
    if bytes.len() == 0 {
        Seq::empty()
    } else if bytes.last() == LINE_END {
        let message = trimmed_bytes(unfinished(bytes.drop_last()));
        if message.len() == 0 {
            messages(bytes.drop_last())
        } else {
            messages(bytes.drop_last()).push(message)
        }
    } else {
        messages(bytes.drop_last())
    }
}

/// The contents of byte vectors.
pub open spec fn contents(list: Seq<Vec<u8>>) -> Seq<Seq<u8>> {
    list.map_values(|bytes: Vec<u8>| bytes@)
}

/// Takes in a chunk of bytes; gives the messages that are finished and keeps what is not in the buffer.
pub fn decode_framed_ipc_responses(buffer: &mut Vec<u8>, chunk: &[u8]) -> (r: Vec<Vec<u8>>)
    ensures
        contents(r@) == messages(old(buffer)@ + chunk@),
        final(buffer)@ == unfinished(old(buffer)@ + chunk@),
{
    let ghost all = buffer@ + chunk@;
    buffer.extend_from_slice(chunk);
    proof {
        assert(buffer@ =~= all);
    }
    let mut found: Vec<Vec<u8>> = Vec::new();
    let mut line: Vec<u8> = Vec::new();
    let mut index: usize = 0;
    proof {
        assert(contents(found@) =~= messages(all.take(0)));
    }
    while index < buffer.len()
        invariant
            index <= buffer.len(),
            buffer@ == all,
            line@ == unfinished(all.take(index as int)),
            contents(found@) == messages(all.take(index as int)),
        decreases buffer.len() - index,
    {
        let byte: u8 = buffer[index];
        proof {
            assert(all.take(index + 1).drop_last() =~= all.take(index as int));
            assert(all.take(index + 1).last() == byte);
        }
        let ghost before = found@;
        if byte == LINE_END {
            let message: Vec<u8> = trim_message(&line);
            if message.len() > 0 {
                found.push(message);
            }
            line = Vec::new();
        } else {
            line.push(byte);
        }
        proof {
            assert(contents(found@) =~= messages(all.take(index + 1)));
            assert(line@ =~= unfinished(all.take(index + 1)));
        }
        index = index + 1;
    }
    proof {
        assert(all.take(index as int) =~= all);
    }
    *buffer = line;
    found
}

/// A framed message that does not end in white space comes back whole.
pub proof fn framed_message_comes_back(version: u16, body: Vec<u8>)
    requires
        version == PROTOCOL_VERSION,
        body@.len() == 0 || !is_blank_byte(body@.last()),
    ensures
        framed(version, Ok(body)) is Ok,
        trimmed_bytes(framed(version, Ok(body))->Ok_0) == body@,
{
    let bytes = body@.push(LINE_END);
    assert(bytes.drop_last() =~= body@);
    assert(trimmed_bytes(bytes) == trimmed_bytes(body@));
}

/// It does not matter where a stream of bytes is cut into chunks: the messages are the same, and so is
/// what is left.
pub proof fn chunks_do_not_matter(first: Seq<u8>, second: Seq<u8>)
    ensures
        messages(first + second) == messages(first) + messages(unfinished(first) + second),
        unfinished(first + second) == unfinished(unfinished(first) + second),
    decreases second.len(),
{
    let whole = first + second;
    let later = unfinished(first) + second;
    if second.len() == 0 {
        assert(whole =~= first);
        assert(later =~= unfinished(first));
        lemma_unfinished_has_no_end(first);
        lemma_no_end(unfinished(first));
        assert(messages(first) =~= messages(first) + messages(later));
    } else {
        chunks_do_not_matter(first, second.drop_last());
        assert(whole.drop_last() =~= first + second.drop_last());
        assert(later.drop_last() =~= unfinished(first) + second.drop_last());
        assert(whole.last() == second.last());
        assert(later.last() == second.last());
        assert(messages(whole) =~= messages(first) + messages(later));
    }
}

/// Framed messages that follow each other come back one by one: each that holds no line end and does
/// not end in white space.
pub proof fn framed_messages_follow_each_other(before: Seq<u8>, body: Seq<u8>)
    requires
        unfinished(before).len() == 0,
        body.len() > 0,
        !is_blank_byte(body.last()),
        !body.contains(LINE_END),
    ensures
        messages(before + body.push(LINE_END)) == messages(before).push(body),
        unfinished(before + body.push(LINE_END)).len() == 0,
{
    let bytes = before + body.push(LINE_END);
    assert(bytes.drop_last() =~= before + body);
    assert(bytes.last() == LINE_END);
    chunks_do_not_matter(before, body);
    assert(unfinished(before) + body =~= body);
    lemma_no_end(body);
    assert(messages(before + body) =~= messages(before));
    assert(trimmed_bytes(body) == body);
}

proof fn lemma_no_end(bytes: Seq<u8>)
    requires
        !bytes.contains(LINE_END),
    ensures
        messages(bytes) == Seq::<Seq<u8>>::empty(),
        unfinished(bytes) == bytes,
    decreases bytes.len(),
{
    if bytes.len() > 0 {
        assert(bytes[bytes.len() - 1] == bytes.last());
        let rest = bytes.drop_last();
        assert forall|i: int| 0 <= i < rest.len() implies rest[i] != LINE_END by {
            assert(bytes[i] == rest[i]);
            assert(bytes.contains(bytes[i]));
        }
        lemma_no_end(rest);
        assert(unfinished(bytes) =~= bytes);
    } else {
        assert(unfinished(bytes) =~= bytes);
    }
}

proof fn lemma_unfinished_has_no_end(bytes: Seq<u8>)
    ensures
        !unfinished(bytes).contains(LINE_END),
    decreases bytes.len(),
{
    if bytes.len() > 0 && bytes.last() != LINE_END {
        lemma_unfinished_has_no_end(bytes.drop_last());
        let rest = unfinished(bytes.drop_last());
        let all = rest.push(bytes.last());
        assert forall|i: int| 0 <= i < all.len() implies all[i] != LINE_END by {
            if i < rest.len() {
                assert(rest.contains(rest[i]));
            }
        }
    }
}

} // verus!
