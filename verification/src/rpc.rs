//! The errors and the texts that the TryCP JSON-RPC methods answer with,
//! and the small decisions those methods make.

use vstd::prelude::*;
use crate::outside::{
    decode_utf8, decode_utf8_lossy, lossy_utf8, parse_rpc_uri, parse_url, rpc_uri_outcome, url_parse_outcome,
    utf8_error_text,
};
use crate::paths::{dna_file_name, get_dna_path, joined, DNA_DIR_PATH};
use crate::text::{decimal, push_decimal, str_equal, strip_prefix_and_trim, trim_chars, trim_end, trim_end_chars, without_prefix};

verus! {

/// The line a conductor prints once it is ready.
pub const MAGIC_STRING: &'static str = "Conductor ready.";

/// The JSON-RPC error codes that the server answers with.
#[derive(Debug, Clone, Copy, PartialEq, Eq, Structural)]
pub enum ErrorKind {
    /// The server failed at its own work (`-32603`).
    InternalError,
    /// The request asks for something that cannot be done (`-32600`).
    InvalidRequest,
}

/// A JSON-RPC error: its code and its message; it carries no data.
#[derive(Debug, PartialEq)]
pub struct RpcError {
    pub kind: ErrorKind,
    pub message: String,
}

/// An internal error with the given message.
pub fn internal_error(message: String) -> (e: RpcError)
    ensures
        e.kind == ErrorKind::InternalError,
        e.message@ == message@,
{
    RpcError { kind: ErrorKind::InternalError, message }
}

/// An invalid-request error with the given message.
pub fn invalid_request(message: String) -> (e: RpcError)
    ensures
        e.kind == ErrorKind::InvalidRequest,
        e.message@ == message@,
{
    RpcError { kind: ErrorKind::InvalidRequest, message }
}

/// `a`, then `b`.
pub fn concat2(a: &str, b: &str) -> (r: String)
    ensures
        r@ == a@ + b@,
{
    let mut r = String::from_str(a);
    r.append(b);
    r
}

/// `a`, then `b`, then `c`.
pub fn concat3(a: &str, b: &str, c: &str) -> (r: String)
    ensures
        r@ == a@ + b@ + c@,
{
    let mut r = String::from_str(a);
    r.append(b);
    r.append(c);
    r
}

/// The message for a URL that does not parse.
pub open spec fn url_failure_message(url: Seq<char>, detail: Seq<char>) -> Seq<char> {
    "unable to parse url:"@ + url + " got error: "@ + detail
}

/// The error answered for a URL that does not parse.
pub fn url_parse_failure(url: &str, detail: &str) -> (e: RpcError)
    ensures
        e.kind == ErrorKind::InvalidRequest,
        e.message@ == url_failure_message(url@, detail@),
{
    let mut m = concat3("unable to parse url:", url, " got error: ");
    m.append(detail);
    invalid_request(m)
}

/// The address of a JSON-RPC peer, parsed from `uri`; when it does not
/// parse, the message naming the address and the parse error.
pub fn check_rpc_uri(uri: &str) -> (r: Result<url2::Url2, String>)
    ensures
        match rpc_uri_outcome(uri@) {
            Ok(u) => r matches Ok(v) && v == u,
            Err(detail) => r matches Err(m) && m@ == url_failure_message(uri@, detail),
        },
{
    match parse_rpc_uri(uri) {
        Ok(u) => Ok(u),
        Err(detail) => {
            let mut m = concat3("unable to parse url:", uri, " got error: ");
            m.append(detail.as_str());
            Err(m)
        },
    }
}

/// What a JSON-RPC call gives once its reply is read: the reply's error,
/// described by `error`, when there is one; otherwise its result.
pub fn rpc_reply_outcome<T>(error: Option<String>, result: Option<T>) -> (r: Result<T, String>)
    requires
        error is Some || result is Some,
    ensures
        match error {
            Some(e) => r matches Err(m) && m@ == e@,
            None => r == Ok::<T, String>(result->Some_0),
        },
{
    match error {
        Some(e) => Err(e),
        None => match result {
            Some(v) => Ok(v),
            None => Err(String::new()),
        },
    }
}

/// Where the DNA at `url` is cached, when `url` parses; the invalid-request
/// error naming the URL and the parse error otherwise.
pub fn dna_path_for(url: &str) -> (r: Result<String, RpcError>)
    ensures
        match url_parse_outcome(url@) {
            Ok(path) => r matches Ok(p) && p@ == joined(DNA_DIR_PATH@, dna_file_name(path)),
            Err(detail) => r matches Err(e) && e.kind == ErrorKind::InvalidRequest
                && e.message@ == url_failure_message(url@, detail),
        },
{
    match parse_url(url) {
        Ok(path) => Ok(get_dna_path(path.as_str())),
        Err(detail) => Err(url_parse_failure(url, detail.as_str())),
    }
}

/// The fixed part of a conductor's configuration, up to its admin port.
pub open spec fn config_head() -> Seq<char> {
    "---\nenvironment_path: environment\nuse_dangerous_test_keystore: false\nkeystore_path: keystore\npassphrase_service:\n  type: fromconfig\n  passphrase: password\nadmin_interfaces:\n  -\n    driver:\n      type: websocket\n      port: "@
}

/// The configuration file of a conductor whose admin interface listens on
/// `port`, with the part of the configuration that the client supplies
/// appended, ending with a newline.
pub fn player_config_text(port: u16, partial_config: &str) -> (r: String)
    ensures
        r@ == config_head() + decimal(port as nat) + seq!['\n'] + partial_config@ + seq!['\n'],
{
    let mut r = String::from_str(
        "---\nenvironment_path: environment\nuse_dangerous_test_keystore: false\nkeystore_path: keystore\npassphrase_service:\n  type: fromconfig\n  passphrase: password\nadmin_interfaces:\n  -\n    driver:\n      type: websocket\n      port: ",
    );
    push_decimal(&mut r, port);
    crate::text::push_char(&mut r, '\n');
    r.append(partial_config);
    crate::text::push_char(&mut r, '\n');
    r
}

/// Fails with an invalid-request error unless the player's configuration
/// file exists.
pub fn check_player_config_exists(config_is_file: bool, id: &str) -> (r: Result<(), RpcError>)
    ensures
        config_is_file <==> r is Ok,
        r matches Err(e) ==> e.kind == ErrorKind::InvalidRequest && e.message@ == "player config for "@
            + id@ + " not setup"@,
{
    if !config_is_file {
        return Err(invalid_request(concat3("player config for ", id, " not setup")));
    }
    Ok(())
}

/// The answer once a player's configuration is written.
pub fn configured_reply(id: &str, config_path: &str) -> (r: String)
    ensures
        r@ == "wrote config for player "@ + id@ + " to "@ + config_path@,
{
    let mut r = concat3("wrote config for player ", id, " to ");
    r.append(config_path);
    r
}

/// The error for starting a player whose conductor is already running.
pub fn already_running(id: &str) -> (e: RpcError)
    ensures
        e.kind == ErrorKind::InvalidRequest,
        e.message@ == id@ + " is already running"@,
{
    invalid_request(concat2(id, " is already running"))
}

/// Whether a line of a conductor's output says that it is ready.
pub fn is_ready_line(line: &str) -> (r: bool)
    ensures
        r == (line@ == MAGIC_STRING@),
{
    str_equal(line, MAGIC_STRING)
}

/// The answer once a player's conductor is ready.
pub fn startup_reply(id: &str) -> (r: String)
    ensures
        r@ == "conductor started up for "@ + id@,
{
    concat2("conductor started up for ", id)
}

/// The signals with which a conductor is shut down.
#[derive(Debug, Clone, Copy, PartialEq, Eq, Structural)]
pub enum ShutdownSignal {
    SigKill,
    SigTerm,
    SigInt,
}

/// The signal named `SIGKILL` or `SIGTERM`; any other name means `SIGINT`.
pub open spec fn signal_named(name: Seq<char>) -> ShutdownSignal {
    if name == "SIGKILL"@ {
        ShutdownSignal::SigKill
    } else if name == "SIGTERM"@ {
        ShutdownSignal::SigTerm
    } else {
        ShutdownSignal::SigInt
    }
}

/// `SIGKILL` names the kill signal and `SIGTERM` the terminate signal;
/// every other name, `SIGINT` among them, names the interrupt signal.
pub proof fn law_signal_names(name: Seq<char>)
    ensures
        name == "SIGKILL"@ ==> signal_named(name) == ShutdownSignal::SigKill,
        name == "SIGTERM"@ ==> signal_named(name) == ShutdownSignal::SigTerm,
        name != "SIGKILL"@ && name != "SIGTERM"@ ==> signal_named(name) == ShutdownSignal::SigInt,
        signal_named("SIGINT"@) == ShutdownSignal::SigInt,
{
    reveal_strlit("SIGKILL");
    reveal_strlit("SIGTERM");
    reveal_strlit("SIGINT");
    assert("SIGKILL"@[4] != "SIGTERM"@[4]);
    assert("SIGINT"@.len() != "SIGKILL"@.len());
    assert("SIGINT"@.len() != "SIGTERM"@.len());
}

/// The signal for a name, as the shutdown procedure reads it.
pub fn signal_for(name: &str) -> (s: ShutdownSignal)
    ensures
        s == signal_named(name@),
{
    if str_equal(name, "SIGKILL") {
        ShutdownSignal::SigKill
    } else if str_equal(name, "SIGTERM") {
        ShutdownSignal::SigTerm
    } else {
        ShutdownSignal::SigInt
    }
}

/// The signal with which to shut a conductor down when the client names
/// `signal`, or `SIGTERM` when it names none.
pub fn shutdown_signal(signal: Option<&str>) -> (s: ShutdownSignal)
    ensures
        s == match signal {
            Some(name) => signal_named(name@),
            None => ShutdownSignal::SigTerm,
        },
{
    match signal {
        Some(name) => signal_for(name),
        None => ShutdownSignal::SigTerm,
    }
}

/// The error for shutting down a player that has no running conductor.
pub fn no_conductor(id: &str) -> (e: RpcError)
    ensures
        e.kind == ErrorKind::InvalidRequest,
        e.message@ == "no conductor spawned for "@ + id@,
{
    invalid_request(concat2("no conductor spawned for ", id))
}

/// The error for a signal that could not be sent; `detail` describes why.
pub fn shutdown_failure(id: &str, detail: &str) -> (e: RpcError)
    ensures
        e.kind == ErrorKind::InternalError,
        e.message@ == "unable to shut down conductor for "@ + id@ + " script: "@ + detail@,
{
    let mut m = concat3("unable to shut down conductor for ", id, " script: ");
    m.append(detail);
    internal_error(m)
}

/// The answer once a player's conductor has been signalled.
pub fn shutdown_reply(id: &str) -> (r: String)
    ensures
        r@ == "shut down conductor for "@ + id@,
{
    concat2("shut down conductor for ", id)
}

/// The shell command that downloads a released holochain binary and puts
/// it in place, when replacing the conductor is allowed.
pub fn replace_conductor_command(allowed: bool, repo: &str, tag: &str, file_name: &str) -> (r: Option<String>)
    ensures
        allowed <==> r is Some,
        r matches Some(cmd) ==> cmd@ == "curl -L -k https://github.com/holochain/"@ + repo@ + "/releases/download/"@
            + tag@ + "/"@ + file_name@
            + " -o holochain.tar.gz && tar -xzvf holochain.tar.gz && mv holochain /holochain/.cargo/bin/holochain && rm holochain.tar.gz"@,
{
    if !allowed {
        return None;
    }
    let mut r = concat3("curl -L -k https://github.com/holochain/", repo, "/releases/download/");
    r.append(tag);
    r.append("/");
    r.append(file_name);
    r.append(
        " -o holochain.tar.gz && tar -xzvf holochain.tar.gz && mv holochain /holochain/.cargo/bin/holochain && rm holochain.tar.gz",
    );
    Some(r)
}

/// The URL under which this server registers with a manager.
pub fn registration_url(host: &str, port: u16) -> (r: String)
    ensures
        r@ == "ws://"@ + host@ + seq![':'] + decimal(port as nat),
{
    let mut r = concat2("ws://", host);
    crate::text::push_char(&mut r, ':');
    push_decimal(&mut r, port);
    r
}

/// Whether the answer of a peer to `reset` confirms that it is ready: the
/// answer must be the JSON string `"reset"`.
pub fn confirms_reset(reply: Option<&str>) -> (r: bool)
    ensures
        r == match reply {
            Some(text) => text@ == "reset"@,
            None => false,
        },
{
    match reply {
        Some(text) => str_equal(text, "reset"),
        None => false,
    }
}

/// The version that `holochain -V` reports: its output, read as UTF-8,
/// without a leading `holochain` and without surrounding whitespace.
/// `output` is what running the command gave: its standard output, or the
/// text of the error that kept it from running.
pub fn get_holochain_version(output: Result<Vec<u8>, String>) -> (r: Result<String, String>)
    ensures
        match output {
            Err(e) => r matches Err(m) && m@ == "failed to execute `holochain -V`: "@ + e@,
            Ok(bytes) => if vstd::utf8::valid_utf8(bytes@) {
                r matches Ok(v) && v@ == trim_chars(
                    without_prefix(vstd::utf8::decode_utf8(bytes@), "holochain"@),
                )
            } else {
                r matches Err(m) && m@ == "failed to parse holochain output as utf-8: "@
                    + utf8_error_text(bytes@)
            },
        },
{
    match output {
        Err(e) => Err(concat2("failed to execute `holochain -V`: ", e.as_str())),
        Ok(bytes) => match decode_utf8(bytes) {
            Ok(text) => Ok(strip_prefix_and_trim(text.as_str(), "holochain")),
            Err(e) => Err(concat2("failed to parse holochain output as utf-8: ", e.as_str())),
        },
    }
}

/// What running a shell command gave.
pub struct CommandOutput {
    /// Whether it exited successfully.
    pub success: bool,
    /// Its standard output.
    pub stdout: Vec<u8>,
    /// Its standard error.
    pub stderr: Vec<u8>,
}

/// The answer to a shell command: its standard output when it succeeded,
/// else its standard error, read as UTF-8 with replacement characters and
/// without trailing whitespace; or, when it could not be run, the text of
/// the error after `cmd err: `.
pub fn os_eval(outcome: Result<CommandOutput, String>) -> (r: String)
    ensures
        match outcome {
            Ok(out) => r@ == trim_end_chars(lossy_utf8(if out.success { out.stdout@ } else { out.stderr@ })),
            Err(e) => r@ == "cmd err: "@ + e@,
        },
{
    match outcome {
        Ok(out) => {
            let text = if out.success {
                decode_utf8_lossy(&out.stdout)
            } else {
                decode_utf8_lossy(&out.stderr)
            };
            trim_end(text.as_str())
        },
        Err(e) => concat2("cmd err: ", e.as_str()),
    }
}

} // verus!
