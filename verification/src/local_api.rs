//! The local HTTP transcription endpoint: which template a request asks
//! for, when the server is started, kept or stopped, what the status
//! reports, and which HTTP status each outcome is answered with.
use vstd::prelude::*;

use tokio_util::sync::CancellationToken;

use crate::audio::{append_base64, base64_standard, validate_content_type, extension_of_media, media_type, unsupported_format_error};
use crate::config::{AppConfig, LocalApiConfig, TemplateEntry};
use crate::text::{contains, decimal, decimal_string, str_contains, str_eq};

verus! {

/// `tokio_util`'s cancellation token, carried through opaquely.
#[verifier::external_type_specification]
#[verifier::external_body]
pub struct ExCancellationToken(tokio_util::sync::CancellationToken);

/// What the settings page shows of the endpoint.
#[derive(Debug, Clone)]
pub struct LocalApiStatus {
    pub running: bool,
    pub port: Option<u16>,
    pub error: Option<String>,
}

impl LocalApiStatus {
    /// Not running, no port, no error.
    pub fn default() -> (s: Self)
        ensures
            !s.running,
            s.port is None,
            s.error is None,
    {
        LocalApiStatus { running: false, port: None, error: None }
    }

    /// A field-by-field copy.
    pub fn copy(&self) -> (r: Self)
        ensures
            r == *self,
    {
        LocalApiStatus {
            running: self.running,
            port: self.port,
            error: match &self.error {
                Some(e) => Some(e.clone()),
                None => None,
            },
        }
    }
}

/// Some template of `templates` has the id `id`.
pub open spec fn has_template(templates: Seq<TemplateEntry>, id: Seq<char>) -> bool {
    exists|i: int| 0 <= i < templates.len() && #[trigger] templates[i].id@ == id
}

/// The message for a template id that no voice template has.
pub open spec fn unknown_template_error(id: Seq<char>) -> Seq<char> {
    "未知语音模板："@ + id
}

/// The template a request is transcribed with: `raw` asks for none, a known
/// id for that template, an unknown id is refused, and a request that
/// names none gets the first shortcut's template, or none when it is empty.
pub open spec fn spec_resolve_template(
    templates: Seq<TemplateEntry>,
    shortcut_template: Seq<char>,
    requested: Option<Seq<char>>,
) -> Result<Option<Seq<char>>, Seq<char>> {
    match requested {
        Some(id) => if id == "raw"@ {
            Ok(None)
        } else if has_template(templates, id) {
            Ok(Some(id))
        } else {
            Err(unknown_template_error(id))
        },
        None => if shortcut_template.len() == 0 {
            Ok(None)
        } else {
            Ok(Some(shortcut_template))
        },
    }
}

fn find_template(templates: &Vec<TemplateEntry>, id: &str) -> (b: bool)
    ensures
        b == has_template(templates@, id@),
{
    let mut i: usize = 0;
    while i < templates.len()
        invariant
            i <= templates.len(),
            forall|k: int| 0 <= k < i ==> #[trigger] templates@[k].id@ != id@,
        decreases templates.len() - i,
    {
        if str_eq(templates[i].id.as_str(), id) {
            return true;
        }
        i = i + 1;
    }
    false
}

/// Resolves the `template` query parameter of a transcription request.
pub fn resolve_template(config: &AppConfig, requested: Option<&str>) -> (r: Result<Option<String>, String>)
    ensures
        match (r, spec_resolve_template(
            config.voice_templates.templates@,
            config.general.shortcut_template@,
            match requested { Some(s) => Some(s@), None => None },
        )) {
            (Ok(Some(a)), Ok(Some(b))) => a@ == b,
            (Ok(None), Ok(None)) => true,
            (Err(a), Err(b)) => a@ == b,
            _ => false,
        },
{
    match requested {
        Some(id) => {
            if str_eq(id, "raw") {
                Ok(None)
            } else if find_template(&config.voice_templates.templates, id) {
                Ok(Some(String::from_str(id)))
            } else {
                let mut msg = String::from_str("未知语音模板：");
                msg.append(id);
                Err(msg)
            }
        },
        None => {
            if config.general.shortcut_template.as_str().unicode_len() == 0 {
                Ok(None)
            } else {
                Ok(Some(config.general.shortcut_template.clone()))
            }
        },
    }
}

/// A plain-text HTTP reply: its status code and body.
#[derive(Debug, Clone)]
pub struct TextReply {
    pub status: u16,
    pub body: String,
}

/// A `text/plain; charset=utf-8` reply with `status` and `body`.
pub fn text_response(status: u16, body: String) -> (r: TextReply)
    ensures
        r.status == status,
        r.body == body,
{
    TextReply { status, body }
}

/// Checks the `Content-Type` of a request before it takes a task slot: a
/// missing header and an unsupported audio type are answered with 415.
/// Gives the accepted type.
pub fn check_request_content_type(header: Option<&str>) -> (r: Result<String, TextReply>)
    ensures
        match header {
            None => r is Err && r->Err_0.status == 415 && r->Err_0.body@ == "缺少Content-Type请求头"@,
            Some(ct) => if extension_of_media(media_type(ct@)) is Some {
                r is Ok && r->Ok_0@ == ct@
            } else {
                r is Err && r->Err_0.status == 415 && r->Err_0.body@ == unsupported_format_error(ct@)
            },
        },
{
    match header {
        None => Err(text_response(415, String::from_str("缺少Content-Type请求头"))),
        Some(ct) => match validate_content_type(ct) {
            Ok(()) => Ok(String::from_str(ct)),
            Err(e) => Err(text_response(415, e)),
        },
    }
}

/// A request refused because no task slot is free: 429.
pub fn busy_reply(error: String) -> (r: TextReply)
    ensures
        r.status == 429,
        r.body == error,
{
    text_response(429, error)
}

/// A request whose template or audio was refused: 400.
pub fn bad_request_reply(error: String) -> (r: TextReply)
    ensures
        r.status == 400,
        r.body == error,
{
    text_response(400, error)
}

/// The reply to a transcription that ran: the text with 200; an error that
/// mentions "timed out" with 504; any other error with 502.
pub fn pipeline_reply(result: Result<String, String>) -> (r: TextReply)
    ensures
        match result {
            Ok(text) => r.status == 200 && r.body == text,
            Err(e) => r.body == e && r.status == (if contains(e@, "timed out"@) { 504u16 } else { 502u16 }),
        },
{
    match result {
        Ok(text) => text_response(200, text),
        Err(e) => {
            if str_contains(e.as_str(), "timed out") {
                text_response(504, e)
            } else {
                text_response(502, e)
            }
        },
    }
}

/// The Base64 text of `bytes` written chunk after chunk, `n` bytes at a
/// time, each chunk encoded on its own.
pub open spec fn chunked_base64(bytes: Seq<u8>, n: nat) -> Seq<char>
    decreases bytes.len(),
{
    if bytes.len() == 0 || n == 0 {
        Seq::empty()
    } else if bytes.len() <= n {
        base64_standard(bytes)
    } else {
        base64_standard(bytes.take(n as int)) + chunked_base64(bytes.skip(n as int), n)
    }
}

/// The number of bytes encoded between two looks at the cancellation token.
pub const BASE64_CHUNK_BYTES: usize = 12288;

/// `CancellationToken::is_cancelled`: whether the token has been cancelled,
/// by this or another thread. Nothing is claimed of the answer.
#[verifier::external_body]
fn token_is_cancelled(token: &CancellationToken) -> (b: bool) {
    token.is_cancelled()
}

proof fn lemma_chunked_step(bytes: Seq<u8>, i: int, n: nat)
    requires
        n > 0,
        0 <= i < bytes.len(),
        i % (n as int) == 0,
    ensures
        chunked_base64(bytes.skip(i), n) == base64_standard(
            bytes.subrange(i, if i + n <= bytes.len() { i + n } else { bytes.len() as int }),
        ) + chunked_base64(bytes.skip(if i + n <= bytes.len() { i + n } else { bytes.len() as int }), n),
{
    let rest = bytes.skip(i);
    if rest.len() <= n {
        assert(rest =~= bytes.subrange(i, bytes.len() as int));
        assert(bytes.skip(bytes.len() as int).len() == 0);
        assert(chunked_base64(bytes.skip(bytes.len() as int), n) == Seq::<char>::empty());
        assert(base64_standard(rest) + Seq::<char>::empty() =~= base64_standard(rest));
    } else {
        assert(rest.take(n as int) =~= bytes.subrange(i, i + n));
        assert(rest.skip(n as int) =~= bytes.skip(i + n));
    }
}

/// The Base64 text of `bytes`, encoded in chunks of 12288 bytes with a look
/// at `cancellation` before each chunk; a cancelled request gives
/// "请求已取消". Empty input is never refused.
pub fn encode_base64_with_cancel(bytes: Vec<u8>, cancellation: &CancellationToken) -> (r: Result<String, String>)
    requires
        bytes@.len() <= usize::MAX / 4,
    ensures
        r is Ok ==> r->Ok_0@ == chunked_base64(bytes@, BASE64_CHUNK_BYTES as nat),
        r is Err ==> r->Err_0@ == "请求已取消"@,
        bytes@.len() == 0 ==> r is Ok,
{
    let n = BASE64_CHUNK_BYTES;
    let mut encoded = String::new();
    let mut i: usize = 0;
    assert(bytes@.skip(0) =~= bytes@);
    while i < bytes.len()
        invariant
            n == BASE64_CHUNK_BYTES,
            i <= bytes.len(),
            i % n == 0 || i == bytes.len(),
            bytes@.len() <= usize::MAX / 4,
            encoded@ + chunked_base64(bytes@.skip(i as int), n as nat) == chunked_base64(bytes@, n as nat),
        decreases bytes.len() - i,
    {
        if token_is_cancelled(cancellation) {
            return Err(String::from_str("请求已取消"));
        }
        let end: usize = if bytes.len() - i >= n { i + n } else { bytes.len() };
        let chunk = vstd::slice::slice_subrange(bytes.as_slice(), i, end);
        proof {
            lemma_chunked_step(bytes@, i as int, n as nat);
        }
        let ghost before = encoded@;
        append_base64(&mut encoded, chunk);
        proof {
            assert(encoded@ + chunked_base64(bytes@.skip(end as int), n as nat) =~= before
                + (base64_standard(bytes@.subrange(i as int, end as int)) + chunked_base64(
                bytes@.skip(end as int),
                n as nat,
            )));
            if end < bytes.len() {
                assert(end % n == 0) by {
                    assert(end == i + n);
                    vstd::arithmetic::div_mod::lemma_mod_add_multiples_vanish(i as int, n as int);
                }
            }
        }
        i = end;
    }
    assert(bytes@.skip(bytes.len() as int).len() == 0);
    assert(encoded@ + Seq::<char>::empty() =~= encoded@);
    Ok(encoded)
}

/// A server that listens on `port` until `shutdown` is cancelled.
pub struct RunningServer {
    pub port: u16,
    pub shutdown: CancellationToken,
}

/// What `configure` does for a configuration.
#[derive(Debug, Clone, Copy, PartialEq, Eq)]
pub enum ServerStep {
    /// The endpoint is disabled: stop any server.
    Stop,
    /// A server already listens on the configured port: keep it.
    Keep,
    /// Listen on this port, replacing any server on another port.
    Bind(u16),
}

/// The message for a port that cannot be listened on.
pub open spec fn bind_error(port: u16, error: Seq<char>) -> Seq<char> {
    "无法监听127.0.0.1:"@ + decimal(port as nat) + "："@ + error
}

/// The endpoint's server and the status shown of it. Binding the socket,
/// serving requests and announcing a new status are the caller's part; this
/// decides what happens and keeps the status true to the server.
pub struct LocalApiManager {
    running: Option<RunningServer>,
    status: LocalApiStatus,
}

impl LocalApiManager {
    /// The port of the server that runs, if one does.
    pub closed spec fn running_port(&self) -> Option<u16> {
        match self.running {
            Some(s) => Some(s.port),
            None => None,
        }
    }

    pub closed spec fn spec_status(&self) -> LocalApiStatus {
        self.status
    }

    /// The token whose cancelling stops the running server, if one runs.
    pub closed spec fn spec_shutdown(&self) -> Option<CancellationToken> {
        match self.running {
            Some(s) => Some(s.shutdown),
            None => None,
        }
    }

    /// The status reports the server that runs: running exactly when one
    /// does, and on its port.
    pub open spec fn wf(&self) -> bool {
        &&& self.spec_status().running == self.running_port() is Some
        &&& self.spec_status().port == self.running_port()
    }

    /// No server, status not running.
    pub fn new() -> (m: Self)
        ensures
            m.wf(),
            m.running_port() is None,
            m.spec_status().error is None,
    {
        LocalApiManager { running: None, status: LocalApiStatus::default() }
    }

    /// The status last set.
    pub fn status(&self) -> (s: LocalApiStatus)
        ensures
            s == self.spec_status(),
    {
        self.status.copy()
    }

    /// What a configuration asks for: a disabled endpoint stops the server,
    /// a server already on the configured port is kept, and otherwise the
    /// configured port is to be listened on.
    pub fn plan(&self, config: &LocalApiConfig) -> (step: ServerStep)
        ensures
            !config.enabled ==> step == ServerStep::Stop,
            config.enabled && self.running_port() == Some(config.port) ==> step == ServerStep::Keep,
            config.enabled && self.running_port() != Some(config.port) ==> step == ServerStep::Bind(config.port),
    {
        if !config.enabled {
            return ServerStep::Stop;
        }
        match &self.running {
            Some(server) => {
                if server.port == config.port {
                    return ServerStep::Keep;
                }
            },
            None => {},
        }
        ServerStep::Bind(config.port)
    }

    /// Stops the server, if any: it is forgotten, and its shutdown token is
    /// handed back for the caller to cancel, which makes it stop
    /// listening. The status reads not running.
    pub fn stop(&mut self) -> (stopped: Option<CancellationToken>)
        ensures
            stopped == old(self).spec_shutdown(),
            final(self).spec_shutdown() is None,
            final(self).wf(),
            final(self).running_port() is None,
            !final(self).spec_status().running,
            final(self).spec_status().error is None,
    {
        let stopped = match self.running.take() {
            Some(server) => Some(server.shutdown),
            None => None,
        };
        self.status = LocalApiStatus::default();
        stopped
    }

    /// Keeps the server on `port`; the status reads running, without error.
    pub fn keep(&mut self, port: u16)
        requires
            old(self).running_port() == Some(port),
        ensures
            final(self).wf(),
            final(self).running_port() == Some(port),
            final(self).spec_shutdown() == old(self).spec_shutdown(),
            final(self).spec_status().error is None,
    {
        self.status = LocalApiStatus { running: true, port: Some(port), error: None };
    }

    /// Listening on `port` failed with `error`: the server that ran, if
    /// any, goes on running, and the status says so and carries the message,
    /// which is returned.
    pub fn bind_failed(&mut self, port: u16, error: &str) -> (message: String)
        requires
            old(self).wf(),
        ensures
            message@ == bind_error(port, error@),
            final(self).wf(),
            final(self).running_port() == old(self).running_port(),
            final(self).spec_shutdown() == old(self).spec_shutdown(),
            final(self).spec_status().error == Some(message),
    {
        let mut message = String::from_str("无法监听127.0.0.1:");
        let p = decimal_string(port as u64);
        message.append(p.as_str());
        message.append("：");
        message.append(error);
        let previous_port = match &self.running {
            Some(server) => Some(server.port),
            None => None,
        };
        self.status = LocalApiStatus {
            running: previous_port.is_some(),
            port: previous_port,
            error: Some(message.clone()),
        };
        message
    }

    /// A server now listens on `port` until `shutdown` is cancelled. The
    /// one it replaces, if any, is forgotten and its shutdown token handed
    /// back for the caller to cancel, which stops it. The status reads
    /// running.
    pub fn started(&mut self, port: u16, shutdown: CancellationToken) -> (replaced: Option<CancellationToken>)
        ensures
            replaced == old(self).spec_shutdown(),
            final(self).spec_shutdown() == Some(shutdown),
            final(self).wf(),
            final(self).running_port() == Some(port),
            final(self).spec_status().error is None,
    {
        let previous = self.running.take();
        self.running = Some(RunningServer { port, shutdown });
        self.status = LocalApiStatus { running: true, port: Some(port), error: None };
        match previous {
            Some(server) => Some(server.shutdown),
            None => None,
        }
    }
}

} // verus!
