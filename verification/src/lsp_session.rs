//! One language-server session as a state machine: what the client writes
//! for each intent, which request ids are in flight, intents held back until
//! the server has initialized, and what each frame from the server means.
//! Spawning the server and moving bytes is left to the caller.
use vstd::prelude::*;

use crate::json::{fields_view, jarray, jget, jget_str, ji64, jview, jviews, JsonV, JsonValue};
use crate::lsp::{
    completion_items_of, completions_in, diag_view, edit_view, edits_in, item_view, parse_completions,
    parse_publish_diagnostics, parse_text_edits, publish_of, CompletionItem, LspClientMsg, RawDiagnostic,
    RawTextEdit, Token,
};
use crate::linter::{parse_usize, usize_parse};
use crate::num::{dec, u64_to_string};
use crate::split::{trim, trim_end, trim_end_str, trim_str};
use crate::text::{chars_of, copy_str, str_eq, string_of};
use crate::uri::{path_to_uri, uri_of};

verus! {

// ----- building JSON values -----

fn jtext(s: &str) -> (v: JsonValue)
    ensures
        jview(v) == JsonV::Str(s@),
{
    JsonValue::Str(copy_str(s))
}

fn jint(n: i128) -> (v: JsonValue)
    ensures
        jview(v) == JsonV::Number(Some(n as int)),
{
    JsonValue::Number(Some(n))
}

fn jobj1(k1: &str, v1: JsonValue) -> (v: JsonValue)
    ensures
        jview(v) == JsonV::Object(seq![(k1@, jview(v1))]),
{
    let fs = vec![(copy_str(k1), v1)];
    proof {
        reveal_with_fuel(fields_view, 2);
        assert(fs@.drop_last() =~= Seq::<(String, JsonValue)>::empty());
        assert(fields_view(fs@) =~= seq![(k1@, jview(v1))]);
    }
    JsonValue::Object(fs)
}

fn jobj2(k1: &str, v1: JsonValue, k2: &str, v2: JsonValue) -> (v: JsonValue)
    ensures
        jview(v) == JsonV::Object(seq![(k1@, jview(v1)), (k2@, jview(v2))]),
{
    let fs = vec![(copy_str(k1), v1), (copy_str(k2), v2)];
    proof {
        reveal_with_fuel(fields_view, 3);
        assert(fs@.drop_last().drop_last() =~= Seq::<(String, JsonValue)>::empty());
        assert(fields_view(fs@) =~= seq![(k1@, jview(v1)), (k2@, jview(v2))]);
    }
    JsonValue::Object(fs)
}

fn jobj3(k1: &str, v1: JsonValue, k2: &str, v2: JsonValue, k3: &str, v3: JsonValue) -> (v: JsonValue)
    ensures
        jview(v) == JsonV::Object(seq![(k1@, jview(v1)), (k2@, jview(v2)), (k3@, jview(v3))]),
{
    let fs = vec![(copy_str(k1), v1), (copy_str(k2), v2), (copy_str(k3), v3)];
    proof {
        reveal_with_fuel(fields_view, 4);
        assert(fs@.drop_last().drop_last().drop_last() =~= Seq::<(String, JsonValue)>::empty());
        assert(fields_view(fs@) =~= seq![(k1@, jview(v1)), (k2@, jview(v2)), (k3@, jview(v3))]);
    }
    JsonValue::Object(fs)
}

fn jobj4(k1: &str, v1: JsonValue, k2: &str, v2: JsonValue, k3: &str, v3: JsonValue, k4: &str, v4: JsonValue) -> (v: JsonValue)
    ensures
        jview(v) == JsonV::Object(seq![(k1@, jview(v1)), (k2@, jview(v2)), (k3@, jview(v3)), (k4@, jview(v4))]),
{
    let fs = vec![(copy_str(k1), v1), (copy_str(k2), v2), (copy_str(k3), v3), (copy_str(k4), v4)];
    proof {
        reveal_with_fuel(fields_view, 5);
        assert(fs@.drop_last().drop_last().drop_last().drop_last() =~= Seq::<(String, JsonValue)>::empty());
        assert(fields_view(fs@) =~= seq![(k1@, jview(v1)), (k2@, jview(v2)), (k3@, jview(v3)), (k4@, jview(v4))]);
    }
    JsonValue::Object(fs)
}

fn jarr1(v1: JsonValue) -> (v: JsonValue)
    ensures
        jview(v) == JsonV::Array(seq![jview(v1)]),
{
    let a = vec![v1];
    proof {
        reveal_with_fuel(jviews, 2);
        assert(a@.drop_last() =~= Seq::<JsonValue>::empty());
        assert(jviews(a@) =~= seq![jview(v1)]);
    }
    JsonValue::Array(a)
}

// ----- the messages -----

pub open spec fn jstr_v(s: Seq<char>) -> JsonV {
    JsonV::Str(s)
}

pub open spec fn jnum_v(n: int) -> JsonV {
    JsonV::Number(Some(n))
}

/// A JSON-RPC notification.
pub open spec fn notification_v(method: Seq<char>, params: JsonV) -> JsonV {
    JsonV::Object(seq![("jsonrpc"@, jstr_v("2.0"@)), ("method"@, jstr_v(method)), ("params"@, params)])
}

/// A JSON-RPC request with its id.
pub open spec fn request_v(id: int, method: Seq<char>, params: JsonV) -> JsonV {
    JsonV::Object(seq![("jsonrpc"@, jstr_v("2.0"@)), ("id"@, jnum_v(id)), ("method"@, jstr_v(method)), ("params"@, params)])
}

/// A JSON-RPC reply to a request of the server's.
pub open spec fn reply_v(id: int, result: JsonV) -> JsonV {
    JsonV::Object(seq![("jsonrpc"@, jstr_v("2.0"@)), ("id"@, jnum_v(id)), ("result"@, result)])
}

/// `{"uri": uri}`.
pub open spec fn doc_v(uri: Seq<char>) -> JsonV {
    JsonV::Object(seq![("uri"@, jstr_v(uri))])
}

/// What the client writes for an intent; a request gets the id `id`.
pub open spec fn intent_v(intent: LspClientMsg, id: int) -> JsonV {
    match intent {
        LspClientMsg::DidOpen { uri, language_id, version, text } => notification_v(
            "textDocument/didOpen"@,
            JsonV::Object(seq![("textDocument"@, JsonV::Object(seq![
                ("uri"@, jstr_v(uri@)),
                ("languageId"@, jstr_v(language_id@)),
                ("version"@, jnum_v(version as int)),
                ("text"@, jstr_v(text@)),
            ]))]),
        ),
        LspClientMsg::DidChange { uri, version, text } => notification_v(
            "textDocument/didChange"@,
            JsonV::Object(seq![
                ("textDocument"@, JsonV::Object(seq![("uri"@, jstr_v(uri@)), ("version"@, jnum_v(version as int))])),
                ("contentChanges"@, JsonV::Array(seq![JsonV::Object(seq![("text"@, jstr_v(text@))])])),
            ]),
        ),
        LspClientMsg::DidSave { uri } => notification_v(
            "textDocument/didSave"@,
            JsonV::Object(seq![("textDocument"@, doc_v(uri@))]),
        ),
        LspClientMsg::DidClose { uri } => notification_v(
            "textDocument/didClose"@,
            JsonV::Object(seq![("textDocument"@, doc_v(uri@))]),
        ),
        LspClientMsg::Completion { uri, line, character, token } => request_v(
            id,
            "textDocument/completion"@,
            JsonV::Object(seq![
                ("textDocument"@, doc_v(uri@)),
                ("position"@, JsonV::Object(seq![("line"@, jnum_v(line as int)), ("character"@, jnum_v(character as int))])),
            ]),
        ),
        LspClientMsg::Formatting { uri, token } => request_v(
            id,
            "textDocument/formatting"@,
            JsonV::Object(seq![
                ("textDocument"@, doc_v(uri@)),
                ("options"@, JsonV::Object(seq![("tabSize"@, jnum_v(4)), ("insertSpaces"@, JsonV::Bool(true))])),
            ]),
        ),
    }
}

/// The `initialize` request.
pub open spec fn initialize_v(id: int, root_uri: Seq<char>, process_id: int) -> JsonV {
    request_v(
        id,
        "initialize"@,
        JsonV::Object(seq![
            ("processId"@, jnum_v(process_id)),
            ("rootUri"@, jstr_v(root_uri)),
            ("workspaceFolders"@, JsonV::Array(seq![JsonV::Object(seq![("uri"@, jstr_v(root_uri)), ("name"@, jstr_v("root"@))])])),
            ("capabilities"@, JsonV::Object(seq![("textDocument"@, JsonV::Object(seq![
                ("synchronization"@, JsonV::Object(seq![("didSave"@, JsonV::Bool(true)), ("dynamicRegistration"@, JsonV::Bool(false))])),
                ("completion"@, JsonV::Object(seq![("completionItem"@, JsonV::Object(seq![("snippetSupport"@, JsonV::Bool(false))]))])),
                ("formatting"@, JsonV::Object(seq![("dynamicRegistration"@, JsonV::Bool(false))])),
                ("publishDiagnostics"@, JsonV::Object(seq![("relatedInformation"@, JsonV::Bool(false))])),
            ]))])),
        ]),
    )
}

/// The `initialized` notification.
pub open spec fn initialized_v() -> JsonV {
    notification_v("initialized"@, JsonV::Object(Seq::empty()))
}

fn notification(method: &str, params: JsonValue) -> (v: JsonValue)
    ensures
        jview(v) == notification_v(method@, jview(params)),
{
    jobj3("jsonrpc", jtext("2.0"), "method", jtext(method), "params", params)
}

fn request(id: i64, method: &str, params: JsonValue) -> (v: JsonValue)
    ensures
        jview(v) == request_v(id as int, method@, jview(params)),
{
    jobj4("jsonrpc", jtext("2.0"), "id", jint(id as i128), "method", jtext(method), "params", params)
}

fn doc(uri: &str) -> (v: JsonValue)
    ensures
        jview(v) == doc_v(uri@),
{
    jobj1("uri", jtext(uri))
}

fn initialize_request(id: i64, root_uri: &str, process_id: u32) -> (v: JsonValue)
    ensures
        jview(v) == initialize_v(id as int, root_uri@, process_id as int),
{
    let folders = jarr1(jobj2("uri", jtext(root_uri), "name", jtext("root")));
    let sync = jobj2("didSave", JsonValue::Bool(true), "dynamicRegistration", JsonValue::Bool(false));
    let completion = jobj1("completionItem", jobj1("snippetSupport", JsonValue::Bool(false)));
    let formatting = jobj1("dynamicRegistration", JsonValue::Bool(false));
    let publish = jobj1("relatedInformation", JsonValue::Bool(false));
    let caps = jobj1("textDocument", jobj4("synchronization", sync, "completion", completion, "formatting", formatting, "publishDiagnostics", publish));
    let params = jobj4("processId", jint(process_id as i128), "rootUri", jtext(root_uri), "workspaceFolders", folders, "capabilities", caps);
    request(id, "initialize", params)
}

fn initialized_notification() -> (v: JsonValue)
    ensures
        jview(v) == initialized_v(),
{
    let fs: Vec<(String, JsonValue)> = Vec::new();
    proof {
        assert(fields_view(fs@) =~= Seq::<(Seq<char>, JsonV)>::empty());
    }
    notification("initialized", JsonValue::Object(fs))
}

// ----- the session -----

/// What an in-flight request id is waiting for.
#[derive(Clone, Copy, Debug, PartialEq, Eq)]
pub enum PendingKind {
    Initialize,
    Completion(Token),
    Formatting(Token),
}

/// The request an intent makes, if it is a request.
pub open spec fn pending_for(intent: LspClientMsg) -> Option<PendingKind> {
    match intent {
        LspClientMsg::Completion { token, .. } => Some(PendingKind::Completion(token)),
        LspClientMsg::Formatting { token, .. } => Some(PendingKind::Formatting(token)),
        _ => None,
    }
}

/// The session's bookkeeping.
pub struct LspSession {
    /// The id the next request gets.
    pub next_id: i64,
    /// Requests in flight, in the order they were sent, each with its id. The
    /// ids come from `next_id`, which each request advances, and a reply takes
    /// the first request with its id; a list keeps the order in which the
    /// requests went out, which the contracts of `flushed` queues state.
    pub pending: Vec<(i64, PendingKind)>,
    /// Whether the server has answered `initialize`.
    pub initialized: bool,
    /// Intents held back until the server has initialized.
    pub queue: Vec<LspClientMsg>,
}

/// Sending an intent: the id counter and the requests in flight after it.
pub open spec fn after_send(next: int, pending: Seq<(i64, PendingKind)>, intent: LspClientMsg) -> (int, Seq<(i64, PendingKind)>) {
    match pending_for(intent) {
        Some(k) => (next + 1, pending.push((next as i64, k))),
        None => (next, pending),
    }
}

/// Sending the held-back intents in order: the id counter, the requests in
/// flight, and the messages written.
pub open spec fn flushed(next: int, pending: Seq<(i64, PendingKind)>, queue: Seq<LspClientMsg>)
    -> (int, Seq<(i64, PendingKind)>, Seq<JsonV>)
    decreases queue.len(),
{
    if queue.len() == 0 {
        (next, pending, Seq::empty())
    } else {
        let (n1, p1) = after_send(next, pending, queue[0]);
        let (n2, p2, ms) = flushed(n1, p1, queue.drop_first());
        (n2, p2, seq![intent_v(queue[0], next)] + ms)
    }
}

/// How many of the intents are requests.
pub open spec fn requests_in(queue: Seq<LspClientMsg>) -> nat
    decreases queue.len(),
{
    if queue.len() == 0 {
        0
    } else {
        requests_in(queue.drop_first()) + if pending_for(queue[0]) is Some { 1nat } else { 0nat }
    }
}

/// The first in-flight request with id `id`.
pub open spec fn find_pending(pending: Seq<(i64, PendingKind)>, id: i64) -> Option<int> {
    if exists|k: int| 0 <= k < pending.len() && pending[k].0 == id {
        Some(choose|k: int| 0 <= k < pending.len() && pending[k].0 == id
            && forall|j: int| 0 <= j < k ==> pending[j].0 != id)
    } else {
        None
    }
}

/// What the session reports to the editor.
pub enum LspEvent {
    /// Diagnostics for a file.
    Diagnostics(String, Vec<RawDiagnostic>),
    /// The server answered `initialize`.
    Initialized,
    /// Completion items for the request issued with this token.
    Completions(Token, Vec<CompletionItem>),
    /// Formatting edits for the request issued with this token.
    FormatEdits(Token, Vec<RawTextEdit>),
}

/// What handling a frame asks for: messages to write to the server, and an
/// event for the editor.
pub struct FrameOutcome {
    pub writes: Vec<JsonValue>,
    pub event: Option<LspEvent>,
}

pub open spec fn writes_view(w: Seq<JsonValue>) -> Seq<JsonV> {
    w.map_values(|v: JsonValue| jview(v))
}

/// How many settings items a `workspace/configuration` request asks for.
pub open spec fn config_items(frame: JsonValue) -> nat {
    match jget(frame, "params"@) {
        Some(p) => match jget(p, "items"@) {
            Some(i) => match jarray(i) {
                Some(a) => a.len(),
                None => 0,
            },
            None => 0,
        },
        None => 0,
    }
}

/// The reply to a request of the server's: one null setting per item asked
/// for `workspace/configuration` ("use the defaults"), null for anything else.
pub open spec fn server_reply_v(method: Seq<char>, frame: JsonValue) -> JsonV {
    if method == "workspace/configuration"@ {
        JsonV::Array(Seq::new(config_items(frame), |i: int| JsonV::Null))
    } else {
        JsonV::Null
    }
}

/// The frame's id, when it is an integer.
pub open spec fn frame_id(frame: JsonValue) -> Option<i64> {
    match jget(frame, "id"@) {
        Some(v) => ji64(v),
        None => None,
    }
}

fn server_request_reply(method: &str, frame: &JsonValue) -> (v: JsonValue)
    ensures
        jview(v) == server_reply_v(method@, *frame),
{
    if !str_eq(method, "workspace/configuration") {
        return JsonValue::Null;
    }
    let n = match frame.get("params") {
        Some(p) => match p.get("items") {
            Some(i) => match i.as_array() {
                Some(a) => a.len(),
                None => 0,
            },
            None => 0,
        },
        None => 0,
    };
    let mut a: Vec<JsonValue> = Vec::new();
    for k in 0..n
        invariant
            jviews(a@) == Seq::new(k as nat, |i: int| JsonV::Null),
    {
        let ghost before = a@;
        a.push(JsonValue::Null);
        proof {
            assert(a@.drop_last() =~= before);
            assert(a@.last() == JsonValue::Null);
            assert(jview(JsonValue::Null) == JsonV::Null);
            assert(a@.len() > 0);
            assert(jviews(a@) == jviews(a@.drop_last()).push(jview(a@.last())));
            assert(jviews(a@) == jviews(before).push(JsonV::Null));
            assert(jviews(a@) =~= Seq::new((k + 1) as nat, |i: int| JsonV::Null));
        }
    }
    JsonValue::Array(a)
}

impl LspSession {
    /// A new session: the `initialize` request (id 1) is the first message.
    pub fn start(root: &str, process_id: u32) -> (r: (LspSession, JsonValue))
        ensures
            r.0.next_id == 2,
            r.0.pending@ == seq![(1i64, PendingKind::Initialize)],
            !r.0.initialized,
            r.0.queue@.len() == 0,
            jview(r.1) == initialize_v(1, uri_of(root@), process_id as int),
            session_ok(r.0),
    {
        let uri = path_to_uri(root);
        let msg = initialize_request(1, uri.as_str(), process_id);
        let s = LspSession { next_id: 2, pending: vec![(1, PendingKind::Initialize)], initialized: false, queue: Vec::new() };
        (s, msg)
    }

    /// The message for an intent; a request takes the next id and is
    /// remembered as in flight.
    fn send(&mut self, intent: LspClientMsg) -> (m: JsonValue)
        requires
            old(self).next_id < i64::MAX,
        ensures
            jview(m) == intent_v(intent, old(self).next_id as int),
            (final(self).next_id as int, final(self).pending@) == after_send(old(self).next_id as int, old(self).pending@, intent),
            final(self).initialized == old(self).initialized,
            final(self).queue == old(self).queue,
            session_ok(*old(self)) ==> session_ok(*final(self)),
    {
        match intent {
            LspClientMsg::DidOpen { uri, language_id, version, text } => notification(
                "textDocument/didOpen",
                jobj1("textDocument", jobj4(
                    "uri", jtext(uri.as_str()),
                    "languageId", jtext(language_id.as_str()),
                    "version", jint(version as i128),
                    "text", jtext(text.as_str()),
                )),
            ),
            LspClientMsg::DidChange { uri, version, text } => notification(
                "textDocument/didChange",
                jobj2(
                    "textDocument", jobj2("uri", jtext(uri.as_str()), "version", jint(version as i128)),
                    "contentChanges", jarr1(jobj1("text", jtext(text.as_str()))),
                ),
            ),
            LspClientMsg::DidSave { uri } => notification("textDocument/didSave", jobj1("textDocument", doc(uri.as_str()))),
            LspClientMsg::DidClose { uri } => notification("textDocument/didClose", jobj1("textDocument", doc(uri.as_str()))),
            LspClientMsg::Completion { uri, line, character, token } => {
                let id = self.next_id;
                self.next_id = id + 1;
                self.pending.push((id, PendingKind::Completion(token)));
                request(
                    id,
                    "textDocument/completion",
                    jobj2(
                        "textDocument", doc(uri.as_str()),
                        "position", jobj2("line", jint(line as i128), "character", jint(character as i128)),
                    ),
                )
            },
            LspClientMsg::Formatting { uri, token } => {
                let id = self.next_id;
                self.next_id = id + 1;
                self.pending.push((id, PendingKind::Formatting(token)));
                request(
                    id,
                    "textDocument/formatting",
                    jobj2(
                        "textDocument", doc(uri.as_str()),
                        "options", jobj2("tabSize", jint(4), "insertSpaces", JsonValue::Bool(true)),
                    ),
                )
            },
        }
    }

    /// An intent from the editor: held back until the server has
    /// initialized, else the message to write.
    pub fn on_intent(&mut self, intent: LspClientMsg) -> (m: Option<JsonValue>)
        requires
            old(self).next_id < i64::MAX,
        ensures
            !old(self).initialized ==> {
                &&& m is None
                &&& final(self).queue@ == old(self).queue@.push(intent)
                &&& final(self).next_id == old(self).next_id
                &&& final(self).pending == old(self).pending
            },
            old(self).initialized ==> {
                &&& m matches Some(v) && jview(v) == intent_v(intent, old(self).next_id as int)
                &&& (final(self).next_id as int, final(self).pending@) == after_send(old(self).next_id as int, old(self).pending@, intent)
                &&& final(self).queue == old(self).queue
            },
            final(self).initialized == old(self).initialized,
            session_ok(*old(self)) ==> session_ok(*final(self)),
    {
        if !self.initialized {
            self.queue.push(intent);
            return None;
        }
        Some(self.send(intent))
    }

    /// Sends the held-back intents, in order.
    fn flush(&mut self) -> (ms: Vec<JsonValue>)
        requires
            old(self).next_id + requests_in(old(self).queue@) < i64::MAX,
        ensures
            ({
                let (n2, p2, m2) = flushed(old(self).next_id as int, old(self).pending@, old(self).queue@);
                &&& final(self).next_id == n2
                &&& final(self).pending@ == p2
                &&& writes_view(ms@) == m2
            }),
            final(self).queue@.len() == 0,
            final(self).initialized == old(self).initialized,
            session_ok(*old(self)) ==> session_ok(*final(self)),
    {
        let ghost ok0 = session_ok(*self);
        let ghost n0 = self.next_id as int;
        let ghost p0 = self.pending@;
        let ghost q0 = self.queue@;
        let mut q: Vec<LspClientMsg> = Vec::new();
        std::mem::swap(&mut q, &mut self.queue);
        let mut ms: Vec<JsonValue> = Vec::new();
        while q.len() > 0
            invariant
                flushed(n0, p0, q0) == ({
                    let (n2, p2, m2) = flushed(self.next_id as int, self.pending@, q@);
                    (n2, p2, writes_view(ms@) + m2)
                }),
                self.next_id + requests_in(q@) < i64::MAX,
                self.queue@.len() == 0,
                self.initialized == old(self).initialized,
                ok0 ==> session_ok(*self),
            decreases q.len(),
        {
            let ghost qb = q@;
            let ghost nb = self.next_id as int;
            let ghost pb = self.pending@;
            let ghost wb = writes_view(ms@);
            let intent = q.remove(0);
            proof {
                assert(qb[0] == intent);
                assert(qb.drop_first() =~= q@);
            }
            let m = self.send(intent);
            ms.push(m);
            proof {
                assert(writes_view(ms@) =~= wb.push(jview(m)));
                let (n2, p2, m2) = flushed(self.next_id as int, self.pending@, q@);
                assert(flushed(nb, pb, qb) == (n2, p2, seq![intent_v(intent, nb)] + m2));
                assert(wb + (seq![intent_v(intent, nb)] + m2) =~= writes_view(ms@) + m2);
            }
        }
        proof {
            assert(writes_view(ms@) + Seq::<JsonV>::empty() =~= writes_view(ms@));
        }
        ms
    }

    /// The first in-flight request with this id.
    fn find(&self, id: i64) -> (r: Option<usize>)
        ensures
            match r {
                Some(k) => k < self.pending@.len() && find_pending(self.pending@, id) == Some(k as int),
                None => find_pending(self.pending@, id) is None,
            },
    {
        let n = self.pending.len();
        for k in 0..n
            invariant
                n == self.pending@.len(),
                forall|j: int| 0 <= j < k ==> self.pending@[j].0 != id,
        {
            if self.pending[k].0 == id {
                proof {
                    let w = k as int;
                    assert(exists|x: int| 0 <= x < self.pending@.len() && self.pending@[x].0 == id);
                    let c = choose|x: int| 0 <= x < self.pending@.len() && self.pending@[x].0 == id
                        && forall|j: int| 0 <= j < x ==> self.pending@[j].0 != id;
                    assert(0 <= w < self.pending@.len() && self.pending@[w].0 == id
                        && forall|j: int| 0 <= j < w ==> self.pending@[j].0 != id);
                    if c < w {
                        assert(self.pending@[c].0 != id);
                    } else if c > w {
                        assert(self.pending@[w].0 != id);
                    }
                }
                return Some(k);
            }
        }
        None
    }

    /// Handles one frame from the server. A request of the server's is
    /// answered; diagnostics are passed on; a response settles its request:
    /// the answer to `initialize` sends `initialized` and every held-back
    /// intent, completions and formatting edits go to the editor with the
    /// token they were asked with. Anything else is dropped.
    pub fn on_frame(&mut self, frame: &JsonValue) -> (out: FrameOutcome)
        requires
            old(self).next_id + requests_in(old(self).queue@) < i64::MAX,
        ensures
            match (frame_id(*frame), jget_str(*frame, "method"@)) {
                (Some(id), Some(m)) => {
                    &&& writes_view(out.writes@) == seq![reply_v(id as int, server_reply_v(m, *frame))]
                    &&& out.event is None
                    &&& same_session(*final(self), *old(self))
                },
                (None, Some(m)) => {
                    &&& out.writes@.len() == 0
                    &&& same_session(*final(self), *old(self))
                    &&& if m == "textDocument/publishDiagnostics"@ {
                        match publish_of(*frame) {
                            Some((p, ds)) => out.event matches Some(LspEvent::Diagnostics(ep, eds))
                                && ep@ == p && eds@.map_values(|d: RawDiagnostic| diag_view(d)) == ds,
                            None => out.event is None,
                        }
                    } else {
                        out.event is None
                    }
                },
                (Some(id), None) => match find_pending(old(self).pending@, id) {
                    None => out.writes@.len() == 0 && out.event is None && same_session(*final(self), *old(self)),
                    Some(k) => {
                        let rest = old(self).pending@.remove(k);
                        match old(self).pending@[k].1 {
                            PendingKind::Initialize => {
                                let (n2, p2, m2) = flushed(old(self).next_id as int, rest, old(self).queue@);
                                &&& final(self).initialized
                                &&& final(self).queue@.len() == 0
                                &&& final(self).next_id == n2
                                &&& final(self).pending@ == p2
                                &&& writes_view(out.writes@) == seq![initialized_v()] + m2
                                &&& out.event matches Some(LspEvent::Initialized)
                            },
                            PendingKind::Completion(t) => {
                                &&& final(self).pending@ == rest
                                &&& final(self).next_id == old(self).next_id
                                &&& final(self).initialized == old(self).initialized
                                &&& final(self).queue@ == old(self).queue@
                                &&& out.writes@.len() == 0
                                &&& out.event matches Some(LspEvent::Completions(et, items)) && et == t
                                    && items@.map_values(|c: CompletionItem| item_view(c)) == completions_in(completion_items_of(*frame))
                            },
                            PendingKind::Formatting(t) => {
                                &&& final(self).pending@ == rest
                                &&& final(self).next_id == old(self).next_id
                                &&& final(self).initialized == old(self).initialized
                                &&& final(self).queue@ == old(self).queue@
                                &&& out.writes@.len() == 0
                                &&& out.event matches Some(LspEvent::FormatEdits(et, es)) && et == t
                                    && es@.map_values(|e: RawTextEdit| edit_view(e)) == match jget(*frame, "result"@) {
                                        Some(res) => match jarray(res) {
                                            Some(a) => edits_in(a),
                                            None => Seq::empty(),
                                        },
                                        None => Seq::empty(),
                                    }
                            },
                        }
                    },
                },
                (None, None) => out.writes@.len() == 0 && out.event is None && same_session(*final(self), *old(self)),
            },
            session_ok(*old(self)) ==> session_ok(*final(self)),
    {
        let id = match frame.get("id") {
            Some(v) => v.as_i64(),
            None => None,
        };
        let method = frame.get_str("method");
        match (id, method) {
            (Some(id), Some(m)) => {
                let reply = jobj3("jsonrpc", jtext("2.0"), "id", jint(id as i128), "result", server_request_reply(m, frame));
                let writes = vec![reply];
                proof {
                    assert(writes_view(writes@) =~= seq![jview(reply)]);
                }
                FrameOutcome { writes, event: None }
            },
            (None, Some(m)) => {
                let event = if str_eq(m, "textDocument/publishDiagnostics") {
                    match parse_publish_diagnostics(frame) {
                        Some((p, ds)) => Some(LspEvent::Diagnostics(p, ds)),
                        None => None,
                    }
                } else {
                    None
                };
                FrameOutcome { writes: Vec::new(), event }
            },
            (Some(id), None) => {
                let k = match self.find(id) {
                    Some(k) => k,
                    None => {
                        return FrameOutcome { writes: Vec::new(), event: None };
                    },
                };
                let ghost p0 = self.pending@;
                let (_, kind) = self.pending.remove(k);
                proof {
                    assert(self.pending@ == p0.remove(k as int));
                    if session_ok(*old(self)) {
                        assert forall|a: int, b: int| 0 <= a < b < self.pending@.len() implies
                            #[trigger] self.pending@[a].0 < #[trigger] self.pending@[b].0 by {
                            if a < k {
                                if b < k {
                                    assert(self.pending@[b] == p0[b]);
                                } else {
                                    assert(self.pending@[b] == p0[b + 1]);
                                }
                            } else {
                                assert(self.pending@[a] == p0[a + 1] && self.pending@[b] == p0[b + 1]);
                            }
                        }
                        assert forall|a: int| 0 <= a < self.pending@.len() implies
                            1 <= #[trigger] self.pending@[a].0 < self.next_id by {
                            if a < k {
                                assert(self.pending@[a] == p0[a]);
                            } else {
                                assert(self.pending@[a] == p0[a + 1]);
                            }
                        }
                    }
                }
                match kind {
                    PendingKind::Initialize => {
                        self.initialized = true;
                        let mut writes = vec![initialized_notification()];
                        let ghost w0 = writes@;
                        let mut rest = self.flush();
                        let ghost r0 = rest@;
                        writes.append(&mut rest);
                        proof {
                            assert(writes@ == w0 + r0);
                            assert(writes_view(writes@) =~= writes_view(w0) + writes_view(r0));
                            assert(writes_view(w0) =~= seq![initialized_v()]);
                        }
                        FrameOutcome { writes, event: Some(LspEvent::Initialized) }
                    },
                    PendingKind::Completion(t) => {
                        FrameOutcome { writes: Vec::new(), event: Some(LspEvent::Completions(t, parse_completions(frame))) }
                    },
                    PendingKind::Formatting(t) => {
                        FrameOutcome { writes: Vec::new(), event: Some(LspEvent::FormatEdits(t, parse_text_edits(frame))) }
                    },
                }
            },
            (None, None) => FrameOutcome { writes: Vec::new(), event: None },
        }
    }
}

/// The requests in flight carry distinct ids, in the order they were sent,
/// all below the next id: a response can only settle the request it answers.
pub open spec fn session_ok(s: LspSession) -> bool {
    &&& 1 <= s.next_id
    &&& forall|k: int| 0 <= k < s.pending@.len() ==> 1 <= #[trigger] s.pending@[k].0 < s.next_id
    &&& forall|k: int, l: int| 0 <= k < l < s.pending@.len() ==> #[trigger] s.pending@[k].0 < #[trigger] s.pending@[l].0
}

/// The session unchanged.
pub open spec fn same_session(a: LspSession, b: LspSession) -> bool {
    &&& a.next_id == b.next_id
    &&& a.pending@ == b.pending@
    &&& a.initialized == b.initialized
    &&& a.queue@ == b.queue@
}

// ----- Content-Length framing -----

/// The header in front of a message body of `len` bytes.
pub open spec fn frame_header_of(len: nat) -> Seq<char> {
    "Content-Length: "@ + dec(len) + "\r\n\r\n"@
}

/// The header to write before a message body of `len` bytes.
pub fn frame_header(len: usize) -> (s: String)
    ensures
        s@ == frame_header_of(len as nat),
{
    let mut s = String::from_str("Content-Length: ");
    let n = u64_to_string(len as u64);
    s.append(n.as_str());
    s.append("\r\n\r\n");
    s
}

/// One header line read from the server, trailing whitespace aside.
#[derive(Clone, Copy, Debug, PartialEq, Eq, Structural)]
pub enum HeaderLine {
    /// The blank line that ends the headers.
    End,
    /// A `Content-Length:` header and the length it gives, when it is a number.
    Length(Option<usize>),
    /// Any other header.
    Other,
}

pub open spec fn header_line_of(line: Seq<char>) -> HeaderLine {
    let t = trim_end(line);
    if t.len() == 0 {
        HeaderLine::End
    } else if "Content-Length:"@.is_prefix_of(t) {
        HeaderLine::Length(usize_parse(trim(t.skip("Content-Length:"@.len() as int))))
    } else {
        HeaderLine::Other
    }
}

/// Reads one header line.
pub fn header_line(line: &str) -> (h: HeaderLine)
    ensures
        h == header_line_of(line@),
{
    let t = trim_end_str(line);
    if t.as_str().is_empty() {
        return HeaderLine::End;
    }
    let cs = chars_of(t.as_str());
    let key = chars_of("Content-Length:");
    let k = key.len();
    proof {
        reveal_strlit("Content-Length:");
    }
    if cs.len() < k {
        return HeaderLine::Other;
    }
    let mut i: usize = 0;
    while i < k
        invariant
            k == key@.len(),
            k <= cs@.len(),
            key@ == "Content-Length:"@,
            cs@ == t@,
            t@ == trim_end(line@),
            t@.len() > 0,
            i <= k,
            forall|j: int| 0 <= j < i ==> cs@[j] == key@[j],
        decreases k - i,
    {
        if cs[i] != key[i] {
            proof {
                assert(!"Content-Length:"@.is_prefix_of(t@)) by {
                    if "Content-Length:"@.is_prefix_of(t@) {
                        assert(t@[i as int] == key@[i as int]);
                    }
                }
            }
            return HeaderLine::Other;
        }
        i += 1;
    }
    proof {
        assert(t@.subrange(0, k as int) =~= key@);
        assert("Content-Length:"@.is_prefix_of(t@));
    }
    let rest = string_of(cs.as_slice().split_at(k).1);
    let trimmed = trim_str(rest.as_str());
    proof {
        assert(rest@ =~= t@.skip(k as int));
    }
    HeaderLine::Length(parse_usize(trimmed.as_str()))
}

} // verus!
