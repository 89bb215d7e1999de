//! The socket server: the client and frontend registries, the response-body
//! cache, message processing with gzip transparency, and the fan-out rules.
use crate::json::{jget, jget_str, json_view, ser, Json, JsonV};
use crate::json_parse::parse_json_text;
use crate::react_native::{opt_sview, ReactNativeInspectorConnectionManager};
use vstd::prelude::*;

verus! {

broadcast use vstd::std_specs::vec::group_vec_axioms, vstd::seq::group_seq_axioms;

/// The compressed-parameters shape a client may put in an envelope.
pub struct CompressedParams {
    pub compressed: bool,
    pub data: Vec<u8>,
}

/// The mathematical model of a CDP envelope.
pub ghost struct CDPMessageV {
    pub method: Option<Seq<char>>,
    pub params: Option<JsonV>,
    pub id: Option<u64>,
    pub result: Option<JsonV>,
    pub error: Option<JsonV>,
}

/// A CDP envelope: a request, a response, or an event, depending on which
/// fields it carries.
pub struct CDPMessage {
    pub method: Option<String>,
    pub params: Option<Json>,
    pub id: Option<u64>,
    pub result: Option<Json>,
    pub error: Option<Json>,
}

impl View for CDPMessage {
    type V = CDPMessageV;

    open spec fn view(&self) -> CDPMessageV {
        CDPMessageV {
            method: match self.method {
                Some(m) => Some(m@),
                None => None,
            },
            params: match self.params {
                Some(p) => Some(json_view(p)),
                None => None,
            },
            id: self.id,
            result: match self.result {
                Some(v) => Some(json_view(v)),
                None => None,
            },
            error: match self.error {
                Some(v) => Some(json_view(v)),
                None => None,
            },
        }
    }
}

/// The optional field under `key`: missing or null give `None`.
pub open spec fn opt_any_field(v: JsonV, key: Seq<char>) -> Option<JsonV> {
    match jget(v, key) {
        None => None,
        Some(JsonV::Null) => None,
        Some(f) => Some(f),
    }
}

/// The optional unsigned integer under `key`; a present value of another
/// shape is a type error.
pub open spec fn opt_u64_field(v: JsonV, key: Seq<char>) -> Option<Option<u64>> {
    match jget(v, key) {
        None => Some(None),
        Some(JsonV::Null) => Some(None),
        Some(JsonV::Int(n)) => if n >= 0 {
            Some(Some(n as u64))
        } else {
            None
        },
        Some(_) => None,
    }
}

/// The envelope denoted by a JSON value: an object whose `method` is a
/// string and whose `id` is an unsigned integer, when present.
pub open spec fn cdp_message_of(v: JsonV) -> Option<CDPMessageV> {
    if !(v is Obj) {
        None
    } else {
        match (crate::cdp_bridge::opt_str_field(v, "method"@), opt_u64_field(v, "id"@)) {
            (Some(method), Some(id)) => Some(
                CDPMessageV {
                    method,
                    params: opt_any_field(v, "params"@),
                    id,
                    result: opt_any_field(v, "result"@),
                    error: opt_any_field(v, "error"@),
                },
            ),
            _ => None,
        }
    }
}

/// The serialization of an envelope: its present fields, in order.
pub open spec fn cdp_to_json(m: CDPMessageV) -> JsonV {
    let f1: Seq<(Seq<char>, JsonV)> = match m.method {
        Some(s) => seq![("method"@, JsonV::Str(s))],
        None => Seq::empty(),
    };
    let f2: Seq<(Seq<char>, JsonV)> = match m.params {
        Some(p) => seq![("params"@, p)],
        None => Seq::empty(),
    };
    let f3: Seq<(Seq<char>, JsonV)> = match m.id {
        Some(n) => seq![("id"@, JsonV::Int(n as int))],
        None => Seq::empty(),
    };
    let f4: Seq<(Seq<char>, JsonV)> = match m.result {
        Some(v) => seq![("result"@, v)],
        None => Seq::empty(),
    };
    let f5: Seq<(Seq<char>, JsonV)> = match m.error {
        Some(v) => seq![("error"@, v)],
        None => Seq::empty(),
    };
    JsonV::Obj(f1 + f2 + f3 + f4 + f5)
}

fn read_cdp_message(v: &Json) -> (r: Option<CDPMessage>)
    ensures
        match r {
            Some(m) => cdp_message_of(v@) == Some(m@) && (match m.id {
                Some(n) => n <= 0x7FFF_FFFF_FFFF_FFFF,
                None => true,
            }),
            None => cdp_message_of(v@) is None,
        },
{
    if !v.is_object() {
        return None;
    }
    let method: Option<String> = match v.get("method") {
        None => None,
        Some(f) => match f {
            Json::Null => None,
            Json::Str(s) => Some(s.clone()),
            _ => {
                return None;
            },
        },
    };
    let id: Option<u64> = match v.get("id") {
        None => None,
        Some(f) => match f {
            Json::Null => None,
            Json::Int(n) => if *n >= 0 {
                Some(*n as u64)
            } else {
                return None;
            },
            _ => {
                return None;
            },
        },
    };
    let params = read_opt_any(v, "params");
    let result = read_opt_any(v, "result");
    let error = read_opt_any(v, "error");
    Some(CDPMessage { method, params, id, result, error })
}

fn read_opt_any(v: &Json, key: &str) -> (r: Option<Json>)
    ensures
        match r {
            Some(f) => opt_any_field(v@, key@) == Some(f@),
            None => opt_any_field(v@, key@) is None,
        },
{
    match v.get(key) {
        None => None,
        Some(f) => match f {
            Json::Null => None,
            other => Some(other.clone_value()),
        },
    }
}

fn write_cdp_message(m: &CDPMessage) -> (r: String)
    requires
        match m.id {
            Some(n) => n <= 0x7FFF_FFFF_FFFF_FFFF,
            None => true,
        },
    ensures
        r@ == ser(cdp_to_json(m@)),
{
    let mut b = crate::json::ObjBuilder::new();
    match &m.method {
        Some(s) => b.field("method", Json::Str(s.clone())),
        None => {},
    }
    match &m.params {
        Some(p) => b.field("params", p.clone_value()),
        None => {},
    }
    match m.id {
        Some(n) => {
            b.field("id", Json::Int(n as i64));
        },
        None => {},
    }
    match &m.result {
        Some(v) => b.field("result", v.clone_value()),
        None => {},
    }
    match &m.error {
        Some(v) => b.field("error", v.clone_value()),
        None => {},
    }
    let obj = b.build();
    proof {
        assert(obj@->Obj_0 =~= cdp_to_json(m@)->Obj_0);
    }
    crate::json::to_json_string(&obj)
}

// ---------------------------------------------------------------------------
// Message processing: gzip transparency
// ---------------------------------------------------------------------------
/// What gunzipping a byte string to text yields, if it yields anything.
/// The result depends on the bytes alone.
pub uninterp spec fn gunzip_of(data: Seq<u8>) -> Option<Seq<char>>;

/// Relies on flate2's `GzDecoder` together with `read_to_string`: decoding
/// either yields the full decompressed text or fails.
#[verifier::external_body]
fn gunzip_to_string(data: &Vec<u8>) -> (r: Option<String>)
    ensures
        match r {
            Some(s) => gunzip_of(data@) == Some(s@),
            None => gunzip_of(data@) is None,
        },
{
    let mut decoder = flate2::read::GzDecoder::new(&data[..]);
    let mut out = String::new();
    match std::io::Read::read_to_string(&mut decoder, &mut out) {
        Ok(_) => Some(out),
        Err(_) => None,
    }
}

/// The compressed-parameters record denoted by a value: an object with a
/// boolean `compressed` and a byte array `data`.
pub open spec fn compressed_params_of(p: JsonV) -> Option<(bool, Seq<u8>)> {
    match (jget(p, "compressed"@), jget(p, "data"@)) {
        (Some(JsonV::Bool(c)), Some(JsonV::Arr(items))) => {
            if forall|i: int| 0 <= i < items.len() ==> is_byte(#[trigger] items[i]) {
                Some((c, Seq::new(items.len(), |i: int| byte_of(items[i]))))
            } else {
                None
            }
        },
        _ => None,
    }
}

pub open spec fn is_byte(v: JsonV) -> bool {
    v matches JsonV::Int(n) && 0 <= n <= 255
}

pub open spec fn byte_of(v: JsonV) -> u8 {
    v->Int_0 as u8
}

fn read_compressed_params(p: &Json) -> (r: Option<CompressedParams>)
    ensures
        match r {
            Some(c) => compressed_params_of(p@) == Some((c.compressed, c.data@)),
            None => compressed_params_of(p@) is None,
        },
{
    let c = match p.get("compressed") {
        Some(f) => match f.as_bool() {
            Some(c) => c,
            None => {
                return None;
            },
        },
        None => {
            return None;
        },
    };
    let items = match p.get("data") {
        Some(f) => match f.as_array() {
            Some(items) => items,
            None => {
                return None;
            },
        },
        None => {
            return None;
        },
    };
    proof {
        crate::json::lemma_json_view_seq(items@);
    }
    let ghost itemsv = crate::json::json_view_seq(items@);
    let n = items.len();
    let mut data: Vec<u8> = Vec::new();
    let mut i: usize = 0;
    while i < n
        invariant
            n == items@.len(),
            itemsv == crate::json::json_view_seq(items@),
            jget(p@, "compressed"@) == Some(JsonV::Bool(c)),
            jget(p@, "data"@) == Some(JsonV::Arr(itemsv)),
            itemsv.len() == n,
            forall|k: int| 0 <= k < n ==> #[trigger] itemsv[k] == json_view(items@[k]),
            i <= n,
            data@.len() == i,
            forall|k: int| 0 <= k < i ==> is_byte(#[trigger] itemsv[k]),
            forall|k: int| 0 <= k < i ==> #[trigger] data@[k] == byte_of(itemsv[k]),
        decreases n - i,
    {
        match items[i].as_i64() {
            Some(b) => {
                if 0 <= b && b <= 255 {
                    data.push(b as u8);
                } else {
                    proof {
                        assert(!is_byte(itemsv[i as int]));
                    }
                    return None;
                }
            },
            None => {
                proof {
                    assert(!is_byte(itemsv[i as int]));
                }
                return None;
            },
        }
        i = i + 1;
    }
    proof {
        assert(data@ =~= Seq::new(itemsv.len(), |k: int| byte_of(itemsv[k])));
    }
    Some(CompressedParams { compressed: c, data })
}

/// The envelope after its decompressed content has been merged in: the
/// content's `method` and `params` replace the envelope's, where present.
pub open spec fn merged_message(m: CDPMessageV, dec: Seq<char>) -> CDPMessageV {
    match parse_json_text(dec) {
        Some(inner) => CDPMessageV {
            method: match jget_str(inner, "method"@) {
                Some(s) => Some(s),
                None => m.method,
            },
            params: match jget(inner, "params"@) {
                Some(p) => Some(p),
                None => m.params,
            },
            id: m.id,
            result: m.result,
            error: m.error,
        },
        None => m,
    }
}

/// Merge the decompressed text of a compressed-parameters envelope back into
/// the envelope.
pub fn merge_decompressed(m: CDPMessage, decompressed: &str) -> (r: CDPMessage)
    ensures
        r@ == merged_message(m@, decompressed@),
{
    match crate::json_parse::parse_json(decompressed) {
        Some(inner) => {
            let method = match inner.get_str("method") {
                Some(s) => Some(s.clone()),
                None => m.method,
            };
            let params = match inner.get("params") {
                Some(p) => Some(p.clone_value()),
                None => m.params,
            };
            CDPMessage { method, params, id: m.id, result: m.result, error: m.error }
        },
        None => m,
    }
}

/// What relaying a client frame hands on: the frame itself, unless it is a
/// well-typed envelope whose parameters carry gzip-compressed content that
/// decodes; the decoded `method` and `params` then replace the envelope's
/// own, and the envelope is written back out.
pub open spec fn processed_message(text: Seq<char>) -> Seq<char> {
    match parse_json_text(text) {
        Some(v) => match cdp_message_of(v) {
            Some(m) => match m.params {
                Some(p) => match compressed_params_of(p) {
                    Some((c, data)) => if c && data.len() > 0 {
                        match gunzip_of(data) {
                            Some(dec) => ser(cdp_to_json(merged_message(m, dec))),
                            None => text,
                        }
                    } else {
                        text
                    },
                    None => text,
                },
                None => text,
            },
            None => text,
        },
        None => text,
    }
}

// ---------------------------------------------------------------------------
// The registries
// ---------------------------------------------------------------------------
/// A debug target: a page or agent that frontends attach to.  The outbox
/// models the unbounded channel its writer task drains.
pub struct Client {
    pub id: String,
    pub url: Option<String>,
    pub title: Option<String>,
    pub favicon: Option<String>,
    pub ua: Option<String>,
    pub time: Option<String>,
    pub outbox: Vec<String>,
}

/// An attached DevTools frontend, bound to a client id at creation.
pub struct DevTools {
    pub id: String,
    pub client_id: Option<String>,
    pub outbox: Vec<String>,
}

/// A client row as the directory endpoints present it.
pub struct ClientInfo {
    pub id: String,
    pub url: Option<String>,
    pub title: Option<String>,
    pub favicon: Option<String>,
    pub ua: Option<String>,
    pub time: Option<String>,
}

/// A frontend row as the directory endpoints present it.
pub struct InspectorInfo {
    pub id: String,
    pub client_id: Option<String>,
}

/// The socket server: the four registries and the response-body cache.
pub struct SocketServer {
    pub clients: Vec<Client>,
    pub devtools: Vec<DevTools>,
    pub react_native_inspector_manager: ReactNativeInspectorConnectionManager,
    pub reactotron_server: Option<crate::reactotron::ReactotronServer>,
    pub response_bodies: Vec<(String, String)>,
}

/// The first client with the id, or -1.
pub open spec fn client_index(clients: Seq<Client>, id: Seq<char>) -> int
    decreases clients.len(),
{
    if clients.len() == 0 {
        -1
    } else if clients[0].id@ == id {
        0
    } else {
        let r = client_index(clients.drop_first(), id);
        if r == -1 {
            -1
        } else {
            r + 1
        }
    }
}

/// The first frontend with the id, or -1.
pub open spec fn devtools_index(dts: Seq<DevTools>, id: Seq<char>) -> int
    decreases dts.len(),
{
    if dts.len() == 0 {
        -1
    } else if dts[0].id@ == id {
        0
    } else {
        let r = devtools_index(dts.drop_first(), id);
        if r == -1 {
            -1
        } else {
            r + 1
        }
    }
}

/// The first cache entry with the request id, or -1.
pub open spec fn body_index(bodies: Seq<(String, String)>, rid: Seq<char>) -> int
    decreases bodies.len(),
{
    if bodies.len() == 0 {
        -1
    } else if bodies[0].0@ == rid {
        0
    } else {
        let r = body_index(bodies.drop_first(), rid);
        if r == -1 {
            -1
        } else {
            r + 1
        }
    }
}

pub proof fn lemma_client_index(clients: Seq<Client>, id: Seq<char>)
    ensures
        client_index(clients, id) == -1 ==> forall|i: int|
            0 <= i < clients.len() ==> (#[trigger] clients[i]).id@ != id,
        client_index(clients, id) != -1 ==> 0 <= client_index(clients, id) < clients.len()
            && clients[client_index(clients, id)].id@ == id,
    decreases clients.len(),
{
    if clients.len() > 0 && clients[0].id@ != id {
        lemma_client_index(clients.drop_first(), id);
        let rest = clients.drop_first();
        if client_index(clients, id) == -1 {
            assert forall|i: int| 0 <= i < clients.len() implies (#[trigger] clients[i]).id@
                != id by {
                if i > 0 {
                    assert(rest[i - 1] == clients[i]);
                }
            }
        } else {
            assert(rest[client_index(rest, id)] == clients[client_index(clients, id)]);
        }
    }
}

pub proof fn lemma_client_index_at(clients: Seq<Client>, id: Seq<char>, i: int)
    requires
        0 <= i < clients.len(),
        clients[i].id@ == id,
        forall|k: int| 0 <= k < i ==> (#[trigger] clients[k]).id@ != id,
    ensures
        client_index(clients, id) == i,
    decreases i,
{
    if i > 0 {
        let rest = clients.drop_first();
        assert(rest[i - 1] == clients[i]);
        assert forall|k: int| 0 <= k < i - 1 implies (#[trigger] rest[k]).id@ != id by {
            assert(rest[k] == clients[k + 1]);
        }
        lemma_client_index_at(rest, id, i - 1);
    }
}

pub proof fn lemma_devtools_index(dts: Seq<DevTools>, id: Seq<char>)
    ensures
        devtools_index(dts, id) == -1 ==> forall|i: int|
            0 <= i < dts.len() ==> (#[trigger] dts[i]).id@ != id,
        devtools_index(dts, id) != -1 ==> 0 <= devtools_index(dts, id) < dts.len() && dts[devtools_index(
            dts,
            id,
        )].id@ == id,
    decreases dts.len(),
{
    if dts.len() > 0 && dts[0].id@ != id {
        lemma_devtools_index(dts.drop_first(), id);
        let rest = dts.drop_first();
        if devtools_index(dts, id) == -1 {
            assert forall|i: int| 0 <= i < dts.len() implies (#[trigger] dts[i]).id@ != id by {
                if i > 0 {
                    assert(rest[i - 1] == dts[i]);
                }
            }
        } else {
            assert(rest[devtools_index(rest, id)] == dts[devtools_index(dts, id)]);
        }
    }
}

pub proof fn lemma_devtools_index_at(dts: Seq<DevTools>, id: Seq<char>, i: int)
    requires
        0 <= i < dts.len(),
        dts[i].id@ == id,
        forall|k: int| 0 <= k < i ==> (#[trigger] dts[k]).id@ != id,
    ensures
        devtools_index(dts, id) == i,
    decreases i,
{
    if i > 0 {
        let rest = dts.drop_first();
        assert(rest[i - 1] == dts[i]);
        assert forall|k: int| 0 <= k < i - 1 implies (#[trigger] rest[k]).id@ != id by {
            assert(rest[k] == dts[k + 1]);
        }
        lemma_devtools_index_at(rest, id, i - 1);
    }
}

pub proof fn lemma_body_index(bodies: Seq<(String, String)>, rid: Seq<char>)
    ensures
        body_index(bodies, rid) == -1 ==> forall|i: int|
            0 <= i < bodies.len() ==> (#[trigger] bodies[i]).0@ != rid,
        body_index(bodies, rid) != -1 ==> 0 <= body_index(bodies, rid) < bodies.len()
            && bodies[body_index(bodies, rid)].0@ == rid,
    decreases bodies.len(),
{
    if bodies.len() > 0 && bodies[0].0@ != rid {
        lemma_body_index(bodies.drop_first(), rid);
        let rest = bodies.drop_first();
        if body_index(bodies, rid) == -1 {
            assert forall|i: int| 0 <= i < bodies.len() implies (#[trigger] bodies[i]).0@ != rid by {
                if i > 0 {
                    assert(rest[i - 1] == bodies[i]);
                }
            }
        } else {
            assert(rest[body_index(rest, rid)] == bodies[body_index(bodies, rid)]);
        }
    }
}

pub proof fn lemma_body_index_at(bodies: Seq<(String, String)>, rid: Seq<char>, i: int)
    requires
        0 <= i < bodies.len(),
        bodies[i].0@ == rid,
        forall|k: int| 0 <= k < i ==> (#[trigger] bodies[k]).0@ != rid,
    ensures
        body_index(bodies, rid) == i,
    decreases i,
{
    if i > 0 {
        let rest = bodies.drop_first();
        assert(rest[i - 1] == bodies[i]);
        assert forall|k: int| 0 <= k < i - 1 implies (#[trigger] rest[k]).0@ != rid by {
            assert(rest[k] == bodies[k + 1]);
        }
        lemma_body_index_at(rest, rid, i - 1);
    }
}

// ---------------------------------------------------------------------------
// Fan-out and caching relations
// ---------------------------------------------------------------------------
/// `post` is `pre` with one more message at its end.
pub open spec fn outbox_appended(pre: Seq<String>, post: Seq<String>, text: Seq<char>) -> bool {
    post.len() == pre.len() + 1 && post.subrange(0, pre.len() as int) == pre && post.last()@
        == text
}

/// Fan-out completeness: every frontend bound to `cid` has `text` queued,
/// every other frontend is untouched, and nothing else about any entry
/// changes.
pub open spec fn fanned_out(
    pre: Seq<DevTools>,
    post: Seq<DevTools>,
    cid: Seq<char>,
    text: Seq<char>,
) -> bool {
    &&& post.len() == pre.len()
    &&& forall|k: int|
        0 <= k < pre.len() ==> {
            &&& (#[trigger] post[k]).id == pre[k].id
            &&& post[k].client_id == pre[k].client_id
            &&& if opt_sview(pre[k].client_id) == Some(cid) {
                outbox_appended(pre[k].outbox@, post[k].outbox@, text)
            } else {
                post[k].outbox == pre[k].outbox
            }
        }
}

/// The same delivery rule for the inspector registry.
pub open spec fn inspectors_fanned_out(
    pre: Seq<crate::react_native::ReactNativeInspectorConnection>,
    post: Seq<crate::react_native::ReactNativeInspectorConnection>,
    cid: Seq<char>,
    text: Seq<char>,
) -> bool {
    &&& post.len() == pre.len()
    &&& forall|k: int|
        0 <= k < pre.len() ==> {
            &&& crate::react_native::same_entry_except_stores_and_outbox(#[trigger] post[k], pre[k])
            &&& post[k].redux_stores == pre[k].redux_stores
            &&& if opt_sview(pre[k].client_id) == Some(cid) {
                outbox_appended(pre[k].outbox@, post[k].outbox@, text)
            } else {
                post[k].outbox == pre[k].outbox
            }
        }
}

/// The body cache after `rid` is set to `body`: an existing entry is
/// overwritten, a missing one appended.
pub open spec fn body_stored(
    pre: Seq<(String, String)>,
    post: Seq<(String, String)>,
    rid: Seq<char>,
    body: Seq<char>,
) -> bool {
    let j = body_index(pre, rid);
    if j >= 0 {
        &&& post.len() == pre.len()
        &&& forall|k: int| 0 <= k < pre.len() && k != j ==> #[trigger] post[k] == pre[k]
        &&& post[j].0 == pre[j].0
        &&& post[j].1@ == body
    } else {
        &&& post.len() == pre.len() + 1
        &&& post.subrange(0, pre.len() as int) == pre
        &&& post.last().0@ == rid
        &&& post.last().1@ == body
    }
}

/// The request id and inline body of a `Network.responseReceived` envelope,
/// when it carries one.
pub open spec fn extracted_body(v: JsonV) -> Option<(Seq<char>, Seq<char>)> {
    if jget_str(v, "method"@) == Some("Network.responseReceived"@) {
        match jget(v, "params"@) {
            Some(p) => match (jget_str(p, "requestId"@), crate::cdp_bridge::jget_str2(
                p,
                "response"@,
                "body"@,
            )) {
                (Some(rid), Some(b)) => Some((rid, b)),
                _ => None,
            },
            None => None,
        }
    } else {
        None
    }
}

/// Read the request id and inline body out of an envelope.
pub fn extract_response_body(cdp_message: &Json) -> (r: Option<(String, String)>)
    ensures
        match r {
            Some((rid, b)) => extracted_body(cdp_message@) == Some((rid@, b@)),
            None => extracted_body(cdp_message@) is None,
        },
{
    match cdp_message.get_str("method") {
        Some(m) => {
            if !crate::text::str_eq(m.as_str(), "Network.responseReceived") {
                return None;
            }
        },
        None => {
            return None;
        },
    }
    let p = match cdp_message.get("params") {
        Some(p) => p,
        None => {
            return None;
        },
    };
    let rid = match p.get_str("requestId") {
        Some(rid) => rid.clone(),
        None => {
            return None;
        },
    };
    match crate::cdp_bridge::get2(p, "response", "body") {
        Some(f) => match f.as_str() {
            Some(b) => Some((rid, b.clone())),
            None => None,
        },
        None => None,
    }
}

/// Process one client frame: decompress compressed parameters, pass
/// everything else through unchanged.
pub fn process_client_message(message: &str) -> (r: String)
    ensures
        r@ == processed_message(message@),
{
    let parsed = match crate::json_parse::parse_json(message) {
        Some(v) => v,
        None => {
            return message.to_owned();
        },
    };
    let m = match read_cdp_message(&parsed) {
        Some(m) => m,
        None => {
            return message.to_owned();
        },
    };
    let cp = match &m.params {
        Some(p) => match read_compressed_params(p) {
            Some(cp) => cp,
            None => {
                return message.to_owned();
            },
        },
        None => {
            return message.to_owned();
        },
    };
    if !(cp.compressed && cp.data.len() > 0) {
        return message.to_owned();
    }
    let dec = match gunzip_to_string(&cp.data) {
        Some(dec) => dec,
        None => {
            return message.to_owned();
        },
    };
    let merged = merge_decompressed(m, dec.as_str());
    write_cdp_message(&merged)
}


/// What a relayed client frame changes: the frame (after gzip transparency)
/// is queued for every bound frontend and every bound inspector, an inline
/// response body is cached, and nothing else moves.
pub open spec fn client_frame_rel(
    pre: SocketServer,
    post: SocketServer,
    cid: Seq<char>,
    text: Seq<char>,
) -> bool {
    let data = processed_message(text);
    &&& post.clients == pre.clients
    &&& post.reactotron_server == pre.reactotron_server
    &&& match parse_json_text(data) {
        Some(v) => match extracted_body(v) {
            Some((rid, b)) => body_stored(pre.response_bodies@, post.response_bodies@, rid, b),
            None => post.response_bodies == pre.response_bodies,
        },
        None => post.response_bodies == pre.response_bodies,
    }
    &&& fanned_out(pre.devtools@, post.devtools@, cid, data)
    &&& inspectors_fanned_out(
        pre.react_native_inspector_manager.connections@,
        post.react_native_inspector_manager.connections@,
        cid,
        data,
    )
}

/// What sending one CDP event toward a client's frontends changes: an inline
/// response body is cached and the serialized envelope is queued for every
/// bound frontend.
pub open spec fn send_cdp_rel(
    pre: SocketServer,
    post: SocketServer,
    cid: Seq<char>,
    v: JsonV,
) -> bool {
    &&& post.clients == pre.clients
    &&& post.react_native_inspector_manager == pre.react_native_inspector_manager
    &&& post.reactotron_server == pre.reactotron_server
    &&& match extracted_body(v) {
        Some((rid, b)) => body_stored(pre.response_bodies@, post.response_bodies@, rid, b),
        None => post.response_bodies == pre.response_bodies,
    }
    &&& fanned_out(pre.devtools@, post.devtools@, cid, ser(v))
}

impl SocketServer {
    /// A fresh server: empty registries, the Reactotron sub-server present
    /// exactly when asked for.
    pub fn new(enable_reactotron: bool) -> (r: SocketServer)
        ensures
            r.clients@.len() == 0,
            r.devtools@.len() == 0,
            r.react_native_inspector_manager.connections@.len() == 0,
            crate::react_native::manager_wf(r.react_native_inspector_manager),
            r.response_bodies@.len() == 0,
            enable_reactotron ==> (r.reactotron_server matches Some(rt)
                && rt.connections@.len() == 0 && rt.subscriptions@.len() == 0
                && rt.connection_id_counter == 0),
            !enable_reactotron ==> r.reactotron_server is None,
    {
        SocketServer {
            clients: Vec::new(),
            devtools: Vec::new(),
            react_native_inspector_manager: ReactNativeInspectorConnectionManager::new(),
            reactotron_server: if enable_reactotron {
                Some(crate::reactotron::ReactotronServer::new())
            } else {
                None
            },
            response_bodies: Vec::new(),
        }
    }

    /// Switch the Reactotron sub-server on, if it is off.
    pub fn enable_reactotron_server(&mut self)
        ensures
            final(self).clients == old(self).clients,
            final(self).devtools == old(self).devtools,
            final(self).react_native_inspector_manager == old(
                self,
            ).react_native_inspector_manager,
            final(self).response_bodies == old(self).response_bodies,
            old(self).reactotron_server is Some ==> final(self).reactotron_server == old(
                self,
            ).reactotron_server,
            old(self).reactotron_server is None ==> (final(self).reactotron_server matches Some(
                rt,
            ) && rt.connections@.len() == 0 && rt.subscriptions@.len() == 0
                && rt.connection_id_counter == 0),
    {
        if self.reactotron_server.is_none() {
            self.reactotron_server = Some(crate::reactotron::ReactotronServer::new());
        }
    }

    /// Switch the Reactotron sub-server off.
    pub fn disable_reactotron_server(&mut self)
        ensures
            final(self).clients == old(self).clients,
            final(self).devtools == old(self).devtools,
            final(self).react_native_inspector_manager == old(
                self,
            ).react_native_inspector_manager,
            final(self).response_bodies == old(self).response_bodies,
            final(self).reactotron_server is None,
    {
        self.reactotron_server = None;
    }

    /// Empty every registry and the body cache.
    pub fn clear_all_connections(&mut self)
        ensures
            final(self).clients@.len() == 0,
            final(self).devtools@.len() == 0,
            final(self).react_native_inspector_manager.connections@.len() == 0,
            crate::react_native::manager_wf(final(self).react_native_inspector_manager),
            final(self).response_bodies@.len() == 0,
            final(self).reactotron_server == old(self).reactotron_server,
    {
        self.clients.clear();
        self.devtools.clear();
        self.react_native_inspector_manager.clear_all_connections();
        self.response_bodies.clear();
    }

    fn find_client(&self, id: &str) -> (r: Option<usize>)
        ensures
            match r {
                Some(j) => j as int == client_index(self.clients@, id@) && j < self.clients@.len(),
                None => client_index(self.clients@, id@) == -1,
            },
    {
        let n = self.clients.len();
        let mut i: usize = 0;
        while i < n
            invariant
                n == self.clients@.len(),
                i <= n,
                forall|k: int| 0 <= k < i ==> (#[trigger] self.clients@[k]).id@ != id@,
            decreases n - i,
        {
            if crate::text::str_eq(self.clients[i].id.as_str(), id) {
                proof {
                    lemma_client_index_at(self.clients@, id@, i as int);
                }
                return Some(i);
            }
            i = i + 1;
        }
        proof {
            lemma_client_index(self.clients@, id@);
            if client_index(self.clients@, id@) != -1 {
                assert(self.clients@[client_index(self.clients@, id@)].id@ == id@);
            }
        }
        None
    }

    fn find_devtools(&self, id: &str) -> (r: Option<usize>)
        ensures
            match r {
                Some(j) => j as int == devtools_index(self.devtools@, id@) && j
                    < self.devtools@.len(),
                None => devtools_index(self.devtools@, id@) == -1,
            },
    {
        let n = self.devtools.len();
        let mut i: usize = 0;
        while i < n
            invariant
                n == self.devtools@.len(),
                i <= n,
                forall|k: int| 0 <= k < i ==> (#[trigger] self.devtools@[k]).id@ != id@,
            decreases n - i,
        {
            if crate::text::str_eq(self.devtools[i].id.as_str(), id) {
                proof {
                    lemma_devtools_index_at(self.devtools@, id@, i as int);
                }
                return Some(i);
            }
            i = i + 1;
        }
        proof {
            lemma_devtools_index(self.devtools@, id@);
            if devtools_index(self.devtools@, id@) != -1 {
                assert(self.devtools@[devtools_index(self.devtools@, id@)].id@ == id@);
            }
        }
        None
    }

    fn find_body(&self, rid: &str) -> (r: Option<usize>)
        ensures
            match r {
                Some(j) => j as int == body_index(self.response_bodies@, rid@) && j
                    < self.response_bodies@.len(),
                None => body_index(self.response_bodies@, rid@) == -1,
            },
    {
        let n = self.response_bodies.len();
        let mut i: usize = 0;
        while i < n
            invariant
                n == self.response_bodies@.len(),
                i <= n,
                forall|k: int| 0 <= k < i ==> (#[trigger] self.response_bodies@[k]).0@ != rid@,
            decreases n - i,
        {
            if crate::text::str_eq(self.response_bodies[i].0.as_str(), rid) {
                proof {
                    lemma_body_index_at(self.response_bodies@, rid@, i as int);
                }
                return Some(i);
            }
            i = i + 1;
        }
        proof {
            lemma_body_index(self.response_bodies@, rid@);
            if body_index(self.response_bodies@, rid@) != -1 {
                assert(self.response_bodies@[body_index(self.response_bodies@, rid@)].0@ == rid@);
            }
        }
        None
    }

    /// One client, as a plain record.
    pub fn get_client(&self, client_id: &str) -> (r: Option<ClientInfo>)
        ensures
            ({
                let j = client_index(self.clients@, client_id@);
                match r {
                    Some(info) => j >= 0 && info.id@ == self.clients@[j].id@ && opt_sview(
                        info.url,
                    ) == opt_sview(self.clients@[j].url) && opt_sview(info.title) == opt_sview(
                        self.clients@[j].title,
                    ) && opt_sview(info.favicon) == opt_sview(self.clients@[j].favicon)
                        && opt_sview(info.ua) == opt_sview(self.clients@[j].ua) && opt_sview(
                        info.time,
                    ) == opt_sview(self.clients@[j].time),
                    None => j == -1,
                }
            }),
    {
        let j = match self.find_client(client_id) {
            Some(j) => j,
            None => {
                return None;
            },
        };
        let c = &self.clients[j];
        Some(
            ClientInfo {
                id: c.id.clone(),
                url: clone_opt_str(&c.url),
                title: clone_opt_str(&c.title),
                favicon: clone_opt_str(&c.favicon),
                ua: clone_opt_str(&c.ua),
                time: clone_opt_str(&c.time),
            },
        )
    }

    /// Every client, as plain records.
    pub fn get_all_clients(&self) -> (r: Vec<ClientInfo>)
        ensures
            r@.len() == self.clients@.len(),
            forall|i: int|
                0 <= i < r@.len() ==> (#[trigger] r@[i]).id@ == self.clients@[i].id@ && opt_sview(
                    r@[i].url,
                ) == opt_sview(self.clients@[i].url) && opt_sview(r@[i].title) == opt_sview(
                    self.clients@[i].title,
                ) && opt_sview(r@[i].favicon) == opt_sview(self.clients@[i].favicon) && opt_sview(
                    r@[i].ua,
                ) == opt_sview(self.clients@[i].ua) && opt_sview(r@[i].time) == opt_sview(
                    self.clients@[i].time,
                ),
    {
        let n = self.clients.len();
        let mut out: Vec<ClientInfo> = Vec::new();
        let mut i: usize = 0;
        while i < n
            invariant
                n == self.clients@.len(),
                i <= n,
                out@.len() == i,
                forall|k: int|
                    0 <= k < i ==> (#[trigger] out@[k]).id@ == self.clients@[k].id@ && opt_sview(
                        out@[k].url,
                    ) == opt_sview(self.clients@[k].url) && opt_sview(out@[k].title) == opt_sview(
                        self.clients@[k].title,
                    ) && opt_sview(out@[k].favicon) == opt_sview(self.clients@[k].favicon)
                        && opt_sview(out@[k].ua) == opt_sview(self.clients@[k].ua) && opt_sview(
                        out@[k].time,
                    ) == opt_sview(self.clients@[k].time),
            decreases n - i,
        {
            let c = &self.clients[i];
            out.push(
                ClientInfo {
                    id: c.id.clone(),
                    url: clone_opt_str(&c.url),
                    title: clone_opt_str(&c.title),
                    favicon: clone_opt_str(&c.favicon),
                    ua: clone_opt_str(&c.ua),
                    time: clone_opt_str(&c.time),
                },
            );
            i = i + 1;
        }
        out
    }

    /// Every attached frontend, as plain records.
    pub fn get_all_inspectors(&self) -> (r: Vec<InspectorInfo>)
        ensures
            r@.len() == self.devtools@.len(),
            forall|i: int|
                0 <= i < r@.len() ==> (#[trigger] r@[i]).id@ == self.devtools@[i].id@ && opt_sview(
                    r@[i].client_id,
                ) == opt_sview(self.devtools@[i].client_id),
    {
        let n = self.devtools.len();
        let mut out: Vec<InspectorInfo> = Vec::new();
        let mut i: usize = 0;
        while i < n
            invariant
                n == self.devtools@.len(),
                i <= n,
                out@.len() == i,
                forall|k: int|
                    0 <= k < i ==> (#[trigger] out@[k]).id@ == self.devtools@[k].id@ && opt_sview(
                        out@[k].client_id,
                    ) == opt_sview(self.devtools@[k].client_id),
            decreases n - i,
        {
            let d = &self.devtools[i];
            out.push(InspectorInfo { id: d.id.clone(), client_id: clone_opt_str(&d.client_id) });
            i = i + 1;
        }
        out
    }

    /// Cache a response body under its request id.
    pub fn store_response_body(&mut self, request_id: &str, body: &str)
        ensures
            final(self).clients == old(self).clients,
            final(self).devtools == old(self).devtools,
            final(self).react_native_inspector_manager == old(
                self,
            ).react_native_inspector_manager,
            final(self).reactotron_server == old(self).reactotron_server,
            body_stored(old(self).response_bodies@, final(self).response_bodies@, request_id@, body@),
    {
        proof {
            lemma_body_index(self.response_bodies@, request_id@);
        }
        match self.find_body(request_id) {
            Some(j) => {
                let entry = &mut self.response_bodies[j];
                entry.1 = body.to_owned();
            },
            None => {
                self.response_bodies.push((request_id.to_owned(), body.to_owned()));
                proof {
                    assert(self.response_bodies@.subrange(
                        0,
                        old(self).response_bodies@.len() as int,
                    ) =~= old(self).response_bodies@);
                }
            },
        }
    }

    /// The cached body under a request id, if one is cached.
    pub fn get_response_body(&self, request_id: &str) -> (r: Option<String>)
        ensures
            ({
                let j = body_index(self.response_bodies@, request_id@);
                match r {
                    Some(b) => j >= 0 && b@ == self.response_bodies@[j].1@,
                    None => j == -1,
                }
            }),
    {
        match self.find_body(request_id) {
            Some(j) => Some(self.response_bodies[j].1.clone()),
            None => None,
        }
    }

    fn fanout_devtools(&mut self, client_id: &str, text: &str)
        ensures
            final(self).clients == old(self).clients,
            final(self).react_native_inspector_manager == old(
                self,
            ).react_native_inspector_manager,
            final(self).reactotron_server == old(self).reactotron_server,
            final(self).response_bodies == old(self).response_bodies,
            fanned_out(old(self).devtools@, final(self).devtools@, client_id@, text@),
    {
        let n = self.devtools.len();
        let mut i: usize = 0;
        while i < n
            invariant
                n == old(self).devtools@.len(),
                n == self.devtools@.len(),
                i <= n,
                self.clients == old(self).clients,
                self.react_native_inspector_manager == old(self).react_native_inspector_manager,
                self.reactotron_server == old(self).reactotron_server,
                self.response_bodies == old(self).response_bodies,
                forall|k: int| i <= k < n ==> #[trigger] self.devtools@[k] == old(self).devtools@[k],
                forall|k: int|
                    0 <= k < i ==> {
                        &&& (#[trigger] self.devtools@[k]).id == old(self).devtools@[k].id
                        &&& self.devtools@[k].client_id == old(self).devtools@[k].client_id
                        &&& if opt_sview(old(self).devtools@[k].client_id) == Some(client_id@) {
                            outbox_appended(
                                old(self).devtools@[k].outbox@,
                                self.devtools@[k].outbox@,
                                text@,
                            )
                        } else {
                            self.devtools@[k].outbox == old(self).devtools@[k].outbox
                        }
                    },
            decreases n - i,
        {
            let is_bound = match &self.devtools[i].client_id {
                Some(c) => crate::text::str_eq(c.as_str(), client_id),
                None => false,
            };
            if is_bound {
                let d = &mut self.devtools[i];
                let ghost pre_outbox = d.outbox@;
                d.outbox.push(text.to_owned());
                proof {
                    assert(self.devtools@[i as int].outbox@.subrange(
                        0,
                        pre_outbox.len() as int,
                    ) =~= pre_outbox);
                }
            }
            i = i + 1;
        }
    }

    fn fanout_inspectors(&mut self, client_id: &str, text: &str)
        ensures
            final(self).clients == old(self).clients,
            final(self).devtools == old(self).devtools,
            final(self).reactotron_server == old(self).reactotron_server,
            final(self).response_bodies == old(self).response_bodies,
            inspectors_fanned_out(
                old(self).react_native_inspector_manager.connections@,
                final(self).react_native_inspector_manager.connections@,
                client_id@,
                text@,
            ),
    {
        let n = self.react_native_inspector_manager.connections.len();
        let mut i: usize = 0;
        while i < n
            invariant
                n == old(self).react_native_inspector_manager.connections@.len(),
                n == self.react_native_inspector_manager.connections@.len(),
                i <= n,
                self.clients == old(self).clients,
                self.devtools == old(self).devtools,
                self.reactotron_server == old(self).reactotron_server,
                self.response_bodies == old(self).response_bodies,
                forall|k: int|
                    i <= k < n ==> #[trigger] self.react_native_inspector_manager.connections@[k]
                        == old(self).react_native_inspector_manager.connections@[k],
                forall|k: int|
                    0 <= k < i ==> {
                        &&& crate::react_native::same_entry_except_stores_and_outbox(
                            #[trigger] self.react_native_inspector_manager.connections@[k],
                            old(self).react_native_inspector_manager.connections@[k],
                        )
                        &&& self.react_native_inspector_manager.connections@[k].redux_stores == old(
                            self,
                        ).react_native_inspector_manager.connections@[k].redux_stores
                        &&& if opt_sview(
                            old(self).react_native_inspector_manager.connections@[k].client_id,
                        ) == Some(client_id@) {
                            outbox_appended(
                                old(self).react_native_inspector_manager.connections@[k].outbox@,
                                self.react_native_inspector_manager.connections@[k].outbox@,
                                text@,
                            )
                        } else {
                            self.react_native_inspector_manager.connections@[k].outbox == old(
                                self,
                            ).react_native_inspector_manager.connections@[k].outbox
                        }
                    },
            decreases n - i,
        {
            let is_bound = match &self.react_native_inspector_manager.connections[i].client_id {
                Some(c) => crate::text::str_eq(c.as_str(), client_id),
                None => false,
            };
            if is_bound {
                let entry = &mut self.react_native_inspector_manager.connections[i];
                let ghost pre_outbox = entry.outbox@;
                entry.outbox.push(text.to_owned());
                proof {
                    assert(self.react_native_inspector_manager.connections@[i as int].outbox@
                        .subrange(0, pre_outbox.len() as int) =~= pre_outbox);
                }
            }
            i = i + 1;
        }
    }

    /// Cache an inline response body and fan the serialized envelope out to
    /// every frontend bound to the client.
    pub fn send_cdp_message_to_devtools(&mut self, client_id: &str, cdp_message: &Json)
        ensures
            send_cdp_rel(*old(self), *final(self), client_id@, cdp_message@),
    {
        match extract_response_body(cdp_message) {
            Some((rid, b)) => {
                self.store_response_body(rid.as_str(), b.as_str());
            },
            None => {},
        }
        let text = crate::json::to_json_string(cdp_message);
        self.fanout_devtools(client_id, text.as_str());
    }

    /// Relay one frame from a client: make it gzip-transparent, cache an
    /// inline response body, and queue it for every bound frontend and
    /// inspector.
    pub fn handle_client_frame(&mut self, client_id: &str, text: &str)
        ensures
            client_frame_rel(*old(self), *final(self), client_id@, text@),
    {
        let data = process_client_message(text);
        match crate::json_parse::parse_json(data.as_str()) {
            Some(v) => match extract_response_body(&v) {
                Some((rid, b)) => {
                    self.store_response_body(rid.as_str(), b.as_str());
                },
                None => {},
            },
            None => {},
        }
        self.fanout_devtools(client_id, data.as_str());
        self.fanout_inspectors(client_id, data.as_str());
    }
}

/// Keeping a frontend when its binding is not the closed client.
pub open spec fn not_bound_to(cid: Seq<char>) -> spec_fn(DevTools) -> bool {
    |d: DevTools| opt_sview(d.client_id) != Some(cid)
}

/// `post` is `pre` with the given messages queued at its end, in order.
pub open spec fn outbox_appended_all(
    pre: Seq<String>,
    post: Seq<String>,
    texts: Seq<Seq<char>>,
) -> bool {
    &&& post.len() == pre.len() + texts.len()
    &&& post.subrange(0, pre.len() as int) == pre
    &&& forall|i: int| 0 <= i < texts.len() ==> #[trigger] post[pre.len() + i]@ == texts[i]
}

/// An event envelope with empty parameters.
pub open spec fn simple_event_json(method: Seq<char>) -> JsonV {
    crate::cdp_bridge::envelope(method, JsonV::Obj(Seq::empty()))
}

/// The execution-context event pushed to frontends of Reactotron targets so
/// the console switches on.
pub open spec fn exec_ctx_json() -> JsonV {
    crate::cdp_bridge::envelope(
        "Runtime.executionContextCreated"@,
        JsonV::Obj(
            seq![
                (
                    "context"@,
                    JsonV::Obj(
                        seq![
                            ("id"@, JsonV::Int(1)),
                            ("uniqueId"@, JsonV::Str("1"@)),
                            ("origin"@, JsonV::Str("reactotron://"@)),
                            ("name"@, JsonV::Str("Reactotron"@)),
                            ("auxData"@, JsonV::Obj(seq![("isDefault"@, JsonV::Bool(true))])),
                        ],
                    ),
                ),
            ],
        ),
    )
}

/// The replayed `INIT_INSTANCE` message for one cached store.
pub open spec fn init_instance_json(instance_id: Seq<char>) -> JsonV {
    crate::cdp_bridge::envelope(
        "Redux.message"@,
        JsonV::Obj(
            seq![
                ("type"@, JsonV::Str("INIT_INSTANCE"@)),
                ("instanceId"@, JsonV::Str(instance_id)),
                ("source"@, JsonV::Str("@devtools-page"@)),
            ],
        ),
    )
}

/// The replayed `INIT` message for one cached store.
pub open spec fn init_json(s: crate::react_native::ReduxStoreInstance) -> JsonV {
    crate::cdp_bridge::envelope(
        "Redux.message"@,
        JsonV::Obj(
            seq![
                ("type"@, JsonV::Str("INIT"@)),
                ("instanceId"@, JsonV::Str(s.instance_id@)),
                ("source"@, JsonV::Str("@devtools-page"@)),
                ("name"@, JsonV::Str(s.name@)),
                ("payload"@, JsonV::Str(s.payload@)),
                ("maxAge"@, JsonV::Int(50)),
                ("timestamp"@, JsonV::Int(s.timestamp as int)),
            ],
        ),
    )
}

/// The Redux replay a late frontend receives: an `INIT_INSTANCE` and an
/// `INIT` per cached store, in store order.
pub open spec fn redux_replay_texts(
    stores: Seq<crate::react_native::ReduxStoreInstance>,
) -> Seq<Seq<char>>
    decreases stores.len(),
{
    if stores.len() == 0 {
        Seq::empty()
    } else {
        seq![ser(init_instance_json(stores[0].instance_id@)), ser(init_json(stores[0]))]
            + redux_replay_texts(stores.drop_first())
    }
}

impl SocketServer {
    /// Remove a closed client, and with it every frontend bound to it: a
    /// frontend's useful lifetime ends with its target.
    pub fn handle_client_close(&mut self, client_id: &str)
        ensures
            final(self).react_native_inspector_manager == old(self).react_native_inspector_manager,
            final(self).reactotron_server == old(self).reactotron_server,
            final(self).response_bodies == old(self).response_bodies,
            ({
                let j = client_index(old(self).clients@, client_id@);
                if j >= 0 {
                    final(self).clients@ == old(self).clients@.remove(j)
                } else {
                    final(self).clients@ == old(self).clients@
                }
            }),
            final(self).devtools@ == old(self).devtools@.filter(not_bound_to(client_id@)),
    {
        proof {
            lemma_client_index(self.clients@, client_id@);
        }
        match self.find_client(client_id) {
            Some(j) => {
                self.clients.remove(j);
            },
            None => {},
        }
        let ghost pred = not_bound_to(client_id@);
        let ghost dts0 = self.devtools@;
        let ghost n = dts0.len();
        let ghost snap = *self;
        let mut kept: Vec<DevTools> = Vec::new();
        let ghost mut i: int = 0;
        proof {
            reveal(Seq::filter);
            assert(dts0.subrange(0, 0) =~= Seq::<DevTools>::empty());
            assert(Seq::<DevTools>::empty().filter(pred) =~= Seq::<DevTools>::empty());
            assert(dts0.subrange(0, n as int) =~= dts0);
        }
        while self.devtools.len() > 0
            invariant
                pred == not_bound_to(client_id@),
                n == dts0.len(),
                0 <= i <= n,
                self.devtools@ == dts0.subrange(i, n as int),
                kept@ == dts0.subrange(0, i).filter(pred),
                self.clients == snap.clients,
                self.react_native_inspector_manager == snap.react_native_inspector_manager,
                self.reactotron_server == snap.reactotron_server,
                self.response_bodies == snap.response_bodies,
            decreases self.devtools@.len(),
        {
            let ghost rem_pre = self.devtools@;
            proof {
                assert(rem_pre == dts0.subrange(i, n as int));
                assert(rem_pre.len() > 0);
                assert(dts0.subrange(i, n as int).len() == n - i);
                assert(i < n);
                assert(dts0.subrange(i, n as int)[0] == dts0[i]);
                assert(rem_pre[0] == dts0[i]);
                assert(rem_pre.drop_first() =~= dts0.subrange(i + 1, n as int));
            }
            let d = self.devtools.remove(0);
            let keep = match &d.client_id {
                Some(c) => !crate::text::str_eq(c.as_str(), client_id),
                None => true,
            };
            let ghost prefix = dts0.subrange(0, i);
            proof {
                assert(dts0.subrange(0, i + 1).drop_last() =~= prefix);
                assert(dts0.subrange(0, i + 1).last() == dts0[i]);
            }
            proof {
                assert(d == dts0[i]);
                assert(keep == pred(dts0[i]));
                assert(dts0.subrange(0, i + 1).len() == i + 1);
                assert(dts0.subrange(0, i + 1) != Seq::<DevTools>::empty());
            }
            if keep {
                kept.push(d);
                proof {
                    reveal(Seq::filter);
                    assert(kept@.drop_last() =~= prefix.filter(pred));
                    assert(kept@.last() == dts0[i]);
                    assert(dts0.subrange(0, i + 1).filter(pred) == dts0.subrange(
                        0,
                        i + 1,
                    ).drop_last().filter(pred).push(dts0.subrange(0, i + 1).last()));
                    assert(kept@ =~= dts0.subrange(0, i + 1).filter(pred));
                }
            } else {
                proof {
                    reveal(Seq::filter);
                    assert(dts0.subrange(0, i + 1).filter(pred) == dts0.subrange(
                        0,
                        i + 1,
                    ).drop_last().filter(pred));
                    assert(kept@ =~= dts0.subrange(0, i + 1).filter(pred));
                }
            }
            proof {
                i = i + 1;
            }
        }
        proof {
            assert(dts0.subrange(i, n as int).len() == 0);
            assert(i == n);
            assert(dts0.subrange(0, n as int) =~= dts0);
        }
        self.devtools = kept;
    }
}

/// A synthetic Reactotron target's url marker.
pub open spec fn is_reactotron_client(c: Client) -> bool {
    match c.url {
        Some(u) => crate::text::has_prefix(u@, "reactotron://"@),
        None => false,
    }
}

/// The Redux replay a late frontend receives, message by message.
pub open spec fn redux_replay_list(
    stores: Seq<crate::react_native::ReduxStoreInstance>,
) -> Seq<Seq<char>> {
    Seq::new(
        2 * stores.len(),
        |i: int|
            if i % 2 == 0 {
                ser(init_instance_json(stores[i / 2].instance_id@))
            } else {
                ser(init_json(stores[i / 2]))
            },
    )
}

/// Everything queued for a freshly attached frontend: the execution-context
/// event when its target is a Reactotron client, and the Redux replay when
/// its target is an inspector.
pub open spec fn attach_msgs(pre: SocketServer, cid_opt: Option<Seq<char>>) -> Seq<Seq<char>> {
    match cid_opt {
        None => Seq::empty(),
        Some(c) => {
            let ci = client_index(pre.clients@, c);
            let is_rt = ci >= 0 && is_reactotron_client(pre.clients@[ci]);
            let ii = crate::react_native::conn_index(
                pre.react_native_inspector_manager.connections@,
                c,
            );
            (if is_rt {
                seq![ser(exec_ctx_json())]
            } else {
                Seq::<Seq<char>>::empty()
            }) + (if ii >= 0 {
                redux_replay_list(
                    pre.react_native_inspector_manager.connections@[ii].redux_stores@,
                )
            } else {
                Seq::<Seq<char>>::empty()
            })
        },
    }
}

fn build_exec_ctx_text() -> (r: String)
    ensures
        r@ == ser(exec_ctx_json()),
{
    let mut aux = crate::json::ObjBuilder::new();
    aux.field("isDefault", Json::Bool(true));
    let aux_obj = aux.build();
    let mut ctx = crate::json::ObjBuilder::new();
    ctx.field("id", Json::Int(1));
    ctx.field("uniqueId", crate::json::jstring("1"));
    ctx.field("origin", crate::json::jstring("reactotron://"));
    ctx.field("name", crate::json::jstring("Reactotron"));
    ctx.field("auxData", aux_obj);
    let ctx_obj = ctx.build();
    let mut params = crate::json::ObjBuilder::new();
    params.field("context", ctx_obj);
    let params_obj = params.build();
    let mut env = crate::json::ObjBuilder::new();
    env.field("method", crate::json::jstring("Runtime.executionContextCreated"));
    env.field("params", params_obj);
    let obj = env.build();
    proof {
        let spec = exec_ctx_json();
        assert(aux_obj@->Obj_0 =~= spec->Obj_0[1].1->Obj_0[0].1->Obj_0[4].1->Obj_0);
        assert(ctx_obj@->Obj_0 =~= spec->Obj_0[1].1->Obj_0[0].1->Obj_0);
        assert(params_obj@->Obj_0 =~= spec->Obj_0[1].1->Obj_0);
        assert(obj@->Obj_0 =~= spec->Obj_0);
    }
    crate::json::to_json_string(&obj)
}

fn build_simple_event_text(method: &str) -> (r: String)
    ensures
        r@ == ser(simple_event_json(method@)),
{
    let empty = crate::json::ObjBuilder::new();
    let params_obj = empty.build();
    let mut env = crate::json::ObjBuilder::new();
    env.field("method", crate::json::jstring(method));
    env.field("params", params_obj);
    let obj = env.build();
    proof {
        assert(obj@->Obj_0 =~= simple_event_json(method@)->Obj_0);
    }
    crate::json::to_json_string(&obj)
}

fn build_init_instance_text(instance_id: &str) -> (r: String)
    ensures
        r@ == ser(init_instance_json(instance_id@)),
{
    let mut params = crate::json::ObjBuilder::new();
    params.field("type", crate::json::jstring("INIT_INSTANCE"));
    params.field("instanceId", crate::json::jstring(instance_id));
    params.field("source", crate::json::jstring("@devtools-page"));
    let params_obj = params.build();
    let mut env = crate::json::ObjBuilder::new();
    env.field("method", crate::json::jstring("Redux.message"));
    env.field("params", params_obj);
    let obj = env.build();
    proof {
        let spec = init_instance_json(instance_id@);
        assert(params_obj@->Obj_0 =~= spec->Obj_0[1].1->Obj_0);
        assert(obj@->Obj_0 =~= spec->Obj_0);
    }
    crate::json::to_json_string(&obj)
}

fn build_init_text(store: &crate::react_native::ReduxStoreInstance) -> (r: String)
    ensures
        r@ == ser(init_json(*store)),
{
    let mut params = crate::json::ObjBuilder::new();
    params.field("type", crate::json::jstring("INIT"));
    params.field("instanceId", Json::Str(store.instance_id.clone()));
    params.field("source", crate::json::jstring("@devtools-page"));
    params.field("name", Json::Str(store.name.clone()));
    params.field("payload", Json::Str(store.payload.clone()));
    params.field("maxAge", Json::Int(50));
    params.field("timestamp", Json::Int(store.timestamp));
    let params_obj = params.build();
    let mut env = crate::json::ObjBuilder::new();
    env.field("method", crate::json::jstring("Redux.message"));
    env.field("params", params_obj);
    let obj = env.build();
    proof {
        let spec = init_json(*store);
        assert(params_obj@->Obj_0 =~= spec->Obj_0[1].1->Obj_0);
        assert(obj@->Obj_0 =~= spec->Obj_0);
    }
    crate::json::to_json_string(&obj)
}

impl SocketServer {
    /// The queued messages of one frontend, for reading its delivery state.
    pub fn devtools_outbox<'a>(&'a self, id: &str) -> (r: Option<&'a Vec<String>>)
        ensures
            ({
                let j = devtools_index(self.devtools@, id@);
                match r {
                    Some(ob) => j >= 0 && *ob == self.devtools@[j].outbox,
                    None => j == -1,
                }
            }),
    {
        match self.find_devtools(id) {
            Some(j) => Some(&self.devtools[j].outbox),
            None => None,
        }
    }

    /// The queued messages of one client.
    pub fn client_outbox<'a>(&'a self, id: &str) -> (r: Option<&'a Vec<String>>)
        ensures
            ({
                let j = client_index(self.clients@, id@);
                match r {
                    Some(ob) => j >= 0 && *ob == self.clients@[j].outbox,
                    None => j == -1,
                }
            }),
    {
        match self.find_client(id) {
            Some(j) => Some(&self.clients[j].outbox),
            None => None,
        }
    }

    /// Register a web client under its id; an existing entry with the same
    /// id is replaced.
    pub fn register_client(
        &mut self,
        id: String,
        url: Option<String>,
        title: Option<String>,
        favicon: Option<String>,
        ua: Option<String>,
        time: Option<String>,
    )
        ensures
            final(self).devtools == old(self).devtools,
            final(self).react_native_inspector_manager == old(self).react_native_inspector_manager,
            final(self).reactotron_server == old(self).reactotron_server,
            final(self).response_bodies == old(self).response_bodies,
            ({
                let j = client_index(old(self).clients@, id@);
                let post = final(self).clients@;
                let pre = old(self).clients@;
                let at = if j >= 0 {
                    j
                } else {
                    pre.len() as int
                };
                &&& post.len() as int == (if j >= 0 {
                    pre.len() as int
                } else {
                    pre.len() as int + 1
                })
                &&& forall|k: int| 0 <= k < pre.len() && k != at ==> #[trigger] post[k] == pre[k]
                &&& post[at].id@ == id@
                &&& opt_sview(post[at].url) == opt_sview(url)
                &&& opt_sview(post[at].title) == opt_sview(title)
                &&& opt_sview(post[at].favicon) == opt_sview(favicon)
                &&& opt_sview(post[at].ua) == opt_sview(ua)
                &&& opt_sview(post[at].time) == opt_sview(time)
                &&& post[at].outbox@.len() == 0
            }),
    {
        let entry = Client { id, url, title, favicon, ua, time, outbox: Vec::new() };
        proof {
            lemma_client_index(self.clients@, entry.id@);
        }
        match self.find_client(entry.id.clone().as_str()) {
            Some(j) => {
                self.clients.set(j, entry);
            },
            None => {
                self.clients.push(entry);
            },
        }
    }

    /// Register a Reactotron client as a synthetic web client, so the
    /// directory presents it as a target; its recorded time is the current
    /// time in seconds.
    pub fn register_reactotron_client(
        &mut self,
        client_id: &str,
        url: &str,
        title: &str,
        ua: &str,
        now_secs: u64,
    )
        ensures
            final(self).devtools == old(self).devtools,
            final(self).react_native_inspector_manager == old(self).react_native_inspector_manager,
            final(self).reactotron_server == old(self).reactotron_server,
            final(self).response_bodies == old(self).response_bodies,
            ({
                let j = client_index(old(self).clients@, client_id@);
                let post = final(self).clients@;
                let pre = old(self).clients@;
                let at = if j >= 0 {
                    j
                } else {
                    pre.len() as int
                };
                &&& post.len() as int == (if j >= 0 {
                    pre.len() as int
                } else {
                    pre.len() as int + 1
                })
                &&& forall|k: int| 0 <= k < pre.len() && k != at ==> #[trigger] post[k] == pre[k]
                &&& post[at].id@ == client_id@
                &&& opt_sview(post[at].url) == Some(url@)
                &&& opt_sview(post[at].title) == Some(title@)
                &&& post[at].favicon is None
                &&& opt_sview(post[at].ua) == Some(ua@)
                &&& opt_sview(post[at].time) == Some(crate::json::dec_nat(now_secs as nat))
                &&& post[at].outbox@.len() == 0
            }),
    {
        let mut tc: Vec<char> = Vec::new();
        crate::json::push_u64_dec(now_secs, &mut tc);
        let time = crate::json::chars_to_string(&tc);
        self.register_client(
            client_id.to_owned(),
            Some(url.to_owned()),
            Some(title.to_owned()),
            None,
            Some(ua.to_owned()),
            Some(time),
        );
    }

    /// Remove a Reactotron client's synthetic entry.
    pub fn unregister_reactotron_client(&mut self, client_id: &str)
        ensures
            final(self).devtools == old(self).devtools,
            final(self).react_native_inspector_manager == old(self).react_native_inspector_manager,
            final(self).reactotron_server == old(self).reactotron_server,
            final(self).response_bodies == old(self).response_bodies,
            ({
                let j = client_index(old(self).clients@, client_id@);
                if j >= 0 {
                    final(self).clients@ == old(self).clients@.remove(j)
                } else {
                    final(self).clients@ == old(self).clients@
                }
            }),
    {
        proof {
            lemma_client_index(self.clients@, client_id@);
        }
        match self.find_client(client_id) {
            Some(j) => {
                self.clients.remove(j);
            },
            None => {},
        }
    }

    /// Attach a frontend.  Its entry starts with the execution-context event
    /// when its target is a Reactotron client and with the Redux replay when
    /// its target is an inspector; the bound client is asked to replay its
    /// stored events, and an inspector target is bound to itself so the
    /// frontend can reach it.
    pub fn attach_devtools(&mut self, id: String, client_id: Option<String>)
        requires
            crate::react_native::manager_wf(old(self).react_native_inspector_manager),
        ensures
            crate::react_native::manager_wf(final(self).react_native_inspector_manager),
            final(self).reactotron_server == old(self).reactotron_server,
            final(self).response_bodies == old(self).response_bodies,
            ({
                let pre = old(self).clients@;
                let post = final(self).clients@;
                match client_id {
                    Some(c) => {
                        let ci = client_index(pre, c@);
                        if ci >= 0 {
                            &&& post.len() == pre.len()
                            &&& forall|k: int|
                                0 <= k < pre.len() && k != ci ==> #[trigger] post[k] == pre[k]
                            &&& post[ci].id == pre[ci].id
                            &&& post[ci].url == pre[ci].url
                            &&& post[ci].title == pre[ci].title
                            &&& outbox_appended_all(
                                pre[ci].outbox@,
                                post[ci].outbox@,
                                seq![
                                    ser(simple_event_json("Storage.replayStoredEvents"@)),
                                    ser(simple_event_json("SessionReplay.replayStoredEvents"@)),
                                ],
                            )
                        } else {
                            post == pre
                        }
                    },
                    None => post == pre,
                }
            }),
            ({
                let pre = old(self).react_native_inspector_manager.connections@;
                let post = final(self).react_native_inspector_manager.connections@;
                match client_id {
                    Some(c) => {
                        let ii = crate::react_native::conn_index(pre, c@);
                        if ii >= 0 {
                            &&& post.len() == pre.len()
                            &&& forall|k: int|
                                0 <= k < pre.len() && k != ii ==> #[trigger] post[k] == pre[k]
                            &&& opt_sview(post[ii].client_id) == Some(c@)
                            &&& post[ii].id == pre[ii].id
                            &&& post[ii].redux_stores == pre[ii].redux_stores
                            &&& post[ii].writer == pre[ii].writer
                            &&& post[ii].outbox == pre[ii].outbox
                        } else {
                            post == pre
                        }
                    },
                    None => post == pre,
                }
            }),
            ({
                let pre = old(self).devtools@;
                let post = final(self).devtools@;
                let dk = devtools_index(pre, id@);
                let at = if dk >= 0 {
                    dk
                } else {
                    pre.len() as int
                };
                &&& post.len() as int == (if dk >= 0 {
                    pre.len() as int
                } else {
                    pre.len() as int + 1
                })
                &&& forall|k: int| 0 <= k < pre.len() && k != at ==> #[trigger] post[k] == pre[k]
                &&& post[at].id@ == id@
                &&& opt_sview(post[at].client_id) == (match client_id {
                    Some(c) => Some(c@),
                    None => None,
                })
                &&& crate::reactotron::views_of(post[at].outbox@) == attach_msgs(
                    *old(self),
                    match client_id {
                        Some(c) => Some(c@),
                        None => None,
                    },
                )
            }),
    {
        let ghost pre_state = *self;
        let mut msgs: Vec<String> = Vec::new();
        let ghost cid_opt: Option<Seq<char>> = match &client_id {
            Some(c) => Some(c@),
            None => None,
        };
        match &client_id {
            Some(c) => {
                // The execution-context event for a Reactotron target.
                match self.find_client(c.as_str()) {
                    Some(ci) => {
                        let is_rt = match &self.clients[ci].url {
                            Some(u) => crate::text::str_starts_with(u.as_str(), "reactotron://"),
                            None => false,
                        };
                        if is_rt {
                            msgs.push(build_exec_ctx_text());
                        }
                    },
                    None => {},
                }
                let ghost part1 = crate::reactotron::views_of(msgs@);
                proof {
                    let ci = client_index(pre_state.clients@, c@);
                    if ci >= 0 && is_reactotron_client(pre_state.clients@[ci]) {
                        assert(part1 =~= seq![ser(exec_ctx_json())]);
                    } else {
                        assert(part1 =~= Seq::<Seq<char>>::empty());
                    }
                }
                // The Redux replay for an inspector target.
                let stores = self.react_native_inspector_manager.get_redux_stores(c.as_str());
                let has_inspector = match self.react_native_inspector_manager.get_connection(
                    c.as_str(),
                ) {
                    Some(_) => true,
                    None => false,
                };
                if has_inspector {
                    let ghost msgs0 = part1;
                    let ghost storesv = self.react_native_inspector_manager.connections@[
                        crate::react_native::conn_index(
                            self.react_native_inspector_manager.connections@,
                            c@,
                        )
                    ].redux_stores@;
                    let n = stores.len();
                    let mut si: usize = 0;
                    while si < n
                        invariant
                            n == stores@.len(),
                            n == storesv.len(),
                            si <= n,
                            forall|q: int|
                                0 <= q < n ==> (#[trigger] stores@[q]).instance_id@
                                    == storesv[q].instance_id@ && stores@[q].name@
                                    == storesv[q].name@ && stores@[q].payload@
                                    == storesv[q].payload@ && stores@[q].timestamp
                                    == storesv[q].timestamp,
                            crate::reactotron::views_of(msgs@).len() == msgs0.len() + 2 * si,
                            crate::reactotron::views_of(msgs@).subrange(0, msgs0.len() as int)
                                == msgs0,
                            forall|q: int|
                                0 <= q < 2 * si ==> #[trigger] crate::reactotron::views_of(
                                    msgs@,
                                )[msgs0.len() + q] == redux_replay_list(storesv)[q],
                        decreases n - si,
                    {
                        let ghost before = crate::reactotron::views_of(msgs@);
                        msgs.push(build_init_instance_text(stores[si].instance_id.as_str()));
                        proof {
                            assert(crate::reactotron::views_of(msgs@) =~= before.push(
                                ser(init_instance_json(storesv[si as int].instance_id@)),
                            ));
                        }
                        let ghost mid = crate::reactotron::views_of(msgs@);
                        msgs.push(build_init_text(&stores[si]));
                        proof {
                            let s_exec = stores@[si as int];
                            let s_spec = storesv[si as int];
                            assert(init_json(s_exec)->Obj_0 =~= init_json(s_spec)->Obj_0);
                            assert(crate::reactotron::views_of(msgs@) =~= mid.push(
                                ser(init_json(s_spec)),
                            ));
                        }
                        si = si + 1;
                    }
                }
                proof {
                    let ii = crate::react_native::conn_index(
                        pre_state.react_native_inspector_manager.connections@,
                        c@,
                    );
                    let second: Seq<Seq<char>> = if ii >= 0 {
                        redux_replay_list(
                            pre_state.react_native_inspector_manager.connections@[ii].redux_stores@,
                        )
                    } else {
                        Seq::empty()
                    };
                    let views = crate::reactotron::views_of(msgs@);
                    assert(second.len() == views.len() - part1.len());
                    assert forall|q: int| 0 <= q < views.len() implies views[q] == (part1
                        + second)[q] by {
                        if q < part1.len() {
                            assert(views.subrange(0, part1.len() as int)[q] == views[q]);
                        } else {
                            assert(views[part1.len() + (q - part1.len())] == second[q
                                - part1.len()]);
                        }
                    }
                    assert(views =~= part1 + second);
                    assert(crate::reactotron::views_of(msgs@) =~= attach_msgs(
                        pre_state,
                        cid_opt,
                    ));
                }
                // Ask the bound client to replay its stored events.
                let m1 = build_simple_event_text("Storage.replayStoredEvents");
                let m2 = build_simple_event_text("SessionReplay.replayStoredEvents");
                match self.find_client(c.as_str()) {
                    Some(ci) => {
                        let cl = &mut self.clients[ci];
                        let ghost ob0 = cl.outbox@;
                        cl.outbox.push(m1);
                        cl.outbox.push(m2);
                        proof {
                            assert(self.clients@[ci as int].outbox@.subrange(
                                0,
                                ob0.len() as int,
                            ) =~= ob0);
                        }
                    },
                    None => {},
                }
                // Bind an inspector target to itself.
                let _ = self.react_native_inspector_manager.associate_with_client(
                    c.as_str(),
                    c.as_str(),
                );
            },
            None => {},
        }
        proof {
            if cid_opt is None {
                assert(crate::reactotron::views_of(msgs@) =~= attach_msgs(pre_state, cid_opt));
            }
        }
        let entry = DevTools { id, client_id, outbox: msgs };
        proof {
            lemma_devtools_index(self.devtools@, entry.id@);
        }
        match self.find_devtools(entry.id.clone().as_str()) {
            Some(j) => {
                self.devtools.set(j, entry);
            },
            None => {
                self.devtools.push(entry);
            },
        }
    }
}

/// The local reply to `Network.getResponseBody`: the cached body, or the
/// empty string, under the request's id.
pub open spec fn body_response_json(id: Option<u64>, body: Seq<char>) -> JsonV {
    JsonV::Obj(
        seq![
            (
                "id"@,
                match id {
                    Some(n) => JsonV::Int(n as int),
                    None => JsonV::Null,
                },
            ),
            (
                "result"@,
                JsonV::Obj(
                    seq![
                        ("body"@, JsonV::Str(body)),
                        ("base64Encoded"@, JsonV::Bool(false)),
                    ],
                ),
            ),
        ],
    )
}

/// The empty success reply to an enable request.
pub open spec fn ok_response_json(id: Option<u64>) -> JsonV {
    JsonV::Obj(
        seq![
            (
                "id"@,
                match id {
                    Some(n) => JsonV::Int(n as int),
                    None => JsonV::Null,
                },
            ),
            ("result"@, JsonV::Obj(Seq::empty())),
        ],
    )
}

/// The minimal single-frame resource tree handed to frontends of Reactotron
/// targets.
pub open spec fn resource_tree_json(id: Option<u64>) -> JsonV {
    JsonV::Obj(
        seq![
            (
                "id"@,
                match id {
                    Some(n) => JsonV::Int(n as int),
                    None => JsonV::Null,
                },
            ),
            (
                "result"@,
                JsonV::Obj(
                    seq![
                        (
                            "frameTree"@,
                            JsonV::Obj(
                                seq![
                                    (
                                        "frame"@,
                                        JsonV::Obj(
                                            seq![
                                                ("id"@, JsonV::Str("1"@)),
                                                (
                                                    "mimeType"@,
                                                    JsonV::Str("application/javascript"@),
                                                ),
                                                (
                                                    "securityOrigin"@,
                                                    JsonV::Str("reactotron://"@),
                                                ),
                                                ("url"@, JsonV::Str("reactotron://"@)),
                                            ],
                                        ),
                                    ),
                                    ("resources"@, JsonV::Arr(Seq::empty())),
                                ],
                            ),
                        ),
                    ],
                ),
            ),
        ],
    )
}

/// The request id a `getResponseBody` request names.
pub open spec fn rid_of(m: CDPMessageV) -> Option<Seq<char>> {
    match m.params {
        Some(p) => jget_str(p, "requestId"@),
        None => None,
    }
}

/// The cached body under a request id, or the empty string.
pub open spec fn cached_body(pre: SocketServer, rid: Seq<char>) -> Seq<char> {
    let j = body_index(pre.response_bodies@, rid);
    if j >= 0 {
        pre.response_bodies@[j].1@
    } else {
        Seq::empty()
    }
}

pub open spec fn is_enable_method(m: Option<Seq<char>>) -> bool {
    m == Some("Runtime.enable"@) || m == Some("Network.enable"@) || m == Some("Console.enable"@)
        || m == Some("Page.enable"@)
}

/// The replies a frontend frame is answered with locally, or nothing when
/// the frame is forwarded to the target instead.
pub open spec fn local_responses(
    pre: SocketServer,
    e: DevTools,
    msg: Option<CDPMessageV>,
) -> Option<Seq<Seq<char>>> {
    match msg {
        None => None,
        Some(m) => {
            let cid_opt = opt_sview(e.client_id);
            let bound_rt = match cid_opt {
                Some(c) => {
                    let ci = client_index(pre.clients@, c);
                    ci >= 0 && is_reactotron_client(pre.clients@[ci])
                },
                None => false,
            };
            let bound_rn = match cid_opt {
                Some(c) => crate::react_native::conn_index(
                    pre.react_native_inspector_manager.connections@,
                    c,
                ) >= 0,
                None => false,
            };
            if m.method == Some("Network.getResponseBody"@) && m.id is Some && rid_of(m) is Some
                && !bound_rn {
                Some(seq![ser(body_response_json(m.id, cached_body(pre, rid_of(m)->Some_0)))])
            } else if m.method == Some("Page.getResourceTree"@) && bound_rt {
                Some(seq![ser(resource_tree_json(m.id))])
            } else if is_enable_method(m.method) && bound_rt {
                if m.method == Some("Runtime.enable"@) {
                    Some(seq![ser(ok_response_json(m.id)), ser(exec_ctx_json())])
                } else {
                    Some(seq![ser(ok_response_json(m.id))])
                }
            } else {
                None
            }
        },
    }
}

/// One frontend entry got replies queued; everything else is untouched.
pub open spec fn devtools_entry_appended(
    pre: Seq<DevTools>,
    post: Seq<DevTools>,
    dk: int,
    texts: Seq<Seq<char>>,
) -> bool {
    &&& post.len() == pre.len()
    &&& forall|k: int| 0 <= k < pre.len() && k != dk ==> #[trigger] post[k] == pre[k]
    &&& post[dk].id == pre[dk].id
    &&& post[dk].client_id == pre[dk].client_id
    &&& outbox_appended_all(pre[dk].outbox@, post[dk].outbox@, texts)
}

/// The raw frame was queued for the bound target: the client when one
/// exists under the bound id, the inspector otherwise, nobody when neither
/// is live.
pub open spec fn forwarded_to_target(
    pre: SocketServer,
    post: SocketServer,
    cid_opt: Option<Seq<char>>,
    text: Seq<char>,
) -> bool {
    match cid_opt {
        None => post == pre,
        Some(c) => {
            let ci = client_index(pre.clients@, c);
            let ii = crate::react_native::conn_index(
                pre.react_native_inspector_manager.connections@,
                c,
            );
            if ci >= 0 {
                &&& post.react_native_inspector_manager == pre.react_native_inspector_manager
                &&& post.clients@.len() == pre.clients@.len()
                &&& forall|k: int|
                    0 <= k < pre.clients@.len() && k != ci ==> #[trigger] post.clients@[k]
                        == pre.clients@[k]
                &&& post.clients@[ci].id == pre.clients@[ci].id
                &&& post.clients@[ci].url == pre.clients@[ci].url
                &&& post.clients@[ci].title == pre.clients@[ci].title
                &&& post.clients@[ci].favicon == pre.clients@[ci].favicon
                &&& post.clients@[ci].ua == pre.clients@[ci].ua
                &&& post.clients@[ci].time == pre.clients@[ci].time
                &&& outbox_appended(
                    pre.clients@[ci].outbox@,
                    post.clients@[ci].outbox@,
                    text,
                )
            } else if ii >= 0 {
                &&& post.clients == pre.clients
                &&& post.react_native_inspector_manager.connections@.len()
                    == pre.react_native_inspector_manager.connections@.len()
                &&& forall|k: int|
                    0 <= k < pre.react_native_inspector_manager.connections@.len() && k != ii
                        ==> #[trigger] post.react_native_inspector_manager.connections@[k]
                        == pre.react_native_inspector_manager.connections@[k]
                &&& crate::react_native::same_entry_except_stores_and_outbox(
                    post.react_native_inspector_manager.connections@[ii],
                    pre.react_native_inspector_manager.connections@[ii],
                )
                &&& post.react_native_inspector_manager.connections@[ii].redux_stores
                    == pre.react_native_inspector_manager.connections@[ii].redux_stores
                &&& outbox_appended(
                    pre.react_native_inspector_manager.connections@[ii].outbox@,
                    post.react_native_inspector_manager.connections@[ii].outbox@,
                    text,
                )
            } else {
                post == pre
            }
        },
    }
}

/// What one frontend frame does: a `getResponseBody` for a non-inspector
/// target is answered from the cache, a Reactotron target's resource-tree
/// and enable requests are answered in place, and every other frame is
/// forwarded to the bound target.
pub open spec fn devtools_frame_rel(
    pre: SocketServer,
    post: SocketServer,
    did: Seq<char>,
    text: Seq<char>,
) -> bool {
    &&& post.response_bodies == pre.response_bodies
    &&& post.reactotron_server == pre.reactotron_server
    &&& {
        let dk = devtools_index(pre.devtools@, did);
        if dk < 0 {
            post == pre
        } else {
            let e = pre.devtools@[dk];
            let msg = match parse_json_text(text) {
                Some(v) => cdp_message_of(v),
                None => None,
            };
            match local_responses(pre, e, msg) {
                Some(texts) => {
                    &&& post.clients == pre.clients
                    &&& post.react_native_inspector_manager
                        == pre.react_native_inspector_manager
                    &&& devtools_entry_appended(pre.devtools@, post.devtools@, dk, texts)
                },
                None => {
                    &&& post.devtools == pre.devtools
                    &&& forwarded_to_target(pre, post, opt_sview(e.client_id), text)
                },
            }
        }
    }
}

fn build_id_json(id: Option<u64>) -> (r: Json)
    requires
        match id {
            Some(n) => n <= 0x7FFF_FFFF_FFFF_FFFF,
            None => true,
        },
    ensures
        r@ == (match id {
            Some(n) => JsonV::Int(n as int),
            None => JsonV::Null,
        }),
{
    match id {
        Some(n) => Json::Int(n as i64),
        None => Json::Null,
    }
}

fn build_body_response_text(id: Option<u64>, body: &str) -> (r: String)
    requires
        match id {
            Some(n) => n <= 0x7FFF_FFFF_FFFF_FFFF,
            None => true,
        },
    ensures
        r@ == ser(body_response_json(id, body@)),
{
    let mut inner = crate::json::ObjBuilder::new();
    inner.field("body", crate::json::jstring(body));
    inner.field("base64Encoded", Json::Bool(false));
    let inner_obj = inner.build();
    let mut b = crate::json::ObjBuilder::new();
    b.field("id", build_id_json(id));
    b.field("result", inner_obj);
    let obj = b.build();
    proof {
        let spec = body_response_json(id, body@);
        assert(inner_obj@->Obj_0 =~= spec->Obj_0[1].1->Obj_0);
        assert(obj@->Obj_0 =~= spec->Obj_0);
    }
    crate::json::to_json_string(&obj)
}

fn build_ok_response_text(id: Option<u64>) -> (r: String)
    requires
        match id {
            Some(n) => n <= 0x7FFF_FFFF_FFFF_FFFF,
            None => true,
        },
    ensures
        r@ == ser(ok_response_json(id)),
{
    let inner = crate::json::ObjBuilder::new();
    let inner_obj = inner.build();
    let mut b = crate::json::ObjBuilder::new();
    b.field("id", build_id_json(id));
    b.field("result", inner_obj);
    let obj = b.build();
    proof {
        assert(obj@->Obj_0 =~= ok_response_json(id)->Obj_0);
    }
    crate::json::to_json_string(&obj)
}

fn build_resource_tree_text(id: Option<u64>) -> (r: String)
    requires
        match id {
            Some(n) => n <= 0x7FFF_FFFF_FFFF_FFFF,
            None => true,
        },
    ensures
        r@ == ser(resource_tree_json(id)),
{
    let mut frame = crate::json::ObjBuilder::new();
    frame.field("id", crate::json::jstring("1"));
    frame.field("mimeType", crate::json::jstring("application/javascript"));
    frame.field("securityOrigin", crate::json::jstring("reactotron://"));
    frame.field("url", crate::json::jstring("reactotron://"));
    let frame_obj = frame.build();
    let resources: Vec<Json> = Vec::new();
    proof {
        crate::json::lemma_json_view_seq(resources@);
        assert(crate::json::json_view_seq(resources@) =~= Seq::<JsonV>::empty());
    }
    let mut tree = crate::json::ObjBuilder::new();
    tree.field("frame", frame_obj);
    tree.field("resources", Json::Arr(resources));
    let tree_obj = tree.build();
    let mut inner = crate::json::ObjBuilder::new();
    inner.field("frameTree", tree_obj);
    let inner_obj = inner.build();
    let mut b = crate::json::ObjBuilder::new();
    b.field("id", build_id_json(id));
    b.field("result", inner_obj);
    let obj = b.build();
    proof {
        let spec = resource_tree_json(id);
        assert(frame_obj@->Obj_0 =~= spec->Obj_0[1].1->Obj_0[0].1->Obj_0[0].1->Obj_0);
        assert(tree_obj@->Obj_0 =~= spec->Obj_0[1].1->Obj_0[0].1->Obj_0);
        assert(inner_obj@->Obj_0 =~= spec->Obj_0[1].1->Obj_0);
        assert(obj@->Obj_0 =~= spec->Obj_0);
    }
    crate::json::to_json_string(&obj)
}

impl SocketServer {
    fn push_devtools_msgs(&mut self, dk: usize, texts: Vec<String>)
        requires
            dk < old(self).devtools@.len(),
        ensures
            final(self).clients == old(self).clients,
            final(self).react_native_inspector_manager == old(self).react_native_inspector_manager,
            final(self).reactotron_server == old(self).reactotron_server,
            final(self).response_bodies == old(self).response_bodies,
            devtools_entry_appended(
                old(self).devtools@,
                final(self).devtools@,
                dk as int,
                crate::reactotron::views_of(texts@),
            ),
    {
        let ghost textsv = crate::reactotron::views_of(texts@);
        let ghost ob0 = old(self).devtools@[dk as int].outbox@;
        let n = texts.len();
        let ghost snap = *self;
        let mut i: usize = 0;
        let mut texts = texts;
        proof {
            assert(textsv.len() == n);
        }
        while i < n
            invariant
                dk < self.devtools@.len(),
                self.devtools@.len() == old(self).devtools@.len(),
                n == texts@.len(),
                textsv == crate::reactotron::views_of(texts@),
                textsv.len() == n,
                i <= n,
                ob0 == old(self).devtools@[dk as int].outbox@,
                self.clients == old(self).clients,
                self.react_native_inspector_manager == old(self).react_native_inspector_manager,
                self.reactotron_server == old(self).reactotron_server,
                self.response_bodies == old(self).response_bodies,
                forall|k: int|
                    0 <= k < self.devtools@.len() && k != dk ==> #[trigger] self.devtools@[k]
                        == old(self).devtools@[k],
                self.devtools@[dk as int].id == old(self).devtools@[dk as int].id,
                self.devtools@[dk as int].client_id == old(self).devtools@[dk as int].client_id,
                self.devtools@[dk as int].outbox@.len() == ob0.len() + i,
                self.devtools@[dk as int].outbox@.subrange(0, ob0.len() as int) == ob0,
                forall|q: int|
                    0 <= q < i ==> #[trigger] self.devtools@[dk as int].outbox@[ob0.len() + q]@
                        == textsv[q],
            decreases n - i,
        {
            let d = &mut self.devtools[dk];
            let ghost pre_ob = d.outbox@;
            let item = texts[i].clone();
            d.outbox.push(item);
            proof {
                assert(self.devtools@[dk as int].outbox@.subrange(0, pre_ob.len() as int)
                    =~= pre_ob);
                assert forall|q: int| 0 <= q < pre_ob.len() implies #[trigger] self.devtools@[
                    dk as int
                ].outbox@[q] == pre_ob[q] by {
                    assert(self.devtools@[dk as int].outbox@.subrange(0, pre_ob.len() as int)[q]
                        == self.devtools@[dk as int].outbox@[q]);
                }
                assert(self.devtools@[dk as int].outbox@.subrange(0, ob0.len() as int) =~= ob0);
                assert(textsv[i as int] == texts@[i as int]@);
            }
            i = i + 1;
        }
    }

    /// Handle one frame from a frontend: answer it locally where the design
    /// says so, forward it to the bound target otherwise.
    pub fn handle_devtools_frame(&mut self, devtools_id: &str, text: &str)
        ensures
            devtools_frame_rel(*old(self), *final(self), devtools_id@, text@),
    {
        let dk = match self.find_devtools(devtools_id) {
            Some(dk) => dk,
            None => {
                return ;
            },
        };
        let msg: Option<CDPMessage> = match crate::json_parse::parse_json(text) {
            Some(v) => read_cdp_message(&v),
            None => None,
        };
        let cid: Option<String> = clone_opt_str(&self.devtools[dk].client_id);
        let bound_rt = match &cid {
            Some(c) => match self.find_client(c.as_str()) {
                Some(ci) => match &self.clients[ci].url {
                    Some(u) => crate::text::str_starts_with(u.as_str(), "reactotron://"),
                    None => false,
                },
                None => false,
            },
            None => false,
        };
        let bound_rn = match &cid {
            Some(c) => match self.react_native_inspector_manager.get_connection(c.as_str()) {
                Some(_) => true,
                None => false,
            },
            None => false,
        };
        let ghost e = self.devtools@[dk as int];
        let ghost msgv: Option<CDPMessageV> = match &msg {
            Some(m) => Some(m@),
            None => None,
        };
        match &msg {
            Some(m) => {
                let is_grb = match &m.method {
                    Some(mm) => crate::text::str_eq(mm.as_str(), "Network.getResponseBody"),
                    None => false,
                };
                let rid: Option<String> = match &m.params {
                    Some(p) => match p.get_str("requestId") {
                        Some(s) => Some(s.clone()),
                        None => None,
                    },
                    None => None,
                };
                if is_grb && m.id.is_some() && rid.is_some() && !bound_rn {
                    let rid_s = match rid {
                        Some(s) => s,
                        None => {
                            return ;
                        },
                    };
                    let body: String = match self.get_response_body(rid_s.as_str()) {
                        Some(b) => b,
                        None => String::new(),
                    };
                    let reply = build_body_response_text(m.id, body.as_str());
                    let mut texts: Vec<String> = Vec::new();
                    texts.push(reply);
                    proof {
                        assert(crate::reactotron::views_of(texts@) =~= local_responses(
                            *old(self),
                            e,
                            msgv,
                        )->Some_0);
                    }
                    self.push_devtools_msgs(dk, texts);
                    return ;
                }
                let is_tree = match &m.method {
                    Some(mm) => crate::text::str_eq(mm.as_str(), "Page.getResourceTree"),
                    None => false,
                };
                if is_tree && bound_rt {
                    let reply = build_resource_tree_text(m.id);
                    let mut texts: Vec<String> = Vec::new();
                    texts.push(reply);
                    proof {
                        assert(crate::reactotron::views_of(texts@) =~= local_responses(
                            *old(self),
                            e,
                            msgv,
                        )->Some_0);
                    }
                    self.push_devtools_msgs(dk, texts);
                    return ;
                }
                let is_runtime_enable = match &m.method {
                    Some(mm) => crate::text::str_eq(mm.as_str(), "Runtime.enable"),
                    None => false,
                };
                let is_enable = is_runtime_enable || (match &m.method {
                    Some(mm) => crate::text::str_eq(mm.as_str(), "Network.enable")
                        || crate::text::str_eq(mm.as_str(), "Console.enable")
                        || crate::text::str_eq(mm.as_str(), "Page.enable"),
                    None => false,
                });
                if is_enable && bound_rt {
                    let mut texts: Vec<String> = Vec::new();
                    texts.push(build_ok_response_text(m.id));
                    if is_runtime_enable {
                        texts.push(build_exec_ctx_text());
                    }
                    proof {
                        assert(crate::reactotron::views_of(texts@) =~= local_responses(
                            *old(self),
                            e,
                            msgv,
                        )->Some_0);
                    }
                    self.push_devtools_msgs(dk, texts);
                    return ;
                }
            },
            None => {},
        }
        // Forward the raw frame to the bound target.
        proof {
            assert(local_responses(*old(self), e, msgv) is None);
        }
        let c = match cid {
            Some(c) => c,
            None => {
                return ;
            },
        };
        match self.find_client(c.as_str()) {
            Some(ci) => {
                let cl = &mut self.clients[ci];
                let ghost ob0 = cl.outbox@;
                cl.outbox.push(text.to_owned());
                proof {
                    assert(self.clients@[ci as int].outbox@.subrange(0, ob0.len() as int)
                        =~= ob0);
                }
                return ;
            },
            None => {},
        }
        let ii = match self.react_native_inspector_manager.get_connection(c.as_str()) {
            Some(_) => {
                let mut found: Option<usize> = None;
                let n = self.react_native_inspector_manager.connections.len();
                let mut q: usize = 0;
                while q < n && found.is_none()
                    invariant
                        n == self.react_native_inspector_manager.connections@.len(),
                        q <= n,
                        match found {
                            Some(f) => f < n && self.react_native_inspector_manager.connections@[
                                f as int
                            ].id@ == c@ && f as int == crate::react_native::conn_index(
                                self.react_native_inspector_manager.connections@,
                                c@,
                            ),
                            None => forall|k: int|
                                0 <= k < q
                                    ==> (#[trigger] self.react_native_inspector_manager.connections@[k]).id@
                                    != c@,
                        },
                    decreases n - q, (if found is Some {
                        0int
                    } else {
                        1int
                    }),
                {
                    if crate::text::str_eq(
                        self.react_native_inspector_manager.connections[q].id.as_str(),
                        c.as_str(),
                    ) {
                        proof {
                            crate::react_native::lemma_conn_index_at(
                                self.react_native_inspector_manager.connections@,
                                c@,
                                q as int,
                            );
                        }
                        found = Some(q);
                    } else {
                        q = q + 1;
                    }
                }
                found
            },
            None => None,
        };
        match ii {
            Some(ii) => {
                let entry = &mut self.react_native_inspector_manager.connections[ii];
                let ghost ob0 = entry.outbox@;
                entry.outbox.push(text.to_owned());
                proof {
                    assert(self.react_native_inspector_manager.connections@[ii as int].outbox@
                        .subrange(0, ob0.len() as int) =~= ob0);
                }
            },
            None => {
                proof {
                    crate::react_native::lemma_conn_index(
                        self.react_native_inspector_manager.connections@,
                        c@,
                    );
                }
            },
        }
    }
}

fn clone_opt_str(o: &Option<String>) -> (r: Option<String>)
    ensures
        opt_sview(r) == opt_sview(*o),
{
    match o {
        Some(s) => Some(s.clone()),
        None => None,
    }
}

fn clone_string_vec(v: &Vec<String>) -> (r: Vec<String>)
    ensures
        r@.len() == v@.len(),
        forall|i: int| 0 <= i < v@.len() ==> #[trigger] r@[i]@ == v@[i]@,
{
    let n = v.len();
    let mut out: Vec<String> = Vec::new();
    let mut i: usize = 0;
    while i < n
        invariant
            n == v@.len(),
            i <= n,
            out@.len() == i,
            forall|k: int| 0 <= k < i ==> #[trigger] out@[k]@ == v@[k]@,
        decreases n - i,
    {
        out.push(v[i].clone());
        i = i + 1;
    }
    out
}

/// Order preservation per connection: when two frames from the same client
/// are relayed one after the other, every frontend that was bound to that
/// client sees them queued in the same order, after everything it already
/// held.
pub proof fn lemma_order_preservation(
    s0: SocketServer,
    s1: SocketServer,
    s2: SocketServer,
    cid: Seq<char>,
    t1: Seq<char>,
    t2: Seq<char>,
    k: int,
)
    requires
        client_frame_rel(s0, s1, cid, t1),
        client_frame_rel(s1, s2, cid, t2),
        0 <= k < s0.devtools@.len(),
        opt_sview(s0.devtools@[k].client_id) == Some(cid),
    ensures
        s2.devtools@[k].outbox@.len() == s0.devtools@[k].outbox@.len() + 2,
        s2.devtools@[k].outbox@.subrange(0, s0.devtools@[k].outbox@.len() as int)
            == s0.devtools@[k].outbox@,
        s2.devtools@[k].outbox@[s0.devtools@[k].outbox@.len() as int]@ == processed_message(t1),
        s2.devtools@[k].outbox@[s0.devtools@[k].outbox@.len() as int + 1]@ == processed_message(t2),
{
    let b0 = s0.devtools@[k].outbox@;
    let b1 = s1.devtools@[k].outbox@;
    let b2 = s2.devtools@[k].outbox@;
    assert(outbox_appended(b0, b1, processed_message(t1)));
    assert(outbox_appended(b1, b2, processed_message(t2)));
    assert(b2.subrange(0, b0.len() as int) =~= b0) by {
        assert forall|q: int| 0 <= q < b0.len() implies b2[q] == b0[q] by {
            assert(b2.subrange(0, b1.len() as int)[q] == b2[q]);
            assert(b1.subrange(0, b0.len() as int)[q] == b1[q]);
        }
    }
    assert(b2[b0.len() as int] == b2.subrange(0, b1.len() as int)[b0.len() as int]);
    assert(b1[b0.len() as int] == b1.last());
}

} // verus!
