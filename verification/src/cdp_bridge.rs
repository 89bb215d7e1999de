//! The Reactotron-to-CDP translator: pure functions turning Reactotron
//! command records into Chrome DevTools Protocol event envelopes.
use crate::json::{jget, jget_str, json_view_seq, obj_get, ser, Json, JsonV};
use crate::json_parse::{digits_val, is_digit, pow10};
use crate::normalize::{norm_depth, norm_text, norm_value};
use vstd::prelude::*;

verus! {

broadcast use vstd::std_specs::vec::group_vec_axioms, vstd::seq::group_seq_axioms, vstd::string::group_string_axioms;

// ---------------------------------------------------------------------------
// Commands
// ---------------------------------------------------------------------------
/// The mathematical model of a Reactotron command record.
pub ghost struct CommandV {
    pub cmd_type: Seq<char>,
    pub payload: JsonV,
    pub date: Option<Seq<char>>,
    pub client_id: Option<Seq<char>>,
    pub connection_id: Option<u32>,
    pub message_id: Option<u32>,
}

/// A Reactotron command: a `type` tag, a payload, and optional bookkeeping
/// fields.
pub struct Command {
    pub cmd_type: String,
    pub payload: Json,
    pub date: Option<String>,
    pub client_id: Option<String>,
    pub connection_id: Option<u32>,
    pub message_id: Option<u32>,
}

impl View for Command {
    type V = CommandV;

    open spec fn view(&self) -> CommandV {
        CommandV {
            cmd_type: self.cmd_type@,
            payload: self.payload@,
            date: match self.date {
                Some(d) => Some(d@),
                None => None,
            },
            client_id: match self.client_id {
                Some(c) => Some(c@),
                None => None,
            },
            connection_id: self.connection_id,
            message_id: self.message_id,
        }
    }
}

/// The optional string under `key`: missing or null give `None`; a present
/// value of any other shape than a string is a type error.
pub open spec fn opt_str_field(v: JsonV, key: Seq<char>) -> Option<Option<Seq<char>>> {
    match jget(v, key) {
        None => Some(None),
        Some(JsonV::Null) => Some(None),
        Some(JsonV::Str(s)) => Some(Some(s)),
        Some(_) => None,
    }
}

/// The optional unsigned 32-bit integer under `key`.
pub open spec fn opt_u32_field(v: JsonV, key: Seq<char>) -> Option<Option<u32>> {
    match jget(v, key) {
        None => Some(None),
        Some(JsonV::Null) => Some(None),
        Some(JsonV::Int(n)) => if 0 <= n <= u32::MAX {
            Some(Some(n as u32))
        } else {
            None
        },
        Some(_) => None,
    }
}

/// The command denoted by a JSON value: an object with a string `type`, a
/// `payload`, and well-typed optional fields.
pub open spec fn command_of(v: JsonV) -> Option<CommandV> {
    if !(v is Obj) {
        None
    } else {
        match (jget_str(v, "type"@), jget(v, "payload"@)) {
            (Some(t), Some(p)) => match (
                opt_str_field(v, "date"@),
                opt_str_field(v, "clientId"@),
                opt_u32_field(v, "connectionId"@),
                opt_u32_field(v, "messageId"@),
            ) {
                (Some(date), Some(client_id), Some(connection_id), Some(message_id)) => Some(
                    CommandV { cmd_type: t, payload: p, date, client_id, connection_id, message_id },
                ),
                _ => None,
            },
            _ => None,
        }
    }
}

fn read_opt_str_field(v: &Json, key: &str) -> (r: Option<Option<String>>)
    ensures
        match r {
            Some(None) => opt_str_field(v@, key@) == Some(None::<Seq<char>>),
            Some(Some(s)) => opt_str_field(v@, key@) == Some(Some(s@)),
            None => opt_str_field(v@, key@) is None,
        },
{
    match v.get(key) {
        None => Some(None),
        Some(f) => match f {
            Json::Null => Some(None),
            Json::Str(s) => Some(Some(s.clone())),
            _ => None,
        },
    }
}

fn read_opt_u32_field(v: &Json, key: &str) -> (r: Option<Option<u32>>)
    ensures
        match r {
            Some(on) => opt_u32_field(v@, key@) == Some(on),
            None => opt_u32_field(v@, key@) is None,
        },
{
    match v.get(key) {
        None => Some(None),
        Some(f) => match f {
            Json::Null => Some(None),
            Json::Int(n) => if 0 <= *n && *n <= 0xFFFF_FFFFi64 {
                Some(Some(*n as u32))
            } else {
                None
            },
            _ => None,
        },
    }
}

// ---------------------------------------------------------------------------
// Timestamps
// ---------------------------------------------------------------------------
/// The position of the first dot at or after `i`, or the length.
pub open spec fn dot_pos(s: Seq<char>, i: int) -> int
    decreases s.len() - i,
{
    if i < 0 || i >= s.len() {
        s.len() as int
    } else if s[i] == '.' {
        i
    } else {
        dot_pos(s, i + 1)
    }
}

pub open spec fn all_digits(s: Seq<char>, i: int, j: int) -> bool {
    forall|k: int| i <= k < j ==> is_digit(s[k])
}

/// An unsigned decimal literal: digits with at most one dot, and at least
/// one digit.
pub open spec fn decimal_shape(s: Seq<char>) -> bool {
    let d = dot_pos(s, 0);
    s.len() > 0 && all_digits(s, 0, d) && (d == s.len() || all_digits(s, d + 1, s.len() as int))
        && (d > 0 || d + 1 < s.len())
}

/// The first three fractional digits as a count of milliseconds, padded with
/// zeros.
pub open spec fn frac3(f: Seq<char>) -> int {
    if f.len() >= 3 {
        digits_val(f, 0, 3)
    } else {
        digits_val(f, 0, f.len() as int) * pow10(3 - f.len())
    }
}

/// The milliseconds a Reactotron `date` string denotes.  Values above
/// 3.15576e15 are taken as microseconds, values above 4102444800 as
/// milliseconds, smaller values as seconds.  A value with more than
/// seventeen integer digits, or a string that is not a plain decimal,
/// denotes nothing.
pub open spec fn date_to_ms(s: Seq<char>) -> Option<int> {
    if !decimal_shape(s) {
        None
    } else {
        let d = dot_pos(s, 0);
        let ip = digits_val(s, 0, d);
        let f = if d < s.len() {
            s.subrange(d + 1, s.len() as int)
        } else {
            Seq::<char>::empty()
        };
        if ip >= pow10(17) {
            None
        } else if ip > 3155760000000000 {
            Some(ip / 1000)
        } else if ip > 4102444800 {
            Some(ip)
        } else {
            Some(ip * 1000 + frac3(f))
        }
    }
}

/// The event time in milliseconds: the parsed `date` field, or the current
/// time when the field is absent or unreadable.
pub open spec fn ts_ms_of(date: Option<Seq<char>>, now_ms: int) -> int {
    match date {
        Some(d) => match date_to_ms(d) {
            Some(m) => m,
            None => now_ms,
        },
        None => now_ms,
    }
}

proof fn lemma_digits_val_nonneg(s: Seq<char>, i: int, j: int)
    requires
        all_digits(s, i, j),
    ensures
        digits_val(s, i, j) >= 0,
    decreases j - i,
{
    if j > i {
        lemma_digits_val_nonneg(s, i, j - 1);
    }
}

proof fn lemma_digits_val_mono(s: Seq<char>, i: int, k: int, j: int)
    requires
        i <= k <= j,
        all_digits(s, i, j),
    ensures
        digits_val(s, i, j) >= digits_val(s, i, k),
    decreases j - k,
{
    if k < j {
        lemma_digits_val_mono(s, i, k, j - 1);
        lemma_digits_val_nonneg(s, i, j - 1);
    }
}

/// Parse a `date` string into milliseconds.
pub fn parse_date_ms(s: &str) -> (r: Option<u64>)
    ensures
        match r {
            Some(m) => date_to_ms(s@) == Some(m as int) && m <= 0x7FFF_FFFF_FFFF_FFFF,
            None => date_to_ms(s@) is None,
        },
{
    proof {
        crate::json_parse::lemma_pow10_18();
    }
    let cs = crate::json::str_to_chars(s);
    let n = cs.len();
    if n == 0 {
        return None;
    }
    // Find the dot, checking that everything before it is a digit.
    let mut d: usize = 0;
    while d < n && cs[d] != '.'
        invariant
            d <= n,
            n == cs@.len(),
            cs@ == s@,
            dot_pos(s@, 0) == dot_pos(s@, d as int),
            all_digits(s@, 0, d as int),
        decreases n - d,
    {
        let u = cs[d] as u32;
        if !(48 <= u && u <= 57) {
            proof {
                lemma_dot_pos(s@, d + 1);
                assert(dot_pos(s@, d as int) == dot_pos(s@, d + 1));
                assert(!is_digit(s@[d as int]));
                assert(!all_digits(s@, 0, dot_pos(s@, 0)));
            }
            return None;
        }
        d = d + 1;
    }
    proof {
        assert(dot_pos(s@, 0) == d as int);
    }
    let has_frac = d < n;
    if !(d > 0 || (has_frac && n - d > 1)) {
        return None;
    }
    // Everything after the dot must be a digit.
    if has_frac {
        let mut k: usize = d + 1;
        while k < n
            invariant
                d < n,
                d + 1 <= k <= n,
                n == cs@.len(),
                cs@ == s@,
                dot_pos(s@, 0) == d as int,
                all_digits(s@, d + 1, k as int),
            decreases n - k,
        {
            let u = cs[k] as u32;
            if !(48 <= u && u <= 57) {
                proof {
                    assert(!is_digit(s@[k as int]));
                    assert(!all_digits(s@, d + 1, s@.len() as int));
                }
                return None;
            }
            k = k + 1;
        }
    }
    // The integer part, capped at seventeen digits of value.
    proof {
        assert(decimal_shape(s@));
    }
    let mut ip: u64 = 0;
    let mut i: usize = 0;
    while i < d
        invariant
            i <= d <= n,
            n == cs@.len(),
            cs@ == s@,
            dot_pos(s@, 0) == d as int,
            decimal_shape(s@),
            all_digits(s@, 0, d as int),
            ip as int == digits_val(s@, 0, i as int),
            ip < 100_000_000_000_000_000,
        decreases d - i,
    {
        let dv = (cs[i] as u32 - 48) as u64;
        let next = ip * 10 + dv;
        if next >= 100_000_000_000_000_000 {
            proof {
                crate::json_parse::lemma_pow10_18();
                lemma_digits_val_mono(s@, 0, i + 1, d as int);
            }
            return None;
        }
        ip = next;
        i = i + 1;
    }
    proof {
        crate::json_parse::lemma_pow10_18();
        if d == 0 {
            assert(digits_val(s@, 0, 0) == 0);
        }
    }
    if ip > 3_155_760_000_000_000 {
        Some(ip / 1000)
    } else if ip > 4_102_444_800 {
        Some(ip)
    } else {
        // Seconds: scale to milliseconds, with up to three fractional digits.
        let ghost f = if (d as int) < s@.len() {
            s@.subrange(d + 1, s@.len() as int)
        } else {
            Seq::<char>::empty()
        };
        proof {
            if (d as int) < s@.len() {
                assert(f.len() == s@.len() - d - 1);
            }
        }
        let mut f3: u64 = 0;
        let mut cnt: usize = 0;
        while cnt < 3 && has_frac && n - d - 1 > cnt
            invariant
                cnt <= 3,
                n == cs@.len(),
                cs@ == s@,
                has_frac == ((d as int) < s@.len()),
                d <= n,
                has_frac ==> f == s@.subrange(d + 1, s@.len() as int) && f.len() == n - d - 1,
                !has_frac ==> f == Seq::<char>::empty(),
                cnt <= f.len(),
                has_frac ==> all_digits(s@, d + 1, n as int),
                f3 as int == digits_val(f, 0, cnt as int),
                (f3 as int) < pow10(cnt as int),
                f3 < 1000,
            decreases 3 - cnt,
        {
            let dv = (cs[d + 1 + cnt] as u32 - 48) as u64;
            proof {
                assert(f[cnt as int] == s@[d + 1 + cnt]);
                assert(is_digit(s@[d + 1 + cnt]));
                assert(pow10(0) == 1);
                assert(pow10(1) == 10);
                assert(pow10(2) == 100);
                assert(pow10(3) == 1000);
            }
            f3 = f3 * 10 + dv;
            cnt = cnt + 1;
        }
        proof {
            assert(pow10(0) == 1);
            assert(pow10(1) == 10);
            assert(pow10(2) == 100);
            assert(pow10(3) == 1000);
            let a = digits_val(f, 0, cnt as int);
            assert(a * pow10(cnt as int - cnt as int) == a * 1);
            assert(a * 1 == a);
        }
        let ghost taken = cnt as int;
        while cnt < 3
            invariant
                cnt <= 3,
                taken <= cnt <= 3,
                taken <= f.len(),
                (f3 as int) < pow10(cnt as int),
                f3 < 1000,
                pow10(0) == 1 && pow10(1) == 10 && pow10(2) == 100 && pow10(3) == 1000,
                f3 as int == digits_val(f, 0, taken) * pow10(cnt - taken),
                taken == if f.len() >= 3 {
                    3int
                } else {
                    f.len() as int
                },
            decreases 3 - cnt,
        {
            proof {
                let a = digits_val(f, 0, taken);
                let p = pow10(cnt - taken);
                assert(pow10(cnt + 1 - taken) == 10 * p);
                assert(a * (10 * p) == (a * p) * 10) by (nonlinear_arith);
            }
            f3 = f3 * 10;
            cnt = cnt + 1;
        }
        proof {
            assert(pow10(0) == 1);
            if f.len() >= 3 {
                let a = digits_val(f, 0, 3);
                assert(a * pow10(3 - taken) == a * 1);
                assert(a * 1 == a);
                assert(f3 as int == frac3(f));
            } else {
                assert(f3 as int == frac3(f));
            }
        }
        Some(ip * 1000 + f3)
    }
}

proof fn lemma_dot_pos(s: Seq<char>, i: int)
    requires
        0 <= i <= s.len(),
    ensures
        i <= dot_pos(s, i) <= s.len(),
    decreases s.len() - i,
{
    if i < s.len() && s[i] != '.' {
        lemma_dot_pos(s, i + 1);
    }
}

/// The event time in milliseconds, from the command's `date` field with the
/// current time as the fallback.
pub fn event_time_ms(date: &Option<String>, now_ms: u64) -> (r: u64)
    requires
        now_ms <= 0x7FFF_FFFF_FFFF_FFFF,
    ensures
        r as int == ts_ms_of(
            match *date {
                Some(d) => Some(d@),
                None => None,
            },
            now_ms as int,
        ),
        r <= 0x7FFF_FFFF_FFFF_FFFF,
{
    match date {
        Some(d) => match parse_date_ms(d.as_str()) {
            Some(m) => m,
            None => now_ms,
        },
        None => now_ms,
    }
}

// ---------------------------------------------------------------------------
// Console events
// ---------------------------------------------------------------------------
/// A CDP RemoteObject describing one console argument.
pub open spec fn remote_object(v: JsonV) -> JsonV {
    match v {
        JsonV::Str(s) => if s == "~~~ null ~~~"@ {
            JsonV::Obj(
                seq![("type"@, JsonV::Str("object"@)), ("subtype"@, JsonV::Str("null"@))],
            )
        } else if s == "~~~ zero ~~~"@ {
            JsonV::Obj(seq![("type"@, JsonV::Str("number"@)), ("value"@, JsonV::Int(0))])
        } else if s == "~~~ undefined ~~~"@ {
            JsonV::Obj(seq![("type"@, JsonV::Str("undefined"@))])
        } else {
            JsonV::Obj(seq![("type"@, JsonV::Str("string"@)), ("value"@, JsonV::Str(s))])
        },
        JsonV::Int(n) => JsonV::Obj(
            seq![("type"@, JsonV::Str("number"@)), ("value"@, JsonV::Int(n))],
        ),
        JsonV::Num(s) => JsonV::Obj(
            seq![("type"@, JsonV::Str("number"@)), ("value"@, JsonV::Num(s))],
        ),
        JsonV::Bool(b) => JsonV::Obj(
            seq![("type"@, JsonV::Str("boolean"@)), ("value"@, JsonV::Bool(b))],
        ),
        JsonV::Null => JsonV::Obj(
            seq![("type"@, JsonV::Str("object"@)), ("subtype"@, JsonV::Str("null"@))],
        ),
        JsonV::Arr(items) => JsonV::Obj(
            seq![
                ("type"@, JsonV::Str("object"@)),
                ("subtype"@, JsonV::Str("array"@)),
                ("description"@, JsonV::Str(("Array("@ + crate::json::dec_nat(items.len())) + ")"@)),
                ("value"@, JsonV::Str(ser(v))),
            ],
        ),
        JsonV::Obj(_) => JsonV::Obj(
            seq![
                ("type"@, JsonV::Str("object"@)),
                ("description"@, JsonV::Str(ser(v))),
                ("value"@, JsonV::Str(ser(v))),
            ],
        ),
    }
}

/// The console arguments: `payload.args`, else `payload.message` (array or
/// string), else `payload.value`, each turned into a RemoteObject.
pub open spec fn console_args(p: JsonV) -> Seq<JsonV> {
    match jget(p, "args"@) {
        Some(JsonV::Arr(items)) => Seq::new(items.len(), |i: int| remote_object(items[i])),
        _ => match jget(p, "message"@) {
            Some(JsonV::Arr(items)) => Seq::new(items.len(), |i: int| remote_object(items[i])),
            Some(JsonV::Str(s)) => seq![
                JsonV::Obj(seq![("type"@, JsonV::Str("string"@)), ("value"@, JsonV::Str(s))]),
            ],
            _ => match jget(p, "value"@) {
                Some(v) => seq![remote_object(v)],
                None => Seq::empty(),
            },
        },
    }
}

/// The `Runtime.consoleAPICalled` envelope.
pub open spec fn console_event(ctype: Seq<char>, args: Seq<JsonV>, ts_ms: int) -> JsonV {
    JsonV::Obj(
        seq![
            ("method"@, JsonV::Str("Runtime.consoleAPICalled"@)),
            (
                "params"@,
                JsonV::Obj(
                    seq![
                        ("type"@, JsonV::Str(ctype)),
                        ("args"@, JsonV::Arr(args)),
                        ("executionContextId"@, JsonV::Int(1)),
                        ("timestamp"@, JsonV::Int(ts_ms)),
                        (
                            "stackTrace"@,
                            JsonV::Obj(seq![("callFrames"@, JsonV::Arr(Seq::empty()))]),
                        ),
                    ],
                ),
            ),
        ],
    )
}

/// What a console command translates to.
pub open spec fn console_out(c: CommandV, ctype: Seq<char>, now_ms: int) -> JsonV {
    console_event(ctype, console_args(c.payload), ts_ms_of(c.date, now_ms))
}

/// The console type named by the `level` field of the payload, with `log`
/// as the default.
pub open spec fn level_type(p: JsonV) -> Seq<char> {
    match jget_str(p, "level"@) {
        Some(l) => if l == "log"@ || l == "debug"@ || l == "info"@ {
            "log"@
        } else if l == "warn"@ {
            "warning"@
        } else if l == "error"@ {
            "error"@
        } else if l == "trace"@ {
            "trace"@
        } else {
            "log"@
        },
        None => "log"@,
    }
}

/// The console type a command maps to, if the command is a console command.
pub open spec fn console_type_of(c: CommandV) -> Option<Seq<char>> {
    let t = c.cmd_type;
    if t == "console.log"@ || t == "console.debug"@ || t == "console.info"@ {
        Some("log"@)
    } else if t == "console.warn"@ {
        Some("warning"@)
    } else if t == "console.error"@ {
        Some("error"@)
    } else if t == "console.trace"@ {
        Some("trace"@)
    } else if t == "console.clear"@ {
        Some("clear"@)
    } else if crate::text::has_prefix(t, "console."@) {
        Some(level_type(c.payload))
    } else if t == "console"@ || t == "log"@ {
        Some(level_type(c.payload))
    } else {
        None
    }
}

fn remote_object_exec(v: &Json) -> (r: Json)
    ensures
        r@ == remote_object(v@),
{
    match v {
        Json::Str(s) => {
            if crate::text::str_eq(s.as_str(), "~~~ null ~~~") {
                let mut b = crate::json::ObjBuilder::new();
                b.field("type", crate::json::jstring("object"));
                b.field("subtype", crate::json::jstring("null"));
                let r = b.build();
                proof {
                    assert(r@->Obj_0 =~= remote_object(v@)->Obj_0);
                }
                r
            } else if crate::text::str_eq(s.as_str(), "~~~ zero ~~~") {
                let mut b = crate::json::ObjBuilder::new();
                b.field("type", crate::json::jstring("number"));
                b.field("value", Json::Int(0));
                let r = b.build();
                proof {
                    assert(r@->Obj_0 =~= remote_object(v@)->Obj_0);
                }
                r
            } else if crate::text::str_eq(s.as_str(), "~~~ undefined ~~~") {
                let mut b = crate::json::ObjBuilder::new();
                b.field("type", crate::json::jstring("undefined"));
                let r = b.build();
                proof {
                    assert(r@->Obj_0 =~= remote_object(v@)->Obj_0);
                }
                r
            } else {
                let mut b = crate::json::ObjBuilder::new();
                b.field("type", crate::json::jstring("string"));
                b.field("value", Json::Str(s.clone()));
                let r = b.build();
                proof {
                    assert(r@->Obj_0 =~= remote_object(v@)->Obj_0);
                }
                r
            }
        },
        Json::Int(n) => {
            let mut b = crate::json::ObjBuilder::new();
            b.field("type", crate::json::jstring("number"));
            b.field("value", Json::Int(*n));
            let r = b.build();
            proof {
                assert(r@->Obj_0 =~= remote_object(v@)->Obj_0);
            }
            r
        },
        Json::Num(s) => {
            let mut b = crate::json::ObjBuilder::new();
            b.field("type", crate::json::jstring("number"));
            b.field("value", Json::Num(s.clone()));
            let r = b.build();
            proof {
                assert(r@->Obj_0 =~= remote_object(v@)->Obj_0);
            }
            r
        },
        Json::Bool(bv) => {
            let mut b = crate::json::ObjBuilder::new();
            b.field("type", crate::json::jstring("boolean"));
            b.field("value", Json::Bool(*bv));
            let r = b.build();
            proof {
                assert(r@->Obj_0 =~= remote_object(v@)->Obj_0);
            }
            r
        },
        Json::Null => {
            let mut b = crate::json::ObjBuilder::new();
            b.field("type", crate::json::jstring("object"));
            b.field("subtype", crate::json::jstring("null"));
            let r = b.build();
            proof {
                assert(r@->Obj_0 =~= remote_object(v@)->Obj_0);
            }
            r
        },
        Json::Arr(items) => {
            let mut desc: Vec<char> = Vec::new();
            crate::json::push_str_chars("Array(", &mut desc);
            crate::json::push_u64_dec(items.len() as u64, &mut desc);
            crate::json::push_str_chars(")", &mut desc);
            proof {
                crate::json::lemma_json_view_seq(items@);
                assert(desc@ == ("Array("@ + crate::json::dec_nat(v@->Arr_0.len())) + ")"@);
            }
            let text = crate::json::to_json_string(v);
            let mut b = crate::json::ObjBuilder::new();
            b.field("type", crate::json::jstring("object"));
            b.field("subtype", crate::json::jstring("array"));
            b.field("description", Json::Str(crate::json::chars_to_string(&desc)));
            b.field("value", Json::Str(text));
            let r = b.build();
            proof {
                assert(r@->Obj_0 =~= remote_object(v@)->Obj_0);
            }
            r
        },
        Json::Obj(_) => {
            let text = crate::json::to_json_string(v);
            let text2 = text.clone();
            let mut b = crate::json::ObjBuilder::new();
            b.field("type", crate::json::jstring("object"));
            b.field("description", Json::Str(text));
            b.field("value", Json::Str(text2));
            let r = b.build();
            proof {
                assert(r@->Obj_0 =~= remote_object(v@)->Obj_0);
            }
            r
        },
    }
}

fn remote_objects_exec(items: &Vec<Json>) -> (r: Vec<Json>)
    ensures
        json_view_seq(r@) == Seq::new(
            json_view_seq(items@).len(),
            |i: int| remote_object(json_view_seq(items@)[i]),
        ),
{
    proof {
        crate::json::lemma_json_view_seq(items@);
    }
    let ghost itemsv = json_view_seq(items@);
    let n = items.len();
    let mut out: Vec<Json> = Vec::new();
    let mut k: usize = 0;
    while k < n
        invariant
            n == items@.len(),
            itemsv == json_view_seq(items@),
            itemsv.len() == n,
            forall|i: int| 0 <= i < n ==> #[trigger] itemsv[i] == crate::json::json_view(items@[i]),
            k <= n,
            out@.len() == k,
            forall|i: int|
                0 <= i < k ==> #[trigger] crate::json::json_view(out@[i]) == remote_object(
                    itemsv[i],
                ),
        decreases n - k,
    {
        let w = remote_object_exec(&items[k]);
        out.push(w);
        k = k + 1;
    }
    proof {
        crate::json::lemma_json_view_seq(out@);
        assert(json_view_seq(out@) =~= Seq::new(itemsv.len(), |i: int| remote_object(itemsv[i])));
    }
    out
}

fn console_args_exec(p: &Json) -> (r: Vec<Json>)
    ensures
        json_view_seq(r@) == console_args(p@),
{
    match p.get("args") {
        Some(f) => match f.as_array() {
            Some(items) => {
                return remote_objects_exec(items);
            },
            None => {},
        },
        None => {},
    }
    match p.get("message") {
        Some(f) => match f {
            Json::Arr(items) => {
                proof {
                    crate::json::lemma_json_view_seq(items@);
                }
                return remote_objects_exec(items);
            },
            Json::Str(s) => {
                let mut b = crate::json::ObjBuilder::new();
                b.field("type", crate::json::jstring("string"));
                b.field("value", Json::Str(s.clone()));
                let one = b.build();
                let mut out: Vec<Json> = Vec::new();
                out.push(one);
                proof {
                    crate::json::lemma_json_view_seq(out@);
                    assert(one@->Obj_0 =~= seq![
                        ("type"@, JsonV::Str("string"@)),
                        ("value"@, JsonV::Str(s@)),
                    ]);
                    assert(json_view_seq(out@) =~= console_args(p@));
                }
                return out;
            },
            _ => {},
        },
        None => {},
    }
    match p.get("value") {
        Some(f) => {
            let one = remote_object_exec(f);
            let mut out: Vec<Json> = Vec::new();
            out.push(one);
            proof {
                crate::json::lemma_json_view_seq(out@);
                assert(json_view_seq(out@) =~= console_args(p@));
            }
            out
        },
        None => {
            let out: Vec<Json> = Vec::new();
            proof {
                crate::json::lemma_json_view_seq(out@);
                assert(json_view_seq(out@) =~= console_args(p@));
            }
            out
        },
    }
}

/// Translate a console command into its `Runtime.consoleAPICalled` event.
pub fn convert_console_to_cdp(cmd: &Command, console_type: &str, now_ms: u64) -> (r: Option<Json>)
    requires
        now_ms <= 0x7FFF_FFFF_FFFF_FFFF,
    ensures
        r matches Some(v) && v@ == console_out(cmd@, console_type@, now_ms as int),
{
    let args = console_args_exec(&cmd.payload);
    let ts = event_time_ms(&cmd.date, now_ms);
    let frames: Vec<Json> = Vec::new();
    proof {
        crate::json::lemma_json_view_seq(frames@);
        assert(json_view_seq(frames@) =~= Seq::<JsonV>::empty());
    }
    let mut stack = crate::json::ObjBuilder::new();
    stack.field("callFrames", Json::Arr(frames));
    let stack_obj = stack.build();
    let mut params = crate::json::ObjBuilder::new();
    params.field("type", crate::json::jstring(console_type));
    params.field("args", Json::Arr(args));
    params.field("executionContextId", Json::Int(1));
    params.field("timestamp", Json::Int(ts as i64));
    params.field("stackTrace", stack_obj);
    let params_obj = params.build();
    let mut env = crate::json::ObjBuilder::new();
    env.field("method", crate::json::jstring("Runtime.consoleAPICalled"));
    env.field("params", params_obj);
    let r = env.build();
    proof {
        let spec = console_out(cmd@, console_type@, now_ms as int);
        assert(stack_obj@->Obj_0 =~= seq![("callFrames"@, JsonV::Arr(Seq::<JsonV>::empty()))]);
        assert(params_obj@->Obj_0 =~= spec->Obj_0[1].1->Obj_0);
        assert(r@->Obj_0 =~= spec->Obj_0);
    }
    Some(r)
}

// ---------------------------------------------------------------------------
// Network events
// ---------------------------------------------------------------------------
/// The value two keys deep, when the outer value is an object holding an
/// object.
pub open spec fn jget2(v: JsonV, k1: Seq<char>, k2: Seq<char>) -> Option<JsonV> {
    match jget(v, k1) {
        Some(r) => jget(r, k2),
        None => None,
    }
}

/// The string two keys deep.
pub open spec fn jget_str2(v: JsonV, k1: Seq<char>, k2: Seq<char>) -> Option<Seq<char>> {
    match jget(v, k1) {
        Some(r) => jget_str(r, k2),
        None => None,
    }
}

pub open spec fn str_or(o: Option<Seq<char>>, d: Seq<char>) -> Seq<char> {
    match o {
        Some(s) => s,
        None => d,
    }
}

/// A CDP timestamp: seconds with up to three fractional digits, written the
/// way the usual shortest float rendering writes them.
pub open spec fn sec_literal(ms: int) -> Seq<char> {
    let s = crate::json::dec_nat((ms / 1000) as nat);
    let f = ms % 1000;
    if f == 0 {
        s + seq!['.', '0']
    } else if f % 100 == 0 {
        s + seq!['.', crate::json::digit_char(f / 100)]
    } else if f % 10 == 0 {
        s + seq!['.', crate::json::digit_char(f / 100), crate::json::digit_char((f / 10) % 10)]
    } else {
        s + seq![
            '.',
            crate::json::digit_char(f / 100),
            crate::json::digit_char((f / 10) % 10),
            crate::json::digit_char(f % 10),
        ]
    }
}

/// The request id minted for an event that names none: the current time in
/// nanoseconds under a fixed prefix.
pub open spec fn synth_request_id(now_nanos: int) -> Seq<char> {
    "reactotron-"@ + crate::json::dec_nat(now_nanos as nat)
}

/// The request id: the payload's own, or a minted one.
pub open spec fn request_id_of(p: JsonV, now_nanos: int) -> Seq<char> {
    match jget_str(p, "requestId"@) {
        Some(r) => r,
        None => synth_request_id(now_nanos),
    }
}

/// The byte length of a string, pinned at the largest integer the value
/// model carries.
pub open spec fn byte_len_of(s: Seq<char>) -> int {
    let l = (vstd::utf8::encode_utf8(s).len() as usize) as int;
    if l > 0x7FFF_FFFF_FFFF_FFFF {
        0x7FFF_FFFF_FFFF_FFFF
    } else {
        l
    }
}

/// The `request` object inside `Network.requestWillBeSent`.
pub open spec fn request_obj(
    url: Seq<char>,
    method: Seq<char>,
    headers: JsonV,
    post: Option<JsonV>,
) -> JsonV {
    let base = seq![
        ("url"@, JsonV::Str(url)),
        ("method"@, JsonV::Str(method)),
        ("headers"@, headers),
        ("mixedContentType"@, JsonV::Str("none"@)),
        ("initialPriority"@, JsonV::Str("Medium"@)),
        ("referrerPolicy"@, JsonV::Str("strict-origin-when-cross-origin"@)),
    ];
    match post {
        Some(p) => JsonV::Obj(base.push(("postData"@, p))),
        None => JsonV::Obj(base),
    }
}

/// The parameters of `Network.requestWillBeSent`.
pub open spec fn net_request_params(
    url: Seq<char>,
    method: Seq<char>,
    headers: JsonV,
    post: Option<JsonV>,
    rid: Seq<char>,
    sec: Seq<char>,
) -> JsonV {
    JsonV::Obj(
        seq![
            ("requestId"@, JsonV::Str(rid)),
            ("loaderId"@, JsonV::Str(rid)),
            ("documentURL"@, JsonV::Str(url)),
            ("request"@, request_obj(url, method, headers, post)),
            ("timestamp"@, JsonV::Num(sec)),
            ("wallTime"@, JsonV::Num(sec)),
            ("initiator"@, JsonV::Obj(seq![("type"@, JsonV::Str("other"@))])),
            ("type"@, JsonV::Str("Other"@)),
        ],
    )
}

pub open spec fn envelope(method: Seq<char>, params: JsonV) -> JsonV {
    JsonV::Obj(seq![("method"@, JsonV::Str(method)), ("params"@, params)])
}

/// What a `network.request` or `api.request` command translates to.
pub open spec fn network_request_out(c: CommandV, now_nanos: int) -> JsonV {
    let p = c.payload;
    let url = str_or(jget_str2(p, "request"@, "url"@), str_or(jget_str(p, "url"@), Seq::empty()));
    let method = str_or(
        jget_str2(p, "request"@, "method"@),
        str_or(jget_str(p, "method"@), "GET"@),
    );
    let headers = match jget2(p, "request"@, "headers"@) {
        Some(h) => h,
        None => match jget(p, "headers"@) {
            Some(h) => h,
            None => JsonV::Obj(Seq::empty()),
        },
    };
    let post = match jget2(p, "request"@, "data"@) {
        Some(d) => Some(d),
        None => match jget(p, "data"@) {
            Some(d) => Some(d),
            None => jget(p, "body"@),
        },
    };
    let post_data = match post {
        None => None,
        Some(JsonV::Str(s)) => Some(JsonV::Str(s)),
        Some(other) => Some(JsonV::Str(ser(other))),
    };
    let rid = request_id_of(p, now_nanos);
    let sec = sec_literal(ts_ms_of(c.date, now_nanos / 1000000));
    envelope(
        "Network.requestWillBeSent"@,
        net_request_params(url, method, headers, post_data, rid, sec),
    )
}

/// The constant timing object CDP wants on a response.
pub open spec fn timing_obj(sec: Seq<char>) -> JsonV {
    JsonV::Obj(
        seq![
            ("requestTime"@, JsonV::Num(sec)),
            ("proxyStart"@, JsonV::Num("-1.0"@)),
            ("proxyEnd"@, JsonV::Num("-1.0"@)),
            ("dnsStart"@, JsonV::Num("-1.0"@)),
            ("dnsEnd"@, JsonV::Num("-1.0"@)),
            ("connectStart"@, JsonV::Num("-1.0"@)),
            ("connectEnd"@, JsonV::Num("-1.0"@)),
            ("sslStart"@, JsonV::Num("-1.0"@)),
            ("sslEnd"@, JsonV::Num("-1.0"@)),
            ("workerStart"@, JsonV::Num("-1.0"@)),
            ("workerReady"@, JsonV::Num("-1.0"@)),
            ("sendStart"@, JsonV::Num("0.0"@)),
            ("sendEnd"@, JsonV::Num("0.0"@)),
            ("pushStart"@, JsonV::Num("-1.0"@)),
            ("pushEnd"@, JsonV::Num("-1.0"@)),
            ("receiveHeadersEnd"@, JsonV::Num("0.0"@)),
        ],
    )
}

/// The `response` object of `Network.responseReceived`.
pub open spec fn response_obj(
    url: Seq<char>,
    status: int,
    status_text: Seq<char>,
    headers: JsonV,
    mime: Seq<char>,
    edl: int,
    sec: Seq<char>,
    body: Option<JsonV>,
) -> JsonV {
    let base = seq![
        ("url"@, JsonV::Str(url)),
        ("status"@, JsonV::Int(status)),
        ("statusText"@, JsonV::Str(status_text)),
        ("headers"@, headers),
        ("mimeType"@, JsonV::Str(mime)),
        ("connectionReused"@, JsonV::Bool(false)),
        ("connectionId"@, JsonV::Int(0)),
        ("fromDiskCache"@, JsonV::Bool(false)),
        ("fromServiceWorker"@, JsonV::Bool(false)),
        ("fromPrefetchCache"@, JsonV::Bool(false)),
        ("encodedDataLength"@, JsonV::Int(edl)),
        ("timing"@, timing_obj(sec)),
        ("protocol"@, JsonV::Str("http/1.1"@)),
        ("securityState"@, JsonV::Str("unknown"@)),
    ];
    match body {
        Some(b) => JsonV::Obj(base.push(("body"@, b))),
        None => JsonV::Obj(base),
    }
}

/// The parameters of `Network.responseReceived`.
pub open spec fn response_received_params(rid: Seq<char>, sec: Seq<char>, ro: JsonV) -> JsonV {
    JsonV::Obj(
        seq![
            ("requestId"@, JsonV::Str(rid)),
            ("loaderId"@, JsonV::Str(rid)),
            ("timestamp"@, JsonV::Num(sec)),
            ("type"@, JsonV::Str("Other"@)),
            ("response"@, ro),
        ],
    )
}

/// The parameters of `Network.loadingFinished`.
pub open spec fn loading_finished_params(rid: Seq<char>, sec: Seq<char>, edl: int) -> JsonV {
    JsonV::Obj(
        seq![
            ("requestId"@, JsonV::Str(rid)),
            ("timestamp"@, JsonV::Num(sec)),
            ("encodedDataLength"@, JsonV::Int(edl)),
        ],
    )
}

/// What an `api.response` or `network.response` command translates to: the
/// triple `requestWillBeSent`, `responseReceived`, `loadingFinished`, or
/// nothing when the payload lacks its `request` or `response` part.
pub open spec fn network_response_out(c: CommandV, now_nanos: int) -> Option<Seq<JsonV>> {
    let p = c.payload;
    match (jget(p, "request"@), jget(p, "response"@)) {
        (Some(req), Some(resp)) => {
            let url = str_or(jget_str(req, "url"@), Seq::empty());
            let method = str_or(jget_str(req, "method"@), "GET"@);
            let req_headers = match jget(req, "headers"@) {
                Some(h) => h,
                None => JsonV::Obj(Seq::empty()),
            };
            let post_data = match jget(req, "data"@) {
                None => None,
                Some(JsonV::Str(s)) => Some(JsonV::Str(norm_text(s))),
                Some(other) => Some(JsonV::Str(ser(norm_value(other, norm_depth())))),
            };
            let rid = synth_request_id(now_nanos);
            let ms = ts_ms_of(c.date, now_nanos / 1000000);
            let sec = sec_literal(ms);
            let status = match jget(resp, "status"@) {
                Some(JsonV::Int(n)) => if n >= 0 {
                    n
                } else {
                    200
                },
                _ => 200,
            };
            let status_text = str_or(jget_str(resp, "statusText"@), "OK"@);
            let resp_headers = match jget(resp, "headers"@) {
                Some(h) => h,
                None => JsonV::Obj(Seq::empty()),
            };
            let edl = match jget(resp, "body"@) {
                Some(JsonV::Str(s)) => byte_len_of(s),
                Some(other) => byte_len_of(ser(other)),
                None => 0,
            };
            let mime = str_or(
                jget_str(resp_headers, "Content-Type"@),
                str_or(jget_str(resp_headers, "content-type"@), "application/json"@),
            );
            let body = match jget(resp, "body"@) {
                None => None,
                Some(JsonV::Str(s)) => Some(JsonV::Str(norm_text(s))),
                Some(other) => Some(JsonV::Str(ser(norm_value(other, norm_depth())))),
            };
            let has_body = jget(resp, "body"@) is Some;
            let final_edl = if edl > 0 {
                edl
            } else if has_body {
                1int
            } else {
                0int
            };
            let e1 = envelope(
                "Network.requestWillBeSent"@,
                net_request_params(url, method, req_headers, post_data, rid, sec),
            );
            let e2 = envelope(
                "Network.responseReceived"@,
                response_received_params(
                    rid,
                    sec,
                    response_obj(url, status, status_text, resp_headers, mime, edl, sec, body),
                ),
            );
            let e3 = envelope(
                "Network.loadingFinished"@,
                loading_finished_params(rid, sec_literal(ms + 1), final_edl),
            );
            Some(seq![e1, e2, e3])
        },
        _ => None,
    }
}

/// What a `network.error` or `api.error` command translates to.
pub open spec fn network_error_out(c: CommandV, now_nanos: int) -> JsonV {
    let p = c.payload;
    let error_text = str_or(
        jget_str(p, "error"@),
        str_or(jget_str(p, "message"@), "Network error"@),
    );
    let rid = request_id_of(p, now_nanos);
    let sec = sec_literal(ts_ms_of(c.date, now_nanos / 1000000));
    envelope(
        "Network.loadingFailed"@,
        JsonV::Obj(
            seq![
                ("requestId"@, JsonV::Str(rid)),
                ("timestamp"@, JsonV::Num(sec)),
                ("type"@, JsonV::Str("Other"@)),
                ("errorText"@, JsonV::Str(error_text)),
                ("canceled"@, JsonV::Bool(false)),
                ("blockedReason"@, JsonV::Str("other"@)),
            ],
        ),
    )
}

/// The view of an optional JSON value.
pub open spec fn opt_json_view(o: Option<Json>) -> Option<JsonV> {
    match o {
        Some(v) => Some(crate::json::json_view(v)),
        None => None,
    }
}

pub fn get2<'a>(p: &'a Json, k1: &str, k2: &str) -> (r: Option<&'a Json>)
    ensures
        match r {
            Some(f) => jget2(p@, k1@, k2@) == Some(f@),
            None => jget2(p@, k1@, k2@) is None,
        },
{
    match p.get(k1) {
        Some(r1) => r1.get(k2),
        None => None,
    }
}

/// A CDP timestamp literal for a time in milliseconds.
fn sec_string(ms: u64) -> (r: String)
    ensures
        r@ == sec_literal(ms as int),
{
    let mut out: Vec<char> = Vec::new();
    crate::json::push_u64_dec(ms / 1000, &mut out);
    out.push('.');
    let f = ms % 1000;
    if f == 0 {
        out.push('0');
    } else if f % 100 == 0 {
        out.push(crate::json::digit_to_char(f / 100));
    } else if f % 10 == 0 {
        out.push(crate::json::digit_to_char(f / 100));
        out.push(crate::json::digit_to_char((f / 10) % 10));
    } else {
        out.push(crate::json::digit_to_char(f / 100));
        out.push(crate::json::digit_to_char((f / 10) % 10));
        out.push(crate::json::digit_to_char(f % 10));
    }
    proof {
        assert(out@ =~= sec_literal(ms as int));
    }
    crate::json::chars_to_string(&out)
}

fn synth_request_id_exec(now_nanos: u64) -> (r: String)
    ensures
        r@ == synth_request_id(now_nanos as int),
{
    let mut out = crate::json::str_to_chars("reactotron-");
    crate::json::push_u64_dec(now_nanos, &mut out);
    crate::json::chars_to_string(&out)
}

fn request_id_exec(p: &Json, now_nanos: u64) -> (r: String)
    ensures
        r@ == request_id_of(p@, now_nanos as int),
{
    match p.get_str("requestId") {
        Some(s) => s.clone(),
        None => synth_request_id_exec(now_nanos),
    }
}

fn str_byte_len(s: &str) -> (r: i64)
    ensures
        r as int == byte_len_of(s@),
{
    let l64 = s.len() as u64;
    if l64 > 0x7FFF_FFFF_FFFF_FFFFu64 {
        0x7FFF_FFFF_FFFF_FFFFi64
    } else {
        l64 as i64
    }
}

fn empty_obj() -> (r: Json)
    ensures
        r@ == JsonV::Obj(Seq::<(Seq<char>, JsonV)>::empty()),
{
    let b = crate::json::ObjBuilder::new();
    b.build()
}

fn build_envelope(method: &str, params: Json) -> (r: Json)
    ensures
        r@ == envelope(method@, params@),
{
    let mut b = crate::json::ObjBuilder::new();
    b.field("method", crate::json::jstring(method));
    b.field("params", params);
    let r = b.build();
    proof {
        assert(r@->Obj_0 =~= envelope(method@, params@)->Obj_0);
    }
    r
}

fn build_request_obj(url: &str, method: &str, headers: Json, post: Option<Json>) -> (r: Json)
    ensures
        r@ == request_obj(url@, method@, headers@, opt_json_view(post)),
{
    let ghost headersv = headers@;
    let mut b = crate::json::ObjBuilder::new();
    b.field("url", crate::json::jstring(url));
    b.field("method", crate::json::jstring(method));
    b.field("headers", headers);
    b.field("mixedContentType", crate::json::jstring("none"));
    b.field("initialPriority", crate::json::jstring("Medium"));
    b.field("referrerPolicy", crate::json::jstring("strict-origin-when-cross-origin"));
    match post {
        Some(p) => {
            let ghost pv = p@;
            b.field("postData", p);
            let r = b.build();
            proof {
                assert(r@->Obj_0 =~= request_obj(url@, method@, headersv, Some(pv))->Obj_0);
            }
            r
        },
        None => {
            let r = b.build();
            proof {
                assert(r@->Obj_0 =~= request_obj(url@, method@, headersv, None::<JsonV>)->Obj_0);
            }
            r
        },
    }
}

fn build_net_request_params(
    url: &str,
    method: &str,
    headers: Json,
    post: Option<Json>,
    rid: &str,
    sec: &str,
) -> (r: Json)
    ensures
        r@ == net_request_params(url@, method@, headers@, opt_json_view(post), rid@, sec@),
{
    let ghost headersv = headers@;
    let ghost postv = opt_json_view(post);
    let req = build_request_obj(url, method, headers, post);
    let mut initiator = crate::json::ObjBuilder::new();
    initiator.field("type", crate::json::jstring("other"));
    let initiator_obj = initiator.build();
    let mut b = crate::json::ObjBuilder::new();
    b.field("requestId", crate::json::jstring(rid));
    b.field("loaderId", crate::json::jstring(rid));
    b.field("documentURL", crate::json::jstring(url));
    b.field("request", req);
    b.field("timestamp", Json::Num(sec.to_owned()));
    b.field("wallTime", Json::Num(sec.to_owned()));
    b.field("initiator", initiator_obj);
    b.field("type", crate::json::jstring("Other"));
    let r = b.build();
    proof {
        let spec = net_request_params(url@, method@, headersv, postv, rid@, sec@);
        assert(initiator_obj@->Obj_0 =~= seq![("type"@, JsonV::Str("other"@))]);
        assert(r@->Obj_0 =~= spec->Obj_0);
    }
    r
}

/// The url, method, headers and body source of a request payload, looked up
/// under `request` first and at the top level second.
fn url_of(p: &Json) -> (r: String)
    ensures
        r@ == str_or(jget_str2(p@, "request"@, "url"@), str_or(jget_str(p@, "url"@), Seq::empty())),
{
    match get2(p, "request", "url") {
        Some(f) => match f.as_str() {
            Some(s) => {
                return s.clone();
            },
            None => {},
        },
        None => {},
    }
    match p.get_str("url") {
        Some(s) => s.clone(),
        None => String::new(),
    }
}

fn method_of(p: &Json) -> (r: String)
    ensures
        r@ == str_or(jget_str2(p@, "request"@, "method"@), str_or(jget_str(p@, "method"@), "GET"@)),
{
    match get2(p, "request", "method") {
        Some(f) => match f.as_str() {
            Some(s) => {
                return s.clone();
            },
            None => {},
        },
        None => {},
    }
    match p.get_str("method") {
        Some(s) => s.clone(),
        None => "GET".to_owned(),
    }
}

fn headers_of(p: &Json) -> (r: Json)
    ensures
        r@ == match jget2(p@, "request"@, "headers"@) {
            Some(h) => h,
            None => match jget(p@, "headers"@) {
                Some(h) => h,
                None => JsonV::Obj(Seq::<(Seq<char>, JsonV)>::empty()),
            },
        },
{
    match get2(p, "request", "headers") {
        Some(f) => {
            return f.clone_value();
        },
        None => {},
    }
    match p.get("headers") {
        Some(f) => f.clone_value(),
        None => empty_obj(),
    }
}

fn post_source_of(p: &Json) -> (r: Option<Json>)
    ensures
        opt_json_view(r) == match jget2(p@, "request"@, "data"@) {
            Some(d) => Some(d),
            None => match jget(p@, "data"@) {
                Some(d) => Some(d),
                None => jget(p@, "body"@),
            },
        },
{
    match get2(p, "request", "data") {
        Some(f) => {
            return Some(f.clone_value());
        },
        None => {},
    }
    match p.get("data") {
        Some(f) => {
            return Some(f.clone_value());
        },
        None => {},
    }
    match p.get("body") {
        Some(f) => Some(f.clone_value()),
        None => None,
    }
}

/// Translate a `network.request` or `api.request` command into its
/// `Network.requestWillBeSent` event.
pub fn convert_network_request_to_cdp(cmd: &Command, now_nanos: u64) -> (r: Option<Json>)
    ensures
        r matches Some(v) && v@ == network_request_out(cmd@, now_nanos as int),
{
    let p = &cmd.payload;
    let url = url_of(p);
    let method = method_of(p);
    let headers = headers_of(p);
    let post = post_source_of(p);
    let post_data: Option<Json> = match post {
        None => None,
        Some(j) => match j {
            Json::Str(s) => Some(Json::Str(s)),
            other => Some(Json::Str(crate::json::to_json_string(&other))),
        },
    };
    let rid = request_id_exec(p, now_nanos);
    let ms = event_time_ms(&cmd.date, now_nanos / 1_000_000);
    let sec = sec_string(ms);
    let params = build_net_request_params(
        url.as_str(),
        method.as_str(),
        headers,
        post_data,
        rid.as_str(),
        sec.as_str(),
    );
    Some(build_envelope("Network.requestWillBeSent", params))
}

fn build_timing_obj(sec: &str) -> (r: Json)
    ensures
        r@ == timing_obj(sec@),
{
    let mut b = crate::json::ObjBuilder::new();
    b.field("requestTime", Json::Num(sec.to_owned()));
    b.field("proxyStart", Json::Num("-1.0".to_owned()));
    b.field("proxyEnd", Json::Num("-1.0".to_owned()));
    b.field("dnsStart", Json::Num("-1.0".to_owned()));
    b.field("dnsEnd", Json::Num("-1.0".to_owned()));
    b.field("connectStart", Json::Num("-1.0".to_owned()));
    b.field("connectEnd", Json::Num("-1.0".to_owned()));
    b.field("sslStart", Json::Num("-1.0".to_owned()));
    b.field("sslEnd", Json::Num("-1.0".to_owned()));
    b.field("workerStart", Json::Num("-1.0".to_owned()));
    b.field("workerReady", Json::Num("-1.0".to_owned()));
    b.field("sendStart", Json::Num("0.0".to_owned()));
    b.field("sendEnd", Json::Num("0.0".to_owned()));
    b.field("pushStart", Json::Num("-1.0".to_owned()));
    b.field("pushEnd", Json::Num("-1.0".to_owned()));
    b.field("receiveHeadersEnd", Json::Num("0.0".to_owned()));
    let r = b.build();
    proof {
        assert(r@->Obj_0 =~= timing_obj(sec@)->Obj_0);
    }
    r
}

/// Translate an `api.response` or `network.response` command into the
/// `requestWillBeSent`, `responseReceived`, `loadingFinished` triple.
#[verifier::rlimit(100)]
#[verifier::spinoff_prover]
pub fn convert_network_response_to_cdp(cmd: &Command, now_nanos: u64) -> (r: Option<Vec<Json>>)
    ensures
        match r {
            Some(events) => network_response_out(cmd@, now_nanos as int) == Some(
                json_view_seq(events@),
            ),
            None => network_response_out(cmd@, now_nanos as int) is None,
        },
{
    let p = &cmd.payload;
    let req = match p.get("request") {
        Some(r1) => r1,
        None => {
            return None;
        },
    };
    let resp = match p.get("response") {
        Some(r2) => r2,
        None => {
            return None;
        },
    };
    let url = match req.get_str("url") {
        Some(s) => s.clone(),
        None => String::new(),
    };
    let method = match req.get_str("method") {
        Some(s) => s.clone(),
        None => "GET".to_owned(),
    };
    let req_headers = match req.get("headers") {
        Some(f) => f.clone_value(),
        None => empty_obj(),
    };
    let post_data: Option<Json> = match req.get("data") {
        None => None,
        Some(f) => match f {
            Json::Str(s) => Some(
                Json::Str(crate::normalize::normalize_reactotron_string(s.as_str())),
            ),
            other => {
                let normalized = crate::normalize::normalize_reactotron_json_value(
                    other.clone_value(),
                );
                Some(Json::Str(crate::json::to_json_string(&normalized)))
            },
        },
    };
    let rid = synth_request_id_exec(now_nanos);
    let ms = event_time_ms(&cmd.date, now_nanos / 1_000_000);
    let sec = sec_string(ms);
    let status: i64 = match resp.get("status") {
        Some(f) => match f.as_i64() {
            Some(n) => if n >= 0 {
                n
            } else {
                200
            },
            None => 200,
        },
        None => 200,
    };
    let status_text = match resp.get_str("statusText") {
        Some(s) => s.clone(),
        None => "OK".to_owned(),
    };
    let resp_headers = match resp.get("headers") {
        Some(f) => f.clone_value(),
        None => empty_obj(),
    };
    let edl: i64 = match resp.get("body") {
        Some(f) => match f {
            Json::Str(s) => str_byte_len(s.as_str()),
            other => {
                let text = crate::json::to_json_string(other);
                str_byte_len(text.as_str())
            },
        },
        None => 0,
    };
    let mime: String = match resp_headers.get_str("Content-Type") {
        Some(s) => s.clone(),
        None => match resp_headers.get_str("content-type") {
            Some(s) => s.clone(),
            None => "application/json".to_owned(),
        },
    };
    let has_body = match resp.get("body") {
        Some(_) => true,
        None => false,
    };
    let body: Option<Json> = match resp.get("body") {
        None => None,
        Some(f) => match f {
            Json::Str(s) => Some(
                Json::Str(crate::normalize::normalize_reactotron_string(s.as_str())),
            ),
            other => {
                let normalized = crate::normalize::normalize_reactotron_json_value(
                    other.clone_value(),
                );
                Some(Json::Str(crate::json::to_json_string(&normalized)))
            },
        },
    };
    let final_edl: i64 = if edl > 0 {
        edl
    } else if has_body {
        1
    } else {
        0
    };
    let e1 = build_envelope(
        "Network.requestWillBeSent",
        build_net_request_params(
            url.as_str(),
            method.as_str(),
            req_headers,
            post_data,
            rid.as_str(),
            sec.as_str(),
        ),
    );
    let resp_obj = build_response_obj(
        url.as_str(),
        status,
        status_text,
        resp_headers,
        mime,
        edl,
        sec.as_str(),
        body,
    );
    let mut p2 = crate::json::ObjBuilder::new();
    p2.field("requestId", crate::json::jstring(rid.as_str()));
    p2.field("loaderId", crate::json::jstring(rid.as_str()));
    p2.field("timestamp", Json::Num(sec.clone()));
    p2.field("type", crate::json::jstring("Other"));
    let ghost resp_objv = resp_obj@;
    p2.field("response", resp_obj);
    let p2_obj = p2.build();
    proof {
        assert(p2_obj@->Obj_0 =~= response_received_params(rid@, sec@, resp_objv)->Obj_0);
    }
    let e2 = build_envelope("Network.responseReceived", p2_obj);
    let sec1 = sec_string(ms + 1);
    let ghost sec1v = sec1@;
    let mut p3 = crate::json::ObjBuilder::new();
    p3.field("requestId", crate::json::jstring(rid.as_str()));
    p3.field("timestamp", Json::Num(sec1));
    p3.field("encodedDataLength", Json::Int(final_edl));
    let p3_obj = p3.build();
    proof {
        assert(p3_obj@->Obj_0 =~= loading_finished_params(rid@, sec1v, final_edl as int)->Obj_0);
    }
    let e3 = build_envelope("Network.loadingFinished", p3_obj);
    let ghost e1v = e1@;
    let ghost e2v = e2@;
    let ghost e3v = e3@;
    let mut events: Vec<Json> = Vec::new();
    events.push(e1);
    events.push(e2);
    events.push(e3);
    proof {
        crate::json::lemma_json_view_seq(events@);
        assert(json_view_seq(events@) =~= seq![e1v, e2v, e3v]);
        assert(json_view_seq(events@) =~= network_response_out(cmd@, now_nanos as int)->Some_0);
    }
    Some(events)
}

fn build_response_obj(
    url: &str,
    status: i64,
    status_text: String,
    headers: Json,
    mime: String,
    edl: i64,
    sec: &str,
    body: Option<Json>,
) -> (r: Json)
    ensures
        r@ == response_obj(
            url@,
            status as int,
            status_text@,
            headers@,
            mime@,
            edl as int,
            sec@,
            opt_json_view(body),
        ),
{
    let ghost headersv = headers@;
    let ghost bodyv = opt_json_view(body);
    let timing = build_timing_obj(sec);
    let mut ro = crate::json::ObjBuilder::new();
    ro.field("url", crate::json::jstring(url));
    ro.field("status", Json::Int(status));
    ro.field("statusText", Json::Str(status_text));
    ro.field("headers", headers);
    ro.field("mimeType", Json::Str(mime));
    ro.field("connectionReused", Json::Bool(false));
    ro.field("connectionId", Json::Int(0));
    ro.field("fromDiskCache", Json::Bool(false));
    ro.field("fromServiceWorker", Json::Bool(false));
    ro.field("fromPrefetchCache", Json::Bool(false));
    ro.field("encodedDataLength", Json::Int(edl));
    ro.field("timing", timing);
    ro.field("protocol", crate::json::jstring("http/1.1"));
    ro.field("securityState", crate::json::jstring("unknown"));
    let resp_obj: Json;
    match body {
        Some(bv) => {
            ro.field("body", bv);
            resp_obj = ro.build();
        },
        None => {
            resp_obj = ro.build();
        },
    }
    proof {
        let spec_ro = response_obj(
            url@,
            status as int,
            status_text@,
            headersv,
            mime@,
            edl as int,
            sec@,
            bodyv,
        );
        assert(resp_obj@->Obj_0 =~= spec_ro->Obj_0);
    }
    resp_obj
}

/// Translate a `network.error` or `api.error` command into its
/// `Network.loadingFailed` event.
pub fn convert_network_error_to_cdp(cmd: &Command, now_nanos: u64) -> (r: Option<Json>)
    ensures
        r matches Some(v) && v@ == network_error_out(cmd@, now_nanos as int),
{
    let p = &cmd.payload;
    let error_text = match p.get_str("error") {
        Some(s) => s.clone(),
        None => match p.get_str("message") {
            Some(s) => s.clone(),
            None => "Network error".to_owned(),
        },
    };
    let rid = request_id_exec(p, now_nanos);
    let ms = event_time_ms(&cmd.date, now_nanos / 1_000_000);
    let sec = sec_string(ms);
    let mut b = crate::json::ObjBuilder::new();
    b.field("requestId", crate::json::jstring(rid.as_str()));
    b.field("timestamp", Json::Num(sec));
    b.field("type", crate::json::jstring("Other"));
    b.field("errorText", Json::Str(error_text));
    b.field("canceled", Json::Bool(false));
    b.field("blockedReason", crate::json::jstring("other"));
    let params = b.build();
    let r = build_envelope("Network.loadingFailed", params);
    proof {
        let spec = network_error_out(cmd@, now_nanos as int);
        assert(params@->Obj_0 =~= spec->Obj_0[1].1->Obj_0);
    }
    Some(r)
}

// ---------------------------------------------------------------------------
// Dispatch
// ---------------------------------------------------------------------------
/// What a command translates to when it stands for a single event:
/// a console event, a `requestWillBeSent`, or a `loadingFailed`.
pub open spec fn reactotron_to_cdp(c: CommandV, now_nanos: int) -> Option<JsonV> {
    match console_type_of(c) {
        Some(ct) => Some(console_out(c, ct, now_nanos / 1000000)),
        None => {
            let t = c.cmd_type;
            if t == "network.request"@ || t == "api.request"@ {
                Some(network_request_out(c, now_nanos))
            } else if t == "network.error"@ || t == "api.error"@ {
                Some(network_error_out(c, now_nanos))
            } else if t == "network"@ || t == "api"@ {
                match jget_str(c.payload, "kind"@) {
                    Some(k) => if k == "request"@ {
                        Some(network_request_out(c, now_nanos))
                    } else if k == "error"@ {
                        Some(network_error_out(c, now_nanos))
                    } else {
                        None
                    },
                    None => None,
                }
            } else {
                None
            }
        },
    }
}

/// Whether a command asks for the response triple.
pub open spec fn is_response_command(c: CommandV) -> bool {
    c.cmd_type == "network.response"@ || c.cmd_type == "api.response"@ || ((c.cmd_type
        == "network"@ || c.cmd_type == "api"@) && jget_str(c.payload, "kind"@) == Some(
        "response"@,
    ))
}

/// Everything a command translates to: zero or more CDP event envelopes.
pub open spec fn translate_spec(c: CommandV, now_nanos: int) -> Seq<JsonV> {
    if is_response_command(c) {
        match network_response_out(c, now_nanos) {
            Some(events) => events,
            None => Seq::empty(),
        }
    } else {
        match reactotron_to_cdp(c, now_nanos) {
            Some(e) => seq![e],
            None => Seq::empty(),
        }
    }
}

/// The command types the translator recognizes.
pub open spec fn recognized_type(c: CommandV) -> bool {
    console_type_of(c) is Some || c.cmd_type == "network.request"@ || c.cmd_type == "api.request"@
        || c.cmd_type == "network.error"@ || c.cmd_type == "api.error"@ || is_response_command(c)
        || ((c.cmd_type == "network"@ || c.cmd_type == "api"@) && (jget_str(c.payload, "kind"@)
        == Some("request"@) || jget_str(c.payload, "kind"@) == Some("error"@)))
}

fn level_type_exec(p: &Json) -> (r: &'static str)
    ensures
        r@ == level_type(p@),
{
    match p.get_str("level") {
        Some(l) => {
            if crate::text::str_eq(l.as_str(), "log") || crate::text::str_eq(l.as_str(), "debug")
                || crate::text::str_eq(l.as_str(), "info") {
                "log"
            } else if crate::text::str_eq(l.as_str(), "warn") {
                "warning"
            } else if crate::text::str_eq(l.as_str(), "error") {
                "error"
            } else if crate::text::str_eq(l.as_str(), "trace") {
                "trace"
            } else {
                "log"
            }
        },
        None => "log",
    }
}

/// Translate a command into a single CDP event, for the command types that
/// yield one; the response triple is `convert_network_response_to_cdp`'s.
pub fn convert_reactotron_to_cdp(cmd: &Command, now_nanos: u64) -> (r: Option<Json>)
    ensures
        match r {
            Some(v) => reactotron_to_cdp(cmd@, now_nanos as int) == Some(v@),
            None => reactotron_to_cdp(cmd@, now_nanos as int) is None,
        },
{
    let t = cmd.cmd_type.as_str();
    let now_ms = now_nanos / 1_000_000;
    if crate::text::str_eq(t, "console.log") || crate::text::str_eq(t, "console.debug")
        || crate::text::str_eq(t, "console.info") {
        return convert_console_to_cdp(cmd, "log", now_ms);
    }
    if crate::text::str_eq(t, "console.warn") {
        return convert_console_to_cdp(cmd, "warning", now_ms);
    }
    if crate::text::str_eq(t, "console.error") {
        return convert_console_to_cdp(cmd, "error", now_ms);
    }
    if crate::text::str_eq(t, "console.trace") {
        return convert_console_to_cdp(cmd, "trace", now_ms);
    }
    if crate::text::str_eq(t, "console.clear") {
        return convert_console_to_cdp(cmd, "clear", now_ms);
    }
    if crate::text::str_starts_with(t, "console.") {
        let lt = level_type_exec(&cmd.payload);
        return convert_console_to_cdp(cmd, lt, now_ms);
    }
    if crate::text::str_eq(t, "console") || crate::text::str_eq(t, "log") {
        let lt = level_type_exec(&cmd.payload);
        return convert_console_to_cdp(cmd, lt, now_ms);
    }
    if crate::text::str_eq(t, "network.request") || crate::text::str_eq(t, "api.request") {
        return convert_network_request_to_cdp(cmd, now_nanos);
    }
    if crate::text::str_eq(t, "network.error") || crate::text::str_eq(t, "api.error") {
        return convert_network_error_to_cdp(cmd, now_nanos);
    }
    if crate::text::str_eq(t, "network") || crate::text::str_eq(t, "api") {
        match cmd.payload.get_str("kind") {
            Some(k) => {
                if crate::text::str_eq(k.as_str(), "request") {
                    return convert_network_request_to_cdp(cmd, now_nanos);
                }
                if crate::text::str_eq(k.as_str(), "error") {
                    return convert_network_error_to_cdp(cmd, now_nanos);
                }
                return None;
            },
            None => {
                return None;
            },
        }
    }
    None
}

/// Translate a command into every CDP event it stands for.
pub fn translate_command(cmd: &Command, now_nanos: u64) -> (r: Vec<Json>)
    ensures
        json_view_seq(r@) == translate_spec(cmd@, now_nanos as int),
{
    let t = cmd.cmd_type.as_str();
    let kind_is_response: bool = match cmd.payload.get_str("kind") {
        Some(k) => crate::text::str_eq(k.as_str(), "response"),
        None => false,
    };
    let is_response = crate::text::str_eq(t, "network.response") || crate::text::str_eq(
        t,
        "api.response",
    ) || ((crate::text::str_eq(t, "network") || crate::text::str_eq(t, "api"))
        && kind_is_response);
    if is_response {
        match convert_network_response_to_cdp(cmd, now_nanos) {
            Some(events) => events,
            None => {
                let out: Vec<Json> = Vec::new();
                proof {
                    crate::json::lemma_json_view_seq(out@);
                    assert(json_view_seq(out@) =~= Seq::<JsonV>::empty());
                }
                out
            },
        }
    } else {
        match convert_reactotron_to_cdp(cmd, now_nanos) {
            Some(e) => {
                let ghost ev = e@;
                let mut out: Vec<Json> = Vec::new();
                out.push(e);
                proof {
                    crate::json::lemma_json_view_seq(out@);
                    assert(json_view_seq(out@) =~= seq![ev]);
                }
                out
            },
            None => {
                let out: Vec<Json> = Vec::new();
                proof {
                    crate::json::lemma_json_view_seq(out@);
                    assert(json_view_seq(out@) =~= Seq::<JsonV>::empty());
                }
                out
            },
        }
    }
}

/// Translator fidelity.  A recognized command type yields envelopes whose
/// `method` is the one its table row names: console commands one
/// `Runtime.consoleAPICalled`, request commands one
/// `Network.requestWillBeSent`, error commands one `Network.loadingFailed`,
/// and response commands the `requestWillBeSent`, `responseReceived`,
/// `loadingFinished` triple, provided their payload carries its `request`
/// and `response` parts.  An unrecognized command yields nothing.
#[verifier::rlimit(100)]
#[verifier::spinoff_prover]
pub proof fn lemma_translator_fidelity(c: CommandV, now_nanos: int)
    ensures
        !recognized_type(c) ==> translate_spec(c, now_nanos).len() == 0,
        console_type_of(c) is Some ==> translate_spec(c, now_nanos).len() == 1 && jget_str(
            translate_spec(c, now_nanos)[0],
            "method"@,
        ) == Some("Runtime.consoleAPICalled"@),
        c.cmd_type == "network.request"@ || c.cmd_type == "api.request"@ ==> translate_spec(
            c,
            now_nanos,
        ).len() == 1 && jget_str(translate_spec(c, now_nanos)[0], "method"@) == Some(
            "Network.requestWillBeSent"@,
        ),
        c.cmd_type == "network.error"@ || c.cmd_type == "api.error"@ ==> translate_spec(
            c,
            now_nanos,
        ).len() == 1 && jget_str(translate_spec(c, now_nanos)[0], "method"@) == Some(
            "Network.loadingFailed"@,
        ),
        is_response_command(c) && jget(c.payload, "request"@) is Some && jget(
            c.payload,
            "response"@,
        ) is Some ==> translate_spec(c, now_nanos).len() == 3 && jget_str(
            translate_spec(c, now_nanos)[0],
            "method"@,
        ) == Some("Network.requestWillBeSent"@) && jget_str(
            translate_spec(c, now_nanos)[1],
            "method"@,
        ) == Some("Network.responseReceived"@) && jget_str(
            translate_spec(c, now_nanos)[2],
            "method"@,
        ) == Some("Network.loadingFinished"@),
{
    reveal_strlit("method");
    reveal_strlit("params");
    reveal_strlit("console.log");
    reveal_strlit("console.debug");
    reveal_strlit("console.info");
    reveal_strlit("console.warn");
    reveal_strlit("console.error");
    reveal_strlit("console.trace");
    reveal_strlit("console.clear");
    reveal_strlit("console.");
    reveal_strlit("console");
    reveal_strlit("log");
    reveal_strlit("network.request");
    reveal_strlit("api.request");
    reveal_strlit("network.error");
    reveal_strlit("api.error");
    reveal_strlit("network.response");
    reveal_strlit("api.response");
    reveal_strlit("network");
    reveal_strlit("api");
    assert("console.log"@[0] == 'c' && "console.debug"@[0] == 'c' && "console.info"@[0] == 'c');
    assert("console.warn"@[0] == 'c' && "console.error"@[0] == 'c' && "console.trace"@[0] == 'c');
    assert("console.clear"@[0] == 'c' && "console"@[0] == 'c' && "log"@[0] == 'l');
    assert("network.request"@[0] == 'n' && "network.error"@[0] == 'n' && "network.response"@[0]
        == 'n' && "network"@[0] == 'n');
    assert("api.request"@[0] == 'a' && "api.error"@[0] == 'a' && "api.response"@[0] == 'a'
        && "api"@[0] == 'a');
    assert("network.request"@.len() == 15 && "network.error"@.len() == 13
        && "network.response"@.len() == 16 && "network"@.len() == 7);
    assert("api.request"@.len() == 11 && "api.error"@.len() == 9 && "api.response"@.len() == 12
        && "api"@.len() == 3);
    let t = c.cmd_type;
    if crate::text::has_prefix(t, "console."@) {
        lemma_console_prefix_char(t);
    }
    match console_type_of(c) {
        Some(ct) => {
            assert(!is_response_command(c));
            let e = console_out(c, ct, now_nanos / 1000000);
            assert(translate_spec(c, now_nanos) =~= seq![e]);
            lemma_envelope_method(e->Obj_0);
        },
        None => {
        },
    }
    if t == "network.request"@ || t == "api.request"@ {
        assert(console_type_of(c) is None);
        assert(!is_response_command(c));
        let e = network_request_out(c, now_nanos);
        assert(translate_spec(c, now_nanos) =~= seq![e]);
        lemma_envelope_method(e->Obj_0);
    }
    if t == "network.error"@ || t == "api.error"@ {
        assert(console_type_of(c) is None);
        assert(!is_response_command(c));
        let e = network_error_out(c, now_nanos);
        assert(translate_spec(c, now_nanos) =~= seq![e]);
        lemma_envelope_method(e->Obj_0);
    }
    if is_response_command(c) && jget(c.payload, "request"@) is Some && jget(
        c.payload,
        "response"@,
    ) is Some {
        let events = network_response_out(c, now_nanos)->Some_0;
        assert(network_response_out(c, now_nanos) is Some);
        assert(translate_spec(c, now_nanos) == events);
        lemma_envelope_method(events[0]->Obj_0);
        lemma_envelope_method(events[1]->Obj_0);
        lemma_envelope_method(events[2]->Obj_0);
    }
}

/// A string with the console prefix starts with its first character.
proof fn lemma_console_prefix_char(t: Seq<char>)
    requires
        crate::text::has_prefix(t, "console."@),
    ensures
        t.len() >= 8,
        t[0] == 'c',
{
    reveal_strlit("console.");
    assert(t.subrange(0, "console."@.len() as int)[0] == t[0]);
}

/// The `method` lookup on a two-field envelope yields its first field.
proof fn lemma_envelope_method(fields: Seq<(Seq<char>, JsonV)>)
    requires
        fields.len() == 2,
        fields[0].0 == "method"@,
        fields[1].0 == "params"@,
    ensures
        obj_get(fields, "method"@) == Some(fields[0].1),
{
    reveal_strlit("method");
    reveal_strlit("params");
    assert(fields.last() == fields[1]);
    assert("params"@[0] == 'p' && "method"@[0] == 'm');
    assert("params"@ != "method"@);
    assert(fields.drop_last().len() == 1);
    assert(fields.drop_last().last() == fields[0]);
    assert(obj_get(fields.drop_last(), "method"@) == Some(fields.drop_last().last().1));
}

/// Read a command from a parsed JSON value.
pub fn command_from_json(v: &Json) -> (r: Option<Command>)
    ensures
        match r {
            Some(c) => command_of(v@) == Some(c@),
            None => command_of(v@) is None,
        },
{
    if !v.is_object() {
        return None;
    }
    let t = match v.get_str("type") {
        Some(t) => t.clone(),
        None => {
            return None;
        },
    };
    let p = match v.get("payload") {
        Some(p) => p.clone_value(),
        None => {
            return None;
        },
    };
    let date = match read_opt_str_field(v, "date") {
        Some(d) => d,
        None => {
            return None;
        },
    };
    let client_id = match read_opt_str_field(v, "clientId") {
        Some(c) => c,
        None => {
            return None;
        },
    };
    let connection_id = match read_opt_u32_field(v, "connectionId") {
        Some(c) => c,
        None => {
            return None;
        },
    };
    let message_id = match read_opt_u32_field(v, "messageId") {
        Some(m) => m,
        None => {
            return None;
        },
    };
    Some(Command { cmd_type: t, payload: p, date, client_id, connection_id, message_id })
}

} // verus!
