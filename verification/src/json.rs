//! The JSON value model.  Every WebSocket frame this relay handles is JSON
//! text; the model, its serializer and its parser are the foundation the
//! rest of the library is specified against.
use vstd::prelude::*;

verus! {

/// Mathematical model of a JSON value, used in specifications.
pub enum JsonV {
    Null,
    Bool(bool),
    /// An integer literal that fits the executable integer type.
    Int(int),
    /// Any other numeric literal, kept as its literal text.
    Num(Seq<char>),
    Str(Seq<char>),
    Arr(Seq<JsonV>),
    Obj(Seq<(Seq<char>, JsonV)>),
}

/// A JSON value.  Numeric literals that are not plain integers are kept
/// verbatim as their literal text, so that relaying a frame preserves them
/// exactly.
pub enum Json {
    Null,
    Bool(bool),
    Int(i64),
    Num(String),
    Str(String),
    Arr(Vec<Json>),
    Obj(Vec<(String, Json)>),
}

broadcast use vstd::std_specs::vec::group_vec_axioms, vstd::seq::group_seq_axioms;

pub open spec fn json_view(v: Json) -> JsonV
    decreases v,
{
    match v {
        Json::Null => JsonV::Null,
        Json::Bool(b) => JsonV::Bool(b),
        Json::Int(n) => JsonV::Int(n as int),
        Json::Num(s) => JsonV::Num(s@),
        Json::Str(s) => JsonV::Str(s@),
        Json::Arr(items) => JsonV::Arr(json_view_seq(items@)),
        Json::Obj(fields) => JsonV::Obj(json_view_fields(fields@)),
    }
}

pub open spec fn json_view_seq(items: Seq<Json>) -> Seq<JsonV>
    decreases items,
{
    if items.len() == 0 {
        Seq::empty()
    } else {
        seq![json_view(items[0])] + json_view_seq(items.drop_first())
    }
}

pub open spec fn json_view_fields(fields: Seq<(String, Json)>) -> Seq<(Seq<char>, JsonV)>
    decreases fields,
{
    if fields.len() == 0 {
        Seq::empty()
    } else {
        seq![(fields[0].0@, json_view(fields[0].1))] + json_view_fields(fields.drop_first())
    }
}

/// The element-wise reading of `json_view_seq` and `json_view_fields`.
pub proof fn lemma_json_view_seq(items: Seq<Json>)
    ensures
        json_view_seq(items).len() == items.len(),
        forall|i: int|
            0 <= i < items.len() ==> #[trigger] json_view_seq(items)[i] == json_view(items[i]),
    decreases items.len(),
{
    if items.len() > 0 {
        lemma_json_view_seq(items.drop_first());
    }
}

pub proof fn lemma_json_view_fields(fields: Seq<(String, Json)>)
    ensures
        json_view_fields(fields).len() == fields.len(),
        forall|i: int|
            0 <= i < fields.len() ==> #[trigger] json_view_fields(fields)[i] == (
            fields[i].0@,
            json_view(fields[i].1),
            ),
    decreases fields.len(),
{
    if fields.len() > 0 {
        lemma_json_view_fields(fields.drop_first());
    }
}

impl View for Json {
    type V = JsonV;

    open spec fn view(&self) -> JsonV {
        json_view(*self)
    }
}

// ---------------------------------------------------------------------------
// Serialization
// ---------------------------------------------------------------------------
/// The decimal digit character for `d` (0 through 9).
pub open spec fn digit_char(d: int) -> char {
    if d == 0 {
        '0'
    } else if d == 1 {
        '1'
    } else if d == 2 {
        '2'
    } else if d == 3 {
        '3'
    } else if d == 4 {
        '4'
    } else if d == 5 {
        '5'
    } else if d == 6 {
        '6'
    } else if d == 7 {
        '7'
    } else if d == 8 {
        '8'
    } else {
        '9'
    }
}

/// The lower-case hexadecimal digit character for `d` (0 through 15).
pub open spec fn hex_char(d: int) -> char {
    if d < 10 {
        digit_char(d)
    } else if d == 10 {
        'a'
    } else if d == 11 {
        'b'
    } else if d == 12 {
        'c'
    } else if d == 13 {
        'd'
    } else if d == 14 {
        'e'
    } else {
        'f'
    }
}

/// The decimal digits of a non-negative integer, most significant first.
pub open spec fn dec_nat(n: nat) -> Seq<char>
    decreases n,
{
    if n < 10 {
        seq![digit_char(n as int)]
    } else {
        dec_nat(n / 10) + seq![digit_char((n % 10) as int)]
    }
}

/// The decimal rendering of an integer, with a leading minus sign when negative.
pub open spec fn dec_int(n: int) -> Seq<char> {
    if n < 0 {
        seq!['-'] + dec_nat((-n) as nat)
    } else {
        dec_nat(n as nat)
    }
}

/// How a single character appears inside a JSON string literal: the two-char
/// short escapes, `\u00xx` for other control characters, the character itself
/// otherwise.
pub open spec fn esc_char(c: char) -> Seq<char> {
    if c == '"' {
        seq!['\\', '"']
    } else if c == '\\' {
        seq!['\\', '\\']
    } else if c == '\u{8}' {
        seq!['\\', 'b']
    } else if c == '\u{c}' {
        seq!['\\', 'f']
    } else if c == '\n' {
        seq!['\\', 'n']
    } else if c == '\r' {
        seq!['\\', 'r']
    } else if c == '\t' {
        seq!['\\', 't']
    } else if (c as u32) < 0x20 {
        seq!['\\', 'u', '0', '0', hex_char(c as int / 16), hex_char(c as int % 16)]
    } else {
        seq![c]
    }
}

/// The escaped form of the first `j` characters of `s`.
pub open spec fn esc_upto(s: Seq<char>, j: int) -> Seq<char>
    decreases j,
{
    if j <= 0 {
        Seq::empty()
    } else {
        esc_upto(s, j - 1) + esc_char(s[j - 1])
    }
}

/// A JSON string literal: quote, escaped characters, quote.
pub open spec fn ser_string(s: Seq<char>) -> Seq<char> {
    seq!['"'] + esc_upto(s, s.len() as int) + seq!['"']
}

/// The serialization of a JSON value.  Objects keep their fields in order;
/// numeric literals are kept verbatim.
pub open spec fn ser(v: JsonV) -> Seq<char>
    decreases v, 1int, 0int,
{
    match v {
        JsonV::Null => seq!['n', 'u', 'l', 'l'],
        JsonV::Bool(b) => if b {
            seq!['t', 'r', 'u', 'e']
        } else {
            seq!['f', 'a', 'l', 's', 'e']
        },
        JsonV::Int(n) => dec_int(n),
        JsonV::Num(s) => s,
        JsonV::Str(s) => ser_string(s),
        JsonV::Arr(items) => seq!['['] + ser_items_upto(items, items.len() as int) + seq![']'],
        JsonV::Obj(fields) => seq!['{'] + ser_fields_upto(fields, fields.len() as int) + seq!['}'],
    }
}

/// The serialization of the first `j` array elements, comma-separated.
pub open spec fn ser_items_upto(items: Seq<JsonV>, j: int) -> Seq<char>
    decreases items, 0int, j,
{
    if j <= 0 || j > items.len() {
        Seq::empty()
    } else if j == 1 {
        ser(items[0])
    } else {
        ser_items_upto(items, j - 1) + seq![','] + ser(items[j - 1])
    }
}

/// The serialization of the first `j` object fields, comma-separated.
pub open spec fn ser_fields_upto(fields: Seq<(Seq<char>, JsonV)>, j: int) -> Seq<char>
    decreases fields, 0int, j,
{
    if j <= 0 || j > fields.len() {
        Seq::empty()
    } else if j == 1 {
        ser_string(fields[0].0) + seq![':'] + ser(fields[0].1)
    } else {
        ser_fields_upto(fields, j - 1) + seq![','] + ser_string(fields[j - 1].0) + seq![':'] + ser(
            fields[j - 1].1,
        )
    }
}

/// Collect a string's characters into a vector.
pub fn str_to_chars(s: &str) -> (r: Vec<char>)
    ensures
        r@ == s@,
{
    let n = s.unicode_len();
    let mut r: Vec<char> = Vec::new();
    let mut i: usize = 0;
    while i < n
        invariant
            n == s@.len(),
            i <= n,
            r@ == s@.subrange(0, i as int),
        decreases n - i,
    {
        r.push(s.get_char(i));
        i = i + 1;
        proof {
            assert(r@ =~= s@.subrange(0, i as int));
        }
    }
    proof {
        assert(r@ =~= s@);
    }
    r
}

/// Relies on `String: FromIterator<char>`: collecting characters yields the
/// string with exactly those characters.
#[verifier::external_body]
pub fn chars_to_string(v: &Vec<char>) -> (s: String)
    ensures
        s@ == v@,
{
    v.iter().collect()
}

/// Append a string's characters to a character vector.
pub fn push_str_chars(s: &str, out: &mut Vec<char>)
    ensures
        final(out)@ == old(out)@ + s@,
{
    let n = s.unicode_len();
    let mut i: usize = 0;
    while i < n
        invariant
            n == s@.len(),
            i <= n,
            out@ == old(out)@ + s@.subrange(0, i as int),
        decreases n - i,
    {
        out.push(s.get_char(i));
        i = i + 1;
        proof {
            assert(old(out)@ + s@.subrange(0, i - 1) + seq![s@[i - 1]] =~= old(out)@
                + s@.subrange(0, i as int));
        }
    }
    proof {
        assert(old(out)@ + s@.subrange(0, n as int) =~= old(out)@ + s@);
    }
}

pub fn digit_to_char(d: u64) -> (c: char)
    requires
        d < 10,
    ensures
        c == digit_char(d as int),
{
    if d == 0 {
        '0'
    } else if d == 1 {
        '1'
    } else if d == 2 {
        '2'
    } else if d == 3 {
        '3'
    } else if d == 4 {
        '4'
    } else if d == 5 {
        '5'
    } else if d == 6 {
        '6'
    } else if d == 7 {
        '7'
    } else if d == 8 {
        '8'
    } else {
        '9'
    }
}

fn hex_to_char(d: u32) -> (c: char)
    requires
        d < 16,
    ensures
        c == hex_char(d as int),
{
    if d < 10 {
        digit_to_char(d as u64)
    } else if d == 10 {
        'a'
    } else if d == 11 {
        'b'
    } else if d == 12 {
        'c'
    } else if d == 13 {
        'd'
    } else if d == 14 {
        'e'
    } else {
        'f'
    }
}

/// Append the decimal digits of `n`.
pub fn push_u64_dec(n: u64, out: &mut Vec<char>)
    ensures
        final(out)@ == old(out)@ + dec_nat(n as nat),
    decreases n,
{
    if n >= 10 {
        push_u64_dec(n / 10, out);
    }
    out.push(digit_to_char(n % 10));
}

/// Append the decimal rendering of `n`, with a minus sign when negative.
pub fn push_i64_dec(n: i64, out: &mut Vec<char>)
    ensures
        final(out)@ == old(out)@ + dec_int(n as int),
{
    if n < 0 {
        out.push('-');
        let m128: i128 = -(n as i128);
        let m: u64 = m128 as u64;
        push_u64_dec(m, out);
        proof {
            assert(old(out)@ + seq!['-'] + dec_nat(m as nat) =~= old(out)@ + dec_int(n as int));
        }
    } else {
        push_u64_dec(n as u64, out);
    }
}

fn push_escaped(c: char, out: &mut Vec<char>)
    ensures
        final(out)@ == old(out)@ + esc_char(c),
{
    if c == '"' {
        out.push('\\');
        out.push('"');
    } else if c == '\\' {
        out.push('\\');
        out.push('\\');
    } else if c == '\u{8}' {
        out.push('\\');
        out.push('b');
    } else if c == '\u{c}' {
        out.push('\\');
        out.push('f');
    } else if c == '\n' {
        out.push('\\');
        out.push('n');
    } else if c == '\r' {
        out.push('\\');
        out.push('r');
    } else if c == '\t' {
        out.push('\\');
        out.push('t');
    } else if (c as u32) < 0x20 {
        out.push('\\');
        out.push('u');
        out.push('0');
        out.push('0');
        out.push(hex_to_char((c as u32) / 16));
        out.push(hex_to_char((c as u32) % 16));
    } else {
        out.push(c);
    }
    proof {
        assert(out@ =~= old(out)@ + esc_char(c));
    }
}

/// Append a JSON string literal: quote, escaped characters, quote.
pub fn push_string_lit(s: &str, out: &mut Vec<char>)
    ensures
        final(out)@ == old(out)@ + ser_string(s@),
{
    out.push('"');
    let n = s.unicode_len();
    let mut i: usize = 0;
    while i < n
        invariant
            n == s@.len(),
            i <= n,
            out@ == old(out)@ + seq!['"'] + esc_upto(s@, i as int),
        decreases n - i,
    {
        push_escaped(s.get_char(i), out);
        i = i + 1;
    }
    out.push('"');
    proof {
        assert(out@ =~= old(out)@ + ser_string(s@));
    }
}

/// Append the serialization of a JSON value.
pub fn write_json(v: &Json, out: &mut Vec<char>)
    ensures
        final(out)@ == old(out)@ + ser(v@),
    decreases v,
{
    match v {
        Json::Null => {
            out.push('n');
            out.push('u');
            out.push('l');
            out.push('l');
            proof {
                assert(out@ =~= old(out)@ + ser(v@));
            }
        },
        Json::Bool(b) => {
            if *b {
                out.push('t');
                out.push('r');
                out.push('u');
                out.push('e');
            } else {
                out.push('f');
                out.push('a');
                out.push('l');
                out.push('s');
                out.push('e');
            }
            proof {
                assert(out@ =~= old(out)@ + ser(v@));
            }
        },
        Json::Int(n) => {
            push_i64_dec(*n, out);
        },
        Json::Num(s) => {
            push_str_chars(s.as_str(), out);
        },
        Json::Str(s) => {
            push_string_lit(s.as_str(), out);
        },
        Json::Arr(items) => {
            proof {
                lemma_json_view_seq(items@);
            }
            let ghost itemsv = json_view_seq(items@);
            out.push('[');
            let n = items.len();
            let mut k: usize = 0;
            while k < n
                invariant
                    n == items@.len(),
                    k <= n,
                    itemsv == json_view_seq(items@),
                    itemsv.len() == n,
                    forall|i: int| 0 <= i < n ==> #[trigger] itemsv[i] == json_view(items@[i]),
                    v == Json::Arr(*items),
                    out@ == old(out)@ + seq!['['] + ser_items_upto(itemsv, k as int),
                decreases n - k,
            {
                if k > 0 {
                    out.push(',');
                }
                proof {
                    assert(decreases_to!(*v => v->Arr_0));
                    assert(v->Arr_0 == *items);
                    assert(decreases_to!(*items => items@));
                    assert(decreases_to!(items@ => items@[k as int]));
                }
                write_json(&items[k], out);
                k = k + 1;
                proof {
                    assert(out@ =~= old(out)@ + seq!['['] + ser_items_upto(itemsv, k as int));
                }
            }
            out.push(']');
            proof {
                assert(out@ =~= old(out)@ + ser(v@));
            }
        },
        Json::Obj(fields) => {
            proof {
                lemma_json_view_fields(fields@);
            }
            let ghost fieldsv = json_view_fields(fields@);
            out.push('{');
            let n = fields.len();
            let mut k: usize = 0;
            while k < n
                invariant
                    n == fields@.len(),
                    k <= n,
                    fieldsv == json_view_fields(fields@),
                    fieldsv.len() == n,
                    forall|i: int|
                        0 <= i < n ==> #[trigger] fieldsv[i] == (
                        fields@[i].0@,
                        json_view(fields@[i].1),
                        ),
                    v == Json::Obj(*fields),
                    out@ == old(out)@ + seq!['{'] + ser_fields_upto(fieldsv, k as int),
                decreases n - k,
            {
                if k > 0 {
                    out.push(',');
                }
                push_string_lit(fields[k].0.as_str(), out);
                out.push(':');
                proof {
                    assert(decreases_to!(*v => v->Obj_0));
                    assert(v->Obj_0 == *fields);
                    assert(decreases_to!(*fields => fields@));
                    assert(decreases_to!(fields@ => fields@[k as int]));
                    assert(decreases_to!(fields@[k as int] => fields@[k as int].1));
                }
                write_json(&fields[k].1, out);
                k = k + 1;
                proof {
                    assert(out@ =~= old(out)@ + seq!['{'] + ser_fields_upto(fieldsv, k as int));
                }
            }
            out.push('}');
            proof {
                assert(out@ =~= old(out)@ + ser(v@));
            }
        },
    }
}

/// Serialize a JSON value to its text.
pub fn to_json_string(v: &Json) -> (r: String)
    ensures
        r@ == ser(v@),
{
    let mut out: Vec<char> = Vec::new();
    write_json(v, &mut out);
    chars_to_string(&out)
}

// ---------------------------------------------------------------------------
// Reading values
// ---------------------------------------------------------------------------
/// The value under `key` among `fields`; with a repeated key the last
/// occurrence wins, as it does for the usual map-backed JSON readers.
pub open spec fn obj_get(fields: Seq<(Seq<char>, JsonV)>, key: Seq<char>) -> Option<JsonV>
    decreases fields.len(),
{
    if fields.len() == 0 {
        None
    } else if fields.last().0 == key {
        Some(fields.last().1)
    } else {
        obj_get(fields.drop_last(), key)
    }
}

/// The value under `key`, if `v` is an object that has it.
pub open spec fn jget(v: JsonV, key: Seq<char>) -> Option<JsonV> {
    match v {
        JsonV::Obj(fields) => obj_get(fields, key),
        _ => None,
    }
}

/// The string content of `v`, if `v` is a string.
pub open spec fn jstr(v: JsonV) -> Option<Seq<char>> {
    match v {
        JsonV::Str(s) => Some(s),
        _ => None,
    }
}

/// The string under `key`, if `v` is an object holding a string there.
pub open spec fn jget_str(v: JsonV, key: Seq<char>) -> Option<Seq<char>> {
    match jget(v, key) {
        Some(f) => jstr(f),
        None => None,
    }
}

impl Json {
    /// Look a field up by key; with a repeated key the last occurrence wins.
    pub fn get<'a>(&'a self, key: &str) -> (r: Option<&'a Json>)
        ensures
            match r {
                Some(f) => jget(self@, key@) == Some(f@),
                None => jget(self@, key@) is None,
            },
    {
        match self {
            Json::Obj(fields) => {
                proof {
                    lemma_json_view_fields(fields@);
                }
                let ghost fv = json_view_fields(fields@);
                let mut k = fields.len();
                proof {
                    assert(fv.subrange(0, k as int) =~= fv);
                }
                while k > 0
                    invariant
                        k <= fields@.len(),
                        self@ == JsonV::Obj(fv),
                        fv == json_view_fields(fields@),
                        fv.len() == fields@.len(),
                        forall|i: int|
                            0 <= i < fields@.len() ==> #[trigger] fv[i] == (
                            fields@[i].0@,
                            json_view(fields@[i].1),
                            ),
                        obj_get(fv, key@) == obj_get(fv.subrange(0, k as int), key@),
                    decreases k,
                {
                    if crate::text::str_eq(fields[k - 1].0.as_str(), key) {
                        proof {
                            let sub = fv.subrange(0, k as int);
                            assert(sub.len() == k);
                            assert(sub.last() == fv[k as int - 1]);
                            assert(fv[k as int - 1].0 == fields@[k as int - 1].0@);
                            assert(obj_get(sub, key@) == Some(sub.last().1));
                        }
                        return Some(&fields[k - 1].1);
                    }
                    proof {
                        assert(fv.subrange(0, k as int).drop_last() =~= fv.subrange(0, k - 1));
                    }
                    k = k - 1;
                }
                proof {
                    assert(fv.subrange(0, 0) =~= Seq::<(Seq<char>, JsonV)>::empty());
                }
                None
            },
            _ => None,
        }
    }

    /// The string content, if this value is a string.
    pub fn as_str<'a>(&'a self) -> (r: Option<&'a String>)
        ensures
            match r {
                Some(s) => jstr(self@) == Some(s@),
                None => jstr(self@) is None,
            },
    {
        match self {
            Json::Str(s) => Some(s),
            _ => None,
        }
    }

    /// The integer value, if this value is a plain integer literal.
    pub fn as_i64(&self) -> (r: Option<i64>)
        ensures
            match r {
                Some(n) => self@ == JsonV::Int(n as int),
                None => !(self@ is Int),
            },
    {
        match self {
            Json::Int(n) => Some(*n),
            _ => None,
        }
    }

    /// The boolean value, if this value is a boolean.
    pub fn as_bool(&self) -> (r: Option<bool>)
        ensures
            match r {
                Some(b) => self@ == JsonV::Bool(b),
                None => !(self@ is Bool),
            },
    {
        match self {
            Json::Bool(b) => Some(*b),
            _ => None,
        }
    }

    /// The elements, if this value is an array.
    pub fn as_array<'a>(&'a self) -> (r: Option<&'a Vec<Json>>)
        ensures
            match r {
                Some(items) => self@ == JsonV::Arr(json_view_seq(items@)),
                None => !(self@ is Arr),
            },
    {
        match self {
            Json::Arr(items) => Some(items),
            _ => None,
        }
    }

    /// Whether this value is an object.
    pub fn is_object(&self) -> (r: bool)
        ensures
            r == (self@ is Obj),
    {
        match self {
            Json::Obj(_) => true,
            _ => false,
        }
    }

    /// A copy of this value.
    pub fn clone_value(&self) -> (r: Json)
        ensures
            r@ == self@,
        decreases self,
    {
        match self {
            Json::Null => Json::Null,
            Json::Bool(b) => Json::Bool(*b),
            Json::Int(n) => Json::Int(*n),
            Json::Num(s) => Json::Num(s.clone()),
            Json::Str(s) => Json::Str(s.clone()),
            Json::Arr(items) => {
                proof {
                    lemma_json_view_seq(items@);
                }
                let ghost itemsv = json_view_seq(items@);
                let n = items.len();
                let mut out: Vec<Json> = Vec::new();
                let mut k: usize = 0;
                while k < n
                    invariant
                        n == items@.len(),
                        k <= n,
                        self == Json::Arr(*items),
                        self@ == JsonV::Arr(itemsv),
                        itemsv == json_view_seq(items@),
                        itemsv.len() == n,
                        forall|i: int| 0 <= i < n ==> #[trigger] itemsv[i] == json_view(items@[i]),
                        out@.len() == k,
                        forall|i: int| 0 <= i < k ==> #[trigger] json_view(out@[i]) == itemsv[i],
                    decreases n - k,
                {
                    proof {
                        assert(decreases_to!(*self => self->Arr_0));
                        assert(self->Arr_0 == *items);
                        assert(decreases_to!(*items => items@));
                        assert(decreases_to!(items@ => items@[k as int]));
                    }
                    let w = items[k].clone_value();
                    out.push(w);
                    k = k + 1;
                }
                proof {
                    lemma_json_view_seq(out@);
                    assert(json_view_seq(out@) =~= itemsv);
                }
                Json::Arr(out)
            },
            Json::Obj(fields) => {
                proof {
                    lemma_json_view_fields(fields@);
                }
                let ghost fieldsv = json_view_fields(fields@);
                let n = fields.len();
                let mut out: Vec<(String, Json)> = Vec::new();
                let mut k: usize = 0;
                while k < n
                    invariant
                        n == fields@.len(),
                        k <= n,
                        self == Json::Obj(*fields),
                        self@ == JsonV::Obj(fieldsv),
                        fieldsv == json_view_fields(fields@),
                        fieldsv.len() == n,
                        forall|i: int|
                            0 <= i < n ==> #[trigger] fieldsv[i] == (
                            fields@[i].0@,
                            json_view(fields@[i].1),
                            ),
                        out@.len() == k,
                        forall|i: int|
                            0 <= i < k ==> (#[trigger] out@[i].0@, json_view(out@[i].1))
                                == fieldsv[i],
                    decreases n - k,
                {
                    proof {
                        assert(decreases_to!(*self => self->Obj_0));
                        assert(self->Obj_0 == *fields);
                        assert(decreases_to!(*fields => fields@));
                        assert(decreases_to!(fields@ => fields@[k as int]));
                        assert(decreases_to!(fields@[k as int] => fields@[k as int].1));
                    }
                    let w = fields[k].1.clone_value();
                    let key = fields[k].0.clone();
                    out.push((key, w));
                    k = k + 1;
                }
                proof {
                    lemma_json_view_fields(out@);
                    assert(json_view_fields(out@) =~= fieldsv);
                }
                Json::Obj(out)
            },
        }
    }

    /// The string under `key`, if this value is an object holding a string
    /// there.
    pub fn get_str<'a>(&'a self, key: &str) -> (r: Option<&'a String>)
        ensures
            match r {
                Some(s) => jget_str(self@, key@) == Some(s@),
                None => jget_str(self@, key@) is None,
            },
    {
        match self.get(key) {
            Some(f) => f.as_str(),
            None => None,
        }
    }
}

pub proof fn lemma_view_seq_push(items: Seq<Json>, x: Json)
    ensures
        json_view_seq(items.push(x)) == json_view_seq(items).push(json_view(x)),
{
    lemma_json_view_seq(items);
    lemma_json_view_seq(items.push(x));
    assert(json_view_seq(items.push(x)) =~= json_view_seq(items).push(json_view(x)));
}

pub proof fn lemma_view_fields_push(fields: Seq<(String, Json)>, k: String, x: Json)
    ensures
        json_view_fields(fields.push((k, x))) == json_view_fields(fields).push((k@, json_view(x))),
{
    lemma_json_view_fields(fields);
    lemma_json_view_fields(fields.push((k, x)));
    assert(json_view_fields(fields.push((k, x))) =~= json_view_fields(fields).push((
        k@,
        json_view(x),
    )));
}

/// An object under construction, field by field.
pub struct ObjBuilder {
    pub fields: Vec<(String, Json)>,
}

impl View for ObjBuilder {
    type V = Seq<(Seq<char>, JsonV)>;

    open spec fn view(&self) -> Seq<(Seq<char>, JsonV)> {
        json_view_fields(self.fields@)
    }
}

impl ObjBuilder {
    pub fn new() -> (r: ObjBuilder)
        ensures
            r@ == Seq::<(Seq<char>, JsonV)>::empty(),
    {
        let fields: Vec<(String, Json)> = Vec::new();
        proof {
            lemma_json_view_fields(fields@);
            assert(json_view_fields(fields@) =~= Seq::<(Seq<char>, JsonV)>::empty());
        }
        ObjBuilder { fields }
    }

    /// Append one field.
    pub fn field(&mut self, key: &str, v: Json)
        ensures
            final(self)@ == old(self)@.push((key@, v@)),
    {
        let k = key.to_owned();
        proof {
            lemma_view_fields_push(self.fields@, k, v);
        }
        self.fields.push((k, v));
    }

    /// The finished object.
    pub fn build(self) -> (r: Json)
        ensures
            r@ == JsonV::Obj(self@),
    {
        Json::Obj(self.fields)
    }
}

/// A string value copied from `s`.
pub fn jstring(s: &str) -> (r: Json)
    ensures
        r@ == JsonV::Str(s@),
{
    Json::Str(s.to_owned())
}

} // verus!
