//! Normalization of Reactotron's sentinel strings.  Reactotron replaces
//! values that JSON cannot carry with marker strings such as `~~~ null ~~~`;
//! these functions turn the markers back into values, both inside JSON
//! values and inside raw JSON text.
use crate::json::{chars_to_string, str_to_chars, Json, JsonV};
use crate::json_parse::parse_json_text;
use crate::text::{has_prefix, has_suffix};
use vstd::prelude::*;

verus! {

broadcast use vstd::std_specs::vec::group_vec_axioms, vstd::seq::group_seq_axioms;

// ---------------------------------------------------------------------------
// Replacing and trimming inside character sequences
// ---------------------------------------------------------------------------
/// Every non-overlapping occurrence of `pat` in `s` replaced by `rep`,
/// scanning left to right; replacements are not scanned again.
pub open spec fn replace_all(s: Seq<char>, pat: Seq<char>, rep: Seq<char>) -> Seq<char>
    decreases s.len(),
{
    if pat.len() == 0 || s.len() < pat.len() {
        s
    } else if s.subrange(0, pat.len() as int) == pat {
        rep + replace_all(s.subrange(pat.len() as int, s.len() as int), pat, rep)
    } else {
        seq![s[0]] + replace_all(s.drop_first(), pat, rep)
    }
}

/// `s` with every leading occurrence of `p` removed.
pub open spec fn trim_prefix_rep(s: Seq<char>, p: Seq<char>) -> Seq<char>
    decreases s.len(),
{
    if p.len() > 0 && has_prefix(s, p) {
        trim_prefix_rep(s.subrange(p.len() as int, s.len() as int), p)
    } else {
        s
    }
}

/// `s` with every trailing occurrence of `p` removed.
pub open spec fn trim_suffix_rep(s: Seq<char>, p: Seq<char>) -> Seq<char>
    decreases s.len(),
{
    if p.len() > 0 && has_suffix(s, p) {
        trim_suffix_rep(s.subrange(0, s.len() - p.len()), p)
    } else {
        s
    }
}

/// Whether `pat` occurs in `s` starting at `i`.
fn match_at(s: &Vec<char>, i: usize, pat: &Vec<char>) -> (r: bool)
    requires
        i <= s@.len(),
    ensures
        r == (i + pat@.len() <= s@.len() && s@.subrange(i as int, i + pat@.len()) == pat@),
{
    let plen = pat.len();
    let n = s.len();
    if n - i < plen {
        return false;
    }
    let mut k: usize = 0;
    while k < plen
        invariant
            n == s@.len(),
            i + plen <= n,
            plen == pat@.len(),
            k <= plen,
            forall|m: int| 0 <= m < k ==> s@[i + m] == pat@[m],
        decreases plen - k,
    {
        if s[i + k] != pat[k] {
            proof {
                assert(s@.subrange(i as int, i + pat@.len())[k as int] != pat@[k as int]);
            }
            return false;
        }
        k = k + 1;
    }
    proof {
        assert(s@.subrange(i as int, i + pat@.len()) =~= pat@);
    }
    true
}

fn replace_chars(s: &Vec<char>, pat: &Vec<char>, rep: &Vec<char>) -> (r: Vec<char>)
    ensures
        r@ == replace_all(s@, pat@, rep@),
{
    let plen = pat.len();
    if plen == 0 {
        let mut out: Vec<char> = Vec::new();
        let mut i: usize = 0;
        while i < s.len()
            invariant
                i <= s@.len(),
                out@ == s@.subrange(0, i as int),
            decreases s@.len() - i,
        {
            out.push(s[i]);
            i = i + 1;
            proof {
                assert(out@ =~= s@.subrange(0, i as int));
            }
        }
        proof {
            assert(out@ =~= s@);
        }
        return out;
    }
    let mut out: Vec<char> = Vec::new();
    let mut i: usize = 0;
    proof {
        assert(s@.subrange(0, s@.len() as int) =~= s@);
        assert(out@ + replace_all(s@, pat@, rep@) =~= replace_all(s@, pat@, rep@));
    }
    while i < s.len()
        invariant
            i <= s@.len(),
            plen == pat@.len(),
            plen > 0,
            replace_all(s@, pat@, rep@) == out@ + replace_all(
                s@.subrange(i as int, s@.len() as int),
                pat@,
                rep@,
            ),
        decreases s@.len() - i,
    {
        let ghost suffix = s@.subrange(i as int, s@.len() as int);
        if match_at(s, i, pat) {
            proof {
                assert(suffix.subrange(0, plen as int) =~= s@.subrange(i as int, i + plen));
                assert(suffix.subrange(plen as int, suffix.len() as int) =~= s@.subrange(
                    i + plen,
                    s@.len() as int,
                ));
            }
            let ghost out_pre = out@;
            let mut k: usize = 0;
            while k < rep.len()
                invariant
                    k <= rep@.len(),
                    out@ == out_pre + rep@.subrange(0, k as int),
                decreases rep@.len() - k,
            {
                out.push(rep[k]);
                k = k + 1;
                proof {
                    assert(out@ =~= out_pre + rep@.subrange(0, k as int));
                }
            }
            proof {
                assert(out_pre + rep@.subrange(0, rep@.len() as int) =~= out_pre + rep@);
            }
            i = i + plen;
        } else {
            proof {
                assert(suffix[0] == s@[i as int]);
                assert(suffix.drop_first() =~= s@.subrange(i + 1, s@.len() as int));
                if suffix.len() >= plen {
                    assert(suffix.subrange(0, plen as int) =~= s@.subrange(i as int, i + plen));
                }
            }
            out.push(s[i]);
            i = i + 1;
        }
    }
    proof {
        assert(s@.subrange(s@.len() as int, s@.len() as int) =~= Seq::<char>::empty());
    }
    out
}

/// Replace every occurrence of `pat` in `s` by `rep`.
pub fn str_replace(s: &str, pat: &str, rep: &str) -> (r: String)
    ensures
        r@ == replace_all(s@, pat@, rep@),
{
    let sv = str_to_chars(s);
    let pv = str_to_chars(pat);
    let rv = str_to_chars(rep);
    let out = replace_chars(&sv, &pv, &rv);
    chars_to_string(&out)
}

/// Remove every leading occurrence of `p` from `s`.
pub fn str_trim_prefix_rep(s: String, p: &str) -> (r: String)
    ensures
        r@ == trim_prefix_rep(s@, p@),
{
    let plen = p.unicode_len();
    if plen == 0 {
        return s;
    }
    let mut cur = s;
    loop
        invariant
            plen == p@.len(),
            plen > 0,
            trim_prefix_rep(s@, p@) == trim_prefix_rep(cur@, p@),
        decreases cur@.len(),
    {
        if crate::text::str_starts_with(cur.as_str(), p) {
            cur = crate::text::str_slice_chars(cur.as_str(), plen, cur.as_str().unicode_len());
        } else {
            return cur;
        }
    }
}

// ---------------------------------------------------------------------------
// The sentinel table
// ---------------------------------------------------------------------------
/// The value a sentinel string stands for, if the string is exactly one of
/// the recognized markers.
pub open spec fn sentinel_value(s: Seq<char>) -> Option<JsonV> {
    if s == "~~~ undefined ~~~"@ || s == "~~~ null ~~~"@ {
        Some(JsonV::Null)
    } else if s == "~~~ false ~~~"@ {
        Some(JsonV::Bool(false))
    } else if s == "~~~ true ~~~"@ {
        Some(JsonV::Bool(true))
    } else if s == "~~~ zero ~~~"@ {
        Some(JsonV::Int(0))
    } else if s == "~~~ empty string ~~~"@ {
        Some(JsonV::Str(Seq::empty()))
    } else if s == "~~~ NaN ~~~"@ {
        Some(JsonV::Num("NaN"@))
    } else if s == "~~~ Infinity ~~~"@ {
        Some(JsonV::Num("Infinity"@))
    } else if s == "~~~ -Infinity ~~~"@ {
        Some(JsonV::Num("-Infinity"@))
    } else if s == "~~~ anonymous function ~~~"@ {
        Some(JsonV::Str("fn()"@))
    } else if s == "~~~ skipped ~~~"@ {
        Some(JsonV::Str("[skipped]"@))
    } else if s == "~~~ Circular Reference ~~~"@ {
        Some(JsonV::Str("[Circular Reference]"@))
    } else {
        None
    }
}

/// A string of the shape `~~~ NAME ~~~` that is none of the fixed markers.
pub open spec fn is_marker_pattern(s: Seq<char>) -> bool {
    has_prefix(s, "~~~ "@) && has_suffix(s, " ~~~"@) && s.len() > 9
}

/// The name inside a `~~~ NAME ~~~` marker, with the surrounding runs of
/// markers stripped.
pub open spec fn marker_name(s: Seq<char>) -> Seq<char> {
    trim_suffix_rep(trim_prefix_rep(s, "~~~ "@), " ~~~"@)
}

/// How many recursive re-parses of embedded JSON text normalization follows
/// at most; nesting beyond this depth is left as it stands.
pub open spec fn norm_depth() -> nat {
    64
}

/// A normalized JSON value: sentinel strings become the values they stand
/// for, `~~~ NAME() ~~~` markers become `fn:NAME`, strings that look like
/// JSON text are re-parsed and normalized in turn, and arrays and objects
/// are normalized element by element.
pub open spec fn norm_value(v: JsonV, fuel: nat) -> JsonV
    decreases fuel, v, 1int,
{
    match v {
        JsonV::Str(s) => match sentinel_value(s) {
            Some(w) => w,
            None => {
                if is_marker_pattern(s) {
                    let name = marker_name(s);
                    if has_suffix(name, "()"@) {
                        JsonV::Str("fn:"@ + trim_suffix_rep(name, "()"@))
                    } else {
                        JsonV::Str(name)
                    }
                } else if s.len() > 0 && (s[0] == '{' || s[0] == '[') {
                    if fuel > 0 {
                        match parse_json_text(s) {
                            Some(p) => norm_value(p, (fuel - 1) as nat),
                            None => JsonV::Str(s),
                        }
                    } else {
                        JsonV::Str(s)
                    }
                } else {
                    JsonV::Str(s)
                }
            },
        },
        JsonV::Arr(items) => JsonV::Arr(norm_seq(items, fuel)),
        JsonV::Obj(fields) => JsonV::Obj(norm_fields(fields, fuel)),
        other => other,
    }
}

pub open spec fn norm_seq(items: Seq<JsonV>, fuel: nat) -> Seq<JsonV>
    decreases fuel, items, 0int,
{
    if items.len() == 0 {
        Seq::empty()
    } else {
        seq![norm_value(items[0], fuel)] + norm_seq(items.drop_first(), fuel)
    }
}

pub open spec fn norm_fields(fields: Seq<(Seq<char>, JsonV)>, fuel: nat) -> Seq<
    (Seq<char>, JsonV),
>
    decreases fuel, fields, 0int,
{
    if fields.len() == 0 {
        Seq::empty()
    } else {
        seq![(fields[0].0, norm_value(fields[0].1, fuel))] + norm_fields(fields.drop_first(), fuel)
    }
}

pub proof fn lemma_norm_seq(items: Seq<JsonV>, fuel: nat)
    ensures
        norm_seq(items, fuel).len() == items.len(),
        forall|i: int|
            0 <= i < items.len() ==> #[trigger] norm_seq(items, fuel)[i] == norm_value(
                items[i],
                fuel,
            ),
    decreases items.len(),
{
    if items.len() > 0 {
        lemma_norm_seq(items.drop_first(), fuel);
    }
}

pub proof fn lemma_norm_fields(fields: Seq<(Seq<char>, JsonV)>, fuel: nat)
    ensures
        norm_fields(fields, fuel).len() == fields.len(),
        forall|i: int|
            0 <= i < fields.len() ==> #[trigger] norm_fields(fields, fuel)[i] == (
            fields[i].0,
            norm_value(fields[i].1, fuel),
            ),
    decreases fields.len(),
{
    if fields.len() > 0 {
        lemma_norm_fields(fields.drop_first(), fuel);
    }
}

/// Normalized raw JSON text: an exact marker becomes its literal, a
/// `~~~ NAME ~~~` marker becomes a quoted name, and otherwise every marker
/// occurring inside the text is replaced by its literal.
pub open spec fn norm_text(s: Seq<char>) -> Seq<char> {
    if s == "~~~ undefined ~~~"@ || s == "~~~ null ~~~"@ {
        "null"@
    } else if s == "~~~ false ~~~"@ {
        "false"@
    } else if s == "~~~ true ~~~"@ {
        "true"@
    } else if s == "~~~ zero ~~~"@ {
        "0"@
    } else if s == "~~~ empty string ~~~"@ {
        "\"\""@
    } else if s == "~~~ NaN ~~~"@ {
        "NaN"@
    } else if s == "~~~ Infinity ~~~"@ {
        "Infinity"@
    } else if s == "~~~ -Infinity ~~~"@ {
        "-Infinity"@
    } else if s == "~~~ anonymous function ~~~"@ {
        "\"fn()\""@
    } else if s == "~~~ skipped ~~~"@ {
        "\"[skipped]\""@
    } else if s == "~~~ Circular Reference ~~~"@ {
        "\"[Circular Reference]\""@
    } else if is_marker_pattern(s) {
        let name = marker_name(s);
        if has_suffix(name, "()"@) {
            ("\"fn:"@ + trim_suffix_rep(name, "()"@)) + "\""@
        } else {
            ("\""@ + name) + "\""@
        }
    } else {
        norm_text_replacements(s)
    }
}

/// The twelve in-text replacements, applied in order.
pub open spec fn norm_text_replacements(s: Seq<char>) -> Seq<char> {
    let s1 = replace_all(s, "~~~ undefined ~~~"@, "null"@);
    let s2 = replace_all(s1, "~~~ null ~~~"@, "null"@);
    let s3 = replace_all(s2, "~~~ false ~~~"@, "false"@);
    let s4 = replace_all(s3, "~~~ true ~~~"@, "true"@);
    let s5 = replace_all(s4, "~~~ zero ~~~"@, "0"@);
    let s6 = replace_all(s5, "~~~ empty string ~~~"@, "\"\""@);
    let s7 = replace_all(s6, "~~~ NaN ~~~"@, "NaN"@);
    let s8 = replace_all(s7, "~~~ Infinity ~~~"@, "Infinity"@);
    let s9 = replace_all(s8, "~~~ -Infinity ~~~"@, "-Infinity"@);
    let s10 = replace_all(s9, "~~~ anonymous function ~~~"@, "\"fn()\""@);
    let s11 = replace_all(s10, "~~~ skipped ~~~"@, "\"[skipped]\""@);
    replace_all(s11, "~~~ Circular Reference ~~~"@, "\"[Circular Reference]\""@)
}

// ---------------------------------------------------------------------------
// Executable normalization
// ---------------------------------------------------------------------------
fn norm_value_exec(v: &Json, fuel: u32) -> (r: Json)
    ensures
        r@ == norm_value(v@, fuel as nat),
    decreases fuel, v, 1int,
{
    match v {
        Json::Str(s) => {
            if crate::text::str_eq(s.as_str(), "~~~ undefined ~~~") || crate::text::str_eq(
                s.as_str(),
                "~~~ null ~~~",
            ) {
                Json::Null
            } else if crate::text::str_eq(s.as_str(), "~~~ false ~~~") {
                Json::Bool(false)
            } else if crate::text::str_eq(s.as_str(), "~~~ true ~~~") {
                Json::Bool(true)
            } else if crate::text::str_eq(s.as_str(), "~~~ zero ~~~") {
                Json::Int(0)
            } else if crate::text::str_eq(s.as_str(), "~~~ empty string ~~~") {
                Json::Str(String::new())
            } else if crate::text::str_eq(s.as_str(), "~~~ NaN ~~~") {
                Json::Num("NaN".to_owned())
            } else if crate::text::str_eq(s.as_str(), "~~~ Infinity ~~~") {
                Json::Num("Infinity".to_owned())
            } else if crate::text::str_eq(s.as_str(), "~~~ -Infinity ~~~") {
                Json::Num("-Infinity".to_owned())
            } else if crate::text::str_eq(s.as_str(), "~~~ anonymous function ~~~") {
                Json::Str("fn()".to_owned())
            } else if crate::text::str_eq(s.as_str(), "~~~ skipped ~~~") {
                Json::Str("[skipped]".to_owned())
            } else if crate::text::str_eq(s.as_str(), "~~~ Circular Reference ~~~") {
                Json::Str("[Circular Reference]".to_owned())
            } else if crate::text::str_starts_with(s.as_str(), "~~~ ") && crate::text::str_ends_with(
                s.as_str(),
                " ~~~",
            ) && s.as_str().unicode_len() > 9 {
                let name = str_trim_suffix_rep(str_trim_prefix_rep(s.clone(), "~~~ "), " ~~~");
                if crate::text::str_ends_with(name.as_str(), "()") {
                    let trimmed = str_trim_suffix_rep(name, "()");
                    let quoted = crate::text::concat_str("fn:", trimmed.as_str());
                    Json::Str(quoted)
                } else {
                    Json::Str(name)
                }
            } else if s.as_str().unicode_len() > 0 && (s.as_str().get_char(0) == '{'
                || s.as_str().get_char(0) == '[') {
                if fuel > 0 {
                    match crate::json_parse::parse_json(s.as_str()) {
                        Some(p) => norm_value_exec(&p, fuel - 1),
                        None => Json::Str(s.clone()),
                    }
                } else {
                    Json::Str(s.clone())
                }
            } else {
                Json::Str(s.clone())
            }
        },
        Json::Arr(items) => {
            proof {
                crate::json::lemma_json_view_seq(items@);
                lemma_norm_seq(v@->Arr_0, fuel as nat);
            }
            let ghost itemsv = v@->Arr_0;
            let n = items.len();
            let mut out: Vec<Json> = Vec::new();
            let mut k: usize = 0;
            while k < n
                invariant
                    n == items@.len(),
                    k <= n,
                    v == Json::Arr(*items),
                    v@ == JsonV::Arr(itemsv),
                    itemsv == crate::json::json_view_seq(items@),
                    itemsv.len() == n,
                    forall|i: int|
                        0 <= i < n ==> #[trigger] itemsv[i] == crate::json::json_view(items@[i]),
                    out@.len() == k,
                    forall|i: int|
                        0 <= i < k ==> #[trigger] crate::json::json_view(out@[i]) == norm_value(
                            itemsv[i],
                            fuel as nat,
                        ),
                decreases n - k,
            {
                proof {
                    assert(decreases_to!(*v => v->Arr_0));
                    assert(v->Arr_0 == *items);
                    assert(decreases_to!(*items => items@));
                    assert(decreases_to!(items@ => items@[k as int]));
                }
                let w = norm_value_exec(&items[k], fuel);
                out.push(w);
                k = k + 1;
            }
            proof {
                crate::json::lemma_json_view_seq(out@);
                lemma_norm_seq(itemsv, fuel as nat);
                assert(crate::json::json_view_seq(out@) =~= norm_seq(itemsv, fuel as nat));
            }
            Json::Arr(out)
        },
        Json::Obj(fields) => {
            proof {
                crate::json::lemma_json_view_fields(fields@);
                lemma_norm_fields(v@->Obj_0, fuel as nat);
            }
            let ghost fieldsv = v@->Obj_0;
            let n = fields.len();
            let mut out: Vec<(String, Json)> = Vec::new();
            let mut k: usize = 0;
            while k < n
                invariant
                    n == fields@.len(),
                    k <= n,
                    v == Json::Obj(*fields),
                    v@ == JsonV::Obj(fieldsv),
                    fieldsv == crate::json::json_view_fields(fields@),
                    fieldsv.len() == n,
                    forall|i: int|
                        0 <= i < n ==> #[trigger] fieldsv[i] == (
                        fields@[i].0@,
                        crate::json::json_view(fields@[i].1),
                        ),
                    out@.len() == k,
                    forall|i: int|
                        0 <= i < k ==> (#[trigger] out@[i].0@, crate::json::json_view(out@[i].1))
                            == (fieldsv[i].0, norm_value(fieldsv[i].1, fuel as nat)),
                decreases n - k,
            {
                proof {
                    assert(decreases_to!(*v => v->Obj_0));
                    assert(v->Obj_0 == *fields);
                    assert(decreases_to!(*fields => fields@));
                    assert(decreases_to!(fields@ => fields@[k as int]));
                    assert(decreases_to!(fields@[k as int] => fields@[k as int].1));
                }
                let w = norm_value_exec(&fields[k].1, fuel);
                let key = fields[k].0.clone();
                out.push((key, w));
                k = k + 1;
            }
            proof {
                crate::json::lemma_json_view_fields(out@);
                lemma_norm_fields(fieldsv, fuel as nat);
                assert(crate::json::json_view_fields(out@) =~= norm_fields(fieldsv, fuel as nat));
            }
            Json::Obj(out)
        },
        Json::Null => Json::Null,
        Json::Bool(b) => Json::Bool(*b),
        Json::Int(n) => Json::Int(*n),
        Json::Num(s) => Json::Num(s.clone()),
    }
}

/// Normalize Reactotron sentinel strings inside a JSON value.
pub fn normalize_reactotron_json_value(value: Json) -> (r: Json)
    ensures
        r@ == norm_value(value@, norm_depth()),
{
    norm_value_exec(&value, 64)
}

/// Normalize Reactotron sentinel strings inside raw JSON text.
pub fn normalize_reactotron_string(s: &str) -> (r: String)
    ensures
        r@ == norm_text(s@),
{
    if crate::text::str_eq(s, "~~~ undefined ~~~") || crate::text::str_eq(s, "~~~ null ~~~") {
        "null".to_owned()
    } else if crate::text::str_eq(s, "~~~ false ~~~") {
        "false".to_owned()
    } else if crate::text::str_eq(s, "~~~ true ~~~") {
        "true".to_owned()
    } else if crate::text::str_eq(s, "~~~ zero ~~~") {
        "0".to_owned()
    } else if crate::text::str_eq(s, "~~~ empty string ~~~") {
        "\"\"".to_owned()
    } else if crate::text::str_eq(s, "~~~ NaN ~~~") {
        "NaN".to_owned()
    } else if crate::text::str_eq(s, "~~~ Infinity ~~~") {
        "Infinity".to_owned()
    } else if crate::text::str_eq(s, "~~~ -Infinity ~~~") {
        "-Infinity".to_owned()
    } else if crate::text::str_eq(s, "~~~ anonymous function ~~~") {
        "\"fn()\"".to_owned()
    } else if crate::text::str_eq(s, "~~~ skipped ~~~") {
        "\"[skipped]\"".to_owned()
    } else if crate::text::str_eq(s, "~~~ Circular Reference ~~~") {
        "\"[Circular Reference]\"".to_owned()
    } else if crate::text::str_starts_with(s, "~~~ ") && crate::text::str_ends_with(s, " ~~~")
        && s.unicode_len() > 9 {
        let name = str_trim_suffix_rep(str_trim_prefix_rep(s.to_owned(), "~~~ "), " ~~~");
        if crate::text::str_ends_with(name.as_str(), "()") {
            let trimmed = str_trim_suffix_rep(name, "()");
            let a = crate::text::concat_str("\"fn:", trimmed.as_str());
            crate::text::concat_str(a.as_str(), "\"")
        } else {
            let a = crate::text::concat_str("\"", name.as_str());
            crate::text::concat_str(a.as_str(), "\"")
        }
    } else {
        let s1 = str_replace(s, "~~~ undefined ~~~", "null");
        let s2 = str_replace(s1.as_str(), "~~~ null ~~~", "null");
        let s3 = str_replace(s2.as_str(), "~~~ false ~~~", "false");
        let s4 = str_replace(s3.as_str(), "~~~ true ~~~", "true");
        let s5 = str_replace(s4.as_str(), "~~~ zero ~~~", "0");
        let s6 = str_replace(s5.as_str(), "~~~ empty string ~~~", "\"\"");
        let s7 = str_replace(s6.as_str(), "~~~ NaN ~~~", "NaN");
        let s8 = str_replace(s7.as_str(), "~~~ Infinity ~~~", "Infinity");
        let s9 = str_replace(s8.as_str(), "~~~ -Infinity ~~~", "-Infinity");
        let s10 = str_replace(s9.as_str(), "~~~ anonymous function ~~~", "\"fn()\"");
        let s11 = str_replace(s10.as_str(), "~~~ skipped ~~~", "\"[skipped]\"");
        str_replace(s11.as_str(), "~~~ Circular Reference ~~~", "\"[Circular Reference]\"")
    }
}

/// Remove every trailing occurrence of `p` from `s`.
pub fn str_trim_suffix_rep(s: String, p: &str) -> (r: String)
    ensures
        r@ == trim_suffix_rep(s@, p@),
{
    let plen = p.unicode_len();
    if plen == 0 {
        return s;
    }
    let mut cur = s;
    loop
        invariant
            plen == p@.len(),
            plen > 0,
            trim_suffix_rep(s@, p@) == trim_suffix_rep(cur@, p@),
        decreases cur@.len(),
    {
        if crate::text::str_ends_with(cur.as_str(), p) {
            let n = cur.as_str().unicode_len();
            cur = crate::text::str_slice_chars(cur.as_str(), 0, n - plen);
        } else {
            return cur;
        }
    }
}

} // verus!
