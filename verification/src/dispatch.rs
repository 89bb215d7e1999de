//! The upgrade dispatcher: classify an incoming WebSocket by its path.
use crate::text::{has_prefix, str_slice_chars, str_starts_with};
use vstd::prelude::*;

verus! {

/// The mathematical model of a classified connection.
pub ghost enum RouteV {
    Reactotron,
    ReactNativeInspector,
    WebClient(Seq<char>),
    DevTools(Seq<char>),
    Invalid,
}

/// Where an incoming WebSocket is handed: the Reactotron handler for the
/// root path, the inspector handler for the device path, the client and
/// frontend handlers for their ids, or nowhere.
pub enum Route {
    Reactotron,
    ReactNativeInspector,
    WebClient(String),
    DevTools(String),
    Invalid,
}

impl View for Route {
    type V = RouteV;

    open spec fn view(&self) -> RouteV {
        match self {
            Route::Reactotron => RouteV::Reactotron,
            Route::ReactNativeInspector => RouteV::ReactNativeInspector,
            Route::WebClient(id) => RouteV::WebClient(id@),
            Route::DevTools(id) => RouteV::DevTools(id@),
            Route::Invalid => RouteV::Invalid,
        }
    }
}

/// The path split at slashes, with empty pieces dropped.
pub open spec fn path_parts(s: Seq<char>) -> Seq<Seq<char>>
    decreases s.len(),
{
    let c = slash_pos(s, 0);
    if 0 <= c && c <= s.len() {
        let head = s.subrange(0, c);
        let rest = if c < s.len() {
            path_parts(s.subrange(c + 1, s.len() as int))
        } else {
            Seq::empty()
        };
        if head.len() == 0 {
            rest
        } else {
            seq![head] + rest
        }
    } else {
        Seq::empty()
    }
}

/// The position of the first slash at or after `i`, or the length.
pub open spec fn slash_pos(s: Seq<char>, i: int) -> int
    decreases s.len() - i,
{
    if i < 0 || i >= s.len() {
        s.len() as int
    } else if s[i] == '/' {
        i
    } else {
        slash_pos(s, i + 1)
    }
}

/// The classification of an upgrade path, after the routing prefix has been
/// stripped: the empty or root path belongs to Reactotron when that
/// sub-server is enabled, the inspector path to the React-Native handler,
/// `client/<id>` and `devtools/<id>` to theirs, anything else to nobody.
pub open spec fn classify_spec(path: Seq<char>, reactotron_enabled: bool) -> RouteV {
    if (path.len() == 0 || path == "/"@) && reactotron_enabled {
        RouteV::Reactotron
    } else if has_prefix(path, "inspector/device"@) || has_prefix(path, "/inspector/device"@) {
        RouteV::ReactNativeInspector
    } else {
        let parts = path_parts(path);
        if parts.len() < 2 {
            RouteV::Invalid
        } else if parts[0] == "client"@ {
            RouteV::WebClient(parts[1])
        } else if parts[0] == "devtools"@ {
            RouteV::DevTools(parts[1])
        } else {
            RouteV::Invalid
        }
    }
}

fn path_parts_exec(s: &str) -> (r: Vec<String>)
    ensures
        r@.len() == path_parts(s@).len(),
        forall|i: int| 0 <= i < r@.len() ==> #[trigger] r@[i]@ == path_parts(s@)[i],
    decreases s@.len(),
{
    let n = s.unicode_len();
    let mut c: usize = 0;
    while c < n && s.get_char(c) != '/'
        invariant
            c <= n,
            n == s@.len(),
            slash_pos(s@, 0) == slash_pos(s@, c as int),
        decreases n - c,
    {
        c = c + 1;
    }
    proof {
        assert(slash_pos(s@, 0) == c as int);
    }
    let head = str_slice_chars(s, 0, c);
    let rest: Vec<String> = if c < n {
        path_parts_exec(str_slice_chars(s, c + 1, n).as_str())
    } else {
        Vec::new()
    };
    if head.as_str().unicode_len() == 0 {
        rest
    } else {
        let mut out: Vec<String> = Vec::new();
        out.push(head);
        let m = rest.len();
        let mut i: usize = 0;
        while i < m
            invariant
                m == rest@.len(),
                i <= m,
                out@.len() == i + 1,
                out@[0]@ == s@.subrange(0, slash_pos(s@, 0)),
                forall|k: int| 1 <= k < i + 1 ==> #[trigger] out@[k]@ == rest@[k - 1]@,
                forall|k: int|
                    0 <= k < m ==> #[trigger] rest@[k]@ == (if slash_pos(s@, 0) < s@.len() {
                        path_parts(s@.subrange(slash_pos(s@, 0) + 1, s@.len() as int))
                    } else {
                        Seq::<Seq<char>>::empty()
                    })[k],
            decreases m - i,
        {
            let item = rest[i].clone();
            out.push(item);
            i = i + 1;
        }
        proof {
            let spec = path_parts(s@);
            assert(spec.len() == out@.len());
            assert forall|k: int| 0 <= k < out@.len() implies #[trigger] out@[k]@ == spec[k] by {
                if k >= 1 {
                    assert(out@[k]@ == rest@[k - 1]@);
                    assert(spec[k] == rest@[k - 1]@);
                }
            }
        }
        out
    }
}

/// Classify an upgrade path.
pub fn classify_upgrade_path(path: &str, reactotron_enabled: bool) -> (r: Route)
    ensures
        r@ == classify_spec(path@, reactotron_enabled),
{
    if (path.unicode_len() == 0 || crate::text::str_eq(path, "/")) && reactotron_enabled {
        return Route::Reactotron;
    }
    if str_starts_with(path, "inspector/device") || str_starts_with(path, "/inspector/device") {
        return Route::ReactNativeInspector;
    }
    let parts = path_parts_exec(path);
    if parts.len() < 2 {
        return Route::Invalid;
    }
    if crate::text::str_eq(parts[0].as_str(), "client") {
        return Route::WebClient(parts[1].clone());
    }
    if crate::text::str_eq(parts[0].as_str(), "devtools") {
        return Route::DevTools(parts[1].clone());
    }
    Route::Invalid
}

} // verus!
