//! The logging policy: which events are written at all, and under which
//! subsystem tag.  The writing itself is plain I/O and lives outside the
//! library.
use vstd::prelude::*;

verus! {

/// The subsystem a log line belongs to.
#[derive(Clone, Copy, PartialEq, Eq, Structural)]
pub enum LogType {
    Client,
    DevTools,
    Server,
    RnInspector,
    Reactotron,
}

pub open spec fn log_type_str(t: LogType) -> Seq<char> {
    match t {
        LogType::Client => "client"@,
        LogType::DevTools => "devtools"@,
        LogType::Server => "server"@,
        LogType::RnInspector => "rn-inspector"@,
        LogType::Reactotron => "reactotron"@,
    }
}

impl LogType {
    /// The tag this subsystem is written under.
    pub fn as_str(&self) -> (r: &'static str)
        ensures
            r@ == log_type_str(*self),
    {
        match self {
            LogType::Client => "client",
            LogType::DevTools => "devtools",
            LogType::Server => "server",
            LogType::RnInspector => "rn-inspector",
            LogType::Reactotron => "reactotron",
        }
    }
}

/// Leading and trailing whitespace removed.
pub open spec fn trimmed(s: Seq<char>) -> Seq<char>
    decreases s.len(),
{
    if s.len() > 0 && crate::json_parse::is_ws(s[0]) {
        trimmed(s.drop_first())
    } else if s.len() > 0 && crate::json_parse::is_ws(s.last()) {
        trimmed(s.drop_last())
    } else {
        s
    }
}

/// The comma-separated pieces of `s`, trimmed, with empty pieces dropped.
pub open spec fn split_methods(s: Seq<char>) -> Seq<Seq<char>>
    decreases s.len(),
{
    let c = comma_pos(s, 0);
    if 0 <= c && c <= s.len() {
        let head = trimmed(s.subrange(0, c));
        let rest = if c < s.len() {
            split_methods(s.subrange(c + 1, s.len() as int))
        } else {
            Seq::empty()
        };
        if head.len() == 0 {
            rest
        } else {
            seq![head] + rest
        }
    } else {
        Seq::empty()
    }
}

/// The position of the first comma at or after `i`, or the length.
pub open spec fn comma_pos(s: Seq<char>, i: int) -> int
    decreases s.len() - i,
{
    if i < 0 || i >= s.len() {
        s.len() as int
    } else if s[i] == ',' {
        i
    } else {
        comma_pos(s, i + 1)
    }
}

/// Whether the list holds the string `m`.
pub open spec fn list_has_str(list: Seq<String>, m: Seq<char>) -> bool {
    exists|i: int| 0 <= i < list.len() && list[i]@ == m
}

/// The logging policy: whether logging is on at all, and an optional
/// allow-list of CDP methods.
pub struct LogConfig {
    pub enabled: bool,
    pub allowed_methods: Option<Vec<String>>,
    pub log_file: Option<String>,
}

/// Whether an event tagged with `method` is logged under this policy.
pub open spec fn spec_should_log(c: LogConfig, method: Option<Seq<char>>) -> bool {
    if !c.enabled {
        false
    } else {
        match c.allowed_methods {
            Some(list) => match method {
                Some(m) => list_has_str(list@, m),
                None => false,
            },
            None => true,
        }
    }
}

impl LogConfig {
    /// Build a policy from the raw configuration: the allow-list is the
    /// comma-separated method names, trimmed, with empty entries dropped.
    pub fn new(enabled: bool, methods: Option<String>, log_file: Option<String>) -> (r: LogConfig)
        ensures
            r.enabled == enabled,
            match (r.allowed_methods, methods) {
                (Some(list), Some(m)) => list@.len() == split_methods(m@).len() && (forall|i: int|
                    0 <= i < list@.len() ==> #[trigger] list@[i]@ == split_methods(m@)[i]),
                (None, None) => true,
                _ => false,
            },
            r.log_file == log_file,
    {
        let allowed_methods = match methods {
            Some(m) => Some(split_methods_exec(m.as_str())),
            None => None,
        };
        LogConfig { enabled, allowed_methods, log_file }
    }

    /// Whether logging is on at all.
    pub fn is_enabled(&self) -> (r: bool)
        ensures
            r == self.enabled,
    {
        self.enabled
    }

    /// Whether an event tagged with `method` should be logged.
    pub fn should_log_method(&self, method: Option<&str>) -> (r: bool)
        ensures
            r == spec_should_log(
                *self,
                match method {
                    Some(m) => Some(m@),
                    None => None,
                },
            ),
    {
        if !self.enabled {
            return false;
        }
        match &self.allowed_methods {
            Some(list) => match method {
                Some(m) => {
                    let n = list.len();
                    let mut i: usize = 0;
                    while i < n
                        invariant
                            self.enabled,
                            self.allowed_methods == Some(*list),
                            method == Some(m),
                            n == list@.len(),
                            i <= n,
                            forall|k: int| 0 <= k < i ==> list@[k]@ != m@,
                        decreases n - i,
                    {
                        if crate::text::str_eq(list[i].as_str(), m) {
                            proof {
                                assert(list_has_str(list@, m@)) by {
                                    assert(list@[i as int]@ == m@);
                                    assert(0 <= i as int && (i as int) < list@.len());
                                }
                                assert(match self.allowed_methods {
                                    Some(al) => list_has_str(al@, m@),
                                    None => false,
                                });
                            }
                            return true;
                        }
                        i = i + 1;
                    }
                    false
                },
                None => false,
            },
            None => true,
        }
    }
}

fn trim_exec(s: String) -> (r: String)
    ensures
        r@ == trimmed(s@),
    decreases s@.len(),
{
    let n = s.as_str().unicode_len();
    if n > 0 {
        let c0 = s.as_str().get_char(0);
        if c0 == ' ' || c0 == '\t' || c0 == '\n' || c0 == '\r' {
            return trim_exec(crate::text::str_slice_chars(s.as_str(), 1, n));
        }
        let cl = s.as_str().get_char(n - 1);
        if cl == ' ' || cl == '\t' || cl == '\n' || cl == '\r' {
            proof {
                assert(s@.subrange(0, s@.len() - 1) =~= s@.drop_last());
            }
            return trim_exec(crate::text::str_slice_chars(s.as_str(), 0, n - 1));
        }
    }
    s
}

fn split_methods_exec(s: &str) -> (r: Vec<String>)
    ensures
        r@.len() == split_methods(s@).len(),
        forall|i: int| 0 <= i < r@.len() ==> #[trigger] r@[i]@ == split_methods(s@)[i],
    decreases s@.len(),
{
    let n = s.unicode_len();
    // Find the first comma.
    let mut c: usize = 0;
    while c < n && s.get_char(c) != ','
        invariant
            c <= n,
            n == s@.len(),
            comma_pos(s@, 0) == comma_pos(s@, c as int),
        decreases n - c,
    {
        c = c + 1;
    }
    proof {
        assert(comma_pos(s@, 0) == c as int);
    }
    let head = trim_exec(crate::text::str_slice_chars(s, 0, c));
    let mut rest: Vec<String> = if c < n {
        split_methods_exec(crate::text::str_slice_chars(s, c + 1, n).as_str())
    } else {
        Vec::new()
    };
    if head.as_str().unicode_len() == 0 {
        rest
    } else {
        let mut out: Vec<String> = Vec::new();
        out.push(head);
        let m = rest.len();
        let mut i: usize = 0;
        while i < m
            invariant
                m == rest@.len(),
                i <= m,
                out@.len() == i + 1,
                out@[0]@ == trimmed(s@.subrange(0, comma_pos(s@, 0))),
                forall|k: int| 1 <= k < i + 1 ==> #[trigger] out@[k]@ == rest@[k - 1]@,
                forall|k: int|
                    0 <= k < m ==> #[trigger] rest@[k]@ == (if comma_pos(s@, 0) < s@.len() {
                        split_methods(s@.subrange(comma_pos(s@, 0) + 1, s@.len() as int))
                    } else {
                        Seq::<Seq<char>>::empty()
                    })[k],
            decreases m - i,
        {
            let item = rest[i].clone();
            out.push(item);
            i = i + 1;
        }
        proof {
            let spec = split_methods(s@);
            assert(spec.len() == out@.len());
            assert forall|k: int| 0 <= k < out@.len() implies #[trigger] out@[k]@ == spec[k] by {
                if k >= 1 {
                    assert(out@[k]@ == rest@[k - 1]@);
                    assert(spec[k] == rest@[k - 1]@);
                }
            }
        }
        out
    }
}

} // verus!
