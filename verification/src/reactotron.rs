//! The Reactotron sub-server: its connection map, its subscription list,
//! and its connection-id counter.
use crate::logging::list_has_str;
use vstd::prelude::*;

verus! {

broadcast use vstd::std_specs::vec::group_vec_axioms, vstd::seq::group_seq_axioms;

/// One live Reactotron connection, keyed by the client id it introduced
/// itself with.
pub struct ClientConnection {
    pub id: u32,
    pub address: String,
    pub client_id: String,
    pub outbox: Vec<String>,
}

/// The Reactotron sub-server state.
pub struct ReactotronServer {
    pub connections: Vec<ClientConnection>,
    pub subscriptions: Vec<String>,
    pub connection_id_counter: u32,
}

/// The first connection with the client id, or -1.
pub open spec fn rt_conn_index(conns: Seq<ClientConnection>, client_id: Seq<char>) -> int
    decreases conns.len(),
{
    if conns.len() == 0 {
        -1
    } else if conns[0].client_id@ == client_id {
        0
    } else {
        let r = rt_conn_index(conns.drop_first(), client_id);
        if r == -1 {
            -1
        } else {
            r + 1
        }
    }
}

pub proof fn lemma_rt_conn_index(conns: Seq<ClientConnection>, client_id: Seq<char>)
    ensures
        rt_conn_index(conns, client_id) == -1 ==> forall|i: int|
            0 <= i < conns.len() ==> (#[trigger] conns[i]).client_id@ != client_id,
        rt_conn_index(conns, client_id) != -1 ==> 0 <= rt_conn_index(conns, client_id)
            < conns.len() && conns[rt_conn_index(conns, client_id)].client_id@ == client_id,
    decreases conns.len(),
{
    if conns.len() > 0 && conns[0].client_id@ != client_id {
        lemma_rt_conn_index(conns.drop_first(), client_id);
        let rest = conns.drop_first();
        if rt_conn_index(conns, client_id) == -1 {
            assert forall|i: int| 0 <= i < conns.len() implies (#[trigger] conns[i]).client_id@
                != client_id by {
                if i > 0 {
                    assert(rest[i - 1] == conns[i]);
                }
            }
        } else {
            assert(rest[rt_conn_index(rest, client_id)] == conns[rt_conn_index(conns, client_id)]);
        }
    }
}

pub proof fn lemma_rt_conn_index_at(conns: Seq<ClientConnection>, client_id: Seq<char>, i: int)
    requires
        0 <= i < conns.len(),
        conns[i].client_id@ == client_id,
        forall|k: int| 0 <= k < i ==> (#[trigger] conns[k]).client_id@ != client_id,
    ensures
        rt_conn_index(conns, client_id) == i,
    decreases i,
{
    if i > 0 {
        let rest = conns.drop_first();
        assert(rest[i - 1] == conns[i]);
        assert forall|k: int| 0 <= k < i - 1 implies (#[trigger] rest[k]).client_id@
            != client_id by {
            assert(rest[k] == conns[k + 1]);
        }
        lemma_rt_conn_index_at(rest, client_id, i - 1);
    }
}

/// The views of a list of strings.
pub open spec fn views_of(list: Seq<String>) -> Seq<Seq<char>> {
    Seq::new(list.len(), |i: int| list[i]@)
}

/// Whether the list holds the text `m`.
pub open spec fn has_text(list: Seq<Seq<char>>, m: Seq<char>) -> bool {
    exists|i: int| 0 <= i < list.len() && list[i] == m
}

/// The subscription list after the given paths are appended, each skipped
/// when a path with the same text is already present.
pub open spec fn add_paths(subs: Seq<Seq<char>>, paths: Seq<Seq<char>>) -> Seq<Seq<char>>
    decreases paths.len(),
{
    if paths.len() == 0 {
        subs
    } else {
        add_paths(
            if has_text(subs, paths[0]) {
                subs
            } else {
                subs.push(paths[0])
            },
            paths.drop_first(),
        )
    }
}

impl ReactotronServer {
    /// A fresh sub-server: no connections, no subscriptions, counter at zero.
    pub fn new() -> (r: ReactotronServer)
        ensures
            r.connections@.len() == 0,
            r.subscriptions@.len() == 0,
            r.connection_id_counter == 0,
    {
        ReactotronServer { connections: Vec::new(), subscriptions: Vec::new(), connection_id_counter: 0 }
    }

    /// Mint the next connection id.
    pub fn next_connection_id(&mut self) -> (r: u32)
        ensures
            final(self).connection_id_counter == old(self).connection_id_counter.wrapping_add(1),
            r == final(self).connection_id_counter,
            final(self).connections == old(self).connections,
            final(self).subscriptions == old(self).subscriptions,
    {
        self.connection_id_counter = self.connection_id_counter.wrapping_add(1);
        self.connection_id_counter
    }

    /// The client ids of every live connection.
    pub fn get_all_client_ids(&self) -> (r: Vec<String>)
        ensures
            r@.len() == self.connections@.len(),
            forall|i: int|
                0 <= i < r@.len() ==> #[trigger] r@[i]@ == self.connections@[i].client_id@,
    {
        let n = self.connections.len();
        let mut out: Vec<String> = Vec::new();
        let mut i: usize = 0;
        while i < n
            invariant
                n == self.connections@.len(),
                i <= n,
                out@.len() == i,
                forall|k: int|
                    0 <= k < i ==> #[trigger] out@[k]@ == self.connections@[k].client_id@,
            decreases n - i,
        {
            out.push(self.connections[i].client_id.clone());
            i = i + 1;
        }
        out
    }

    /// How many connections are live.
    pub fn get_connection_count(&self) -> (r: usize)
        ensures
            r == self.connections@.len(),
    {
        self.connections.len()
    }

    fn find_client(&self, client_id: &str) -> (r: Option<usize>)
        ensures
            match r {
                Some(j) => j as int == rt_conn_index(self.connections@, client_id@) && j
                    < self.connections@.len(),
                None => rt_conn_index(self.connections@, client_id@) == -1,
            },
    {
        let n = self.connections.len();
        let mut i: usize = 0;
        while i < n
            invariant
                n == self.connections@.len(),
                i <= n,
                forall|k: int|
                    0 <= k < i ==> (#[trigger] self.connections@[k]).client_id@ != client_id@,
            decreases n - i,
        {
            if crate::text::str_eq(self.connections[i].client_id.as_str(), client_id) {
                proof {
                    lemma_rt_conn_index_at(self.connections@, client_id@, i as int);
                }
                return Some(i);
            }
            i = i + 1;
        }
        proof {
            lemma_rt_conn_index(self.connections@, client_id@);
            if rt_conn_index(self.connections@, client_id@) != -1 {
                assert(self.connections@[rt_conn_index(self.connections@, client_id@)].client_id@
                    == client_id@);
            }
        }
        None
    }

    /// Insert a connection under its client id; an existing entry with the
    /// same client id is replaced.
    pub fn insert_connection(&mut self, conn: ClientConnection)
        ensures
            final(self).subscriptions == old(self).subscriptions,
            final(self).connection_id_counter == old(self).connection_id_counter,
            ({
                let conns = old(self).connections@;
                let j = rt_conn_index(conns, conn.client_id@);
                if j >= 0 {
                    final(self).connections@ == conns.update(j, conn)
                } else {
                    final(self).connections@ == conns.push(conn)
                }
            }),
    {
        proof {
            lemma_rt_conn_index(self.connections@, conn.client_id@);
        }
        match self.find_client(conn.client_id.as_str()) {
            Some(j) => {
                self.connections.set(j, conn);
            },
            None => {
                self.connections.push(conn);
            },
        }
    }

    /// Drop the connection with the client id, if one is live.
    pub fn remove_connection(&mut self, client_id: &str)
        ensures
            final(self).subscriptions == old(self).subscriptions,
            final(self).connection_id_counter == old(self).connection_id_counter,
            ({
                let conns = old(self).connections@;
                let j = rt_conn_index(conns, client_id@);
                if j >= 0 {
                    final(self).connections@ == conns.remove(j)
                } else {
                    final(self).connections@ == conns
                }
            }),
    {
        proof {
            lemma_rt_conn_index(self.connections@, client_id@);
        }
        match self.find_client(client_id) {
            Some(j) => {
                self.connections.remove(j);
            },
            None => {},
        }
    }

    /// Append each path that is not yet subscribed.
    pub fn subscribe_paths(&mut self, paths: &Vec<String>)
        ensures
            final(self).connections == old(self).connections,
            final(self).connection_id_counter == old(self).connection_id_counter,
            views_of(final(self).subscriptions@) == add_paths(
                views_of(old(self).subscriptions@),
                views_of(paths@),
            ),
    {
        let ghost pathsv = views_of(paths@);
        let n = paths.len();
        let mut i: usize = 0;
        proof {
            assert(pathsv.subrange(0, n as int) =~= pathsv);
        }
        while i < n
            invariant
                n == paths@.len(),
                pathsv == views_of(paths@),
                pathsv.len() == n,
                i <= n,
                self.connections == old(self).connections,
                self.connection_id_counter == old(self).connection_id_counter,
                add_paths(views_of(old(self).subscriptions@), pathsv) == add_paths(
                    views_of(self.subscriptions@),
                    pathsv.subrange(i as int, n as int),
                ),
            decreases n - i,
        {
            let ghost pre = pathsv.subrange(i as int, n as int);
            let ghost subsv = views_of(self.subscriptions@);
            proof {
                assert(pre[0] == pathsv[i as int]);
                assert(pathsv[i as int] == paths@[i as int]@);
                assert(pre.drop_first() =~= pathsv.subrange(i + 1, n as int));
            }
            let mut found = false;
            let m = self.subscriptions.len();
            let mut k: usize = 0;
            while k < m && !found
                invariant
                    m == self.subscriptions@.len(),
                    subsv == views_of(self.subscriptions@),
                    k <= m,
                    i < n,
                    n == paths@.len(),
                    pathsv == views_of(paths@),
                    pathsv.len() == n,
                    found ==> has_text(subsv, pathsv[i as int]),
                    !found ==> forall|q: int|
                        0 <= q < k ==> (#[trigger] self.subscriptions@[q])@ != paths@[i as int]@,
                decreases m - k, (if found {
                    0int
                } else {
                    1int
                }),
            {
                if crate::text::str_eq(self.subscriptions[k].as_str(), paths[i].as_str()) {
                    proof {
                        assert(has_text(subsv, pathsv[i as int])) by {
                            assert(subsv[k as int] == pathsv[i as int]);
                            assert(0 <= k as int && (k as int) < subsv.len());
                        }
                    }
                    found = true;
                } else {
                    k = k + 1;
                }
            }
            if found {
                proof {
                    assert(add_paths(subsv, pre) == add_paths(
                        views_of(self.subscriptions@),
                        pre.drop_first(),
                    ));
                }
            } else {
                proof {
                    assert(!has_text(subsv, pathsv[i as int])) by {
                        let pv = pathsv[i as int];
                        assert forall|q: int| 0 <= q < subsv.len() implies subsv[q] != pv by {
                            assert(self.subscriptions@[q]@ != paths@[i as int]@);
                            assert(subsv[q] == self.subscriptions@[q]@);
                        }
                    }
                }
                self.subscriptions.push(paths[i].clone());
                proof {
                    assert(views_of(self.subscriptions@) =~= subsv.push(pathsv[i as int]));
                }
            }
            i = i + 1;
        }
        proof {
            assert(pathsv.subrange(n as int, n as int) =~= Seq::<Seq<char>>::empty());
        }
    }
}

/// The Reactotron null sentinel, which an introducing client may send in
/// place of a missing id.
pub open spec fn null_sentinel() -> Seq<char> {
    "~~~ null ~~~"@
}

/// Relies on `uuid::Uuid::new_v4` with its hyphenated formatting: a fresh
/// version-4 UUID written as thirty-six characters.
#[verifier::external_body]
fn fresh_uuid() -> (r: String)
    ensures
        r@.len() == 36,
{
    uuid::Uuid::new_v4().to_string()
}

/// The client id a session is established under: the id the client
/// introduced itself with, or a newly minted UUID when it sent none or the
/// null sentinel.  The flag says whether the id is new and must be pushed
/// back to the client.
pub fn intro_client_id(payload_client_id: Option<&String>) -> (r: (String, bool))
    ensures
        match payload_client_id {
            Some(c) => if c@ == null_sentinel() {
                r.1 && r.0@.len() == 36
            } else {
                !r.1 && r.0@ == c@
            },
            None => r.1 && r.0@.len() == 36,
        },
{
    match payload_client_id {
        Some(c) => {
            if crate::text::str_eq(c.as_str(), "~~~ null ~~~") {
                (fresh_uuid(), true)
            } else {
                (c.clone(), false)
            }
        },
        None => (fresh_uuid(), true),
    }
}

} // verus!
