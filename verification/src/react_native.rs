//! The React-Native inspector registry: agent connections keyed by their
//! device and app pair, with their cached Redux snapshots.
use vstd::prelude::*;

verus! {

broadcast use vstd::std_specs::vec::group_vec_axioms, vstd::seq::group_seq_axioms;

/// One cached Redux store: its instance id, display name, latest state as
/// JSON text, and the time of the latest update.
pub struct ReduxStoreInstance {
    pub instance_id: String,
    pub name: String,
    pub payload: String,
    pub timestamp: i64,
}

impl ReduxStoreInstance {
    /// A copy of this snapshot.
    pub fn clone_store(&self) -> (r: ReduxStoreInstance)
        ensures
            r.instance_id@ == self.instance_id@,
            r.name@ == self.name@,
            r.payload@ == self.payload@,
            r.timestamp == self.timestamp,
    {
        ReduxStoreInstance {
            instance_id: self.instance_id.clone(),
            name: self.name.clone(),
            payload: self.payload.clone(),
            timestamp: self.timestamp,
        }
    }
}

/// What is known about a connection when it arrives.
pub struct ConnectionInfo {
    pub id: String,
    pub device_name: Option<String>,
    pub app_name: Option<String>,
    pub device_id: Option<String>,
    pub client_id: Option<String>,
}

/// One live agent connection.  The writer is a token standing for the
/// channel the socket writes through; reconnecting swaps it while the rest
/// of the entry stays.
pub struct ReactNativeInspectorConnection {
    pub id: String,
    pub device_name: Option<String>,
    pub app_name: Option<String>,
    pub device_id: Option<String>,
    pub client_id: Option<String>,
    pub redux_stores: Vec<ReduxStoreInstance>,
    pub writer: u64,
    pub outbox: Vec<String>,
}

/// The view of an optional string.
pub open spec fn opt_sview(o: Option<String>) -> Option<Seq<char>> {
    match o {
        Some(s) => Some(s@),
        None => None,
    }
}

/// Whether `c` belongs to the device and app pair.
pub open spec fn pair_matches(
    c: ReactNativeInspectorConnection,
    device_id: Option<Seq<char>>,
    app_name: Option<Seq<char>>,
) -> bool {
    opt_sview(c.device_id) == device_id && opt_sview(c.app_name) == app_name
}

/// The first entry with the device and app pair, or -1.
pub open spec fn pair_index(
    conns: Seq<ReactNativeInspectorConnection>,
    device_id: Option<Seq<char>>,
    app_name: Option<Seq<char>>,
) -> int
    decreases conns.len(),
{
    if conns.len() == 0 {
        -1
    } else if pair_matches(conns[0], device_id, app_name) {
        0
    } else {
        let r = pair_index(conns.drop_first(), device_id, app_name);
        if r == -1 {
            -1
        } else {
            r + 1
        }
    }
}

/// The first entry with the id, or -1.
pub open spec fn conn_index(conns: Seq<ReactNativeInspectorConnection>, id: Seq<char>) -> int
    decreases conns.len(),
{
    if conns.len() == 0 {
        -1
    } else if conns[0].id@ == id {
        0
    } else {
        let r = conn_index(conns.drop_first(), id);
        if r == -1 {
            -1
        } else {
            r + 1
        }
    }
}

/// The first snapshot with the instance id, or -1.
pub open spec fn store_index(stores: Seq<ReduxStoreInstance>, instance_id: Seq<char>) -> int
    decreases stores.len(),
{
    if stores.len() == 0 {
        -1
    } else if stores[0].instance_id@ == instance_id {
        0
    } else {
        let r = store_index(stores.drop_first(), instance_id);
        if r == -1 {
            -1
        } else {
            r + 1
        }
    }
}

pub proof fn lemma_pair_index(
    conns: Seq<ReactNativeInspectorConnection>,
    device_id: Option<Seq<char>>,
    app_name: Option<Seq<char>>,
)
    ensures
        pair_index(conns, device_id, app_name) == -1 ==> forall|i: int|
            0 <= i < conns.len() ==> !pair_matches(#[trigger] conns[i], device_id, app_name),
        pair_index(conns, device_id, app_name) != -1 ==> 0 <= pair_index(conns, device_id, app_name)
            < conns.len() && pair_matches(conns[pair_index(conns, device_id, app_name)], device_id, app_name),
    decreases conns.len(),
{
    if conns.len() > 0 && !pair_matches(conns[0], device_id, app_name) {
        lemma_pair_index(conns.drop_first(), device_id, app_name);
        let rest = conns.drop_first();
        if pair_index(conns, device_id, app_name) == -1 {
            assert forall|i: int| 0 <= i < conns.len() implies !pair_matches(
                #[trigger] conns[i],
                device_id,
                app_name,
            ) by {
                if i > 0 {
                    assert(rest[i - 1] == conns[i]);
                }
            }
        } else {
            assert(rest[pair_index(rest, device_id, app_name)] == conns[pair_index(
                conns,
                device_id,
                app_name,
            )]);
        }
    }
}

/// If the entry at `i` is the first to carry the pair, the pair's index is `i`.
pub proof fn lemma_pair_index_at(
    conns: Seq<ReactNativeInspectorConnection>,
    device_id: Option<Seq<char>>,
    app_name: Option<Seq<char>>,
    i: int,
)
    requires
        0 <= i < conns.len(),
        pair_matches(conns[i], device_id, app_name),
        forall|k: int| 0 <= k < i ==> !pair_matches(#[trigger] conns[k], device_id, app_name),
    ensures
        pair_index(conns, device_id, app_name) == i,
    decreases i,
{
    if i > 0 {
        let rest = conns.drop_first();
        assert(rest[i - 1] == conns[i]);
        assert forall|k: int| 0 <= k < i - 1 implies !pair_matches(
            #[trigger] rest[k],
            device_id,
            app_name,
        ) by {
            assert(rest[k] == conns[k + 1]);
        }
        lemma_pair_index_at(rest, device_id, app_name, i - 1);
    }
}

pub proof fn lemma_conn_index(conns: Seq<ReactNativeInspectorConnection>, id: Seq<char>)
    ensures
        conn_index(conns, id) == -1 ==> forall|i: int|
            0 <= i < conns.len() ==> (#[trigger] conns[i]).id@ != id,
        conn_index(conns, id) != -1 ==> 0 <= conn_index(conns, id) < conns.len() && conns[conn_index(
            conns,
            id,
        )].id@ == id,
    decreases conns.len(),
{
    if conns.len() > 0 && conns[0].id@ != id {
        lemma_conn_index(conns.drop_first(), id);
        let rest = conns.drop_first();
        if conn_index(conns, id) == -1 {
            assert forall|i: int| 0 <= i < conns.len() implies (#[trigger] conns[i]).id@ != id by {
                if i > 0 {
                    assert(rest[i - 1] == conns[i]);
                }
            }
        } else {
            assert(rest[conn_index(rest, id)] == conns[conn_index(conns, id)]);
        }
    }
}

/// If the entry at `i` is the first to carry the id, the id's index is `i`.
pub proof fn lemma_conn_index_at(
    conns: Seq<ReactNativeInspectorConnection>,
    id: Seq<char>,
    i: int,
)
    requires
        0 <= i < conns.len(),
        conns[i].id@ == id,
        forall|k: int| 0 <= k < i ==> (#[trigger] conns[k]).id@ != id,
    ensures
        conn_index(conns, id) == i,
    decreases i,
{
    if i > 0 {
        let rest = conns.drop_first();
        assert(rest[i - 1] == conns[i]);
        assert forall|k: int| 0 <= k < i - 1 implies (#[trigger] rest[k]).id@ != id by {
            assert(rest[k] == conns[k + 1]);
        }
        lemma_conn_index_at(rest, id, i - 1);
    }
}

pub proof fn lemma_store_index(stores: Seq<ReduxStoreInstance>, instance_id: Seq<char>)
    ensures
        store_index(stores, instance_id) == -1 ==> forall|i: int|
            0 <= i < stores.len() ==> (#[trigger] stores[i]).instance_id@ != instance_id,
        store_index(stores, instance_id) != -1 ==> 0 <= store_index(stores, instance_id)
            < stores.len() && stores[store_index(stores, instance_id)].instance_id@ == instance_id,
    decreases stores.len(),
{
    if stores.len() > 0 && stores[0].instance_id@ != instance_id {
        lemma_store_index(stores.drop_first(), instance_id);
        let rest = stores.drop_first();
        if store_index(stores, instance_id) == -1 {
            assert forall|i: int| 0 <= i < stores.len() implies (#[trigger] stores[i]).instance_id@
                != instance_id by {
                if i > 0 {
                    assert(rest[i - 1] == stores[i]);
                }
            }
        } else {
            assert(rest[store_index(rest, instance_id)] == stores[store_index(
                stores,
                instance_id,
            )]);
        }
    }
}

/// If the snapshot at `i` is the first to carry the instance id, that id's
/// index is `i`.
pub proof fn lemma_store_index_at(stores: Seq<ReduxStoreInstance>, instance_id: Seq<char>, i: int)
    requires
        0 <= i < stores.len(),
        stores[i].instance_id@ == instance_id,
        forall|k: int| 0 <= k < i ==> (#[trigger] stores[k]).instance_id@ != instance_id,
    ensures
        store_index(stores, instance_id) == i,
    decreases i,
{
    if i > 0 {
        let rest = stores.drop_first();
        assert(rest[i - 1] == stores[i]);
        assert forall|k: int| 0 <= k < i - 1 implies (#[trigger] rest[k]).instance_id@
            != instance_id by {
            assert(rest[k] == stores[k + 1]);
        }
        lemma_store_index_at(rest, instance_id, i - 1);
    }
}

/// Two entries that agree on everything but their snapshot list.
pub open spec fn same_entry_except_stores(
    a: ReactNativeInspectorConnection,
    b: ReactNativeInspectorConnection,
) -> bool {
    a.id == b.id && a.device_name == b.device_name && a.app_name == b.app_name && a.device_id
        == b.device_id && a.client_id == b.client_id && a.writer == b.writer && a.outbox == b.outbox
}

/// Two entries that agree on everything but their snapshot list and queue.
pub open spec fn same_entry_except_stores_and_outbox(
    a: ReactNativeInspectorConnection,
    b: ReactNativeInspectorConnection,
) -> bool {
    a.id == b.id && a.device_name == b.device_name && a.app_name == b.app_name && a.device_id
        == b.device_id && a.client_id == b.client_id && a.writer == b.writer
}

/// The registry of live agent connections.
pub struct ReactNativeInspectorConnectionManager {
    pub connections: Vec<ReactNativeInspectorConnection>,
}

/// Well-formedness, and the heart of the single-active-writer rule: no two
/// entries share a device and app pair, so each pair has at most one writer.
pub open spec fn manager_wf(m: ReactNativeInspectorConnectionManager) -> bool {
    forall|i: int, j: int|
        0 <= i < j < m.connections@.len() ==> !(pair_matches(
            #[trigger] m.connections@[i],
            opt_sview(m.connections@[j].device_id),
            opt_sview((#[trigger] m.connections@[j]).app_name),
        ))
}

impl ReactNativeInspectorConnectionManager {
    /// An empty registry.
    pub fn new() -> (r: ReactNativeInspectorConnectionManager)
        ensures
            r.connections@.len() == 0,
            manager_wf(r),
    {
        ReactNativeInspectorConnectionManager { connections: Vec::new() }
    }

    fn find_pair(&self, device_id: &Option<String>, app_name: &Option<String>) -> (r: Option<
        usize,
    >)
        ensures
            match r {
                Some(j) => j as int == pair_index(
                    self.connections@,
                    opt_sview(*device_id),
                    opt_sview(*app_name),
                ) && j < self.connections@.len(),
                None => pair_index(self.connections@, opt_sview(*device_id), opt_sview(*app_name))
                    == -1,
            },
    {
        let ghost dv = opt_sview(*device_id);
        let ghost av = opt_sview(*app_name);
        let n = self.connections.len();
        let mut i: usize = 0;
        while i < n
            invariant
                n == self.connections@.len(),
                i <= n,
                dv == opt_sview(*device_id),
                av == opt_sview(*app_name),
                forall|k: int|
                    0 <= k < i ==> !pair_matches(#[trigger] self.connections@[k], dv, av),
            decreases n - i,
        {
            let c = &self.connections[i];
            let matches_pair = crate::text::opt_str_eq(&c.device_id, device_id)
                && crate::text::opt_str_eq(&c.app_name, app_name);
            if matches_pair {
                proof {
                    lemma_pair_index_at(self.connections@, dv, av, i as int);
                }
                return Some(i);
            }
            i = i + 1;
        }
        proof {
            lemma_pair_index(self.connections@, dv, av);
            if pair_index(self.connections@, dv, av) != -1 {
                assert(pair_matches(
                    self.connections@[pair_index(self.connections@, dv, av)],
                    dv,
                    av,
                ));
            }
        }
        None
    }

    /// Attach an agent.  An existing entry with the same device and app pair
    /// is reused: its writer is swapped and everything else — its id, its
    /// binding, its Redux snapshots — survives.  Otherwise a fresh entry is
    /// added under a newly minted id.
    pub fn create_connection(
        &mut self,
        connection_info: ConnectionInfo,
        writer: u64,
        now_ms: u64,
    ) -> (id: String)
        requires
            manager_wf(*old(self)),
        ensures
            manager_wf(*final(self)),
            ({
                let conns = old(self).connections@;
                let j = pair_index(
                    conns,
                    opt_sview(connection_info.device_id),
                    opt_sview(connection_info.app_name),
                );
                if j >= 0 {
                    &&& final(self).connections@.len() == conns.len()
                    &&& (forall|k: int|
                        0 <= k < conns.len() && k != j ==> #[trigger] final(self).connections@[k]
                            == conns[k])
                    &&& final(self).connections@[j].id@ == conns[j].id@
                    &&& final(self).connections@[j].client_id == conns[j].client_id
                    &&& final(self).connections@[j].redux_stores == conns[j].redux_stores
                    &&& final(self).connections@[j].device_id == conns[j].device_id
                    &&& final(self).connections@[j].app_name == conns[j].app_name
                    &&& final(self).connections@[j].writer == writer
                    &&& id@ == conns[j].id@
                } else {
                    &&& final(self).connections@.len() == conns.len() + 1
                    &&& (forall|k: int|
                        0 <= k < conns.len() ==> #[trigger] final(self).connections@[k] == conns[k])
                    &&& final(self).connections@.last().id@ == id@
                    &&& opt_sview(final(self).connections@.last().device_id) == opt_sview(
                        connection_info.device_id,
                    )
                    &&& opt_sview(final(self).connections@.last().app_name) == opt_sview(
                        connection_info.app_name,
                    )
                    &&& final(self).connections@.last().client_id is None
                    &&& final(self).connections@.last().redux_stores@.len() == 0
                    &&& final(self).connections@.last().writer == writer
                }
            }),
    {
        proof {
            lemma_pair_index(
                self.connections@,
                opt_sview(connection_info.device_id),
                opt_sview(connection_info.app_name),
            );
        }
        match self.find_pair(&connection_info.device_id, &connection_info.app_name) {
            Some(j) => {
                let existing_id = self.connections[j].id.clone();
                let entry = &mut self.connections[j];
                entry.writer = writer;
                proof {
                    assert(forall|k: int|
                        0 <= k < final(self).connections@.len() && k != j
                            ==> #[trigger] final(self).connections@[k] == old(self).connections@[k]);
                }
                existing_id
            },
            None => {
                let mut idc = crate::json::str_to_chars("rn-inspector-");
                crate::json::push_u64_dec(now_ms, &mut idc);
                idc.push('-');
                let suffix = fresh_uuid_simple();
                crate::json::push_str_chars(suffix.as_str(), &mut idc);
                let id = crate::json::chars_to_string(&idc);
                let entry = ReactNativeInspectorConnection {
                    id: id.clone(),
                    device_name: connection_info.device_name,
                    app_name: connection_info.app_name,
                    device_id: connection_info.device_id,
                    client_id: None,
                    redux_stores: Vec::new(),
                    writer,
                    outbox: Vec::new(),
                };
                self.connections.push(entry);
                id
            },
        }
    }

    /// Look a connection up by id.
    pub fn get_connection<'a>(&'a self, id: &str) -> (r: Option<
        &'a ReactNativeInspectorConnection,
    >)
        ensures
            match r {
                Some(c) => conn_index(self.connections@, id@) >= 0 && *c == self.connections@[conn_index(
                    self.connections@,
                    id@,
                )],
                None => conn_index(self.connections@, id@) == -1,
            },
    {
        let j = match self.find_conn(id) {
            Some(j) => j,
            None => {
                return None;
            },
        };
        Some(&self.connections[j])
    }

    fn find_conn(&self, id: &str) -> (r: Option<usize>)
        ensures
            match r {
                Some(j) => j as int == conn_index(self.connections@, id@) && j
                    < self.connections@.len(),
                None => conn_index(self.connections@, id@) == -1,
            },
    {
        let n = self.connections.len();
        let mut i: usize = 0;
        while i < n
            invariant
                n == self.connections@.len(),
                i <= n,
                forall|k: int| 0 <= k < i ==> (#[trigger] self.connections@[k]).id@ != id@,
            decreases n - i,
        {
            if crate::text::str_eq(self.connections[i].id.as_str(), id) {
                proof {
                    lemma_conn_index_at(self.connections@, id@, i as int);
                }
                return Some(i);
            }
            i = i + 1;
        }
        proof {
            lemma_conn_index(self.connections@, id@);
            if conn_index(self.connections@, id@) != -1 {
                assert(self.connections@[conn_index(self.connections@, id@)].id@ == id@);
            }
        }
        None
    }

    /// All connections, as plain records.
    pub fn get_all_connections(&self) -> (r: Vec<ConnectionInfo>)
        ensures
            r@.len() == self.connections@.len(),
            forall|i: int|
                0 <= i < r@.len() ==> (#[trigger] r@[i]).id@ == self.connections@[i].id@
                    && opt_sview(r@[i].device_name) == opt_sview(self.connections@[i].device_name)
                    && opt_sview(r@[i].app_name) == opt_sview(self.connections@[i].app_name)
                    && opt_sview(r@[i].device_id) == opt_sview(self.connections@[i].device_id)
                    && opt_sview(r@[i].client_id) == opt_sview(self.connections@[i].client_id),
    {
        let n = self.connections.len();
        let mut out: Vec<ConnectionInfo> = Vec::new();
        let mut i: usize = 0;
        while i < n
            invariant
                n == self.connections@.len(),
                i <= n,
                out@.len() == i,
                forall|k: int|
                    0 <= k < i ==> (#[trigger] out@[k]).id@ == self.connections@[k].id@
                        && opt_sview(out@[k].device_name) == opt_sview(
                        self.connections@[k].device_name,
                    ) && opt_sview(out@[k].app_name) == opt_sview(self.connections@[k].app_name)
                        && opt_sview(out@[k].device_id) == opt_sview(
                        self.connections@[k].device_id,
                    ) && opt_sview(out@[k].client_id) == opt_sview(self.connections@[k].client_id),
            decreases n - i,
        {
            let c = &self.connections[i];
            out.push(
                ConnectionInfo {
                    id: c.id.clone(),
                    device_name: clone_opt(&c.device_name),
                    app_name: clone_opt(&c.app_name),
                    device_id: clone_opt(&c.device_id),
                    client_id: clone_opt(&c.client_id),
                },
            );
            i = i + 1;
        }
        out
    }

    /// Drop a connection.
    pub fn remove_connection(&mut self, id: &str)
        requires
            manager_wf(*old(self)),
        ensures
            manager_wf(*final(self)),
            ({
                let conns = old(self).connections@;
                let j = conn_index(conns, id@);
                if j >= 0 {
                    final(self).connections@ == conns.remove(j)
                } else {
                    final(self).connections@ == conns
                }
            }),
    {
        proof {
            lemma_conn_index(self.connections@, id@);
        }
        match self.find_conn(id) {
            Some(j) => {
                self.connections.remove(j);
                proof {
                    assert forall|a: int, b: int|
                        0 <= a < b < final(self).connections@.len() implies !(pair_matches(
                        #[trigger] final(self).connections@[a],
                        opt_sview(final(self).connections@[b].device_id),
                        opt_sview((#[trigger] final(self).connections@[b]).app_name),
                    )) by {
                        let conns = old(self).connections@;
                        let a0 = if a < j {
                            a
                        } else {
                            a + 1
                        };
                        let b0 = if b < j {
                            b
                        } else {
                            b + 1
                        };
                        assert(final(self).connections@[a] == conns[a0]);
                        assert(final(self).connections@[b] == conns[b0]);
                    }
                }
            },
            None => {},
        }
    }

    /// Bind the inspector to a client id; a repeated call just writes the
    /// same binding again.
    pub fn associate_with_client(&mut self, inspector_id: &str, client_id: &str) -> (r: bool)
        requires
            manager_wf(*old(self)),
        ensures
            manager_wf(*final(self)),
            ({
                let conns = old(self).connections@;
                let j = conn_index(conns, inspector_id@);
                if j >= 0 {
                    &&& r
                    &&& final(self).connections@.len() == conns.len()
                    &&& forall|k: int|
                        0 <= k < conns.len() && k != j ==> #[trigger] final(self).connections@[k]
                            == conns[k]
                    &&& opt_sview(final(self).connections@[j].client_id) == Some(client_id@)
                    &&& final(self).connections@[j].id == conns[j].id
                    &&& final(self).connections@[j].device_id == conns[j].device_id
                    &&& final(self).connections@[j].app_name == conns[j].app_name
                    &&& final(self).connections@[j].redux_stores == conns[j].redux_stores
                    &&& final(self).connections@[j].writer == conns[j].writer
                    &&& final(self).connections@[j].outbox == conns[j].outbox
                } else {
                    &&& !r
                    &&& final(self).connections@ == conns
                }
            }),
    {
        proof {
            lemma_conn_index(self.connections@, inspector_id@);
        }
        match self.find_conn(inspector_id) {
            Some(j) => {
                let entry = &mut self.connections[j];
                entry.client_id = Some(client_id.to_owned());
                true
            },
            None => false,
        }
    }

    /// Replace an existing snapshot's payload and time; unknown instances
    /// are left alone.
    pub fn update_redux_state(
        &mut self,
        inspector_id: &str,
        instance_id: &str,
        payload: String,
        timestamp: i64,
    )
        requires
            manager_wf(*old(self)),
        ensures
            manager_wf(*final(self)),
            ({
                let conns = old(self).connections@;
                let j = conn_index(conns, inspector_id@);
                if j >= 0 {
                    let stores = conns[j].redux_stores@;
                    let si = store_index(stores, instance_id@);
                    &&& final(self).connections@.len() == conns.len()
                    &&& forall|k: int|
                        0 <= k < conns.len() && k != j ==> #[trigger] final(self).connections@[k]
                            == conns[k]
                    &&& same_entry_except_stores(final(self).connections@[j], conns[j])
                    &&& if si >= 0 {
                        &&& final(self).connections@[j].redux_stores@.len() == stores.len()
                        &&& forall|k: int|
                            0 <= k < stores.len() && k != si
                                ==> #[trigger] final(self).connections@[j].redux_stores@[k]
                                == stores[k]
                        &&& final(self).connections@[j].redux_stores@[si].instance_id
                            == stores[si].instance_id
                        &&& final(self).connections@[j].redux_stores@[si].name == stores[si].name
                        &&& final(self).connections@[j].redux_stores@[si].payload@ == payload@
                        &&& final(self).connections@[j].redux_stores@[si].timestamp == timestamp
                    } else {
                        final(self).connections@[j].redux_stores == conns[j].redux_stores
                    }
                } else {
                    final(self).connections@ == conns
                }
            }),
    {
        proof {
            lemma_conn_index(self.connections@, inspector_id@);
        }
        let j = match self.find_conn(inspector_id) {
            Some(j) => j,
            None => {
                return ;
            },
        };
        proof {
            lemma_store_index(self.connections@[j as int].redux_stores@, instance_id@);
        }
        let n = self.connections[j].redux_stores.len();
        let mut si: usize = 0;
        let ghost stores0 = self.connections@[j as int].redux_stores@;
        while si < n
            invariant
                manager_wf(*old(self)),
                j < self.connections@.len(),
                *self == *old(self),
                j as int == conn_index(old(self).connections@, inspector_id@),
                stores0 == self.connections@[j as int].redux_stores@,
                n == stores0.len(),
                si <= n,
                forall|k: int| 0 <= k < si ==> (#[trigger] stores0[k]).instance_id@ != instance_id@,
            decreases n - si,
        {
            if crate::text::str_eq(
                self.connections[j].redux_stores[si].instance_id.as_str(),
                instance_id,
            ) {
                proof {
                    lemma_store_index_at(stores0, instance_id@, si as int);
                }
                let entry = &mut self.connections[j];
                let store = &mut entry.redux_stores[si];
                store.payload = payload;
                store.timestamp = timestamp;
                proof {
                    assert forall|a: int, b: int|
                        0 <= a < b < self.connections@.len() implies !(pair_matches(
                        #[trigger] self.connections@[a],
                        opt_sview(self.connections@[b].device_id),
                        opt_sview((#[trigger] self.connections@[b]).app_name),
                    )) by {
                        if a != j {
                            assert(self.connections@[a] == old(self).connections@[a]);
                        }
                        if b != j {
                            assert(self.connections@[b] == old(self).connections@[b]);
                        }
                        assert(self.connections@[j as int].device_id == old(
                            self,
                        ).connections@[j as int].device_id);
                        assert(self.connections@[j as int].app_name == old(
                            self,
                        ).connections@[j as int].app_name);
                    }
                }
                return ;
            }
            si = si + 1;
        }
        proof {
            lemma_store_index(stores0, instance_id@);
            if store_index(stores0, instance_id@) != -1 {
                assert(stores0[store_index(stores0, instance_id@)].instance_id@ == instance_id@);
            }
        }
    }

    /// Insert or replace a snapshot, keyed by its instance id.
    pub fn store_redux_instance(&mut self, inspector_id: &str, store_info: ReduxStoreInstance)
        requires
            manager_wf(*old(self)),
        ensures
            manager_wf(*final(self)),
            ({
                let conns = old(self).connections@;
                let j = conn_index(conns, inspector_id@);
                if j >= 0 {
                    let stores = conns[j].redux_stores@;
                    let si = store_index(stores, store_info.instance_id@);
                    &&& final(self).connections@.len() == conns.len()
                    &&& forall|k: int|
                        0 <= k < conns.len() && k != j ==> #[trigger] final(self).connections@[k]
                            == conns[k]
                    &&& same_entry_except_stores(final(self).connections@[j], conns[j])
                    &&& if si >= 0 {
                        final(self).connections@[j].redux_stores@ == stores.update(si, store_info)
                    } else {
                        final(self).connections@[j].redux_stores@ == stores.push(store_info)
                    }
                } else {
                    final(self).connections@ == conns
                }
            }),
    {
        proof {
            lemma_conn_index(self.connections@, inspector_id@);
        }
        let j = match self.find_conn(inspector_id) {
            Some(j) => j,
            None => {
                return ;
            },
        };
        proof {
            lemma_store_index(
                self.connections@[j as int].redux_stores@,
                store_info.instance_id@,
            );
        }
        let n = self.connections[j].redux_stores.len();
        let mut si: usize = 0;
        let ghost stores0 = self.connections@[j as int].redux_stores@;
        while si < n
            invariant
                manager_wf(*old(self)),
                j < self.connections@.len(),
                *self == *old(self),
                j as int == conn_index(old(self).connections@, inspector_id@),
                stores0 == self.connections@[j as int].redux_stores@,
                n == stores0.len(),
                si <= n,
                forall|k: int|
                    0 <= k < si ==> (#[trigger] stores0[k]).instance_id@
                        != store_info.instance_id@,
            decreases n - si,
        {
            if crate::text::str_eq(
                self.connections[j].redux_stores[si].instance_id.as_str(),
                store_info.instance_id.as_str(),
            ) {
                proof {
                    lemma_store_index_at(stores0, store_info.instance_id@, si as int);
                }
                let entry = &mut self.connections[j];
                entry.redux_stores.set(si, store_info);
                proof {
                    assert forall|a: int, b: int|
                        0 <= a < b < self.connections@.len() implies !(pair_matches(
                        #[trigger] self.connections@[a],
                        opt_sview(self.connections@[b].device_id),
                        opt_sview((#[trigger] self.connections@[b]).app_name),
                    )) by {
                        if a != j {
                            assert(self.connections@[a] == old(self).connections@[a]);
                        }
                        if b != j {
                            assert(self.connections@[b] == old(self).connections@[b]);
                        }
                        assert(self.connections@[j as int].device_id == old(
                            self,
                        ).connections@[j as int].device_id);
                        assert(self.connections@[j as int].app_name == old(
                            self,
                        ).connections@[j as int].app_name);
                    }
                }
                return ;
            }
            si = si + 1;
        }
        proof {
            lemma_store_index(stores0, store_info.instance_id@);
            if store_index(stores0, store_info.instance_id@) != -1 {
                assert(stores0[store_index(stores0, store_info.instance_id@)].instance_id@
                    == store_info.instance_id@);
            }
        }
        let entry = &mut self.connections[j];
        entry.redux_stores.push(store_info);
    }

    /// The cached snapshots of one inspector, copied out.
    pub fn get_redux_stores(&self, inspector_id: &str) -> (r: Vec<ReduxStoreInstance>)
        ensures
            ({
                let j = conn_index(self.connections@, inspector_id@);
                if j >= 0 {
                    let stores = self.connections@[j].redux_stores@;
                    r@.len() == stores.len() && (forall|k: int|
                        0 <= k < stores.len() ==> (#[trigger] r@[k]).instance_id@
                            == stores[k].instance_id@ && r@[k].name@ == stores[k].name@
                            && r@[k].payload@ == stores[k].payload@ && r@[k].timestamp
                            == stores[k].timestamp)
                } else {
                    r@.len() == 0
                }
            }),
    {
        proof {
            lemma_conn_index(self.connections@, inspector_id@);
        }
        let j = match self.find_conn(inspector_id) {
            Some(j) => j,
            None => {
                return Vec::new();
            },
        };
        let stores = &self.connections[j].redux_stores;
        let n = stores.len();
        let mut out: Vec<ReduxStoreInstance> = Vec::new();
        let mut i: usize = 0;
        while i < n
            invariant
                j < self.connections@.len(),
                stores == &self.connections@[j as int].redux_stores,
                n == stores@.len(),
                i <= n,
                out@.len() == i,
                forall|k: int|
                    0 <= k < i ==> (#[trigger] out@[k]).instance_id@ == stores@[k].instance_id@
                        && out@[k].name@ == stores@[k].name@ && out@[k].payload@
                        == stores@[k].payload@ && out@[k].timestamp == stores@[k].timestamp,
            decreases n - i,
        {
            out.push(stores[i].clone_store());
            i = i + 1;
        }
        out
    }

    /// Empty the registry.
    pub fn clear_all_connections(&mut self)
        ensures
            final(self).connections@.len() == 0,
            manager_wf(*final(self)),
    {
        self.connections.clear();
    }
}

fn clone_opt(o: &Option<String>) -> (r: Option<String>)
    ensures
        opt_sview(r) == opt_sview(*o),
{
    match o {
        Some(s) => Some(s.clone()),
        None => None,
    }
}

/// Relies on `uuid::Uuid::new_v4` and its `simple` formatting: a fresh
/// version-4 UUID written as thirty-two hexadecimal characters.
#[verifier::external_body]
fn fresh_uuid_simple() -> (r: String)
    ensures
        r@.len() == 32,
{
    uuid::Uuid::new_v4().simple().to_string()
}

} // verus!
