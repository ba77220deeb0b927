use vstd::prelude::*;
use crate::api::AuthResponse;
use crate::auth_key::{AuthKey, AuthKeyStatus, AuthKeyView};
use crate::config::Config;
use crate::registry::{
    entry_of_host, has_host, lemma_registry_set_status, lemma_registry_upsert,
    spec_registry_set_status, spec_registry_upsert, Registry,
};
use crate::store::{has_row, lemma_store_upsert, row_of, spec_store_upsert, Store, StoreRowView};

verus! {

/// One observed status change, for delivery to subscribers.
pub struct ChangeEvent {
    pub host: String,
    pub status: AuthKeyStatus,
}

/// Mathematical image of a [`ChangeEvent`].
pub struct ChangeEventView {
    pub host: Seq<char>,
    pub status: AuthKeyStatus,
}

impl View for ChangeEvent {
    type V = ChangeEventView;

    open spec fn view(&self) -> ChangeEventView {
        ChangeEventView { host: self.host@, status: self.status }
    }
}

/// Decision for one available host during setup: a pairing request
/// must be issued exactly when the store holds no credential for
/// `(application, host)`.
pub fn needs_pairing(store: &Store, application: &String, host: &String) -> (b: bool)
    requires
        store.wf(),
    ensures
        b == !has_row(store@, application@, host@),
{
    match store.lookup(application, host) {
        Some(_) => false,
        None => true,
    }
}

/// Reconcile one available host during setup. A credential already in
/// the store is loaded into the registry as it stands; otherwise the
/// pairing result — if the caller obtained one — is registered and
/// persisted. Without either, nothing changes and the host waits for
/// the next cycle.
pub fn adopt_host(
    registry: &mut Registry,
    store: &mut Store,
    config: &Config,
    host: &String,
    pairing: Option<&AuthResponse>,
) -> (adopted: bool)
    requires
        old(registry).wf(),
        old(store).wf(),
    ensures
        final(registry).wf(),
        final(store).wf(),
        ({
            let app = config@.application;
            if has_row(old(store)@, app, host@) {
                let row = row_of(old(store)@, app, host@);
                &&& adopted
                &&& final(store)@ == old(store)@
                &&& final(registry)@ == spec_registry_upsert(
                    old(registry)@,
                    (AuthKeyView {
                        host: row.host,
                        id: row.appid,
                        key: row.appkey,
                        status: AuthKeyStatus::Pending,
                    }),
                )
            } else {
                match pairing {
                    Some(resp) => {
                        &&& adopted
                        &&& final(registry)@ == spec_registry_upsert(
                            old(registry)@,
                            (AuthKeyView {
                                host: host@,
                                id: resp.id@,
                                key: resp.key@,
                                status: AuthKeyStatus::Pending,
                            }),
                        )
                        &&& final(store)@ == spec_store_upsert(
                            old(store)@,
                            (StoreRowView {
                                appuser: config@.appuser,
                                application: app,
                                host: host@,
                                appid: resp.id@,
                                appkey: resp.key@,
                            }),
                        )
                    },
                    None => {
                        &&& !adopted
                        &&& final(registry)@ == old(registry)@
                        &&& final(store)@ == old(store)@
                    },
                }
            }
        }),
{
    let application = config.application();
    let found = match store.lookup(application, host) {
        Some(row) => Some(AuthKey::new(row.host.clone(), row.appid.clone(), row.appkey.clone())),
        None => None,
    };
    match found {
        Some(k) => {
            registry.upsert(k);
            true
        },
        None => {
            match pairing {
                Some(resp) => {
                    let k = AuthKey::new(host.clone(), resp.id.clone(), resp.key.clone());
                    registry.upsert(k);
                    store.upsert(
                        config.appuser().clone(),
                        application.clone(),
                        host.clone(),
                        resp.id.clone(),
                        resp.key.clone(),
                    );
                    true
                },
                None => false,
            }
        },
    }
}

/// Does `hosts` name `h`?
pub open spec fn names_host(hosts: Seq<String>, h: Seq<char>) -> bool {
    exists|i: int| 0 <= i < hosts.len() && hosts[i]@ == h
}

/// Are the named hosts pairwise distinct?
pub open spec fn distinct_hosts(hosts: Seq<String>) -> bool {
    forall|i: int, j: int| 0 <= i < j < hosts.len() ==> hosts[i]@ != hosts[j]@
}

/// The credential one setup pass owes an available host: the stored
/// one when the store already holds a row for it, else the freshly
/// paired one, else none. Either way it starts `Pending`: no check
/// has resolved for it in this run.
pub open spec fn spec_setup_entry(
    store0: Seq<StoreRowView>,
    app: Seq<char>,
    h: Seq<char>,
    pairing: Option<AuthResponse>,
) -> Option<AuthKeyView> {
    if has_row(store0, app, h) {
        let row = row_of(store0, app, h);
        Some(
            AuthKeyView {
                host: row.host,
                id: row.appid,
                key: row.appkey,
                status: AuthKeyStatus::Pending,
            },
        )
    } else {
        match pairing {
            Some(p) => Some(
                AuthKeyView { host: h, id: p.id@, key: p.key@, status: AuthKeyStatus::Pending },
            ),
            None => None,
        }
    }
}

/// The store row one setup pass owes an available host's key: the
/// one already there, else the freshly paired one, else none.
pub open spec fn spec_setup_row(
    store0: Seq<StoreRowView>,
    app: Seq<char>,
    user: Seq<char>,
    h: Seq<char>,
    pairing: Option<AuthResponse>,
) -> Option<StoreRowView> {
    if has_row(store0, app, h) {
        Some(row_of(store0, app, h))
    } else {
        match pairing {
            Some(p) => Some(
                (StoreRowView {
                    appuser: user,
                    application: app,
                    host: h,
                    appid: p.id@,
                    appkey: p.key@,
                }),
            ),
            None => None,
        }
    }
}

/// One full setup pass over the cycle's available hosts, starting
/// from an empty registry.
///
/// Law: afterwards every available host holds exactly one credential
/// in the registry when its stored row or its pairing was there — the
/// stored one, else the paired one, `Pending` either way — and none
/// when both were missing; no other host holds any; every freshly
/// paired credential stands in the store under its key; and no other
/// store key is touched. Well-formedness (never two credentials for
/// one host, never two rows for one key) is preserved throughout.
pub fn setup_pass(
    registry: &mut Registry,
    store: &mut Store,
    config: &Config,
    available: &Vec<String>,
    pairings: &Vec<Option<AuthResponse>>,
)
    requires
        old(registry).wf(),
        old(registry)@.len() == 0,
        old(store).wf(),
        available@.len() == pairings@.len(),
        distinct_hosts(available@),
    ensures
        final(registry).wf(),
        final(store).wf(),
        forall|j: int|
            0 <= j < available@.len() ==> match #[trigger] spec_setup_entry(
                old(store)@,
                config@.application,
                available@[j]@,
                pairings@[j],
            ) {
                Some(k) => has_host(final(registry)@, available@[j]@) && entry_of_host(
                    final(registry)@,
                    available@[j]@,
                ) == k,
                None => !has_host(final(registry)@, available@[j]@),
            },
        forall|h: Seq<char>| !names_host(available@, h) ==> !has_host(final(registry)@, h),
        forall|j: int|
            0 <= j < available@.len() ==> match #[trigger] spec_setup_row(
                old(store)@,
                config@.application,
                config@.appuser,
                available@[j]@,
                pairings@[j],
            ) {
                Some(r) => has_row(final(store)@, config@.application, available@[j]@) && row_of(
                    final(store)@,
                    config@.application,
                    available@[j]@,
                ) == r,
                None => !has_row(final(store)@, config@.application, available@[j]@),
            },
        forall|a: Seq<char>, h: Seq<char>|
            !(a == config@.application && names_host(available@, h)) ==> (has_row(
                final(store)@,
                a,
                h,
            ) <==> has_row(old(store)@, a, h)) && (has_row(old(store)@, a, h) ==> row_of(
                final(store)@,
                a,
                h,
            ) == row_of(old(store)@, a, h)),
{
    let ghost app = config@.application;
    let ghost user = config@.appuser;
    let ghost st0 = old(store)@;
    let mut i: usize = 0;
    proof {
        assert(available@.take(0) =~= Seq::<String>::empty());
    }
    while i < available.len()
        invariant
            i <= available@.len(),
            available@.len() == pairings@.len(),
            distinct_hosts(available@),
            app == config@.application,
            user == config@.appuser,
            st0 == old(store)@,
            registry.wf(),
            store.wf(),
            forall|j: int|
                0 <= j < i ==> match #[trigger] spec_setup_entry(st0, app, available@[j]@, pairings@[j]) {
                    Some(k) => has_host(registry@, available@[j]@) && entry_of_host(
                        registry@,
                        available@[j]@,
                    ) == k,
                    None => !has_host(registry@, available@[j]@),
                },
            forall|h: Seq<char>|
                !names_host(available@.take(i as int), h) ==> !has_host(registry@, h),
            forall|j: int|
                0 <= j < i ==> match #[trigger] spec_setup_row(st0, app, user, available@[j]@, pairings@[j]) {
                    Some(r) => has_row(store@, app, available@[j]@) && row_of(
                        store@,
                        app,
                        available@[j]@,
                    ) == r,
                    None => !has_row(store@, app, available@[j]@),
                },
            forall|a: Seq<char>, h: Seq<char>|
                !(a == app && names_host(available@.take(i as int), h)) ==> (has_row(store@, a, h)
                    <==> has_row(st0, a, h)) && (has_row(st0, a, h) ==> row_of(store@, a, h)
                    == row_of(st0, a, h)),
        decreases available@.len() - i,
    {
        let host_ref = &available[i];
        let ghost h = available@[i as int]@;
        let ghost reg_pre = registry@;
        let ghost store_pre = store@;
        proof {
            assert(!names_host(available@.take(i as int), h)) by {
                if names_host(available@.take(i as int), h) {
                    let j = choose|j: int|
                        0 <= j < available@.take(i as int).len() && (#[trigger] available@.take(
                            i as int,
                        )[j])@ == h;
                    assert(available@[j]@ == h);
                    assert(available@[j]@ != available@[i as int]@);
                }
            }
            assert(has_row(store_pre, app, h) <==> has_row(st0, app, h));
            if has_row(st0, app, h) {
                assert(row_of(store_pre, app, h) == row_of(st0, app, h));
            }
        }
        match &pairings[i] {
            Some(resp) => {
                proof {
                    assert(pairings@[i as int] == Some(*resp));
                }
                adopt_host(registry, store, config, host_ref, Some(resp));
            },
            None => {
                adopt_host(registry, store, config, host_ref, None);
            },
        };
        proof {
            let pairing_i = pairings@[i as int];
            if has_row(st0, app, h) {
                let c = crate::store::index_of_row(st0, app, h);
                assert(0 <= c < st0.len() && st0[c].application == app && st0[c].host == h);
                let row = row_of(st0, app, h);
                assert(row.host == h);
                let k = AuthKeyView {
                    host: row.host,
                    id: row.appid,
                    key: row.appkey,
                    status: AuthKeyStatus::Pending,
                };
                assert(store@ == store_pre);
                assert(registry@ == spec_registry_upsert(reg_pre, k));
                lemma_registry_upsert(reg_pre, k);
            } else if pairing_i is Some {
                let p = pairing_i->0;
                let k = AuthKeyView {
                    host: h,
                    id: p.id@,
                    key: p.key@,
                    status: AuthKeyStatus::Pending,
                };
                let rv = StoreRowView {
                    appuser: user,
                    application: app,
                    host: h,
                    appid: p.id@,
                    appkey: p.key@,
                };
                assert(registry@ == spec_registry_upsert(reg_pre, k));
                assert(store@ == spec_store_upsert(store_pre, rv));
                lemma_registry_upsert(reg_pre, k);
                lemma_store_upsert(store_pre, rv);
            } else {
                assert(registry@ == reg_pre);
                assert(store@ == store_pre);
            }
            assert(available@.take(i as int + 1)[i as int]@ == h);
            assert forall|hx: Seq<char>|
                names_host(available@.take(i as int), hx) implies names_host(
                available@.take(i as int + 1),
                hx,
            ) by {
                let j = choose|j: int|
                    0 <= j < available@.take(i as int).len() && (#[trigger] available@.take(
                        i as int,
                    )[j])@ == hx;
                assert(available@.take(i as int + 1)[j]@ == hx);
            }
            assert forall|hx: Seq<char>|
                names_host(available@.take(i as int + 1), hx) && hx != h implies names_host(
                available@.take(i as int),
                hx,
            ) by {
                let j = choose|j: int|
                    0 <= j < available@.take(i as int + 1).len() && (#[trigger] available@.take(
                        i as int + 1,
                    )[j])@ == hx;
                if j < i {
                    assert(available@.take(i as int)[j]@ == hx);
                }
            }
            assert forall|hx: Seq<char>|
                !names_host(available@.take(i as int + 1), hx) implies !has_host(
                registry@,
                hx,
            ) by {
                assert(available@.take(i as int + 1)[i as int]@ == h);
                assert(names_host(available@.take(i as int + 1), h));
                assert(hx != h);
                if names_host(available@.take(i as int), hx) {
                    assert(names_host(available@.take(i as int + 1), hx));
                }
                assert(!has_host(reg_pre, hx));
            }
            assert forall|j: int| 0 <= j < i + 1 implies match #[trigger] spec_setup_entry(
                st0,
                app,
                available@[j]@,
                pairings@[j],
            ) {
                Some(k) => has_host(registry@, available@[j]@) && entry_of_host(
                    registry@,
                    available@[j]@,
                ) == k,
                None => !has_host(registry@, available@[j]@),
            } by {
                if j < i {
                    assert(available@[j]@ != h);
                } else {
                    assert(!names_host(available@.take(i as int), h));
                }
            }
            assert forall|j: int| 0 <= j < i + 1 implies match #[trigger] spec_setup_row(
                st0,
                app,
                user,
                available@[j]@,
                pairings@[j],
            ) {
                Some(r) => has_row(store@, app, available@[j]@) && row_of(
                    store@,
                    app,
                    available@[j]@,
                ) == r,
                None => !has_row(store@, app, available@[j]@),
            } by {
                if j < i {
                    assert(available@[j]@ != h);
                }
            }
        }
        i = i + 1;
    }
    proof {
        assert(available@.take(available@.len() as int) =~= available@);
    }
}

/// The `(host, id)` pairs one polling cycle must check: one per
/// registry credential, in registry order.
pub fn check_targets(registry: &Registry) -> (targets: Vec<(String, String)>)
    ensures
        targets@.len() == registry@.len(),
        forall|i: int|
            0 <= i < targets@.len() ==> targets@[i].0@ == registry@[i].host && targets@[i].1@
                == registry@[i].id,
{
    let mut targets: Vec<(String, String)> = Vec::new();
    let mut i: usize = 0;
    while i < registry.len()
        invariant
            i <= registry@.len(),
            targets@.len() == i,
            forall|j: int|
                0 <= j < i ==> targets@[j].0@ == registry@[j].host && targets@[j].1@
                    == registry@[j].id,
        decreases registry@.len() - i,
    {
        let k = registry.index(i);
        targets.push((k.host().clone(), k.id().clone()));
        i = i + 1;
    }
    targets
}

/// Apply one check result: overwrite the host's status with the
/// latest observed one and report the change event to publish —
/// exactly one when the host holds a credential whose status actually
/// changed, none otherwise.
pub fn apply_check_result(
    registry: &mut Registry,
    host: &String,
    status: AuthKeyStatus,
) -> (evt: Option<ChangeEvent>)
    requires
        old(registry).wf(),
    ensures
        final(registry).wf(),
        final(registry)@ == spec_registry_set_status(old(registry)@, host@, status),
        match evt {
            Some(e) => has_host(old(registry)@, host@) && entry_of_host(
                old(registry)@,
                host@,
            ).status != status && e@ == (ChangeEventView { host: host@, status }),
            None => !has_host(old(registry)@, host@) || entry_of_host(
                old(registry)@,
                host@,
            ).status == status,
        },
{
    match registry.set_status(host, status) {
        Some(prior) => if prior != status {
            Some(ChangeEvent { host: host.clone(), status })
        } else {
            None
        },
        None => None,
    }
}

/// The registry after a cycle's check results are applied in order.
pub open spec fn spec_apply_results(
    s: Seq<AuthKeyView>,
    results: Seq<(String, AuthKeyStatus)>,
) -> Seq<AuthKeyView>
    decreases results.len(),
{
    if results.len() == 0 {
        s
    } else {
        spec_apply_results(
            spec_registry_set_status(s, results[0].0@, results[0].1),
            results.skip(1),
        )
    }
}

/// The change events a cycle publishes: exactly one per check result
/// that found its host with a different status, in result order.
pub open spec fn spec_cycle_events(
    s: Seq<AuthKeyView>,
    results: Seq<(String, AuthKeyStatus)>,
) -> Seq<ChangeEventView>
    decreases results.len(),
{
    if results.len() == 0 {
        Seq::empty()
    } else {
        let h = results[0].0@;
        let st = results[0].1;
        let rest = spec_cycle_events(spec_registry_set_status(s, h, st), results.skip(1));
        if has_host(s, h) && entry_of_host(s, h).status != st {
            seq![ChangeEventView { host: h, status: st }] + rest
        } else {
            rest
        }
    }
}

/// One steady-cycle reduce: apply every check result of the cycle to
/// the registry, in order, and hand back the change events to
/// publish. A host that reported nothing this cycle simply does not
/// appear in `results` and keeps its prior state.
pub fn loop_step(registry: &mut Registry, results: &Vec<(String, AuthKeyStatus)>) -> (events: Vec<
    ChangeEvent,
>)
    requires
        old(registry).wf(),
    ensures
        final(registry).wf(),
        final(registry)@ == spec_apply_results(old(registry)@, results@),
        events@.map_values(|e: ChangeEvent| e@) == spec_cycle_events(old(registry)@, results@),
{
    let ghost s0 = old(registry)@;
    let mut events: Vec<ChangeEvent> = Vec::new();
    let mut i: usize = 0;
    proof {
        assert(results@.skip(0) =~= results@);
        assert(events@.map_values(|e: ChangeEvent| e@) =~= Seq::<ChangeEventView>::empty());
        assert(Seq::<ChangeEventView>::empty() + spec_cycle_events(registry@, results@)
            =~= spec_cycle_events(registry@, results@));
    }
    while i < results.len()
        invariant
            i <= results@.len(),
            registry.wf(),
            s0 == old(registry)@,
            spec_apply_results(s0, results@) == spec_apply_results(
                registry@,
                results@.skip(i as int),
            ),
            spec_cycle_events(s0, results@) == events@.map_values(|e: ChangeEvent| e@)
                + spec_cycle_events(registry@, results@.skip(i as int)),
        decreases results@.len() - i,
    {
        let ghost reg_pre = registry@;
        let ghost evs_pre = events@;
        let r = &results[i];
        let evt = apply_check_result(registry, &r.0, r.1);
        proof {
            let rem = results@.skip(i as int);
            assert(rem[0] == results@[i as int]);
            assert(rem.skip(1) =~= results@.skip(i as int + 1));
            lemma_registry_set_status(reg_pre, results@[i as int].0@, results@[i as int].1);
        }
        match evt {
            Some(e) => {
                events.push(e);
                proof {
                    assert(events@.map_values(|e2: ChangeEvent| e2@) =~= evs_pre.map_values(
                        |e2: ChangeEvent| e2@,
                    ) + seq![
                        ChangeEventView {
                            host: results@[i as int].0@,
                            status: results@[i as int].1,
                        },
                    ]);
                    assert(spec_cycle_events(s0, results@) =~= events@.map_values(
                        |e2: ChangeEvent| e2@,
                    ) + spec_cycle_events(registry@, results@.skip(i as int + 1)));
                }
            },
            None => {
                proof {
                    assert(spec_cycle_events(s0, results@) =~= events@.map_values(
                        |e2: ChangeEvent| e2@,
                    ) + spec_cycle_events(registry@, results@.skip(i as int + 1)));
                }
            },
        }
        i = i + 1;
    }
    proof {
        assert(results@.skip(results@.len() as int) =~= Seq::<(String, AuthKeyStatus)>::empty());
        assert(spec_cycle_events(registry@, results@.skip(results@.len() as int))
            =~= Seq::<ChangeEventView>::empty());
        assert(events@.map_values(|e: ChangeEvent| e@) + Seq::<ChangeEventView>::empty()
            =~= events@.map_values(|e: ChangeEvent| e@));
    }
    events
}

} // verus!
