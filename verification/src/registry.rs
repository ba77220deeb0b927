use vstd::prelude::*;
use crate::auth_key::{AuthKey, AuthKeyStatus, AuthKeyView};

verus! {

/// Is some credential for `host` present?
pub open spec fn has_host(s: Seq<AuthKeyView>, host: Seq<char>) -> bool {
    exists|i: int| 0 <= i < s.len() && s[i].host == host
}

/// The position of the credential for `host` (unique when the
/// registry is well-formed).
pub open spec fn index_of_host(s: Seq<AuthKeyView>, host: Seq<char>) -> int {
    choose|i: int| 0 <= i < s.len() && s[i].host == host
}

/// The credential for `host`.
pub open spec fn entry_of_host(s: Seq<AuthKeyView>, host: Seq<char>) -> AuthKeyView {
    s[index_of_host(s, host)]
}

/// Well-formed: never two credentials for the same host.
pub open spec fn registry_wf(s: Seq<AuthKeyView>) -> bool {
    forall|i: int, j: int| 0 <= i < j < s.len() ==> s[i].host != s[j].host
}

/// Law: a well-formed registry never holds two credentials for one
/// host — any two positions naming the same host coincide, so a host
/// that has a credential has exactly one.
pub proof fn lemma_one_credential_per_host(s: Seq<AuthKeyView>, i: int, j: int)
    requires
        registry_wf(s),
        0 <= i < s.len(),
        0 <= j < s.len(),
        s[i].host == s[j].host,
    ensures
        i == j,
{
}

/// What an upsert leaves behind: the host's one credential replaced
/// in place, or the new credential appended when the host is new.
pub open spec fn spec_registry_upsert(s: Seq<AuthKeyView>, k: AuthKeyView) -> Seq<AuthKeyView> {
    if has_host(s, k.host) {
        s.update(index_of_host(s, k.host), k)
    } else {
        s.push(k)
    }
}

/// What a status write leaves behind: the host's credential with the
/// new status, or everything unchanged when the host has none.
pub open spec fn spec_registry_set_status(
    s: Seq<AuthKeyView>,
    host: Seq<char>,
    status: AuthKeyStatus,
) -> Seq<AuthKeyView> {
    if has_host(s, host) {
        let i = index_of_host(s, host);
        s.update(i, AuthKeyView { status, ..s[i] })
    } else {
        s
    }
}

/// An upsert keeps the registry well-formed, gives the credential's
/// host exactly that credential, and touches no other host.
pub proof fn lemma_registry_upsert(s: Seq<AuthKeyView>, k: AuthKeyView)
    requires
        registry_wf(s),
    ensures
        registry_wf(spec_registry_upsert(s, k)),
        has_host(spec_registry_upsert(s, k), k.host),
        entry_of_host(spec_registry_upsert(s, k), k.host) == k,
        forall|h: Seq<char>|
            h != k.host ==> (has_host(spec_registry_upsert(s, k), h) <==> has_host(s, h)),
        forall|h: Seq<char>|
            h != k.host && has_host(s, h) ==> entry_of_host(spec_registry_upsert(s, k), h)
                == entry_of_host(s, h),
{
    let t = spec_registry_upsert(s, k);
    if has_host(s, k.host) {
        let i = index_of_host(s, k.host);
        assert(0 <= i < s.len() && s[i].host == k.host);
        assert forall|h: Seq<char>| h != k.host && has_host(s, h) implies has_host(t, h)
            && entry_of_host(t, h) == entry_of_host(s, h) by {
            let j = index_of_host(s, h);
            assert(0 <= j < s.len() && s[j].host == h);
            assert(t[j] == s[j]);
            let j2 = index_of_host(t, h);
            assert(0 <= j2 < t.len() && t[j2].host == h);
            assert(t[j2] == s[j2]);
        }
        assert forall|h: Seq<char>| h != k.host && has_host(t, h) implies has_host(s, h) by {
            let j = index_of_host(t, h);
            assert(s[j].host == h);
        }
        let i2 = index_of_host(t, k.host);
        assert(0 <= i2 < t.len() && t[i2].host == k.host);
        assert(i2 == i);
    } else {
        assert(t == s.push(k));
        assert forall|h: Seq<char>| h != k.host && has_host(s, h) implies has_host(t, h)
            && entry_of_host(t, h) == entry_of_host(s, h) by {
            let j = index_of_host(s, h);
            assert(t[j] == s[j]);
            let j2 = index_of_host(t, h);
            assert(j2 < s.len());
            assert(t[j2] == s[j2]);
        }
        assert forall|h: Seq<char>| h != k.host && has_host(t, h) implies has_host(s, h) by {
            let j = index_of_host(t, h);
            assert(j < s.len());
            assert(s[j].host == h);
        }
        let i2 = index_of_host(t, k.host);
        assert(t[s.len() as int] == k);
        assert(0 <= i2 < t.len() && t[i2].host == k.host);
        assert(i2 == s.len());
    }
}

/// A status write keeps the registry well-formed, changes only the
/// status of the host's credential, and touches no other host.
pub proof fn lemma_registry_set_status(s: Seq<AuthKeyView>, host: Seq<char>, status: AuthKeyStatus)
    requires
        registry_wf(s),
    ensures
        registry_wf(spec_registry_set_status(s, host, status)),
        spec_registry_set_status(s, host, status).len() == s.len(),
        forall|h: Seq<char>|
            has_host(spec_registry_set_status(s, host, status), h) <==> has_host(s, h),
        has_host(s, host) ==> entry_of_host(spec_registry_set_status(s, host, status), host)
            == (AuthKeyView { status, ..entry_of_host(s, host) }),
        forall|h: Seq<char>|
            h != host && has_host(s, h) ==> entry_of_host(
                spec_registry_set_status(s, host, status),
                h,
            ) == entry_of_host(s, h),
{
    let t = spec_registry_set_status(s, host, status);
    if has_host(s, host) {
        let i = index_of_host(s, host);
        assert(0 <= i < s.len() && s[i].host == host);
        assert(forall|j: int| 0 <= j < t.len() ==> t[j].host == s[j].host);
        assert forall|h: Seq<char>| has_host(s, h) implies has_host(t, h) by {
            let j = index_of_host(s, h);
            assert(t[j].host == h);
        }
        assert forall|h: Seq<char>| has_host(t, h) implies has_host(s, h) by {
            let j = index_of_host(t, h);
            assert(s[j].host == h);
        }
        let i2 = index_of_host(t, host);
        assert(0 <= i2 < t.len() && t[i2].host == host);
        assert(i2 == i);
        assert forall|h: Seq<char>| h != host && has_host(s, h) implies entry_of_host(t, h)
            == entry_of_host(s, h) by {
            let j = index_of_host(s, h);
            let j2 = index_of_host(t, h);
            assert(s[j2].host == h);
            assert(j2 == j);
            assert(t[j] == s[j]);
        }
    }
}

/// In-memory authoritative collection of all known credentials, one
/// per host. Concurrent workers hand their results to the single
/// owner of this value; every mutation goes through it.
pub struct Registry {
    entries: Vec<AuthKey>,
}

impl View for Registry {
    type V = Seq<AuthKeyView>;

    closed spec fn view(&self) -> Seq<AuthKeyView> {
        self.entries@.map_values(|k: AuthKey| k@)
    }
}

impl Registry {
    pub open spec fn wf(&self) -> bool {
        registry_wf(self@)
    }

    pub fn new() -> (r: Registry)
        ensures
            r@ == Seq::<AuthKeyView>::empty(),
            r.wf(),
    {
        let r = Registry { entries: Vec::new() };
        proof {
            assert(r@ =~= Seq::<AuthKeyView>::empty());
        }
        r
    }

    pub fn len(&self) -> (n: usize)
        ensures
            n == self@.len(),
    {
        self.entries.len()
    }

    /// The credential at one position of the snapshot.
    pub fn index(&self, i: usize) -> (k: &AuthKey)
        requires
            i < self@.len(),
        ensures
            k@ == self@[i as int],
    {
        &self.entries[i]
    }

    /// Snapshot of all credentials, in insertion order.
    pub fn all(&self) -> (ks: &Vec<AuthKey>)
        ensures
            ks@.map_values(|k: AuthKey| k@) == self@,
    {
        &self.entries
    }

    /// The host's credential, if the registry holds one.
    pub fn lookup(&self, host: &String) -> (r: Option<&AuthKey>)
        requires
            self.wf(),
        ensures
            match r {
                Some(k) => has_host(self@, host@) && k@ == entry_of_host(self@, host@),
                None => !has_host(self@, host@),
            },
    {
        let mut i: usize = 0;
        while i < self.entries.len()
            invariant
                i <= self@.len(),
                self@.len() == self.entries@.len(),
                self.wf(),
                forall|j: int| 0 <= j < i ==> self@[j].host != host@,
            decreases self@.len() - i,
        {
            if *self.entries[i].host() == *host {
                proof {
                    assert(self@[i as int].host == host@);
                    let c = index_of_host(self@, host@);
                    assert(0 <= c < self@.len() && self@[c].host == host@);
                    assert(c == i as int);
                }
                return Some(&self.entries[i]);
            }
            i = i + 1;
        }
        None
    }

    /// Insert the credential, or replace the host's existing one, so
    /// that the host holds exactly this credential afterwards.
    pub fn upsert(&mut self, k: AuthKey)
        requires
            old(self).wf(),
        ensures
            final(self).wf(),
            final(self)@ == spec_registry_upsert(old(self)@, k@),
    {
        proof {
            lemma_registry_upsert(old(self)@, k@);
        }
        let ghost s0 = self@;
        let mut i: usize = 0;
        while i < self.entries.len()
            invariant
                i <= self@.len(),
                self@.len() == self.entries@.len(),
                self@ == s0,
                s0 == old(self)@,
                registry_wf(s0),
                forall|j: int| 0 <= j < i ==> self@[j].host != k@.host,
            decreases self@.len() - i,
        {
            if *self.entries[i].host() == *k.host() {
                proof {
                    assert(s0[i as int].host == k@.host);
                    let c = index_of_host(s0, k@.host);
                    assert(0 <= c < s0.len() && s0[c].host == k@.host);
                    assert(c == i as int);
                }
                self.entries[i] = k;
                proof {
                    lemma_registry_upsert(s0, k@);
                    assert(self@ =~= s0.update(i as int, k@));
                }
                return ;
            }
            i = i + 1;
        }
        proof {
            assert(!has_host(s0, k@.host));
        }
        self.entries.push(k);
        proof {
            assert(self@ =~= s0.push(k@));
        }
    }

    /// Overwrite the status of the host's credential with the latest
    /// observed one and report the prior status, or report `None` and
    /// change nothing when the host has no credential.
    pub fn set_status(&mut self, host: &String, status: AuthKeyStatus) -> (prior: Option<
        AuthKeyStatus,
    >)
        requires
            old(self).wf(),
        ensures
            final(self).wf(),
            final(self)@ == spec_registry_set_status(old(self)@, host@, status),
            match prior {
                Some(p) => has_host(old(self)@, host@) && p == entry_of_host(
                    old(self)@,
                    host@,
                ).status,
                None => !has_host(old(self)@, host@),
            },
    {
        proof {
            lemma_registry_set_status(old(self)@, host@, status);
        }
        let ghost s0 = self@;
        let mut i: usize = 0;
        while i < self.entries.len()
            invariant
                i <= self@.len(),
                self@.len() == self.entries@.len(),
                self@ == s0,
                s0 == old(self)@,
                registry_wf(s0),
                forall|j: int| 0 <= j < i ==> self@[j].host != host@,
            decreases self@.len() - i,
        {
            if *self.entries[i].host() == *host {
                proof {
                    assert(s0[i as int].host == host@);
                    let c = index_of_host(s0, host@);
                    assert(0 <= c < s0.len() && s0[c].host == host@);
                    assert(c == i as int);
                }
                let prior = self.entries[i].status();
                let entry = &mut self.entries[i];
                entry.set_status(status);
                proof {
                    lemma_registry_set_status(s0, host@, status);
                    assert(self@ =~= s0.update(
                        i as int,
                        AuthKeyView { status, ..s0[i as int] },
                    ));
                }
                return Some(prior);
            }
            i = i + 1;
        }
        proof {
            assert(!has_host(s0, host@));
        }
        None
    }
}

} // verus!
