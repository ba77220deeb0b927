use vstd::prelude::*;

verus! {

/// One durable row of the credential table
/// `auth(appuser, application, host, appid, appkey)`.
pub struct StoreRow {
    pub appuser: String,
    pub application: String,
    pub host: String,
    pub appid: String,
    pub appkey: String,
}

/// Mathematical image of a [`StoreRow`].
pub struct StoreRowView {
    pub appuser: Seq<char>,
    pub application: Seq<char>,
    pub host: Seq<char>,
    pub appid: Seq<char>,
    pub appkey: Seq<char>,
}

impl View for StoreRow {
    type V = StoreRowView;

    open spec fn view(&self) -> StoreRowView {
        StoreRowView {
            appuser: self.appuser@,
            application: self.application@,
            host: self.host@,
            appid: self.appid@,
            appkey: self.appkey@,
        }
    }
}

/// Is a row for `(application, host)` present?
pub open spec fn has_row(s: Seq<StoreRowView>, application: Seq<char>, host: Seq<char>) -> bool {
    exists|i: int| 0 <= i < s.len() && s[i].application == application && s[i].host == host
}

/// The position of the `(application, host)` row (unique when the
/// store is well-formed).
pub open spec fn index_of_row(s: Seq<StoreRowView>, application: Seq<char>, host: Seq<char>) -> int {
    choose|i: int| 0 <= i < s.len() && s[i].application == application && s[i].host == host
}

/// The `(application, host)` row.
pub open spec fn row_of(
    s: Seq<StoreRowView>,
    application: Seq<char>,
    host: Seq<char>,
) -> StoreRowView {
    s[index_of_row(s, application, host)]
}

/// Well-formed: the `(application, host)` uniqueness constraint —
/// never two rows with the same key.
pub open spec fn store_wf(s: Seq<StoreRowView>) -> bool {
    forall|i: int, j: int|
        0 <= i < j < s.len() ==> !(s[i].application == s[j].application && s[i].host == s[j].host)
}

/// What an upsert leaves behind: the key's one row overwritten in
/// place, or the new row appended when the key is new.
pub open spec fn spec_store_upsert(s: Seq<StoreRowView>, r: StoreRowView) -> Seq<StoreRowView> {
    if has_row(s, r.application, r.host) {
        s.update(index_of_row(s, r.application, r.host), r)
    } else {
        s.push(r)
    }
}

/// An upsert keeps the store well-formed, gives the row's key exactly
/// that row, touches no other key, and adds a row only for a new key.
pub proof fn lemma_store_upsert(s: Seq<StoreRowView>, r: StoreRowView)
    requires
        store_wf(s),
    ensures
        store_wf(spec_store_upsert(s, r)),
        has_row(spec_store_upsert(s, r), r.application, r.host),
        row_of(spec_store_upsert(s, r), r.application, r.host) == r,
        spec_store_upsert(s, r).len() == if has_row(s, r.application, r.host) {
            s.len()
        } else {
            s.len() + 1
        },
        forall|a: Seq<char>, h: Seq<char>|
            !(a == r.application && h == r.host) ==> (has_row(spec_store_upsert(s, r), a, h)
                <==> has_row(s, a, h)),
        forall|a: Seq<char>, h: Seq<char>|
            !(a == r.application && h == r.host) && has_row(s, a, h) ==> row_of(
                spec_store_upsert(s, r),
                a,
                h,
            ) == row_of(s, a, h),
{
    let t = spec_store_upsert(s, r);
    if has_row(s, r.application, r.host) {
        let i = index_of_row(s, r.application, r.host);
        assert(0 <= i < s.len() && s[i].application == r.application && s[i].host == r.host);
        assert forall|a: Seq<char>, h: Seq<char>|
            !(a == r.application && h == r.host) && has_row(s, a, h) implies has_row(t, a, h)
            && row_of(t, a, h) == row_of(s, a, h) by {
            let j = index_of_row(s, a, h);
            assert(t[j] == s[j]);
            let j2 = index_of_row(t, a, h);
            assert(0 <= j2 < t.len() && t[j2].application == a && t[j2].host == h);
            assert(t[j2] == s[j2]);
        }
        assert forall|a: Seq<char>, h: Seq<char>|
            !(a == r.application && h == r.host) && has_row(t, a, h) implies has_row(s, a, h) by {
            let j = index_of_row(t, a, h);
            assert(s[j].application == a && s[j].host == h);
        }
        assert(t[i] == r);
        assert(has_row(t, r.application, r.host));
        let i2 = index_of_row(t, r.application, r.host);
        assert(0 <= i2 < t.len() && t[i2].application == r.application && t[i2].host == r.host);
        assert(i2 == i);
    } else {
        assert(t == s.push(r));
        assert forall|a: Seq<char>, h: Seq<char>|
            !(a == r.application && h == r.host) && has_row(s, a, h) implies has_row(t, a, h)
            && row_of(t, a, h) == row_of(s, a, h) by {
            let j = index_of_row(s, a, h);
            assert(t[j] == s[j]);
            let j2 = index_of_row(t, a, h);
            assert(j2 < s.len());
            assert(t[j2] == s[j2]);
        }
        assert forall|a: Seq<char>, h: Seq<char>|
            !(a == r.application && h == r.host) && has_row(t, a, h) implies has_row(s, a, h) by {
            let j = index_of_row(t, a, h);
            assert(j < s.len());
            assert(s[j].application == a && s[j].host == h);
        }
        assert(t[s.len() as int] == r);
        assert(has_row(t, r.application, r.host));
        let i2 = index_of_row(t, r.application, r.host);
        assert(0 <= i2 < t.len() && t[i2].application == r.application && t[i2].host == r.host);
        assert(i2 == s.len());
    }
}

/// Law (idempotent overwrite): upserting the same `(application,
/// host)` key twice leaves exactly one row for that key — at every
/// position where the key appears stands the second call's row — and
/// the second call never grows the table.
pub proof fn lemma_upsert_idempotent(s: Seq<StoreRowView>, r1: StoreRowView, r2: StoreRowView)
    requires
        store_wf(s),
        r1.application == r2.application,
        r1.host == r2.host,
    ensures
        ({
            let once = spec_store_upsert(s, r1);
            let twice = spec_store_upsert(once, r2);
            &&& store_wf(twice)
            &&& has_row(twice, r2.application, r2.host)
            &&& row_of(twice, r2.application, r2.host) == r2
            &&& twice.len() == once.len()
            &&& forall|j: int|
                0 <= j < twice.len() && twice[j].application == r2.application && twice[j].host
                    == r2.host ==> twice[j] == r2
        }),
{
    lemma_store_upsert(s, r1);
    let once = spec_store_upsert(s, r1);
    lemma_store_upsert(once, r2);
    let twice = spec_store_upsert(once, r2);
    assert forall|j: int|
        0 <= j < twice.len() && twice[j].application == r2.application && twice[j].host == r2.host
        implies twice[j] == r2 by {
        let i = index_of_row(twice, r2.application, r2.host);
        assert(0 <= i < twice.len() && twice[i].application == r2.application && twice[i].host
            == r2.host);
        if j != i {
            assert(!(twice[i].application == twice[j].application && twice[i].host
                == twice[j].host));
        }
    }
}

/// In-memory model of the durable credential table. The verified
/// logic reads and writes this value; mirroring it to the persistence
/// engine row for row happens outside the library.
pub struct Store {
    rows: Vec<StoreRow>,
}

impl View for Store {
    type V = Seq<StoreRowView>;

    closed spec fn view(&self) -> Seq<StoreRowView> {
        self.rows@.map_values(|r: StoreRow| r@)
    }
}

impl Store {
    pub open spec fn wf(&self) -> bool {
        store_wf(self@)
    }

    pub fn new() -> (st: Store)
        ensures
            st@ == Seq::<StoreRowView>::empty(),
            st.wf(),
    {
        let st = Store { rows: Vec::new() };
        proof {
            assert(st@ =~= Seq::<StoreRowView>::empty());
        }
        st
    }

    pub fn len(&self) -> (n: usize)
        ensures
            n == self@.len(),
    {
        self.rows.len()
    }

    /// The row at one position of the table.
    pub fn index(&self, i: usize) -> (r: &StoreRow)
        requires
            i < self@.len(),
        ensures
            r@ == self@[i as int],
    {
        &self.rows[i]
    }

    /// The `(application, host)` row, if the table holds one.
    pub fn lookup(&self, application: &String, host: &String) -> (r: Option<&StoreRow>)
        requires
            self.wf(),
        ensures
            match r {
                Some(row) => has_row(self@, application@, host@) && row@ == row_of(
                    self@,
                    application@,
                    host@,
                ),
                None => !has_row(self@, application@, host@),
            },
    {
        let mut i: usize = 0;
        while i < self.rows.len()
            invariant
                i <= self@.len(),
                self@.len() == self.rows@.len(),
                self.wf(),
                forall|j: int|
                    0 <= j < i ==> !(self@[j].application == application@ && self@[j].host
                        == host@),
            decreases self@.len() - i,
        {
            if self.rows[i].application == *application && self.rows[i].host == *host {
                proof {
                    assert(self@[i as int].application == application@ && self@[i as int].host
                        == host@);
                    let c = index_of_row(self@, application@, host@);
                    assert(0 <= c < self@.len() && self@[c].application == application@
                        && self@[c].host == host@);
                    assert(c == i as int);
                }
                return Some(&self.rows[i]);
            }
            i = i + 1;
        }
        None
    }

    /// Insert the row, or overwrite the one holding its `(application,
    /// host)` key, so that the key holds exactly this row afterwards.
    pub fn upsert(
        &mut self,
        appuser: String,
        application: String,
        host: String,
        appid: String,
        appkey: String,
    )
        requires
            old(self).wf(),
        ensures
            final(self).wf(),
            final(self)@ == spec_store_upsert(
                old(self)@,
                StoreRowView {
                    appuser: appuser@,
                    application: application@,
                    host: host@,
                    appid: appid@,
                    appkey: appkey@,
                },
            ),
    {
        let row = StoreRow { appuser, application, host, appid, appkey };
        let ghost rv = row@;
        let ghost s0 = self@;
        let mut i: usize = 0;
        while i < self.rows.len()
            invariant
                i <= self@.len(),
                self@.len() == self.rows@.len(),
                self@ == s0,
                s0 == old(self)@,
                store_wf(s0),
                rv == (StoreRowView {
                    appuser: appuser@,
                    application: application@,
                    host: host@,
                    appid: appid@,
                    appkey: appkey@,
                }),
                rv == row@,
                forall|j: int|
                    0 <= j < i ==> !(self@[j].application == rv.application && self@[j].host
                        == rv.host),
            decreases self@.len() - i,
        {
            if self.rows[i].application == row.application && self.rows[i].host
                == row.host {
                proof {
                    assert(s0[i as int].application == rv.application && s0[i as int].host
                        == rv.host);
                    lemma_store_upsert(s0, rv);
                    let c = index_of_row(s0, rv.application, rv.host);
                    assert(0 <= c < s0.len() && s0[c].application == rv.application && s0[c].host
                        == rv.host);
                    assert(c == i as int);
                }
                self.rows[i] = row;
                proof {
                    assert(self@ =~= s0.update(i as int, rv));
                }
                return ;
            }
            i = i + 1;
        }
        proof {
            assert(!has_row(s0, rv.application, rv.host));
            lemma_store_upsert(s0, rv);
        }
        self.rows.push(row);
        proof {
            assert(self@ =~= s0.push(rv));
        }
    }
}

} // verus!
