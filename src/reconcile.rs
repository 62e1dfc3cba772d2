//! Reconciliation of the sent and received identity ledgers.
use std::collections::hash_map::DefaultHasher;
use std::collections::HashMap;
use std::hash::Hasher;
use vstd::prelude::*;
use vstd::std_specs::hash::DefaultHasherAdditionalSpecFns;
use vstd::utf8::encode_utf8;
use crate::text::views;

verus! {

broadcast use vstd::std_specs::hash::group_hash_axioms;

/// Where an identity was seen.
#[derive(Clone, Copy, Debug, PartialEq, Eq, Structural)]
pub enum Status {
    Sent,
    Received,
    SentAndReceived,
}

/// The status an identity ends with, given what was sent and received.
pub open spec fn status_of(h: Seq<char>, sent: Seq<Seq<char>>, received: Seq<Seq<char>>) -> Status {
    if sent.contains(h) && received.contains(h) {
        Status::SentAndReceived
    } else if sent.contains(h) {
        Status::Sent
    } else {
        Status::Received
    }
}

/// The outcome of a run: each distinct identity once, in the list its
/// status puts it in.
pub struct ReconciliationReport {
    pub delivered: Vec<String>,
    pub lost: Vec<String>,
    pub stray: Vec<String>,
}

/// Bucket of an identity in the lookup index.
spec fn bucket_of(h: Seq<char>) -> u64 {
    DefaultHasher::spec_finish(seq![encode_utf8(h)])
}

fn bucket_key(h: &str) -> (r: u64)
    ensures
        r == bucket_of(h@),
{
    let mut hasher = DefaultHasher::new();
    hasher.write(h.as_bytes());
    let r = hasher.finish();
    assert(hasher@ =~= seq![encode_utf8(h@)]);
    r
}

/// Distinct identities with their status, and an index from bucket to the
/// positions of the identities in that bucket.
struct StatusTable {
    keys: Vec<String>,
    statuses: Vec<Status>,
    buckets: HashMap<u64, Vec<usize>>,
}

impl StatusTable {
    spec fn key_views(&self) -> Seq<Seq<char>> {
        views(self.keys@)
    }

    spec fn wf(&self) -> bool {
        &&& self.keys@.len() == self.statuses@.len()
        &&& self.keys@.len() <= usize::MAX
        &&& self.key_views().no_duplicates()
        &&& forall|i: int|
            0 <= i < self.keys@.len() ==> {
                let b = bucket_of(#[trigger] self.keys@[i]@);
                self.buckets@.contains_key(b) && self.buckets@[b]@.contains(i as usize)
            }
        &&& forall|b: u64, j: int|
            self.buckets@.contains_key(b) && 0 <= j < self.buckets@[b]@.len()
                ==> #[trigger] self.buckets@[b]@[j] < self.keys@.len()
    }

    fn new() -> (r: StatusTable)
        ensures
            r.wf(),
            r.keys@.len() == 0,
    {
        StatusTable { keys: Vec::new(), statuses: Vec::new(), buckets: HashMap::new() }
    }

    fn find(&self, h: &String) -> (r: Option<usize>)
        requires
            self.wf(),
        ensures
            r matches Some(i) ==> i < self.keys@.len() && self.keys@[i as int]@ == h@,
            r is None ==> !self.key_views().contains(h@),
    {
        let b = bucket_key(h.as_str());
        match self.buckets.get(&b) {
            None => {
                assert forall|i: int| 0 <= i < self.key_views().len() implies self.key_views()[i]
                    != h@ by {
                    assert(self.key_views()[i] == self.keys@[i]@);
                }
                None
            },
            Some(list) => {
                let mut j: usize = 0;
                while j < list.len()
                    invariant
                        self.wf(),
                        self.buckets@.contains_key(b),
                        self.buckets@[b] == *list,
                        b == bucket_of(h@),
                        j <= list@.len(),
                        forall|jj: int|
                            0 <= jj < j ==> self.keys@[#[trigger] list@[jj] as int]@ != h@,
                    decreases list.len() - j,
                {
                    let i = list[j];
                    assert(i < self.keys@.len());
                    if self.keys[i] == *h {
                        return Some(i);
                    }
                    j = j + 1;
                }
                assert forall|i: int| 0 <= i < self.key_views().len() implies self.key_views()[i]
                    != h@ by {
                    assert(self.key_views()[i] == self.keys@[i]@);
                    if self.keys@[i]@ == h@ {
                        let k = i as usize;
                        assert(k as int == i);
                        assert(self.buckets@[bucket_of(self.keys@[i]@)]@.contains(k));
                        assert(list@.contains(k));
                        let jj = choose|jj: int| 0 <= jj < list@.len() && list@[jj] == k;
                        assert(self.keys@[list@[jj] as int]@ != h@);
                    }
                }
                None
            },
        }
    }

    fn add(&mut self, h: String, st: Status)
        requires
            old(self).wf(),
            !old(self).key_views().contains(h@),
            old(self).keys@.len() < usize::MAX,
        ensures
            final(self).wf(),
            final(self).keys@ == old(self).keys@.push(h),
            final(self).statuses@ == old(self).statuses@.push(st),
    {
        let b = bucket_key(h.as_str());
        let i = self.keys.len();
        let mut list = match self.buckets.remove(&b) {
            Some(l) => l,
            None => Vec::new(),
        };
        let ghost old_list = list@;
        list.push(i);
        self.buckets.insert(b, list);
        self.keys.push(h);
        self.statuses.push(st);
        assert(self.key_views() =~= old(self).key_views().push(h@));
        assert forall|x: int, y: int|
            0 <= x < y < self.key_views().len() implies self.key_views()[x]
            != self.key_views()[y] by {
            if y == i {
                assert(self.key_views()[x] == old(self).key_views()[x]);
            } else {
                assert(old(self).key_views()[x] != old(self).key_views()[y]);
            }
        }
        assert forall|k: int| 0 <= k < self.keys@.len() implies {
            let bk = bucket_of(#[trigger] self.keys@[k]@);
            self.buckets@.contains_key(bk) && self.buckets@[bk]@.contains(k as usize)
        } by {
            if k < i {
                let bk = bucket_of(self.keys@[k]@);
                assert(old(self).keys@[k] == self.keys@[k]);
                assert(old(self).buckets@[bk]@.contains(k as usize));
                if bk == b {
                    let w = choose|w: int|
                        0 <= w < old_list.len() && old_list[w] == k as usize;
                    assert(self.buckets@[bk]@[w] == k as usize);
                }
            } else {
                assert(self.buckets@[b]@[old_list.len() as int] == i);
            }
        }
        assert forall|c: u64, j: int|
            self.buckets@.contains_key(c) && 0 <= j < self.buckets@[c]@.len() implies #[trigger] self.buckets@[c]@[j]
            < self.keys@.len() by {
            if c == b {
                if j < old_list.len() {
                    assert(old(self).buckets@[b]@[j] < old(self).keys@.len());
                }
            } else {
                assert(old(self).buckets@[c]@[j] < old(self).keys@.len());
            }
        }
    }

    fn set_status(&mut self, i: usize, st: Status)
        requires
            old(self).wf(),
            i < old(self).keys@.len(),
        ensures
            final(self).wf(),
            final(self).keys@ == old(self).keys@,
            final(self).statuses@ == old(self).statuses@.update(i as int, st),
    {
        self.statuses.set(i, st);
    }
}

impl StatusTable {
    /// The keys with status `st`, in table order.
    fn collect_status(&self, st: Status) -> (r: Vec<String>)
        requires
            self.wf(),
        ensures
            views(r@).no_duplicates(),
            forall|h: Seq<char>|
                views(r@).contains(h) <==> exists|k: int|
                    0 <= k < self.keys@.len() && #[trigger] self.keys@[k]@ == h
                        && self.statuses@[k] == st,
    {
        let mut r: Vec<String> = Vec::new();
        let mut j: usize = 0;
        while j < self.keys.len()
            invariant
                self.wf(),
                j <= self.keys@.len(),
                views(r@).no_duplicates(),
                forall|h: Seq<char>|
                    views(r@).contains(h) <==> exists|k: int|
                        0 <= k < j && #[trigger] self.keys@[k]@ == h && self.statuses@[k] == st,
            decreases self.keys@.len() - j,
        {
            if self.statuses[j] == st {
                let ghost before = views(r@);
                let h = self.keys[j].clone();
                r.push(h);
                assert(views(r@) =~= before.push(self.keys@[j as int]@));
                assert(!before.contains(self.keys@[j as int]@)) by {
                    if before.contains(self.keys@[j as int]@) {
                        let k = choose|k: int|
                            0 <= k < j && #[trigger] self.keys@[k]@ == self.keys@[j as int]@
                                && self.statuses@[k] == st;
                        assert(self.key_views()[k] == self.key_views()[j as int]);
                    }
                }
                assert forall|h: Seq<char>|
                    views(r@).contains(h) <==> exists|k: int|
                        0 <= k < j + 1 && #[trigger] self.keys@[k]@ == h && self.statuses@[k]
                            == st by {
                    if views(r@).contains(h) {
                        let w = choose|w: int| 0 <= w < views(r@).len() && views(r@)[w] == h;
                        if w < before.len() {
                            assert(before[w] == h);
                            assert(before.contains(h));
                        }
                    }
                    if exists|k: int|
                        0 <= k < j + 1 && #[trigger] self.keys@[k]@ == h && self.statuses@[k]
                            == st {
                        let k = choose|k: int|
                            0 <= k < j + 1 && #[trigger] self.keys@[k]@ == h && self.statuses@[k]
                                == st;
                        if k == j {
                            assert(views(r@)[before.len() as int] == h);
                        } else {
                            assert(before.contains(h));
                            let w = choose|w: int| 0 <= w < before.len() && before[w] == h;
                            assert(views(r@)[w] == h);
                        }
                    }
                }
            }
            j = j + 1;
        }
        r
    }
}

proof fn lemma_take_push(s: Seq<String>, i: int, h: Seq<char>)
    requires
        0 <= i < s.len(),
    ensures
        views(s.take(i + 1)).contains(h) <==> views(s.take(i)).contains(h) || h == s[i]@,
{
    let a = views(s.take(i));
    let b = views(s.take(i + 1));
    assert(b =~= a.push(s[i]@));
    if h == s[i]@ {
        assert(b[i] == h);
    }
    if a.contains(h) {
        let w = choose|w: int| 0 <= w < a.len() && a[w] == h;
        assert(b[w] == h);
    }
    if b.contains(h) {
        let w = choose|w: int| 0 <= w < b.len() && b[w] == h;
        if w < i {
            assert(a[w] == h);
        }
    }
}

/// `r` reports `sent` against `received`: each list holds distinct
/// identities, exactly those with its status.
pub open spec fn reconciled(
    r: &ReconciliationReport,
    sent: Seq<Seq<char>>,
    received: Seq<Seq<char>>,
) -> bool {
    &&& views(r.delivered@).no_duplicates()
    &&& views(r.lost@).no_duplicates()
    &&& views(r.stray@).no_duplicates()
    &&& forall|h: Seq<char>|
        views(r.delivered@).contains(h) <==> sent.contains(h) && received.contains(h)
    &&& forall|h: Seq<char>| views(r.lost@).contains(h) <==> sent.contains(h) && !received.contains(h)
    &&& forall|h: Seq<char>|
        views(r.stray@).contains(h) <==> !sent.contains(h) && received.contains(h)
}

/// Classifies every identity: seeded as sent, marked sent-and-received when
/// it comes back, received-only when it was never sent.
pub fn reconcile(sent: &Vec<String>, received: &Vec<String>) -> (r: ReconciliationReport)
    requires
        sent@.len() + received@.len() <= usize::MAX,
    ensures
        reconciled(&r, views(sent@), views(received@)),
{
    let mut table = StatusTable::new();
    let mut i: usize = 0;
    while i < sent.len()
        invariant
            table.wf(),
            i <= sent@.len(),
            sent@.len() + received@.len() <= usize::MAX,
            table.keys@.len() <= i,
            forall|h: Seq<char>|
                #![trigger table.key_views().contains(h)]
                #![trigger views(sent@.take(i as int)).contains(h)]
                table.key_views().contains(h) <==> views(sent@.take(i as int)).contains(h),
            forall|j: int| 0 <= j < table.statuses@.len() ==> table.statuses@[j] == Status::Sent,
        decreases sent@.len() - i,
    {
        let h = &sent[i];
        let ghost before = table.key_views();
        match table.find(h) {
            Some(j) => {
                assert(table.key_views()[j as int] == h@);
                assert(table.key_views().contains(h@));
            },
            None => {
                table.add(h.clone(), Status::Sent);
                assert(table.key_views() =~= before.push(h@));
                assert(table.key_views()[before.len() as int] == h@);
                assert(table.key_views().contains(h@));
            },
        }
        assert forall|x: Seq<char>|
            table.key_views().contains(x) <==> #[trigger] views(sent@.take(i + 1)).contains(x) by {
            lemma_take_push(sent@, i as int, x);
            if x == h@ {
                assert(table.key_views().contains(x));
            }
            if before.contains(x) {
                let w = choose|w: int| 0 <= w < before.len() && before[w] == x;
                assert(table.key_views()[w] == x);
            }
            if table.key_views().contains(x) {
                let w = choose|w: int|
                    0 <= w < table.key_views().len() && table.key_views()[w] == x;
                if w < before.len() {
                    assert(before[w] == x);
                }
            }
        }
        i = i + 1;
    }
    assert(sent@.take(sent@.len() as int) =~= sent@);
    let ghost sv = views(sent@);
    assert(views(received@.take(0)) =~= Seq::<Seq<char>>::empty());
    assert forall|j: int|
        0 <= j < table.statuses@.len() implies table.statuses@[j] == status_of(
        #[trigger] table.keys@[j]@,
        sv,
        views(received@.take(0)),
    ) by {
        assert(table.key_views()[j] == table.keys@[j]@);
        assert(table.key_views().contains(table.keys@[j]@));
        assert(views(sent@.take(sent@.len() as int)).contains(table.keys@[j]@));
    }
    let mut i: usize = 0;
    while i < received.len()
        invariant
            table.wf(),
            i <= received@.len(),
            sent@.len() + received@.len() <= usize::MAX,
            sv == views(sent@),
            table.keys@.len() <= sent@.len() + i,
            forall|h: Seq<char>|
                #![trigger table.key_views().contains(h)]
                #![trigger views(received@.take(i as int)).contains(h)]
                table.key_views().contains(h) <==> sv.contains(h) || views(
                    received@.take(i as int),
                ).contains(h),
            forall|j: int|
                0 <= j < table.statuses@.len() ==> table.statuses@[j] == status_of(
                    #[trigger] table.keys@[j]@,
                    sv,
                    views(received@.take(i as int)),
                ),
        decreases received@.len() - i,
    {
        let h = &received[i];
        let ghost r_old = views(received@.take(i as int));
        let ghost r_new = views(received@.take(i + 1));
        proof {
            assert forall|x: Seq<char>| r_new.contains(x) <==> r_old.contains(x) || x == h@ by {
                lemma_take_push(received@, i as int, x);
            }
        }
        let ghost kv_before = table.key_views();
        assert(kv_before.contains(h@) <==> sv.contains(h@) || r_old.contains(h@));
        match table.find(h) {
            Some(j) => {
                assert(table.key_views()[j as int] == h@);
                assert forall|x: Seq<char>|
                    table.key_views().contains(x) <==> sv.contains(x) || r_new.contains(x) by {
                    assert(kv_before.contains(x) <==> sv.contains(x) || r_old.contains(x));
                }
                if table.statuses[j] == Status::Sent {
                    table.set_status(j, Status::SentAndReceived);
                }
                assert forall|k: int|
                    0 <= k < table.statuses@.len() implies table.statuses@[k] == status_of(
                    #[trigger] table.keys@[k]@,
                    sv,
                    r_new,
                ) by {
                    if k != j {
                        assert(table.key_views()[k] != table.key_views()[j as int]);
                        assert(table.key_views()[k] == table.keys@[k]@);
                    }
                }
            },
            None => {
                let ghost before = table.key_views();
                let ghost statuses_before = table.statuses@;
                assert(!sv.contains(h@) && !r_old.contains(h@));
                table.add(h.clone(), Status::Received);
                assert(table.key_views() =~= before.push(h@));
                assert forall|x: Seq<char>|
                    table.key_views().contains(x) <==> sv.contains(x) || r_new.contains(x) by {
                    assert(before.contains(x) <==> sv.contains(x) || r_old.contains(x));
                    if x == h@ {
                        assert(table.key_views()[before.len() as int] == x);
                    }
                    if before.contains(x) {
                        let w = choose|w: int| 0 <= w < before.len() && before[w] == x;
                        assert(table.key_views()[w] == x);
                    }
                    if table.key_views().contains(x) {
                        let w = choose|w: int|
                            0 <= w < table.key_views().len() && table.key_views()[w] == x;
                        if w < before.len() {
                            assert(before[w] == x);
                        }
                    }
                }
                assert forall|k: int|
                    0 <= k < table.statuses@.len() implies table.statuses@[k] == status_of(
                    #[trigger] table.keys@[k]@,
                    sv,
                    r_new,
                ) by {
                    if k < before.len() {
                        assert(table.key_views()[k] == before[k]);
                        assert(before[k] != h@) by {
                            if before[k] == h@ {
                                assert(before.contains(h@));
                            }
                        }
                        assert(statuses_before[k] == status_of(before[k], sv, r_old));
                    }
                }
            },
        }
        i = i + 1;
    }
    assert(received@.take(received@.len() as int) =~= received@);
    let delivered = table.collect_status(Status::SentAndReceived);
    let lost = table.collect_status(Status::Sent);
    let stray = table.collect_status(Status::Received);
    let r = ReconciliationReport { delivered, lost, stray };
    assert forall|h: Seq<char>|
        table.key_views().contains(h) <==> exists|k: int|
            0 <= k < table.keys@.len() && #[trigger] table.keys@[k]@ == h by {
        if table.key_views().contains(h) {
            let w = choose|w: int| 0 <= w < table.key_views().len() && table.key_views()[w] == h;
            assert(table.keys@[w]@ == h);
        }
        if exists|k: int| 0 <= k < table.keys@.len() && #[trigger] table.keys@[k]@ == h {
            let k = choose|k: int| 0 <= k < table.keys@.len() && #[trigger] table.keys@[k]@ == h;
            assert(table.key_views()[k] == h);
        }
    }
    r
}

impl ReconciliationReport {
    pub fn delivered_count(&self) -> (r: usize)
        ensures
            r == self.delivered@.len(),
    {
        self.delivered.len()
    }

    pub fn lost_count(&self) -> (r: usize)
        ensures
            r == self.lost@.len(),
    {
        self.lost.len()
    }

    pub fn stray_count(&self) -> (r: usize)
        ensures
            r == self.stray@.len(),
    {
        self.stray.len()
    }

    /// Delivered share of the identities attributed to this run, in whole
    /// percent rounded down; 0 when nothing was attributed.
    pub fn delivered_percent(&self) -> (r: u64)
        ensures
            self.delivered@.len() + self.lost@.len() == 0 ==> r == 0,
            self.delivered@.len() + self.lost@.len() > 0 ==> r == self.delivered@.len() * 100 / (
            self.delivered@.len() + self.lost@.len()),
    {
        let d = self.delivered.len() as u128;
        let a = d + self.lost.len() as u128;
        if a == 0 {
            0
        } else {
            assert((d as int) * 100 / (a as int) <= 100) by (nonlinear_arith)
                requires
                    d <= a,
                    a > 0,
            ;
            (d * 100 / a) as u64
        }
    }
}

/// Every distinct sent identity is counted once, as delivered or as lost;
/// with no identity sent twice, delivered and lost add up to what was sent.
pub proof fn lemma_sent_accounted(
    r: &ReconciliationReport,
    sent: Seq<Seq<char>>,
    received: Seq<Seq<char>>,
)
    requires
        reconciled(r, sent, received),
    ensures
        r.delivered@.len() + r.lost@.len() == sent.to_set().len(),
        sent.no_duplicates() ==> r.delivered@.len() + r.lost@.len() == sent.len(),
{
    let d = views(r.delivered@);
    let l = views(r.lost@);
    d.unique_seq_to_set();
    l.unique_seq_to_set();
    assert forall|x: Seq<char>| d.to_set().contains(x) implies !l.to_set().contains(x) by {
        assert(d.contains(x));
        assert(sent.contains(x) && received.contains(x));
        assert(!l.contains(x));
    }
    assert(d.to_set().disjoint(l.to_set()));
    assert(d.to_set().union(l.to_set()) =~= sent.to_set());
    vstd::set_lib::lemma_set_disjoint_lens(d.to_set(), l.to_set());
    if sent.no_duplicates() {
        sent.unique_seq_to_set();
    }
}

} // verus!
