//! The call aggregator: folds segment records, in arrival order, into
//! completed calls keyed by call identifier.

use vstd::prelude::*;
use crate::types::{ActivePhoneCall, CallView, RecordView, SMDRRecord, caller_view, reduce_view};

verus! {

/// The live calls, keyed by call identifier.
pub type LiveCalls = Map<Seq<char>, CallView>;

/// The call that record `r` extends: the live one of its identifier, else a
/// fresh one that starts at `r`'s start, with `r` appended.
pub open spec fn extended_call(m: LiveCalls, r: RecordView) -> CallView {
    let base = if m.contains_key(r.call_id) {
        m[r.call_id]
    } else {
        CallView::fresh(r.call_id, r.start)
    };
    base.add(r)
}

/// One step of the aggregator: a continued record updates its call; a final
/// record closes its call, which leaves the live set and is emitted.
pub open spec fn ingest_spec(m: LiveCalls, r: RecordView) -> (LiveCalls, Option<CallView>) {
    let call = extended_call(m, r);
    if r.continued {
        (m.insert(r.call_id, call), None)
    } else {
        (m.remove(r.call_id), Some(call))
    }
}

/// Every live call is filed under its own identifier and has a caller exactly
/// when it has a segment.
pub open spec fn live_wf(m: LiveCalls) -> bool {
    forall|k: Seq<char>| #[trigger] m.contains_key(k) ==> m[k].call_id == k && m[k].wf()
}

pub open spec fn view_of_call(c: Option<ActivePhoneCall>) -> Option<CallView> {
    match c {
        Some(call) => Some(call@),
        None => None,
    }
}

pub struct SMDRReader {
    active: Vec<ActivePhoneCall>,
    calls: Ghost<LiveCalls>,
}

impl View for SMDRReader {
    type V = LiveCalls;

    closed spec fn view(&self) -> LiveCalls {
        self.calls@
    }
}

impl SMDRReader {
    pub closed spec fn wf(&self) -> bool {
        &&& live_wf(self.calls@)
        &&& forall|i: int| 0 <= i < self.active@.len() ==> {
            &&& #[trigger] self.calls@.contains_key(self.active@[i]@.call_id)
            &&& self.calls@[self.active@[i]@.call_id] == self.active@[i]@
        }
        &&& forall|i: int, j: int|
            0 <= i < j < self.active@.len() ==> #[trigger] self.active@[i]@.call_id
                != #[trigger] self.active@[j]@.call_id
        &&& forall|k: Seq<char>| #[trigger]
            self.calls@.contains_key(k) ==> exists|i: int|
                0 <= i < self.active@.len() && #[trigger] self.active@[i]@.call_id == k
    }

    /// An aggregator with no live call.
    pub fn new() -> (r: SMDRReader)
        ensures
            r.wf(),
            r@ == LiveCalls::empty(),
    {
        SMDRReader { active: Vec::new(), calls: Ghost(Map::empty()) }
    }

    fn position(&self, call_id: &String) -> (r: Option<usize>)
        requires
            self.wf(),
        ensures
            match r {
                Some(i) => i < self.active@.len() && self.active@[i as int]@.call_id == call_id@,
                None => !self@.contains_key(call_id@),
            },
    {
        let mut i: usize = 0;
        while i < self.active.len()
            invariant
                self.wf(),
                i <= self.active@.len(),
                forall|j: int| 0 <= j < i ==> #[trigger] self.active@[j]@.call_id != call_id@,
            decreases self.active@.len() - i,
        {
            if self.active[i].call_id == *call_id {
                return Some(i);
            }
            i = i + 1;
        }
        None
    }

    /// Takes the live call filed under `call_id` out of the aggregator.
    fn take(&mut self, i: usize) -> (r: ActivePhoneCall)
        requires
            old(self).wf(),
            i < old(self).active@.len(),
        ensures
            final(self).wf(),
            r@ == old(self)@[r@.call_id],
            old(self)@.contains_key(r@.call_id),
            r@.call_id == old(self).active@[i as int]@.call_id,
            final(self)@ == old(self)@.remove(r@.call_id),
    {
        let ghost old_active = self.active@;
        let call = self.active.remove(i);
        let ghost id = call@.call_id;
        self.calls = Ghost(self.calls@.remove(id));
        assert forall|k: Seq<char>| #[trigger] self.calls@.contains_key(k) implies exists|j: int|
            0 <= j < self.active@.len() && #[trigger] self.active@[j]@.call_id == k by {
            let j = choose|j: int| 0 <= j < old_active.len() && #[trigger] old_active[j]@.call_id == k;
            if j < i {
                assert(self.active@[j] == old_active[j]);
            } else {
                assert(j != i);
                assert(self.active@[j - 1] == old_active[j]);
            }
        }
        assert forall|a: int| 0 <= a < self.active@.len() implies {
            &&& #[trigger] self.calls@.contains_key(self.active@[a]@.call_id)
            &&& self.calls@[self.active@[a]@.call_id] == self.active@[a]@
        } by {
            if a < i {
                assert(self.active@[a] == old_active[a]);
            } else {
                assert(self.active@[a] == old_active[a + 1]);
            }
        }
        assert forall|a: int, b: int|
            0 <= a < b < self.active@.len() implies #[trigger] self.active@[a]@.call_id
                != #[trigger] self.active@[b]@.call_id by {
            let oa = if a < i { a } else { a + 1 };
            let ob = if b < i { b } else { b + 1 };
            assert(self.active@[a] == old_active[oa]);
            assert(self.active@[b] == old_active[ob]);
        }
        call
    }

    /// Files `call` as live, where no live call has its identifier.
    fn put(&mut self, call: ActivePhoneCall)
        requires
            old(self).wf(),
            !old(self)@.contains_key(call@.call_id),
            call@.wf(),
        ensures
            final(self).wf(),
            final(self)@ == old(self)@.insert(call@.call_id, call@),
    {
        let ghost old_active = self.active@;
        let ghost cv = call@;
        self.active.push(call);
        self.calls = Ghost(self.calls@.insert(cv.call_id, cv));
        assert(self.active@[old_active.len() as int] == call);
        assert forall|k: Seq<char>| #[trigger] self.calls@.contains_key(k) implies exists|j: int|
            0 <= j < self.active@.len() && #[trigger] self.active@[j]@.call_id == k by {
            if k != cv.call_id {
                let j = choose|j: int| 0 <= j < old_active.len() && #[trigger] old_active[j]@.call_id == k;
                assert(self.active@[j] == old_active[j]);
            } else {
                assert(self.active@[old_active.len() as int]@.call_id == k);
            }
        }
        assert forall|a: int| 0 <= a < self.active@.len() implies {
            &&& #[trigger] self.calls@.contains_key(self.active@[a]@.call_id)
            &&& self.calls@[self.active@[a]@.call_id] == self.active@[a]@
        } by {
            if a < old_active.len() {
                assert(self.active@[a] == old_active[a]);
            }
        }
        assert forall|a: int, b: int|
            0 <= a < b < self.active@.len() implies #[trigger] self.active@[a]@.call_id
                != #[trigger] self.active@[b]@.call_id by {
            assert(self.active@[a] == old_active[a]);
            if b < old_active.len() {
                assert(self.active@[b] == old_active[b]);
            }
        }
    }

    /// Folds one record into the live calls. A record that is not continued
    /// closes its call, which is returned as completed.
    pub fn ingest(&mut self, record: SMDRRecord) -> (r: Option<ActivePhoneCall>)
        requires
            old(self).wf(),
        ensures
            final(self).wf(),
            (final(self)@, view_of_call(r)) == ingest_spec(old(self)@, record@),
    {
        let ghost rv = record@;
        let continued = record.continued;
        let mut call = match self.position(&record.call_id) {
            Some(i) => self.take(i),
            None => ActivePhoneCall::new(record.call_id.clone(), record.start.clone()),
        };
        proof {
            assert(live_wf(old(self)@));
            if old(self)@.contains_key(rv.call_id) {
                assert(old(self)@[rv.call_id].call_id == rv.call_id);
            }
        }
        call.add_record(record);
        assert(call@ == extended_call(old(self)@, rv));
        if !continued {
            return Some(call);
        }
        self.put(call);
        assert(self@ == old(self)@.insert(rv.call_id, extended_call(old(self)@, rv)));
        None
    }

    /// Whether a call with identifier `call_id` is live.
    pub fn is_active(&self, call_id: &String) -> (r: bool)
        requires
            self.wf(),
        ensures
            r == self@.contains_key(call_id@),
    {
        self.position(call_id).is_some()
    }

    /// The number of live calls.
    pub fn active_count(&self) -> (r: usize)
        requires
            self.wf(),
        ensures
            r == self@.len(),
    {
        proof {
            self.lemma_len();
        }
        self.active.len()
    }

    proof fn lemma_len(&self)
        requires
            self.wf(),
        ensures
            self@.len() == self.active@.len(),
            self@.dom().finite(),
    {
        let ids = Seq::new(self.active@.len(), |i: int| self.active@[i]@.call_id);
        assert forall|k: Seq<char>| self@.dom().contains(k) <==> #[trigger] ids.to_set().contains(k) by {
            if self@.dom().contains(k) {
                assert(self.calls@.contains_key(k));
                let i = choose|i: int| 0 <= i < self.active@.len() && #[trigger] self.active@[i]@.call_id == k;
                assert(ids[i] == k);
                assert(ids.contains(k));
            }
            if ids.contains(k) {
                let i = choose|i: int| 0 <= i < ids.len() && ids[i] == k;
                assert(self.calls@.contains_key(self.active@[i]@.call_id));
            }
        }
        assert(self@.dom() =~= ids.to_set());
        assert(ids.no_duplicates());
        ids.unique_seq_to_set();
    }
}

/// The live calls and the completed calls, in order, after ingesting `rs` from `m`.
pub open spec fn run(m: LiveCalls, rs: Seq<RecordView>) -> (LiveCalls, Seq<CallView>)
    decreases rs.len(),
{
    if rs.len() == 0 {
        (m, Seq::empty())
    } else {
        let (m1, out) = run(m, rs.drop_last());
        let (m2, e) = ingest_spec(m1, rs.last());
        (
            m2,
            match e {
                Some(c) => out.push(c),
                None => out,
            },
        )
    }
}

/// The call made of segments `rs`, all of identifier `id`: it starts at the
/// first segment, takes its caller from the first segment, and lists every
/// segment in order.
pub open spec fn call_of_segments(id: Seq<char>, rs: Seq<RecordView>) -> CallView {
    CallView {
        call_id: id,
        start: rs[0].start,
        caller: Some(caller_view(rs[0])),
        records: rs.map_values(|r: RecordView| reduce_view(r)),
    }
}

proof fn lemma_continued_prefix(m: LiveCalls, id: Seq<char>, rs: Seq<RecordView>, k: int)
    requires
        1 <= k <= rs.len(),
        forall|i: int| 0 <= i < rs.len() ==> (#[trigger] rs[i]).call_id == id,
        forall|i: int| 0 <= i < k ==> (#[trigger] rs[i]).continued,
        !m.contains_key(id),
    ensures
        run(m, rs.take(k)) == (m.insert(id, call_of_segments(id, rs.take(k))), Seq::<CallView>::empty()),
    decreases k,
{
    let p = rs.take(k);
    assert(p.drop_last() == rs.take(k - 1));
    assert(p.last() == rs[k - 1]);
    assert(rs[k - 1].call_id == id && rs[k - 1].continued);
    if k == 1 {
        assert(p.drop_last() == Seq::<RecordView>::empty());
        assert(run(m, p.drop_last()) == (m, Seq::<CallView>::empty()));
        assert(call_of_segments(id, p).records =~= seq![reduce_view(rs[0])]);
        assert(CallView::fresh(id, rs[0].start).add(rs[0]) == call_of_segments(id, p));
        assert(extended_call(m, rs[0]) == call_of_segments(id, p));
        assert(ingest_spec(m, p.last()) == (m.insert(id, call_of_segments(id, p)), None::<CallView>));
    } else {
        lemma_continued_prefix(m, id, rs, k - 1);
        let q = rs.take(k - 1);
        assert(call_of_segments(id, p).records =~= call_of_segments(id, q).records.push(
            reduce_view(rs[k - 1]),
        ));
        assert(call_of_segments(id, q).add(rs[k - 1]) == call_of_segments(id, p));
        let mq = m.insert(id, call_of_segments(id, q));
        assert(run(m, p.drop_last()) == (mq, Seq::<CallView>::empty()));
        assert(extended_call(mq, rs[k - 1]) == call_of_segments(id, p));
        assert(m.insert(id, call_of_segments(id, q)).insert(id, call_of_segments(id, p)) =~= m.insert(
            id,
            call_of_segments(id, p),
        ));
    }
}

/// Segments that share one identifier not yet live, all continued but the
/// last, produce exactly one completed call: its segments are the reduced
/// records in arrival order, its caller is taken from the first segment
/// whatever later ones hold, and the live calls are as before.
pub proof fn lemma_segments_make_one_call(m: LiveCalls, id: Seq<char>, rs: Seq<RecordView>)
    requires
        rs.len() >= 1,
        forall|i: int| 0 <= i < rs.len() ==> (#[trigger] rs[i]).call_id == id,
        forall|i: int| 0 <= i < rs.len() - 1 ==> (#[trigger] rs[i]).continued,
        !rs.last().continued,
        !m.contains_key(id),
    ensures
        run(m, rs).1 == seq![call_of_segments(id, rs)],
        run(m, rs).0 == m,
{
    let n = rs.len() as int;
    assert(rs.drop_last() == rs.take(n - 1));
    assert(rs.take(n) == rs);
    assert(rs[n - 1].call_id == id);
    let c = call_of_segments(id, rs);
    if n == 1 {
        assert(rs.drop_last() == Seq::<RecordView>::empty());
        assert(run(m, rs.drop_last()) == (m, Seq::<CallView>::empty()));
        assert(call_of_segments(id, rs).records =~= seq![reduce_view(rs[0])]);
        assert(CallView::fresh(id, rs[0].start).add(rs[0]) == call_of_segments(id, rs));
        assert(extended_call(m, rs[0]) == c);
        assert(ingest_spec(m, rs.last()) == (m.remove(id), Some(c)));
    } else {
        lemma_continued_prefix(m, id, rs, n - 1);
        let q = rs.take(n - 1);
        assert(call_of_segments(id, rs).records =~= call_of_segments(id, q).records.push(
            reduce_view(rs[n - 1]),
        ));
        assert(call_of_segments(id, q).add(rs[n - 1]) == call_of_segments(id, rs));
        let mq = m.insert(id, call_of_segments(id, q));
        assert(run(m, rs.drop_last()) == (mq, Seq::<CallView>::empty()));
        assert(extended_call(mq, rs[n - 1]) == c);
        assert(ingest_spec(mq, rs.last()) == (mq.remove(id), Some(c)));
        assert(mq.remove(id) =~= m);
    }
    assert(m.remove(id) =~= m);
    assert(Seq::<CallView>::empty().push(c) == seq![c]);
}

/// A final record whose identifier is not live completes a call of exactly
/// that one segment.
pub proof fn lemma_lone_final_record(m: LiveCalls, r: RecordView)
    requires
        !r.continued,
        !m.contains_key(r.call_id),
    ensures
        ingest_spec(m, r).1 == Some(
            CallView {
                call_id: r.call_id,
                start: r.start,
                caller: Some(caller_view(r)),
                records: seq![reduce_view(r)],
            },
        ),
        ingest_spec(m, r).0 == m,
{
    assert(Seq::<crate::types::ReducedView>::empty().push(reduce_view(r)) == seq![reduce_view(r)]);
    assert(m.remove(r.call_id) =~= m);
}

/// Once a call is closed, a later record of the same identifier starts a new
/// call from nothing.
pub proof fn lemma_closed_call_starts_afresh(m: LiveCalls, r1: RecordView, r2: RecordView)
    requires
        !r1.continued,
        r2.call_id == r1.call_id,
    ensures
        !ingest_spec(m, r1).0.contains_key(r1.call_id),
        extended_call(ingest_spec(m, r1).0, r2) == CallView::fresh(r2.call_id, r2.start).add(r2),
{
}

/// Records of other identifiers leave a live call as it was: it stays live,
/// with the same segments, whatever those records are.
pub proof fn lemma_unrelated_calls_kept(m: LiveCalls, rs: Seq<RecordView>, k: Seq<char>)
    requires
        forall|i: int| 0 <= i < rs.len() ==> (#[trigger] rs[i]).call_id != k,
    ensures
        run(m, rs).0.contains_key(k) == m.contains_key(k),
        m.contains_key(k) ==> run(m, rs).0[k] == m[k],
    decreases rs.len(),
{
    if rs.len() > 0 {
        let p = rs.drop_last();
        assert forall|i: int| 0 <= i < p.len() implies (#[trigger] p[i]).call_id != k by {
            assert(p[i] == rs[i]);
        }
        lemma_unrelated_calls_kept(m, p, k);
        assert(rs.last() == rs[rs.len() - 1]);
    }
}

} // verus!
