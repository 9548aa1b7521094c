use crate::views_of;
use vstd::prelude::*;

verus! {

/// Maximum number of identifiers the history keeps.
pub const HISTORY_CAP: usize = 5;

/// A history is valid when it holds at most `HISTORY_CAP` identifiers and no
/// identifier twice.
pub open spec fn valid_history(s: Seq<Seq<char>>) -> bool {
    &&& s.len() <= HISTORY_CAP
    &&& forall|i: int, j: int| 0 <= i < j < s.len() ==> s[i] != s[j]
}

/// `s` with every occurrence of `id` removed, order otherwise kept.
pub open spec fn removed(s: Seq<Seq<char>>, id: Seq<char>) -> Seq<Seq<char>>
    decreases s.len(),
{
    if s.len() == 0 {
        Seq::empty()
    } else {
        let p = removed(s.drop_last(), id);
        if s.last() == id {
            p
        } else {
            p.push(s.last())
        }
    }
}

/// The history after `id` is touched: `id` moves to the front, its former
/// slot disappears, and the least recent identifier is evicted if the history
/// would otherwise outgrow its bound.
pub open spec fn touched(s: Seq<Seq<char>>, id: Seq<char>) -> Seq<Seq<char>> {
    let r = seq![id] + removed(s, id);
    if r.len() > HISTORY_CAP {
        r.take(HISTORY_CAP as int)
    } else {
        r
    }
}

/// `s` with later duplicates dropped, keeping each identifier's first
/// occurrence.
pub open spec fn deduped(s: Seq<Seq<char>>) -> Seq<Seq<char>>
    decreases s.len(),
{
    if s.len() == 0 {
        Seq::empty()
    } else {
        let p = deduped(s.drop_last());
        if p.contains(s.last()) {
            p
        } else {
            p.push(s.last())
        }
    }
}

/// The history restored from a persisted sequence of identifiers: duplicates
/// collapse onto their first occurrence and the result is bounded.
pub open spec fn restored(s: Seq<Seq<char>>) -> Seq<Seq<char>> {
    let d = deduped(s);
    if d.len() > HISTORY_CAP {
        d.take(HISTORY_CAP as int)
    } else {
        d
    }
}

/// Bounded, order-preserving set of recently opened archive identifiers,
/// most recent first.
pub struct RecencyStore {
    order: Vec<String>,
}

impl View for RecencyStore {
    type V = Seq<Seq<char>>;

    closed spec fn view(&self) -> Seq<Seq<char>> {
        views_of(self.order@)
    }
}

proof fn lemma_removed_elems(s: Seq<Seq<char>>, id: Seq<char>)
    ensures
        removed(s, id).len() <= s.len(),
        forall|k: int| 0 <= k < removed(s, id).len() ==> removed(s, id)[k] != id,
        forall|k: int| 0 <= k < removed(s, id).len() ==> s.contains(#[trigger] removed(s, id)[k]),
    decreases s.len(),
{
    if s.len() > 0 {
        lemma_removed_elems(s.drop_last(), id);
        assert forall|k: int| 0 <= k < removed(s, id).len() implies s.contains(
            #[trigger] removed(s, id)[k],
        ) by {
            let p = removed(s.drop_last(), id);
            if k < p.len() {
                let x = p[k];
                assert(s.drop_last().contains(x));
                let w = choose|w: int| 0 <= w < s.drop_last().len() && s.drop_last()[w] == x;
                assert(s[w] == x);
            } else {
                assert(removed(s, id)[k] == s.last());
                assert(s[s.len() - 1] == s.last());
            }
        }
    }
}

proof fn lemma_removed_unique(s: Seq<Seq<char>>, id: Seq<char>)
    requires
        forall|i: int, j: int| 0 <= i < j < s.len() ==> s[i] != s[j],
    ensures
        forall|i: int, j: int|
            0 <= i < j < removed(s, id).len() ==> removed(s, id)[i] != removed(s, id)[j],
    decreases s.len(),
{
    if s.len() > 0 {
        let t = s.drop_last();
        assert(forall|i: int, j: int| 0 <= i < j < t.len() ==> t[i] != t[j]);
        lemma_removed_unique(t, id);
        lemma_removed_elems(t, id);
        let p = removed(t, id);
        if s.last() != id {
            assert forall|i: int, j: int|
                0 <= i < j < removed(s, id).len() implies removed(s, id)[i] != removed(
                s,
                id,
            )[j] by {
                if j == p.len() {
                    let x = p[i];
                    assert(t.contains(x));
                    let w = choose|w: int| 0 <= w < t.len() && t[w] == x;
                    assert(s[w] == x);
                    assert(s[s.len() - 1] == s.last());
                }
            }
        }
    }
}

proof fn lemma_removed_absent(s: Seq<Seq<char>>, id: Seq<char>)
    requires
        forall|k: int| 0 <= k < s.len() ==> s[k] != id,
    ensures
        removed(s, id) =~= s,
    decreases s.len(),
{
    if s.len() > 0 {
        let t = s.drop_last();
        assert(forall|k: int| 0 <= k < t.len() ==> t[k] != id);
        lemma_removed_absent(t, id);
        assert(s.last() != id);
    }
}

proof fn lemma_deduped_of_unique(s: Seq<Seq<char>>)
    requires
        forall|i: int, j: int| 0 <= i < j < s.len() ==> s[i] != s[j],
    ensures
        deduped(s) =~= s,
    decreases s.len(),
{
    if s.len() > 0 {
        let t = s.drop_last();
        assert(forall|i: int, j: int| 0 <= i < j < t.len() ==> t[i] != t[j]);
        lemma_deduped_of_unique(t);
        if t.contains(s.last()) {
            let w = choose|w: int| 0 <= w < t.len() && t[w] == s.last();
            assert(s[w] == s.last());
            assert(s[s.len() - 1] == s.last());
            assert(false);
        }
    }
}

proof fn lemma_deduped_unique(s: Seq<Seq<char>>)
    ensures
        forall|i: int, j: int| 0 <= i < j < deduped(s).len() ==> deduped(s)[i] != deduped(s)[j],
    decreases s.len(),
{
    if s.len() > 0 {
        lemma_deduped_unique(s.drop_last());
        let p = deduped(s.drop_last());
        if !p.contains(s.last()) {
            assert forall|i: int, j: int|
                0 <= i < j < deduped(s).len() implies deduped(s)[i] != deduped(s)[j] by {
                if j == p.len() {
                    assert(p.contains(p[i]));
                }
            }
        }
    }
}

/// Law (idempotent re-touch): touching the identifier that is already most
/// recent leaves a valid history unchanged, in both order and size.
pub proof fn law_retouch_most_recent(s: Seq<Seq<char>>, id: Seq<char>)
    requires
        valid_history(s),
        s.len() > 0,
        s[0] == id,
    ensures
        touched(s, id) == s,
{
    let t = s.drop_first();
    assert(forall|k: int| 0 <= k < t.len() ==> t[k] == s[k + 1]);
    assert(forall|k: int| 0 <= k < t.len() ==> t[k] != id);
    lemma_removed_first(s, id);
    lemma_removed_absent(t, id);
    assert(seq![id] + t =~= s);
}

/// Removing the head element `id` of a history whose tail lacks `id` leaves
/// the tail.
proof fn lemma_removed_first(s: Seq<Seq<char>>, id: Seq<char>)
    requires
        s.len() > 0,
        s[0] == id,
        forall|k: int| 1 <= k < s.len() ==> s[k] != id,
    ensures
        removed(s, id) =~= s.drop_first(),
    decreases s.len(),
{
    if s.len() == 1 {
        assert(s.last() == id);
        assert(s.drop_last().len() == 0);
        assert(removed(s.drop_last(), id) =~= Seq::<Seq<char>>::empty());
        assert(s.drop_first().len() == 0);
    } else {
        let t = s.drop_last();
        assert(t[0] == id);
        assert(forall|k: int| 1 <= k < t.len() ==> t[k] == s[k]);
        lemma_removed_first(t, id);
        assert(s.last() == s[s.len() - 1]);
        assert(s.last() != id);
        assert(removed(s, id) =~= t.drop_first().push(s.last()));
        assert(t.drop_first().push(s.last()) =~= s.drop_first());
    }
}

/// Law (touch bound): a touch never grows the history past its bound, and
/// always leaves the touched identifier at the front of a valid history.
pub proof fn law_touch_bound(s: Seq<Seq<char>>, id: Seq<char>)
    requires
        valid_history(s),
    ensures
        touched(s, id).len() <= HISTORY_CAP,
        touched(s, id).len() > 0 && touched(s, id)[0] == id,
        valid_history(touched(s, id)),
{
    lemma_removed_elems(s, id);
    lemma_removed_unique(s, id);
}

/// Law (round trip): persisting a valid history and restoring it reproduces
/// the same identifiers in the same order.
pub proof fn law_history_round_trip(s: Seq<Seq<char>>)
    requires
        valid_history(s),
    ensures
        restored(s) == s,
{
    lemma_deduped_of_unique(s);
}

impl RecencyStore {
    pub open spec fn wf(&self) -> bool {
        valid_history(self@)
    }

    pub fn new() -> (s: Self)
        ensures
            s@ == Seq::<Seq<char>>::empty(),
            s.wf(),
    {
        let s = RecencyStore { order: Vec::new() };
        proof {
            assert(s@ =~= Seq::<Seq<char>>::empty());
        }
        s
    }

    pub fn len(&self) -> (n: usize)
        ensures
            n == self@.len(),
    {
        self.order.len()
    }

    /// The identifier at rank `i`; rank 0 is the most recent.
    pub fn get(&self, i: usize) -> (id: &String)
        requires
            i < self@.len(),
        ensures
            id@ == self@[i as int],
    {
        &self.order[i]
    }

    /// Mark `id` as most recently used: move it to the front (inserting it if
    /// absent) and evict the least recent identifier if the history would
    /// outgrow its bound.
    pub fn touch(&mut self, id: String)
        requires
            old(self).wf(),
        ensures
            final(self).wf(),
            final(self)@ == touched(old(self)@, id@),
    {
        let ghost s0: Seq<Seq<char>> = self@;
        let mut kept: Vec<String> = Vec::new();
        kept.push(id.clone());
        let n = self.order.len();
        let mut i: usize = 0;
        while i < n
            invariant
                n == self.order@.len(),
                i <= n,
                self@ == s0,
                views_of(kept@) == seq![id@] + removed(s0.take(i as int), id@),
            decreases n - i,
        {
            proof {
                assert(s0.take(i + 1).drop_last() =~= s0.take(i as int));
                assert(s0.take(i + 1).last() == s0[i as int]);
                assert(s0[i as int] == self.order@[i as int]@);
            }
            if !(self.order[i] == id) {
                let e = self.order[i].clone();
                kept.push(e);
                proof {
                    assert(views_of(kept@) =~= (seq![id@] + removed(s0.take(i as int), id@)).push(
                        s0[i as int],
                    ));
                    assert(seq![id@] + removed(s0.take(i + 1), id@) =~= (seq![id@] + removed(
                        s0.take(i as int),
                        id@,
                    )).push(s0[i as int]));
                }
            }
            i += 1;
        }
        proof {
            assert(s0.take(n as int) =~= s0);
        }
        if kept.len() > HISTORY_CAP {
            kept.truncate(HISTORY_CAP);
            proof {
                assert(views_of(kept@) =~= (seq![id@] + removed(s0, id@)).take(
                    HISTORY_CAP as int,
                ));
            }
        }
        self.order = kept;
        proof {
            law_touch_bound(s0, id@);
        }
    }

    /// The persisted form of the history, most recent first.
    pub fn to_list(&self) -> (l: Vec<String>)
        ensures
            views_of(l@) == self@,
    {
        let mut l: Vec<String> = Vec::new();
        let n = self.order.len();
        let mut i: usize = 0;
        while i < n
            invariant
                n == self.order@.len(),
                i <= n,
                views_of(l@) == self@.take(i as int),
            decreases n - i,
        {
            l.push(self.order[i].clone());
            proof {
                assert(views_of(l@) =~= self@.take(i as int).push(self@[i as int]));
                assert(self@.take(i + 1) =~= self@.take(i as int).push(self@[i as int]));
            }
            i += 1;
        }
        proof {
            assert(self@.take(n as int) =~= self@);
        }
        l
    }

    /// Restore a history from its persisted form: later duplicates collapse
    /// onto their first occurrence and the result is bounded.
    pub fn from_list(list: &Vec<String>) -> (s: Self)
        ensures
            s@ == restored(views_of(list@)),
            s.wf(),
    {
        let ghost lv: Seq<Seq<char>> = views_of(list@);
        let mut kept: Vec<String> = Vec::new();
        let n = list.len();
        let mut i: usize = 0;
        while i < n
            invariant
                n == list@.len(),
                i <= n,
                lv == views_of(list@),
                views_of(kept@) == restored(lv.take(i as int)),
                views_of(kept@).len() <= HISTORY_CAP,
            decreases n - i,
        {
            proof {
                assert(lv.take(i + 1).drop_last() =~= lv.take(i as int));
                assert(lv.take(i + 1).last() == lv[i as int]);
                assert(lv[i as int] == list@[i as int]@);
            }
            let ghost d = deduped(lv.take(i as int));
            let ghost d1 = deduped(lv.take(i + 1));
            if kept.len() < HISTORY_CAP {
                proof {
                    assert(views_of(kept@) == d);
                }
                if !holds_id(&kept, &list[i]) {
                    let e = list[i].clone();
                    kept.push(e);
                    proof {
                        assert(!d.contains(lv[i as int]));
                        assert(d1 =~= d.push(lv[i as int]));
                        assert(views_of(kept@) =~= d.push(lv[i as int]));
                    }
                } else {
                    proof {
                        assert(d.contains(lv[i as int]));
                        assert(d1 =~= d);
                    }
                }
            } else {
                proof {
                    assert(d.len() >= HISTORY_CAP);
                    if d.contains(lv[i as int]) {
                        assert(d1 =~= d);
                    } else {
                        assert(d1 =~= d.push(lv[i as int]));
                    }
                    assert(d1.take(HISTORY_CAP as int) =~= d.take(HISTORY_CAP as int));
                }
            }
            i += 1;
        }
        proof {
            assert(lv.take(n as int) =~= lv);
            lemma_deduped_unique(lv);
        }
        RecencyStore { order: kept }
    }
}

/// Whether `list` already holds `id`.
fn holds_id(list: &Vec<String>, id: &String) -> (r: bool)
    ensures
        r == views_of(list@).contains(id@),
{
    let n = list.len();
    let mut i: usize = 0;
    while i < n
        invariant
            n == list@.len(),
            i <= n,
            forall|k: int| 0 <= k < i ==> views_of(list@)[k] != id@,
        decreases n - i,
    {
        if list[i] == *id {
            proof {
                assert(views_of(list@)[i as int] == id@);
            }
            return true;
        }
        i += 1;
    }
    false
}

} // verus!
