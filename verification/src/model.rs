//! The ticket model and its in-memory store. The store is an ordered
//! collection of slots; a slot index is the ticket id, and deletion leaves a
//! tombstone (an empty slot) so that ids stay stable and are never reused.

use vstd::prelude::*;

use crate::ctx::Ctx;
use crate::error::Error;
use crate::error::TicketResult;

verus! {

/// A unit of work record.
#[derive(Debug)]
pub struct Ticket {
    pub id: u64,
    pub cid: u64,
    pub title: String,
}

/// The mathematical value of a ticket.
pub ghost struct TicketView {
    pub id: u64,
    pub cid: u64,
    pub title: Seq<char>,
}

impl View for Ticket {
    type V = TicketView;

    open spec fn view(&self) -> TicketView {
        TicketView { id: self.id, cid: self.cid, title: self.title@ }
    }
}

impl Ticket {
    /// A copy with the same id, creator and title.
    pub fn duplicate(&self) -> (r: Ticket)
        ensures
            r@ == self@,
    {
        Ticket { id: self.id, cid: self.cid, title: self.title.clone() }
    }
}

/// The payload for creating a ticket.
pub struct TicketForCreate {
    pub title: String,
}

/// A store slot is sound when the ticket it holds (if any) carries the
/// slot's own index as its id.
pub open spec fn store_wf(s: Seq<Option<TicketView>>) -> bool {
    forall|i: int| 0 <= i < s.len() ==> ((#[trigger] s[i]) matches Some(t) ==> t.id == i)
}

/// The tickets a listing returns: the contents of the non-empty slots, in
/// slot (= creation) order.
pub open spec fn spec_list(s: Seq<Option<TicketView>>) -> Seq<TicketView>
    decreases s.len(),
{
    if s.len() == 0 {
        Seq::empty()
    } else {
        spec_list(s.drop_last()) + (match s.last() {
            Some(t) => seq![t],
            None => Seq::empty(),
        })
    }
}

/// The views of a sequence of tickets.
pub open spec fn tickets_views(s: Seq<Ticket>) -> Seq<TicketView> {
    s.map_values(|t: Ticket| t@)
}

/// What one create operation does to a store: the new ticket takes the next
/// sequential id (the slot count), and its slot is appended.
pub open spec fn spec_create(
    s: Seq<Option<TicketView>>,
    cid: u64,
    title: Seq<char>,
) -> (Seq<Option<TicketView>>, TicketView) {
    let t = TicketView { id: s.len() as u64, cid, title };
    (s.push(Some(t)), t)
}

/// What one delete operation does to a store: a live slot is emptied and
/// its ticket returned; anything else is the not-found error, with the
/// store unchanged.
pub open spec fn spec_delete(s: Seq<Option<TicketView>>, id: u64) -> (
    Seq<Option<TicketView>>,
    Result<TicketView, Error>,
) {
    if id < s.len() && s[id as int] is Some {
        (s.update(id as int, None), Ok(s[id as int]->Some_0))
    } else {
        (s, Err(Error::TicketDeleteFailIdNotFound { id }))
    }
}

/// The store after a sequence of create operations, each given as the
/// creator's id and the title.
pub open spec fn run_creates(
    s: Seq<Option<TicketView>>,
    ops: Seq<(u64, Seq<char>)>,
) -> Seq<Option<TicketView>>
    decreases ops.len(),
{
    if ops.len() == 0 {
        s
    } else {
        run_creates(spec_create(s, ops[0].0, ops[0].1).0, ops.drop_first())
    }
}

/// The ids returned by a sequence of create operations, in order.
pub open spec fn create_ids(s: Seq<Option<TicketView>>, ops: Seq<(u64, Seq<char>)>) -> Seq<u64>
    decreases ops.len(),
{
    if ops.len() == 0 {
        Seq::empty()
    } else {
        seq![spec_create(s, ops[0].0, ops[0].1).1.id] + create_ids(
            spec_create(s, ops[0].0, ops[0].1).0,
            ops.drop_first(),
        )
    }
}

/// Starting from any store, the ids handed out by consecutive creates are
/// consecutive from the current slot count.
pub proof fn lemma_create_ids_consecutive(s: Seq<Option<TicketView>>, ops: Seq<(u64, Seq<char>)>)
    requires
        s.len() + ops.len() <= u64::MAX,
    ensures
        create_ids(s, ops).len() == ops.len(),
        forall|k: int| 0 <= k < ops.len() ==> create_ids(s, ops)[k] == s.len() + k,
    decreases ops.len(),
{
    if ops.len() > 0 {
        let s1 = spec_create(s, ops[0].0, ops[0].1).0;
        lemma_create_ids_consecutive(s1, ops.drop_first());
    }
}

/// For every sequence of create operations on a fresh store, the returned
/// ids are strictly increasing and start at zero: the k-th create returns
/// exactly k.
pub proof fn lemma_create_ids_strictly_increasing(ops: Seq<(u64, Seq<char>)>)
    requires
        ops.len() <= u64::MAX,
    ensures
        create_ids(Seq::empty(), ops).len() == ops.len(),
        forall|k: int| 0 <= k < ops.len() ==> create_ids(Seq::empty(), ops)[k] == k,
        ops.len() > 0 ==> create_ids(Seq::empty(), ops)[0] == 0,
        forall|k1: int, k2: int|
            0 <= k1 < k2 < ops.len() ==> create_ids(Seq::empty(), ops)[k1] < create_ids(
                Seq::empty(),
                ops,
            )[k2],
{
    lemma_create_ids_consecutive(Seq::empty(), ops);
}

/// Deleting the same id twice: the first call returns the ticket and
/// empties the slot, so the second call fails with the not-found error and
/// changes nothing.
pub proof fn lemma_delete_twice(s: Seq<Option<TicketView>>, id: u64)
    requires
        id < s.len(),
        s[id as int] is Some,
    ensures
        spec_delete(s, id).1 == Ok::<TicketView, Error>(s[id as int]->Some_0),
        spec_delete(spec_delete(s, id).0, id).1 == Err::<TicketView, Error>(
            Error::TicketDeleteFailIdNotFound { id },
        ),
        spec_delete(spec_delete(s, id).0, id).0 == spec_delete(s, id).0,
{
}

/// In a sound store, every listed ticket comes from the live slot indexed
/// by its own id.
pub proof fn lemma_list_elements(s: Seq<Option<TicketView>>)
    requires
        store_wf(s),
    ensures
        forall|k: int|
            0 <= k < spec_list(s).len() ==> (#[trigger] spec_list(s)[k]).id < s.len() && s[spec_list(
                s,
            )[k].id as int] == Some(spec_list(s)[k]),
    decreases s.len(),
{
    if s.len() > 0 {
        let d = s.drop_last();
        assert forall|i: int| 0 <= i < d.len() implies ((#[trigger] d[i]) matches Some(t) ==> t.id
            == i) by {
            assert(d[i] == s[i]);
        }
        lemma_list_elements(d);
        let a = spec_list(d);
        assert forall|k: int| 0 <= k < spec_list(s).len() implies (#[trigger] spec_list(s)[k]).id
            < s.len() && s[spec_list(s)[k].id as int] == Some(spec_list(s)[k]) by {
            if k < a.len() {
                assert(spec_list(s)[k] == a[k]);
                assert(d[a[k].id as int] == s[a[k].id as int]);
            } else {
                let t = s.last()->Some_0;
                assert(s[s.len() - 1] == s.last());
                assert(t.id == s.len() - 1);
                assert(spec_list(s)[k] == t);
            }
        }
    }
}

/// A filter that every element passes leaves the sequence unchanged.
pub proof fn lemma_filter_all_kept(l: Seq<TicketView>, pred: spec_fn(TicketView) -> bool)
    requires
        forall|k: int| 0 <= k < l.len() ==> pred(#[trigger] l[k]),
    ensures
        l.filter(pred) == l,
    decreases l.len(),
{
    reveal(Seq::filter);
    if l.len() == 0 {
        assert(l.filter(pred) =~= l);
    } else {
        let d = l.drop_last();
        assert forall|k: int| 0 <= k < d.len() implies pred(#[trigger] d[k]) by {
            assert(d[k] == l[k]);
        }
        lemma_filter_all_kept(d, pred);
        assert(pred(l[l.len() - 1]));
        assert(l.filter(pred) =~= l);
    }
}

/// Listing after a delete: the deleted ticket (and nothing else) is gone,
/// and the surviving tickets keep their creation order. No listed ticket
/// carries the deleted id.
pub proof fn lemma_list_after_delete(s: Seq<Option<TicketView>>, id: u64)
    requires
        store_wf(s),
    ensures
        spec_list(spec_delete(s, id).0) == spec_list(s).filter(|t: TicketView| t.id != id),
        forall|k: int|
            0 <= k < spec_list(spec_delete(s, id).0).len() ==> (#[trigger] spec_list(
                spec_delete(s, id).0,
            )[k]).id != id,
    decreases s.len(),
{
    reveal(Seq::filter);
    let p = |t: TicketView| t.id != id;
    let s2 = spec_delete(s, id).0;
    if s.len() == 0 {
        assert(spec_list(s).filter(p) =~= spec_list(s));
    } else if !(id < s.len() && s[id as int] is Some) {
        lemma_list_elements(s);
        assert forall|k: int| 0 <= k < spec_list(s).len() implies p(#[trigger] spec_list(s)[k]) by {
            let t = spec_list(s)[k];
            if t.id == id {
                assert(s[id as int] == Some(t));
            }
        }
        lemma_filter_all_kept(spec_list(s), p);
    } else {
        let d = s.drop_last();
        assert forall|i: int| 0 <= i < d.len() implies ((#[trigger] d[i]) matches Some(t) ==> t.id
            == i) by {
            assert(d[i] == s[i]);
        }
        let a = spec_list(d);
        if id == s.len() - 1 {
            let t = s.last()->Some_0;
            assert(s[s.len() - 1] == s.last());
            assert(t.id == id);
            assert(s2.drop_last() =~= d);
            assert(s2.last() is None);
            assert(spec_list(s2) == spec_list(s2.drop_last()));
            assert(spec_list(s) == a + seq![t]);
            assert((a + seq![t]).drop_last() =~= a);
            assert((a + seq![t]).last() == t);
            assert(!p(t));
            assert(spec_list(s).filter(p) == a.filter(p));
            lemma_list_elements(d);
            assert forall|k: int| 0 <= k < a.len() implies p(#[trigger] a[k]) by {
                assert(a[k].id < d.len());
            }
            lemma_filter_all_kept(a, p);
            assert(spec_list(s2) == spec_list(s).filter(p));
        } else {
            let d2 = d.update(id as int, None);
            assert(s2.drop_last() =~= d2);
            assert(s2.last() == s.last());
            assert(d[id as int] == s[id as int]);
            lemma_list_after_delete(d, id);
            assert(spec_delete(d, id).0 == d2);
            assert(spec_list(d2) == a.filter(p));
            match s.last() {
                Some(t) => {
                    assert(s[s.len() - 1] == s.last());
                    assert(t.id == s.len() - 1);
                    assert(p(t));
                    assert(spec_list(s2) == spec_list(d2) + seq![t]);
                    assert(spec_list(s) == a + seq![t]);
                    assert((a + seq![t]).drop_last() =~= a);
                    assert((a + seq![t]).last() == t);
                    assert(spec_list(s).filter(p) == a.filter(p).push(t));
                    assert(a.filter(p) + seq![t] =~= a.filter(p).push(t));
                    assert(spec_list(s2) == spec_list(s).filter(p));
                },
                None => {
                    assert(spec_list(s2) == spec_list(d2) + Seq::<TicketView>::empty());
                    assert(spec_list(d2) + Seq::<TicketView>::empty() =~= spec_list(d2));
                    assert(spec_list(s) == a + Seq::<TicketView>::empty());
                    assert(a + Seq::<TicketView>::empty() =~= a);
                    assert(spec_list(s).filter(p) == a.filter(p));
                    assert(spec_list(s2) == spec_list(s).filter(p));
                },
            }
        }
    }
    assert forall|k: int| 0 <= k < spec_list(s2).len() implies (#[trigger] spec_list(s2)[k]).id
        != id by {
        spec_list(s).lemma_filter_pred(p, k);
    }
}

/// A tombstoned (or never assigned) id is absent from every listing, and it
/// stays that way: a create never touches an existing slot, so the id can
/// never come back.
pub proof fn lemma_deleted_id_stays_unlisted(
    s: Seq<Option<TicketView>>,
    id: u64,
    cid: u64,
    title: Seq<char>,
)
    requires
        store_wf(s),
        id < s.len() ==> s[id as int] is None,
    ensures
        forall|k: int| 0 <= k < spec_list(s).len() ==> (#[trigger] spec_list(s)[k]).id != id,
        id < s.len() ==> spec_create(s, cid, title).0[id as int] is None,
{
    lemma_list_elements(s);
    assert forall|k: int| 0 <= k < spec_list(s).len() implies (#[trigger] spec_list(s)[k]).id
        != id by {
        let t = spec_list(s)[k];
        if t.id == id {
            assert(s[id as int] == Some(t));
        }
    }
}

/// The in-memory ticket store. Stands in for a database connection: one
/// growable list of slots, where the slot index is the sequential id.
pub struct ModelController {
    tickets_store: Vec<Option<Ticket>>,
}

impl View for ModelController {
    type V = Seq<Option<TicketView>>;

    closed spec fn view(&self) -> Seq<Option<TicketView>> {
        self.tickets_store@.map_values(
            |slot: Option<Ticket>|
                match slot {
                    Some(t) => Some(t@),
                    None => None,
                },
        )
    }
}

impl ModelController {
    /// Every store reachable through this interface keeps sound slots.
    pub open spec fn wf(&self) -> bool {
        store_wf(self@)
    }

    /// A fresh, empty store.
    pub fn new() -> (r: TicketResult<Self>)
        ensures
            r matches Ok(mc) && mc@ == Seq::<Option<TicketView>>::empty() && mc.wf(),
    {
        let mc = ModelController { tickets_store: Vec::new() };
        proof {
            assert(mc@ =~= Seq::<Option<TicketView>>::empty());
        }
        Ok(mc)
    }

    /// Create a ticket: the new ticket takes the next sequential id (the
    /// current number of slots), the caller's user id and the given title,
    /// and is appended to the store. Always succeeds.
    pub fn create_ticket(&mut self, c: Ctx, ticket_fc: TicketForCreate) -> (r: TicketResult<
        Ticket,
    >)
        requires
            old(self).wf(),
        ensures
            final(self).wf(),
            r matches Ok(t) && {
                &&& t@.id == old(self)@.len()
                &&& t@.cid == c.user_id
                &&& t@.title == ticket_fc.title@
                &&& final(self)@ == old(self)@.push(Some(t@))
                &&& t@ == spec_create(old(self)@, c.user_id, ticket_fc.title@).1
                &&& final(self)@ == spec_create(old(self)@, c.user_id, ticket_fc.title@).0
            },
    {
        let id = self.tickets_store.len() as u64;
        let cid = c.user_id();
        let title = ticket_fc.title;
        let stored = Ticket { id, cid, title: title.clone() };
        let ghost prev = self@;
        self.tickets_store.push(Some(stored));
        let t = Ticket { id, cid, title };
        proof {
            assert(self@ =~= prev.push(Some(t@)));
        }
        Ok(t)
    }

    /// List the live tickets: exactly the contents of the non-empty slots,
    /// in creation order. Always succeeds and never mutates the store.
    pub fn list_tickets(&self, c: Ctx) -> (r: TicketResult<Vec<Ticket>>)
        ensures
            r matches Ok(v) && tickets_views(v@) == spec_list(self@),
    {
        let mut out: Vec<Ticket> = Vec::new();
        let mut i: usize = 0;
        let n = self.tickets_store.len();
        proof {
            assert(tickets_views(out@) =~= spec_list(self@.subrange(0, 0)));
        }
        while i < n
            invariant
                0 <= i <= n,
                n == self.tickets_store.len(),
                tickets_views(out@) == spec_list(self@.subrange(0, i as int)),
            decreases n - i,
        {
            let ghost prefix = self@.subrange(0, i as int);
            let ghost ext = self@.subrange(0, i + 1int);
            proof {
                assert(ext.drop_last() =~= prefix);
                assert(ext.last() == self@[i as int]);
            }
            match &self.tickets_store[i] {
                Some(t) => {
                    let ghost prev_out = out@;
                    out.push(t.duplicate());
                    proof {
                        assert(tickets_views(out@) =~= tickets_views(prev_out).push(t@));
                        assert(tickets_views(out@) =~= spec_list(ext));
                    }
                },
                None => {
                    proof {
                        assert(tickets_views(out@) =~= spec_list(ext));
                    }
                },
            }
            i += 1;
        }
        proof {
            assert(self@.subrange(0, n as int) =~= self@);
        }
        Ok(out)
    }

    /// Delete a ticket by id: if the slot exists and still holds a ticket,
    /// the ticket is returned and the slot becomes a tombstone; otherwise
    /// (never assigned, or already removed) the not-found error is returned
    /// and the store is unchanged.
    pub fn delete_ticket(&mut self, id: u64, c: Ctx) -> (r: TicketResult<Ticket>)
        requires
            old(self).wf(),
        ensures
            final(self).wf(),
            final(self)@ == spec_delete(old(self)@, id).0,
            match r {
                Ok(t) => spec_delete(old(self)@, id).1 == Ok::<TicketView, Error>(t@),
                Err(e) => spec_delete(old(self)@, id).1 == Err::<TicketView, Error>(e),
            },
            if id < old(self)@.len() && old(self)@[id as int] is Some {
                r matches Ok(t) && t@ == old(self)@[id as int]->Some_0 && final(self)@ == old(
                    self,
                )@.update(id as int, None)
            } else {
                r == Err::<Ticket, Error>(Error::TicketDeleteFailIdNotFound { id })
                    && final(self)@ == old(self)@
            },
    {
        let n = self.tickets_store.len();
        if id < n as u64 {
            let idx = id as usize;
            let found = match &self.tickets_store[idx] {
                Some(t) => Some(t.duplicate()),
                None => None,
            };
            match found {
                Some(t) => {
                    let ghost prev = self@;
                    self.tickets_store[idx] = None;
                    proof {
                        assert(self@ =~= prev.update(id as int, None));
                    }
                    Ok(t)
                },
                None => Err(Error::TicketDeleteFailIdNotFound { id }),
            }
        } else {
            Err(Error::TicketDeleteFailIdNotFound { id })
        }
    }
}

} // verus!
