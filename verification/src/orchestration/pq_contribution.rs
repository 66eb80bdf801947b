//! ML-KEM contributions that wait for a session to be mixed into.

use vstd::prelude::*;

use crate::orchestration::actions::{Action, ActionView, SecureStoreSlot, SlotView};
use crate::str_map::{self, StrMap};
use crate::vecs;

verus! {

/// A shared secret not yet mixed into the session it belongs to.
#[derive(Debug)]
pub struct DeferredContribution {
    /// The one-time prekey it was made with.
    pub otpk_id: u32,
    pub shared_secret: Vec<u8>,
}

/// A `DeferredContribution` by what its fields hold.
pub struct DeferredView {
    pub otpk_id: u32,
    pub shared_secret: Seq<u8>,
}

impl DeepView for DeferredContribution {
    type V = DeferredView;

    open spec fn deep_view(&self) -> DeferredView {
        DeferredView { otpk_id: self.otpk_id, shared_secret: self.shared_secret@ }
    }
}

impl Clone for DeferredContribution {
    fn clone(&self) -> (r: Self)
        ensures
            r.deep_view() == self.deep_view(),
    {
        DeferredContribution {
            otpk_id: self.otpk_id,
            shared_secret: vecs::bytes(self.shared_secret.as_slice()),
        }
    }
}

/// One contribution and the contact it waits for, as it is persisted.
#[derive(Debug)]
pub struct DeferredEntry {
    pub contact_id: String,
    pub contribution: DeferredContribution,
}

impl DeepView for DeferredEntry {
    type V = (Seq<char>, DeferredView);

    open spec fn deep_view(&self) -> (Seq<char>, DeferredView) {
        (self.contact_id@, self.contribution.deep_view())
    }
}

/// The entries by their contact; of two for one contact the later.
pub open spec fn deferred_map(es: Seq<(Seq<char>, DeferredView)>) -> Map<Seq<char>, DeferredView>
    decreases es.len(),
{
    if es.len() == 0 {
        Map::empty()
    } else {
        deferred_map(es.drop_last()).insert(es.last().0, es.last().1)
    }
}

/// A list of all contributions, each once.
pub open spec fn lists_deferred(
    es: Seq<(Seq<char>, DeferredView)>,
    m: Map<Seq<char>, DeferredView>,
) -> bool {
    exists|order: Seq<Seq<char>>| #[trigger]
        str_map::names_keys(order, m) && es == order.map_values(|k: Seq<char>| (k, m[k]))
}

/// The contributions in waiting, by contact.
pub struct PQContributionManager {
    deferred: StrMap<DeferredContribution>,
}

impl View for PQContributionManager {
    type V = Map<Seq<char>, DeferredView>;

    closed spec fn view(&self) -> Map<Seq<char>, DeferredView> {
        self.deferred@
    }
}

impl PQContributionManager {
    /// Nothing waits.
    pub fn new() -> (r: Self)
        ensures
            r@ == Map::<Seq<char>, DeferredView>::empty(),
    {
        PQContributionManager { deferred: StrMap::new() }
    }

    /// Keeps a shared secret for `contact_id` until its session can take it.
    pub fn register_shared_secret(
        &mut self,
        contact_id: &str,
        otpk_id: u32,
        shared_secret: &[u8],
    ) -> (r: Vec<Action>)
        ensures
            final(self)@ == old(self)@.insert(
                contact_id@,
                DeferredView { otpk_id, shared_secret: shared_secret@ },
            ),
            r.deep_view() == seq![
                ActionView::SaveToSecureStore {
                    slot: SlotView::PqDeferred { contact_id: contact_id@ },
                    data: shared_secret@,
                },
            ],
    {
        self.deferred.insert(
            contact_id.to_owned(),
            DeferredContribution { otpk_id, shared_secret: vecs::bytes(shared_secret) },
        );
        vecs::one(
            Action::SaveToSecureStore {
                slot: SecureStoreSlot::PqDeferred { contact_id: contact_id.to_owned() },
                data: vecs::bytes(shared_secret),
            },
        )
    }

    /// What waits for `contact_id`, left in place.
    pub fn peek_deferred(&self, contact_id: &str) -> (r: Option<DeferredContribution>)
        ensures
            r.deep_view() == str_map::lookup(self@, contact_id@),
    {
        match self.deferred.get(contact_id) {
            Some(c) => Some(c.clone()),
            None => None,
        }
    }

    /// The contribution of `contact_id` is in its session: forgets it, and asks the platform to.
    pub fn finalize_consumed(&mut self, contact_id: &str) -> (r: Vec<Action>)
        ensures
            final(self)@ == old(self)@.remove(contact_id@),
            r.deep_view() == seq![
                ActionView::SaveToSecureStore {
                    slot: SlotView::PqDeferred { contact_id: contact_id@ },
                    data: Seq::empty(),
                },
            ],
    {
        let _ = self.deferred.remove(contact_id);
        vecs::one(
            Action::SaveToSecureStore {
                slot: SecureStoreSlot::PqDeferred { contact_id: contact_id.to_owned() },
                data: Vec::new(),
            },
        )
    }

    /// Forgets what waits for a contact that is being forgotten.
    pub fn discard_for_contact(&mut self, contact_id: &str)
        ensures
            final(self)@ == old(self)@.remove(contact_id@),
    {
        let _ = self.deferred.remove(contact_id);
    }

    /// Everything that waits, each contact once.
    pub fn snapshot(&self) -> (r: Vec<DeferredEntry>)
        ensures
            lists_deferred(r.deep_view(), self@),
    {
        let keys = self.deferred.keys();
        let ghost order = keys.deep_view();
        let ghost whole = order.map_values(|k: Seq<char>| (k, self@[k]));
        let mut out: Vec<DeferredEntry> = vecs::none();
        let mut i: usize = 0;
        while i < keys.len()
            invariant
                i <= keys@.len(),
                order == keys.deep_view(),
                str_map::names_keys(order, self@),
                whole == order.map_values(|k: Seq<char>| (k, self@[k])),
                out.deep_view() == whole.take(i as int),
            decreases keys@.len() - i,
        {
            assert(order[i as int] == keys@[i as int]@);
            assert(order.contains(order[i as int]));
            if let Some(c) = self.deferred.get(keys[i].as_str()) {
                vecs::push(
                    &mut out,
                    DeferredEntry { contact_id: keys[i].clone(), contribution: c.clone() },
                );
            }
            assert(whole.take(i + 1) =~= whole.take(i as int).push(whole[i as int]));
            i = i + 1;
        }
        assert(whole.take(i as int) =~= whole);
        out
    }

    /// Replaces everything that waits.
    pub fn restore(&mut self, entries: Vec<DeferredEntry>)
        ensures
            final(self)@ == deferred_map(entries.deep_view()),
    {
        let ghost all = entries.deep_view();
        let mut fresh: StrMap<DeferredContribution> = StrMap::new();
        let mut i: usize = 0;
        assert(all.take(0) =~= Seq::<(Seq<char>, DeferredView)>::empty());
        while i < entries.len()
            invariant
                i <= entries@.len(),
                all == entries.deep_view(),
                fresh@ == deferred_map(all.take(i as int)),
            decreases entries@.len() - i,
        {
            assert(all.take(i + 1).drop_last() =~= all.take(i as int));
            assert(all.take(i + 1).last() == entries@[i as int].deep_view());
            fresh.insert(entries[i].contact_id.clone(), entries[i].contribution.clone());
            i = i + 1;
        }
        assert(all.take(i as int) =~= all);
        self.deferred = fresh;
    }
}

/// What is listed of the contributions in waiting is read back as it was.
pub proof fn listed_contributions_are_read_back(
    es: Seq<(Seq<char>, DeferredView)>,
    m: Map<Seq<char>, DeferredView>,
)
    requires
        lists_deferred(es, m),
    ensures
        deferred_map(es) == m,
{
    let order = choose|order: Seq<Seq<char>>| #[trigger]
        str_map::names_keys(order, m) && es == order.map_values(|k: Seq<char>| (k, m[k]));
    read_back_so_far(es, order, m, es.len() as int);
    assert(es.take(es.len() as int) =~= es);
    assert forall|k: Seq<char>| deferred_map(es).contains_key(k) <==> m.contains_key(k) by {
        assert(order.contains(k) <==> m.contains_key(k));
        if order.contains(k) {
            let i = choose|i: int| 0 <= i < order.len() && order[i] == k;
            assert(order.take(order.len() as int)[i] == k);
        }
        if deferred_map(es).contains_key(k) {
            assert(order.take(order.len() as int).contains(k));
            assert(order.take(order.len() as int) =~= order);
        }
    }
    assert(deferred_map(es) =~= m);
}

proof fn read_back_so_far(
    es: Seq<(Seq<char>, DeferredView)>,
    order: Seq<Seq<char>>,
    m: Map<Seq<char>, DeferredView>,
    n: int,
)
    requires
        es == order.map_values(|k: Seq<char>| (k, m[k])),
        0 <= n <= es.len(),
    ensures
        forall|k: Seq<char>| #[trigger]
            deferred_map(es.take(n)).contains_key(k) <==> order.take(n).contains(k),
        forall|k: Seq<char>| #[trigger]
            deferred_map(es.take(n)).contains_key(k) ==> deferred_map(es.take(n))[k] == m[k],
    decreases n,
{
    if n > 0 {
        read_back_so_far(es, order, m, n - 1);
        assert(es.take(n).drop_last() =~= es.take(n - 1));
        assert(es.take(n).last() == (order[n - 1], m[order[n - 1]]));
        assert(order.take(n) =~= order.take(n - 1).push(order[n - 1]));
        let before = deferred_map(es.take(n - 1));
        let after = deferred_map(es.take(n));
        assert(after == before.insert(order[n - 1], m[order[n - 1]]));
        assert forall|k: Seq<char>| #[trigger] after.contains_key(k) <==> order.take(n).contains(
            k,
        ) by {
            vecs::push_contains(order.take(n - 1), order[n - 1], k);
            assert(before.contains_key(k) <==> order.take(n - 1).contains(k));
        }
        assert forall|k: Seq<char>| #[trigger] after.contains_key(k) implies after[k] == m[k] by {
            if k != order[n - 1] {
                assert(before.contains_key(k));
            }
        }
    } else {
        assert(es.take(0).len() == 0);
        assert(order.take(0).len() == 0);
    }
}

} // verus!
