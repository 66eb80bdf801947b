//! The coordination state as it is persisted.

use vstd::prelude::*;

use crate::orchestration::healing_queue::{HealRec, HealingRecord};

verus! {

/// What survives a restart besides the sessions themselves.
#[derive(Debug)]
pub struct OrchestratorState {
    pub my_user_id: String,
    /// Messages processed before. Written empty; read from records that carry it.
    pub processed_ids: Vec<String>,
    pub healing_records: Vec<HealingRecord>,
    /// Devices whose opening is in flight.
    pub init_locks: Vec<String>,
    pub archives: Vec<(String, Vec<u8>)>,
    pub archive_timestamps: Vec<(String, u64)>,
    pub prekey_tracker: Vec<(String, u32)>,
    /// Fingerprint of the hybrid identity key pinned for each device.
    pub hybrid_pins: Vec<(String, [u8; 32])>,
}

/// An `OrchestratorState` by what its fields hold.
pub struct StateView {
    pub my_user_id: Seq<char>,
    pub processed_ids: Seq<Seq<char>>,
    pub healing_records: Seq<HealRec>,
    pub init_locks: Seq<Seq<char>>,
    pub archives: Seq<(Seq<char>, Seq<u8>)>,
    pub archive_timestamps: Seq<(Seq<char>, u64)>,
    pub prekey_tracker: Seq<(Seq<char>, u32)>,
    pub hybrid_pins: Seq<(Seq<char>, Seq<u8>)>,
}

impl DeepView for OrchestratorState {
    type V = StateView;

    open spec fn deep_view(&self) -> StateView {
        StateView {
            my_user_id: self.my_user_id@,
            processed_ids: self.processed_ids.deep_view(),
            healing_records: self.healing_records.deep_view(),
            init_locks: self.init_locks.deep_view(),
            archives: self.archives.deep_view(),
            archive_timestamps: self.archive_timestamps.deep_view(),
            prekey_tracker: self.prekey_tracker.deep_view(),
            hybrid_pins: self.hybrid_pins.deep_view(),
        }
    }
}

/// Two lists of the same entries, each listed once, in any order.
pub open spec fn same_entries<T>(a: Seq<T>, b: Seq<T>) -> bool {
    &&& a.no_duplicates()
    &&& b.no_duplicates()
    &&& a.len() == b.len()
    &&& forall|x: T| #[trigger] a.contains(x) <==> b.contains(x)
}

/// Two states that list the same, in any order, and no processed messages.
pub open spec fn same_content(s: StateView, t: StateView) -> bool {
    &&& s.my_user_id == t.my_user_id
    &&& s.processed_ids.len() == 0 && t.processed_ids.len() == 0
    &&& same_entries(s.healing_records, t.healing_records)
    &&& same_entries(s.init_locks, t.init_locks)
    &&& same_entries(s.archives, t.archives)
    &&& same_entries(s.archive_timestamps, t.archive_timestamps)
    &&& same_entries(s.prekey_tracker, t.prekey_tracker)
    &&& same_entries(s.hybrid_pins, t.hybrid_pins)
}

/// Two orders of the same keys list the same entries, if each entry names its key.
pub proof fn listed_in_any_order<T>(
    a: Seq<Seq<char>>,
    b: Seq<Seq<char>>,
    f: spec_fn(Seq<char>) -> T,
    key: spec_fn(T) -> Seq<char>,
)
    requires
        a.no_duplicates(),
        b.no_duplicates(),
        forall|k: Seq<char>| #[trigger] a.contains(k) <==> b.contains(k),
        forall|k: Seq<char>| a.contains(k) ==> key(#[trigger] f(k)) == k,
    ensures
        same_entries(a.map_values(f), b.map_values(f)),
{
    assert(a.to_set() =~= b.to_set());
    a.unique_seq_to_set();
    b.unique_seq_to_set();
    listed_once(a, f, key);
    listed_once(b, f, key);
    let x = a.map_values(f);
    let y = b.map_values(f);
    assert forall|t: T| #[trigger] x.contains(t) <==> y.contains(t) by {
        if x.contains(t) {
            let i = choose|i: int| 0 <= i < x.len() && x[i] == t;
            assert(a.contains(a[i]));
            let j = choose|j: int| 0 <= j < b.len() && b[j] == a[i];
            assert(y[j] == t);
        }
        if y.contains(t) {
            let i = choose|i: int| 0 <= i < y.len() && y[i] == t;
            assert(b.contains(b[i]));
            assert(a.contains(b[i]));
            let j = choose|j: int| 0 <= j < a.len() && a[j] == b[i];
            assert(x[j] == t);
        }
    }
}

proof fn listed_once<T>(
    a: Seq<Seq<char>>,
    f: spec_fn(Seq<char>) -> T,
    key: spec_fn(T) -> Seq<char>,
)
    requires
        a.no_duplicates(),
        forall|k: Seq<char>| a.contains(k) ==> key(#[trigger] f(k)) == k,
    ensures
        a.map_values(f).no_duplicates(),
{
    let x = a.map_values(f);
    assert forall|i: int, j: int| 0 <= i < x.len() && 0 <= j < x.len() && i != j implies x[i]
        != x[j] by {
        assert(a.contains(a[i]) && a.contains(a[j]));
        assert(key(f(a[i])) == a[i]);
        assert(key(f(a[j])) == a[j]);
    }
}

} // verus!
