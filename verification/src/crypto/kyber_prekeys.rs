//! This device's own Kyber prekeys (ML-KEM-1024).

use vstd::prelude::*;

use crate::vecs;

verus! {

/// Signed prekeys are numbered from 1, one-time prekeys from here.
pub const KYBER_OTPK_ID_START: u32 = 1_000_000;

/// Length of an ML-KEM-1024 public key.
pub const MLKEM1024_PK_SIZE: usize = 1568;

/// How long a signed prekey that was replaced still opens sessions (seconds).
pub const KYBER_SPK_RETENTION_SECS: u64 = 1_209_600;

/// One Kyber prekey: the seed both halves derive from.
#[derive(Debug)]
pub struct KyberPrekey {
    pub key_id: u32,
    pub seed: Vec<u8>,
    /// Unix seconds.
    pub created_at: u64,
    /// When it was replaced (unix seconds); 0 while it is not.
    pub retired_at: u64,
}

/// A `KyberPrekey` by its bytes.
pub struct KyberKeyView {
    pub key_id: u32,
    pub seed: Seq<u8>,
    pub created_at: u64,
    pub retired_at: u64,
}

impl DeepView for KyberPrekey {
    type V = KyberKeyView;

    open spec fn deep_view(&self) -> KyberKeyView {
        KyberKeyView {
            key_id: self.key_id,
            seed: self.seed@,
            created_at: self.created_at,
            retired_at: self.retired_at,
        }
    }
}

impl Clone for KyberPrekey {
    fn clone(&self) -> (r: Self)
        ensures
            r.deep_view() == self.deep_view(),
    {
        KyberPrekey {
            key_id: self.key_id,
            seed: vecs::bytes(self.seed.as_slice()),
            created_at: self.created_at,
            retired_at: self.retired_at,
        }
    }
}

/// A Kyber prekey as it is uploaded to the key service.
#[derive(Debug)]
pub struct KyberPrekeyUpload {
    pub key_id: u32,
    pub public_key: Vec<u8>,
    pub created_at: u64,
    pub signature: Vec<u8>,
    pub hybrid_signature: Vec<u8>,
}

/// A `KyberPrekeyUpload` by its bytes.
pub struct UploadView {
    pub key_id: u32,
    pub public_key: Seq<u8>,
    pub created_at: u64,
    pub signature: Seq<u8>,
    pub hybrid_signature: Seq<u8>,
}

impl DeepView for KyberPrekeyUpload {
    type V = UploadView;

    open spec fn deep_view(&self) -> UploadView {
        UploadView {
            key_id: self.key_id,
            public_key: self.public_key@,
            created_at: self.created_at,
            signature: self.signature@,
            hybrid_signature: self.hybrid_signature@,
        }
    }
}

/// The Kyber prekeys this device holds.
#[derive(Debug)]
pub struct KyberPrekeys {
    /// The signed prekey peers are served.
    pub current: Option<KyberPrekey>,
    /// A signed prekey being uploaded, not yet served.
    pub pending: Option<KyberPrekey>,
    /// Signed prekeys that were replaced, kept for messages still under way.
    pub retired: Vec<KyberPrekey>,
    /// One-time prekeys not yet used.
    pub otpks: Vec<KyberPrekey>,
    pub next_spk_id: u32,
    pub next_otpk_id: u32,
}

/// The contents of `KyberPrekeys`.
#[verifier::ext_equal]
pub struct KyberView {
    pub current: Option<KyberKeyView>,
    pub pending: Option<KyberKeyView>,
    pub retired: Seq<KyberKeyView>,
    pub otpks: Seq<KyberKeyView>,
    pub next_spk_id: u32,
    pub next_otpk_id: u32,
}

impl DeepView for KyberPrekeys {
    type V = KyberView;

    open spec fn deep_view(&self) -> KyberView {
        KyberView {
            current: self.current.deep_view(),
            pending: self.pending.deep_view(),
            retired: self.retired.deep_view(),
            otpks: self.otpks.deep_view(),
            next_spk_id: self.next_spk_id,
            next_otpk_id: self.next_otpk_id,
        }
    }
}

/// The first key with this id.
pub open spec fn first_with_id(keys: Seq<KyberKeyView>, id: u32) -> Option<KyberKeyView>
    decreases keys.len(),
{
    if keys.len() == 0 {
        None
    } else if keys[0].key_id == id {
        Some(keys[0])
    } else {
        first_with_id(keys.drop_first(), id)
    }
}

/// The key with this id: the signed prekey, one that was replaced, or a one-time prekey.
pub open spec fn kyber_find(k: KyberView, id: u32) -> Option<KyberKeyView> {
    if k.current matches Some(c) && c.key_id == id {
        k.current
    } else if first_with_id(k.retired, id) is Some {
        first_with_id(k.retired, id)
    } else {
        first_with_id(k.otpks, id)
    }
}

/// The keys other than those with this id.
pub open spec fn without_id(keys: Seq<KyberKeyView>, id: u32) -> Seq<KyberKeyView> {
    keys.filter(|x: KyberKeyView| x.key_id != id)
}

/// The keys whose id is at least `min`.
pub open spec fn ids_from(keys: Seq<KyberKeyView>, min: u32) -> Seq<KyberKeyView> {
    keys.filter(|x: KyberKeyView| x.key_id >= min)
}

/// Whether a replaced signed prekey still opens sessions at `now`.
pub open spec fn retained(key: KyberKeyView, now_secs: u64) -> bool {
    key.retired_at + KYBER_SPK_RETENTION_SECS >= now_secs
}

/// The key put in place by a rotation, and what becomes of the one it replaces.
pub open spec fn kyber_committed(k: KyberView, now_secs: u64) -> (KyberView, bool) {
    match k.pending {
        None => (k, false),
        Some(p) => (
            KyberView {
                current: Some(p),
                pending: None,
                retired: (match k.current {
                    Some(c) => k.retired.push(KyberKeyView { retired_at: now_secs, ..c }),
                    None => k.retired,
                }).filter(|x: KyberKeyView| retained(x, now_secs)),
                ..k
            },
            true,
        ),
    }
}

fn first_key(keys: &Vec<KyberPrekey>, id: u32) -> (r: Option<KyberPrekey>)
    ensures
        r.deep_view() == first_with_id(keys.deep_view(), id),
{
    let ghost all = keys.deep_view();
    let mut i: usize = 0;
    assert(all.skip(0) =~= all);
    while i < keys.len()
        invariant
            i <= keys@.len(),
            all == keys.deep_view(),
            first_with_id(all, id) == first_with_id(all.skip(i as int), id),
        decreases keys@.len() - i,
    {
        assert(all.skip(i as int).drop_first() =~= all.skip(i + 1));
        assert(all.skip(i as int)[0] == keys@[i as int].deep_view());
        if keys[i].key_id == id {
            return Some(keys[i].clone());
        }
        i = i + 1;
    }
    None
}

/// What filtering keeps of one more key.
proof fn filter_push(s: Seq<KyberKeyView>, x: KyberKeyView, p: spec_fn(KyberKeyView) -> bool)
    ensures
        s.push(x).filter(p) == (if p(x) {
            s.filter(p).push(x)
        } else {
            s.filter(p)
        }),
{
    reveal(Seq::filter);
    assert(s.push(x).drop_last() =~= s);
}

spec fn keeps(by_age: Option<u64>, min: u32, drop: Option<u32>) -> spec_fn(KyberKeyView) -> bool {
    |x: KyberKeyView|
        (by_age matches Some(now_secs) ==> retained(x, now_secs)) && x.key_id >= min && drop
            != Some(x.key_id)
}

fn keys_kept(keys: &Vec<KyberPrekey>, by_age: Option<u64>, min: u32, drop: Option<u32>) -> (r: Vec<
    KyberPrekey,
>)
    ensures
        r.deep_view() == keys.deep_view().filter(keeps(by_age, min, drop)),
{
    let ghost p = keeps(by_age, min, drop);
    let ghost all = keys.deep_view();
    let mut out: Vec<KyberPrekey> = vecs::none();
    let mut i: usize = 0;
    proof {
        reveal(Seq::filter);
        assert(all.take(0) =~= Seq::<KyberKeyView>::empty());
    }
    while i < keys.len()
        invariant
            i <= keys@.len(),
            all == keys.deep_view(),
            p == keeps(by_age, min, drop),
            out.deep_view() == all.take(i as int).filter(p),
        decreases keys@.len() - i,
    {
        proof {
            assert(all.take(i + 1) =~= all.take(i as int).push(all[i as int]));
            filter_push(all.take(i as int), all[i as int], p);
        }
        let dropped = match drop {
            Some(d) => d == keys[i].key_id,
            None => false,
        };
        let fresh = match by_age {
            Some(now_secs) => keys[i].retired_at >= now_secs || now_secs - keys[i].retired_at
                <= KYBER_SPK_RETENTION_SECS,
            None => true,
        };
        if fresh && keys[i].key_id >= min && !dropped {
            vecs::push(&mut out, keys[i].clone());
        }
        i = i + 1;
    }
    assert(all.take(i as int) =~= all);
    out
}

impl KyberPrekeys {
    /// No keys yet.
    pub fn new() -> (r: Self)
        ensures
            well_numbered(r.deep_view()),
            r.deep_view() == (KyberView {
                current: None,
                pending: None,
                retired: Seq::empty(),
                otpks: Seq::empty(),
                next_spk_id: 1,
                next_otpk_id: KYBER_OTPK_ID_START,
            }),
    {
        KyberPrekeys {
            current: None,
            pending: None,
            retired: vecs::none(),
            otpks: vecs::none(),
            next_spk_id: 1,
            next_otpk_id: KYBER_OTPK_ID_START,
        }
    }

    /// The key with this id.
    pub fn find(&self, id: u32) -> (r: Option<KyberPrekey>)
        ensures
            r.deep_view() == kyber_find(self.deep_view(), id),
    {
        if let Some(c) = &self.current {
            if c.key_id == id {
                return Some(c.clone());
            }
        }
        match first_key(&self.retired, id) {
            Some(k) => Some(k),
            None => first_key(&self.otpks, id),
        }
    }

    /// Burns the one-time prekey with this id; whether there was one.
    pub fn remove_otpk(&mut self, id: u32) -> (r: bool)
        ensures
            final(self).deep_view() == (KyberView {
                otpks: without_id(old(self).deep_view().otpks, id),
                ..old(self).deep_view()
            }),
            r == first_with_id(old(self).deep_view().otpks, id) is Some,
    {
        let had = first_key(&self.otpks, id);
        let kept = keys_kept(&self.otpks, None, 0, Some(id));
        assert(keeps(None, 0, Some(id)) =~= (|x: KyberKeyView| x.key_id != id));
        self.otpks = kept;
        had.is_some()
    }

    /// How many one-time prekeys are left.
    pub fn otpk_count(&self) -> (r: usize)
        ensures
            r == self.deep_view().otpks.len(),
    {
        self.otpks.len()
    }

    /// Drops the one-time prekeys numbered below `min_keep_id`; how many.
    pub fn prune_otpks_below(&mut self, min_keep_id: u32) -> (r: usize)
        ensures
            final(self).deep_view() == (KyberView {
                otpks: ids_from(old(self).deep_view().otpks, min_keep_id),
                ..old(self).deep_view()
            }),
            r == old(self).deep_view().otpks.len() - final(self).deep_view().otpks.len(),
    {
        let kept = keys_kept(&self.otpks, None, min_keep_id, None);
        assert(keeps(None, min_keep_id, None) =~= (|x: KyberKeyView| x.key_id >= min_keep_id));
        proof {
            self.deep_view().otpks.lemma_filter_len(|x: KyberKeyView| x.key_id >= min_keep_id);
        }
        let n: usize = self.otpks.len() - kept.len();
        self.otpks = kept;
        n
    }

    /// Puts a fresh signed prekey in waiting; none when the ids are used up.
    pub fn begin_rotation(&mut self, seed: Vec<u8>, now_secs: u64) -> (r: Option<u32>)
        ensures
            ({
                let k = old(self).deep_view();
                if k.next_spk_id < KYBER_OTPK_ID_START - 1 {
                    &&& r == Some(k.next_spk_id)
                    &&& final(self).deep_view() == (KyberView {
                        pending: Some(
                            KyberKeyView {
                                key_id: k.next_spk_id,
                                seed: seed@,
                                created_at: now_secs,
                                retired_at: 0,
                            },
                        ),
                        next_spk_id: (k.next_spk_id + 1) as u32,
                        ..k
                    })
                } else {
                    r is None && final(self).deep_view() == k
                }
            }),
    {
        if self.next_spk_id >= KYBER_OTPK_ID_START - 1 {
            return None;
        }
        let key_id: u32 = self.next_spk_id;
        self.next_spk_id = key_id + 1;
        self.pending = Some(KyberPrekey { key_id, seed, created_at: now_secs, retired_at: 0 });
        Some(key_id)
    }

    /// Makes the prekey in waiting the current one; whether there was one. Replaced prekeys past
    /// their retention are dropped.
    pub fn commit_rotation(&mut self, now_secs: u64) -> (r: bool)
        ensures
            (final(self).deep_view(), r) == kyber_committed(old(self).deep_view(), now_secs),
    {
        let ghost k = self.deep_view();
        match self.pending.take() {
            None => {
                assert(self.deep_view() =~= k);
                false
            },
            Some(p) => {
                if let Some(c) = self.current.take() {
                    let replaced = KyberPrekey { retired_at: now_secs, ..c };
                    vecs::push(&mut self.retired, replaced);
                }
                let kept = keys_kept(&self.retired, Some(now_secs), 0, None);
                assert(keeps(
                    Some(now_secs),
                    0,
                    None,
                ) =~= (|x: KyberKeyView| retained(x, now_secs)));
                self.retired = kept;
                self.current = Some(p);
                assert(self.deep_view() =~= kyber_committed(k, now_secs).0);
                true
            },
        }
    }

    /// Drops the prekey in waiting.
    pub fn rollback_rotation(&mut self)
        ensures
            final(self).deep_view() == (KyberView { pending: None, ..old(self).deep_view() }),
    {
        self.pending = None;
    }

    /// Adds one-time prekeys made from `seeds`, numbered on from the last; none when the ids are
    /// used up.
    pub fn add_otpks(&mut self, seeds: Vec<Vec<u8>>, now_secs: u64) -> (r: Option<u32>)
        ensures
            ({
                let k = old(self).deep_view();
                let n = seeds.deep_view().len();
                if n <= u32::MAX - k.next_otpk_id {
                    &&& r == Some(k.next_otpk_id)
                    &&& final(self).deep_view() == (KyberView {
                        otpks: k.otpks + numbered(seeds.deep_view(), k.next_otpk_id, now_secs),
                        next_otpk_id: (k.next_otpk_id + n) as u32,
                        ..k
                    })
                } else {
                    r is None && final(self).deep_view() == k
                }
            }),
    {
        let ghost k = self.deep_view();
        let ghost all = seeds.deep_view();
        let first: u32 = self.next_otpk_id;
        let room: u32 = u32::MAX - first;
        if seeds.len() > room as usize {
            return None;
        }
        let ghost fresh = numbered(all, first, now_secs);
        let mut i: usize = 0;
        while i < seeds.len()
            invariant
                i <= seeds@.len() <= room,
                all == seeds.deep_view(),
                room == u32::MAX - first,
                fresh == numbered(all, first, now_secs),
                self.deep_view() == (KyberView { otpks: k.otpks + fresh.take(i as int), ..k }),
            decreases seeds@.len() - i,
        {
            assert(all[i as int] =~= seeds@[i as int]@);
            vecs::push(
                &mut self.otpks,
                KyberPrekey {
                    key_id: first + i as u32,
                    seed: vecs::bytes(seeds[i].as_slice()),
                    created_at: now_secs,
                    retired_at: 0,
                },
            );
            assert(k.otpks + fresh.take(i + 1) =~= (k.otpks + fresh.take(i as int)).push(
                fresh[i as int],
            ));
            i = i + 1;
        }
        assert(fresh.take(i as int) =~= fresh);
        self.next_otpk_id = first + seeds.len() as u32;
        Some(first)
    }
}

/// Keys made from `seeds`, numbered from `first`.
pub open spec fn numbered(seeds: Seq<Seq<u8>>, first: u32, now_secs: u64) -> Seq<KyberKeyView> {
    Seq::new(
        seeds.len(),
        |i: int|
            KyberKeyView {
                key_id: (first + i) as u32,
                seed: seeds[i],
                created_at: now_secs,
                retired_at: 0,
            },
    )
}

/// A signed prekey given out so far.
pub open spec fn signed_id(k: KyberView, id: u32) -> bool {
    1 <= id < k.next_spk_id
}

/// A one-time prekey given out so far.
pub open spec fn one_time_id(k: KyberView, id: u32) -> bool {
    KYBER_OTPK_ID_START <= id < k.next_otpk_id
}

/// The ids are in order: signed prekeys are numbered below `KYBER_OTPK_ID_START`, one-time prekeys
/// from there on, each below the next id to be given out, and no two one-time prekeys share one.
pub open spec fn well_numbered(k: KyberView) -> bool {
    &&& 1 <= k.next_spk_id < KYBER_OTPK_ID_START
    &&& KYBER_OTPK_ID_START <= k.next_otpk_id
    &&& k.current matches Some(c) ==> signed_id(k, c.key_id)
    &&& k.pending matches Some(p) ==> signed_id(k, p.key_id)
    &&& forall|i: int|
        0 <= i < k.retired.len() ==> signed_id(k, (#[trigger] k.retired[i]).key_id)
    &&& forall|i: int| 0 <= i < k.otpks.len() ==> one_time_id(k, (#[trigger] k.otpks[i]).key_id)
    &&& forall|i: int, j: int|
        0 <= i < j < k.otpks.len() ==> (#[trigger] k.otpks[i]).key_id != (
        #[trigger] k.otpks[j]).key_id
}

/// Whatever is done to the prekeys, their ids stay in order: one-time keys are burned, pruned and
/// added, and a signed prekey is put in waiting, committed and rolled back.
pub proof fn prekeys_stay_well_numbered(
    k: KyberView,
    id: u32,
    seed: Seq<u8>,
    seeds: Seq<Seq<u8>>,
    now_secs: u64,
)
    requires
        well_numbered(k),
    ensures
        well_numbered(KyberView { otpks: without_id(k.otpks, id), ..k }),
        well_numbered(KyberView { otpks: ids_from(k.otpks, id), ..k }),
        well_numbered(KyberView { pending: None, ..k }),
        well_numbered(kyber_committed(k, now_secs).0),
        k.next_spk_id < KYBER_OTPK_ID_START - 1 ==> well_numbered(
            KyberView {
                pending: Some(
                    KyberKeyView {
                        key_id: k.next_spk_id,
                        seed,
                        created_at: now_secs,
                        retired_at: 0,
                    },
                ),
                next_spk_id: (k.next_spk_id + 1) as u32,
                ..k
            },
        ),
        seeds.len() <= u32::MAX - k.next_otpk_id ==> well_numbered(
            KyberView {
                otpks: k.otpks + numbered(seeds, k.next_otpk_id, now_secs),
                next_otpk_id: (k.next_otpk_id + seeds.len()) as u32,
                ..k
            },
        ),
{
    let p = |x: KyberKeyView| x.key_id != id;
    kept_ids_stay(k, p);
    let q = |x: KyberKeyView| x.key_id >= id;
    kept_ids_stay(k, q);
    if k.pending is Some {
        let all = match k.current {
            Some(c) => k.retired.push(KyberKeyView { retired_at: now_secs, ..c }),
            None => k.retired,
        };
        let age = |x: KyberKeyView| retained(x, now_secs);
        let kept = all.filter(age);
        assert forall|i: int| 0 <= i < kept.len() implies signed_id(
            k,
            (#[trigger] kept[i]).key_id,
        ) by {
            all.lemma_filter_contains_rev(age, kept[i]);
            let j = choose|j: int| 0 <= j < all.len() && all[j] == kept[i];
            if j < k.retired.len() {
                assert(all[j] == k.retired[j]);
            }
        }
    }
}

proof fn kept_ids_stay(k: KyberView, p: spec_fn(KyberKeyView) -> bool)
    requires
        well_numbered(k),
    ensures
        well_numbered(KyberView { otpks: k.otpks.filter(p), ..k }),
{
    let kept = k.otpks.filter(p);
    distinct_ids_stay(k.otpks, p);
    assert forall|i: int| 0 <= i < kept.len() implies one_time_id(
        k,
        (#[trigger] kept[i]).key_id,
    ) by {
        k.otpks.lemma_filter_contains_rev(p, kept[i]);
        let j = choose|j: int| 0 <= j < k.otpks.len() && k.otpks[j] == kept[i];
        assert(one_time_id(k, k.otpks[j].key_id));
    }
}

proof fn distinct_ids_stay(keys: Seq<KyberKeyView>, p: spec_fn(KyberKeyView) -> bool)
    requires
        forall|i: int, j: int|
            0 <= i < j < keys.len() ==> (#[trigger] keys[i]).key_id != (#[trigger] keys[j]).key_id,
    ensures
        forall|i: int, j: int|
            0 <= i < j < keys.filter(p).len() ==> (#[trigger] keys.filter(p)[i]).key_id != (
            #[trigger] keys.filter(p)[j]).key_id,
    decreases keys.len(),
{
    reveal(Seq::filter);
    if keys.len() > 0 {
        let rest = keys.drop_last();
        distinct_ids_stay(rest, p);
        let kept = rest.filter(p);
        assert forall|i: int| 0 <= i < kept.len() implies (#[trigger] kept[i]).key_id
            != keys.last().key_id by {
            rest.lemma_filter_contains_rev(p, kept[i]);
            let j = choose|j: int| 0 <= j < rest.len() && rest[j] == kept[i];
            assert(keys[j].key_id != keys[keys.len() - 1].key_id);
        }
    }
}

/// Burning a one-time prekey that is held takes exactly that one: the count falls by one.
pub proof fn a_burn_takes_one_key(k: KyberView, id: u32)
    requires
        well_numbered(k),
    ensures
        first_with_id(k.otpks, id) is Some ==> without_id(k.otpks, id).len() == k.otpks.len() - 1,
        first_with_id(k.otpks, id) is None ==> without_id(k.otpks, id) == k.otpks,
{
    if first_with_id(k.otpks, id) is Some {
        let i = position_of(k.otpks, id);
        one_left_out(k.otpks, id, i);
    } else {
        none_left_out(k.otpks, id);
    }
}

proof fn position_of(keys: Seq<KyberKeyView>, id: u32) -> (i: int)
    requires
        first_with_id(keys, id) is Some,
    ensures
        0 <= i < keys.len(),
        keys[i].key_id == id,
        first_with_id(keys, id) == Some(keys[i]),
    decreases keys.len(),
{
    if keys[0].key_id == id {
        0
    } else {
        position_of(keys.drop_first(), id) + 1
    }
}

proof fn none_left_out(keys: Seq<KyberKeyView>, id: u32)
    requires
        first_with_id(keys, id) is None,
    ensures
        without_id(keys, id) == keys,
    decreases keys.len(),
{
    assert forall|i: int| 0 <= i < keys.len() implies (#[trigger] keys[i]).key_id != id by {
        absent_everywhere(keys, id, i);
    }
    all_kept(keys, id);
}

proof fn absent_everywhere(keys: Seq<KyberKeyView>, id: u32, i: int)
    requires
        first_with_id(keys, id) is None,
        0 <= i < keys.len(),
    ensures
        keys[i].key_id != id,
    decreases i,
{
    if i > 0 {
        absent_everywhere(keys.drop_first(), id, i - 1);
    }
}

proof fn all_kept(keys: Seq<KyberKeyView>, id: u32)
    requires
        forall|i: int| 0 <= i < keys.len() ==> (#[trigger] keys[i]).key_id != id,
    ensures
        without_id(keys, id) == keys,
    decreases keys.len(),
{
    reveal(Seq::filter);
    if keys.len() > 0 {
        let rest = keys.drop_last();
        assert forall|i: int| 0 <= i < rest.len() implies (#[trigger] rest[i]).key_id != id by {
            assert(keys[i].key_id != id);
        }
        all_kept(rest, id);
        assert(keys[keys.len() - 1].key_id != id);
        assert(rest.push(keys.last()) =~= keys);
    } else {
        assert(without_id(keys, id) =~= keys);
    }
}

proof fn one_left_out(keys: Seq<KyberKeyView>, id: u32, at: int)
    requires
        0 <= at < keys.len(),
        keys[at].key_id == id,
        forall|i: int, j: int|
            0 <= i < j < keys.len() ==> (#[trigger] keys[i]).key_id != (#[trigger] keys[j]).key_id,
    ensures
        without_id(keys, id).len() == keys.len() - 1,
    decreases keys.len(),
{
    reveal(Seq::filter);
    let rest = keys.drop_last();
    if at == keys.len() - 1 {
        assert forall|i: int| 0 <= i < rest.len() implies (#[trigger] rest[i]).key_id != id by {
            assert(keys[i].key_id != keys[at].key_id);
        }
        all_kept(rest, id);
    } else {
        assert(keys[at].key_id != keys[keys.len() - 1].key_id);
        one_left_out(rest, id, at);
    }
}

/// What is found under the id of a one-time prekey is a one-time prekey.
pub proof fn a_one_time_id_is_no_signed_one(k: KyberView, id: u32)
    requires
        well_numbered(k),
        id >= KYBER_OTPK_ID_START,
    ensures
        kyber_find(k, id) == first_with_id(k.otpks, id),
{
    none_has_id(k.retired, id);
}

/// A one-time prekey opens one session: once it is burned it is not found again.
pub proof fn a_burned_key_is_gone(k: KyberView, id: u32)
    requires
        well_numbered(k),
        id >= KYBER_OTPK_ID_START,
    ensures
        kyber_find(KyberView { otpks: without_id(k.otpks, id), ..k }, id) is None,
{
    none_has_id(k.retired, id);
    let kept = without_id(k.otpks, id);
    assert forall|i: int| 0 <= i < kept.len() implies kept[i].key_id != id by {
        k.otpks.lemma_filter_pred(|x: KyberKeyView| x.key_id != id, i);
    }
    none_has_id(without_id(k.otpks, id), id);
}

proof fn none_has_id(keys: Seq<KyberKeyView>, id: u32)
    requires
        forall|i: int| 0 <= i < keys.len() ==> keys[i].key_id != id,
    ensures
        first_with_id(keys, id) is None,
    decreases keys.len(),
{
    if keys.len() > 0 {
        none_has_id(keys.drop_first(), id);
    }
}

proof fn found_in(keys: Seq<KyberKeyView>, i: int)
    requires
        0 <= i < keys.len(),
        forall|j: int| 0 <= j < i ==> (#[trigger] keys[j]).key_id != keys[i].key_id,
    ensures
        first_with_id(keys, keys[i].key_id) == Some(keys[i]),
    decreases i,
{
    if i > 0 {
        assert(keys[0].key_id != keys[i].key_id);
        let rest = keys.drop_first();
        assert(rest[i - 1] == keys[i]);
        assert forall|j: int| 0 <= j < i - 1 implies (#[trigger] rest[j]).key_id != rest[i
            - 1].key_id by {
            assert(rest[j] == keys[j + 1]);
        }
        found_in(rest, i - 1);
    }
}

/// A rotation takes two steps: the prekey in waiting is served only once the rotation is
/// committed, and a rotation that is rolled back leaves the prekey served as it was.
pub proof fn a_prekey_is_served_only_once_committed(k: KyberView, key: KyberKeyView, now_secs: u64)
    ensures
        ({
            let waiting = KyberView { pending: Some(key), ..k };
            &&& waiting.current == k.current
            &&& kyber_committed(waiting, now_secs).0.current == Some(key)
            &&& kyber_committed(waiting, now_secs).0.pending is None
            &&& (KyberView { pending: None, ..waiting }).current == k.current
        }),
        k.pending is None ==> kyber_committed(k, now_secs) == (k, false),
{
}

/// A signed prekey that is replaced still opens sessions for the retention period after it was
/// replaced, and not a commit longer.
pub proof fn a_replaced_prekey_is_retained(
    k: KyberView,
    replaced: KyberKeyView,
    now_secs: u64,
    later: u64,
)
    requires
        k.current == Some(replaced),
        k.pending matches Some(p) && p.key_id != replaced.key_id,
        forall|j: int| 0 <= j < k.retired.len() ==> k.retired[j].key_id != replaced.key_id,
    ensures
        ({
            let kept = KyberKeyView { retired_at: now_secs, ..replaced };
            &&& kyber_find(kyber_committed(k, now_secs).0, replaced.key_id) == Some(kept)
            &&& retained(kept, later) <==> later <= now_secs + KYBER_SPK_RETENTION_SECS
        }),
{
    let kept = KyberKeyView { retired_at: now_secs, ..replaced };
    let p = |x: KyberKeyView| retained(x, now_secs);
    let old_kept = k.retired.filter(p);
    filter_push(k.retired, kept, p);
    let after = kyber_committed(k, now_secs).0;
    assert(after.retired == old_kept.push(kept));
    assert forall|j: int| 0 <= j < old_kept.len() implies old_kept[j].key_id
        != replaced.key_id by {
        k.retired.lemma_filter_contains_rev(p, old_kept[j]);
        let i = choose|i: int| 0 <= i < k.retired.len() && k.retired[i] == old_kept[j];
        assert(k.retired[i].key_id != replaced.key_id);
    }
    let all = after.retired;
    assert forall|j: int| 0 <= j < all.len() - 1 implies (#[trigger] all[j]).key_id
        != all[all.len() - 1].key_id by {
        assert(all[j] == old_kept[j]);
    }
    found_in(all, all.len() - 1);
}

/// No id is given out twice: each is below the next one, and a rotation or a batch of one-time
/// prekeys moves that on.
pub proof fn prekey_ids_are_fresh(seeds: Seq<Seq<u8>>, first: u32, now_secs: u64, i: int, j: int)
    requires
        first + seeds.len() <= u32::MAX,
        0 <= i < j < seeds.len(),
    ensures
        first <= numbered(seeds, first, now_secs)[i].key_id,
        numbered(seeds, first, now_secs)[i].key_id < numbered(seeds, first, now_secs)[j].key_id,
        numbered(seeds, first, now_secs)[j].key_id < first + seeds.len(),
{
}

/// A key is found by its id exactly when it is the one served, a retired one or a one-time one; the
/// one served is found before the retired ones, and those before the one-time ones. One that is
/// only being rotated in is not found.
pub proof fn a_key_is_found_by_its_id(k: KyberView, id: u32)
    ensures
        kyber_find(k, id) matches Some(key) ==> key.key_id == id,
        (k.current matches Some(c) && c.key_id == id) ==> kyber_find(k, id) == k.current,
        !(k.current matches Some(c) && c.key_id == id) && has_key(k.retired, id) ==> (kyber_find(
            k,
            id,
        ) matches Some(key) && k.retired.contains(key)),
        kyber_find(k, id) is Some <==> (k.current matches Some(c) && c.key_id == id) || has_key(
            k.retired,
            id,
        ) || has_key(k.otpks, id),
{
    the_first_is_found(k.retired, id);
    the_first_is_found(k.otpks, id);
}

/// Whether a key of this id is among these.
pub open spec fn has_key(keys: Seq<KyberKeyView>, id: u32) -> bool {
    exists|i: int| 0 <= i < keys.len() && #[trigger] keys[i].key_id == id
}

proof fn the_first_is_found(keys: Seq<KyberKeyView>, id: u32)
    ensures
        first_with_id(keys, id) is Some <==> has_key(keys, id),
        first_with_id(keys, id) matches Some(key) ==> key.key_id == id && keys.contains(key),
    decreases keys.len(),
{
    if keys.len() > 0 {
        let rest = keys.drop_first();
        the_first_is_found(rest, id);
        if keys[0].key_id == id {
            assert(keys.contains(keys[0]));
        } else {
            if has_key(rest, id) {
                let i = choose|i: int| 0 <= i < rest.len() && #[trigger] rest[i].key_id == id;
                assert(keys[i + 1].key_id == id);
                let key = first_with_id(rest, id)->Some_0;
                let j = choose|j: int| 0 <= j < rest.len() && rest[j] == key;
                assert(keys[j + 1] == key);
            }
            if has_key(keys, id) {
                let i = choose|i: int| 0 <= i < keys.len() && #[trigger] keys[i].key_id == id;
                assert(rest[i - 1].key_id == id);
            }
        }
    }
}

} // verus!
