//! The keys a device makes and publishes: which are made, how they are numbered, dated and signed,
//! and which are served.

use vstd::prelude::*;

use crate::crypto::engine::{self, CryptoEngine};
use crate::crypto::handshake;
use crate::crypto::keys::{self, KeysView, OtpkView, PairView};
use crate::crypto::kyber_prekey_auth;
use crate::crypto::kyber_prekeys::{self, KyberKeyView, KyberView, UploadView};
use crate::orchestration::orchestrator::keyring;
use crate::orchestration::orchestrator::OrchView;
use crate::strings;

verus! {

/// An upload of a Kyber prekey carries the id and the time of the key, the public key of its seed,
/// and two signatures over that key and time: one by the identity's signing key and one by the
/// hybrid key.
pub proof fn an_upload_is_signed_twice<E: CryptoEngine>(
    engine: &E,
    ks: KeysView,
    key: KyberKeyView,
    u: UploadView,
)
    requires
        keyring::upload_may(engine, ks, key, Ok(u)),
    ensures
        ({
            let message = kyber_prekey_auth::kyber_sign_message(key.created_at, u.public_key);
            &&& u.key_id == key.key_id
            &&& u.created_at == key.created_at
            &&& engine::said_kyber_public(engine, key.seed, Ok(u.public_key))
            &&& engine::said_sign(engine, ks.signing.secret, message, Ok(u.signature))
            &&& ks.hybrid is Some
            &&& engine::said_sign_hybrid(
                engine,
                ks.hybrid->Some_0.secret,
                message,
                Ok(u.hybrid_signature),
            )
        }),
{
}

/// A rotation that begins makes the next signed Kyber prekey, of that second, and holds it back: the
/// one that is served, the retired ones and the one-time ones stay. A rotation that fails changes
/// nothing; it fails for want of ids only at the end of the signed range.
pub proof fn a_rotation_makes_the_next_prekey<E: CryptoEngine>(
    engine: &E,
    o: OrchView,
    now: u64,
    next: OrchView,
    result: Result<UploadView, Seq<char>>,
)
    requires
        keyring::rotation_may(engine, o, now, next, result),
    ensures
        ({
            let before = o.life.client.keys.kyber;
            let after = next.life.client.keys.kyber;
            &&& result is Err ==> next == o
            &&& result matches Ok(u) ==> {
                &&& before.next_spk_id < 999_999
                &&& after.pending matches Some(p) && p.key_id == before.next_spk_id && p.created_at
                    == now / 1000 && p.retired_at == 0 && engine::said_new_kyber_seed(
                    engine,
                    Ok(p.seed),
                ) && keyring::upload_may(engine, o.life.client.keys, p, Ok(u))
                &&& after.next_spk_id == before.next_spk_id + 1
                &&& after.current == before.current
                &&& after.retired == before.retired
                &&& after.otpks == before.otpks
                &&& after.next_otpk_id == before.next_otpk_id
                &&& next == keyring::with_kyber(o, after)
            }
            &&& before.next_spk_id >= 999_999 ==> result is Err
        }),
{
}

/// Committing a rotation serves the key that was held back and retires the one it replaces, as of
/// that second; of the retired keys those are kept whose fourteen days are not over. Without a
/// rotation nothing happens. The one-time keys and the numbering stay.
pub proof fn a_commit_serves_the_next_prekey(k: KyberView, now_secs: u64, key: KyberKeyView)
    ensures
        ({
            let (next, done) = kyber_prekeys::kyber_committed(k, now_secs);
            &&& done == (k.pending is Some)
            &&& !done ==> next == k
            &&& done ==> {
                &&& next.current == k.pending
                &&& next.pending is None
                &&& next.otpks == k.otpks
                &&& next.next_spk_id == k.next_spk_id
                &&& next.next_otpk_id == k.next_otpk_id
                &&& k.current matches Some(c) ==> next.retired.contains(
                    KyberKeyView { retired_at: now_secs, ..c },
                )
                &&& k.retired.contains(key) && now_secs <= key.retired_at + 14 * 24 * 60 * 60
                    ==> next.retired.contains(key)
                &&& next.retired.contains(key) ==> now_secs <= key.retired_at + 14 * 24 * 60 * 60
                    && (k.retired.contains(key) || (k.current matches Some(c) && key == (
                    KyberKeyView { retired_at: now_secs, ..c })))
            }
        }),
{
    if k.pending is Some {
        let f = |x: KyberKeyView| kyber_prekeys::retained(x, now_secs);
        let all = match k.current {
            Some(c) => k.retired.push(KyberKeyView { retired_at: now_secs, ..c }),
            None => k.retired,
        };
        let next = kyber_prekeys::kyber_committed(k, now_secs).0;
        assert(next.retired == all.filter(f));
        all.filter_lemma(f);
        if k.current is Some {
            let c = KyberKeyView { retired_at: now_secs, ..k.current->Some_0 };
            assert(all[k.retired.len() as int] == c);
            assert(f(all[k.retired.len() as int]));
        }
        if k.retired.contains(key) && now_secs <= key.retired_at + 14 * 24 * 60 * 60 {
            let i = choose|i: int| 0 <= i < k.retired.len() && k.retired[i] == key;
            assert(all[i] == key);
            assert(f(all[i]));
        }
        if next.retired.contains(key) {
            let i = choose|i: int| 0 <= i < all.filter(f).len() && all.filter(f)[i] == key;
            assert(f(all.filter(f)[i]));
            all.lemma_filter_contains_rev(f, key);
            let j = choose|j: int| 0 <= j < all.len() && all[j] == key;
            if j < k.retired.len() {
                assert(k.retired[j] == key);
            }
        }
    }
}

/// A batch of one-time Kyber prekeys is numbered on from the last, dated to that second, each from
/// a seed of its own and each uploaded as any Kyber prekey is; they join behind those there are.
/// Where it fails nothing changes.
pub proof fn one_time_kyber_prekeys_are_numbered_on<E: CryptoEngine>(
    engine: &E,
    o: OrchView,
    count: u32,
    now: u64,
    next: OrchView,
    result: Result<Seq<UploadView>, Seq<char>>,
)
    requires
        keyring::kyber_otpks_may(engine, o, count, now, next, result),
    ensures
        result is Err ==> next == o,
        result matches Ok(us) ==> {
            let before = o.life.client.keys.kyber;
            let after = next.life.client.keys.kyber;
            let n = before.otpks.len();
            &&& us.len() == count
            &&& after.otpks.len() == n + count
            &&& before.next_otpk_id + count <= u32::MAX
            &&& after.next_otpk_id == before.next_otpk_id + count
            &&& after.otpks.take(n as int) == before.otpks
            &&& forall|i: int|
                #![trigger us[i]]
                0 <= i < count ==> {
                    let key = after.otpks[n + i];
                    &&& key.key_id == before.next_otpk_id + i
                    &&& key.created_at == now / 1000
                    &&& engine::said_new_kyber_seed(engine, Ok(key.seed))
                    &&& keyring::upload_may(engine, o.life.client.keys, key, Ok(us[i]))
                }
            &&& after == (KyberView {
                otpks: after.otpks,
                next_otpk_id: after.next_otpk_id,
                ..before
            })
            &&& next == keyring::with_kyber(o, after)
        },
{
    if result is Ok {
        let us = result->Ok_0;
        let k = o.life.client.keys.kyber;
        let seeds = choose|seeds: Seq<Seq<u8>>|
            {
                &&& #[trigger] keyring::are_seeds(engine, seeds)
                &&& seeds.len() == count
                &&& keyring::are_uploads(
                    engine,
                    o.life.client.keys,
                    kyber_prekeys::numbered(seeds, k.next_otpk_id, now / 1000),
                    us,
                )
                &&& count <= u32::MAX - k.next_otpk_id
                &&& next == keyring::with_kyber(
                    o,
                    KyberView {
                        otpks: k.otpks + kyber_prekeys::numbered(
                            seeds,
                            k.next_otpk_id,
                            now / 1000,
                        ),
                        next_otpk_id: (k.next_otpk_id + count) as u32,
                        ..k
                    },
                )
            };
        let fresh = kyber_prekeys::numbered(seeds, k.next_otpk_id, now / 1000);
        let after = next.life.client.keys.kyber;
        assert(after.otpks.take(k.otpks.len() as int) =~= k.otpks);
        assert forall|i: int| #![trigger us[i]] 0 <= i < count implies {
            let key = after.otpks[k.otpks.len() + i];
            &&& key.key_id == k.next_otpk_id + i
            &&& key.created_at == now / 1000
            &&& engine::said_new_kyber_seed(engine, Ok(key.seed))
            &&& keyring::upload_may(engine, o.life.client.keys, key, Ok(us[i]))
        } by {
            assert(after.otpks[k.otpks.len() + i] == fresh[i]);
            assert(engine::said_new_kyber_seed(engine, Ok(seeds[i])));
        }
    }
}

/// A batch of one-time prekeys is numbered on from the last, each with a pair of its own, and joins
/// behind those there are; their ids and public keys are what is to be uploaded. Where it fails
/// nothing changes.
pub proof fn one_time_prekeys_are_numbered_on<E: CryptoEngine>(
    engine: &E,
    o: OrchView,
    count: u32,
    next: OrchView,
    result: Result<Seq<(u32, Seq<u8>)>, Seq<char>>,
)
    requires
        keyring::otpks_may(engine, o, count, next, result),
    ensures
        result is Err ==> next == o,
        result matches Ok(us) ==> {
            let before = o.life.client.keys;
            let after = next.life.client.keys;
            let n = before.otpks.len();
            &&& us.len() == count
            &&& after.otpks.len() == n + count
            &&& before.next_otpk_id + count <= u32::MAX
            &&& after.next_otpk_id == before.next_otpk_id + count
            &&& after.otpks.take(n as int) == before.otpks
            &&& forall|i: int|
                #![trigger us[i]]
                0 <= i < count ==> {
                    let key = after.otpks[n + i];
                    &&& key.key_id == before.next_otpk_id + i
                    &&& us[i] == (key.key_id, key.public_key)
                    &&& engine::said_new_kem_pair(
                        engine,
                        Ok(PairView { public: key.public_key, secret: key.private_key }),
                    )
                }
            &&& after == (KeysView {
                otpks: after.otpks,
                next_otpk_id: after.next_otpk_id,
                ..before
            })
            &&& next == keyring::with_keys(o, after)
        },
{
    if result is Ok {
        let us = result->Ok_0;
        let ks = o.life.client.keys;
        let pairs = choose|pairs: Seq<PairView>|
            {
                &&& #[trigger] keyring::are_pairs(engine, pairs)
                &&& pairs.len() == count
                &&& count <= u32::MAX - ks.next_otpk_id
                &&& next == keyring::with_keys(o, keys::otpks_added(ks, pairs))
                &&& us == keys::otpks_added(ks, pairs).otpks.skip(
                    ks.otpks.len() as int,
                ).map_values(|x: OtpkView| (x.key_id, x.public_key))
            };
        let after = next.life.client.keys;
        assert(after.otpks.take(ks.otpks.len() as int) =~= ks.otpks);
        assert forall|i: int| #![trigger us[i]] 0 <= i < count implies {
            let key = after.otpks[ks.otpks.len() + i];
            &&& key.key_id == ks.next_otpk_id + i
            &&& us[i] == (key.key_id, key.public_key)
            &&& engine::said_new_kem_pair(
                engine,
                Ok(PairView { public: key.public_key, secret: key.private_key }),
            )
        } by {
            assert(engine::said_new_kem_pair(engine, Ok(pairs[i])));
            let key = after.otpks[ks.otpks.len() + i];
            assert(key == keys::numbered_otpks(pairs, ks.next_otpk_id)[i]);
            assert((PairView { public: key.public_key, secret: key.private_key }) == pairs[i]);
        }
    }
}

/// A new signed prekey gets the next id and is signed with the identity's signing key under the
/// prologue of suite 1; the one it replaces is kept behind the old ones. Where it fails nothing
/// changes.
pub proof fn a_new_signed_prekey_is_signed<E: CryptoEngine>(
    engine: &E,
    o: OrchView,
    next: OrchView,
    result: Result<(u32, Seq<u8>, Seq<u8>), Seq<char>>,
)
    requires
        keyring::spk_may(engine, o, next, result),
    ensures
        result is Err ==> next == o,
        result matches Ok(r) ==> {
            let before = o.life.client.keys;
            let after = next.life.client.keys;
            &&& before.signed_prekey.key_id < u32::MAX
            &&& r.0 == before.signed_prekey.key_id + 1
            &&& after.signed_prekey.key_id == r.0
            &&& after.signed_prekey.pair.public == r.1
            &&& after.signed_prekey.signature == r.2
            &&& engine::said_new_kem_pair(engine, Ok(after.signed_prekey.pair))
            &&& engine::said_sign(
                engine,
                before.signing.secret,
                handshake::prologue(1) + r.1,
                Ok(r.2),
            )
            &&& after.old_prekeys == before.old_prekeys.push(before.signed_prekey)
            &&& after == (KeysView {
                signed_prekey: after.signed_prekey,
                old_prekeys: after.old_prekeys,
                ..before
            })
            &&& next == keyring::with_keys(o, after)
        },
{
}

/// What a device registers is its own identity key, its current signed prekey with its signature,
/// and the key that verifies it.
pub proof fn a_registration_shows_the_own_keys(k: KeysView)
    ensures
        ({
            let b = keys::bundle_of(k);
            &&& b.identity_public == k.identity.public
            &&& b.signed_prekey_public == k.signed_prekey.pair.public
            &&& b.signature == k.signed_prekey.signature
            &&& b.verifying_key == k.signing.public
            &&& b.suite_id.number() == 1
            &&& b.one_time_prekey_public is None
            &&& b.one_time_prekey_id is None
        }),
{
}

/// The hybrid key of a device is made once: with one held it is shown and nothing changes;
/// otherwise the one the engine makes is kept and shown, or its failure told.
pub proof fn a_hybrid_key_is_made_once(o: OrchView, reply: Result<PairView, Seq<char>>)
    ensures
        ({
            let (next, result) = keyring::hybrid_ensured(o, reply);
            let again = keyring::hybrid_ensured(next, reply);
            &&& o.life.client.keys.hybrid matches Some(p) ==> next == o && result == Ok::<
                Seq<u8>,
                Seq<char>,
            >(p.public)
            &&& o.life.client.keys.hybrid is None && reply is Ok ==> {
                &&& next.life.client.keys.hybrid == Some(reply->Ok_0)
                &&& result == Ok::<Seq<u8>, Seq<char>>(reply->Ok_0.public)
                &&& next == keyring::with_keys(
                    o,
                    KeysView { hybrid: Some(reply->Ok_0), ..o.life.client.keys },
                )
            }
            &&& o.life.client.keys.hybrid is None && reply is Err ==> next == o && result == Err::<
                Seq<u8>,
                Seq<char>,
            >(reply->Err_0)
            &&& result is Ok ==> again == (next, result)
        }),
{
}

/// Pruning keeps exactly the one-time keys from the given id on, of either kind; a count that fits
/// is told as it is.
pub proof fn pruning_keeps_the_later_keys(
    otpks: Seq<OtpkView>,
    kyber: Seq<KyberKeyView>,
    min: u32,
    key: OtpkView,
    kyber_key: KyberKeyView,
    n: nat,
)
    ensures
        keys::otpks_from(otpks, min).contains(key) <==> otpks.contains(key) && key.key_id >= min,
        kyber_prekeys::ids_from(kyber, min).contains(kyber_key) <==> kyber.contains(kyber_key)
            && kyber_key.key_id >= min,
        n <= u32::MAX ==> keyring::low32(n) == n,
{
    let f = |x: OtpkView| x.key_id >= min;
    let g = |x: KyberKeyView| x.key_id >= min;
    otpks.filter_lemma(f);
    kyber.filter_lemma(g);
    if otpks.filter(f).contains(key) {
        let i = choose|i: int| 0 <= i < otpks.filter(f).len() && otpks.filter(f)[i] == key;
        assert(f(otpks.filter(f)[i]));
        otpks.lemma_filter_contains_rev(f, key);
    }
    if otpks.contains(key) && key.key_id >= min {
        let i = choose|i: int| 0 <= i < otpks.len() && otpks[i] == key;
        assert(f(otpks[i]));
        assert(otpks.filter(f).contains(otpks[i]));
    }
    if kyber.filter(g).contains(kyber_key) {
        let i = choose|i: int| 0 <= i < kyber.filter(g).len() && kyber.filter(g)[i] == kyber_key;
        assert(g(kyber.filter(g)[i]));
        kyber.lemma_filter_contains_rev(g, kyber_key);
    }
    if kyber.contains(kyber_key) && kyber_key.key_id >= min {
        let i = choose|i: int| 0 <= i < kyber.len() && kyber[i] == kyber_key;
        assert(g(kyber[i]));
        assert(kyber.filter(g).contains(kyber[i]));
    }
}

/// A secret is decapsulated with the seed of a key of the id asked for that is served, retired or a
/// one-time key; with no such key that is told, by the id.
pub proof fn a_secret_is_decapsulated_by_its_key<E: CryptoEngine>(
    engine: &E,
    k: KyberView,
    id: u32,
    ciphertext: Seq<u8>,
    result: Result<Seq<u8>, Seq<char>>,
)
    requires
        keyring::decapsulated_may(engine, k, id, ciphertext, result),
    ensures
        kyber_prekeys::kyber_find(k, id) matches Some(key) ==> key.key_id == id
            && engine::said_decapsulate(engine, key.seed, ciphertext, result),
        kyber_prekeys::kyber_find(k, id) is None ==> result == Err::<Seq<u8>, Seq<char>>(
            "Kyber prekey "@ + strings::decimal_chars(id as nat) + " is not held"@,
        ),
{
    kyber_prekeys::a_key_is_found_by_its_id(k, id);
}

/// An engine that makes and signs whatever it is asked to.
pub open spec fn makes_every_key<E: CryptoEngine>(engine: &E) -> bool {
    &&& forall|r: Result<Seq<u8>, Seq<char>>| #[trigger]
        engine::said_new_kyber_seed(engine, r) ==> r is Ok
    &&& forall|seed: Seq<u8>, r: Result<Seq<u8>, Seq<char>>| #[trigger]
        engine::said_kyber_public(engine, seed, r) ==> r is Ok
    &&& forall|r: Result<PairView, Seq<char>>| #[trigger]
        engine::said_new_kem_pair(engine, r) ==> r is Ok
    &&& forall|key: Seq<u8>, m: Seq<u8>, r: Result<Seq<u8>, Seq<char>>| #[trigger]
        engine::said_sign(engine, key, m, r) ==> r is Ok
    &&& forall|key: Seq<u8>, m: Seq<u8>, r: Result<Seq<u8>, Seq<char>>| #[trigger]
        engine::said_sign_hybrid(engine, key, m, r) ==> r is Ok
}

/// With such an engine and a hybrid key, a signed Kyber prekey is made as long as an id of its range
/// is left, and a batch of one-time Kyber prekeys as long as it can be numbered; one-time prekeys
/// need no hybrid key, and a signed prekey neither.
pub proof fn keys_are_made_while_ids_last<E: CryptoEngine>(
    engine: &E,
    o: OrchView,
    count: u32,
    now: u64,
    a: OrchView,
    rotated: Result<UploadView, Seq<char>>,
    b: OrchView,
    kyber_otpks: Result<Seq<UploadView>, Seq<char>>,
    c: OrchView,
    otpks: Result<Seq<(u32, Seq<u8>)>, Seq<char>>,
    d: OrchView,
    spk: Result<(u32, Seq<u8>, Seq<u8>), Seq<char>>,
)
    requires
        makes_every_key(engine),
        keyring::rotation_may(engine, o, now, a, rotated),
        keyring::kyber_otpks_may(engine, o, count, now, b, kyber_otpks),
        keyring::otpks_may(engine, o, count, c, otpks),
        keyring::spk_may(engine, o, d, spk),
    ensures
        o.life.client.keys.hybrid is Some && o.life.client.keys.kyber.next_spk_id < 999_999
            ==> rotated is Ok,
        o.life.client.keys.hybrid is Some && o.life.client.keys.kyber.next_otpk_id + count
            <= u32::MAX ==> kyber_otpks is Ok,
        o.life.client.keys.next_otpk_id + count <= u32::MAX ==> otpks is Ok,
        o.life.client.keys.signed_prekey.key_id < u32::MAX ==> spk is Ok,
{
    let ks = o.life.client.keys;
    if ks.hybrid is Some {
        if rotated is Err && ks.kyber.next_spk_id < 999_999 {
            let (seed, upload) = choose|
                seed: Result<Seq<u8>, Seq<char>>,
                upload: Result<UploadView, Seq<char>>,
            | #[trigger]
                keyring::rotation_outcome(engine, o, now, seed, upload, a, rotated);
            uploads_succeed(
                engine,
                ks,
                keyring::next_spk(ks.kyber, seed->Ok_0, now),
                upload,
            );
        }
        if kyber_otpks is Err && ks.kyber.next_otpk_id + count <= u32::MAX {
            let e = kyber_otpks->Err_0;
            let (seeds, us) = choose|seeds: Seq<Seq<u8>>, us: Seq<UploadView>| #[trigger]
                keyring::otpks_made(engine, ks, now, seeds, us) && seeds.len() < count
                    && keyring::otpk_fails(
                    engine,
                    ks,
                    (ks.kyber.next_otpk_id + seeds.len()) as u32,
                    now,
                    e,
                );
            let id = (ks.kyber.next_otpk_id + seeds.len()) as u32;
            assert(!engine::said_new_kyber_seed(engine, Err(e)));
            let seed = choose|seed: Seq<u8>| #[trigger]
                engine::said_new_kyber_seed(engine, Ok(seed)) && keyring::upload_may(
                    engine,
                    ks,
                    keyring::otpk_numbered(id, seed, now),
                    Err(e),
                );
            uploads_succeed(engine, ks, keyring::otpk_numbered(id, seed, now), Err(e));
        }
    }
}

proof fn uploads_succeed<E: CryptoEngine>(
    engine: &E,
    ks: KeysView,
    key: KyberKeyView,
    upload: Result<UploadView, Seq<char>>,
)
    requires
        makes_every_key(engine),
        ks.hybrid is Some,
        keyring::upload_may(engine, ks, key, upload),
    ensures
        upload is Ok,
{
    let (public, signature, hybrid) = choose|
        public: Result<Seq<u8>, Seq<char>>,
        signature: Result<Seq<u8>, Seq<char>>,
        hybrid: Result<Seq<u8>, Seq<char>>,
    | #[trigger]
        keyring::upload_outcome(engine, ks, key, public, signature, hybrid, upload);
    assert(public is Ok);
    assert(signature is Ok);
    assert(hybrid is Ok);
}

} // verus!
