//! Which of a peer's device sessions an incoming message is tried against.
//!
//! "Which sessions does this operation touch" is a plan, and a plan is protocol: a peer with two
//! devices has two ratchets, and a message from the second tried only against the first fails on
//! keys that are entirely valid. The caller hands over the devices it holds sessions with and gets
//! back the order to try them in.

use vstd::prelude::*;

use crate::orchestration::device_ids::{self, extend_distinct, holds};
use crate::strings::is_blank;
use crate::vecs;

verus! {

/// The order in which the sessions are tried: the preferred device first when a session with it is
/// held, then the others in the caller's order, each once.
pub open spec fn decrypt_order(ids: Seq<Seq<char>>, preferred: Seq<char>) -> Seq<Seq<char>> {
    device_ids::distinct_onto(
        if preferred.len() > 0 && ids.contains(preferred) {
            seq![preferred]
        } else {
            Seq::empty()
        },
        ids,
        Seq::empty(),
    )
}

/// Every device session worth trying, in the order to try them.
///
/// * `session_device_ids` — the peer's devices we hold a session with.
/// * `preferred_device_id` — the device that last decrypted for this peer, or empty when there is
///   none. A hint and never a filter: one that is not in the set reorders nothing.
///
/// Deliberately unbounded: a cap could only drop a session that might be the right one.
pub fn plan_receiving_decrypt(session_device_ids: &[String], preferred_device_id: &str) -> (r: Vec<
    String,
>)
    ensures
        r.deep_view() == decrypt_order(session_device_ids.deep_view(), preferred_device_id@),
{
    let mut out: Vec<String> = vecs::none();
    if !is_blank(preferred_device_id) && holds(session_device_ids, preferred_device_id) {
        vecs::push(&mut out, preferred_device_id.to_owned());
        assert(out.deep_view() =~= seq![preferred_device_id@]);
    }
    let none = String::new();
    extend_distinct(&mut out, session_device_ids, none.as_str());
    out
}

/// The plan names every device we hold a session with, each once, nothing else, and never an empty
/// id.
pub proof fn every_session_is_tried_once(ids: Seq<Seq<char>>, preferred: Seq<char>)
    ensures
        decrypt_order(ids, preferred).no_duplicates(),
        forall|d: Seq<char>| #[trigger]
            decrypt_order(ids, preferred).contains(d) <==> ids.contains(d) && d.len() > 0,
{
    let base = if preferred.len() > 0 && ids.contains(preferred) {
        seq![preferred]
    } else {
        Seq::empty()
    };
    device_ids::distinct_onto_members(base, ids, Seq::empty());
    assert(forall|d: Seq<char>| base.contains(d) ==> d == preferred);
}

/// The preferred device is tried first whenever a session with it is held.
pub proof fn the_preferred_device_is_first(ids: Seq<Seq<char>>, preferred: Seq<char>)
    requires
        preferred.len() > 0,
        ids.contains(preferred),
    ensures
        decrypt_order(ids, preferred).len() > 0,
        decrypt_order(ids, preferred)[0] == preferred,
{
    device_ids::distinct_onto_members(seq![preferred], ids, Seq::empty());
    let all = decrypt_order(ids, preferred);
    assert(seq![preferred] =~= all.subrange(0, 1));
    assert(all.subrange(0, 1)[0] == all[0]);
}

/// A preferred device we hold no session with changes nothing.
pub proof fn an_absent_preference_reorders_nothing(ids: Seq<Seq<char>>, preferred: Seq<char>)
    requires
        !ids.contains(preferred),
    ensures
        decrypt_order(ids, preferred) == decrypt_order(ids, Seq::empty()),
{
}

/// Behind the preferred device the sessions are tried in the order in which they are named.
pub proof fn sessions_are_tried_in_order(
    ids: Seq<Seq<char>>,
    preferred: Seq<char>,
    i: int,
    j: int,
)
    requires
        0 <= i < j < decrypt_order(ids, preferred).len(),
        decrypt_order(ids, preferred)[i] != preferred,
    ensures
        ids.index_of_first(decrypt_order(ids, preferred)[i])->Some_0 < ids.index_of_first(
            decrypt_order(ids, preferred)[j],
        )->Some_0,
{
    let base = if preferred.len() > 0 && ids.contains(preferred) {
        seq![preferred]
    } else {
        Seq::empty()
    };
    let all = decrypt_order(ids, preferred);
    device_ids::distinct_onto_members(base, ids, Seq::empty());
    assert(base =~= all.subrange(0, base.len() as int));
    if base.len() == 1 {
        assert(all[0] == base[0]);
    }
    device_ids::distinct_onto_order(base, ids, Seq::empty(), i, j);
}

} // verus!
