//! Lists of device ids in which no device appears twice.
//!
//! Every plan over a peer's devices keeps the caller's order, names a device at most once, and
//! drops empty ids: an empty id names nobody.

use vstd::prelude::*;

use crate::strings::{is_blank, same_str};
use crate::vecs::{self, contains_str};

verus! {

/// `base`, followed by the ids of `more` in their order, without empty ids, without `skip`, and
/// without what is already there.
pub open spec fn distinct_onto(
    base: Seq<Seq<char>>,
    more: Seq<Seq<char>>,
    skip: Seq<char>,
) -> Seq<Seq<char>>
    decreases more.len(),
{
    if more.len() == 0 {
        base
    } else {
        let rest = distinct_onto(base, more.drop_last(), skip);
        if more.last().len() == 0 || more.last() == skip || rest.contains(more.last()) {
            rest
        } else {
            rest.push(more.last())
        }
    }
}

/// What such a list holds, and that it holds nothing twice.
pub proof fn distinct_onto_members(
    base: Seq<Seq<char>>,
    more: Seq<Seq<char>>,
    skip: Seq<char>,
)
    requires
        base.no_duplicates(),
    ensures
        distinct_onto(base, more, skip).no_duplicates(),
        base.is_prefix_of(distinct_onto(base, more, skip)),
        forall|d: Seq<char>| #[trigger]
            distinct_onto(base, more, skip).contains(d) <==> base.contains(d) || (more.contains(d)
                && d.len() > 0 && d != skip),
    decreases more.len(),
{
    let all = distinct_onto(base, more, skip);
    if more.len() > 0 {
        let init = more.drop_last();
        let last = more.last();
        distinct_onto_members(base, init, skip);
        let rest = distinct_onto(base, init, skip);
        assert(more =~= init.push(last));
        if !(last.len() == 0 || last == skip || rest.contains(last)) {
            vecs::push_no_duplicates(rest, last);
            assert(base =~= all.subrange(0, base.len() as int));
        }
        assert forall|d: Seq<char>| #[trigger] all.contains(d) <==> base.contains(d) || (
        more.contains(d) && d.len() > 0 && d != skip) by {
            vecs::push_contains(init, last, d);
            vecs::push_contains(rest, last, d);
        }
    } else {
        assert(base =~= all.subrange(0, base.len() as int));
    }
}

/// Within such a list the caller's order is kept: of two ids that were both added, the one whose
/// first occurrence comes first is listed first.
pub proof fn distinct_onto_order(
    base: Seq<Seq<char>>,
    more: Seq<Seq<char>>,
    skip: Seq<char>,
    i: int,
    j: int,
)
    requires
        base.no_duplicates(),
        base.len() <= i < j < distinct_onto(base, more, skip).len(),
    ensures
        more.contains(distinct_onto(base, more, skip)[i]),
        more.contains(distinct_onto(base, more, skip)[j]),
        more.index_of_first(distinct_onto(base, more, skip)[i])->Some_0 < more.index_of_first(
            distinct_onto(base, more, skip)[j],
        )->Some_0,
    decreases more.len(),
{
    let all = distinct_onto(base, more, skip);
    let init = more.drop_last();
    let last = more.last();
    distinct_onto_members(base, more, skip);
    distinct_onto_members(base, init, skip);
    let rest = distinct_onto(base, init, skip);
    assert(more =~= init.push(last));
    let a = all[i];
    let b = all[j];
    assert(!base.contains(a)) by {
        if base.contains(a) {
            let k = choose|k: int| 0 <= k < base.len() && base[k] == a;
            assert(all[k] == base[k]);
        }
    }
    assert(!base.contains(b)) by {
        if base.contains(b) {
            let k = choose|k: int| 0 <= k < base.len() && base[k] == b;
            assert(all[k] == base[k]);
        }
    }
    assert(all.contains(a) && all.contains(b));
    if j < rest.len() {
        distinct_onto_order(base, init, skip, i, j);
        first_index_in_prefix(init, last, a);
        first_index_in_prefix(init, last, b);
    } else {
        assert(all == rest.push(last));
        assert(rest[i] == a);
        assert(rest.contains(a));
        assert(init.contains(a));
        assert(!init.contains(b)) by {
            if init.contains(b) {
                assert(b.len() > 0 && b != skip);
                assert(rest.contains(b));
            }
        }
        first_index_in_prefix(init, last, a);
        first_index(more, b);
        let k = more.index_of_first(b)->Some_0;
        assert(more[k] == b);
        if k < init.len() {
            assert(init[k] == b);
        }
        first_index(init, a);
    }
}

proof fn first_index(s: Seq<Seq<char>>, x: Seq<char>)
    requires
        s.contains(x),
    ensures
        s.index_of_first(x) is Some,
        0 <= s.index_of_first(x)->Some_0 < s.len(),
        s[s.index_of_first(x)->Some_0] == x,
        forall|k: int| 0 <= k < s.index_of_first(x)->Some_0 ==> s[k] != x,
{
    s.index_of_first_ensures(x);
}

proof fn first_index_in_prefix(s: Seq<Seq<char>>, last: Seq<char>, x: Seq<char>)
    requires
        s.contains(x),
    ensures
        s.push(last).index_of_first(x) == s.index_of_first(x),
{
    let t = s.push(last);
    first_index(s, x);
    assert(t[s.index_of_first(x)->Some_0] == x);
    first_index(t, x);
    let a = s.index_of_first(x)->Some_0;
    let b = t.index_of_first(x)->Some_0;
    if b < a {
        assert(s[b] == t[b]);
    }
}

/// Appends to `out` the ids of `more` it does not hold yet, but for empty ids and `skip`.
pub fn extend_distinct(out: &mut Vec<String>, more: &[String], skip: &str)
    ensures
        final(out).deep_view() == distinct_onto(old(out).deep_view(), more.deep_view(), skip@),
{
    let ghost base = out.deep_view();
    let ghost all = more.deep_view();
    let mut i: usize = 0;
    assert(all.take(0) =~= Seq::<Seq<char>>::empty());
    while i < more.len()
        invariant
            i <= more@.len(),
            all == more.deep_view(),
            out.deep_view() == distinct_onto(base, all.take(i as int), skip@),
        decreases more@.len() - i,
    {
        assert(all.take(i + 1).drop_last() =~= all.take(i as int));
        assert(all.take(i + 1).last() == more@[i as int]@);
        if !is_blank(more[i].as_str()) && !same_str(more[i].as_str(), skip) && !contains_str(
            out,
            more[i].as_str(),
        ) {
            vecs::push(out, more[i].clone());
        }
        i = i + 1;
    }
    assert(all.take(i as int) =~= all);
}

/// Whether a list of ids holds `id`.
pub fn holds(ids: &[String], id: &str) -> (r: bool)
    ensures
        r == ids.deep_view().contains(id@),
{
    let mut i: usize = 0;
    while i < ids.len()
        invariant
            i <= ids@.len(),
            forall|k: int| 0 <= k < i ==> ids.deep_view()[k] != id@,
        decreases ids@.len() - i,
    {
        if same_str(ids[i].as_str(), id) {
            assert(ids.deep_view()[i as int] == id@);
            return true;
        }
        i = i + 1;
    }
    false
}

} // verus!
