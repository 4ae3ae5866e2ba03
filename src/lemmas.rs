use crate::contract::{add_post, delete_post, edit_post, EntryMap};
use crate::error::ContractError;
use crate::state::{is_listing, name_lt};
use vstd::prelude::*;

verus! {

/// No name comes strictly before itself.
pub proof fn lemma_name_lt_irreflexive(a: Seq<char>)
    ensures
        !name_lt(a, a),
    decreases a.len(),
{
    if a.len() > 0 {
        lemma_name_lt_irreflexive(a.drop_first());
    }
}

/// No two names each come strictly before the other.
pub proof fn lemma_name_lt_asymmetric(a: Seq<char>, b: Seq<char>)
    ensures
        !(name_lt(a, b) && name_lt(b, a)),
    decreases a.len(),
{
    if a.len() > 0 && b.len() > 0 && a[0] == b[0] {
        lemma_name_lt_asymmetric(a.drop_first(), b.drop_first());
    }
}

/// An owner has one listing only: two listings of the same entries are equal.
pub proof fn lemma_listing_unique(
    m: EntryMap,
    owner: Seq<char>,
    s1: Seq<(Seq<char>, Seq<char>)>,
    s2: Seq<(Seq<char>, Seq<char>)>,
)
    requires
        is_listing(m, owner, s1),
        is_listing(m, owner, s2),
    ensures
        s1 == s2,
    decreases s1.len(),
{
    if s1.len() == 0 {
        if s2.len() > 0 {
            assert(m.contains_key((owner, s2[0].0)));
        }
        assert(s1 =~= s2);
    } else {
        assert(m.contains_key((owner, s1[0].0)));
        let a = s1[0].0;
        assert(s2.len() > 0);
        let b = s2[0].0;
        assert(m.contains_key((owner, b)));
        if a != b {
            let j = choose|j: int| 0 <= j < s2.len() && s2[j].0 == a;
            let k = choose|k: int| 0 <= k < s1.len() && s1[k].0 == b;
            assert(name_lt(s2[0].0, s2[j].0));
            assert(name_lt(s1[0].0, s1[k].0));
            lemma_name_lt_asymmetric(a, b);
        }
        let m2 = m.remove((owner, a));
        let t1 = s1.drop_first();
        let t2 = s2.drop_first();
        assert forall|i: int| 0 <= i < t1.len() implies m2.contains_key((owner, #[trigger] t1[i].0))
            && m2[(owner, t1[i].0)] == t1[i].1 by {
            assert(name_lt(s1[0].0, s1[i + 1].0));
            lemma_name_lt_irreflexive(a);
        }
        assert forall|i: int| 0 <= i < t2.len() implies m2.contains_key((owner, #[trigger] t2[i].0))
            && m2[(owner, t2[i].0)] == t2[i].1 by {
            assert(name_lt(s2[0].0, s2[i + 1].0));
            lemma_name_lt_irreflexive(a);
        }
        assert forall|n: Seq<char>| #[trigger] m2.contains_key((owner, n)) implies exists|i: int|
            0 <= i < t1.len() && t1[i].0 == n by {
            let i = choose|i: int| 0 <= i < s1.len() && s1[i].0 == n;
            assert(t1[i - 1].0 == n);
        }
        assert forall|n: Seq<char>| #[trigger] m2.contains_key((owner, n)) implies exists|i: int|
            0 <= i < t2.len() && t2[i].0 == n by {
            let i = choose|i: int| 0 <= i < s2.len() && s2[i].0 == n;
            assert(t2[i - 1].0 == n);
        }
        assert forall|i: int, j: int| 0 <= i < j < t1.len() implies name_lt(
            #[trigger] t1[i].0,
            #[trigger] t1[j].0,
        ) by {
            assert(name_lt(s1[i + 1].0, s1[j + 1].0));
        }
        assert forall|i: int, j: int| 0 <= i < j < t2.len() implies name_lt(
            #[trigger] t2[i].0,
            #[trigger] t2[j].0,
        ) by {
            assert(name_lt(s2[i + 1].0, s2[j + 1].0));
        }
        lemma_listing_unique(m2, owner, t1, t2);
        assert(s1 =~= s2) by {
            assert(s1 =~= seq![s1[0]] + t1);
            assert(s2 =~= seq![s2[0]] + t2);
        }
    }
}

/// An owner without entries is listed as the empty sequence.
pub proof fn lemma_list_owner_without_entries(m: EntryMap, owner: Seq<char>, s: Seq<(Seq<char>, Seq<char>)>)
    requires
        forall|n: Seq<char>| !m.contains_key((owner, n)),
        is_listing(m, owner, s),
    ensures
        s.len() == 0,
{
    if s.len() > 0 {
        assert(m.contains_key((owner, s[0].0)));
    }
}

/// Adding an entry for an owner without entries, then listing that owner,
/// gives exactly the added (name, value).
pub proof fn lemma_add_then_list(
    before: EntryMap,
    after: EntryMap,
    owner: Seq<char>,
    name: Seq<char>,
    value: Seq<char>,
    s: Seq<(Seq<char>, Seq<char>)>,
)
    requires
        forall|n: Seq<char>| !before.contains_key((owner, n)),
        add_post(before, after, owner, name, value, Ok(())),
        is_listing(after, owner, s),
    ensures
        s == seq![(name, value)],
{
    assert(after.contains_key((owner, name)));
    let i = choose|i: int| 0 <= i < s.len() && s[i].0 == name;
    assert forall|j: int| 0 <= j < s.len() implies s[j].0 == name by {
        assert(after.contains_key((owner, s[j].0)));
    }
    if s.len() > 1 {
        assert(name_lt(s[0].0, s[1].0));
        lemma_name_lt_irreflexive(name);
    }
    assert(s =~= seq![(name, value)]);
}

/// A second add of the same (owner, name) fails with `KeyAlreadyExists` and
/// keeps the value of the first.
pub proof fn lemma_add_twice(
    m0: EntryMap,
    m1: EntryMap,
    m2: EntryMap,
    owner: Seq<char>,
    name: Seq<char>,
    first: Seq<char>,
    second: Seq<char>,
    r: Result<(), ContractError>,
)
    requires
        add_post(m0, m1, owner, name, first, Ok(())),
        add_post(m1, m2, owner, name, second, r),
    ensures
        r matches Err(ContractError::KeyAlreadyExists {  }),
        m2 == m1,
        m2.contains_key((owner, name)) && m2[(owner, name)] == first,
{
}

/// After a successful edit, a listing of the owner holds the edited name
/// with the new value, and with no other value.
pub proof fn lemma_edit_then_list(
    before: EntryMap,
    after: EntryMap,
    owner: Seq<char>,
    name: Seq<char>,
    value: Seq<char>,
    s: Seq<(Seq<char>, Seq<char>)>,
)
    requires
        edit_post(before, after, owner, name, value, Ok(())),
        is_listing(after, owner, s),
    ensures
        exists|i: int| 0 <= i < s.len() && s[i] == (name, value),
        forall|i: int| 0 <= i < s.len() && s[i].0 == name ==> s[i].1 == value,
{
    assert(after.contains_key((owner, name)));
    let i = choose|i: int| 0 <= i < s.len() && s[i].0 == name;
    assert(s[i] == (name, value));
}

/// After a successful delete, a listing of the owner no longer holds the
/// deleted name.
pub proof fn lemma_delete_then_list(
    before: EntryMap,
    after: EntryMap,
    owner: Seq<char>,
    name: Seq<char>,
    s: Seq<(Seq<char>, Seq<char>)>,
)
    requires
        delete_post(before, after, owner, name, Ok(())),
        is_listing(after, owner, s),
    ensures
        forall|i: int| 0 <= i < s.len() ==> s[i].0 != name,
{
    assert forall|i: int| 0 <= i < s.len() implies s[i].0 != name by {
        assert(after.contains_key((owner, s[i].0)));
    }
}

/// A successful edit changes the owner's listing in one place only: the
/// edited name keeps its position and takes the new value.
pub proof fn lemma_edit_keeps_position(
    before: EntryMap,
    after: EntryMap,
    owner: Seq<char>,
    name: Seq<char>,
    value: Seq<char>,
    s0: Seq<(Seq<char>, Seq<char>)>,
    s1: Seq<(Seq<char>, Seq<char>)>,
)
    requires
        edit_post(before, after, owner, name, value, Ok(())),
        is_listing(before, owner, s0),
        is_listing(after, owner, s1),
    ensures
        exists|i: int| 0 <= i < s0.len() && s0[i].0 == name && s1 == s0.update(i, (name, value)),
{
    assert(before.contains_key((owner, name)));
    let i = choose|i: int| 0 <= i < s0.len() && s0[i].0 == name;
    let t = s0.update(i, (name, value));
    assert forall|n: Seq<char>| #[trigger] after.contains_key((owner, n)) implies exists|k: int|
        0 <= k < t.len() && t[k].0 == n by {
        if n != name {
            let k = choose|k: int| 0 <= k < s0.len() && s0[k].0 == n;
            assert(t[k].0 == n);
        } else {
            assert(t[i].0 == n);
        }
    }
    assert forall|a: int, b: int| 0 <= a < b < t.len() implies name_lt(
        #[trigger] t[a].0,
        #[trigger] t[b].0,
    ) by {
        assert(name_lt(s0[a].0, s0[b].0));
    }
    assert forall|k: int| 0 <= k < t.len() implies after.contains_key((owner, #[trigger] t[k].0))
        && after[(owner, t[k].0)] == t[k].1 by {
        if k != i {
            assert(after.contains_key((owner, s0[k].0)));
            if s0[k].0 == name {
                if k < i {
                    assert(name_lt(s0[k].0, s0[i].0));
                } else {
                    assert(name_lt(s0[i].0, s0[k].0));
                }
                lemma_name_lt_irreflexive(name);
            }
        }
    }
    lemma_listing_unique(after, owner, s1, t);
}

/// A successful delete takes the deleted name out of the owner's listing and
/// keeps the order of the rest.
pub proof fn lemma_delete_removes_from_listing(
    before: EntryMap,
    after: EntryMap,
    owner: Seq<char>,
    name: Seq<char>,
    s0: Seq<(Seq<char>, Seq<char>)>,
    s1: Seq<(Seq<char>, Seq<char>)>,
)
    requires
        delete_post(before, after, owner, name, Ok(())),
        is_listing(before, owner, s0),
        is_listing(after, owner, s1),
    ensures
        exists|i: int| 0 <= i < s0.len() && s0[i].0 == name && s1 == s0.remove(i),
{
    assert(before.contains_key((owner, name)));
    let i = choose|i: int| 0 <= i < s0.len() && s0[i].0 == name;
    let t = s0.remove(i);
    assert forall|k: int| 0 <= k < s0.len() && k != i implies s0[k].0 != name by {
        if k < i {
            assert(name_lt(s0[k].0, s0[i].0));
        } else {
            assert(name_lt(s0[i].0, s0[k].0));
        }
        lemma_name_lt_irreflexive(name);
    }
    assert forall|n: Seq<char>| #[trigger] after.contains_key((owner, n)) implies exists|k: int|
        0 <= k < t.len() && t[k].0 == n by {
        let k = choose|k: int| 0 <= k < s0.len() && s0[k].0 == n;
        if k < i {
            assert(t[k].0 == n);
        } else {
            assert(t[k - 1].0 == n);
        }
    }
    assert forall|a: int, b: int| 0 <= a < b < t.len() implies name_lt(
        #[trigger] t[a].0,
        #[trigger] t[b].0,
    ) by {
        let a0 = if a < i { a } else { a + 1 };
        let b0 = if b < i { b } else { b + 1 };
        assert(name_lt(s0[a0].0, s0[b0].0));
    }
    assert forall|k: int| 0 <= k < t.len() implies after.contains_key((owner, #[trigger] t[k].0))
        && after[(owner, t[k].0)] == t[k].1 by {
        let k0 = if k < i { k } else { k + 1 };
        assert(t[k] == s0[k0]);
        assert(before.contains_key((owner, s0[k0].0)));
    }
    lemma_listing_unique(after, owner, s1, t);
}

/// An edit refused for a missing key creates nothing: a following add of the
/// same (owner, name) succeeds and inserts its value.
pub proof fn lemma_failed_edit_then_add(
    m0: EntryMap,
    m1: EntryMap,
    m2: EntryMap,
    owner: Seq<char>,
    name: Seq<char>,
    edited: Seq<char>,
    added: Seq<char>,
    r1: Result<(), ContractError>,
    r2: Result<(), ContractError>,
)
    requires
        edit_post(m0, m1, owner, name, edited, r1),
        r1 matches Err(ContractError::KeyDoesntExist {  }),
        add_post(m1, m2, owner, name, added, r2),
    ensures
        r2 is Ok,
        m2 == m0.insert((owner, name), added),
{
}

} // verus!
