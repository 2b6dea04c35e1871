//! Tables of items keyed by unique names, in registration order:
//! registering a name that is already present replaces its item in
//! place, so each name keeps the position of its first registration.

use vstd::prelude::*;
use vstd::string::*;

verus! {

/// Whether no name occurs twice in `t`.
pub open spec fn names_unique<F>(t: Seq<(Seq<char>, F)>) -> bool {
    forall|i: int, j: int|
        0 <= i < t.len() && 0 <= j < t.len() && #[trigger] t[i].0 == #[trigger] t[j].0 ==> i == j
}

/// Whether `name` is registered in `t`.
pub open spec fn has_name<F>(t: Seq<(Seq<char>, F)>, name: Seq<char>) -> bool {
    exists|i: int| 0 <= i < t.len() && #[trigger] t[i].0 == name
}

/// The position of `name` in `t`, if it is registered.
pub open spec fn slot_of<F>(t: Seq<(Seq<char>, F)>, name: Seq<char>) -> Option<int> {
    if has_name(t, name) {
        Some(choose|i: int| 0 <= i < t.len() && #[trigger] t[i].0 == name)
    } else {
        None
    }
}

/// What `t` holds under `name`.
pub open spec fn lookup<F>(t: Seq<(Seq<char>, F)>, name: Seq<char>) -> Option<F> {
    match slot_of(t, name) {
        Some(i) => Some(t[i].1),
        None => None,
    }
}

/// `t` after registering `item` under `name`: a registered name keeps
/// its position and gets the new item; a new name goes to the end.
pub open spec fn registered<F>(t: Seq<(Seq<char>, F)>, name: Seq<char>, item: F) -> Seq<
    (Seq<char>, F),
> {
    match slot_of(t, name) {
        Some(i) => t.update(i, (name, item)),
        None => t.push((name, item)),
    }
}

/// What a read gives back of a write: after registering `item` under
/// `name`, `name` looks up `item` and every other name looks up what it
/// did before.
pub proof fn law_lookup_after_register<F>(t: Seq<(Seq<char>, F)>, name: Seq<char>, item: F)
    requires
        names_unique(t),
    ensures
        names_unique(registered(t, name, item)),
        lookup(registered(t, name, item), name) == Some(item),
        forall|other: Seq<char>|
            other != name ==> #[trigger] lookup(registered(t, name, item), other) == lookup(
                t,
                other,
            ),
{
    let r = registered(t, name, item);
    lemma_registered_unique(t, name, item);
    let i = match slot_of(t, name) {
        Some(i) => i,
        None => t.len() as int,
    };
    assert(r[i].0 == name);
    lemma_slot_is_unique(r, name, i);
    assert forall|other: Seq<char>| other != name implies #[trigger] lookup(r, other) == lookup(
        t,
        other,
    ) by {
        if has_name(t, other) {
            let j = choose|j: int| 0 <= j < t.len() && #[trigger] t[j].0 == other;
            assert(r[j] == t[j]);
            lemma_slot_is_unique(t, other, j);
            lemma_slot_is_unique(r, other, j);
        } else if has_name(r, other) {
            let j = choose|j: int| 0 <= j < r.len() && #[trigger] r[j].0 == other;
            assert(r[j] == t[j]);
        }
    }
}

/// Re-registering a name keeps its position and the size of the table:
/// a name holds the slot of its first registration.
pub proof fn law_reregister_keeps_slot<F>(t: Seq<(Seq<char>, F)>, name: Seq<char>, item: F)
    requires
        names_unique(t),
        has_name(t, name),
    ensures
        registered(t, name, item).len() == t.len(),
        slot_of(registered(t, name, item), name) == slot_of(t, name),
{
    let i = slot_of(t, name)->0;
    lemma_registered_unique(t, name, item);
    lemma_slot_is_unique(registered(t, name, item), name, i);
}

proof fn lemma_registered_unique<F>(t: Seq<(Seq<char>, F)>, name: Seq<char>, item: F)
    requires
        names_unique(t),
    ensures
        names_unique(registered(t, name, item)),
        registered(t, name, item).len() == if has_name(t, name) {
            t.len()
        } else {
            t.len() + 1
        },
{
    let r = registered(t, name, item);
    if has_name(t, name) {
        let i = slot_of(t, name)->0;
        assert forall|a: int, b: int|
            0 <= a < r.len() && 0 <= b < r.len() && #[trigger] r[a].0 == #[trigger] r[b].0 implies a
            == b by {
            if a != i && b != i {
                assert(t[a].0 == t[b].0);
            } else if a == i && b != i {
                assert(t[b].0 == t[i].0);
            } else if b == i && a != i {
                assert(t[a].0 == t[i].0);
            }
        }
    } else {
        assert forall|a: int, b: int|
            0 <= a < r.len() && 0 <= b < r.len() && #[trigger] r[a].0 == #[trigger] r[b].0 implies a
            == b by {
            if a < t.len() && b < t.len() {
                assert(t[a].0 == t[b].0);
            } else if a < t.len() {
                assert(t[a].0 == name);
            } else if b < t.len() {
                assert(t[b].0 == name);
            }
        }
    }
}

/// A factory (or probe) stored under a name.
pub(crate) struct Named<F> {
    pub(crate) name: String,
    pub(crate) item: F,
}

pub(crate) open spec fn table_of<F>(v: Seq<Named<F>>) -> Seq<(Seq<char>, F)> {
    v.map_values(|e: Named<F>| (e.name@, e.item))
}

pub(crate) proof fn lemma_slot_is_unique<F>(t: Seq<(Seq<char>, F)>, name: Seq<char>, i: int)
    requires
        names_unique(t),
        0 <= i < t.len(),
        t[i].0 == name,
    ensures
        slot_of(t, name) == Some(i),
{
    let j = choose|j: int| 0 <= j < t.len() && #[trigger] t[j].0 == name;
    assert(t[j].0 == t[i].0);
}

/// The position of `name` in `v`.
pub(crate) fn find_named<F>(v: &Vec<Named<F>>, name: &String) -> (r: Option<usize>)
    requires
        names_unique(table_of(v@)),
    ensures
        match r {
            Some(i) => slot_of(table_of(v@), name@) == Some(i as int),
            None => slot_of(table_of(v@), name@) is None,
        },
{
    let ghost t = table_of(v@);
    let mut i: usize = 0;
    while i < v.len()
        invariant
            t == table_of(v@),
            names_unique(t),
            i <= v@.len(),
            forall|j: int| 0 <= j < i ==> #[trigger] t[j].0 != name@,
        decreases v@.len() - i,
    {
        if v[i].name == *name {
            proof {
                lemma_slot_is_unique(t, name@, i as int);
            }
            return Some(i);
        }
        i += 1;
    }
    None
}

/// Registers `item` under `name` in `v`, replacing in place.
pub(crate) fn put_named<F>(v: &mut Vec<Named<F>>, name: String, item: F)
    requires
        names_unique(table_of(old(v)@)),
    ensures
        table_of(final(v)@) == registered(table_of(old(v)@), name@, item),
        names_unique(table_of(final(v)@)),
{
    let ghost t = table_of(v@);
    let ghost key = name@;
    match find_named(v, &name) {
        Some(i) => {
            v[i] = Named { name, item };
            assert(table_of(v@) =~= t.update(i as int, (key, item)));
        },
        None => {
            v.push(Named { name, item });
            assert(table_of(v@) =~= t.push((key, item)));
            assert forall|a: int, b: int|
                0 <= a < table_of(v@).len() && 0 <= b < table_of(v@).len() && #[trigger] table_of(
                    v@,
                )[a].0 == #[trigger] table_of(v@)[b].0 implies a == b by {
                if a < t.len() && b < t.len() {
                    assert(t[a].0 == t[b].0);
                } else if a < t.len() {
                    assert(t[a].0 == key);
                } else if b < t.len() {
                    assert(t[b].0 == key);
                }
            }
        },
    }
}

/// The names in `v`, in registration order.
pub(crate) fn names_of<F>(v: &Vec<Named<F>>) -> (r: Vec<&str>)
    ensures
        r@.len() == v@.len(),
        forall|i: int| 0 <= i < r@.len() ==> #[trigger] r@[i]@ == table_of(v@)[i].0,
{
    let mut r: Vec<&str> = Vec::new();
    let mut i: usize = 0;
    while i < v.len()
        invariant
            i <= v@.len(),
            r@.len() == i,
            forall|j: int| 0 <= j < i ==> #[trigger] r@[j]@ == table_of(v@)[j].0,
        decreases v@.len() - i,
    {
        r.push(v[i].name.as_str());
        i += 1;
    }
    r
}

} // verus!
