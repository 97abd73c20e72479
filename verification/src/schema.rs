//! The object stores of the database and which of them to create.

use vstd::prelude::*;
use vstd::string::*;

verus! {

/// The object stores of the database.
#[derive(Clone, Copy, Debug, PartialEq, Eq, Structural)]
pub enum Store {
    Sessions,
    Pauses,
    Settings,
    Tasks,
}

/// Every store, in the order they are created.
pub open spec fn all_stores() -> Seq<Store> {
    seq![Store::Sessions, Store::Pauses, Store::Settings, Store::Tasks]
}

impl Store {
    pub open spec fn name_text(self) -> Seq<char> {
        match self {
            Store::Sessions => "sessions"@,
            Store::Pauses => "pauses"@,
            Store::Settings => "settings"@,
            Store::Tasks => "tasks"@,
        }
    }

    /// The store's name in the database.
    pub fn name(self) -> (s: &'static str)
        ensures
            s@ == self.name_text(),
    {
        match self {
            Store::Sessions => "sessions",
            Store::Pauses => "pauses",
            Store::Settings => "settings",
            Store::Tasks => "tasks",
        }
    }

    /// Whether the store numbers its records itself. The settings store
    /// holds one record under a fixed key instead.
    pub fn auto_increment(self) -> (b: bool)
        ensures
            b == (self != Store::Settings),
    {
        match self {
            Store::Settings => false,
            _ => true,
        }
    }

    /// Whether the store is indexed by session (pauses are looked up by the
    /// session they belong to).
    pub fn indexed_by_session(self) -> (b: bool)
        ensures
            b == (self == Store::Pauses),
    {
        match self {
            Store::Pauses => true,
            _ => false,
        }
    }
}

/// The names of existing stores, as text.
pub open spec fn names_of(existing: Seq<String>) -> Seq<Seq<char>> {
    existing.map_values(|s: String| s@)
}

/// The stores whose names are not among `names`, in creation order.
pub open spec fn missing_from(names: Seq<Seq<char>>) -> Seq<Store> {
    all_stores().filter(|s: Store| !names.contains(s.name_text()))
}

fn contains_name(existing: &Vec<String>, name: &str) -> (b: bool)
    ensures
        b == names_of(existing@).contains(name@),
{
    let target = String::from_str(name);
    let n = existing.len();
    for i in 0..n
        invariant
            n == existing@.len(),
            target@ == name@,
            forall|j: int| 0 <= j < i ==> (#[trigger] existing@[j])@ != name@,
    {
        if existing[i] == target {
            assert(names_of(existing@)[i as int] == name@);
            return true;
        }
    }
    assert(!names_of(existing@).contains(name@)) by {
        if names_of(existing@).contains(name@) {
            let k = choose|k: int| 0 <= k < names_of(existing@).len() && names_of(existing@)[k] == name@;
            assert(existing@[k]@ == name@);
        }
    }
    false
}

/// The stores to create when the database is opened for a new version:
/// those not there yet, so that an upgrade keeps the stored history.
pub fn missing_stores(existing: &Vec<String>) -> (r: Vec<Store>)
    ensures
        r@ == missing_from(names_of(existing@)),
{
    let ghost keep = |s: Store| !names_of(existing@).contains(s.name_text());
    let mut out: Vec<Store> = Vec::new();
    if !contains_name(existing, Store::Sessions.name()) {
        out.push(Store::Sessions);
    }
    if !contains_name(existing, Store::Pauses.name()) {
        out.push(Store::Pauses);
    }
    if !contains_name(existing, Store::Settings.name()) {
        out.push(Store::Settings);
    }
    if !contains_name(existing, Store::Tasks.name()) {
        out.push(Store::Tasks);
    }
    proof {
        let a = all_stores();
        assert(a.take(0) == Seq::<Store>::empty());
        assert(a.take(1) == a.take(0).push(Store::Sessions));
        assert(a.take(2) == a.take(1).push(Store::Pauses));
        assert(a.take(3) == a.take(2).push(Store::Settings));
        assert(a.take(4) == a.take(3).push(Store::Tasks));
        assert(a.take(4) == a);
        a.take(0).lemma_filter_push(Store::Sessions, keep);
        a.take(1).lemma_filter_push(Store::Pauses, keep);
        a.take(2).lemma_filter_push(Store::Settings, keep);
        a.take(3).lemma_filter_push(Store::Tasks, keep);
        reveal(Seq::filter);
        assert(a.take(0).filter(keep) == Seq::<Store>::empty());
    }
    out
}

/// Opening is idempotent: once the missing stores are created, none is
/// missing any more.
pub proof fn lemma_upgrade_idempotent(names: Seq<Seq<char>>)
    ensures
        missing_from(names + missing_from(names).map_values(|s: Store| s.name_text())).len() == 0,
{
    let created = missing_from(names).map_values(|s: Store| s.name_text());
    let after = names + created;
    let pred = |s: Store| !after.contains(s.name_text());
    let pred0 = |s: Store| !names.contains(s.name_text());
    let out = all_stores().filter(pred);
    if out.len() > 0 {
        // The first store still missing would have to be missing from both
        // the old names and the created ones.
        all_stores().lemma_filter_pred(pred, 0);
        let s = out[0];
        if names.contains(s.name_text()) {
            let j = choose|j: int| 0 <= j < names.len() && names[j] == s.name_text();
            assert(after[j] == s.name_text());
        } else {
            let i: int = if s == Store::Sessions { 0 } else if s == Store::Pauses { 1 } else if s == Store::Settings { 2 } else { 3 };
            assert(all_stores()[i] == s);
            all_stores().lemma_filter_contains(pred0, i);
            let m = choose|m: int| 0 <= m < missing_from(names).len() && missing_from(names)[m] == s;
            assert(after[names.len() + m] == s.name_text());
        }
    }
}

/// The four stores are named "sessions", "pauses", "settings" and "tasks",
/// all different, and created in that order.
pub proof fn lemma_store_names()
    ensures
        Store::Sessions.name_text() == "sessions"@,
        Store::Pauses.name_text() == "pauses"@,
        Store::Settings.name_text() == "settings"@,
        Store::Tasks.name_text() == "tasks"@,
        all_stores() == seq![Store::Sessions, Store::Pauses, Store::Settings, Store::Tasks],
        forall|a: Store, b: Store| a != b ==> a.name_text() != b.name_text(),
{
    reveal_strlit("sessions");
    reveal_strlit("pauses");
    reveal_strlit("settings");
    reveal_strlit("tasks");
    assert forall|a: Store, b: Store| a != b implies a.name_text() != b.name_text() by {
        if a.name_text().len() == b.name_text().len() {
            assert(a.name_text()[2] != b.name_text()[2] || a.name_text()[0] != b.name_text()[0]);
        }
    }
}

} // verus!
