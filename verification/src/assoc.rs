//! A small association map from names to copyable values, kept sorted by
//! name in lexicographic order with no name twice. It stands where the
//! session state wants an ordered map keyed by strings — the lobby's game
//! list, a game lobby's roster — so that listing order is the name order
//! and an index into the listing is meaningful.

use vstd::prelude::*;
use vstd::string::*;

verus! {

/// Strict lexicographic order on names by character code, the empty name
/// first.
pub open spec fn lex_lt(a: Seq<char>, b: Seq<char>) -> bool
    decreases a.len(),
{
    if b.len() == 0 {
        false
    } else if a.len() == 0 {
        true
    } else if a[0] != b[0] {
        a[0] < b[0]
    } else {
        lex_lt(a.drop_first(), b.drop_first())
    }
}

/// `lex_lt` never relates a name to itself.
pub proof fn lemma_lex_irreflexive(a: Seq<char>)
    ensures
        !lex_lt(a, a),
    decreases a.len(),
{
    if a.len() > 0 {
        lemma_lex_irreflexive(a.drop_first());
    }
}

/// `lex_lt` is transitive.
pub proof fn lemma_lex_transitive(a: Seq<char>, b: Seq<char>, c: Seq<char>)
    requires
        lex_lt(a, b),
        lex_lt(b, c),
    ensures
        lex_lt(a, c),
    decreases a.len(),
{
    if a.len() > 0 && b.len() > 0 && c.len() > 0 && a[0] == b[0] && b[0] == c[0] {
        lemma_lex_transitive(a.drop_first(), b.drop_first(), c.drop_first());
    }
}

/// Two names are equal or one is `lex_lt` the other.
pub proof fn lemma_lex_total(a: Seq<char>, b: Seq<char>)
    ensures
        a == b || lex_lt(a, b) || lex_lt(b, a),
    decreases a.len(),
{
    if a.len() > 0 && b.len() > 0 && a[0] == b[0] {
        lemma_lex_total(a.drop_first(), b.drop_first());
        if a.drop_first() == b.drop_first() {
            assert forall|i: int| 0 <= i < a.len() implies a[i] == b[i] by {
                if i > 0 {
                    assert(a.drop_first()[i - 1] == a[i]);
                    assert(b.drop_first()[i - 1] == b[i]);
                }
            }
            assert(a =~= b);
        }
    }
}

/// The entries in name order: every earlier name strictly precedes every
/// later one, so no name occurs twice.
pub open spec fn assoc_sorted<T>(v: Seq<(Seq<char>, T)>) -> bool {
    forall|i: int, j: int|
        0 <= i < j < v.len() ==> lex_lt((#[trigger] v[i]).0, (#[trigger] v[j]).0)
}

/// The value stored under `name`: the first entry that carries it.
pub open spec fn assoc_lookup<T>(v: Seq<(Seq<char>, T)>, name: Seq<char>) -> Option<T>
    decreases v.len(),
{
    if v.len() == 0 {
        None
    } else if v[0].0 == name {
        Some(v[0].1)
    } else {
        assoc_lookup(v.drop_first(), name)
    }
}

/// `assoc_lookup` misses exactly the names no entry carries.
pub proof fn lemma_assoc_lookup_none<T>(v: Seq<(Seq<char>, T)>, name: Seq<char>)
    ensures
        (assoc_lookup(v, name) is None) <==> (forall|i: int|
            0 <= i < v.len() ==> (#[trigger] v[i]).0 != name),
    decreases v.len(),
{
    if v.len() > 0 {
        lemma_assoc_lookup_none(v.drop_first(), name);
        let d = v.drop_first();
        if v[0].0 == name {
        } else {
            if assoc_lookup(v, name) is None {
                assert forall|i: int| 0 <= i < v.len() implies (#[trigger] v[i]).0 != name by {
                    if i > 0 {
                        assert(d[i - 1] == v[i]);
                        assert((d[i - 1]).0 != name);
                    }
                }
            } else {
                assert(!(forall|i: int| 0 <= i < d.len() ==> (#[trigger] d[i]).0 != name));
                let i = choose|i: int| 0 <= i < d.len() && (#[trigger] d[i]).0 == name;
                assert(d[i] == v[i + 1]);
                assert((v[i + 1]).0 == name);
            }
        }
    }
}

/// A lookup at an entry's own name finds its value, in a sorted list.
pub proof fn lemma_assoc_lookup_at<T>(v: Seq<(Seq<char>, T)>, k: int)
    requires
        assoc_sorted(v),
        0 <= k < v.len(),
    ensures
        assoc_lookup(v, v[k].0) == Some(v[k].1),
    decreases k,
{
    if k > 0 {
        assert(lex_lt(v[0].0, v[k].0));
        lemma_lex_irreflexive(v[0].0);
        lemma_assoc_lookup_at(v.drop_first(), k - 1);
        assert(v.drop_first()[k - 1] == v[k]);
    }
}

/// Replacing the value at entry `k` changes exactly that entry's name's
/// lookup.
proof fn lemma_assoc_lookup_update<T>(v: Seq<(Seq<char>, T)>, k: int, val: T, name: Seq<char>)
    requires
        assoc_sorted(v),
        0 <= k < v.len(),
    ensures
        assoc_lookup(v.update(k, (v[k].0, val)), name) == if name == v[k].0 {
            Some(val)
        } else {
            assoc_lookup(v, name)
        },
    decreases v.len(),
{
    let w = v.update(k, (v[k].0, val));
    if k == 0 {
        if name != v[0].0 {
            assert(w.drop_first() =~= v.drop_first());
        }
    } else {
        lemma_assoc_lookup_update(v.drop_first(), k - 1, val, name);
        assert(w.drop_first() =~= v.drop_first().update(k - 1, (v[k].0, val)));
        assert(v.drop_first()[k - 1] == v[k]);
        if name == v[k].0 {
            assert(lex_lt(v[0].0, v[k].0));
            lemma_lex_irreflexive(v[k].0);
        }
    }
}

/// Inserting an entry whose name is nowhere in the list serves that name
/// and leaves every other lookup as it was.
proof fn lemma_assoc_lookup_insert<T>(
    v: Seq<(Seq<char>, T)>,
    p: int,
    entry: (Seq<char>, T),
    name: Seq<char>,
)
    requires
        0 <= p <= v.len(),
        forall|i: int| 0 <= i < v.len() ==> (#[trigger] v[i]).0 != entry.0,
    ensures
        assoc_lookup(v.insert(p, entry), name) == if name == entry.0 {
            Some(entry.1)
        } else {
            assoc_lookup(v, name)
        },
    decreases p,
{
    reveal_with_fuel(assoc_lookup, 3);
    let w = v.insert(p, entry);
    if p == 0 {
        assert(w[0] == entry);
        assert(w.drop_first() =~= v);
    } else {
        assert forall|i: int|
            0 <= i < v.drop_first().len() implies (#[trigger] v.drop_first()[i]).0 != entry.0 by {
            assert(v.drop_first()[i] == v[i + 1]);
        }
        lemma_assoc_lookup_insert(v.drop_first(), p - 1, entry, name);
        assert(w[0] == v[0]);
        assert(w.drop_first() =~= v.drop_first().insert(p - 1, entry));
        if name == entry.0 {
            assert((v[0]).0 != entry.0);
        }
    }
}

/// Deleting entry `k` ends that name's lookup and leaves every other as it
/// was.
proof fn lemma_assoc_lookup_remove<T>(v: Seq<(Seq<char>, T)>, k: int, name: Seq<char>)
    requires
        assoc_sorted(v),
        0 <= k < v.len(),
    ensures
        assoc_lookup(v.remove(k), name) == if name == v[k].0 {
            None
        } else {
            assoc_lookup(v, name)
        },
    decreases v.len(),
{
    let w = v.remove(k);
    if k == 0 {
        assert(w =~= v.drop_first());
        if name == v[0].0 {
            lemma_assoc_lookup_none(v.drop_first(), name);
            assert forall|i: int|
                0 <= i < v.drop_first().len() implies (#[trigger] v.drop_first()[i]).0 != name by {
                assert(v.drop_first()[i] == v[i + 1]);
                assert(lex_lt(v[0].0, v[i + 1].0));
                lemma_lex_irreflexive(v[0].0);
            }
        }
    } else {
        lemma_assoc_lookup_remove(v.drop_first(), k - 1, name);
        assert(w.drop_first() =~= v.drop_first().remove(k - 1));
        assert(w[0] == v[0]);
        assert(v.drop_first()[k - 1] == v[k]);
        if name == v[k].0 {
            assert(lex_lt(v[0].0, v[k].0));
            lemma_lex_irreflexive(v[k].0);
        }
    }
}

/// The list after storing `name -> val`: the value replaced in place when
/// the name is present, the entry inserted at its name-ordered position
/// otherwise.
pub open spec fn assoc_upsert<T>(v: Seq<(Seq<char>, T)>, name: Seq<char>, val: T) -> Seq<
    (Seq<char>, T),
>
    decreases v.len(),
{
    if v.len() == 0 {
        seq![(name, val)]
    } else if v[0].0 == name {
        v.update(0, (name, val))
    } else if lex_lt(name, v[0].0) {
        v.insert(0, (name, val))
    } else {
        seq![v[0]] + assoc_upsert(v.drop_first(), name, val)
    }
}

/// The list after deleting whatever `name` is stored under.
pub open spec fn assoc_remove<T>(v: Seq<(Seq<char>, T)>, name: Seq<char>) -> Seq<(Seq<char>, T)>
    decreases v.len(),
{
    if v.len() == 0 {
        v
    } else if v[0].0 == name {
        v.drop_first()
    } else {
        seq![v[0]] + assoc_remove(v.drop_first(), name)
    }
}

/// Where the ordered scan stops is where `assoc_upsert` acts: at an equal
/// name it replaces, otherwise it inserts there.
proof fn lemma_assoc_upsert_at<T>(v: Seq<(Seq<char>, T)>, name: Seq<char>, val: T, i: int)
    requires
        assoc_sorted(v),
        0 <= i <= v.len(),
        forall|j: int| 0 <= j < i ==> lex_lt((#[trigger] v[j]).0, name),
        i < v.len() ==> !lex_lt(v[i].0, name),
    ensures
        assoc_upsert(v, name, val) == if i < v.len() && v[i].0 == name {
            v.update(i, (name, val))
        } else {
            v.insert(i, (name, val))
        },
    decreases i,
{
    if i == 0 {
        if v.len() == 0 {
            assert(assoc_upsert(v, name, val) =~= v.insert(0, (name, val)));
        } else if v[0].0 != name {
            lemma_lex_total(name, v[0].0);
        }
    } else {
        let d = v.drop_first();
        assert(lex_lt(v[0].0, name));
        if v[0].0 == name {
            lemma_lex_irreflexive(name);
        }
        if lex_lt(name, v[0].0) {
            lemma_lex_transitive(v[0].0, name, v[0].0);
            lemma_lex_irreflexive(v[0].0);
        }
        assert forall|i2: int, j2: int|
            0 <= i2 < j2 < d.len() implies lex_lt((#[trigger] d[i2]).0, (#[trigger] d[j2]).0) by {
            assert(d[i2] == v[i2 + 1] && d[j2] == v[j2 + 1]);
        }
        assert forall|j: int| 0 <= j < i - 1 implies lex_lt((#[trigger] d[j]).0, name) by {
            assert(d[j] == v[j + 1]);
        }
        if i - 1 < d.len() {
            assert(d[i - 1] == v[i]);
        }
        lemma_assoc_upsert_at(d, name, val, i - 1);
        if i < v.len() && v[i].0 == name {
            assert(seq![v[0]] + d.update(i - 1, (name, val)) =~= v.update(i, (name, val)));
        } else {
            assert(seq![v[0]] + d.insert(i - 1, (name, val)) =~= v.insert(i, (name, val)));
        }
    }
}

/// Deleting acts exactly at the first entry that carries the name.
proof fn lemma_assoc_remove_at<T>(v: Seq<(Seq<char>, T)>, name: Seq<char>, i: int)
    requires
        0 <= i < v.len(),
        forall|j: int| 0 <= j < i ==> (#[trigger] v[j]).0 != name,
        v[i].0 == name,
    ensures
        assoc_remove(v, name) == v.remove(i),
    decreases i,
{
    if i == 0 {
        assert(assoc_remove(v, name) =~= v.remove(0));
    } else {
        let d = v.drop_first();
        assert forall|j: int| 0 <= j < i - 1 implies (#[trigger] d[j]).0 != name by {
            assert(d[j] == v[j + 1]);
        }
        assert(d[i - 1] == v[i]);
        lemma_assoc_remove_at(d, name, i - 1);
        assert(seq![v[0]] + d.remove(i - 1) =~= v.remove(i));
    }
}

/// Deleting a name nobody carries changes nothing.
proof fn lemma_assoc_remove_absent<T>(v: Seq<(Seq<char>, T)>, name: Seq<char>)
    requires
        forall|j: int| 0 <= j < v.len() ==> (#[trigger] v[j]).0 != name,
    ensures
        assoc_remove(v, name) == v,
    decreases v.len(),
{
    if v.len() > 0 {
        let d = v.drop_first();
        assert forall|j: int| 0 <= j < d.len() implies (#[trigger] d[j]).0 != name by {
            assert(d[j] == v[j + 1]);
        }
        lemma_assoc_remove_absent(d, name);
        assert(seq![v[0]] + d =~= v);
    }
}

/// The sorted association map itself.
#[derive(Debug, Clone, PartialEq)]
pub struct AssocList<T> {
    entries: Vec<(String, T)>,
}

impl<T> View for AssocList<T> {
    type V = Seq<(Seq<char>, T)>;

    closed spec fn view(&self) -> Seq<(Seq<char>, T)> {
        self.entries@.map_values(|e: (String, T)| (e.0@, e.1))
    }
}

/// Whether the first `i` characters of `a` and `b` agree and `a` precedes
/// `b` from there on.
proof fn lemma_lex_skip(a: Seq<char>, b: Seq<char>, i: int)
    requires
        0 <= i <= a.len(),
        i <= b.len(),
        forall|j: int| 0 <= j < i ==> a[j] == b[j],
    ensures
        lex_lt(a, b) == lex_lt(a.skip(i), b.skip(i)),
    decreases i,
{
    if i > 0 {
        assert(a[0] == b[0]);
        assert forall|j: int| 0 <= j < i - 1 implies a.drop_first()[j] == b.drop_first()[j] by {
            assert(a.drop_first()[j] == a[j + 1] && b.drop_first()[j] == b[j + 1]);
        }
        lemma_lex_skip(a.drop_first(), b.drop_first(), i - 1);
        assert(a.drop_first().skip(i - 1) =~= a.skip(i));
        assert(b.drop_first().skip(i - 1) =~= b.skip(i));
    } else {
        assert(a.skip(0) =~= a);
        assert(b.skip(0) =~= b);
    }
}

/// Whether the name `a` strictly precedes the name `b`.
#[verifier::loop_isolation(false)]
pub fn name_lt(a: &str, b: &str) -> (r: bool)
    ensures
        r == lex_lt(a@, b@),
{
    let an = a.unicode_len();
    let bn = b.unicode_len();
    let mut i: usize = 0;
    while i < an && i < bn && a.get_char(i) == b.get_char(i)
        invariant
            i <= an,
            i <= bn,
            forall|j: int| 0 <= j < i ==> a@[j] == b@[j],
        decreases an - i,
    {
        i = i + 1;
    }
    proof {
        if i <= bn {
            lemma_lex_skip(a@, b@, i as int);
        } else {
            lemma_lex_skip(b@, a@, bn as int);
            assert(b@.skip(bn as int).len() == 0);
            assert(a@.skip(bn as int).len() > 0);
            lemma_lex_irreflexive(b@);
        }
    }
    if i < an && i < bn {
        proof {
            assert(a@.skip(i as int)[0] == a@[i as int]);
            assert(b@.skip(i as int)[0] == b@[i as int]);
        }
        a.get_char(i) < b.get_char(i)
    } else if i == an {
        proof {
            assert(a@.skip(i as int).len() == 0);
        }
        i < bn
    } else {
        proof {
            assert(b@.skip(i as int).len() == 0);
            assert(a@.skip(i as int).len() > 0);
        }
        false
    }
}

impl<T: Copy> AssocList<T> {
    pub fn new() -> (r: AssocList<T>)
        ensures
            r@ == Seq::<(Seq<char>, T)>::empty(),
            assoc_sorted(r@),
    {
        let r = AssocList { entries: Vec::new() };
        proof {
            assert(r@ =~= Seq::<(Seq<char>, T)>::empty());
        }
        r
    }

    pub fn len(&self) -> (r: usize)
        ensures
            r == self@.len(),
    {
        self.entries.len()
    }

    /// The name at listing position `i` — name order, since the list is
    /// sorted.
    pub fn name_at(&self, i: usize) -> (r: String)
        requires
            i < self@.len(),
        ensures
            r@ == self@[i as int].0,
    {
        self.entries[i].0.clone()
    }

    /// The value at listing position `i`.
    pub fn value_at(&self, i: usize) -> (r: T)
        requires
            i < self@.len(),
        ensures
            r == self@[i as int].1,
    {
        self.entries[i].1
    }

    /// The value stored under `name`.
    #[verifier::loop_isolation(false)]
    pub fn get(&self, name: &str) -> (r: Option<T>)
        requires
            assoc_sorted(self@),
        ensures
            r == assoc_lookup(self@, name@),
    {
        let mut i: usize = 0;
        while i < self.entries.len()
            invariant
                i <= self@.len(),
                forall|j: int| 0 <= j < i ==> (#[trigger] self@[j]).0 != name@,
            decreases self@.len() - i,
        {
            proof {
                assert(self@[i as int] == (self.entries@[i as int].0@, self.entries@[i as int].1));
            }
            if crate::text::str_eq(&self.entries[i].0, name) {
                proof {
                    lemma_assoc_lookup_at(self@, i as int);
                }
                return Some(self.entries[i].1);
            }
            i = i + 1;
        }
        proof {
            lemma_assoc_lookup_none(self@, name@);
        }
        None
    }

    /// Stores `name -> val`, replacing the value if the name is present and
    /// inserting at its name-ordered position otherwise.
    #[verifier::loop_isolation(false)]
    pub fn upsert(&mut self, name: &str, val: T)
        requires
            assoc_sorted(old(self)@),
        ensures
            final(self)@ == assoc_upsert(old(self)@, name@, val),
            assoc_sorted(final(self)@),
            assoc_lookup(final(self)@, name@) == Some(val),
            forall|other: Seq<char>|
                other != name@ ==> #[trigger] assoc_lookup(final(self)@, other) == assoc_lookup(
                    old(self)@,
                    other,
                ),
    {
        let ghost v = self@;
        let mut i: usize = 0;
        while i < self.entries.len() && name_lt(self.entries[i].0.as_str(), name)
            invariant
                i <= v.len(),
                self@ == v,
                forall|j: int| 0 <= j < i ==> lex_lt((#[trigger] v[j]).0, name@),
            decreases v.len() - i,
        {
            proof {
                assert(self@[i as int] == (self.entries@[i as int].0@, self.entries@[i as int].1));
            }
            i = i + 1;
        }
        proof {
            assert forall|j: int| 0 <= j < i implies (#[trigger] v[j]).0 != name@ by {
                lemma_lex_irreflexive(name@);
            }
        }
        if i < self.entries.len() && crate::text::str_eq(&self.entries[i].0, name) {
            proof {
                assert(self@[i as int] == (self.entries@[i as int].0@, self.entries@[i as int].1));
            }
            self.entries[i].1 = val;
            proof {
                assert(self@ =~= v.update(i as int, (v[i as int].0, val)));
                lemma_assoc_upsert_at(v, name@, val, i as int);
                assert(v.update(i as int, (v[i as int].0, val)) =~= v.update(
                    i as int,
                    (name@, val),
                ));
                assert forall|other: Seq<char>|
                    true implies #[trigger] assoc_lookup(self@, other) == (if other == v[
                i as int].0 {
                    Some(val)
                } else {
                    assoc_lookup(v, other)
                }) by {
                    lemma_assoc_lookup_update(v, i as int, val, other);
                }
                assert forall|i2: int, j2: int|
                    0 <= i2 < j2 < self@.len() implies lex_lt(
                    (#[trigger] self@[i2]).0,
                    (#[trigger] self@[j2]).0,
                ) by {
                    assert(self@[i2].0 == v[i2].0 && self@[j2].0 == v[j2].0);
                }
            }
        } else {
            proof {
                if i < v.len() {
                    assert(self@[i as int] == (
                        self.entries@[i as int].0@,
                        self.entries@[i as int].1,
                    ));
                    lemma_lex_total(v[i as int].0, name@);
                    assert(lex_lt(name@, v[i as int].0));
                }
                assert forall|j: int| 0 <= j < v.len() implies (#[trigger] v[j]).0 != name@ by {
                    lemma_lex_irreflexive(name@);
                    if j >= i {
                        if j > i {
                            lemma_lex_transitive(name@, v[i as int].0, v[j].0);
                        }
                    }
                }
            }
            let owned = String::from_str(name);
            self.entries.insert(i, (owned, val));
            proof {
                assert(self@ =~= v.insert(i as int, (name@, val)));
                lemma_assoc_upsert_at(v, name@, val, i as int);
                assert forall|other: Seq<char>|
                    true implies #[trigger] assoc_lookup(self@, other) == (if other == name@ {
                    Some(val)
                } else {
                    assoc_lookup(v, other)
                }) by {
                    lemma_assoc_lookup_insert(v, i as int, (name@, val), other);
                }
                assert forall|i2: int, j2: int|
                    0 <= i2 < j2 < self@.len() implies lex_lt(
                    (#[trigger] self@[i2]).0,
                    (#[trigger] self@[j2]).0,
                ) by {
                    let a = if i2 < i as int {
                        i2
                    } else {
                        i2 - 1
                    };
                    let b = if j2 < i as int {
                        j2
                    } else {
                        j2 - 1
                    };
                    if i2 == i as int {
                        assert(self@[i2].0 == name@);
                        assert(self@[j2] == v[b]);
                        if b > i as int - 1 + 1 {
                        }
                        if b == i as int {
                            assert(lex_lt(name@, v[i as int].0));
                        } else {
                            assert(lex_lt(name@, v[i as int].0));
                            assert(lex_lt(v[i as int].0, v[b].0));
                            lemma_lex_transitive(name@, v[i as int].0, v[b].0);
                        }
                    } else if j2 == i as int {
                        assert(self@[i2] == v[a]);
                        assert(lex_lt(v[a].0, name@));
                    } else {
                        assert(self@[i2] == v[a] && self@[j2] == v[b]);
                        if a < i as int && b >= i as int + 1 {
                            if a < i as int - 1 + 1 && b - 1 >= i as int {
                                if a == b - 1 {
                                    assert(lex_lt(v[a].0, name@));
                                    assert(lex_lt(name@, v[b - 1].0)) by {
                                        if b - 1 > i as int {
                                            lemma_lex_transitive(
                                                name@,
                                                v[i as int].0,
                                                v[b - 1].0,
                                            );
                                        }
                                    }
                                    lemma_lex_transitive(v[a].0, name@, v[b - 1].0);
                                }
                            }
                        }
                    }
                }
            }
        }
    }

    /// Removes whatever `name` is stored under; absent names are left be.
    #[verifier::loop_isolation(false)]
    pub fn remove(&mut self, name: &str)
        requires
            assoc_sorted(old(self)@),
        ensures
            final(self)@ == assoc_remove(old(self)@, name@),
            assoc_sorted(final(self)@),
            assoc_lookup(final(self)@, name@) is None,
            forall|other: Seq<char>|
                other != name@ ==> #[trigger] assoc_lookup(final(self)@, other) == assoc_lookup(
                    old(self)@,
                    other,
                ),
    {
        let ghost v = self@;
        let mut i: usize = 0;
        while i < self.entries.len()
            invariant
                i <= v.len(),
                self@ == v,
                forall|j: int| 0 <= j < i ==> (#[trigger] v[j]).0 != name@,
            decreases v.len() - i,
        {
            proof {
                assert(self@[i as int] == (self.entries@[i as int].0@, self.entries@[i as int].1));
            }
            if crate::text::str_eq(&self.entries[i].0, name) {
                self.entries.remove(i);
                proof {
                    assert(self@ =~= v.remove(i as int));
                    lemma_assoc_remove_at(v, name@, i as int);
                    assert forall|other: Seq<char>|
                        true implies #[trigger] assoc_lookup(self@, other) == (if other == v[
                    i as int].0 {
                        None
                    } else {
                        assoc_lookup(v, other)
                    }) by {
                        lemma_assoc_lookup_remove(v, i as int, other);
                    }
                    assert forall|i2: int, j2: int|
                        0 <= i2 < j2 < self@.len() implies lex_lt(
                        (#[trigger] self@[i2]).0,
                        (#[trigger] self@[j2]).0,
                    ) by {
                        let a = if i2 < i as int {
                            i2
                        } else {
                            i2 + 1
                        };
                        let b = if j2 < i as int {
                            j2
                        } else {
                            j2 + 1
                        };
                        assert(self@[i2] == v[a] && self@[j2] == v[b]);
                    }
                }
                return ;
            }
            i = i + 1;
        }
        proof {
            lemma_assoc_lookup_none(v, name@);
            lemma_assoc_remove_absent(v, name@);
        }
    }
}

} // verus!
