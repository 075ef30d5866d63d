//! The server-side connection registry and relay decisions: which name a
//! connection registers under, how an inbound client line is forwarded to
//! the logic process, and which registered clients an outbound logic line
//! fans out to. The surrounding application owns the sockets and the
//! subprocess; this module owns every decision about them, as pure
//! verified functions over plain values, with transport handles stood for
//! by numeric identifiers.

use vstd::prelude::*;
use vstd::string::*;
use crate::text::{first_at, lemma_first_at_is, push_char, split_char, split_on, str_eq};

verus! {

/// The one piece of state shared by all connection handlers: the live map
/// from self-declared client name to transport handle. A name maps to at
/// most one live handle; registering a name again replaces its handle.
pub struct Registry {
    entries: Vec<(String, u64)>,
}

impl View for Registry {
    type V = Seq<(Seq<char>, u64)>;

    closed spec fn view(&self) -> Seq<(Seq<char>, u64)> {
        self.entries.deep_view()
    }
}

/// No name occurs twice.
pub open spec fn reg_wf(v: Seq<(Seq<char>, u64)>) -> bool {
    forall|i: int, j: int| 0 <= i < j < v.len() ==> (#[trigger] v[i]).0 != (#[trigger] v[j]).0
}

/// The handle registered under `name`: the first entry that carries it.
pub open spec fn reg_lookup(v: Seq<(Seq<char>, u64)>, name: Seq<char>) -> Option<u64>
    decreases v.len(),
{
    if v.len() == 0 {
        None
    } else if v[0].0 == name {
        Some(v[0].1)
    } else {
        reg_lookup(v.drop_first(), name)
    }
}

/// `reg_lookup` misses exactly the names no entry carries.
pub proof fn lemma_reg_lookup_none(v: Seq<(Seq<char>, u64)>, name: Seq<char>)
    ensures
        (reg_lookup(v, name) is None) <==> (forall|i: int|
            0 <= i < v.len() ==> (#[trigger] v[i]).0 != name),
    decreases v.len(),
{
    if v.len() > 0 {
        lemma_reg_lookup_none(v.drop_first(), name);
        let d = v.drop_first();
        if v[0].0 == name {
            assert(reg_lookup(v, name) is Some);
            assert((v[0]).0 == name);
        } else {
            assert(reg_lookup(v, name) == reg_lookup(d, name));
            if reg_lookup(v, name) is None {
                assert forall|i: int| 0 <= i < v.len() implies (#[trigger] v[i]).0 != name by {
                    if i > 0 {
                        assert(d[i - 1] == v[i]);
                        assert((d[i - 1]).0 != name);
                    }
                }
            } else {
                assert(!(forall|i: int| 0 <= i < d.len() ==> (#[trigger] d[i]).0 != name));
                let i = choose|i: int| 0 <= i < d.len() && (#[trigger] d[i]).0 == name;
                assert(d[i] == v[i + 1]);
                assert((v[i + 1]).0 == name);
            }
        }
    }
}

/// Looking up after a cut at index `i` agrees with the whole when the cut
/// part misses the name.
proof fn lemma_reg_lookup_skip(v: Seq<(Seq<char>, u64)>, name: Seq<char>, i: int)
    requires
        0 <= i <= v.len(),
        forall|j: int| 0 <= j < i ==> (#[trigger] v[j]).0 != name,
    ensures
        reg_lookup(v, name) == reg_lookup(v.skip(i), name),
    decreases i,
{
    if i <= 0 {
        assert(v.skip(0) =~= v);
    } else {
        assert((v[0]).0 != name);
        let d = v.drop_first();
        assert forall|j: int| 0 <= j < i - 1 implies (#[trigger] d[j]).0 != name by {
            assert(d[j] == v[j + 1]);
        }
        lemma_reg_lookup_skip(d, name, i - 1);
        assert(d.skip(i - 1) =~= v.skip(i));
        assert(reg_lookup(v, name) == reg_lookup(d, name));
    }
}

/// Replacing the handle at entry `k` changes exactly that entry's name's
/// lookup.
proof fn lemma_reg_lookup_update(v: Seq<(Seq<char>, u64)>, k: int, handle: u64, name: Seq<char>)
    requires
        reg_wf(v),
        0 <= k < v.len(),
    ensures
        reg_lookup(v.update(k, (v[k].0, handle)), name) == if name == v[k].0 {
            Some(handle)
        } else {
            reg_lookup(v, name)
        },
    decreases v.len(),
{
    let w = v.update(k, (v[k].0, handle));
    if k == 0 {
        if name != v[0].0 {
            assert(w.drop_first() =~= v.drop_first());
        }
    } else {
        lemma_reg_lookup_update(v.drop_first(), k - 1, handle, name);
        assert(w.drop_first() =~= v.drop_first().update(k - 1, (v[k].0, handle)));
        assert(v.drop_first()[k - 1] == v[k]);
        if name == v[k].0 {
            assert(v[0].0 != v[k].0);
        }
    }
}

/// Appending a fresh name serves that name and leaves every other lookup
/// as it was.
proof fn lemma_reg_lookup_push(v: Seq<(Seq<char>, u64)>, entry: (Seq<char>, u64), name: Seq<char>)
    ensures
        reg_lookup(v.push(entry), name) == if reg_lookup(v, name) is Some {
            reg_lookup(v, name)
        } else if name == entry.0 {
            Some(entry.1)
        } else {
            None
        },
    decreases v.len(),
{
    reveal_with_fuel(reg_lookup, 3);
    if v.len() == 0 {
        assert(v.push(entry)[0] == entry);
        assert(v.push(entry).drop_first() =~= Seq::<(Seq<char>, u64)>::empty());
        assert(reg_lookup(v.push(entry), name) == if name == entry.0 {
            Some(entry.1)
        } else {
            None
        });
    } else {
        lemma_reg_lookup_push(v.drop_first(), entry, name);
        assert(v.push(entry).drop_first() =~= v.drop_first().push(entry));
        assert(v.push(entry)[0] == v[0]);
        assert(reg_lookup(v.push(entry), name) == if (v[0]).0 == name {
            Some(v[0].1)
        } else {
            reg_lookup(v.drop_first().push(entry), name)
        });
    }
}

/// Deleting entry `k` ends that name's registration and leaves every other
/// lookup as it was.
proof fn lemma_reg_lookup_remove(v: Seq<(Seq<char>, u64)>, k: int, name: Seq<char>)
    requires
        reg_wf(v),
        0 <= k < v.len(),
    ensures
        reg_lookup(v.remove(k), name) == if name == v[k].0 {
            None
        } else {
            reg_lookup(v, name)
        },
    decreases v.len(),
{
    let w = v.remove(k);
    if k == 0 {
        assert(w =~= v.drop_first());
        if name == v[0].0 {
            lemma_reg_lookup_none(v.drop_first(), name);
            assert forall|i: int|
                0 <= i < v.drop_first().len() implies (#[trigger] v.drop_first()[i]).0 != name by {
                assert(v.drop_first()[i] == v[i + 1]);
            }
        }
    } else {
        lemma_reg_lookup_remove(v.drop_first(), k - 1, name);
        assert(w.drop_first() =~= v.drop_first().remove(k - 1));
        assert(w[0] == v[0]);
        assert(v.drop_first()[k - 1] == v[k]);
        if name == v[k].0 {
            assert(v[0].0 != v[k].0);
        }
    }
}

impl Registry {
    pub fn new() -> (r: Registry)
        ensures
            r@ == Seq::<(Seq<char>, u64)>::empty(),
            reg_wf(r@),
    {
        let r = Registry { entries: Vec::new() };
        proof {
            assert(r@ =~= Seq::<(Seq<char>, u64)>::empty());
        }
        r
    }

    /// The handle currently registered under `name`.
    #[verifier::loop_isolation(false)]
    pub fn lookup(&self, name: &str) -> (r: Option<u64>)
        ensures
            r == reg_lookup(self@, name@),
    {
        let mut i: usize = 0;
        while i < self.entries.len()
            invariant
                i <= self@.len(),
                forall|j: int| 0 <= j < i ==> (#[trigger] self@[j]).0 != name@,
            decreases self@.len() - i,
        {
            proof {
                assert(self@[i as int] == (self.entries@[i as int].0@, self.entries@[i as int].1));
            }
            if str_eq(&self.entries[i].0, name) {
                proof {
                    lemma_reg_lookup_skip(self@, name@, i as int);
                    assert(self@.skip(i as int)[0] == self@[i as int]);
                }
                return Some(self.entries[i].1);
            }
            i = i + 1;
        }
        proof {
            lemma_reg_lookup_skip(self@, name@, self@.len() as int);
            assert(self@.skip(self@.len() as int) =~= Seq::<(Seq<char>, u64)>::empty());
        }
        None
    }

    /// Records `name -> handle`, replacing any handle the name already had:
    /// a name maps to at most one live handle at a time.
    #[verifier::loop_isolation(false)]
    pub fn register(&mut self, name: &str, handle: u64)
        requires
            reg_wf(old(self)@),
        ensures
            reg_wf(final(self)@),
            reg_lookup(final(self)@, name@) == Some(handle),
            forall|other: Seq<char>|
                other != name@ ==> #[trigger] reg_lookup(final(self)@, other) == reg_lookup(
                    old(self)@,
                    other,
                ),
    {
        let ghost v = self@;
        let mut i: usize = 0;
        while i < self.entries.len()
            invariant
                i <= v.len(),
                self@ == v,
                forall|j: int| 0 <= j < i ==> (#[trigger] v[j]).0 != name@,
            decreases v.len() - i,
        {
            proof {
                assert(self@[i as int] == (self.entries@[i as int].0@, self.entries@[i as int].1));
            }
            if str_eq(&self.entries[i].0, name) {
                self.entries[i].1 = handle;
                proof {
                    assert(self@ =~= v.update(i as int, (v[i as int].0, handle)));
                    assert forall|other: Seq<char>|
                        true implies #[trigger] reg_lookup(self@, other) == (if other == v[
                        i as int].0 {
                        Some(handle)
                    } else {
                        reg_lookup(v, other)
                    }) by {
                        lemma_reg_lookup_update(v, i as int, handle, other);
                    }
                    lemma_reg_lookup_skip(v, name@, i as int);
                    assert(v.skip(i as int)[0] == v[i as int]);
                    assert(reg_lookup(v, name@) == Some(v[i as int].1));
                }
                return ;
            }
            i = i + 1;
        }
        let owned = String::from_str(name);
        self.entries.push((owned, handle));
        proof {
            assert(self@ =~= v.push((name@, handle)));
            lemma_reg_lookup_skip(v, name@, v.len() as int);
            assert(v.skip(v.len() as int) =~= Seq::<(Seq<char>, u64)>::empty());
            assert(reg_lookup(v, name@) is None);
            assert forall|other: Seq<char>|
                true implies #[trigger] reg_lookup(self@, other) == (if other == name@ {
                Some(handle)
            } else {
                reg_lookup(v, other)
            }) by {
                lemma_reg_lookup_push(v, (name@, handle), other);
            }
            lemma_reg_lookup_none(v, name@);
            assert forall|i2: int, j2: int|
                0 <= i2 < j2 < self@.len() implies (#[trigger] self@[i2]).0 != (
            #[trigger] self@[j2]).0 by {
                if j2 == self@.len() - 1 {
                    assert(self@[i2] == v[i2]);
                }
            }
        }
    }

    /// Removes whatever registration `name` holds, when its transport
    /// closes.
    #[verifier::loop_isolation(false)]
    pub fn unregister(&mut self, name: &str)
        requires
            reg_wf(old(self)@),
        ensures
            reg_wf(final(self)@),
            reg_lookup(final(self)@, name@) is None,
            forall|other: Seq<char>|
                other != name@ ==> #[trigger] reg_lookup(final(self)@, other) == reg_lookup(
                    old(self)@,
                    other,
                ),
    {
        let ghost v = self@;
        let mut i: usize = 0;
        while i < self.entries.len()
            invariant
                i <= v.len(),
                self@ == v,
                forall|j: int| 0 <= j < i ==> (#[trigger] v[j]).0 != name@,
            decreases v.len() - i,
        {
            proof {
                assert(self@[i as int] == (self.entries@[i as int].0@, self.entries@[i as int].1));
            }
            if str_eq(&self.entries[i].0, name) {
                self.entries.remove(i);
                proof {
                    assert(self@ =~= v.remove(i as int));
                    assert forall|other: Seq<char>|
                        true implies #[trigger] reg_lookup(self@, other) == (if other == v[
                        i as int].0 {
                        None
                    } else {
                        reg_lookup(v, other)
                    }) by {
                        lemma_reg_lookup_remove(v, i as int, other);
                    }
                    assert forall|i2: int, j2: int|
                        0 <= i2 < j2 < self@.len() implies (#[trigger] self@[i2]).0 != (
                    #[trigger] self@[j2]).0 by {
                        let a = if i2 < i as int {
                            i2
                        } else {
                            i2 + 1
                        };
                        let b = if j2 < i as int {
                            j2
                        } else {
                            j2 + 1
                        };
                        assert(self@[i2] == v[a] && self@[j2] == v[b]);
                    }
                }
                return ;
            }
            i = i + 1;
        }
        proof {
            lemma_reg_lookup_skip(v, name@, v.len() as int);
            assert(v.skip(v.len() as int) =~= Seq::<(Seq<char>, u64)>::empty());
        }
    }
}

/// The deliveries an addressed line causes: one per listed recipient that
/// is currently registered, in list order, each carrying the payload to
/// that recipient's handle; unregistered recipients are silently skipped,
/// never queued.
pub open spec fn spec_deliveries(
    names: Seq<Seq<char>>,
    reg: Seq<(Seq<char>, u64)>,
    payload: Seq<char>,
) -> Seq<(u64, Seq<char>)>
    decreases names.len(),
{
    if names.len() == 0 {
        seq![]
    } else {
        let rest = spec_deliveries(names.drop_first(), reg, payload);
        match reg_lookup(reg, names[0]) {
            Some(h) => seq![(h, payload)] + rest,
            None => rest,
        }
    }
}

/// What an outbound logic line means: the text before the first colon is a
/// comma-separated recipient list, the rest is the payload; a line without
/// a colon means nothing.
pub open spec fn spec_fan_out(line: Seq<char>, reg: Seq<(Seq<char>, u64)>) -> Option<
    Seq<(u64, Seq<char>)>,
> {
    let k = first_at(line, ':');
    if k == line.len() {
        None
    } else {
        Some(spec_deliveries(split_on(line.take(k as int), ','), reg, line.skip(k as int + 1)))
    }
}

/// Appending a recipient appends its delivery, when it is registered, and
/// nothing otherwise.
proof fn lemma_deliveries_snoc(
    names: Seq<Seq<char>>,
    nm: Seq<char>,
    reg: Seq<(Seq<char>, u64)>,
    payload: Seq<char>,
)
    ensures
        spec_deliveries(names.push(nm), reg, payload) == spec_deliveries(names, reg, payload)
            + (match reg_lookup(reg, nm) {
            Some(h) => seq![(h, payload)],
            None => seq![],
        }),
    decreases names.len(),
{
    reveal_with_fuel(spec_deliveries, 3);
    if names.len() == 0 {
        assert(names.push(nm)[0] == nm);
        assert(names.push(nm).drop_first() =~= Seq::<Seq<char>>::empty());
        assert(spec_deliveries(names.push(nm), reg, payload) =~= spec_deliveries(
            names,
            reg,
            payload,
        ) + (match reg_lookup(reg, nm) {
            Some(h) => seq![(h, payload)],
            None => seq![],
        }));
    } else {
        lemma_deliveries_snoc(names.drop_first(), nm, reg, payload);
        assert(names.push(nm).drop_first() =~= names.drop_first().push(nm));
        assert(names.push(nm)[0] == names[0]);
        assert(spec_deliveries(names.push(nm), reg, payload) =~= spec_deliveries(
            names,
            reg,
            payload,
        ) + (match reg_lookup(reg, nm) {
            Some(h) => seq![(h, payload)],
            None => seq![],
        }));
    }
}

/// Fan-out is exact: every delivery carries the payload to the handle of a
/// listed, registered recipient, and every listed recipient that is
/// registered receives exactly the payload; nothing is ever attempted for
/// an unregistered recipient.
pub proof fn lemma_fan_out_exact(
    names: Seq<Seq<char>>,
    reg: Seq<(Seq<char>, u64)>,
    payload: Seq<char>,
)
    ensures
        forall|d: (u64, Seq<char>)|
            #[trigger] spec_deliveries(names, reg, payload).contains(d) ==> d.1 == payload
                && exists|i: int|
                0 <= i < names.len() && reg_lookup(reg, #[trigger] names[i]) == Some(d.0),
        forall|i: int|
            0 <= i < names.len() && reg_lookup(reg, #[trigger] names[i]) is Some
                ==> spec_deliveries(names, reg, payload).contains(
                (reg_lookup(reg, names[i]).unwrap(), payload),
            ),
    decreases names.len(),
{
    if names.len() > 0 {
        lemma_fan_out_exact(names.drop_first(), reg, payload);
        let rest = spec_deliveries(names.drop_first(), reg, payload);
        let whole = spec_deliveries(names, reg, payload);
        assert forall|d: (u64, Seq<char>)| #[trigger] whole.contains(d) implies d.1 == payload
            && exists|i: int|
            0 <= i < names.len() && reg_lookup(reg, #[trigger] names[i]) == Some(d.0) by {
            match reg_lookup(reg, names[0]) {
                Some(h) => {
                    if d == ((h, payload)) {
                        assert(reg_lookup(reg, names[0]) == Some(d.0));
                    } else {
                        assert(rest.contains(d));
                        let i = choose|i: int|
                            0 <= i < names.drop_first().len() && reg_lookup(
                                reg,
                                #[trigger] names.drop_first()[i],
                            ) == Some(d.0);
                        assert(names[i + 1] == names.drop_first()[i]);
                    }
                },
                None => {
                    assert(rest.contains(d));
                    let i = choose|i: int|
                        0 <= i < names.drop_first().len() && reg_lookup(
                            reg,
                            #[trigger] names.drop_first()[i],
                        ) == Some(d.0);
                    assert(names[i + 1] == names.drop_first()[i]);
                },
            }
        }
        assert forall|i: int|
            0 <= i < names.len() && reg_lookup(reg, #[trigger] names[i]) is Some implies whole
            .contains((reg_lookup(reg, names[i]).unwrap(), payload)) by {
            if i == 0 {
                match reg_lookup(reg, names[0]) {
                    Some(h) => {
                        assert(whole[0] == ((h, payload)));
                    },
                    None => {},
                }
            } else {
                assert(names.drop_first()[i - 1] == names[i]);
                assert(rest.contains((reg_lookup(reg, names[i]).unwrap(), payload)));
                let j = choose|j: int|
                    0 <= j < rest.len() && rest[j] == ((reg_lookup(reg, names[i]).unwrap(),
                    payload));
                match reg_lookup(reg, names[0]) {
                    Some(h) => {
                        assert(whole[j + 1] == rest[j]);
                    },
                    None => {
                        assert(whole == rest);
                    },
                }
            }
        }
    }
}

impl Registry {
    /// Fans an outbound logic line out: splits it on its first colon,
    /// splits the recipient list on commas, and hands the payload verbatim
    /// to each currently registered recipient's handle, in list order;
    /// unregistered recipients are skipped. A line without a colon is
    /// ill-formed and causes no delivery.
    #[verifier::loop_isolation(false)]
    pub fn fan_out(&self, line: &str) -> (r: Option<Vec<(u64, String)>>)
        ensures
            match r {
                Some(v) => spec_fan_out(line@, self@) == Some(v.deep_view()),
                None => spec_fan_out(line@, self@) is None,
            },
    {
        let n = line.unicode_len();
        let mut k: usize = 0;
        while k < n && line.get_char(k) != ':'
            invariant
                k <= n,
                forall|j: int| 0 <= j < k ==> #[trigger] line@[j] != ':',
            decreases n - k,
        {
            k = k + 1;
        }
        proof {
            lemma_first_at_is(line@, ':', k as int);
        }
        if k == n {
            return None;
        }
        let heads = line.substring_char(0, k);
        let payload = line.substring_char(k + 1, n).to_owned();
        proof {
            assert(heads@ =~= line@.take(k as int));
            assert(payload@ =~= line@.skip(k as int + 1));
        }
        let ghost ns = split_on(line@.take(k as int), ',');
        let names = split_char(heads, ',');
        let mut out: Vec<(u64, String)> = Vec::new();
        proof {
            assert(out.deep_view() =~= spec_deliveries(ns.take(0), self@, payload@));
        }
        let mut i: usize = 0;
        while i < names.len()
            invariant
                i <= ns.len(),
                names.deep_view() == ns,
                out.deep_view() == spec_deliveries(ns.take(i as int), self@, payload@),
            decreases ns.len() - i,
        {
            proof {
                assert(names.deep_view()[i as int] == names@[i as int]@);
                lemma_deliveries_snoc(ns.take(i as int), ns[i as int], self@, payload@);
                assert(ns.take(i as int + 1) =~= ns.take(i as int).push(ns[i as int]));
            }
            let ghost dv = out.deep_view();
            match self.lookup(names[i].as_str()) {
                Some(h) => {
                    out.push((h, payload.clone()));
                    proof {
                        assert(out.deep_view() =~~= dv.push((h, payload@)));
                        assert(out.deep_view() =~= spec_deliveries(
                            ns.take(i as int + 1),
                            self@,
                            payload@,
                        ));
                    }
                },
                None => {
                    proof {
                        assert(out.deep_view() =~= spec_deliveries(
                            ns.take(i as int + 1),
                            self@,
                            payload@,
                        ));
                    }
                },
            }
            i = i + 1;
        }
        proof {
            assert(ns.take(ns.len() as int) =~= ns);
        }
        Some(out)
    }
}

/// One connection's registration state: the name it registered under, or
/// nothing until its first `+name` line.
pub struct ConnState {
    pub nick: Option<String>,
}

/// What the relay does with one inbound client line.
#[derive(Debug, Clone, PartialEq)]
pub enum InboundAction {
    /// Record the name and pass the registration line through to the logic
    /// process as it came.
    Register(String),
    /// Write this already-prefixed line to the logic process.
    Forward(String),
    /// A protocol violation: traffic before registration, a second
    /// registration, or an empty registered name. The line is dropped; the
    /// connection and the relay live on.
    Ignored,
}

/// The mathematical value of an `InboundAction`.
pub enum ActionV {
    Register(Seq<char>),
    Forward(Seq<char>),
    Ignored,
}

impl View for InboundAction {
    type V = ActionV;

    open spec fn view(&self) -> ActionV {
        match self {
            InboundAction::Register(name) => ActionV::Register(name@),
            InboundAction::Forward(text) => ActionV::Forward(text@),
            InboundAction::Ignored => ActionV::Ignored,
        }
    }
}

/// The relay's decision for one inbound line: a first `+name` line with a
/// non-empty name registers it; any later line from a registered
/// connection is forwarded as `name:line`, uninterpreted; everything else
/// is a violation and is ignored, never forwarded unprefixed.
pub open spec fn spec_on_client_line(nick: Option<Seq<char>>, line: Seq<char>) -> (
    Option<Seq<char>>,
    ActionV,
) {
    if line.len() >= 1 && line[0] == '+' {
        let name = line.skip(1);
        if nick is None && name.len() >= 1 {
            (Some(name), ActionV::Register(name))
        } else {
            (nick, ActionV::Ignored)
        }
    } else {
        match nick {
            Some(n) => (nick, ActionV::Forward(n + seq![':'] + line)),
            None => (nick, ActionV::Ignored),
        }
    }
}

impl ConnState {
    pub fn new() -> (r: ConnState)
        ensures
            r.nick.deep_view() is None,
    {
        ConnState { nick: None }
    }

    /// Decides what one inbound line from this connection causes, and
    /// advances the registration state.
    pub fn on_client_line(&mut self, line: &str) -> (r: InboundAction)
        ensures
            (final(self).nick.deep_view(), r@) == spec_on_client_line(
                old(self).nick.deep_view(),
                line@,
            ),
    {
        let n = line.unicode_len();
        if n >= 1 && line.get_char(0) == '+' {
            let name = line.substring_char(1, n).to_owned();
            proof {
                assert(name@ =~= line@.skip(1));
            }
            if self.nick.is_none() && name.unicode_len() >= 1 {
                self.nick = Some(name.clone());
                InboundAction::Register(name)
            } else {
                InboundAction::Ignored
            }
        } else {
            match &self.nick {
                Some(nick) => {
                    let mut text = nick.clone();
                    push_char(&mut text, ':');
                    text.append(line);
                    proof {
                        assert(text@ =~= nick@ + seq![':'] + line@);
                    }
                    InboundAction::Forward(text)
                },
                None => InboundAction::Ignored,
            }
        }
    }
}

/// Ordinary traffic from a connection that has not registered is never
/// forwarded to the logic process, prefixed or otherwise: it is ignored.
pub proof fn lemma_no_forward_before_registration(line: Seq<char>)
    ensures
        !(spec_on_client_line(None, line).1 is Forward),
{
}

/// Whatever the relay does forward for a registered connection carries the
/// sender's name as a `name:` prefix, with the line itself untouched.
pub proof fn lemma_forward_always_prefixed(nick: Seq<char>, line: Seq<char>)
    ensures
        spec_on_client_line(Some(nick), line).1 matches ActionV::Forward(text) ==> text == nick
            + seq![':'] + line,
{
}

} // verus!
