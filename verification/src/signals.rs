//! The signal registry: named events with ordered subscriber lists.
//!
//! A signal holds the tokens of its subscribers in insertion order.
//! Connecting appends; disconnecting removes every subscriber equal to the
//! given token and keeps the order of the rest; emitting hands back the
//! current subscribers in insertion order, for the caller to invoke one by
//! one. Duplicate subscriptions are permitted and not collapsed.
//!
//! Four session-level signals are built in; the registry dispatches an
//! incoming event envelope to the signal of that name.

use vstd::prelude::*;
use crate::text::{text, text_eq};

verus! {

/// The subscriber list with every occurrence of `t` removed, order kept.
pub open spec fn without(cbs: Seq<u64>, t: u64) -> Seq<u64>
    decreases cbs.len(),
{
    if cbs.len() == 0 {
        Seq::empty()
    } else if cbs[0] == t {
        without(cbs.skip(1), t)
    } else {
        seq![cbs[0]] + without(cbs.skip(1), t)
    }
}

/// Removal distributes over appending one subscriber.
pub proof fn lemma_without_push(cbs: Seq<u64>, x: u64, t: u64)
    ensures
        without(cbs.push(x), t) == if x == t {
            without(cbs, t)
        } else {
            without(cbs, t).push(x)
        },
    decreases cbs.len(),
{
    if cbs.len() == 0 {
        assert(cbs.push(x)[0] == x);
        assert(cbs.push(x).skip(1) =~= Seq::<u64>::empty());
        if x != t {
            assert(seq![x] + without(Seq::<u64>::empty(), t) =~= without(cbs, t).push(x));
        }
    } else {
        assert(cbs.push(x)[0] == cbs[0]);
        assert(cbs.push(x).skip(1) =~= cbs.skip(1).push(x));
        lemma_without_push(cbs.skip(1), x, t);
        if cbs[0] != t && x != t {
            assert(seq![cbs[0]] + without(cbs.skip(1), t).push(x) =~= (seq![cbs[0]] + without(
                cbs.skip(1),
                t,
            )).push(x));
        }
    }
}

/// A named signal with its ordered subscriber list.
pub struct Signal {
    pub name: Vec<char>,
    pub callbacks: Vec<u64>,
}

impl Signal {
    /// A signal with no subscribers yet.
    pub fn new(name: Vec<char>) -> (r: Signal)
        ensures
            r.name@ == name@,
            r.callbacks@ == Seq::<u64>::empty(),
    {
        Signal { name, callbacks: Vec::new() }
    }

    /// Appends a subscriber. Duplicates are kept.
    pub fn connect(&mut self, token: u64)
        ensures
            final(self).name@ == old(self).name@,
            final(self).callbacks@ == old(self).callbacks@.push(token),
    {
        self.callbacks.push(token);
    }

    /// Removes every subscriber equal to `token`, keeping the order of the
    /// rest. A token that is not subscribed changes nothing.
    pub fn disconnect(&mut self, token: u64)
        ensures
            final(self).name@ == old(self).name@,
            final(self).callbacks@ == without(old(self).callbacks@, token),
    {
        let mut kept: Vec<u64> = Vec::new();
        let mut i: usize = 0;
        proof {
            assert(self.callbacks@.subrange(0, 0) =~= Seq::<u64>::empty());
        }
        while i < self.callbacks.len()
            invariant
                i <= self.callbacks@.len(),
                self.callbacks@ == old(self).callbacks@,
                self.name@ == old(self).name@,
                kept@ == without(self.callbacks@.subrange(0, i as int), token),
            decreases self.callbacks@.len() - i,
        {
            let c = self.callbacks[i];
            if c != token {
                kept.push(c);
            }
            proof {
                lemma_without_push(self.callbacks@.subrange(0, i as int), c, token);
                assert(self.callbacks@.subrange(0, i + 1 as int) =~= self.callbacks@.subrange(
                    0,
                    i as int,
                ).push(c));
            }
            i += 1;
        }
        proof {
            assert(self.callbacks@.subrange(0, self.callbacks@.len() as int) =~= self.callbacks@);
        }
        self.callbacks = kept;
    }

    /// The subscribers to invoke, in insertion order.
    pub fn emit(&self) -> (r: Vec<u64>)
        ensures
            r@ == self.callbacks@,
    {
        let mut out: Vec<u64> = Vec::new();
        let mut i: usize = 0;
        while i < self.callbacks.len()
            invariant
                i <= self.callbacks@.len(),
                out@ == self.callbacks@.subrange(0, i as int),
            decreases self.callbacks@.len() - i,
        {
            out.push(self.callbacks[i]);
            proof {
                assert(self.callbacks@.subrange(0, i + 1 as int) =~= self.callbacks@.subrange(
                    0,
                    i as int,
                ).push(self.callbacks@[i as int]));
            }
            i += 1;
        }
        proof {
            assert(self.callbacks@.subrange(0, self.callbacks@.len() as int) =~= self.callbacks@);
        }
        out
    }
}

/// Subscribing A and then B has every emission invoke A before B, and
/// disconnecting A afterwards leaves the others, B last, in order.
pub proof fn lemma_signal_ordering(cbs: Seq<u64>, a: u64, b: u64)
    requires
        a != b,
    ensures
        cbs.push(a).push(b)[cbs.len() as int] == a,
        cbs.push(a).push(b)[cbs.len() as int + 1] == b,
        without(cbs.push(a).push(b), a) == without(cbs, a).push(b),
{
    lemma_without_push(cbs, a, a);
    lemma_without_push(cbs.push(a), b, a);
}

/// The index of the first signal with the given name, if any.
pub open spec fn first_named(sigs: Seq<Signal>, name: Seq<char>) -> Option<int>
    decreases sigs.len(),
{
    if sigs.len() == 0 {
        None
    } else if sigs[0].name@ == name {
        Some(0)
    } else {
        match first_named(sigs.skip(1), name) {
            Some(i) => Some(i + 1),
            None => None,
        }
    }
}

/// Where the first signal of a name stands, it is in range, it bears that
/// name, and nothing before it does.
pub proof fn lemma_first_named(sigs: Seq<Signal>, name: Seq<char>)
    ensures
        (match first_named(sigs, name) {
            Some(i) => 0 <= i < sigs.len() && sigs[i].name@ == name && forall|k: int|
                0 <= k < i ==> sigs[k].name@ != name,
            None => forall|k: int| 0 <= k < sigs.len() ==> sigs[k].name@ != name,
        }),
    decreases sigs.len(),
{
    if sigs.len() > 0 && sigs[0].name@ != name {
        lemma_first_named(sigs.skip(1), name);
        match first_named(sigs.skip(1), name) {
            Some(i) => {
                assert(first_named(sigs, name) == Some(i + 1));
                assert forall|k: int| 0 <= k < i + 1 implies sigs[k].name@ != name by {
                    if k > 0 {
                        assert(sigs.skip(1)[k - 1].name@ != name);
                    }
                }
            },
            None => {
                assert forall|k: int| 0 <= k < sigs.len() implies sigs[k].name@ != name by {
                    if k > 0 {
                        assert(sigs.skip(1)[k - 1].name@ != name);
                    }
                }
            },
        }
    }
}

/// The ordered set of signals of one side of the bridge.
pub struct SignalRegistry {
    pub signals: Vec<Signal>,
}

impl SignalRegistry {
    /// The four built-in session-level signals, in their fixed order.
    pub fn session_registry() -> (r: SignalRegistry)
        ensures
            r.signals@.len() == 4,
            r.signals@[0].name@ == "authentication_complete"@,
            r.signals@[1].name@ == "autologin_timer_expired"@,
            r.signals@[2].name@ == "show_prompt"@,
            r.signals@[3].name@ == "show_message"@,
            forall|k: int| 0 <= k < 4 ==> r.signals@[k].callbacks@ == Seq::<u64>::empty(),
    {
        let mut signals: Vec<Signal> = Vec::new();
        signals.push(Signal::new(text("authentication_complete")));
        signals.push(Signal::new(text("autologin_timer_expired")));
        signals.push(Signal::new(text("show_prompt")));
        signals.push(Signal::new(text("show_message")));
        SignalRegistry { signals }
    }

    /// Subscribes `token` to the first signal called `name`; no-op and
    /// `false` where no signal bears that name.
    pub fn connect_to(&mut self, name: &Vec<char>, token: u64) -> (r: bool)
        ensures
            (match first_named(old(self).signals@, name@) {
                Some(i) => {
                    &&& r == true
                    &&& final(self).signals@.len() == old(self).signals@.len()
                    &&& final(self).signals@[i].name@ == old(self).signals@[i].name@
                    &&& final(self).signals@[i].callbacks@ == old(
                        self,
                    ).signals@[i].callbacks@.push(token)
                    &&& forall|k: int|
                        0 <= k < old(self).signals@.len() && k != i ==> final(self).signals@[k]
                            == old(self).signals@[k]
                },
                None => r == false && *final(self) == *old(self),
            }),
    {
        proof {
            lemma_first_named(self.signals@, name@);
        }
        let n = self.signals.len();
        let mut i: usize = 0;
        while i < n
            invariant
                i <= n,
                n == self.signals@.len(),
                *self == *old(self),
                forall|k: int| 0 <= k < i ==> self.signals@[k].name@ != name@,
            decreases n - i,
        {
            if text_eq(&self.signals[i].name, name) {
                proof {
                    lemma_first_named(self.signals@, name@);
                    assert(first_named(self.signals@, name@) == Some(i as int)) by {
                        match first_named(self.signals@, name@) {
                            Some(j) => {
                                if j < i as int {
                                    assert(self.signals@[j].name@ == name@);
                                } else if j > i as int {
                                    assert(self.signals@[i as int].name@ != name@);
                                }
                            },
                            None => {
                                assert(self.signals@[i as int].name@ != name@);
                            },
                        }
                    }
                }
                let sig = &mut self.signals[i];
                sig.connect(token);
                return true;
            }
            i += 1;
        }
        proof {
            lemma_first_named(self.signals@, name@);
        }
        false
    }

    /// The subscribers of the first signal called `name`, in order;
    /// `None` where no signal bears that name.
    pub fn emit_by_name(&self, name: &Vec<char>) -> (r: Option<Vec<u64>>)
        ensures
            (match first_named(self.signals@, name@) {
                Some(i) => r matches Some(cbs) && cbs@ == self.signals@[i].callbacks@,
                None => r is None,
            }),
    {
        proof {
            lemma_first_named(self.signals@, name@);
        }
        let n = self.signals.len();
        let mut i: usize = 0;
        while i < n
            invariant
                i <= n,
                n == self.signals@.len(),
                forall|k: int| 0 <= k < i ==> self.signals@[k].name@ != name@,
            decreases n - i,
        {
            if text_eq(&self.signals[i].name, name) {
                proof {
                    lemma_first_named(self.signals@, name@);
                    assert(first_named(self.signals@, name@) == Some(i as int)) by {
                        match first_named(self.signals@, name@) {
                            Some(j) => {
                                if j < i as int {
                                    assert(self.signals@[j].name@ == name@);
                                } else if j > i as int {
                                    assert(self.signals@[i as int].name@ != name@);
                                }
                            },
                            None => {
                                assert(self.signals@[i as int].name@ != name@);
                            },
                        }
                    }
                }
                return Some(self.signals[i].emit());
            }
            i += 1;
        }
        proof {
            lemma_first_named(self.signals@, name@);
        }
        None
    }
}

} // verus!
