//! The fan-out of notifications: who listens, under which token, and who
//! stays after a notification could not be delivered to some.
//!
//! The host makes the channels and does the sending; a listener is known
//! here by the handle through which the host reaches it.

use std::collections::HashMap;
use vstd::prelude::*;
use vstd::std_specs::iter::IteratorSpec;

verus! {

broadcast use vstd::std_specs::hash::group_hash_axioms;

/// The listeners, each under the token it was given when it subscribed.
pub struct NotifyCast<L> {
    next_token: u64,
    listeners: HashMap<u64, L>,
}

/// The fan-out, as the contracts speak of it.
pub struct NotifyCastView<L> {
    /// The token that the next listener gets.
    pub next_token: u64,
    /// The handles of the listeners, by their tokens.
    pub listeners: Map<u64, L>,
}

impl<L> View for NotifyCast<L> {
    type V = NotifyCastView<L>;

    closed spec fn view(&self) -> NotifyCastView<L> {
        NotifyCastView { next_token: self.next_token, listeners: self.listeners@ }
    }
}

/// The token after `token`; after the largest comes zero.
pub open spec fn token_after(token: u64) -> u64 {
    if token == u64::MAX {
        0
    } else {
        (token + 1) as u64
    }
}

/// Whether a list names the tokens of the listeners, each once. The order
/// of the list is the order in which the listeners were walked, of which
/// nothing is known.
pub open spec fn lists_tokens<L>(tokens: Seq<u64>, listeners: Map<u64, L>) -> bool {
    &&& tokens.no_duplicates()
    &&& forall|token: u64| tokens.contains(token) <==> listeners.contains_key(token)
}

impl<L> NotifyCast<L> {
    /// A fan-out without listeners, whose first token is zero.
    pub fn new() -> (cast: NotifyCast<L>)
        ensures
            cast@ == (NotifyCastView::<L> { next_token: 0, listeners: Map::empty() }),
    {
        NotifyCast { next_token: 0, listeners: HashMap::new() }
    }

    /// Subscribes a listener and returns its token. A listener that still
    /// holds the same token, which takes the counter to have gone round,
    /// makes way for the new one.
    pub fn subscribe(&mut self, handle: L) -> (token: u64)
        ensures
            token == old(self)@.next_token,
            final(self)@ == (NotifyCastView {
                next_token: token_after(token),
                listeners: old(self)@.listeners.insert(token, handle),
            }),
    {
        let token = self.incr_token();
        self.listeners.insert(token, handle);
        token
    }

    /// Takes the listener with this token out, if it is subscribed.
    pub fn unsubscribe(&mut self, token: u64)
        ensures
            final(self)@ == (NotifyCastView {
                listeners: old(self)@.listeners.remove(token),
                ..old(self)@
            }),
    {
        let _gone = self.listeners.remove(&token);
    }

    /// Hands out the current token and moves the counter to the next one.
    pub fn incr_token(&mut self) -> (token: u64)
        ensures
            token == old(self)@.next_token,
            final(self)@ == (NotifyCastView { next_token: token_after(token), ..old(self)@ }),
    {
        let token = self.next_token;
        self.next_token = if token == u64::MAX {
            0
        } else {
            token + 1
        };
        token
    }

    /// How many listeners are subscribed.
    pub fn len(&self) -> (n: usize)
        ensures
            n == self@.listeners.len(),
    {
        self.listeners.len()
    }

    /// The tokens of the listeners, each once, in the order in which the
    /// listeners are walked.
    pub fn tokens(&self) -> (tokens: Vec<u64>)
        ensures
            lists_tokens(tokens@, self@.listeners),
    {
        let mut tokens: Vec<u64> = Vec::new();
        for k in it: self.listeners.keys()
            invariant
                it.seq().unref().to_set() == self.listeners@.dom(),
                it.seq().no_duplicates(),
                tokens@.no_duplicates(),
                forall|x: u64| tokens@.contains(x) ==> self.listeners@.contains_key(x),
                forall|i: int| 0 <= i < it.index() ==> tokens@.contains(*it.seq()[i]),
                forall|x: u64|
                    tokens@.contains(x) ==> exists|i: int| 0 <= i < it.index() && *it.seq()[i] == x,
        {
            let ghost at = it.index() as int;
            let ghost before = tokens@;
            assert(*k == *it.seq()[at]);
            assert(it.seq().unref()[at] == *k);
            assert(it.seq().unref().to_set().contains(*k));
            tokens.push(*k);
            proof {
                assert(tokens@ =~= before.push(*k));
                assert(!before.contains(*k)) by {
                    if before.contains(*k) {
                        let i = choose|i: int| 0 <= i < at && *it.seq()[i] == *k;
                        assert(it.seq()[i] == it.seq()[at]);
                    }
                }
                assert forall|x: u64| tokens@.contains(x) implies self.listeners@.contains_key(
                    x,
                ) by {
                    let j = choose|j: int| 0 <= j < tokens@.len() && tokens@[j] == x;
                    if j < before.len() {
                        assert(before[j] == x);
                        assert(before.contains(x));
                    }
                }
                assert forall|x: u64| tokens@.contains(x) implies exists|i: int|
                    0 <= i < at + 1 && *it.seq()[i] == x by {
                    let j = choose|j: int| 0 <= j < tokens@.len() && tokens@[j] == x;
                    if j < before.len() {
                        assert(before[j] == x);
                        assert(before.contains(x));
                    } else {
                        assert(*it.seq()[at] == x);
                    }
                }
                assert forall|a: int, b: int|
                    0 <= a < tokens@.len() && 0 <= b < tokens@.len() && a != b implies tokens@[a]
                    != tokens@[b] by {
                    if a < before.len() && b < before.len() {
                        assert(before[a] != before[b]);
                    } else if a < before.len() {
                        assert(before.contains(before[a]));
                    } else {
                        assert(before.contains(before[b]));
                    }
                }
                assert forall|i: int| 0 <= i < at + 1 implies tokens@.contains(*it.seq()[i]) by {
                    if i < at {
                        let x = *it.seq()[i];
                        assert(before.contains(x));
                        let j = choose|j: int| 0 <= j < before.len() && before[j] == x;
                        assert(tokens@[j] == x);
                    } else {
                        assert(tokens@[tokens@.len() - 1] == *k);
                    }
                }
            }
        }
        tokens
    }

    /// The handle of the listener with this token, if it is subscribed.
    pub fn listener(&self, token: u64) -> (handle: Option<&L>)
        ensures
            match handle {
                Some(h) => self@.listeners.contains_key(token) && *h == self@.listeners[token],
                None => !self@.listeners.contains_key(token),
            },
    {
        self.listeners.get(&token)
    }

    /// Takes out the listeners to which a notification could not be
    /// delivered; the others stay.
    pub fn remove_failed(&mut self, failed: &Vec<u64>)
        ensures
            final(self)@ == (NotifyCastView {
                listeners: old(self)@.listeners.remove_keys(failed@.to_set()),
                ..old(self)@
            }),
    {
        let ghost whole = self.listeners@;
        let mut i: usize = 0;
        assert(whole.remove_keys(failed@.subrange(0, 0).to_set()) =~= whole);
        while i < failed.len()
            invariant
                i <= failed.len(),
                self.next_token == old(self).next_token,
                whole == old(self)@.listeners,
                self.listeners@ == whole.remove_keys(failed@.subrange(0, i as int).to_set()),
            decreases failed.len() - i,
        {
            let token = failed[i];
            let ghost done = failed@.subrange(0, i as int);
            let ghost next = failed@.subrange(0, i + 1);
            let _gone = self.listeners.remove(&token);
            proof {
                assert(next =~= done.push(token));
                assert(next.to_set() =~= done.to_set().insert(token)) by {
                    assert forall|x: u64| next.to_set().contains(x) <==> done.to_set().insert(
                        token,
                    ).contains(x) by {
                        if next.contains(x) {
                            let j = choose|j: int| 0 <= j < next.len() && next[j] == x;
                            if j < done.len() {
                                assert(done[j] == x);
                                assert(done.contains(x));
                            }
                        }
                        if done.contains(x) {
                            let j = choose|j: int| 0 <= j < done.len() && done[j] == x;
                            assert(next[j] == x);
                        }
                        if x == token {
                            assert(next[next.len() - 1] == token);
                        }
                    }
                }
                assert(self.listeners@ =~= whole.remove_keys(next.to_set()));
            }
            i += 1;
        }
        assert(failed@.subrange(0, failed@.len() as int) =~= failed@);
    }
}

} // verus!
