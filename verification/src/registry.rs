//! The session registry: the concurrent token → channel directory.
//!
//! At most one live entry exists per token. A token absent from the
//! registry was either never issued, or its session has already ended.
//! Entries are inserted when a session becomes active and removed when it
//! tears down, whichever path triggered the teardown.

use vstd::prelude::*;

verus! {

use crate::codec::{BieProtocol, FrameModel};
use crate::channel::SessionChannel;

struct Entry {
    token: String,
    channel: SessionChannel,
}

/// The token → session-channel directory.
pub struct Registry {
    entries: Vec<Entry>,
}

impl Registry {
    /// The tokens that currently hold a live entry, in insertion order.
    pub closed spec fn tokens(self) -> Seq<Seq<char>> {
        self.entries@.map(|i: int, e: Entry| e.token@)
    }

    /// The queued messages of the entry at position `i`.
    pub closed spec fn msgs_at(self, i: int) -> Seq<FrameModel> {
        self.entries@[i].channel.messages()
    }

    /// Whether the channel of the entry at position `i` is closed.
    pub closed spec fn closed_at(self, i: int) -> bool {
        self.entries@[i].channel.is_closed()
    }

    /// Whether a live entry exists for the token.
    pub open spec fn has_token(self, t: Seq<char>) -> bool {
        exists|i: int| 0 <= i < self.tokens().len() && self.tokens()[i] == t
    }

    /// The position of the live entry for a token it holds.
    pub open spec fn index_of(self, t: Seq<char>) -> int {
        choose|i: int| 0 <= i < self.tokens().len() && self.tokens()[i] == t
    }

    /// Well-formed: no token holds two live entries.
    pub open spec fn wf(self) -> bool {
        forall|i: int, j: int|
            0 <= i < j < self.tokens().len() ==> self.tokens()[i] != self.tokens()[j]
    }

    /// Two registries over the same token sequence resolve the same
    /// tokens.
    pub proof fn lemma_has_token_same_tokens(self, other: Registry)
        requires
            self.tokens() == other.tokens(),
        ensures
            forall|t: Seq<char>| self.has_token(t) == other.has_token(t),
    {
        assert forall|t: Seq<char>| self.has_token(t) == other.has_token(t) by {
            if self.has_token(t) {
                let w = choose|w: int| 0 <= w < self.tokens().len() && self.tokens()[w] == t;
                assert(other.tokens()[w] == t);
            }
            if other.has_token(t) {
                let w = choose|w: int| 0 <= w < other.tokens().len() && other.tokens()[w] == t;
                assert(self.tokens()[w] == t);
            }
        }
    }

    /// In a well-formed registry the entry of a held token is unique, and
    /// `index_of` names it.
    pub proof fn lemma_index_of(self, t: Seq<char>)
        requires
            self.wf(),
            self.has_token(t),
        ensures
            0 <= self.index_of(t) < self.tokens().len(),
            self.tokens()[self.index_of(t)] == t,
            forall|j: int|
                0 <= j < self.tokens().len() && self.tokens()[j] == t ==> j == self.index_of(t),
    {
    }

    /// An empty registry.
    pub fn new() -> (r: Self)
        ensures
            r.tokens() == Seq::<Seq<char>>::empty(),
            r.wf(),
    {
        let r = Registry { entries: Vec::new() };
        proof {
            assert(r.tokens() =~= Seq::<Seq<char>>::empty());
        }
        r
    }

    /// How many sessions are currently registered.
    pub fn len(&self) -> (r: usize)
        ensures
            r == self.tokens().len(),
    {
        self.entries.len()
    }

    /// Find the position of a token's entry, if it holds one.
    pub fn find(&self, token: &String) -> (r: Option<usize>)
        ensures
            r is Some <==> self.has_token(token@),
            r matches Some(i) ==> 0 <= i < self.tokens().len() && self.tokens()[i as int]
                == token@,
    {
        let mut i: usize = 0;
        while i < self.entries.len()
            invariant
                i <= self.entries@.len(),
                forall|j: int| 0 <= j < i ==> self.tokens()[j] != token@,
            decreases self.entries@.len() - i,
        {
            if self.entries[i].token == *token {
                proof {
                    assert(self.tokens()[i as int] == token@);
                }
                return Some(i);
            }
            i = i + 1;
        }
        None
    }

    /// Whether a token currently holds a live entry.
    pub fn contains(&self, token: &String) -> (r: bool)
        ensures
            r == self.has_token(token@),
    {
        match self.find(token) {
            Some(_) => true,
            None => false,
        }
    }

    /// Register a fresh token with its session channel.
    pub fn insert(&mut self, token: String, channel: SessionChannel)
        requires
            old(self).wf(),
            !old(self).has_token(token@),
        ensures
            final(self).wf(),
            final(self).tokens() == old(self).tokens().push(token@),
            final(self).has_token(token@),
            forall|t: Seq<char>|
                t != token@ ==> final(self).has_token(t) == old(self).has_token(t),
            forall|j: int|
                0 <= j < old(self).tokens().len() ==> final(self).msgs_at(j) == old(self).msgs_at(
                    j,
                ) && final(self).closed_at(j) == old(self).closed_at(j),
            final(self).msgs_at(old(self).tokens().len() as int) == channel.messages(),
            final(self).closed_at(old(self).tokens().len() as int) == channel.is_closed(),
    {
        let ghost pre = self.tokens();
        let ghost tv = token@;
        self.entries.push(Entry { token, channel });
        proof {
            assert(self.tokens() =~= pre.push(tv));
            assert forall|t: Seq<char>| t != tv implies self.has_token(t) == old(self).has_token(
                t,
            ) by {
                if old(self).has_token(t) {
                    let i = choose|i: int|
                        0 <= i < pre.len() && pre[i] == t;
                    assert(self.tokens()[i] == t);
                }
                if self.has_token(t) {
                    let i = choose|i: int|
                        0 <= i < self.tokens().len() && self.tokens()[i] == t;
                    assert(pre[i] == t);
                }
            }
            assert(self.tokens()[pre.len() as int] == tv);
        }
    }

    /// Push one message onto the channel at position `i`. Refused exactly
    /// when that channel is closed; nothing else in the registry moves.
    pub fn push_at(&mut self, i: usize, m: BieProtocol) -> (accepted: bool)
        requires
            old(self).wf(),
            i < old(self).tokens().len(),
        ensures
            final(self).wf(),
            final(self).tokens() == old(self).tokens(),
            accepted == !old(self).closed_at(i as int),
            !accepted ==> final(self).msgs_at(i as int) == old(self).msgs_at(i as int),
            forall|j: int|
                0 <= j < old(self).tokens().len() && j != i ==> final(self).msgs_at(j) == old(self).msgs_at(j) && final(self).closed_at(j) == old(self).closed_at(j),
            final(self).closed_at(i as int) == old(self).closed_at(i as int),
            accepted ==> final(self).msgs_at(i as int) == old(self).msgs_at(i as int).push(m@),
    {
        let mut e = self.entries.remove(i);
        let accepted = e.channel.push(m);
        self.entries.insert(i, e);
        proof {
            assert(self.tokens() =~= old(self).tokens());
        }
        accepted
    }

    /// Whether the channel at position `i` is closed to further sends.
    pub fn channel_closed(&self, i: usize) -> (r: bool)
        requires
            i < self.tokens().len(),
        ensures
            r == self.closed_at(i as int),
    {
        self.entries[i].channel.closed_now()
    }

    /// Close the channel at position `i`: further pushes are refused.
    pub fn close_at(&mut self, i: usize)
        requires
            old(self).wf(),
            i < old(self).tokens().len(),
        ensures
            final(self).wf(),
            final(self).tokens() == old(self).tokens(),
            final(self).closed_at(i as int),
            final(self).msgs_at(i as int) == old(self).msgs_at(i as int),
            forall|j: int|
                0 <= j < old(self).tokens().len() && j != i ==> final(self).msgs_at(j) == old(self).msgs_at(j) && final(self).closed_at(j) == old(self).closed_at(j),
    {
        let mut e = self.entries.remove(i);
        e.channel.close();
        self.entries.insert(i, e);
        proof {
            assert(self.tokens() =~= old(self).tokens());
        }
    }

    /// Take the oldest message out of the channel at position `i`.
    pub fn pop_at(&mut self, i: usize) -> (r: Option<BieProtocol>)
        requires
            old(self).wf(),
            i < old(self).tokens().len(),
        ensures
            final(self).wf(),
            final(self).tokens() == old(self).tokens(),
            final(self).closed_at(i as int) == old(self).closed_at(i as int),
            forall|j: int|
                0 <= j < old(self).tokens().len() && j != i ==> final(self).msgs_at(j) == old(self).msgs_at(j) && final(self).closed_at(j) == old(self).closed_at(j),
            old(self).msgs_at(i as int).len() == 0 ==> r is None && final(self).msgs_at(i as int)
                == old(self).msgs_at(i as int),
            old(self).msgs_at(i as int).len() > 0 ==> (r matches Some(m) && m@ == old(self).msgs_at(
                i as int,
            )[0]) && final(self).msgs_at(i as int) == old(self).msgs_at(i as int).skip(1),
    {
        let mut e = self.entries.remove(i);
        let r = e.channel.pop();
        self.entries.insert(i, e);
        proof {
            assert(self.tokens() =~= old(self).tokens());
        }
        r
    }

    /// Evict a token's entry, returning its channel. The token no longer
    /// resolves afterwards; every other entry is untouched.
    pub fn remove_token(&mut self, token: &String) -> (r: Option<SessionChannel>)
        requires
            old(self).wf(),
        ensures
            final(self).wf(),
            r is Some <==> old(self).has_token(token@),
            !final(self).has_token(token@),
            forall|t: Seq<char>|
                t != token@ ==> final(self).has_token(t) == old(self).has_token(t),
            r is None ==> *final(self) == *old(self),
            r is Some ==> final(self).tokens() == old(self).tokens().remove(
                old(self).index_of(token@),
            ),
            r matches Some(ch) ==> ch.messages() == old(self).msgs_at(old(self).index_of(token@))
                && ch.is_closed() == old(self).closed_at(old(self).index_of(token@)),
            forall|t: Seq<char>|
                t != token@ && old(self).has_token(t) ==> final(self).msgs_at(
                    final(self).index_of(t),
                ) == old(self).msgs_at(old(self).index_of(t)) && final(self).closed_at(
                    final(self).index_of(t),
                ) == old(self).closed_at(old(self).index_of(t)),
    {
        let ghost pre = self.tokens();
        match self.find(token) {
            None => None,
            Some(i) => {
                proof {
                    old(self).lemma_index_of(token@);
                }
                let e = self.entries.remove(i);
                proof {
                    assert(self.tokens() =~= pre.remove(i as int));
                    pre.remove_ensures(i as int);
                    (old(self).entries@).remove_ensures(i as int);
                    assert forall|a: int, b: int|
                        0 <= a < b < self.tokens().len() implies self.tokens()[a]
                        != self.tokens()[b] by {
                        let a2: int = if a < i {
                            a
                        } else {
                            a + 1
                        };
                        let b2: int = if b < i {
                            b
                        } else {
                            b + 1
                        };
                        assert(self.tokens()[a] == pre[a2]);
                        assert(self.tokens()[b] == pre[b2]);
                    }
                    assert forall|t: Seq<char>|
                        t != token@ && old(self).has_token(t) implies self.msgs_at(
                        self.index_of(t),
                    ) == old(self).msgs_at(old(self).index_of(t)) && self.closed_at(
                        self.index_of(t),
                    ) == old(self).closed_at(old(self).index_of(t)) by {
                        old(self).lemma_index_of(t);
                        let j = old(self).index_of(t);
                        assert(pre[j] == t);
                        assert(pre[i as int] == token@);
                        if j < i {
                            assert(self.tokens()[j] == t);
                            assert(self.has_token(t));
                            self.lemma_index_of(t);
                            assert(self.index_of(t) == j);
                            assert(self.entries@[j] == old(self).entries@[j]);
                        } else {
                            assert(j > i);
                            assert(self.tokens()[j - 1] == t);
                            assert(self.has_token(t));
                            self.lemma_index_of(t);
                            assert(self.index_of(t) == j - 1);
                            assert(self.entries@[j - 1] == old(self).entries@[j]);
                        }
                    }
                    assert forall|t: Seq<char>| t != token@ implies final(self).has_token(t) == old(self).has_token(t) by {
                        if old(self).has_token(t) {
                            let j = choose|j: int| 0 <= j < pre.len() && pre[j] == t;
                            if j < i {
                                assert(self.tokens()[j] == t);
                            } else {
                                assert(self.tokens()[j - 1] == t);
                            }
                        }
                        if self.has_token(t) {
                            let j = choose|j: int|
                                0 <= j < self.tokens().len() && self.tokens()[j] == t;
                            if j < i {
                                assert(pre[j] == t);
                            } else {
                                assert(pre[j + 1] == t);
                            }
                        }
                    }
                    assert forall|j: int|
                        0 <= j < self.tokens().len() implies self.tokens()[j] != token@ by {
                        if j < i {
                            assert(self.tokens()[j] == pre[j]);
                        } else {
                            assert(self.tokens()[j] == pre[j + 1]);
                        }
                    }
                }
                Some(e.channel)
            },
        }
    }
}

} // verus!
