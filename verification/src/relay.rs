//! The relay engine: every session's lifecycle, coupled to the registry.
//!
//! The engine owns the registry and one record per accepted connection.
//! Its invariant ties the two together: a token resolves in the registry
//! exactly while its session is `Active` or still flushing its terminal
//! traffic (`Draining`, whose channel already refuses pushes); before
//! activation and after teardown the token never resolves. Teardown
//! evicts the token whichever path triggered it, so the registry never
//! retains a stale token past connection teardown.

use vstd::prelude::*;

verus! {

use crate::codec::{BieProtocol, FrameModel};
use crate::channel::SessionChannel;
use crate::registry::Registry;
use crate::session::{SessionState, WireCommand, forwarder_step, forwarder_commands,
    forwarder_finishes};
use crate::upload::{handle_upload, clone_bytes, UploadOutcome, ChunkOutcome, chunk_views, total_size,
    chunk_messages};
use vstd::pervasive::unreached;

struct RelaySession {
    token: String,
    state: SessionState,
}

/// The relay engine: the registry and every accepted session.
pub struct Relay {
    registry: Registry,
    sessions: Vec<RelaySession>,
}

impl Relay {
    /// How many connections have been accepted, in any state.
    pub closed spec fn session_count(self) -> nat {
        self.sessions@.len()
    }

    /// The token of the session at position `i`.
    pub closed spec fn token_at(self, i: int) -> Seq<char> {
        self.sessions@[i].token@
    }

    /// The lifecycle state of the session at position `i`.
    pub closed spec fn state_at(self, i: int) -> SessionState {
        self.sessions@[i].state
    }

    /// The registry the engine owns.
    pub closed spec fn reg(self) -> Registry {
        self.registry
    }

    /// Whether a token currently resolves in the registry.
    pub open spec fn registered(self, t: Seq<char>) -> bool {
        self.reg().has_token(t)
    }

    /// The messages queued in the channel registered under a token.
    pub open spec fn chan_msgs(self, t: Seq<char>) -> Seq<FrameModel> {
        self.reg().msgs_at(self.reg().index_of(t))
    }

    /// Whether the channel registered under a token refuses pushes.
    pub open spec fn chan_closed(self, t: Seq<char>) -> bool {
        self.reg().closed_at(self.reg().index_of(t))
    }

    /// How many sessions are currently registered.
    pub open spec fn connections(self) -> nat {
        self.reg().tokens().len()
    }

    /// Whether a state holds a registry entry.
    pub open spec fn state_live(s: SessionState) -> bool {
        s == SessionState::Active || s == SessionState::Draining
    }

    /// The engine invariant: session tokens are distinct, and a token
    /// resolves exactly while its session is live.
    pub closed spec fn wf(self) -> bool {
        &&& self.registry.wf()
        &&& forall|i: int, j: int|
            0 <= i < j < self.session_count() ==> self.token_at(i) != self.token_at(j)
        &&& forall|i: int|
            0 <= i < self.session_count() ==> (Self::state_live(#[trigger] self.state_at(i))
                <==> self.registered(self.token_at(i)))
    }

    /// Law: a token is present in the registry if and only if its session
    /// is `Active` — outside the transient `Draining` window, in which
    /// the terminal traffic is still being flushed while the channel
    /// already refuses pushes.
    pub proof fn law_registered_iff_active(self, i: int)
        requires
            self.wf(),
            0 <= i < self.session_count(),
            self.state_at(i) != SessionState::Draining,
        ensures
            self.registered(self.token_at(i)) <==> self.state_at(i) == SessionState::Active,
    {
    }

    /// Law: after a session reaches `Closed`, lookups for its token miss.
    pub proof fn law_closed_token_misses(self, i: int)
        requires
            self.wf(),
            0 <= i < self.session_count(),
            self.state_at(i) == SessionState::Closed,
        ensures
            !self.registered(self.token_at(i)),
    {
    }

    /// The invariant survives any registry change that keeps the token
    /// sequence, as long as the sessions are untouched.
    proof fn lemma_wf_preserved(self, pre: Relay)
        requires
            pre.wf(),
            self.sessions == pre.sessions,
            self.registry.wf(),
            self.registry.tokens() == pre.registry.tokens(),
        ensures
            self.wf(),
    {
        self.registry.lemma_has_token_same_tokens(pre.registry);
        assert forall|i: int, j: int|
            0 <= i < j < self.session_count() implies self.token_at(i) != self.token_at(j) by {
            assert(self.token_at(i) == pre.token_at(i));
            assert(self.token_at(j) == pre.token_at(j));
        }
        assert forall|j: int|
            0 <= j < self.session_count() implies (Self::state_live(#[trigger] self.state_at(j))
            <==> self.registered(self.token_at(j))) by {
            assert(self.state_at(j) == pre.state_at(j));
            assert(self.token_at(j) == pre.token_at(j));
            assert(self.registry.has_token(self.token_at(j)) == pre.registry.has_token(
                pre.token_at(j),
            ));
        }
    }

    /// After a registry change that keeps the token sequence and touches
    /// only the entry of `t`, every other registered token keeps its
    /// channel contents and closed flag.
    proof fn lemma_chan_same_tokens(self, pre: Relay, t: Seq<char>)
        requires
            pre.registry.wf(),
            self.registry.tokens() == pre.registry.tokens(),
            forall|j: int|
                0 <= j < pre.registry.tokens().len() && pre.registry.tokens()[j] != t
                    ==> self.registry.msgs_at(j) == pre.registry.msgs_at(j)
                    && self.registry.closed_at(j) == pre.registry.closed_at(j),
        ensures
            forall|u: Seq<char>|
                u != t && pre.registry.has_token(u) ==> #[trigger] self.chan_msgs(u)
                    == pre.chan_msgs(u) && self.chan_closed(u) == pre.chan_closed(u),
    {
        assert forall|u: Seq<char>| u != t && pre.registry.has_token(u) implies #[trigger] self
            .chan_msgs(u) == pre.chan_msgs(u) && self.chan_closed(u) == pre.chan_closed(u) by {
            pre.registry.lemma_index_of(u);
            let j = pre.registry.index_of(u);
            assert(self.registry.tokens()[j] == u);
            self.registry.lemma_index_of(u);
            assert(self.registry.index_of(u) == j);
            assert(pre.registry.tokens()[j] != t);
        }
    }

    /// After the registry gained one entry for `t` behind everything that
    /// was there, every other registered token keeps its channel.
    proof fn lemma_chan_extended(self, pre: Relay, t: Seq<char>)
        requires
            pre.registry.wf(),
            self.registry.wf(),
            self.registry.tokens() == pre.registry.tokens().push(t),
            forall|j: int|
                0 <= j < pre.registry.tokens().len() ==> self.registry.msgs_at(j)
                    == pre.registry.msgs_at(j) && self.registry.closed_at(j)
                    == pre.registry.closed_at(j),
        ensures
            forall|u: Seq<char>|
                u != t && pre.registry.has_token(u) ==> #[trigger] self.chan_msgs(u)
                    == pre.chan_msgs(u) && self.chan_closed(u) == pre.chan_closed(u),
    {
        assert forall|u: Seq<char>| u != t && pre.registry.has_token(u) implies #[trigger] self
            .chan_msgs(u) == pre.chan_msgs(u) && self.chan_closed(u) == pre.chan_closed(u) by {
            pre.registry.lemma_index_of(u);
            let j = pre.registry.index_of(u);
            assert(self.registry.tokens()[j] == u);
            self.registry.lemma_index_of(u);
            assert(self.registry.index_of(u) == j);
        }
    }

    /// A fresh engine with no sessions.
    pub fn new() -> (r: Self)
        ensures
            r.wf(),
            r.session_count() == 0,
            r.connections() == 0,
    {
        Relay { registry: Registry::new(), sessions: Vec::new() }
    }

    /// How many sessions are currently registered, for the health answer.
    pub fn connection_count(&self) -> (r: usize)
        ensures
            r == self.connections(),
    {
        self.registry.len()
    }

    /// The lifecycle state of session `i`.
    pub fn state_of(&self, i: usize) -> (r: SessionState)
        requires
            i < self.session_count(),
        ensures
            r == self.state_at(i as int),
    {
        self.sessions[i].state
    }

    /// How many connections have been accepted, in any state.
    pub fn sessions_accepted(&self) -> (r: usize)
        ensures
            r == self.session_count(),
    {
        self.sessions.len()
    }

    /// Whether a token names any accepted session, or still resolves.
    fn token_known(&self, token: &String) -> (r: bool)
        ensures
            r == ((exists|i: int|
                0 <= i < self.session_count() && #[trigger] self.token_at(i) == token@)
                || self.registered(token@)),
    {
        let mut i: usize = 0;
        while i < self.sessions.len()
            invariant
                i <= self.session_count(),
                forall|j: int| 0 <= j < i ==> #[trigger] self.token_at(j) != token@,
            decreases self.session_count() - i,
        {
            if self.sessions[i].token == *token {
                proof {
                    assert(self.token_at(i as int) == token@);
                }
                return true;
            }
            i = i + 1;
        }
        self.registry.contains(token)
    }

    /// Set the state of session `i`, leaving all else in place.
    fn set_state(&mut self, i: usize, s: SessionState)
        requires
            i < old(self).session_count(),
        ensures
            final(self).session_count() == old(self).session_count(),
            final(self).state_at(i as int) == s,
            final(self).token_at(i as int) == old(self).token_at(i as int),
            forall|j: int|
                0 <= j < old(self).session_count() && j != i ==> final(self).token_at(j) == old(self).token_at(j) && final(self).state_at(j) == old(self).state_at(j),
            final(self).reg() == old(self).reg(),
    {
        let mut sess = self.sessions.remove(i);
        sess.state = s;
        self.sessions.insert(i, sess);
    }

    /// Accept one persistent connection under a freshly generated token.
    ///
    /// Refused — and nothing changes — exactly when the token is not
    /// fresh; otherwise a new session is appended in state `Opening`,
    /// unregistered until its token has gone out.
    pub fn accept(&mut self, token: String) -> (r: Option<usize>)
        requires
            old(self).wf(),
        ensures
            final(self).wf(),
            r is None <==> ((exists|i: int|
                0 <= i < old(self).session_count() && #[trigger] old(self).token_at(i) == token@)
                || old(self).registered(token@)),
            r is None ==> *final(self) == *old(self),
            r matches Some(i) ==> ({
                &&& i == old(self).session_count()
                &&& final(self).session_count() == old(self).session_count() + 1
                &&& final(self).token_at(i as int) == token@
                &&& final(self).state_at(i as int) == SessionState::Opening
                &&& forall|j: int|
                    0 <= j < old(self).session_count() ==> final(self).token_at(j) == old(self).token_at(j) && final(self).state_at(j) == old(self).state_at(j)
                &&& final(self).reg() == old(self).reg()
            }),
    {
        if self.token_known(&token) {
            return None;
        }
        let ghost pre = self.sessions@;
        let r = self.sessions.len();
        self.sessions.push(RelaySession { token, state: SessionState::Opening });
        proof {
            assert forall|i: int, j: int|
                0 <= i < j < self.session_count() implies self.token_at(i) != self.token_at(
                j,
            ) by {
                if j < pre.len() {
                    assert(self.token_at(i) == old(self).token_at(i));
                    assert(self.token_at(j) == old(self).token_at(j));
                } else {
                    assert(self.token_at(i) == old(self).token_at(i));
                }
            }
            assert forall|i: int|
                0 <= i < self.session_count() implies (Self::state_live(
                #[trigger] self.state_at(i),
            ) <==> self.registered(self.token_at(i))) by {
                if i < pre.len() {
                    assert(self.state_at(i) == old(self).state_at(i));
                    assert(self.token_at(i) == old(self).token_at(i));
                }
            }
        }
        Some(r)
    }

    /// Record that the token went out as the first message: the session
    /// moves from `Opening` to `TokenSent`. Still unregistered.
    pub fn token_written(&mut self, i: usize)
        requires
            old(self).wf(),
            i < old(self).session_count(),
            old(self).state_at(i as int) == SessionState::Opening,
        ensures
            final(self).wf(),
            final(self).session_count() == old(self).session_count(),
            final(self).state_at(i as int) == SessionState::TokenSent,
            final(self).token_at(i as int) == old(self).token_at(i as int),
            forall|j: int|
                0 <= j < old(self).session_count() && j != i ==> final(self).token_at(j) == old(self).token_at(j) && final(self).state_at(j) == old(self).state_at(j),
            final(self).reg() == old(self).reg(),
    {
        self.set_state(i, SessionState::TokenSent);
        proof {
            assert forall|i2: int, j2: int|
                0 <= i2 < j2 < self.session_count() implies self.token_at(i2) != self.token_at(
                j2,
            ) by {
                assert(self.token_at(i2) == old(self).token_at(i2));
                assert(self.token_at(j2) == old(self).token_at(j2));
            }
            assert forall|j: int|
                0 <= j < self.session_count() implies (Self::state_live(
                #[trigger] self.state_at(j),
            ) <==> self.registered(self.token_at(j))) by {
                if j != i as int {
                    assert(self.token_at(j) == old(self).token_at(j));
                    assert(self.state_at(j) == old(self).state_at(j));
                }
            }
        }
    }

    /// Register the session: its token resolves from now on, against a
    /// fresh empty channel, and the session is `Active`.
    pub fn register(&mut self, i: usize)
        requires
            old(self).wf(),
            i < old(self).session_count(),
            old(self).state_at(i as int) == SessionState::TokenSent,
        ensures
            final(self).wf(),
            final(self).session_count() == old(self).session_count(),
            final(self).state_at(i as int) == SessionState::Active,
            final(self).token_at(i as int) == old(self).token_at(i as int),
            forall|j: int|
                0 <= j < old(self).session_count() && j != i ==> final(self).token_at(j) == old(self).token_at(j) && final(self).state_at(j) == old(self).state_at(j),
            final(self).registered(old(self).token_at(i as int)),
            final(self).chan_msgs(old(self).token_at(i as int)) == Seq::<FrameModel>::empty(),
            !final(self).chan_closed(old(self).token_at(i as int)),
            forall|t: Seq<char>|
                t != old(self).token_at(i as int) ==> final(self).registered(t) == old(self).registered(t),
            forall|t: Seq<char>|
                t != old(self).token_at(i as int) && old(self).registered(t) ==> final(self).chan_msgs(t) == old(self).chan_msgs(t) && final(self).chan_closed(t) == old(self).chan_closed(t),
            final(self).connections() == old(self).connections() + 1,
    {
        let ghost tv = old(self).token_at(i as int);
        let token = self.sessions[i].token.clone();
        proof {
            assert(!Self::state_live(old(self).state_at(i as int)));
            assert(!old(self).registry.has_token(tv));
        }
        let channel = SessionChannel::new();
        let ghost pre_len = self.registry.tokens().len();
        self.registry.insert(token, channel);
        self.set_state(i, SessionState::Active);
        proof {
            self.registry.lemma_index_of(tv);
            assert(self.registry.index_of(tv) == pre_len);
            self.lemma_chan_extended(*old(self), tv);
            assert forall|i2: int, j2: int|
                0 <= i2 < j2 < self.session_count() implies self.token_at(i2) != self.token_at(
                j2,
            ) by {
                assert(self.token_at(i2) == old(self).token_at(i2));
                assert(self.token_at(j2) == old(self).token_at(j2));
            }
            assert forall|j: int|
                0 <= j < self.session_count() implies (Self::state_live(
                #[trigger] self.state_at(j),
            ) <==> self.registered(self.token_at(j))) by {
                if j == i as int {
                    assert(self.state_at(j) == SessionState::Active);
                    assert(self.token_at(j) == tv);
                    assert(self.registry.has_token(tv));
                } else {
                    assert(self.token_at(j) == old(self).token_at(j));
                    assert(self.state_at(j) == old(self).state_at(j));
                    assert(old(self).token_at(j) != tv);
                    assert(self.registry.has_token(self.token_at(j)) == old(self).registry
                        .has_token(self.token_at(j)));
                }
            }
        }
    }

    /// Drain one message for the forwarder of the `Active` session `i`:
    /// the writes to perform on the connection, and whether the session
    /// has moved to `Draining` — in which case its channel now refuses
    /// pushes. `None` when nothing is queued.
    pub fn next_outbound(&mut self, i: usize) -> (r: Option<(Vec<WireCommand>, bool)>)
        requires
            old(self).wf(),
            i < old(self).session_count(),
            old(self).state_at(i as int) == SessionState::Active,
        ensures
            final(self).wf(),
            final(self).session_count() == old(self).session_count(),
            final(self).token_at(i as int) == old(self).token_at(i as int),
            forall|j: int|
                0 <= j < old(self).session_count() && j != i ==> final(self).token_at(j) == old(self).token_at(j) && final(self).state_at(j) == old(self).state_at(j),
            forall|t: Seq<char>| final(self).registered(t) == old(self).registered(t),
            forall|t: Seq<char>|
                t != old(self).token_at(i as int) && old(self).registered(t) ==> final(self).chan_msgs(t) == old(self).chan_msgs(t) && final(self).chan_closed(t) == old(self).chan_closed(t),
            r is None <==> old(self).chan_msgs(old(self).token_at(i as int)).len() == 0,
            r is None ==> final(self).state_at(i as int) == SessionState::Active && final(self).chan_msgs(old(self).token_at(i as int)) == old(self).chan_msgs(
                old(self).token_at(i as int),
            ) && final(self).chan_closed(old(self).token_at(i as int)) == old(self).chan_closed(
                old(self).token_at(i as int),
            ),
            r matches Some((cmds, fin)) ==> ({
                let q = old(self).chan_msgs(old(self).token_at(i as int));
                &&& cmds@.map(|ci: int, c: WireCommand| c@) == forwarder_commands(q[0])
                &&& fin == forwarder_finishes(q[0])
                &&& final(self).chan_msgs(old(self).token_at(i as int)) == q.skip(1)
                &&& final(self).state_at(i as int) == (if fin {
                    SessionState::Draining
                } else {
                    SessionState::Active
                })
                &&& (fin ==> final(self).chan_closed(old(self).token_at(i as int)))
                &&& (!fin ==> final(self).chan_closed(old(self).token_at(i as int)) == old(self).chan_closed(old(self).token_at(i as int)))
            }),
    {
        let ghost tv = old(self).token_at(i as int);
        let token = self.sessions[i].token.clone();
        proof {
            assert(old(self).registry.has_token(tv));
            old(self).registry.lemma_index_of(tv);
        }
        let idx = match self.registry.find(&token) {
            Some(idx) => idx,
            None => {
                return unreached();
            },
        };
        proof {
            assert(idx as int == old(self).registry.index_of(tv));
        }
        let popped = self.registry.pop_at(idx);
        let m = match popped {
            None => {
                proof {
                    self.lemma_wf_preserved(*old(self));
                    self.registry.lemma_has_token_same_tokens(old(self).registry);
                    self.registry.lemma_index_of(tv);
                    self.lemma_chan_same_tokens(*old(self), tv);
                }
                return None;
            },
            Some(m) => m,
        };
        let (cmds, fin) = forwarder_step(&m);
        if fin {
            self.registry.close_at(idx);
            self.set_state(i, SessionState::Draining);
        }
        proof {
            self.registry.lemma_has_token_same_tokens(old(self).registry);
            self.registry.lemma_index_of(tv);
            self.lemma_chan_same_tokens(*old(self), tv);
            assert forall|i2: int, j2: int|
                0 <= i2 < j2 < self.session_count() implies self.token_at(i2) != self.token_at(
                j2,
            ) by {
                assert(self.token_at(i2) == old(self).token_at(i2));
                assert(self.token_at(j2) == old(self).token_at(j2));
            }
            assert forall|j: int|
                0 <= j < self.session_count() implies (Self::state_live(
                #[trigger] self.state_at(j),
            ) <==> self.registered(self.token_at(j))) by {
                if j == i as int {
                    assert(self.token_at(j) == tv);
                    assert(self.registry.has_token(tv));
                    assert(Self::state_live(self.state_at(j)));
                } else {
                    assert(self.token_at(j) == old(self).token_at(j));
                    assert(self.state_at(j) == old(self).state_at(j));
                    assert(self.registry.has_token(self.token_at(j)) == old(self).registry
                        .has_token(self.token_at(j)));
                }
            }
        }
        Some((cmds, fin))
    }

    /// Tear session `i` down, whichever path brought it here: normal
    /// completion after draining, a watcher-detected disconnect, or a
    /// write failure. The session is `Closed` and its token evicted, so
    /// lookups for it miss from now on.
    pub fn teardown(&mut self, i: usize)
        requires
            old(self).wf(),
            i < old(self).session_count(),
        ensures
            final(self).wf(),
            final(self).session_count() == old(self).session_count(),
            final(self).state_at(i as int) == SessionState::Closed,
            final(self).token_at(i as int) == old(self).token_at(i as int),
            forall|j: int|
                0 <= j < old(self).session_count() && j != i ==> final(self).token_at(j) == old(self).token_at(j) && final(self).state_at(j) == old(self).state_at(j),
            !final(self).registered(old(self).token_at(i as int)),
            forall|t: Seq<char>|
                t != old(self).token_at(i as int) ==> final(self).registered(t) == old(self).registered(t),
            forall|t: Seq<char>|
                t != old(self).token_at(i as int) && old(self).registered(t) ==> final(self).chan_msgs(t) == old(self).chan_msgs(t) && final(self).chan_closed(t) == old(self).chan_closed(t),
    {
        let ghost tv = old(self).token_at(i as int);
        let token = self.sessions[i].token.clone();
        let _evicted = self.registry.remove_token(&token);
        self.set_state(i, SessionState::Closed);
        proof {
            assert forall|i2: int, j2: int|
                0 <= i2 < j2 < self.session_count() implies self.token_at(i2) != self.token_at(
                j2,
            ) by {
                assert(self.token_at(i2) == old(self).token_at(i2));
                assert(self.token_at(j2) == old(self).token_at(j2));
            }
            assert forall|j: int|
                0 <= j < self.session_count() implies (Self::state_live(
                #[trigger] self.state_at(j),
            ) <==> self.registered(self.token_at(j))) by {
                if j == i as int {
                    assert(!Self::state_live(self.state_at(j)));
                    assert(!self.registry.has_token(tv));
                } else {
                    assert(self.token_at(j) == old(self).token_at(j));
                    assert(self.state_at(j) == old(self).state_at(j));
                    assert(old(self).token_at(j) != tv);
                    assert(self.registry.has_token(self.token_at(j)) == old(self).registry
                        .has_token(self.token_at(j)));
                }
            }
        }
    }

    /// Push one message to the channel registered under a token.
    /// Delivered exactly while the token resolves against an open
    /// channel; nothing else in the engine moves.
    fn push_to_channel(&mut self, token: &String, m: BieProtocol) -> (delivered: bool)
        requires
            old(self).wf(),
        ensures
            final(self).wf(),
            final(self).session_count() == old(self).session_count(),
            forall|j: int|
                0 <= j < old(self).session_count() ==> final(self).token_at(j) == old(self).token_at(j) && final(self).state_at(j) == old(self).state_at(j),
            forall|t: Seq<char>| final(self).registered(t) == old(self).registered(t),
            delivered <==> old(self).registered(token@) && !old(self).chan_closed(token@),
            delivered ==> final(self).chan_msgs(token@) == old(self).chan_msgs(token@).push(m@)
                && final(self).chan_closed(token@) == old(self).chan_closed(token@),
            !delivered && old(self).registered(token@) ==> final(self).chan_msgs(token@) == old(self).chan_msgs(token@) && final(self).chan_closed(token@) == old(self).chan_closed(
                token@,
            ),
            forall|t: Seq<char>|
                t != token@ && old(self).registered(t) ==> final(self).chan_msgs(t) == old(self).chan_msgs(t) && final(self).chan_closed(t) == old(self).chan_closed(t),
    {
        let idx = match self.registry.find(token) {
            None => {
                return false;
            },
            Some(idx) => idx,
        };
        proof {
            old(self).registry.lemma_index_of(token@);
            assert(idx as int == old(self).registry.index_of(token@));
        }
        let delivered = self.registry.push_at(idx, m);
        proof {
            self.lemma_wf_preserved(*old(self));
            self.registry.lemma_has_token_same_tokens(old(self).registry);
            self.registry.lemma_index_of(token@);
            self.lemma_chan_same_tokens(*old(self), token@);
        }
        delivered
    }

    /// The watcher saw inbound traffic or a disconnect: push a synthetic
    /// `Close` to stop the forwarder. Delivered exactly while the token
    /// resolves against an open channel.
    pub fn signal_close(&mut self, token: &String) -> (delivered: bool)
        requires
            old(self).wf(),
        ensures
            final(self).wf(),
            final(self).session_count() == old(self).session_count(),
            forall|j: int|
                0 <= j < old(self).session_count() ==> final(self).token_at(j) == old(self).token_at(j) && final(self).state_at(j) == old(self).state_at(j),
            forall|t: Seq<char>| final(self).registered(t) == old(self).registered(t),
            delivered <==> old(self).registered(token@) && !old(self).chan_closed(token@),
            delivered ==> final(self).chan_msgs(token@) == old(self).chan_msgs(token@).push(
                FrameModel::Close,
            ) && final(self).chan_closed(token@) == old(self).chan_closed(token@),
            !delivered && old(self).registered(token@) ==> final(self).chan_msgs(token@) == old(self).chan_msgs(token@) && final(self).chan_closed(token@) == old(self).chan_closed(
                token@,
            ),
            forall|t: Seq<char>|
                t != token@ && old(self).registered(t) ==> final(self).chan_msgs(t) == old(self).chan_msgs(t) && final(self).chan_closed(t) == old(self).chan_closed(t),
    {
        self.push_to_channel(token, BieProtocol::Close)
    }

    /// Whether a token currently resolves: the upload bridge asks this
    /// before it reads any of the request body.
    pub fn is_registered(&self, token: &String) -> (r: bool)
        ensures
            r == self.registered(token@),
    {
        self.registry.contains(token)
    }

    /// Stream one chunk of an upload into the session registered under
    /// `token`, keeping the running total `sent` against the size
    /// ceiling. Exactly one outcome holds: `SessionGone` when the token
    /// does not resolve or its channel refuses pushes; `TooLarge` when
    /// the chunk would take the body past the ceiling, and then nothing
    /// is pushed; `Pushed` otherwise, and then the channel gains exactly
    /// this chunk and `sent` grows by its size. No other session is
    /// touched.
    pub fn push_chunk(&mut self, token: &String, chunk: &Vec<u8>, sent: &mut u64, max_bytes: u64) -> (r: ChunkOutcome)
        requires
            old(self).wf(),
        ensures
            final(self).wf(),
            final(self).session_count() == old(self).session_count(),
            forall|j: int|
                0 <= j < old(self).session_count() ==> final(self).token_at(j) == old(self).token_at(j) && final(self).state_at(j) == old(self).state_at(j),
            forall|t: Seq<char>| final(self).registered(t) == old(self).registered(t),
            r == ChunkOutcome::SessionGone <==> !(old(self).registered(token@) && !old(self).chan_closed(token@)),
            r == ChunkOutcome::TooLarge <==> old(self).registered(token@) && !old(self).chan_closed(token@) && *old(sent) + chunk@.len() > max_bytes,
            r == ChunkOutcome::Pushed <==> old(self).registered(token@) && !old(self).chan_closed(token@) && *old(sent) + chunk@.len() <= max_bytes,
            old(self).registered(token@) ==> final(self).chan_closed(token@) == old(self).chan_closed(token@),
            r == ChunkOutcome::Pushed ==> final(self).chan_msgs(token@) == old(self).chan_msgs(
                token@,
            ).push(FrameModel::FileChunk(chunk@)) && *final(sent) == *old(sent) + chunk@.len(),
            r != ChunkOutcome::Pushed ==> *final(sent) == *old(sent),
            r != ChunkOutcome::Pushed && old(self).registered(token@) ==> final(self).chan_msgs(
                token@,
            ) == old(self).chan_msgs(token@),
            forall|t: Seq<char>|
                t != token@ && old(self).registered(t) ==> final(self).chan_msgs(t) == old(self).chan_msgs(t) && final(self).chan_closed(t) == old(self).chan_closed(t),
    {
        let idx = match self.registry.find(token) {
            None => {
                return ChunkOutcome::SessionGone;
            },
            Some(idx) => idx,
        };
        proof {
            old(self).registry.lemma_index_of(token@);
            assert(idx as int == old(self).registry.index_of(token@));
        }
        if self.registry.channel_closed(idx) {
            return ChunkOutcome::SessionGone;
        }
        if *sent > max_bytes {
            return ChunkOutcome::TooLarge;
        }
        if chunk.len() as u64 > max_bytes - *sent {
            return ChunkOutcome::TooLarge;
        }
        *sent = *sent + chunk.len() as u64;
        let copy = clone_bytes(chunk);
        let delivered = self.registry.push_at(idx, BieProtocol::FileChunk(copy));
        proof {
            assert(delivered);
            self.lemma_wf_preserved(*old(self));
            self.registry.lemma_has_token_same_tokens(old(self).registry);
            self.registry.lemma_index_of(token@);
            self.lemma_chan_same_tokens(*old(self), token@);
        }
        ChunkOutcome::Pushed
    }

    /// Close one streamed upload: push the end marker behind everything
    /// already queued. Delivered exactly while the token resolves
    /// against an open channel; otherwise the session is gone and the
    /// uploader must see an internal error.
    pub fn finish_upload(&mut self, token: &String) -> (delivered: bool)
        requires
            old(self).wf(),
        ensures
            final(self).wf(),
            final(self).session_count() == old(self).session_count(),
            forall|j: int|
                0 <= j < old(self).session_count() ==> final(self).token_at(j) == old(self).token_at(j) && final(self).state_at(j) == old(self).state_at(j),
            forall|t: Seq<char>| final(self).registered(t) == old(self).registered(t),
            delivered <==> old(self).registered(token@) && !old(self).chan_closed(token@),
            delivered ==> final(self).chan_msgs(token@) == old(self).chan_msgs(token@).push(
                FrameModel::EndOfFile,
            ) && final(self).chan_closed(token@) == old(self).chan_closed(token@),
            !delivered && old(self).registered(token@) ==> final(self).chan_msgs(token@) == old(self).chan_msgs(token@) && final(self).chan_closed(token@) == old(self).chan_closed(
                token@,
            ),
            forall|t: Seq<char>|
                t != token@ && old(self).registered(t) ==> final(self).chan_msgs(t) == old(self).chan_msgs(t) && final(self).chan_closed(t) == old(self).chan_closed(t),
    {
        self.push_to_channel(token, BieProtocol::EndOfFile)
    }

    /// Bridge one upload against a token: resolve it, stream the chunks
    /// into the session's channel within the size ceiling, then the end
    /// marker. See [`handle_upload`] — this is the same contract stated
    /// over the engine, plus: no session's lifecycle moves.
    pub fn upload(&mut self, token: &String, chunks: &Vec<Vec<u8>>, max_bytes: u64) -> (r:
        UploadOutcome)
        requires
            old(self).wf(),
        ensures
            final(self).wf(),
            final(self).session_count() == old(self).session_count(),
            forall|j: int|
                0 <= j < old(self).session_count() ==> final(self).token_at(j) == old(self).token_at(j) && final(self).state_at(j) == old(self).state_at(j),
            forall|t: Seq<char>| final(self).registered(t) == old(self).registered(t),
            r == UploadOutcome::NotFound <==> !old(self).registered(token@),
            old(self).registered(token@) ==> ({
                let vs = chunk_views(chunks@);
                &&& (r == UploadOutcome::InternalError <==> old(self).chan_closed(token@))
                &&& (r == UploadOutcome::Accepted <==> !old(self).chan_closed(token@)
                    && total_size(vs) <= max_bytes)
                &&& (r == UploadOutcome::TooLarge <==> !old(self).chan_closed(token@)
                    && total_size(vs) > max_bytes)
                &&& final(self).chan_closed(token@) == old(self).chan_closed(token@)
                &&& (r == UploadOutcome::InternalError ==> final(self).chan_msgs(token@) == old(self).chan_msgs(token@))
                &&& (r == UploadOutcome::Accepted ==> final(self).chan_msgs(token@) == old(self).chan_msgs(token@) + chunk_messages(vs) + seq![FrameModel::EndOfFile])
                &&& (r == UploadOutcome::TooLarge ==> exists|n: int|
                    0 <= n <= vs.len() && total_size(vs.take(n)) <= max_bytes && final(self).chan_msgs(token@) == old(self).chan_msgs(token@) + chunk_messages(
                        #[trigger] vs.take(n),
                    ))
                &&& forall|t: Seq<char>|
                    t != token@ && old(self).registered(t) ==> final(self).chan_msgs(t) == old(self).chan_msgs(t) && final(self).chan_closed(t) == old(self).chan_closed(t)
            }),
    {
        proof {
            if old(self).registered(token@) {
                old(self).registry.lemma_index_of(token@);
            }
        }
        let r = handle_upload(&mut self.registry, token, chunks, max_bytes);
        proof {
            if old(self).registered(token@) {
                self.lemma_wf_preserved(*old(self));
                self.registry.lemma_has_token_same_tokens(old(self).registry);
                self.registry.lemma_index_of(token@);
                self.lemma_chan_same_tokens(*old(self), token@);
            }
        }
        r
    }
}

} // verus!
