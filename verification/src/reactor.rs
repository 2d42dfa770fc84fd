//! The reactor's bookkeeping: the tokens it hands out, the waker and the
//! event source registered under each token, and what an event on a token
//! wakes. Talking to the operating system's poller and to the command
//! channel is the caller's part.
use crate::idmap::IdMap;
use vstd::prelude::*;

verus! {

/// The token of the reactor's own wake-up source.
pub const WAKER_TOKEN: usize = 1024;

/// The first token handed out to a stream.
pub const FIRST_TOKEN: usize = 1025;

/// Hands out tokens in increasing order, starting after [`WAKER_TOKEN`].
pub struct TokenCounter {
    next: usize,
}

impl TokenCounter {
    #[verifier::type_invariant]
    spec fn inv(self) -> bool {
        self.next >= FIRST_TOKEN
    }

    /// The token handed out next.
    pub closed spec fn upcoming(self) -> int {
        self.next as int
    }

    /// A counter whose first token is [`FIRST_TOKEN`].
    pub fn new() -> (c: Self)
        ensures
            c.upcoming() == FIRST_TOKEN,
    {
        TokenCounter { next: FIRST_TOKEN }
    }

    /// The token handed out next.
    pub fn peek(&self) -> (t: usize)
        ensures
            t == self.upcoming(),
    {
        self.next
    }

    /// Hands out the next token.
    pub fn next_token(&mut self) -> (t: usize)
        requires
            old(self).upcoming() < usize::MAX,
        ensures
            t == old(self).upcoming(),
            t >= FIRST_TOKEN,
            t != WAKER_TOKEN,
            final(self).upcoming() == t + 1,
    {
        proof {
            use_type_invariant(&*self);
        }
        let t = self.next;
        self.next = t + 1;
        t
    }
}

/// The reactor's tables: a waker and an event source per registered token.
pub struct ReactorState<W, S> {
    wakers: IdMap<W>,
    sources: IdMap<S>,
    tokens: TokenCounter,
}

/// What handing out a token gave.
#[derive(Debug, Clone, Copy, PartialEq, Eq, Structural)]
pub enum AllocateError {
    /// The request could not be sent to the reactor.
    SendFailed,
    /// The reactor could not be woken.
    WakeFailed,
    /// No token came back in time.
    Timeout,
}

impl AllocateError {
    /// The message the reactor's users report.
    pub fn message(&self) -> (m: &'static str)
        ensures
            *self == AllocateError::SendFailed ==> m@ == "Failed to send token allocation request"@,
            *self == AllocateError::WakeFailed ==> m@ == "Failed to wake reactor"@,
            *self == AllocateError::Timeout ==> m@ == "Timeout waiting for token allocation"@,
    {
        match self {
            AllocateError::SendFailed => "Failed to send token allocation request",
            AllocateError::WakeFailed => "Failed to wake reactor",
            AllocateError::Timeout => "Timeout waiting for token allocation",
        }
    }
}

/// The outcome of asking the reactor for a token: the request is sent,
/// then the reactor is woken, then the token is awaited; the first step
/// that fails decides the error.
pub open spec fn allocation_spec(sent: bool, woken: bool, received: Option<usize>) -> Result<
    usize,
    AllocateError,
> {
    if !sent {
        Err(AllocateError::SendFailed)
    } else if !woken {
        Err(AllocateError::WakeFailed)
    } else {
        match received {
            Some(t) => Ok(t),
            None => Err(AllocateError::Timeout),
        }
    }
}

/// Decides the outcome of a token request from what each step gave.
pub fn allocation_result(sent: bool, woken: bool, received: Option<usize>) -> (r: Result<
    usize,
    AllocateError,
>)
    ensures
        r == allocation_spec(sent, woken, received),
        !sent ==> r == Err::<usize, AllocateError>(AllocateError::SendFailed),
        sent && !woken ==> r == Err::<usize, AllocateError>(AllocateError::WakeFailed),
        sent && woken && received is None ==> r == Err::<usize, AllocateError>(
            AllocateError::Timeout,
        ),
        sent && woken && received is Some ==> r == Ok::<usize, AllocateError>(received.unwrap()),
{
    if !sent {
        Err(AllocateError::SendFailed)
    } else if !woken {
        Err(AllocateError::WakeFailed)
    } else {
        match received {
            Some(t) => Ok(t),
            None => Err(AllocateError::Timeout),
        }
    }
}

impl<W, S> ReactorState<W, S> {
    /// The waker registered under each token.
    pub closed spec fn wakers(self) -> Map<usize, W> {
        self.wakers@
    }

    /// The event source registered under each token.
    pub closed spec fn sources(self) -> Map<usize, S> {
        self.sources@
    }

    /// The token handed out next.
    pub closed spec fn upcoming(self) -> int {
        self.tokens.upcoming()
    }

    /// Empty tables; the first token handed out is [`FIRST_TOKEN`].
    pub fn new() -> (r: Self)
        ensures
            r.wakers() == Map::<usize, W>::empty(),
            r.sources() == Map::<usize, S>::empty(),
            r.upcoming() == FIRST_TOKEN,
    {
        ReactorState { wakers: IdMap::new(), sources: IdMap::new(), tokens: TokenCounter::new() }
    }

    /// The token handed out next.
    pub fn upcoming_token(&self) -> (t: usize)
        ensures
            t == self.upcoming(),
    {
        self.tokens.peek()
    }

    /// Hands out a fresh token; the tables are unchanged.
    pub fn next_token(&mut self) -> (t: usize)
        requires
            old(self).upcoming() < usize::MAX,
        ensures
            t == old(self).upcoming(),
            t >= FIRST_TOKEN,
            t != WAKER_TOKEN,
            final(self).upcoming() == t + 1,
            final(self).wakers() == old(self).wakers(),
            final(self).sources() == old(self).sources(),
    {
        self.tokens.next_token()
    }

    /// Registers `waker` and `source` under `token`, replacing what was there.
    pub fn register(&mut self, token: usize, waker: W, source: S)
        ensures
            final(self).wakers() == old(self).wakers().insert(token, waker),
            final(self).sources() == old(self).sources().insert(token, source),
            final(self).upcoming() == old(self).upcoming(),
            (final(self).wakers(), final(self).sources()) == apply_registration(
                (old(self).wakers(), old(self).sources()),
                Registration::Register(token, waker, source),
            ),
    {
        self.wakers.insert(token, waker);
        self.sources.insert(token, source);
    }

    /// Deregisters `token`: when a source is registered under it, the source
    /// is handed back and both entries go; otherwise nothing changes.
    pub fn deregister(&mut self, token: usize) -> (r: Option<S>)
        ensures
            final(self).upcoming() == old(self).upcoming(),
            (final(self).wakers(), final(self).sources()) == apply_registration(
                (old(self).wakers(), old(self).sources()),
                Registration::<W, S>::Deregister(token),
            ),
            match r {
                Some(s) => {
                    &&& old(self).sources().contains_key(token)
                    &&& old(self).sources()[token] == s
                    &&& final(self).sources() == old(self).sources().remove(token)
                    &&& final(self).wakers() == old(self).wakers().remove(token)
                },
                None => {
                    &&& !old(self).sources().contains_key(token)
                    &&& final(self).sources() == old(self).sources()
                    &&& final(self).wakers() == old(self).wakers()
                },
            },
    {
        match self.sources.remove(token) {
            Some(s) => {
                self.wakers.remove(token);
                Some(s)
            },
            None => {
                assert(self.sources@ =~= old(self).sources@);
                None
            },
        }
    }

    /// The waker an event on `token` wakes: none for the reactor's own
    /// token, else the one registered under it, if any.
    pub fn waker_for_event(&self, token: usize) -> (r: Option<&W>)
        ensures
            match r {
                Some(w) => woken_by(self.wakers(), token) == Some(*w),
                None => woken_by(self.wakers(), token) is None,
            },
            token == WAKER_TOKEN ==> r is None,
            token != WAKER_TOKEN ==> match r {
                Some(w) => self.wakers().contains_key(token) && self.wakers()[token] == *w,
                None => !self.wakers().contains_key(token),
            },
    {
        if token == WAKER_TOKEN {
            None
        } else {
            self.wakers.get(token)
        }
    }

    /// Whether an event source is registered under `token`.
    pub fn is_registered(&self, token: usize) -> (b: bool)
        ensures
            b == self.sources().contains_key(token),
    {
        self.sources.contains(token)
    }

    /// Shuts the tables down: hands back every registered source with its
    /// token, each once, and forgets every waker.
    pub fn shutdown(&mut self) -> (out: Vec<(usize, S)>)
        ensures
            final(self).sources() == Map::<usize, S>::empty(),
            final(self).wakers() == Map::<usize, W>::empty(),
            final(self).upcoming() == old(self).upcoming(),
            out@.len() == old(self).sources().len(),
            forall|i: int|
                0 <= i < out@.len() ==> old(self).sources().contains_key(#[trigger] out@[i].0)
                    && old(self).sources()[out@[i].0] == out@[i].1,
            forall|i: int, j: int|
                0 <= i < j < out@.len() ==> #[trigger] out@[i].0 != #[trigger] out@[j].0,
            forall|token: usize|
                #[trigger] old(self).sources().contains_key(token) ==> exists|i: int|
                    0 <= i < out@.len() && #[trigger] out@[i].0 == token,
    {
        let out = self.sources.drain();
        self.wakers.clear();
        out
    }
}

/// Registering under a token and then deregistering it hands the source
/// back and leaves both tables as deregistering alone would.
pub proof fn law_register_then_deregister<W, S>(
    wakers: Map<usize, W>,
    sources: Map<usize, S>,
    token: usize,
    waker: W,
    source: S,
)
    ensures
        sources.insert(token, source).contains_key(token),
        sources.insert(token, source)[token] == source,
        sources.insert(token, source).remove(token) == sources.remove(token),
        wakers.insert(token, waker).remove(token) == wakers.remove(token),
{
    assert(sources.insert(token, source).remove(token) =~= sources.remove(token));
    assert(wakers.insert(token, waker).remove(token) =~= wakers.remove(token));
}

/// The tokens a counter hands out over `k` requests when the next token is
/// `upcoming`: each request gets the counter's next token, and the counter
/// moves one on (as [`TokenCounter::next_token`] states).
pub open spec fn token_run(upcoming: int, k: nat) -> Seq<int>
    decreases k,
{
    if k == 0 {
        Seq::empty()
    } else {
        seq![upcoming] + token_run(upcoming + 1, (k - 1) as nat)
    }
}

/// The `i`-th of `k` tokens handed out from `upcoming` is `upcoming + i`.
proof fn lemma_token_run(upcoming: int, k: nat)
    ensures
        token_run(upcoming, k).len() == k,
        forall|i: int| 0 <= i < k ==> #[trigger] token_run(upcoming, k)[i] == upcoming + i,
    decreases k,
{
    if k > 0 {
        lemma_token_run(upcoming + 1, (k - 1) as nat);
        let rest = token_run(upcoming + 1, (k - 1) as nat);
        assert forall|i: int| 0 <= i < k implies #[trigger] token_run(upcoming, k)[i] == upcoming
            + i by {
            if i > 0 {
                assert(token_run(upcoming, k)[i] == rest[i - 1]);
            }
        }
    }
}

/// A fresh reactor's requests for tokens are answered, in order, with 1025,
/// 1026, ...: the `i`-th request (from 0) gets `FIRST_TOKEN + i`, so the
/// tokens are strictly increasing, pairwise distinct and never
/// [`WAKER_TOKEN`].
pub proof fn law_token_sequence(k: nat)
    ensures
        token_run(FIRST_TOKEN as int, k).len() == k,
        forall|i: int| 0 <= i < k ==> #[trigger] token_run(FIRST_TOKEN as int, k)[i] == FIRST_TOKEN + i,
        forall|i: int| 0 <= i < k ==> #[trigger] token_run(FIRST_TOKEN as int, k)[i] != WAKER_TOKEN,
        forall|i: int, j: int|
            0 <= i < j < k ==> #[trigger] token_run(FIRST_TOKEN as int, k)[i] < #[trigger] token_run(
                FIRST_TOKEN as int,
                k,
            )[j],
{
    lemma_token_run(FIRST_TOKEN as int, k);
}

/// A command that changes what is registered under a token.
pub enum Registration<W, S> {
    Register(usize, W, S),
    Deregister(usize),
}

/// The tables after one command, as [`ReactorState::register`] and
/// [`ReactorState::deregister`] state it.
pub open spec fn apply_registration<W, S>(
    tables: (Map<usize, W>, Map<usize, S>),
    command: Registration<W, S>,
) -> (Map<usize, W>, Map<usize, S>) {
    match command {
        Registration::Register(token, waker, source) => (
            tables.0.insert(token, waker),
            tables.1.insert(token, source),
        ),
        Registration::Deregister(token) => if tables.1.contains_key(token) {
            (tables.0.remove(token), tables.1.remove(token))
        } else {
            tables
        },
    }
}

/// The tables after a run of commands.
pub open spec fn apply_registrations<W, S>(
    tables: (Map<usize, W>, Map<usize, S>),
    commands: Seq<Registration<W, S>>,
) -> (Map<usize, W>, Map<usize, S>)
    decreases commands.len(),
{
    if commands.len() == 0 {
        tables
    } else {
        apply_registration(apply_registrations(tables, commands.drop_last()), commands.last())
    }
}

/// The waker of the last registration of `token` in `commands` that no
/// later deregistration of `token` undid.
pub open spec fn live_waker<W, S>(commands: Seq<Registration<W, S>>, token: usize) -> Option<W>
    decreases commands.len(),
{
    if commands.len() == 0 {
        None
    } else {
        match commands.last() {
            Registration::Register(t, waker, _) => if t == token {
                Some(waker)
            } else {
                live_waker(commands.drop_last(), token)
            },
            Registration::Deregister(t) => if t == token {
                None
            } else {
                live_waker(commands.drop_last(), token)
            },
        }
    }
}

/// The waker an event on `token` wakes, given the registered wakers (as
/// [`ReactorState::waker_for_event`] states it).
pub open spec fn woken_by<W>(wakers: Map<usize, W>, token: usize) -> Option<W> {
    if token != WAKER_TOKEN && wakers.contains_key(token) {
        Some(wakers[token])
    } else {
        None
    }
}

/// The tables after a run of commands on fresh tables.
pub open spec fn tables_after<W, S>(commands: Seq<Registration<W, S>>) -> (
    Map<usize, W>,
    Map<usize, S>,
) {
    apply_registrations((Map::<usize, W>::empty(), Map::<usize, S>::empty()), commands)
}

/// After any run of registrations on fresh tables, a token has a waker
/// exactly when it has a source, and that waker is the one of its last
/// registration that no later deregistration undid.
proof fn lemma_registrations<W, S>(commands: Seq<Registration<W, S>>)
    ensures
        tables_after(commands).0.dom() == tables_after(commands).1.dom(),
        forall|token: usize|
            #![trigger live_waker(commands, token)]
            (tables_after(commands).0.contains_key(token) <==> live_waker(commands, token) is Some)
                && (tables_after(commands).0.contains_key(token) ==> live_waker(commands, token)
                == Some(tables_after(commands).0[token])),
    decreases commands.len(),
{
    let empty = (Map::<usize, W>::empty(), Map::<usize, S>::empty());
    if commands.len() == 0 {
        assert(empty.0.dom() =~= empty.1.dom());
    } else {
        let init = commands.drop_last();
        lemma_registrations(init);
        let before = tables_after(init);
        let after = tables_after(commands);
        assert(after == apply_registration(before, commands.last()));
        match commands.last() {
            Registration::Register(t, waker, source) => {
                assert(after.0.dom() =~= after.1.dom());
                assert forall|token: usize| #![trigger live_waker(commands, token)]
                    (after.0.contains_key(token) <==> live_waker(commands, token) is Some) && (
                    after.0.contains_key(token) ==> live_waker(commands, token) == Some(
                        after.0[token],
                    )) by {
                    if token != t {
                        assert(live_waker(commands, token) == live_waker(init, token));
                    }
                }
            },
            Registration::Deregister(t) => {
                if before.1.contains_key(t) {
                    assert(after.0.dom() =~= after.1.dom());
                } else {
                    assert(!before.0.contains_key(t));
                }
                assert forall|token: usize| #![trigger live_waker(commands, token)]
                    (after.0.contains_key(token) <==> live_waker(commands, token) is Some) && (
                    after.0.contains_key(token) ==> live_waker(commands, token) == Some(
                        after.0[token],
                    )) by {
                    if token != t {
                        assert(live_waker(commands, token) == live_waker(init, token));
                    } else {
                        assert(!before.0.contains_key(t) ==> !after.0.contains_key(t));
                    }
                }
            },
        }
    }
}

/// Routing over a whole run: once fresh tables have taken a run of
/// registrations, an event on a token wakes the waker of that token's last
/// registration as long as no later deregistration undid it, and nothing
/// after one did; an event on [`WAKER_TOKEN`] wakes nothing.
pub proof fn law_event_routing<W, S>(commands: Seq<Registration<W, S>>, token: usize)
    ensures
        woken_by(tables_after(commands).0, token) == if token == WAKER_TOKEN {
            None
        } else {
            live_waker(commands, token)
        },
{
    lemma_registrations(commands);
}

/// A token request fails only at the first step that failed: a request
/// that was sent, woke the reactor and got a token back yields exactly that
/// token, whatever it is; a missing token is a timeout; a wake that failed
/// is reported as such; and a request that could not be sent fails whatever
/// else happened.
pub proof fn law_allocation_outcome(woken: bool, received: Option<usize>, t: usize)
    ensures
        allocation_spec(true, true, Some(t)) == Ok::<usize, AllocateError>(t),
        allocation_spec(true, true, None) == Err::<usize, AllocateError>(AllocateError::Timeout),
        allocation_spec(true, false, received) == Err::<usize, AllocateError>(
            AllocateError::WakeFailed,
        ),
        allocation_spec(false, woken, received) == Err::<usize, AllocateError>(
            AllocateError::SendFailed,
        ),
{
}

} // verus!
