//! Live invocations of one instance, keyed by the token that the guest carries.
//!
//! Each in-flight invocation keys its own host bridge and context by its token,
//! so that host imports recover the right one even when several invocations are
//! in flight on one instance.
use crate::text_map::TextMap;
use std::collections::HashMap;
use vstd::prelude::*;
use vstd::std_specs::hash::*;

verus! {

broadcast use vstd::std_specs::hash::group_hash_axioms;

/// Live invocations and the stream callbacks that outlast them.
///
/// Stream callbacks are registered during one invocation but execute later,
/// after that invocation's token has been retired. Guest callbacks commonly
/// capture the registering context, so the table remembers which token that
/// context carries for each stream. While a stream callback is active, an alias
/// temporarily resolves the captured token to the callback invocation's token.
#[derive(Debug)]
pub struct InvocationTable<T> {
    invocations: HashMap<u64, T>,
    stream_context_tokens: TextMap<u64>,
    stream_token_aliases: HashMap<u64, u64>,
    next_token: u64,
}

/// State of an [`InvocationTable`].
pub struct InvocationsView<T> {
    /// Live invocations by token.
    pub live: Map<u64, T>,
    /// The token that each registered stream's callback captured.
    pub streams: Map<Seq<char>, u64>,
    /// Captured tokens that stand for another one at the moment.
    pub aliases: Map<u64, u64>,
    /// The token that the next invocation gets.
    pub next: u64,
}

impl<T> View for InvocationTable<T> {
    type V = InvocationsView<T>;

    closed spec fn view(&self) -> InvocationsView<T> {
        InvocationsView {
            live: self.invocations@,
            streams: self.stream_context_tokens@,
            aliases: self.stream_token_aliases@,
            next: self.next_token,
        }
    }
}

impl<T> InvocationsView<T> {
    /// The table with nothing in it.
    pub open spec fn empty() -> InvocationsView<T> {
        InvocationsView {
            live: Map::empty(),
            streams: Map::empty(),
            aliases: Map::empty(),
            next: 0,
        }
    }

    /// The token that a guest's token stands for.
    pub open spec fn resolve(self, token: u64) -> u64 {
        if self.aliases.dom().contains(token) {
            self.aliases[token]
        } else {
            token
        }
    }

    /// The invocation that a guest's token reaches, if it is live.
    pub open spec fn reaches(self, token: u64) -> Option<T> {
        if self.live.dom().contains(self.resolve(token)) {
            Some(self.live[self.resolve(token)])
        } else {
            None
        }
    }

    /// A new invocation gets the next token.
    pub open spec fn enter(self, entry: T) -> InvocationsView<T> {
        InvocationsView {
            live: self.live.insert(self.next, entry),
            next: if self.next == u64::MAX {
                0
            } else {
                (self.next + 1) as u64
            },
            ..self
        }
    }

    /// The token captured by a stream's callback, if it is registered.
    pub open spec fn captured(self, stream: Seq<char>) -> Option<u64> {
        if self.streams.dom().contains(stream) {
            Some(self.streams[stream])
        } else {
            None
        }
    }

    /// A stream's callback begins to run as the invocation with this token.
    pub open spec fn begin_callback(self, stream: Seq<char>, token: u64) -> InvocationsView<T> {
        match self.captured(stream) {
            Some(captured) if captured != token => InvocationsView {
                aliases: self.aliases.insert(captured, token),
                ..self
            },
            _ => self,
        }
    }

    /// A stream's callback that captured this token ends.
    pub open spec fn end_callback(self, captured: Option<u64>, token: u64) -> InvocationsView<T> {
        match captured {
            Some(captured) if captured != token && self.aliases.dom().contains(captured)
                && self.aliases[captured] == token => InvocationsView {
                aliases: self.aliases.remove(captured),
                ..self
            },
            _ => self,
        }
    }

    /// An invocation leaves the guest: its callback's alias and its token are
    /// gone.
    pub open spec fn leave(self, token: u64, captured: Option<u64>) -> InvocationsView<T> {
        let ended = self.end_callback(captured, token);
        InvocationsView { live: ended.live.remove(token), ..ended }
    }

    /// Every live token was handed out before the next one.
    pub open spec fn wf(self) -> bool {
        forall|t: u64| #[trigger] self.live.dom().contains(t) ==> t < self.next
    }
}

impl<T> InvocationTable<T> {
    /// The empty table.
    pub fn new() -> (r: InvocationTable<T>)
        ensures
            r@ == InvocationsView::<T>::empty(),
    {
        InvocationTable {
            invocations: HashMap::new(),
            stream_context_tokens: TextMap::new(),
            stream_token_aliases: HashMap::new(),
            next_token: 0,
        }
    }

    /// Register a live invocation under a fresh token and return the token.
    /// Tokens are monotonic within a store's lifetime.
    pub fn alloc_invocation(&mut self, entry: T) -> (r: u64)
        ensures
            r == old(self)@.next,
            final(self)@ == old(self)@.enter(entry),
    {
        let token: u64 = self.next_token;
        self.next_token = self.next_token.wrapping_add(1);
        self.invocations.insert(token, entry);
        token
    }

    /// The invocation that a guest's token reaches, if it is live.
    pub fn invocation(&self, token: u64) -> (r: Option<&T>)
        ensures
            match self@.reaches(token) {
                Some(entry) => r == Some(&entry),
                None => r is None,
            },
    {
        let token: u64 = match self.stream_token_aliases.get(&token) {
            Some(alias) => *alias,
            None => token,
        };
        self.invocations.get(&token)
    }

    /// Associate a successfully registered stream with the token embedded in
    /// the guest callback's captured context.
    pub fn register_stream_context(&mut self, stream_id: &str, token: u64)
        ensures
            final(self)@ == (InvocationsView {
                streams: old(self)@.streams.insert(stream_id@, token),
                ..old(self)@
            }),
    {
        self.stream_context_tokens.insert(stream_id, token);
    }

    /// Forget the captured context associated with an unregistered stream.
    pub fn unregister_stream_context(&mut self, stream_id: &str)
        ensures
            final(self)@ == (InvocationsView {
                streams: old(self)@.streams.remove(stream_id@),
                ..old(self)@
            }),
    {
        self.stream_context_tokens.remove(stream_id);
    }

    /// Temporarily route a registered callback's captured token through the
    /// currently active stream invocation. Stream callbacks are runner barriers,
    /// so at most one alias for a stream callback is active.
    pub fn begin_stream_callback(&mut self, stream_id: &str, invocation_token: u64) -> (r: Option<
        u64,
    >)
        ensures
            r == old(self)@.captured(stream_id@),
            final(self)@ == old(self)@.begin_callback(stream_id@, invocation_token),
    {
        let captured: u64 = match self.stream_context_tokens.get(stream_id) {
            Some(token) => *token,
            None => return None,
        };
        if captured != invocation_token {
            self.stream_token_aliases.insert(captured, invocation_token);
        }
        Some(captured)
    }

    /// Remove the temporary alias installed by [`Self::begin_stream_callback`].
    pub fn end_stream_callback(&mut self, captured_token: Option<u64>, invocation_token: u64)
        ensures
            final(self)@ == old(self)@.end_callback(captured_token, invocation_token),
    {
        let captured: u64 = match captured_token {
            Some(token) => token,
            None => return,
        };
        if captured != invocation_token {
            let installed: bool = match self.stream_token_aliases.get(&captured) {
                Some(alias) => *alias == invocation_token,
                None => false,
            };
            if installed {
                self.stream_token_aliases.remove(&captured);
            }
        }
    }

    /// Retire the invocation registered for `token` once its guest call has
    /// completed. No effect if already gone.
    pub fn remove_invocation(&mut self, token: u64)
        ensures
            final(self)@ == (InvocationsView { live: old(self)@.live.remove(token), ..old(self)@ }),
    {
        self.invocations.remove(&token);
        assert(self@.live =~= old(self)@.live.remove(token));
    }

    /// Enter the guest for an invocation: register it, and route the stream's
    /// callback to it for a chunk of `stream_id`. Gives the invocation's token,
    /// and the token that the stream's callback captured.
    pub fn enter_guest(&mut self, entry: T, stream_id: Option<&str>) -> (r: (u64, Option<u64>))
        ensures
            r.0 == old(self)@.next,
            match stream_id {
                Some(s) => {
                    &&& r.1 == old(self)@.captured(s@)
                    &&& final(self)@ == old(self)@.enter(entry).begin_callback(s@, r.0)
                },
                None => {
                    &&& r.1 is None
                    &&& final(self)@ == old(self)@.enter(entry)
                },
            },
    {
        let token: u64 = self.alloc_invocation(entry);
        let captured: Option<u64> = match stream_id {
            Some(s) => self.begin_stream_callback(s, token),
            None => None,
        };
        (token, captured)
    }

    /// Leave the guest after the invocation with this token. A healthy store
    /// forgets that invocation alone; a poisoned one loses them all.
    pub fn leave_guest(&mut self, token: u64, captured_token: Option<u64>, poisoned: bool)
        ensures
            final(self)@ == (if poisoned {
                InvocationsView::<T>::empty()
            } else {
                old(self)@.leave(token, captured_token)
            }),
    {
        if poisoned {
            self.clear_invocations();
        } else {
            self.end_stream_callback(captured_token, token);
            self.remove_invocation(token);
        }
    }

    /// Number of live invocations.
    pub fn invocation_count(&self) -> (r: usize)
        ensures
            r == self@.live.len(),
    {
        self.invocations.len()
    }

    /// Drop every live invocation and reset the token counter. Called when a
    /// trap poisons the store: the whole in-flight set is dead, so the rebuilt
    /// instance starts clean.
    pub fn clear_invocations(&mut self)
        ensures
            final(self)@ == InvocationsView::<T>::empty(),
    {
        self.invocations.clear();
        self.stream_context_tokens.clear();
        self.stream_token_aliases.clear();
        self.next_token = 0;
    }
}

// ── laws ─────────────────────────────────────────────────────────────────────

/// A new invocation never takes over a live one: its token was not in use, and
/// every other live invocation stays as it was. (After `2^64` tokens the
/// counter starts over, which the law leaves out.)
pub proof fn tokens_are_fresh<T>(v: InvocationsView<T>, entry: T)
    requires
        v.wf(),
        v.next < u64::MAX,
    ensures
        !v.live.dom().contains(v.next),
        v.enter(entry).wf(),
        v.enter(entry).live[v.next] == entry,
        forall|t: u64| #[trigger]
            v.live.dom().contains(t) ==> v.enter(entry).live.dom().contains(t) && v.enter(
                entry,
            ).live[t] == v.live[t],
{
}

/// Retiring an invocation keeps every live token below the next one, and undoes
/// its registration.
pub proof fn retiring_undoes_registration<T>(v: InvocationsView<T>, entry: T)
    requires
        v.wf(),
        v.next < u64::MAX,
    ensures
        v.enter(entry).live.remove(v.next) == v.live,
{
    assert(v.enter(entry).live.remove(v.next) =~= v.live);
}

/// While a stream's callback runs, the token that its context captured reaches
/// the callback's own invocation, and no other token's meaning changes.
pub proof fn callback_reaches_its_invocation<T>(
    v: InvocationsView<T>,
    stream: Seq<char>,
    token: u64,
    other: u64,
)
    requires
        v.streams.dom().contains(stream),
        v.live.dom().contains(token),
        !v.aliases.dom().contains(v.streams[stream]),
        other != v.streams[stream],
    ensures
        v.begin_callback(stream, token).reaches(v.streams[stream]) == Some(v.live[token]),
        v.begin_callback(stream, token).reaches(other) == v.reaches(other),
{
}

/// Ending a stream's callback undoes its beginning.
pub proof fn callback_alias_is_temporary<T>(v: InvocationsView<T>, stream: Seq<char>, token: u64)
    requires
        v.streams.dom().contains(stream) ==> !v.aliases.dom().contains(v.streams[stream]),
    ensures
        v.begin_callback(stream, token).end_callback(v.captured(stream), token) == v,
{
    let w = v.begin_callback(stream, token).end_callback(v.captured(stream), token);
    assert(w.aliases =~= v.aliases);
}

/// Entering and leaving the guest leaves no trace but the token that was used
/// up, whether or not a stream's callback ran.
pub proof fn leaving_undoes_entering<T>(
    v: InvocationsView<T>,
    entry: T,
    stream: Option<Seq<char>>,
)
    requires
        v.wf(),
        v.next < u64::MAX,
        stream matches Some(s) ==> v.streams.dom().contains(s) ==> !v.aliases.dom().contains(
            v.streams[s],
        ),
    ensures
        ({
            let entered = match stream {
                Some(s) => v.enter(entry).begin_callback(s, v.next),
                None => v.enter(entry),
            };
            let captured = match stream {
                Some(s) => v.captured(s),
                None => None,
            };
            entered.leave(v.next, captured) == (InvocationsView { next: (v.next + 1) as u64, ..v })
        }),
{
    let entered = match stream {
        Some(s) => v.enter(entry).begin_callback(s, v.next),
        None => v.enter(entry),
    };
    let captured = match stream {
        Some(s) => v.captured(s),
        None => None,
    };
    let left = entered.leave(v.next, captured);
    assert(left.live =~= v.live);
    assert(left.aliases =~= v.aliases);
}

/// A token that nobody took over stands for itself: it reaches its own invocation while that
/// is live, and nothing once it was retired.
pub proof fn plain_tokens_reach_themselves<T>(v: InvocationsView<T>, token: u64)
    requires
        !v.aliases.dom().contains(token),
    ensures
        v.live.dom().contains(token) ==> v.reaches(token) == Some(v.live[token]),
        !v.live.dom().contains(token) ==> v.reaches(token) is None,
        v.leave(token, None).reaches(token) is None,
{
}

/// Tokens are handed out in order, and entering touches no stream and no alias.
pub proof fn tokens_are_handed_out_in_order<T>(v: InvocationsView<T>, entry: T)
    requires
        v.next < u64::MAX,
    ensures
        v.enter(entry).next == v.next + 1,
        v.enter(entry).live.dom() == v.live.dom().insert(v.next),
        v.enter(entry).streams == v.streams,
        v.enter(entry).aliases == v.aliases,
{
}

/// A callback of a stream that is not registered takes over no token, and one that runs
/// under the token it captured needs no alias.
pub proof fn unregistered_streams_take_over_nothing<T>(
    v: InvocationsView<T>,
    stream: Seq<char>,
    token: u64,
)
    ensures
        !v.streams.dom().contains(stream) ==> v.captured(stream) is None && v.begin_callback(
            stream,
            token,
        ) == v,
        v.streams.dom().contains(stream) ==> v.captured(stream) == Some(v.streams[stream]),
        v.begin_callback(stream, token).live == v.live,
        v.begin_callback(stream, token).streams == v.streams,
        v.begin_callback(stream, token).next == v.next,
        v.streams.dom().contains(stream) && v.streams[stream] == token ==> v.begin_callback(
            stream,
            token,
        ) == v,
{
}

} // verus!
