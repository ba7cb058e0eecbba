//! Lockstep interposer for the random-number source of a dual-hart machine.
//!
//! Hart 0 owns the real entropy source. Each batch of words that it delivers is
//! intercepted, shown to a lockstep hook that forwards it to hart 1, and passed
//! on to hart 0's own client. Hart 1 has no source: a request is only noted, and
//! answered when the forwarded batch arrives, with the same words that hart 0's
//! client received.
//!
//! The source, the client and the hook are held as opaque handles. A method
//! that would call one of them returns the handle together with what to pass, in
//! the order in which the calls are to be made.
use vstd::prelude::*;
use vstd::slice::slice_subrange;
use vstd::std_specs::iter::IteratorSpec;
use crate::bytes::read_le32;

verus! {

/// Size of the replay buffer in bytes.
pub const RNG_REPLAY_MAX: usize = 64;

/// Number of words that fit in one replay.
pub const RNG_REPLAY_WORDS: usize = 16;

/// Kernel error codes.
#[derive(Clone, Copy, PartialEq, Eq, Debug)]
pub enum ErrorCode {
    FAIL,
    BUSY,
    ALREADY,
    OFF,
    RESERVE,
    INVAL,
    SIZE,
    CANCEL,
    NOMEM,
    NOSUPPORT,
    NODEVICE,
    UNINSTALLED,
    NOACK,
}

/// A client's answer to a batch: whether it wants another one.
#[derive(Clone, Copy, PartialEq, Eq, Debug)]
pub enum Continue {
    More,
    Done,
}

/// Up to [`RNG_REPLAY_WORDS`] random words, in order.
#[derive(Clone, Copy, Debug)]
pub struct WordBatch {
    words: [u32; RNG_REPLAY_WORDS],
    len: usize,
}

impl View for WordBatch {
    type V = Seq<u32>;

    closed spec fn view(&self) -> Seq<u32> {
        self.words@.take(self.len as int)
    }
}

impl WordBatch {
    #[verifier::type_invariant]
    spec fn fits(self) -> bool {
        self.len <= RNG_REPLAY_WORDS
    }

    /// An empty batch.
    pub fn new() -> (batch: Self)
        ensures
            batch@ == Seq::<u32>::empty(),
    {
        let batch = WordBatch { words: [0u32; RNG_REPLAY_WORDS], len: 0 };
        assert(batch@ =~= Seq::<u32>::empty());
        batch
    }

    /// Number of words held.
    pub fn len(&self) -> (n: usize)
        ensures
            n == self@.len(),
            n <= RNG_REPLAY_WORDS,
    {
        proof {
            use_type_invariant(self);
        }
        self.len
    }

    /// The words as a slice.
    pub fn as_slice(&self) -> (words: &[u32])
        ensures
            words@ == self@,
    {
        proof {
            use_type_invariant(self);
        }
        slice_subrange(self.words.as_slice(), 0, self.len)
    }

    /// Appends a word.
    pub fn push(&mut self, word: u32)
        requires
            old(self)@.len() < RNG_REPLAY_WORDS,
        ensures
            final(self)@ == old(self)@.push(word),
    {
        proof {
            use_type_invariant(&*self);
        }
        let ghost before = self@;
        self.words[self.len] = word;
        self.len = self.len + 1;
        assert(self@ =~= before.push(word));
    }

    /// Takes words from `randomness` until the batch is full or the source has
    /// no more. A full batch leaves the rest of the source untouched.
    pub fn drain<I: Iterator<Item = u32>>(randomness: &mut I) -> (batch: Self)
        ensures
            batch@.len() <= RNG_REPLAY_WORDS,
            I::obeys_prophetic_iter_laws(old(randomness)) ==> {
                let offered = I::remaining(old(randomness));
                let n = if offered.len() < RNG_REPLAY_WORDS { offered.len() as int } else { RNG_REPLAY_WORDS as int };
                &&& batch@ == offered.take(n)
                &&& I::remaining(final(randomness)) == offered.skip(n)
            },
    {
        let mut batch = WordBatch::new();
        assert(I::remaining(old(randomness)).take(0) =~= Seq::<u32>::empty());
        assert(I::remaining(old(randomness)).skip(0) =~= I::remaining(old(randomness)));
        while batch.len() < RNG_REPLAY_WORDS
            invariant
                batch@.len() <= RNG_REPLAY_WORDS,
                I::obeys_prophetic_iter_laws(&*randomness) == I::obeys_prophetic_iter_laws(old(randomness)),
                I::obeys_prophetic_iter_laws(old(randomness)) ==> {
                    let offered = I::remaining(old(randomness));
                    &&& batch@.len() <= offered.len()
                    &&& batch@ == offered.take(batch@.len() as int)
                    &&& I::remaining(&*randomness) == offered.skip(batch@.len() as int)
                },
            decreases RNG_REPLAY_WORDS - batch@.len(),
        {
            match randomness.next() {
                Some(word) => {
                    batch.push(word);
                },
                None => {
                    return batch;
                },
            }
        }
        batch
    }
}

/// The first `4 * words.len()` bytes of `buf` are `words` in little-endian order.
pub open spec fn holds_words(buf: Seq<u8>, words: Seq<u32>) -> bool {
    forall|i: int, k: int|
        0 <= i < words.len() && 0 <= k < 4 ==> #[trigger] buf[4 * i + k] == crate::bytes::le_byte(words[i], k)
}

/// The words of a replay of `len` bytes out of `buf`: the complete little-endian
/// words among its first `len` bytes, or among all of it if `len` exceeds it.
pub open spec fn replay_words(buf: Seq<u8>, len: u8) -> Seq<u32> {
    let bytes = if len <= RNG_REPLAY_MAX { len as nat } else { RNG_REPLAY_MAX as nat };
    Seq::new(bytes / 4, |i: int| crate::bytes::le32(buf, 4 * i) as u32)
}

/// Hart 0's side of the replay, for a lockstep hook: writes `words` to the replay
/// buffer and returns the byte count to announce to hart 1. Bytes past that count
/// stay as they were.
pub fn write_replay(words: &[u32], buf: &mut [u8; RNG_REPLAY_MAX]) -> (len: u8)
    requires
        words@.len() <= RNG_REPLAY_WORDS,
    ensures
        len == 4 * words@.len(),
        holds_words(final(buf)@, words@),
        forall|j: int| len <= j < RNG_REPLAY_MAX ==> final(buf)@[j] == old(buf)@[j],
{
    let n: usize = words.len();
    let mut i: usize = 0;
    while i < n
        invariant
            i <= n <= RNG_REPLAY_WORDS,
            n == words@.len(),
            holds_words(buf@, words@.take(i as int)),
            forall|j: int| 4 * n <= j < RNG_REPLAY_MAX ==> buf@[j] == old(buf)@[j],
        decreases n - i,
    {
        let word: u32 = words[i];
        let ghost before = buf@;
        buf[4 * i] = (word % 0x100) as u8;
        buf[4 * i + 1] = (word / 0x100 % 0x100) as u8;
        buf[4 * i + 2] = (word / 0x1_0000 % 0x100) as u8;
        buf[4 * i + 3] = (word / 0x100_0000) as u8;
        assert forall|m: int, k: int| 0 <= m < i + 1 && 0 <= k < 4 implies #[trigger] buf@[4 * m + k]
            == crate::bytes::le_byte(words@.take(i + 1)[m], k) by {
            if m < i {
                assert(before[4 * m + k] == crate::bytes::le_byte(words@.take(i as int)[m], k));
            }
        }
        i += 1;
    }
    assert(words@.take(n as int) =~= words@);
    (4 * n) as u8
}

/// What a method of [`LockstepRng`] leaves to its caller: pass the request on to
/// the source with this handle and answer what it answers, or answer at once.
#[derive(PartialEq, Eq, Debug)]
pub enum Request<R> {
    Forward(R),
    Settled(Result<(), ErrorCode>),
}

/// A batch to hand to a client.
#[derive(Debug)]
pub struct Delivery<C> {
    pub client: C,
    pub words: WordBatch,
    pub error: Result<(), ErrorCode>,
}

/// What becomes of a batch forwarded to hart 1.
#[derive(Debug)]
pub enum Replay<C> {
    /// No request is outstanding: nobody is called.
    Discarded,
    /// A request was outstanding but nobody is registered to receive the words.
    NoClient,
    /// Hand the words to the client, and its answer to [`LockstepRng::replay_done`].
    Deliver(Delivery<C>),
}

/// What becomes of a batch from hart 0's source: `words` are for the hook, if
/// any, and `delivery` is for the client, if any. [`Interception::forward`] puts
/// the two in order.
#[derive(Debug)]
pub struct Interception<C, H> {
    pub words: WordBatch,
    pub hook: Option<H>,
    pub delivery: Option<Delivery<C>>,
}

/// How far an intercepted batch has been passed on.
#[derive(Debug)]
pub enum Forwarding<C, H> {
    /// Show `words` to the hook.
    Hook { hook: H, words: WordBatch, delivery: Option<Delivery<C>> },
    /// Hand the words to the client, and its answer to [`Forwarding::step`].
    Client(Delivery<C>),
    /// Everybody has been called: give the source this answer.
    Answered(Continue),
}

/// A call made for an intercepted batch, with what is passed.
pub enum RngCall<C, H> {
    Hook(H, Seq<u32>),
    Client(C, Seq<u32>, Result<(), ErrorCode>),
}

impl<C> Delivery<C> {
    /// The call that hands the batch over.
    pub open spec fn call<H>(self) -> RngCall<C, H> {
        RngCall::Client(self.client, self.words@, self.error)
    }
}

/// The answer to the source, given the client's if there is a client.
pub open spec fn answer_to_source(client_answer: Option<Continue>) -> Continue {
    match client_answer {
        Some(cont) => cont,
        None => Continue::Done,
    }
}

/// What the source is answered: what the client answered, and that no more is
/// wanted where there is no client.
pub fn source_answer(client_answer: Option<Continue>) -> (cont: Continue)
    ensures
        cont == answer_to_source(client_answer),
{
    match client_answer {
        Some(cont) => cont,
        None => Continue::Done,
    }
}

impl<C, H> Interception<C, H> {
    /// The calls to make, in order: the hook first, so that hart 1 is told of the
    /// words before hart 0's client takes any.
    pub open spec fn calls(self) -> Seq<RngCall<C, H>> {
        let hook: Seq<RngCall<C, H>> = match self.hook {
            Some(h) => seq![RngCall::Hook(h, self.words@)],
            None => seq![],
        };
        let client: Seq<RngCall<C, H>> = match self.delivery {
            Some(d) => seq![d.call()],
            None => seq![],
        };
        hook + client
    }

    /// The first thing to do.
    pub open spec fn first(self) -> Forwarding<C, H> {
        match self.hook {
            Some(hook) => Forwarding::Hook { hook, words: self.words, delivery: self.delivery },
            None => Forwarding::to_client(self.delivery),
        }
    }

    /// Starts passing the batch on.
    pub fn forward(self) -> (forwarding: Forwarding<C, H>)
        ensures
            forwarding == self.first(),
    {
        match self.hook {
            Some(hook) => Forwarding::Hook { hook, words: self.words, delivery: self.delivery },
            None => match self.delivery {
                Some(d) => Forwarding::Client(d),
                None => Forwarding::Answered(source_answer(None)),
            },
        }
    }
}

impl<C, H> Forwarding<C, H> {
    /// What follows the hook: the client's call, or the answer where there is none.
    pub open spec fn to_client(delivery: Option<Delivery<C>>) -> Forwarding<C, H> {
        match delivery {
            Some(d) => Forwarding::Client(d),
            None => Forwarding::Answered(answer_to_source(None)),
        }
    }

    /// What follows, where the call just made was answered `client_answer`.
    pub open spec fn next(self, client_answer: Option<Continue>) -> Forwarding<C, H> {
        match self {
            Forwarding::Hook { delivery, .. } => Forwarding::to_client(delivery),
            Forwarding::Client(_) => Forwarding::Answered(answer_to_source(client_answer)),
            Forwarding::Answered(_) => self,
        }
    }

    /// Goes on after a call. `client_answer` is the client's answer, if it was the
    /// client that was called.
    pub fn step(self, client_answer: Option<Continue>) -> (after: Self)
        ensures
            after == self.next(client_answer),
    {
        match self {
            Forwarding::Hook { delivery, .. } => match delivery {
                Some(d) => Forwarding::Client(d),
                None => Forwarding::Answered(source_answer(None)),
            },
            Forwarding::Client(_) => Forwarding::Answered(source_answer(client_answer)),
            Forwarding::Answered(cont) => Forwarding::Answered(cont),
        }
    }

    /// The calls still to make when the client will answer `cont`.
    pub open spec fn calls_made(self, cont: Continue) -> Seq<RngCall<C, H>>
        decreases (match self {
            Forwarding::Hook { .. } => 2int,
            Forwarding::Client(_) => 1,
            Forwarding::Answered(_) => 0,
        }),
    {
        match self {
            Forwarding::Hook { hook, words, .. } => {
                seq![RngCall::Hook(hook, words@)] + self.next(None).calls_made(cont)
            },
            Forwarding::Client(d) => seq![d.call()] + self.next(Some(cont)).calls_made(cont),
            Forwarding::Answered(_) => seq![],
        }
    }

    /// The answer that the source gets when the client will answer `cont`.
    pub open spec fn answer_given(self, cont: Continue) -> Continue
        decreases (match self {
            Forwarding::Hook { .. } => 2int,
            Forwarding::Client(_) => 1,
            Forwarding::Answered(_) => 0,
        }),
    {
        match self {
            Forwarding::Hook { .. } => self.next(None).answer_given(cont),
            Forwarding::Client(_) => self.next(Some(cont)).answer_given(cont),
            Forwarding::Answered(answer) => answer,
        }
    }
}

/// The state of a [`LockstepRng`].
pub struct RngState<R, C, H> {
    pub hart_id: u32,
    pub source: Option<R>,
    pub pending: bool,
    pub client: Option<C>,
    pub hooks: Option<H>,
}

/// Hart-aware random-number interposer: hart 0 wraps the real source, any other
/// hart is a software stand-in that replays what hart 0 received.
pub struct LockstepRng<R, C, H> {
    hart_id: u32,
    source: Option<R>,
    pending: bool,
    client: Option<C>,
    hooks: Option<H>,
}

impl<R, C, H> View for LockstepRng<R, C, H> {
    type V = RngState<R, C, H>;

    closed spec fn view(&self) -> RngState<R, C, H> {
        RngState {
            hart_id: self.hart_id,
            source: self.source,
            pending: self.pending,
            client: self.client,
            hooks: self.hooks,
        }
    }
}

impl<R, C, H> RngState<R, C, H> {
    /// The state after a request: a hart without a source notes it.
    pub open spec fn requested(self) -> Self {
        RngState { pending: self.pending || self.hart_id != 0, ..self }
    }

    /// The state after a cancellation: a hart without a source forgets its request.
    pub open spec fn cancelled(self) -> Self {
        RngState { pending: self.pending && self.hart_id == 0, ..self }
    }

    /// The answer to a request or cancellation: hart 0 leaves it to its source
    /// and fails without one; any other hart accepts.
    pub open spec fn answer(self) -> Request<R> {
        if self.hart_id != 0 {
            Request::Settled(Ok(()))
        } else {
            match self.source {
                Some(r) => Request::Forward(r),
                None => Request::Settled(Err(ErrorCode::FAIL)),
            }
        }
    }

    /// The calls that a batch `words` from hart 0's source leads to, in order: the
    /// hook sees every batch but an empty one, then the client receives the same
    /// words.
    pub open spec fn forwarded(self, words: Seq<u32>, error: Result<(), ErrorCode>) -> Seq<RngCall<C, H>> {
        let hook: Seq<RngCall<C, H>> = match self.hooks {
            Some(h) if words.len() > 0 => seq![RngCall::Hook(h, words)],
            _ => seq![],
        };
        let client: Seq<RngCall<C, H>> = match self.client {
            Some(c) => seq![RngCall::Client(c, words, error)],
            None => seq![],
        };
        hook + client
    }

    /// What hart 0's source is answered when the client, if any, answers `cont`.
    pub open spec fn answers_source(self, cont: Continue) -> Continue {
        answer_to_source(if self.client is Some { Some(cont) } else { None })
    }

    /// The state after a replay has been handed in, before any client answered.
    pub open spec fn replayed(self) -> Self {
        RngState { pending: self.pending && self.client is Some, ..self }
    }

    /// The state after the client answered `cont` to a replay.
    pub open spec fn answered(self, cont: Continue) -> Self {
        RngState { pending: self.pending && cont is More, ..self }
    }
}

impl<R: Copy, C: Copy, H: Copy> LockstepRng<R, C, H> {
    /// An interposer for hart `hart_id`, with its entropy source and hook if it
    /// has them. Nothing is pending and no client is registered.
    pub fn new(hart_id: u32, source: Option<R>, hooks: Option<H>) -> (rng: Self)
        ensures
            rng@ == (RngState { hart_id, source, pending: false, client: None::<C>, hooks }),
    {
        LockstepRng { hart_id, source, pending: false, client: None, hooks }
    }

    /// Asks for random words.
    pub fn get(&mut self) -> (request: Request<R>)
        ensures
            request == old(self)@.answer(),
            final(self)@ == old(self)@.requested(),
    {
        if self.hart_id == 0 {
            match self.source {
                Some(r) => Request::Forward(r),
                None => Request::Settled(Err(ErrorCode::FAIL)),
            }
        } else {
            self.pending = true;
            Request::Settled(Ok(()))
        }
    }

    /// Gives up an outstanding request.
    pub fn cancel(&mut self) -> (request: Request<R>)
        ensures
            request == old(self)@.answer(),
            final(self)@ == old(self)@.cancelled(),
    {
        if self.hart_id == 0 {
            match self.source {
                Some(r) => Request::Forward(r),
                None => Request::Settled(Err(ErrorCode::FAIL)),
            }
        } else {
            self.pending = false;
            Request::Settled(Ok(()))
        }
    }

    /// Registers the downstream client. Returns the source, if any, with which
    /// the interposer must register itself in turn.
    pub fn set_client(&mut self, client: C) -> (register_with: Option<R>)
        ensures
            register_with == (if old(self)@.hart_id == 0 { old(self)@.source } else { None::<R> }),
            final(self)@ == (RngState { client: Some(client), ..old(self)@ }),
    {
        self.client = Some(client);
        if self.hart_id == 0 {
            self.source
        } else {
            None
        }
    }

    /// Decides what becomes of a batch of words from hart 0's source. The hook
    /// sees every batch but an empty one.
    pub fn intercept(&self, words: WordBatch, error: Result<(), ErrorCode>) -> (out: Interception<C, H>)
        ensures
            out.words@ == words@,
            out.hook == (if words@.len() > 0 { self@.hooks } else { None::<H> }),
            match out.delivery {
                Some(d) => self@.client == Some(d.client) && d.words@ == words@ && d.error == error,
                None => self@.client is None,
            },
            out.calls() == self@.forwarded(words@, error),
            forall|cont: Continue| #[trigger] out.first().calls_made(cont) == self@.forwarded(words@, error),
            forall|cont: Continue| #[trigger] out.first().answer_given(cont) == self@.answers_source(cont),
    {
        let hook = if words.len() > 0 { self.hooks } else { None };
        let delivery = match self.client {
            Some(client) => Some(Delivery { client, words, error }),
            None => None,
        };
        let out = Interception { words, hook, delivery };
        proof {
            assert(out.calls() =~= self@.forwarded(words@, error));
            assert forall|cont: Continue| #[trigger] out.first().calls_made(cont) == self@.forwarded(words@, error) by {
                law_hook_is_called_before_client(out, cont);
            }
            assert forall|cont: Continue| #[trigger] out.first().answer_given(cont) == self@.answers_source(cont) by {
                law_hook_is_called_before_client(out, cont);
            }
        }
        out
    }

    /// Handles a delivery from hart 0's source: captures the words it offers, up
    /// to the size of a replay, and decides what becomes of them.
    pub fn randomness_available<I: Iterator<Item = u32>>(
        &self,
        randomness: &mut I,
        error: Result<(), ErrorCode>,
    ) -> (out: Interception<C, H>)
        ensures
            out.words@.len() <= RNG_REPLAY_WORDS,
            I::obeys_prophetic_iter_laws(old(randomness)) ==> {
                let offered = I::remaining(old(randomness));
                let n = if offered.len() < RNG_REPLAY_WORDS { offered.len() as int } else { RNG_REPLAY_WORDS as int };
                &&& out.words@ == offered.take(n)
                &&& I::remaining(final(randomness)) == offered.skip(n)
            },
            out.hook == (if out.words@.len() > 0 { self@.hooks } else { None::<H> }),
            match out.delivery {
                Some(d) => self@.client == Some(d.client) && d.words@ == out.words@ && d.error == error,
                None => self@.client is None,
            },
            out.calls() == self@.forwarded(out.words@, error),
            forall|cont: Continue| #[trigger] out.first().calls_made(cont) == self@.forwarded(out.words@, error),
            forall|cont: Continue| #[trigger] out.first().answer_given(cont) == self@.answers_source(cont),
    {
        self.intercept(WordBatch::drain(randomness), error)
    }

    /// Hands in a batch of `len` bytes forwarded from hart 0 through `buf`.
    ///
    /// The batch is dropped unless a request is outstanding, so that a client
    /// that cancelled is not called.
    pub fn replay(&mut self, len: u8, buf: &[u8; RNG_REPLAY_MAX]) -> (outcome: Replay<C>)
        ensures
            match outcome {
                Replay::Discarded => !old(self)@.pending,
                Replay::NoClient => old(self)@.pending && old(self)@.client is None,
                Replay::Deliver(d) => {
                    &&& old(self)@.pending
                    &&& old(self)@.client == Some(d.client)
                    &&& d.words@ == replay_words(buf@, len)
                    &&& d.error == Ok::<(), ErrorCode>(())
                },
            },
            final(self)@ == old(self)@.replayed(),
    {
        if !self.pending {
            return Replay::Discarded;
        }
        let bytes: usize = if len as usize <= RNG_REPLAY_MAX { len as usize } else { RNG_REPLAY_MAX };
        match self.client {
            Some(client) => {
                let mut words = WordBatch::new();
                let mut at: usize = 0;
                while bytes - at >= 4
                    invariant
                        at <= bytes <= RNG_REPLAY_MAX,
                        bytes == (if len <= RNG_REPLAY_MAX { len as int } else { RNG_REPLAY_MAX as int }),
                        at == 4 * words@.len(),
                        words@ =~= replay_words(buf@, len).take(words@.len() as int),
                    decreases bytes - at,
                {
                    words.push(read_le32(buf.as_slice(), at));
                    at += 4;
                }
                assert(words@ =~= replay_words(buf@, len));
                Replay::Deliver(Delivery { client, words, error: Ok(()) })
            },
            None => {
                self.pending = false;
                Replay::NoClient
            },
        }
    }

    /// Takes the client's answer to a replayed batch. The request stays
    /// outstanding only if the client wants more.
    pub fn replay_done(&mut self, cont: Continue)
        ensures
            final(self)@ == old(self)@.answered(cont),
    {
        if let Continue::Done = cont {
            self.pending = false;
        }
    }
}

/// Hands a batch forwarded from hart 0 to hart 1's interposer, if that has been
/// set up yet. A batch that comes before is dropped.
pub fn replay_rng_done_for_hart1<R: Copy, C: Copy, H: Copy>(
    hart1: &mut Option<LockstepRng<R, C, H>>,
    len: u8,
    buf: &[u8; RNG_REPLAY_MAX],
) -> (outcome: Replay<C>)
    ensures
        match (*old(hart1), *final(hart1)) {
            (None, None) => outcome is Discarded,
            (Some(before), Some(after)) => {
                &&& match outcome {
                    Replay::Discarded => !before@.pending,
                    Replay::NoClient => before@.pending && before@.client is None,
                    Replay::Deliver(d) => {
                        &&& before@.pending
                        &&& before@.client == Some(d.client)
                        &&& d.words@ == replay_words(buf@, len)
                        &&& d.error == Ok::<(), ErrorCode>(())
                    },
                }
                &&& after@ == before@.replayed()
            },
            _ => false,
        },
{
    match hart1 {
        Some(rng) => rng.replay(len, buf),
        None => Replay::Discarded,
    }
}

/// The two harts' clients receive the same words: what hart 0 captured and wrote
/// to the replay buffer is what a replay of the announced length delivers.
pub proof fn law_both_harts_receive_the_same_words(words: Seq<u32>, buf: Seq<u8>, len: u8)
    requires
        words.len() <= RNG_REPLAY_WORDS,
        holds_words(buf, words),
        len == 4 * words.len(),
    ensures
        replay_words(buf, len) == words,
{
    assert forall|i: int| 0 <= i < words.len() implies replay_words(buf, len)[i] == words[i] by {
        assert(buf[4 * i + 0] == crate::bytes::le_byte(words[i], 0));
        assert(buf[4 * i + 1] == crate::bytes::le_byte(words[i], 1));
        assert(buf[4 * i + 2] == crate::bytes::le_byte(words[i], 2));
        assert(buf[4 * i + 3] == crate::bytes::le_byte(words[i], 3));
        crate::bytes::lemma_le32_of_le_bytes(words[i], buf, 4 * i);
    }
    assert(replay_words(buf, len) =~= words);
}

/// Passing a batch on makes the hook's call before the client's, each with all of
/// the words, and gives the source the client's answer, or that no more is wanted
/// where there is no client.
pub proof fn law_hook_is_called_before_client<C, H>(out: Interception<C, H>, cont: Continue)
    ensures
        out.first().calls_made(cont) == out.calls(),
        out.first().answer_given(cont) == answer_to_source(if out.delivery is Some { Some(cont) } else { None }),
{
    reveal_with_fuel(Forwarding::calls_made, 3);
    reveal_with_fuel(Forwarding::answer_given, 3);
    assert(out.first().calls_made(cont) =~= out.calls());
}

/// An announced length counts for its complete words only, and never for more
/// than the buffer holds.
pub proof fn law_replay_counts_complete_words(buf: Seq<u8>, len: u8)
    ensures
        len <= RNG_REPLAY_MAX ==> replay_words(buf, len) == replay_words(buf, (len - len % 4) as u8),
        len > RNG_REPLAY_MAX ==> replay_words(buf, len) == replay_words(buf, RNG_REPLAY_MAX as u8),
        replay_words(buf, len).len() <= RNG_REPLAY_WORDS,
{
    if len <= RNG_REPLAY_MAX {
        assert(replay_words(buf, len) =~= replay_words(buf, (len - len % 4) as u8));
    }
}

/// Cancelling undoes a request: whatever was requested before, a replay that
/// arrives after the cancellation finds nothing outstanding.
pub proof fn law_cancel_undoes_request<R, C, H>(state: RngState<R, C, H>)
    requires
        state.hart_id != 0,
    ensures
        state.requested().cancelled() == state.cancelled(),
        !state.requested().cancelled().pending,
{
}

/// A request on a hart without a source stays outstanding through every replay
/// whose client asks for more, and ends with the first whose client is done.
pub proof fn law_request_lasts_until_done<R, C, H>(state: RngState<R, C, H>)
    requires
        state.hart_id != 0,
        state.client is Some,
    ensures
        state.requested().pending,
        state.requested().replayed().answered(Continue::More) == state.requested(),
        !state.requested().replayed().answered(Continue::Done).pending,
{
}

impl<R, C, H> RngState<R, C, H> {
    /// For a run of replays, the client's answer to each of which would be the
    /// corresponding one of `answers`: whether each is delivered.
    pub open spec fn deliveries(self, answers: Seq<Continue>) -> Seq<bool>
        decreases answers.len(),
    {
        if answers.len() == 0 {
            Seq::empty()
        } else if self.pending && self.client is Some {
            seq![true] + self.replayed().answered(answers[0]).deliveries(answers.drop_first())
        } else {
            seq![false] + self.replayed().deliveries(answers.drop_first())
        }
    }
}

/// After one request, a run of replays is delivered up to and with the first to
/// which the client answers that it is done, and no further.
pub proof fn law_replays_stop_after_done<R, C, H>(state: RngState<R, C, H>, answers: Seq<Continue>, last: int)
    requires
        state.hart_id != 0,
        state.client is Some,
        0 <= last < answers.len(),
        answers[last] is Done,
        forall|i: int| 0 <= i < last ==> answers[i] is More,
    ensures
        state.requested().deliveries(answers) == Seq::new(answers.len(), |i: int| i <= last),
    decreases answers.len(),
{
    let rest = answers.drop_first();
    let next = state.requested().replayed().answered(answers[0]);
    if last == 0 {
        lemma_idle_delivers_nothing(next, rest);
    } else {
        law_request_lasts_until_done(state);
        assert(next == state.requested());
        law_replays_stop_after_done(state, rest, last - 1);
    }
    assert(state.requested().deliveries(answers) =~= Seq::new(answers.len(), |i: int| i <= last));
}

/// With no request outstanding, no replay is delivered.
proof fn lemma_idle_delivers_nothing<R, C, H>(state: RngState<R, C, H>, answers: Seq<Continue>)
    requires
        !state.pending,
    ensures
        state.deliveries(answers) == Seq::new(answers.len(), |i: int| false),
    decreases answers.len(),
{
    if answers.len() > 0 {
        lemma_idle_delivers_nothing(state.replayed(), answers.drop_first());
    }
    assert(state.deliveries(answers) =~= Seq::new(answers.len(), |i: int| false));
}

/// Hart 0 never has a replay outstanding: requests, cancellations and replays
/// leave its state as it is, and an answer cannot make it pending.
pub proof fn law_hart0_is_never_pending<R, C, H>(state: RngState<R, C, H>, cont: Continue)
    requires
        state.hart_id == 0,
        !state.pending,
    ensures
        state.requested() == state,
        state.cancelled() == state,
        state.replayed() == state,
        state.answered(cont) == state,
{
}

/// The interposer is registered with the same source, client and hook, on the same
/// hart, in both states.
pub open spec fn same_registrations<R, C, H>(a: RngState<R, C, H>, b: RngState<R, C, H>) -> bool {
    &&& a.hart_id == b.hart_id
    &&& a.source == b.source
    &&& a.client == b.client
    &&& a.hooks == b.hooks
}

/// A request on hart 0 is passed on to exactly its source, or fails for want of one,
/// whatever client and hook are registered and whatever is outstanding; on any other
/// hart it is accepted and is then outstanding. Nothing else changes.
pub proof fn law_get_reaches_the_source<R: Copy, C: Copy, H: Copy>(rng: &mut LockstepRng<R, C, H>, request: Request<R>)
    requires
        call_ensures(LockstepRng::<R, C, H>::get, (rng,), request),
    ensures
        forall|r: R| old(rng)@.hart_id == 0 && old(rng)@.source == Some(r) ==> request == Request::Forward(r),
        old(rng)@.hart_id == 0 && old(rng)@.source is None ==> request == Request::<R>::Settled(Err(ErrorCode::FAIL)),
        old(rng)@.hart_id != 0 ==> request == Request::<R>::Settled(Ok(())),
        old(rng)@.hart_id != 0 ==> final(rng)@.pending,
        old(rng)@.hart_id == 0 ==> final(rng)@.pending == old(rng)@.pending,
        same_registrations(final(rng)@, old(rng)@),
{
}

/// A cancellation on hart 0 is passed on to exactly its source, or fails for want of
/// one, whatever client and hook are registered and whatever is outstanding; on any
/// other hart it is accepted and nothing is then outstanding. Nothing else changes.
pub proof fn law_cancel_reaches_the_source<R: Copy, C: Copy, H: Copy>(
    rng: &mut LockstepRng<R, C, H>,
    request: Request<R>,
)
    requires
        call_ensures(LockstepRng::<R, C, H>::cancel, (rng,), request),
    ensures
        forall|r: R| old(rng)@.hart_id == 0 && old(rng)@.source == Some(r) ==> request == Request::Forward(r),
        old(rng)@.hart_id == 0 && old(rng)@.source is None ==> request == Request::<R>::Settled(Err(ErrorCode::FAIL)),
        old(rng)@.hart_id != 0 ==> request == Request::<R>::Settled(Ok(())),
        old(rng)@.hart_id != 0 ==> !final(rng)@.pending,
        old(rng)@.hart_id == 0 ==> final(rng)@.pending == old(rng)@.pending,
        same_registrations(final(rng)@, old(rng)@),
{
}

/// A new interposer holds what it was made with, has no client and nothing
/// outstanding; registering a client changes the client alone, and makes hart 0, and
/// no other hart, register with its source.
pub proof fn law_registration<R: Copy, C: Copy, H: Copy>(
    hart_id: u32,
    source: Option<R>,
    hooks: Option<H>,
    fresh: LockstepRng<R, C, H>,
    rng: &mut LockstepRng<R, C, H>,
    client: C,
    register_with: Option<R>,
)
    requires
        call_ensures(LockstepRng::<R, C, H>::new, (hart_id, source, hooks), fresh),
        call_ensures(LockstepRng::<R, C, H>::set_client, (rng, client), register_with),
    ensures
        fresh@.hart_id == hart_id,
        fresh@.source == source,
        fresh@.hooks == hooks,
        fresh@.client is None,
        !fresh@.pending,
        final(rng)@.client == Some(client),
        final(rng)@.hart_id == old(rng)@.hart_id,
        final(rng)@.source == old(rng)@.source,
        final(rng)@.hooks == old(rng)@.hooks,
        final(rng)@.pending == old(rng)@.pending,
        old(rng)@.hart_id == 0 ==> register_with == old(rng)@.source,
        old(rng)@.hart_id != 0 ==> register_with is None,
{
}

/// A replay is delivered if and only if a request is outstanding and a client is
/// registered, and then to that client, without an error: the complete words among
/// the announced bytes, of which no more than 64 count, each with the lowest byte
/// first. The request stays outstanding until the client answers, and the
/// registrations stay as they are.
pub proof fn law_replay_delivers_the_announced_words<R: Copy, C: Copy, H: Copy>(
    rng: &mut LockstepRng<R, C, H>,
    len: u8,
    buf: [u8; RNG_REPLAY_MAX],
    outcome: Replay<C>,
)
    requires
        call_ensures(LockstepRng::<R, C, H>::replay, (rng, len, &buf), outcome),
    ensures
        outcome is Deliver <==> old(rng)@.pending && old(rng)@.client is Some,
        outcome is NoClient <==> old(rng)@.pending && old(rng)@.client is None,
        outcome is Discarded <==> !old(rng)@.pending,
        final(rng)@.pending <==> outcome is Deliver,
        same_registrations(final(rng)@, old(rng)@),
        outcome matches Replay::Deliver(d) ==> {
            &&& old(rng)@.client == Some(d.client)
            &&& d.error is Ok
            &&& d.words@.len() == (if len < 64 { len as int / 4 } else { 16 })
            &&& forall|i: int|
                0 <= i < d.words@.len() ==> {
                    let word = #[trigger] d.words@[i] as int;
                    &&& word % 0x100 == buf@[4 * i]
                    &&& word / 0x100 % 0x100 == buf@[4 * i + 1]
                    &&& word / 0x1_0000 % 0x100 == buf@[4 * i + 2]
                    &&& word / 0x100_0000 == buf@[4 * i + 3]
                }
        },
{
    if let Replay::Deliver(d) = outcome {
        assert forall|i: int| 0 <= i < d.words@.len() implies {
            let word = #[trigger] d.words@[i] as int;
            &&& word % 0x100 == buf@[4 * i]
            &&& word / 0x100 % 0x100 == buf@[4 * i + 1]
            &&& word / 0x1_0000 % 0x100 == buf@[4 * i + 2]
            &&& word / 0x100_0000 == buf@[4 * i + 3]
        } by {
            assert(crate::bytes::le32(buf@, 4 * i) <= u32::MAX);
            assert(d.words@[i] == crate::bytes::le32(buf@, 4 * i));
        }
    }
}

/// The client's answer ends an outstanding request if and only if the client is
/// done, starts none, and leaves the registrations as they are.
pub proof fn law_answer_ends_the_request_only<R: Copy, C: Copy, H: Copy>(
    rng: &mut LockstepRng<R, C, H>,
    cont: Continue,
)
    requires
        call_ensures(LockstepRng::<R, C, H>::replay_done, (rng, cont), ()),
    ensures
        cont is More ==> final(rng)@.pending == old(rng)@.pending,
        cont is Done ==> !final(rng)@.pending,
        same_registrations(final(rng)@, old(rng)@),
{
}

/// After any answer of its client, a hart without a source that is asked again
/// delivers the next replay to the same client.
pub proof fn law_later_requests_are_answered_too<R: Copy, C: Copy, H: Copy>(
    answered: &mut LockstepRng<R, C, H>,
    asked: &mut LockstepRng<R, C, H>,
    replayed: &mut LockstepRng<R, C, H>,
    client: C,
    cont: Continue,
    request: Request<R>,
    len: u8,
    buf: [u8; RNG_REPLAY_MAX],
    outcome: Replay<C>,
)
    requires
        old(answered)@.hart_id != 0,
        old(answered)@.client == Some(client),
        call_ensures(LockstepRng::<R, C, H>::replay_done, (answered, cont), ()),
        *old(asked) == *final(answered),
        call_ensures(LockstepRng::<R, C, H>::get, (asked,), request),
        *old(replayed) == *final(asked),
        call_ensures(LockstepRng::<R, C, H>::replay, (replayed, len, &buf), outcome),
    ensures
        outcome matches Replay::Deliver(d) && d.client == client,
{
}

/// Something that happens to an interposer.
pub enum RngEvent<C> {
    Get,
    Cancel,
    SetClient(C),
    Replay,
    Answer(Continue),
}

impl<R, C, H> RngState<R, C, H> {
    /// The state after `events` in order.
    pub open spec fn after_events(self, events: Seq<RngEvent<C>>) -> Self
        decreases events.len(),
    {
        if events.len() == 0 {
            self
        } else {
            let before = self.after_events(events.drop_last());
            match events.last() {
                RngEvent::Get => before.requested(),
                RngEvent::Cancel => before.cancelled(),
                RngEvent::SetClient(client) => RngState { client: Some(client), ..before },
                RngEvent::Replay => before.replayed(),
                RngEvent::Answer(cont) => before.answered(cont),
            }
        }
    }
}

/// `client` is the client that was registered last in `events`, or `before` if none
/// was.
pub open spec fn is_last_client<C>(events: Seq<RngEvent<C>>, before: Option<C>, client: Option<C>) -> bool {
    ||| exists|i: int|
        0 <= i < events.len() && Some((#[trigger] events[i])->SetClient_0) == client && events[i] is SetClient && (
        forall|j: int| i < j < events.len() ==> !(#[trigger] events[j] is SetClient))
    ||| client == before && forall|j: int| 0 <= j < events.len() ==> !(#[trigger] events[j] is SetClient)
}

/// Requests, cancellations, replays and answers never change what is registered: in
/// every state the source, the hook and the hart are those of the beginning and the
/// client is the one registered last. Hence a hart without a source that has a
/// client and is asked again has a request outstanding that the next replay
/// delivers to that client.
pub proof fn law_registrations_last<R, C, H>(state: RngState<R, C, H>, events: Seq<RngEvent<C>>)
    ensures
        state.after_events(events).hart_id == state.hart_id,
        state.after_events(events).source == state.source,
        state.after_events(events).hooks == state.hooks,
        is_last_client(events, state.client, state.after_events(events).client),
        state.hart_id != 0 ==> state.after_events(events).requested().pending,
    decreases events.len(),
{
    if events.len() > 0 {
        let rest = events.drop_last();
        law_registrations_last(state, rest);
        let before = state.after_events(rest);
        let n = rest.len() as int;
        if events.last() is SetClient {
            assert(events[n] is SetClient);
            assert(Some(events[n]->SetClient_0) == state.after_events(events).client);
        } else {
            assert(state.after_events(events).client == before.client);
            assert(!(events[n] is SetClient));
            if exists|i: int|
                0 <= i < rest.len() && Some((#[trigger] rest[i])->SetClient_0) == before.client && rest[i] is SetClient
                    && (forall|j: int| i < j < rest.len() ==> !(#[trigger] rest[j] is SetClient)) {
                let i = choose|i: int|
                    0 <= i < rest.len() && Some((#[trigger] rest[i])->SetClient_0) == before.client
                        && rest[i] is SetClient && (forall|j: int|
                        i < j < rest.len() ==> !(#[trigger] rest[j] is SetClient));
                assert(events[i] == rest[i]);
                assert forall|j: int| i < j < events.len() implies !(#[trigger] events[j] is SetClient) by {
                    if j < n {
                        assert(rest[j] == events[j]);
                    }
                }
            } else {
                assert forall|j: int| 0 <= j < events.len() implies !(#[trigger] events[j] is SetClient) by {
                    if j < n {
                        assert(rest[j] == events[j]);
                    }
                }
            }
        }
    }
}

/// A batch gives back, in order, exactly the words that were put into it.
pub proof fn law_batch_holds_what_was_pushed<'a>(
    empty: WordBatch,
    none: &'a [u32],
    batch: &mut WordBatch,
    before: &'a [u32],
    word: u32,
    after: &'a [u32],
    n: usize,
)
    requires
        call_ensures(WordBatch::new, (), empty),
        call_ensures(WordBatch::as_slice, (&empty,), none),
        call_ensures(WordBatch::as_slice, (&*old(batch),), before),
        call_ensures(WordBatch::push, (batch, word), ()),
        call_ensures(WordBatch::as_slice, (&*final(batch),), after),
        call_ensures(WordBatch::len, (&*final(batch),), n),
    ensures
        none@.len() == 0,
        after@.len() == before@.len() + 1,
        after@[before@.len() as int] == word,
        forall|i: int| 0 <= i < before@.len() ==> after@[i] == before@[i],
        n == after@.len(),
{
}

/// Words that hart 0 writes to the replay buffer lie there with the lowest byte
/// first, the rest of the buffer stays as it was, and hart 1's client is given back
/// exactly those words, however many there are.
pub proof fn law_replay_gives_back_what_was_written<R: Copy, C: Copy, H: Copy>(
    words: &[u32],
    buf: &mut [u8; RNG_REPLAY_MAX],
    len: u8,
    rng: &mut LockstepRng<R, C, H>,
    outcome: Replay<C>,
)
    requires
        words@.len() <= 16,
        call_ensures(write_replay, (words, buf), len),
        call_ensures(LockstepRng::<R, C, H>::replay, (rng, len, &*final(buf)), outcome),
    ensures
        len == 4 * words@.len(),
        forall|i: int|
            0 <= i < words@.len() ==> {
                let word = #[trigger] words@[i] as int;
                &&& final(buf)@[4 * i] == word % 0x100
                &&& final(buf)@[4 * i + 1] == word / 0x100 % 0x100
                &&& final(buf)@[4 * i + 2] == word / 0x1_0000 % 0x100
                &&& final(buf)@[4 * i + 3] == word / 0x100_0000
            },
        forall|j: int| 4 * words@.len() <= j < 64 ==> #[trigger] final(buf)@[j] == old(buf)@[j],
        outcome matches Replay::Deliver(d) ==> d.words@ == words@,
{
    assert forall|i: int| 0 <= i < words@.len() implies {
        let word = #[trigger] words@[i] as int;
        &&& final(buf)@[4 * i] == word % 0x100
        &&& final(buf)@[4 * i + 1] == word / 0x100 % 0x100
        &&& final(buf)@[4 * i + 2] == word / 0x1_0000 % 0x100
        &&& final(buf)@[4 * i + 3] == word / 0x100_0000
    } by {
        assert(final(buf)@[4 * i + 0] == crate::bytes::le_byte(words@[i], 0));
        assert(final(buf)@[4 * i + 1] == crate::bytes::le_byte(words@[i], 1));
        assert(final(buf)@[4 * i + 2] == crate::bytes::le_byte(words@[i], 2));
        assert(final(buf)@[4 * i + 3] == crate::bytes::le_byte(words@[i], 3));
    }
    law_both_harts_receive_the_same_words(words@, final(buf)@, len);
}

/// An intercepted batch is shown to the hook, if there is one and the batch is not
/// empty, and is then handed to the client, if there is one, with the same words and
/// the error that came with it; the source is answered what the client answered, or
/// that no more is wanted if there is no client.
pub proof fn law_interception_calls_hook_then_client<R: Copy, C: Copy, H: Copy>(
    rng: LockstepRng<R, C, H>,
    words: WordBatch,
    error: Result<(), ErrorCode>,
    out: Interception<C, H>,
    first: Forwarding<C, H>,
    cont: Continue,
    after_hook: Forwarding<C, H>,
    after_client: Forwarding<C, H>,
)
    requires
        call_ensures(LockstepRng::<R, C, H>::intercept, (&rng, words, error), out),
        call_ensures(Interception::<C, H>::forward, (out,), first),
        first is Hook ==> call_ensures(Forwarding::<C, H>::step, (first, None::<Continue>), after_hook),
        !(first is Hook) ==> after_hook == first,
        call_ensures(Forwarding::<C, H>::step, (after_hook, Some(cont)), after_client),
    ensures
        first is Hook <==> words@.len() > 0 && rng@.hooks is Some,
        first matches Forwarding::Hook { hook, words: w, .. } ==> rng@.hooks == Some(hook) && w@ == words@,
        after_hook is Client <==> rng@.client is Some,
        after_hook matches Forwarding::Client(d) ==> rng@.client == Some(d.client) && d.words@ == words@ && d.error
            == error,
        rng@.client is Some ==> after_client == Forwarding::<C, H>::Answered(cont),
        rng@.client is None ==> after_hook == Forwarding::<C, H>::Answered(Continue::Done) && after_client
            == Forwarding::<C, H>::Answered(Continue::Done),
{
}

/// The calls for an intercepted batch, seen from the outside: at most one to the
/// hook, which comes first, and one to the client, which comes last.
pub proof fn law_forwarded_calls<R, C, H>(state: RngState<R, C, H>, words: Seq<u32>, error: Result<(), ErrorCode>)
    ensures
        ({
            let calls = state.forwarded(words, error);
            let hooked: int = if state.hooks is Some && words.len() > 0 { 1 } else { 0 };
            let served: int = if state.client is Some { 1 } else { 0 };
            &&& calls.len() == hooked + served
            &&& hooked == 1 ==> calls[0] == RngCall::<C, H>::Hook(state.hooks->0, words)
            &&& served == 1 ==> calls.last() == RngCall::<C, H>::Client(state.client->0, words, error)
        }),
        forall|cont: Continue| state.client is Some ==> #[trigger] state.answers_source(cont) == cont,
        forall|cont: Continue| state.client is None ==> #[trigger] state.answers_source(cont) == Continue::Done,
{
}

/// The answer to the source is the client's, and that no more is wanted without one.
pub proof fn law_source_gets_the_clients_answer(cont: Continue, with_client: Continue, without: Continue)
    requires
        call_ensures(source_answer, (Some(cont),), with_client),
        call_ensures(source_answer, (None::<Continue>,), without),
    ensures
        with_client == cont,
        without == Continue::Done,
{
}

/// Before hart 1 is set up a batch is dropped and nothing is set up by it;
/// afterwards it is delivered if and only if hart 1 has a request outstanding and a
/// client, and then to that client with the words that a replay delivers.
pub proof fn law_hart1_replay<R: Copy, C: Copy, H: Copy>(
    hart1: &mut Option<LockstepRng<R, C, H>>,
    rng: &mut LockstepRng<R, C, H>,
    len: u8,
    buf: [u8; RNG_REPLAY_MAX],
    outcome: Replay<C>,
    direct: Replay<C>,
)
    requires
        call_ensures(replay_rng_done_for_hart1::<R, C, H>, (hart1, len, &buf), outcome),
        *old(hart1) is Some ==> *old(rng) == (*old(hart1))->0,
        call_ensures(LockstepRng::<R, C, H>::replay, (rng, len, &buf), direct),
    ensures
        *old(hart1) is None ==> outcome is Discarded && *final(hart1) is None,
        *old(hart1) is Some ==> {
            &&& *final(hart1) is Some
            &&& (*final(hart1))->0@ == final(rng)@
            &&& outcome is Discarded <==> direct is Discarded
            &&& outcome is NoClient <==> direct is NoClient
            &&& outcome matches Replay::Deliver(d) ==> direct matches Replay::Deliver(e) && d.client == e.client
                && d.words@ == e.words@ && d.error == e.error
        },
{
}

/// From what a source offers, the words come out in order and none twice: a batch is
/// the first sixteen words, or all if there are fewer, and the source keeps the rest.
/// The client on hart 0 and the hook are given that same batch.
pub proof fn law_batch_is_what_the_source_offered<R: Copy, C: Copy, H: Copy, I: Iterator<Item = u32>>(
    rng: LockstepRng<R, C, H>,
    randomness: &mut I,
    error: Result<(), ErrorCode>,
    out: Interception<C, H>,
)
    requires
        I::obeys_prophetic_iter_laws(old(randomness)),
        call_ensures(LockstepRng::<R, C, H>::randomness_available::<I>, (&rng, randomness, error), out),
    ensures
        out.words@.len() <= 16,
        out.words@ + I::remaining(final(randomness)) == I::remaining(old(randomness)),
        out.words@.len() < 16 ==> I::remaining(final(randomness)).len() == 0,
        out.hook is Some <==> out.words@.len() > 0 && rng@.hooks is Some,
        out.hook is Some ==> out.hook == rng@.hooks,
        out.delivery is Some <==> rng@.client is Some,
        out.delivery matches Some(d) ==> rng@.client == Some(d.client) && d.words@ == out.words@ && d.error == error,
{
    let offered = I::remaining(old(randomness));
    let n = out.words@.len() as int;
    assert(offered.take(n) + offered.skip(n) =~= offered);
}

/// Draining a source takes its first sixteen words, or all if there are fewer, and
/// leaves the rest to it.
pub proof fn law_drain_takes_the_first_words<I: Iterator<Item = u32>>(randomness: &mut I, batch: WordBatch)
    requires
        I::obeys_prophetic_iter_laws(old(randomness)),
        call_ensures(WordBatch::drain::<I>, (randomness,), batch),
    ensures
        batch@.len() <= 16,
        batch@ + I::remaining(final(randomness)) == I::remaining(old(randomness)),
        batch@.len() < 16 ==> I::remaining(final(randomness)).len() == 0,
{
    let offered = I::remaining(old(randomness));
    let n = batch@.len() as int;
    assert(offered.take(n) + offered.skip(n) =~= offered);
}

} // verus!
