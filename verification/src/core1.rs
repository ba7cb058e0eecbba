//! Core 1: its entry sequence, its steady-state loop, and the loop in which it
//! waits in RAM while core 0 has flash turned off.
use vstd::prelude::*;
use crate::shared::{KernelRound, Reply, HANDSHAKE_FINGERPRINT, STAGE_RUNNING};

verus! {

/// Number of words in core 1's scratch buffer. A power of two, so that an index
/// is reduced by masking alone: the wait loop has no bounds check that could
/// branch into flash-resident code.
pub const CORE1_PARK_BUF_LEN: usize = 64;

/// Where the wait loop stands.
#[derive(Clone, Copy, PartialEq, Eq, Debug)]
pub enum ParkPhase {
    /// Entered, not yet announced.
    Announce,
    /// About to look whether core 0 still wants core 1 parked.
    Poll,
    /// About to write one word to the scratch buffer.
    Write,
    /// Released, about to withdraw the announcement.
    Withdraw,
    /// About to return.
    Left,
}

/// The wait loop of core 1. `i` counts the words written, modulo 2^32.
#[derive(Clone, Copy, PartialEq, Eq, Debug)]
pub struct ParkLoop {
    pub phase: ParkPhase,
    pub i: u32,
}

/// An action of the wait loop.
#[derive(Clone, Copy, PartialEq, Eq, Debug)]
pub enum ParkAction {
    /// Set or clear the acknowledgement.
    StoreAck(bool),
    /// Read the park request.
    LoadRequest,
    /// Write `value` to word `index` of the scratch buffer, then hint a spin.
    WriteBuffer { index: usize, value: u32 },
    /// Return to the steady-state loop.
    Return,
}

impl ParkLoop {
    /// `reply` is of the kind that the current action yields.
    pub open spec fn awaits(self, reply: Reply) -> bool {
        match self.phase {
            ParkPhase::Poll => reply is Flag,
            _ => reply is Done,
        }
    }

    /// The current action.
    pub open spec fn action_spec(self) -> ParkAction {
        match self.phase {
            ParkPhase::Announce => ParkAction::StoreAck(true),
            ParkPhase::Poll => ParkAction::LoadRequest,
            ParkPhase::Write => ParkAction::WriteBuffer {
                index: (self.i as int % CORE1_PARK_BUF_LEN as int) as usize,
                value: self.i,
            },
            ParkPhase::Withdraw => ParkAction::StoreAck(false),
            ParkPhase::Left => ParkAction::Return,
        }
    }

    /// The loop after the current action yielded `reply`.
    pub open spec fn next(self, reply: Reply) -> ParkLoop {
        match self.phase {
            ParkPhase::Announce => ParkLoop { phase: ParkPhase::Poll, ..self },
            ParkPhase::Poll => ParkLoop {
                phase: if reply == Reply::Flag(true) { ParkPhase::Write } else { ParkPhase::Withdraw },
                ..self
            },
            ParkPhase::Write => ParkLoop {
                phase: ParkPhase::Poll,
                i: ((self.i + 1) % 0x1_0000_0000) as u32,
            },
            ParkPhase::Withdraw => ParkLoop { phase: ParkPhase::Left, ..self },
            ParkPhase::Left => self,
        }
    }

    /// The loop as it is entered.
    #[inline(always)]
    pub fn new() -> (park: Self)
        ensures
            park == (ParkLoop { phase: ParkPhase::Announce, i: 0 }),
    {
        ParkLoop { phase: ParkPhase::Announce, i: 0 }
    }

    /// The action to perform now.
    #[inline(always)]
    pub fn action(&self) -> (action: ParkAction)
        ensures
            action == self.action_spec(),
            action matches ParkAction::WriteBuffer { index, .. } ==> index < CORE1_PARK_BUF_LEN,
    {
        match self.phase {
            ParkPhase::Announce => ParkAction::StoreAck(true),
            ParkPhase::Poll => ParkAction::LoadRequest,
            ParkPhase::Write => {
                let i: u32 = self.i;
                assert(i & 63 == i % 64) by (bit_vector);
                ParkAction::WriteBuffer { index: (i & (CORE1_PARK_BUF_LEN as u32 - 1)) as usize, value: i }
            },
            ParkPhase::Withdraw => ParkAction::StoreAck(false),
            ParkPhase::Left => ParkAction::Return,
        }
    }
}

/// One step of the wait loop: takes the result of the current action and moves
/// on. The loop announces itself, writes the scratch buffer for as long as the
/// request stands, and withdraws the announcement before it returns.
///
/// Runs in RAM-resident code, into which it is always inlined.
#[inline(always)]
pub fn core1_flash_park_loop(park: &mut ParkLoop, reply: Reply) -> (action: ParkAction)
    requires
        old(park).awaits(reply),
    ensures
        *final(park) == old(park).next(reply),
        action == final(park).action_spec(),
{
    match park.phase {
        ParkPhase::Announce => {
            park.phase = ParkPhase::Poll;
        },
        ParkPhase::Poll => {
            if let Reply::Flag(true) = reply {
                park.phase = ParkPhase::Write;
            } else {
                park.phase = ParkPhase::Withdraw;
            }
        },
        ParkPhase::Write => {
            park.i = park.i.wrapping_add(1);
            park.phase = ParkPhase::Poll;
        },
        ParkPhase::Withdraw => {
            park.phase = ParkPhase::Left;
        },
        ParkPhase::Left => {},
    }
    park.action()
}

/// Where core 1 stands.
#[derive(Clone, Copy, PartialEq, Eq, Debug)]
pub enum Core1Phase {
    /// Just entered, about to report stage 1.
    Entered,
    /// About to answer core 0's one-time synchronisation.
    Handshake,
    /// Synchronised, about to report stage 2.
    Synchronised,
    /// About to create its kernel and load its processes.
    Build,
    /// Ready, about to report stage 3.
    Ready,
    /// At the top of the loop, about to look for a park request.
    CheckPark,
    /// In the wait loop.
    Parked,
    /// About to publish the round number.
    PublishRound,
    /// About to take an event off the channel.
    Drain,
    /// Holding an event, about to dispatch it.
    Dispatch,
    /// About to count the event.
    CountEvent,
    /// About to run one round of the kernel.
    Kernel,
    /// About to replay a pending transmit completion.
    ReplayTx,
    /// At the end of the loop body.
    Spin,
}

/// Core 1. `round` counts the loop iterations that ran, leaving out parked ones.
#[derive(Clone, Copy, PartialEq, Eq, Debug)]
pub struct Core1 {
    pub phase: Core1Phase,
    pub round: u32,
}

/// An action of core 1.
#[derive(Clone, Copy, PartialEq, Eq, Debug)]
pub enum Core1Action {
    /// Report a start-up stage.
    StoreStage(u32),
    /// Meet core 0 at the lockstep barrier with this fingerprint, dispatching
    /// events meanwhile.
    Handshake { fingerprint: u32 },
    /// Create kernel, drivers and scheduler, and load the processes.
    BuildPlatform,
    /// Read the park request.
    LoadRequest,
    /// Run the wait loop in RAM until it returns.
    Park,
    /// Publish the round number.
    StoreRound(u32),
    /// Take an event off the channel if there is one.
    PopEvent,
    /// Dispatch the event just taken.
    DispatchEvent,
    /// Add one to the event counter, which wraps.
    CountEvent,
    /// Run one round of the kernel.
    KernelLoop(KernelRound),
    /// Replay a transmit completion that arrived before its transmission.
    ReplayTxDone,
    /// Hint a spin.
    SpinHint,
}

impl Core1 {
    /// `reply` is of the kind that the current action yields, and the round
    /// counter has room for another round if one is to begin.
    pub open spec fn awaits(self, reply: Reply) -> bool {
        match self.phase {
            Core1Phase::CheckPark => reply is Flag && (reply == Reply::Flag(false) ==> self.round < u32::MAX),
            Core1Phase::Drain => reply is Flag,
            _ => reply is Done,
        }
    }

    /// The current action.
    pub open spec fn action_spec(self) -> Core1Action {
        match self.phase {
            Core1Phase::Entered => Core1Action::StoreStage(1),
            Core1Phase::Handshake => Core1Action::Handshake { fingerprint: HANDSHAKE_FINGERPRINT },
            Core1Phase::Synchronised => Core1Action::StoreStage(2),
            Core1Phase::Build => Core1Action::BuildPlatform,
            Core1Phase::Ready => Core1Action::StoreStage(STAGE_RUNNING),
            Core1Phase::CheckPark => Core1Action::LoadRequest,
            Core1Phase::Parked => Core1Action::Park,
            Core1Phase::PublishRound => Core1Action::StoreRound(self.round),
            Core1Phase::Drain => Core1Action::PopEvent,
            Core1Phase::Dispatch => Core1Action::DispatchEvent,
            Core1Phase::CountEvent => Core1Action::CountEvent,
            Core1Phase::Kernel => Core1Action::KernelLoop(KernelRound { no_sleep: true, with_ipc: false }),
            Core1Phase::ReplayTx => Core1Action::ReplayTxDone,
            Core1Phase::Spin => Core1Action::SpinHint,
        }
    }

    /// The phase after the current action yielded `reply`.
    pub open spec fn next_phase(self, reply: Reply) -> Core1Phase {
        match self.phase {
            Core1Phase::Entered => Core1Phase::Handshake,
            Core1Phase::Handshake => Core1Phase::Synchronised,
            Core1Phase::Synchronised => Core1Phase::Build,
            Core1Phase::Build => Core1Phase::Ready,
            Core1Phase::Ready => Core1Phase::CheckPark,
            Core1Phase::CheckPark => if reply == Reply::Flag(true) {
                Core1Phase::Parked
            } else {
                Core1Phase::PublishRound
            },
            Core1Phase::Parked => Core1Phase::CheckPark,
            Core1Phase::PublishRound => Core1Phase::Drain,
            Core1Phase::Drain => if reply == Reply::Flag(true) { Core1Phase::Dispatch } else { Core1Phase::Kernel },
            Core1Phase::Dispatch => Core1Phase::CountEvent,
            Core1Phase::CountEvent => Core1Phase::Drain,
            Core1Phase::Kernel => Core1Phase::ReplayTx,
            Core1Phase::ReplayTx => Core1Phase::Spin,
            Core1Phase::Spin => Core1Phase::CheckPark,
        }
    }

    /// Core 1 after the current action yielded `reply`.
    pub open spec fn next(self, reply: Reply) -> Core1 {
        Core1 {
            phase: self.next_phase(reply),
            round: if self.phase is CheckPark && reply != Reply::Flag(true) { (self.round + 1) as u32 } else { self.round },
        }
    }

    /// Core 1 as it is started.
    pub fn new() -> (core: Self)
        ensures
            core == (Core1 { phase: Core1Phase::Entered, round: 0 }),
    {
        Core1 { phase: Core1Phase::Entered, round: 0 }
    }

    /// The action to perform now.
    pub fn action(&self) -> (action: Core1Action)
        ensures
            action == self.action_spec(),
    {
        match self.phase {
            Core1Phase::Entered => Core1Action::StoreStage(1),
            Core1Phase::Handshake => Core1Action::Handshake { fingerprint: HANDSHAKE_FINGERPRINT },
            Core1Phase::Synchronised => Core1Action::StoreStage(2),
            Core1Phase::Build => Core1Action::BuildPlatform,
            Core1Phase::Ready => Core1Action::StoreStage(STAGE_RUNNING),
            Core1Phase::CheckPark => Core1Action::LoadRequest,
            Core1Phase::Parked => Core1Action::Park,
            Core1Phase::PublishRound => Core1Action::StoreRound(self.round),
            Core1Phase::Drain => Core1Action::PopEvent,
            Core1Phase::Dispatch => Core1Action::DispatchEvent,
            Core1Phase::CountEvent => Core1Action::CountEvent,
            Core1Phase::Kernel => Core1Action::KernelLoop(KernelRound { no_sleep: true, with_ipc: false }),
            Core1Phase::ReplayTx => Core1Action::ReplayTxDone,
            Core1Phase::Spin => Core1Action::SpinHint,
        }
    }
}

/// One step of core 1: takes the result of the current action and moves on.
///
/// Core 1 reports its start-up stages, meets core 0 once, and then loops: while
/// a park request stands it only waits in RAM; otherwise it counts a round,
/// dispatches every event on the channel and runs one round of its kernel, which
/// neither sleeps, for lack of an interrupt to wake it, nor serves inter-process
/// communication.
pub fn core1_entry(core: &mut Core1, reply: Reply) -> (action: Core1Action)
    requires
        old(core).awaits(reply),
    ensures
        *final(core) == old(core).next(reply),
        action == final(core).action_spec(),
{
    match core.phase {
        Core1Phase::Entered => {
            core.phase = Core1Phase::Handshake;
        },
        Core1Phase::Handshake => {
            core.phase = Core1Phase::Synchronised;
        },
        Core1Phase::Synchronised => {
            core.phase = Core1Phase::Build;
        },
        Core1Phase::Build => {
            core.phase = Core1Phase::Ready;
        },
        Core1Phase::Ready => {
            core.phase = Core1Phase::CheckPark;
        },
        Core1Phase::CheckPark => {
            if let Reply::Flag(true) = reply {
                core.phase = Core1Phase::Parked;
            } else {
                core.round += 1;
                core.phase = Core1Phase::PublishRound;
            }
        },
        Core1Phase::Parked => {
            core.phase = Core1Phase::CheckPark;
        },
        Core1Phase::PublishRound => {
            core.phase = Core1Phase::Drain;
        },
        Core1Phase::Drain => {
            if let Reply::Flag(true) = reply {
                core.phase = Core1Phase::Dispatch;
            } else {
                core.phase = Core1Phase::Kernel;
            }
        },
        Core1Phase::Dispatch => {
            core.phase = Core1Phase::CountEvent;
        },
        Core1Phase::CountEvent => {
            core.phase = Core1Phase::Drain;
        },
        Core1Phase::Kernel => {
            core.phase = Core1Phase::ReplayTx;
        },
        Core1Phase::ReplayTx => {
            core.phase = Core1Phase::Spin;
        },
        Core1Phase::Spin => {
            core.phase = Core1Phase::CheckPark;
        },
    }
    core.action()
}

impl ParkLoop {
    /// The wait loop, entered and announced, after `n` rounds in each of which
    /// the request stood.
    pub open spec fn after_rounds(n: nat) -> ParkLoop
        decreases n,
    {
        if n == 0 {
            (ParkLoop { phase: ParkPhase::Announce, i: 0 }).next(Reply::Done)
        } else {
            ParkLoop::after_rounds((n - 1) as nat).next(Reply::Flag(true)).next(Reply::Done)
        }
    }
}

/// For as long as the request stands, the wait loop writes ascending values to
/// the scratch buffer, round and round: write number `n` puts `n` (modulo 2^32)
/// into word `n` modulo the buffer's length. When the request goes, the loop
/// withdraws its announcement and returns.
pub proof fn law_park_loop_cycles_through_buffer(n: nat)
    ensures
        ParkLoop::after_rounds(n).action_spec() == ParkAction::LoadRequest,
        ParkLoop::after_rounds(n).next(Reply::Flag(true)).action_spec() == (ParkAction::WriteBuffer {
            index: (n % CORE1_PARK_BUF_LEN as nat) as usize,
            value: (n % 0x1_0000_0000) as u32,
        }),
        ParkLoop::after_rounds(n).next(Reply::Flag(false)).action_spec() == ParkAction::StoreAck(false),
        ParkLoop::after_rounds(n).next(Reply::Flag(false)).next(Reply::Done).action_spec() == ParkAction::Return,
{
    lemma_after_rounds(n);
}

proof fn lemma_after_rounds(n: nat)
    ensures
        ParkLoop::after_rounds(n) == (ParkLoop { phase: ParkPhase::Poll, i: (n % 0x1_0000_0000) as u32 }),
    decreases n,
{
    if n > 0 {
        lemma_after_rounds((n - 1) as nat);
    }
}

impl Core1 {
    /// Core 1 after its actions yielded `replies` in order.
    pub open spec fn run(self, replies: Seq<Reply>) -> Core1
        decreases replies.len(),
    {
        if replies.len() == 0 {
            self
        } else {
            self.next(replies[0]).run(replies.drop_first())
        }
    }

    /// The actions that yield `replies`.
    pub open spec fn actions(self, replies: Seq<Reply>) -> Seq<Core1Action>
        decreases replies.len(),
    {
        if replies.len() == 0 {
            Seq::empty()
        } else {
            seq![self.action_spec()] + self.next(replies[0]).actions(replies.drop_first())
        }
    }
}

/// Replies from the first look at a channel that holds `events` events to the
/// end of the loop body.
pub open spec fn drain_replies(events: nat) -> Seq<Reply>
    decreases events,
{
    if events == 0 {
        seq![Reply::Flag(false), Reply::Done, Reply::Done, Reply::Done]
    } else {
        seq![Reply::Flag(true), Reply::Done, Reply::Done] + drain_replies((events - 1) as nat)
    }
}

/// Actions from the first look at a channel that holds `events` events to the
/// end of the loop body: each event is dispatched and counted, then the kernel
/// runs once.
pub open spec fn drain_actions(events: nat) -> Seq<Core1Action>
    decreases events,
{
    if events == 0 {
        seq![
            Core1Action::PopEvent,
            Core1Action::KernelLoop(KernelRound { no_sleep: true, with_ipc: false }),
            Core1Action::ReplayTxDone,
            Core1Action::SpinHint,
        ]
    } else {
        seq![Core1Action::PopEvent, Core1Action::DispatchEvent, Core1Action::CountEvent]
            + drain_actions((events - 1) as nat)
    }
}

/// One unparked iteration of core 1's loop publishes the next round number,
/// dispatches and counts every event on the channel, runs the kernel once, and
/// comes back to the top.
pub proof fn law_unparked_iteration(core: Core1, events: nat)
    requires
        core.phase is CheckPark,
        core.round < u32::MAX,
    ensures
        core.run(seq![Reply::Flag(false), Reply::Done] + drain_replies(events)) == (Core1 {
            phase: Core1Phase::CheckPark,
            round: (core.round + 1) as u32,
        }),
        core.actions(seq![Reply::Flag(false), Reply::Done] + drain_replies(events)) == seq![
            Core1Action::LoadRequest,
            Core1Action::StoreRound((core.round + 1) as u32),
        ] + drain_actions(events),
{
    let all = seq![Reply::Flag(false), Reply::Done] + drain_replies(events);
    let c1 = core.next(all[0]);
    let r1 = all.drop_first();
    let c2 = c1.next(r1[0]);
    let r2 = r1.drop_first();
    assert(r2 =~= drain_replies(events));
    lemma_drain(c2, events);
    assert(core.run(all) == c1.run(r1));
    assert(c1.run(r1) == c2.run(r2));
    assert(core.actions(all) =~= seq![Core1Action::LoadRequest] + c1.actions(r1));
    assert(c1.actions(r1) =~= seq![Core1Action::StoreRound((core.round + 1) as u32)] + c2.actions(r2));
    assert(core.actions(all) =~= seq![Core1Action::LoadRequest, Core1Action::StoreRound((core.round + 1) as u32)]
        + drain_actions(events));
}

proof fn lemma_drain(core: Core1, events: nat)
    requires
        core.phase is Drain,
    ensures
        core.run(drain_replies(events)) == (Core1 { phase: Core1Phase::CheckPark, round: core.round }),
        core.actions(drain_replies(events)) == drain_actions(events),
    decreases events,
{
    reveal_with_fuel(Core1::run, 5);
    reveal_with_fuel(Core1::actions, 5);
    let all = drain_replies(events);
    let r1 = all.drop_first();
    let r2 = r1.drop_first();
    let r3 = r2.drop_first();
    let c1 = core.next(all[0]);
    let c2 = c1.next(r1[0]);
    let c3 = c2.next(r2[0]);
    assert(core.run(all) == c3.run(r3));
    assert(core.actions(all) =~= seq![core.action_spec(), c1.action_spec(), c2.action_spec()] + c3.actions(r3));
    if events > 0 {
        assert(r3 =~= drain_replies((events - 1) as nat));
        lemma_drain(c3, (events - 1) as nat);
    } else {
        assert(r3.drop_first().len() == 0);
        assert(core.actions(all) =~= drain_actions(0));
    }
}

/// What core 1's actions have an effect on. `held` is the event that was taken
/// off the channel and not yet dispatched.
pub struct Core1World<E> {
    pub request: bool,
    pub stage: u32,
    pub round: u32,
    pub channel: Seq<E>,
    pub held: Option<E>,
    pub dispatched: Seq<E>,
    pub event_count: u32,
    pub kernel_rounds: Seq<KernelRound>,
    pub tx_replays: nat,
}

impl<E> Core1World<E> {
    /// The result of `action`.
    pub open spec fn reply(self, action: Core1Action) -> Reply {
        match action {
            Core1Action::LoadRequest => Reply::Flag(self.request),
            Core1Action::PopEvent => Reply::Flag(self.channel.len() > 0),
            _ => Reply::Done,
        }
    }

    /// The world after `action`. Events leave the channel at its front.
    pub open spec fn after(self, action: Core1Action) -> Core1World<E> {
        match action {
            Core1Action::StoreStage(stage) => Core1World { stage, ..self },
            Core1Action::StoreRound(round) => Core1World { round, ..self },
            Core1Action::PopEvent => if self.channel.len() > 0 {
                Core1World { held: Some(self.channel[0]), channel: self.channel.drop_first(), ..self }
            } else {
                self
            },
            Core1Action::DispatchEvent => match self.held {
                Some(event) => Core1World { held: None, dispatched: self.dispatched.push(event), ..self },
                None => self,
            },
            Core1Action::CountEvent => Core1World {
                event_count: ((self.event_count + 1) % 0x1_0000_0000) as u32,
                ..self
            },
            Core1Action::KernelLoop(round) => Core1World { kernel_rounds: self.kernel_rounds.push(round), ..self },
            Core1Action::ReplayTxDone => Core1World { tx_replays: self.tx_replays + 1, ..self },
            _ => self,
        }
    }
}

/// Core 1 and its world after `n` of core 1's actions.
pub open spec fn run_in<E>(core: Core1, world: Core1World<E>, n: nat) -> (Core1, Core1World<E>)
    decreases n,
{
    if n == 0 {
        (core, world)
    } else {
        let action = core.action_spec();
        run_in(core.next(world.reply(action)), world.after(action), (n - 1) as nat)
    }
}

/// One unparked iteration of core 1's loop publishes the next round number; takes
/// every event off the channel and dispatches each exactly once, in the order in
/// which they came; adds their number to the event counter, modulo 2^32; then
/// runs the kernel once, without sleeping and without inter-process
/// communication, and replays a transmit completion once.
pub proof fn law_unparked_iteration_effects<E>(core: Core1, world: Core1World<E>)
    requires
        core.phase is CheckPark,
        core.round < u32::MAX,
        !world.request,
        world.held is None,
    ensures
        run_in(core, world, 6 + 3 * world.channel.len()) == (
            Core1 { phase: Core1Phase::CheckPark, round: (core.round + 1) as u32 },
            Core1World {
                round: (core.round + 1) as u32,
                channel: Seq::<E>::empty(),
                dispatched: world.dispatched + world.channel,
                event_count: ((world.event_count + world.channel.len()) % 0x1_0000_0000) as u32,
                kernel_rounds: world.kernel_rounds.push(KernelRound { no_sleep: true, with_ipc: false }),
                tx_replays: world.tx_replays + 1,
                ..world
            },
        ),
{
    let n = 4 + 3 * world.channel.len();
    let c1 = core.next(world.reply(core.action_spec()));
    let w1 = world.after(core.action_spec());
    assert(run_in(core, world, n + 2) == run_in(c1, w1, n + 1));
    let c2 = c1.next(w1.reply(c1.action_spec()));
    let w2 = w1.after(c1.action_spec());
    assert(run_in(c1, w1, n + 1) == run_in(c2, w2, n));
    lemma_drain_effects(c2, w2);
}

proof fn lemma_drain_effects<E>(core: Core1, world: Core1World<E>)
    requires
        core.phase is Drain,
        world.held is None,
    ensures
        run_in(core, world, 4 + 3 * world.channel.len()) == (
            Core1 { phase: Core1Phase::CheckPark, round: core.round },
            Core1World {
                channel: Seq::<E>::empty(),
                dispatched: world.dispatched + world.channel,
                event_count: ((world.event_count + world.channel.len()) % 0x1_0000_0000) as u32,
                kernel_rounds: world.kernel_rounds.push(KernelRound { no_sleep: true, with_ipc: false }),
                tx_replays: world.tx_replays + 1,
                ..world
            },
        ),
    decreases world.channel.len(),
{
    let n = 4 + 3 * world.channel.len();
    let c1 = core.next(world.reply(core.action_spec()));
    let w1 = world.after(core.action_spec());
    assert(run_in(core, world, n) == run_in(c1, w1, (n - 1) as nat));
    let c2 = c1.next(w1.reply(c1.action_spec()));
    let w2 = w1.after(c1.action_spec());
    assert(run_in(c1, w1, (n - 1) as nat) == run_in(c2, w2, (n - 2) as nat));
    let c3 = c2.next(w2.reply(c2.action_spec()));
    let w3 = w2.after(c2.action_spec());
    assert(run_in(c2, w2, (n - 2) as nat) == run_in(c3, w3, (n - 3) as nat));
    if world.channel.len() > 0 {
        lemma_drain_effects(c3, w3);
        assert(w3.dispatched + w3.channel =~= world.dispatched + world.channel);
    } else {
        let c4 = c3.next(w3.reply(c3.action_spec()));
        let w4 = w3.after(c3.action_spec());
        assert(run_in(c3, w3, 1) == run_in(c4, w4, 0));
        assert(world.channel =~= Seq::<E>::empty());
        assert(world.dispatched + world.channel =~= world.dispatched);
    }
}

/// A parked iteration leaves core 1 as it was: no round is counted and nothing
/// but the wait loop runs.
pub proof fn law_parked_iteration(core: Core1)
    requires
        core.phase is CheckPark,
    ensures
        core.run(seq![Reply::Flag(true), Reply::Done]) == core,
        core.actions(seq![Reply::Flag(true), Reply::Done]) == seq![Core1Action::LoadRequest, Core1Action::Park],
{
    reveal_with_fuel(Core1::run, 3);
    reveal_with_fuel(Core1::actions, 3);
    let all = seq![Reply::Flag(true), Reply::Done];
    assert(all.drop_first().drop_first().len() == 0);
    assert(core.actions(all) =~= seq![Core1Action::LoadRequest, Core1Action::Park]);
}

/// The wait loop begins by announcing itself and counts from zero.
pub proof fn law_park_loop_begins_with_its_announcement(park: ParkLoop, action: ParkAction)
    requires
        call_ensures(ParkLoop::new, (), park),
        call_ensures(ParkLoop::action, (&park,), action),
    ensures
        action == ParkAction::StoreAck(true),
        park == (ParkLoop { phase: ParkPhase::Announce, i: 0 }),
        park.next(Reply::Done) == ParkLoop::after_rounds(0),
{
}

/// From any count on, a look at a standing request is followed by a write of the
/// count to the word that its low six bits name, the next count is one more, modulo
/// 2^32, and then comes another look; a look at a cleared request is followed by
/// the withdrawal and the return.
pub proof fn law_park_loop_goes_on_while_requested(
    poll: &mut ParkLoop,
    write: &mut ParkLoop,
    request: bool,
    after_poll: ParkAction,
    after_write: ParkAction,
)
    requires
        old(poll).phase is Poll,
        call_ensures(core1_flash_park_loop, (poll, Reply::Flag(request)), after_poll),
        *old(write) == *final(poll),
        call_ensures(core1_flash_park_loop, (write, Reply::Done), after_write),
    ensures
        request ==> {
            &&& after_poll matches ParkAction::WriteBuffer { index, value } && index == old(poll).i as int % 64 && value
                == old(poll).i
            &&& after_write == ParkAction::LoadRequest
            &&& final(write).phase is Poll
            &&& final(write).i == (if old(poll).i == u32::MAX { 0 } else { old(poll).i + 1 })
        },
        !request ==> {
            &&& after_poll == ParkAction::StoreAck(false)
            &&& after_write == ParkAction::Return
        },
{
}

/// Core 1 starts by reporting stage 1, meeting core 0 with fingerprint zero,
/// reporting stage 2, building its platform and reporting stage 3, in this order,
/// and then looks for a park request before its first round.
pub proof fn law_core1_starts_up_in_order(core: Core1)
    requires
        call_ensures(Core1::new, (), core),
    ensures
        core.actions(seq![Reply::Done, Reply::Done, Reply::Done, Reply::Done, Reply::Done]) == seq![
            Core1Action::StoreStage(1),
            Core1Action::Handshake { fingerprint: 0 },
            Core1Action::StoreStage(2),
            Core1Action::BuildPlatform,
            Core1Action::StoreStage(3),
        ],
        core.run(seq![Reply::Done, Reply::Done, Reply::Done, Reply::Done, Reply::Done]) == (Core1 {
            phase: Core1Phase::CheckPark,
            round: 0,
        }),
{
    reveal_with_fuel(Core1::run, 6);
    reveal_with_fuel(Core1::actions, 6);
    let all = seq![Reply::Done, Reply::Done, Reply::Done, Reply::Done, Reply::Done];
    let r1 = all.drop_first();
    let r2 = r1.drop_first();
    let r3 = r2.drop_first();
    let r4 = r3.drop_first();
    assert(r4.drop_first().len() == 0);
    assert(core.actions(all) =~= seq![
        Core1Action::StoreStage(1),
        Core1Action::Handshake { fingerprint: 0 },
        Core1Action::StoreStage(2),
        Core1Action::BuildPlatform,
        Core1Action::StoreStage(3),
    ]);
}

/// At the top of its loop core 1 goes by the park request alone, however many
/// rounds it has run: it parks while the request stands, and otherwise publishes a
/// round number one higher than the last.
pub proof fn law_core1_parks_exactly_when_requested(core: &mut Core1, request: bool, action: Core1Action)
    requires
        old(core).phase is CheckPark,
        !request ==> old(core).round < u32::MAX,
        call_ensures(core1_entry, (core, Reply::Flag(request)), action),
    ensures
        action == Core1Action::Park <==> request,
        request ==> final(core).round == old(core).round,
        !request ==> final(core).round == old(core).round + 1 && action == Core1Action::StoreRound(final(core).round),
{
}

proof fn lemma_core1_push(start: Core1, replies: Seq<Reply>, reply: Reply)
    ensures
        start.run(replies.push(reply)) == start.run(replies).next(reply),
        start.actions(replies.push(reply)) == start.actions(replies).push(start.run(replies).action_spec()),
    decreases replies.len(),
{
    let all = replies.push(reply);
    assert(start.run(all) == start.next(all[0]).run(all.drop_first()));
    if replies.len() == 0 {
        assert(all.drop_first().len() == 0);
        assert(start.next(reply).run(all.drop_first()) == start.next(reply));
        assert(start.next(reply).actions(all.drop_first()) =~= Seq::empty());
        assert(start.actions(all) =~= seq![start.action_spec()]);
        assert(start.actions(replies) =~= Seq::empty());
    } else {
        assert(all.drop_first() =~= replies.drop_first().push(reply));
        lemma_core1_push(start.next(replies[0]), replies.drop_first(), reply);
        assert(start.actions(all) =~= start.actions(replies).push(start.run(replies).action_spec()));
    }
}

/// Stepping core 1 extends its run by one reply, and names the action that comes
/// next.
pub proof fn law_core1_step_extends_the_run(
    start: Core1,
    replies: Seq<Reply>,
    core: &mut Core1,
    reply: Reply,
    action: Core1Action,
    later: Reply,
)
    requires
        *old(core) == start.run(replies),
        old(core).awaits(reply),
        call_ensures(core1_entry, (core, reply), action),
    ensures
        *final(core) == start.run(replies.push(reply)),
        start.actions(replies.push(reply).push(later)).last() == action,
{
    lemma_core1_push(start, replies, reply);
    lemma_core1_push(start, replies.push(reply), later);
}

} // verus!
