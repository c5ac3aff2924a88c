//! The DMA transfer engine: a typed state machine over one hardware
//! channel's configuration registers (base address, block control, channel
//! control) with support for continuation-chained multi-stage transfers.
//!
//! Starting a transfer programs the registers and returns at once; the
//! hardware works asynchronously, and the caller observes completion by
//! polling and then reports it with [`Channel::stage_complete`]. A pending
//! [`Continuation`] then either starts the next hardware stage or
//! finalizes the transfer's result — the pattern behind uploading an image
//! followed by its palette. The channel keeps a record of every hardware
//! stage it has started, in order, so that staging behaviour is part of
//! its observable state.
//!
//! A channel must not be reconfigured or restarted while a stage is in
//! flight; that discipline is a precondition of every operation here.

use vstd::prelude::*;

verus! {

/// Transfer direction of a channel.
#[derive(Clone, Copy, PartialEq, Eq, Structural, Debug)]
pub enum Direction {
    ToMemory,
    FromMemory,
}

/// Address step of a channel.
#[derive(Clone, Copy, PartialEq, Eq, Structural, Debug)]
pub enum Step {
    Forward,
    Backward,
}

/// Synchronization mode: a flat buffer in one burst, request-paced blocks,
/// or a hardware-walked linked list of descriptor blocks.
#[derive(Clone, Copy, PartialEq, Eq, Structural, Debug)]
pub enum SyncMode {
    Immediate,
    Request,
    LinkedList,
}

/// Chopping windows (DMA window size, CPU window size), when enabled.
#[derive(Clone, Copy, PartialEq, Eq, Structural, Debug)]
pub struct Chop {
    pub dma_window: u32,
    pub cpu_window: u32,
}

/// The block-control register: the linked-list marker, or a word count for
/// a flat transfer.
#[derive(Clone, Copy, PartialEq, Eq, Structural, Debug)]
pub enum BlockMode {
    LinkedList,
    Count(u32),
}

/// The channel-control register fields this engine programs.
#[derive(Clone, Copy, PartialEq, Eq, Structural, Debug)]
pub struct ChannelControl {
    pub direction: Direction,
    pub step: Step,
    pub sync_mode: SyncMode,
    pub chop: Option<Chop>,
}

/// Progress of the channel: idle, configured but not started, or with a
/// hardware stage in flight.
#[derive(Clone, Copy, PartialEq, Eq, Structural, Debug)]
pub enum ChannelState {
    Idle,
    Configured,
    Started,
}

/// One hardware stage: what the base-address and block-control registers
/// held when the stage was started.
#[derive(Clone, Copy, PartialEq, Eq, Structural, Debug)]
pub struct Stage {
    pub base: u32,
    pub block: BlockMode,
}

/// A texture-page descriptor of an uploaded image.
#[derive(Clone, Copy, PartialEq, Eq, Structural, Debug)]
pub struct TexPage(pub u16);

/// A color-lookup-table descriptor of an uploaded palette.
#[derive(Clone, Copy, PartialEq, Eq, Structural, Debug)]
pub struct Clut(pub u16);

/// Where one bitmap's data lies and how many words it spans.
#[derive(Clone, Copy, PartialEq, Eq, Structural, Debug)]
pub struct Bitmap {
    pub addr: u32,
    pub words: u32,
}

/// An image resource: pixel data, an optional palette bitmap, and the
/// descriptors the upload yields.
#[derive(Clone, Copy, PartialEq, Eq, Structural, Debug)]
pub struct Tim {
    pub bitmap: Bitmap,
    pub clut_bitmap: Option<Bitmap>,
    pub texpage: TexPage,
    pub clut: Option<Clut>,
}

/// The deferred work to run when the current stage completes: the result
/// so far, and the next hardware stage to start — or none, in which case
/// completion finalizes the result directly (the "dummy" second stage that
/// keeps the result shape uniform when no palette is present).
#[derive(Clone, Copy, PartialEq, Eq, Debug)]
pub struct Continuation {
    pub result: (TexPage, Option<Clut>),
    pub next_stage: Option<Stage>,
}

/// A handle for an in-flight transfer, carrying the value it yields when
/// the channel reports completion.
#[derive(Debug)]
pub struct Transfer<T> {
    pub result: T,
}

/// The GPU command port used to select a transfer direction before a
/// linked-list transfer is started.
pub struct Gp1 {
    pub dma_dir: u32,
}

impl Gp1 {
    pub fn new() -> (g: Gp1)
        ensures
            g.dma_dir == 0u32,
    {
        Gp1 { dma_dir: 0 }
    }

    /// Select the GPU's DMA direction (2 routes memory into the GPU).
    pub fn dma_direction(&mut self, dir: u32)
        ensures
            final(self).dma_dir == dir,
    {
        self.dma_dir = dir;
    }
}

/// An ordering table of `N` entries: a caller-built, hardware-walked chain
/// of command descriptors lying at `addr`, one word per entry. Building a
/// properly terminated chain is the caller's responsibility; the engine
/// only walks what it is given.
#[derive(Clone, Copy)]
pub struct Ot<const N: usize> {
    pub addr: u32,
}

impl<const N: usize> Ot<N> {
    /// The table is non-empty and its entries all lie in the address
    /// space.
    pub open spec fn wf(self) -> bool {
        &&& N >= 1
        &&& self.addr + 4 * (N - 1) <= u32::MAX
    }

    /// The address of entry `n`.
    pub fn entry(&self, n: usize) -> (a: u32)
        requires
            self.wf(),
            n < N,
        ensures
            a == self.addr + 4 * n,
    {
        self.addr + 4 * (n as u32)
    }

    /// The index of the final entry, where a linked-list transfer of the
    /// whole table starts.
    pub fn len(&self) -> (r: usize)
        requires
            N >= 1,
        ensures
            r == N - 1,
    {
        N - 1
    }
}

/// The mathematical state of a channel: its register fields, its
/// progress, the pending continuation, and the ordered record of hardware
/// stages started so far.
#[verifier::ext_equal]
pub struct ChannelView {
    pub base_address: u32,
    pub block: BlockMode,
    pub control: ChannelControl,
    pub state: ChannelState,
    pub continuation: Option<Continuation>,
    pub stages: Seq<Stage>,
}

/// What reporting a completed stage does: with no continuation pending the
/// channel simply falls idle; a continuation with a next stage programs
/// and starts that stage (keeping its result for the stage's own
/// completion); a continuation without one finalizes and yields the
/// result.
pub open spec fn complete_tr(c: ChannelView) -> (ChannelView, Option<(TexPage, Option<Clut>)>) {
    match c.continuation {
        None => (
            ChannelView { state: ChannelState::Idle, ..c },
            None::<(TexPage, Option<Clut>)>,
        ),
        Some(cont) => match cont.next_stage {
            Some(st) => (
                ChannelView {
                    base_address: st.base,
                    block: st.block,
                    state: ChannelState::Started,
                    continuation: Some(Continuation { result: cont.result, next_stage: None }),
                    stages: c.stages.push(st),
                    ..c
                },
                None::<(TexPage, Option<Clut>)>,
            ),
            None => (
                ChannelView { state: ChannelState::Idle, continuation: None, ..c },
                Some(cont.result),
            ),
        },
    }
}

/// The stage that uploads one bitmap: a flat burst from its address, of
/// its length in words.
pub open spec fn bitmap_stage(b: Bitmap) -> Stage {
    Stage { base: b.addr, block: BlockMode::Count(b.words) }
}

/// The continuation an image upload installs: the image's descriptors as
/// result so far, and the palette stage if a palette is present.
pub open spec fn tim_continuation(tim: Tim) -> Continuation {
    Continuation {
        result: (tim.texpage, tim.clut),
        next_stage: match tim.clut_bitmap {
            Some(b) => Some(bitmap_stage(b)),
            None => None,
        },
    }
}

/// What `load_tim` does to the channel: configure an immediate
/// memory-to-device burst, start the pixel-data stage, and leave the
/// palette work pending as a continuation.
pub open spec fn load_tim_tr(c: ChannelView, tim: Tim) -> ChannelView {
    ChannelView {
        base_address: tim.bitmap.addr,
        block: BlockMode::Count(tim.bitmap.words),
        control: ChannelControl {
            direction: Direction::FromMemory,
            step: Step::Forward,
            sync_mode: SyncMode::Immediate,
            chop: None,
        },
        state: ChannelState::Started,
        continuation: Some(tim_continuation(tim)),
        stages: c.stages.push(bitmap_stage(tim.bitmap)),
    }
}

/// One GPU DMA channel's register file, progress and stage record.
pub struct Channel {
    base_address: u32,
    block: BlockMode,
    control: ChannelControl,
    state: ChannelState,
    continuation: Option<Continuation>,
    stages: Vec<Stage>,
}

impl View for Channel {
    type V = ChannelView;

    closed spec fn view(&self) -> ChannelView {
        ChannelView {
            base_address: self.base_address,
            block: self.block,
            control: self.control,
            state: self.state,
            continuation: self.continuation,
            stages: self.stages@,
        }
    }
}

impl Channel {
    /// A fresh, idle channel with no stage started yet.
    pub fn new() -> (c: Channel)
        ensures
            c@ == (ChannelView {
                base_address: 0u32,
                block: BlockMode::Count(0u32),
                control: ChannelControl {
                    direction: Direction::ToMemory,
                    step: Step::Forward,
                    sync_mode: SyncMode::Immediate,
                    chop: None,
                },
                state: ChannelState::Idle,
                continuation: None,
                stages: Seq::<Stage>::empty(),
            }),
    {
        let c = Channel {
            base_address: 0,
            block: BlockMode::Count(0),
            control: ChannelControl {
                direction: Direction::ToMemory,
                step: Step::Forward,
                sync_mode: SyncMode::Immediate,
                chop: None,
            },
            state: ChannelState::Idle,
            continuation: None,
            stages: Vec::new(),
        };
        proof {
            assert(c@.stages =~= Seq::<Stage>::empty());
        }
        c
    }

    /// Write the channel-control register fields. Not callable while a
    /// stage is in flight.
    pub fn configure(&mut self, direction: Direction, step: Step, sync_mode: SyncMode, chop: Option<
        Chop,
    >)
        requires
            !(old(self)@.state is Started),
        ensures
            final(self)@.control == (ChannelControl { direction, step, sync_mode, chop }),
            final(self)@.state is Configured,
            final(self)@.base_address == old(self)@.base_address,
            final(self)@.block == old(self)@.block,
            final(self)@.continuation == old(self)@.continuation,
            final(self)@.stages == old(self)@.stages,
    {
        self.control = ChannelControl { direction, step, sync_mode, chop };
        self.state = ChannelState::Configured;
    }

    /// Program the base-address and block-control registers from the
    /// payload and start the hardware stage; the returned handle carries
    /// `result` for when the transfer completes.
    pub fn start<T>(&mut self, payload: Stage, result: T) -> (t: Transfer<T>)
        requires
            !(old(self)@.state is Started),
        ensures
            final(self)@.base_address == payload.base,
            final(self)@.block == payload.block,
            final(self)@.state is Started,
            final(self)@.stages == old(self)@.stages.push(payload),
            final(self)@.control == old(self)@.control,
            final(self)@.continuation == old(self)@.continuation,
            t.result == result,
    {
        self.base_address = payload.base;
        self.block = payload.block;
        self.state = ChannelState::Started;
        self.stages.push(payload);
        Transfer { result }
    }

    /// Start a stage exactly as [`Channel::start`] does, and install the
    /// continuation to run when the hardware signals its completion.
    pub fn start_with_continuation(&mut self, payload: Stage, cont: Continuation) -> (t: Transfer<
        (TexPage, Option<Clut>),
    >)
        requires
            !(old(self)@.state is Started),
            old(self)@.continuation is None,
        ensures
            final(self)@.base_address == payload.base,
            final(self)@.block == payload.block,
            final(self)@.state is Started,
            final(self)@.stages == old(self)@.stages.push(payload),
            final(self)@.control == old(self)@.control,
            final(self)@.continuation == Some(cont),
            t.result == cont.result,
    {
        self.base_address = payload.base;
        self.block = payload.block;
        self.state = ChannelState::Started;
        self.stages.push(payload);
        self.continuation = Some(cont);
        Transfer { result: cont.result }
    }

    /// Report that the hardware finished the stage in flight, and run any
    /// pending continuation: start the next stage, or finalize and yield
    /// the transfer's result.
    pub fn stage_complete(&mut self) -> (r: Option<(TexPage, Option<Clut>)>)
        requires
            old(self)@.state is Started,
        ensures
            final(self)@ == complete_tr(old(self)@).0,
            r == complete_tr(old(self)@).1,
    {
        match self.continuation {
            None => {
                self.state = ChannelState::Idle;
                None
            },
            Some(cont) => match cont.next_stage {
                Some(st) => {
                    self.base_address = st.base;
                    self.block = st.block;
                    self.stages.push(st);
                    self.continuation = Some(
                        Continuation { result: cont.result, next_stage: None },
                    );
                    None
                },
                None => {
                    self.state = ChannelState::Idle;
                    self.continuation = None;
                    Some(cont.result)
                },
            },
        }
    }

    /// Prepare a linked-list send of an ordering table: route the GPU's
    /// DMA direction toward the GPU and select linked-list block control,
    /// memory-to-device direction and linked-list synchronization.
    pub fn prepare_ot(&mut self, gp1: &mut Gp1)
        requires
            !(old(self)@.state is Started),
        ensures
            final(gp1).dma_dir == 2u32,
            final(self)@.block is LinkedList,
            final(self)@.control == (ChannelControl {
                direction: Direction::FromMemory,
                step: old(self)@.control.step,
                sync_mode: SyncMode::LinkedList,
                chop: old(self)@.control.chop,
            }),
            final(self)@.state is Configured,
            final(self)@.base_address == old(self)@.base_address,
            final(self)@.continuation == old(self)@.continuation,
            final(self)@.stages == old(self)@.stages,
    {
        gp1.dma_direction(2);
        self.block = BlockMode::LinkedList;
        self.control = ChannelControl {
            direction: Direction::FromMemory,
            step: self.control.step,
            sync_mode: SyncMode::LinkedList,
            chop: self.control.chop,
        };
        self.state = ChannelState::Configured;
    }

    /// Send a whole ordering table: start the hardware walk at the table's
    /// final entry.
    pub fn send<'a, const N: usize>(&mut self, ot: &'a Ot<N>) -> (t: Transfer<&'a Ot<N>>)
        requires
            ot.wf(),
            !(old(self)@.state is Started),
        ensures
            final(self)@.base_address == ot.addr + 4 * (N - 1),
            final(self)@.block == old(self)@.block,
            final(self)@.state is Started,
            final(self)@.stages == old(self)@.stages.push(
                Stage { base: (ot.addr + 4 * (N - 1)) as u32, block: old(self)@.block },
            ),
            final(self)@.control == old(self)@.control,
            final(self)@.continuation == old(self)@.continuation,
            t.result == ot,
    {
        let n = ot.len();
        self.send_offset(ot, n)
    }

    /// Send an ordering table starting the hardware walk at entry `n`.
    /// The block-control register keeps whatever the preparation step put
    /// there.
    pub fn send_offset<'a, const N: usize>(&mut self, ot: &'a Ot<N>, n: usize) -> (t: Transfer<
        &'a Ot<N>,
    >)
        requires
            ot.wf(),
            n < N,
            !(old(self)@.state is Started),
        ensures
            final(self)@.base_address == ot.addr + 4 * n,
            final(self)@.block == old(self)@.block,
            final(self)@.state is Started,
            final(self)@.stages == old(self)@.stages.push(
                Stage { base: (ot.addr + 4 * n) as u32, block: old(self)@.block },
            ),
            final(self)@.control == old(self)@.control,
            final(self)@.continuation == old(self)@.continuation,
            t.result == ot,
    {
        let base = ot.entry(n);
        let block = self.block;
        self.start(Stage { base, block }, ot)
    }

    /// Upload an image: configure an immediate memory-to-device burst,
    /// start the pixel-data stage, and leave the palette stage (if the
    /// image has one) pending as a continuation. The returned handle
    /// carries the descriptor pair the whole upload yields.
    pub fn load_tim(&mut self, tim: &Tim) -> (t: Transfer<(TexPage, Option<Clut>)>)
        requires
            !(old(self)@.state is Started),
            old(self)@.continuation is None,
        ensures
            final(self)@ == load_tim_tr(old(self)@, *tim),
            t.result == (tim.texpage, tim.clut),
    {
        self.configure(Direction::FromMemory, Step::Forward, SyncMode::Immediate, None);
        let payload = Stage {
            base: tim.bitmap.addr,
            block: BlockMode::Count(tim.bitmap.words),
        };
        let cont = Continuation {
            result: (tim.texpage, tim.clut),
            next_stage: match tim.clut_bitmap {
                Some(b) => Some(Stage { base: b.addr, block: BlockMode::Count(b.words) }),
                None => None,
            },
        };
        let t = self.start_with_continuation(payload, cont);
        proof {
            assert(self@ =~= load_tim_tr(old(self)@, *tim));
        }
        t
    }

    /// How many hardware stages this channel has started, in all.
    pub fn stage_count(&self) -> (n: usize)
        ensures
            n == self@.stages.len(),
    {
        self.stages.len()
    }

    /// The `i`-th hardware stage the channel started.
    pub fn stage_at(&self, i: usize) -> (s: Stage)
        requires
            i < self@.stages.len(),
        ensures
            s == self@.stages[i as int],
    {
        self.stages[i]
    }

    /// Whether a hardware stage is in flight.
    pub fn is_started(&self) -> (b: bool)
        ensures
            b == (self@.state is Started),
    {
        matches!(self.state, ChannelState::Started)
    }
}

/// Law: uploading an image with a palette present runs exactly two
/// hardware stages, pixel data first and then the palette, before the
/// continuation finalizes the descriptor pair.
pub proof fn lemma_tim_upload_with_palette(c: ChannelView, tim: Tim)
    requires
        tim.clut_bitmap is Some,
    ensures
        ({
            let c1 = load_tim_tr(c, tim);
            let (c2, r2) = complete_tr(c1);
            let (c3, r3) = complete_tr(c2);
            &&& c1.stages =~= c.stages.push(bitmap_stage(tim.bitmap))
            &&& c2.stages =~= c.stages.push(bitmap_stage(tim.bitmap)).push(
                bitmap_stage(tim.clut_bitmap->0),
            )
            &&& r2 is None
            &&& c2.state is Started
            &&& c3.stages == c2.stages
            &&& r3 == Some((tim.texpage, tim.clut))
            &&& c3.state is Idle
            &&& c3.continuation is None
        }),
{
}

/// Law: uploading an image with no palette runs exactly one hardware
/// stage, and the first completion already finalizes a result of the same
/// shape (the dummy second stage starts no hardware work).
pub proof fn lemma_tim_upload_without_palette(c: ChannelView, tim: Tim)
    requires
        tim.clut_bitmap is None,
    ensures
        ({
            let c1 = load_tim_tr(c, tim);
            let (c2, r2) = complete_tr(c1);
            &&& c1.stages =~= c.stages.push(bitmap_stage(tim.bitmap))
            &&& c2.stages == c1.stages
            &&& r2 == Some((tim.texpage, tim.clut))
            &&& c2.state is Idle
            &&& c2.continuation is None
        }),
{
}

} // verus!
