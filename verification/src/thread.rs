//! The cooperative thread subsystem.
//!
//! A fixed pool of context slots holds the saved processor state of one
//! *main* context (slot 0, never closed) and a small number of secondary
//! contexts. There is no preemption: control moves only when a context
//! explicitly switches to another, and the registry's job is to make that
//! hand-over atomic and explicit.
//!
//! Two points the register file leaves open are fixed here as a documented
//! policy: switching to the currently running context is a no-op, and
//! switching to a closed or unknown handle is an error that leaves the
//! caller's state untouched.

use vstd::prelude::*;

verus! {

/// The saved processor state of one cooperative context: program counter,
/// stack pointer and global pointer.
#[derive(Clone, Copy, PartialEq, Eq, Structural, Debug)]
pub struct Regs {
    pub pc: u32,
    pub sp: u32,
    pub gp: u32,
}

/// Liveness of one context slot.
#[derive(Clone, Copy, PartialEq, Eq, Structural, Debug)]
pub enum ThreadState {
    /// Opened and switched away from (or never yet run); may be resumed.
    Ready,
    /// The context that currently holds the processor.
    Running,
    /// Closed (or never opened); its handle is invalid for switches.
    Closed,
}

/// One context slot: its saved registers and its liveness.
#[derive(Clone, Copy, PartialEq, Eq, Structural, Debug)]
pub struct ThreadContext {
    pub regs: Regs,
    pub state: ThreadState,
}

/// A handle naming one context slot; slot `i` answers to `HANDLE_BASE + i`.
#[derive(Clone, Copy, PartialEq, Eq, Structural, Debug)]
pub struct ThreadHandle(pub u32);

/// Errors of the thread subsystem. Each is reported to the caller as a
/// value; none is raised as a panic.
#[derive(Clone, Copy, PartialEq, Eq, Structural, Debug)]
pub enum ThreadError {
    /// The handle names no slot, or names a closed one.
    InvalidHandle,
    /// Every slot is in use: the pool is exhausted.
    NoFreeSlot,
    /// The main context cannot be closed.
    MainContext,
}

/// Handle value of slot 0 (the main context); slot `i` is `HANDLE_BASE + i`.
pub const HANDLE_BASE: u32 = 0xFF00_0000;

/// Upper bound on the number of context slots a registry may be built with.
pub const MAX_CONTEXTS: usize = 0x1_0000;

/// The mathematical state of a registry: the slot sequence and the index of
/// the context that holds the processor.
#[verifier::ext_equal]
pub struct RegistryView {
    pub slots: Seq<ThreadContext>,
    pub current: int,
}

/// The slot index a handle names.
pub open spec fn slot_index(h: ThreadHandle) -> int {
    h.0 - HANDLE_BASE
}

impl RegistryView {
    /// Well-formedness: a bounded, non-empty pool; exactly the current slot
    /// may be `Running`; the main slot is never `Closed`. The current slot
    /// itself is `Running`, or `Closed` when the running context closed
    /// itself and has not yet yielded.
    pub open spec fn wf(self) -> bool {
        &&& 1 <= self.slots.len() <= MAX_CONTEXTS
        &&& 0 <= self.current < self.slots.len()
        &&& forall|i: int|
            0 <= i < self.slots.len() && self.slots[i].state is Running ==> i == self.current
        &&& self.slots[self.current].state is Running || self.slots[self.current].state is Closed
        &&& !(self.slots[0].state is Closed)
    }

    /// The handle names a slot of this registry.
    pub open spec fn valid_handle(self, h: ThreadHandle) -> bool {
        HANDLE_BASE <= h.0 && slot_index(h) < self.slots.len()
    }

    /// The handle names a slot that is not closed.
    pub open spec fn open_handle(self, h: ThreadHandle) -> bool {
        self.valid_handle(h) && !(self.slots[slot_index(h)].state is Closed)
    }

    /// A slot is free for `open` when it is closed and is not the slot of
    /// the running context (a context that closed itself keeps its slot
    /// until it yields).
    pub open spec fn free_slot(self, i: int) -> bool {
        0 <= i < self.slots.len() && self.slots[i].state is Closed && i != self.current
    }

    pub open spec fn has_free_slot(self) -> bool {
        exists|i: int| self.free_slot(i)
    }
}

/// What `open` does: on success, the lowest free slot is primed `Ready`
/// with the given entry state and its handle is returned; with no free
/// slot, the pool-exhaustion error is returned and nothing changes.
pub open spec fn open_post(
    pre: RegistryView,
    post: RegistryView,
    entry: u32,
    sp: u32,
    gp: u32,
    r: Result<ThreadHandle, ThreadError>,
) -> bool {
    match r {
        Ok(h) => {
            let idx = slot_index(h);
            &&& pre.valid_handle(h)
            &&& pre.free_slot(idx)
            &&& forall|j: int| 0 <= j < idx ==> !pre.free_slot(j)
            &&& post.slots == pre.slots.update(
                idx,
                ThreadContext { regs: Regs { pc: entry, sp, gp }, state: ThreadState::Ready },
            )
            &&& post.current == pre.current
        },
        Err(e) => {
            &&& e == ThreadError::NoFreeSlot
            &&& !pre.has_free_slot()
            &&& post == pre
        },
    }
}

/// What `switch_to` does. An unknown or closed handle is an error and the
/// registry is untouched; the running context's own handle is a no-op that
/// hands the caller its own state back; otherwise the caller's state is
/// saved into the current slot, the target becomes the running context, and
/// the target's saved state is returned (to be loaded into the processor).
pub open spec fn switch_tr(v: RegistryView, h: ThreadHandle, saved: Regs) -> (
    RegistryView,
    Result<Regs, ThreadError>,
) {
    if !v.open_handle(h) {
        (v, Err(ThreadError::InvalidHandle))
    } else if slot_index(h) == v.current {
        (v, Ok(saved))
    } else {
        let idx = slot_index(h);
        let cur = v.current;
        let cur_state = if v.slots[cur].state is Running {
            ThreadState::Ready
        } else {
            v.slots[cur].state
        };
        let target = v.slots[idx];
        let slots = v.slots.update(cur, ThreadContext { regs: saved, state: cur_state }).update(
            idx,
            ThreadContext { regs: target.regs, state: ThreadState::Running },
        );
        (RegistryView { slots, current: idx }, Ok(target.regs))
    }
}

/// What `close` does: an unknown or already closed handle is an error, the
/// main context cannot be closed, and otherwise the slot is marked closed
/// (closing the running context is permitted; it keeps the processor until
/// it yields).
pub open spec fn close_tr(v: RegistryView, h: ThreadHandle) -> (
    RegistryView,
    Result<(), ThreadError>,
) {
    if !v.open_handle(h) {
        (v, Err(ThreadError::InvalidHandle))
    } else if slot_index(h) == 0 {
        (v, Err(ThreadError::MainContext))
    } else {
        let idx = slot_index(h);
        let slots = v.slots.update(
            idx,
            ThreadContext { regs: v.slots[idx].regs, state: ThreadState::Closed },
        );
        (RegistryView { slots, current: v.current }, Ok(()))
    }
}

/// What `exit_current` does: the running secondary context is closed and
/// control falls back to the main context, whose saved state is returned.
/// From the main context itself it is an error.
pub open spec fn exit_tr(v: RegistryView) -> (RegistryView, Result<Regs, ThreadError>) {
    if v.current == 0 {
        (v, Err(ThreadError::MainContext))
    } else {
        let main = v.slots[0];
        let slots = v.slots.update(
            v.current,
            ThreadContext { regs: v.slots[v.current].regs, state: ThreadState::Closed },
        ).update(0, ThreadContext { regs: main.regs, state: ThreadState::Running });
        (RegistryView { slots, current: 0 }, Ok(main.regs))
    }
}

/// The thread control block registry: the pool of context slots and the
/// index of the running context. The stack memory a context uses is owned
/// by the caller; the registry stores only the pointers handed to `open`.
pub struct ThreadRegistry {
    slots: Vec<ThreadContext>,
    current: usize,
}

impl View for ThreadRegistry {
    type V = RegistryView;

    closed spec fn view(&self) -> RegistryView {
        RegistryView { slots: self.slots@, current: self.current as int }
    }
}

impl ThreadRegistry {
    pub open spec fn wf(self) -> bool {
        self@.wf()
    }

    /// Build a registry of `capacity` slots. Slot 0 is the main context,
    /// running with the given state; every other slot starts closed.
    pub fn new(capacity: usize, main: Regs) -> (r: ThreadRegistry)
        requires
            1 <= capacity <= MAX_CONTEXTS,
        ensures
            r.wf(),
            r@.slots.len() == capacity,
            r@.current == 0,
            r@.slots[0] == (ThreadContext { regs: main, state: ThreadState::Running }),
            forall|i: int| 1 <= i < capacity ==> r@.slots[i].state is Closed,
    {
        let mut slots: Vec<ThreadContext> = Vec::new();
        slots.push(ThreadContext { regs: main, state: ThreadState::Running });
        let mut i: usize = 1;
        while i < capacity
            invariant
                1 <= i <= capacity,
                slots@.len() == i,
                slots@[0] == (ThreadContext { regs: main, state: ThreadState::Running }),
                forall|j: int| 1 <= j < i ==> slots@[j].state is Closed,
            decreases capacity - i,
        {
            slots.push(
                ThreadContext { regs: Regs { pc: 0, sp: 0, gp: 0 }, state: ThreadState::Closed },
            );
            i = i + 1;
        }
        ThreadRegistry { slots, current: 0 }
    }

    /// The handle of the context that currently holds the processor.
    pub fn current_handle(&self) -> (h: ThreadHandle)
        requires
            self.wf(),
        ensures
            h.0 == HANDLE_BASE + self@.current,
    {
        ThreadHandle(HANDLE_BASE + self.current as u32)
    }

    /// Open a secondary context: claim the lowest free slot and prime its
    /// saved state so that switching into it begins execution at `entry`
    /// with the given stack and global pointer. The context is not started.
    pub fn open(&mut self, entry: u32, sp: u32, gp: u32) -> (r: Result<ThreadHandle, ThreadError>)
        requires
            old(self).wf(),
        ensures
            final(self).wf(),
            open_post(old(self)@, final(self)@, entry, sp, gp, r),
    {
        let n = self.slots.len();
        let mut i: usize = 0;
        while i < n
            invariant
                old(self).wf(),
                self@ == old(self)@,
                n == self.slots.len(),
                i <= n,
                forall|j: int| 0 <= j < i ==> !old(self)@.free_slot(j),
            decreases n - i,
        {
            if i != self.current && matches!(self.slots[i].state, ThreadState::Closed) {
                self.slots.set(
                    i,
                    ThreadContext {
                        regs: Regs { pc: entry, sp, gp },
                        state: ThreadState::Ready,
                    },
                );
                return Ok(ThreadHandle(HANDLE_BASE + i as u32));
            }
            i = i + 1;
        }
        Err(ThreadError::NoFreeSlot)
    }

    /// Switch execution to the context `h` names. `saved` is the calling
    /// context's processor state at the moment of the switch; the returned
    /// state is the one to load, i.e. where the target last yielded (or its
    /// entry state, if it never ran).
    pub fn switch_to(&mut self, h: ThreadHandle, saved: Regs) -> (r: Result<Regs, ThreadError>)
        requires
            old(self).wf(),
        ensures
            final(self).wf(),
            final(self)@ == switch_tr(old(self)@, h, saved).0,
            r == switch_tr(old(self)@, h, saved).1,
    {
        if h.0 < HANDLE_BASE {
            return Err(ThreadError::InvalidHandle);
        }
        let idx = (h.0 - HANDLE_BASE) as usize;
        if idx >= self.slots.len() {
            return Err(ThreadError::InvalidHandle);
        }
        let target = self.slots[idx];
        if matches!(target.state, ThreadState::Closed) {
            return Err(ThreadError::InvalidHandle);
        }
        if idx == self.current {
            return Ok(saved);
        }
        let cur = self.current;
        let cur_ctx = self.slots[cur];
        let new_state = match cur_ctx.state {
            ThreadState::Running => ThreadState::Ready,
            s => s,
        };
        self.slots.set(cur, ThreadContext { regs: saved, state: new_state });
        self.slots.set(idx, ThreadContext { regs: target.regs, state: ThreadState::Running });
        self.current = idx;
        Ok(target.regs)
    }

    /// Close the context `h` names and invalidate its handle for future
    /// switches. The caller-owned stack memory is not reclaimed.
    pub fn close(&mut self, h: ThreadHandle) -> (r: Result<(), ThreadError>)
        requires
            old(self).wf(),
        ensures
            final(self).wf(),
            final(self)@ == close_tr(old(self)@, h).0,
            r == close_tr(old(self)@, h).1,
    {
        if h.0 < HANDLE_BASE {
            return Err(ThreadError::InvalidHandle);
        }
        let idx = (h.0 - HANDLE_BASE) as usize;
        if idx >= self.slots.len() {
            return Err(ThreadError::InvalidHandle);
        }
        let ctx = self.slots[idx];
        if matches!(ctx.state, ThreadState::Closed) {
            return Err(ThreadError::InvalidHandle);
        }
        if idx == 0 {
            return Err(ThreadError::MainContext);
        }
        self.slots.set(idx, ThreadContext { regs: ctx.regs, state: ThreadState::Closed });
        Ok(())
    }

    /// The default for an entry function that returns without switching
    /// away: close the running secondary context and fall back to the main
    /// context, returning main's saved state.
    pub fn exit_current(&mut self) -> (r: Result<Regs, ThreadError>)
        requires
            old(self).wf(),
        ensures
            final(self).wf(),
            final(self)@ == exit_tr(old(self)@).0,
            r == exit_tr(old(self)@).1,
    {
        if self.current == 0 {
            return Err(ThreadError::MainContext);
        }
        let cur = self.current;
        let cur_ctx = self.slots[cur];
        self.slots.set(cur, ThreadContext { regs: cur_ctx.regs, state: ThreadState::Closed });
        let main = self.slots[0];
        self.slots.set(0, ThreadContext { regs: main.regs, state: ThreadState::Running });
        self.current = 0;
        Ok(main.regs)
    }
}

/// Law: a context opened with entry state `(entry, sp, gp)` and then
/// switched into hands exactly that state to the processor.
pub proof fn lemma_open_then_switch(
    pre: RegistryView,
    post: RegistryView,
    entry: u32,
    sp: u32,
    gp: u32,
    h: ThreadHandle,
    saved: Regs,
)
    requires
        pre.wf(),
        open_post(pre, post, entry, sp, gp, Ok(h)),
    ensures
        switch_tr(post, h, saved).1 == Ok::<Regs, ThreadError>(Regs { pc: entry, sp, gp }),
        switch_tr(post, h, saved).0.current == slot_index(h),
{
}

/// Law: switching from the running context A to an open context B and then
/// back to A resumes A exactly where it yielded, with the state it saved
/// unchanged by anything B did.
pub proof fn lemma_switch_round_trip(
    v: RegistryView,
    ha: ThreadHandle,
    hb: ThreadHandle,
    regs_a: Regs,
    regs_b: Regs,
)
    requires
        v.wf(),
        v.slots[v.current].state is Running,
        v.open_handle(hb),
        slot_index(hb) != v.current,
        ha.0 == HANDLE_BASE + v.current,
    ensures
        ({
            let (v1, r1) = switch_tr(v, hb, regs_a);
            let (v2, r2) = switch_tr(v1, ha, regs_b);
            &&& r1 == Ok::<Regs, ThreadError>(v.slots[slot_index(hb)].regs)
            &&& r2 == Ok::<Regs, ThreadError>(regs_a)
            &&& v2.current == v.current
        }),
{
}

/// Law: a closed handle cannot be switched into; the attempt reports the
/// invalid-handle error and leaves the registry untouched.
pub proof fn lemma_close_then_switch(v: RegistryView, h: ThreadHandle, saved: Regs)
    requires
        v.wf(),
        close_tr(v, h).1 == Ok::<(), ThreadError>(()),
    ensures
        ({
            let v1 = close_tr(v, h).0;
            switch_tr(v1, h, saved) == (v1, Err::<Regs, ThreadError>(ThreadError::InvalidHandle))
        }),
{
}

} // verus!
