//! The BIOS call dispatch mechanism.
//!
//! Three call gates — stable entry points a platform loader can pin at the
//! console's fixed trap addresses — tag a function class into the decoded
//! operands and fall through into one shared dispatcher. The dispatcher
//! routes a `(class, number)` selector and up to four word arguments to the
//! matching operation and places one word result into the return register.
//! An unrecognized selector is never fatal: it returns the sentinel failure
//! value (all bits set) and performs no side effect.
//!
//! The operations' collaborators — the heap allocator, the pseudo-random
//! generator, the console output sink and the system-information table —
//! are modeled here at their interface boundary as state owned by one
//! explicitly initialized [`Kernel`] object: a bump heap, the console's
//! linear-congruential generator, a log of output requests, and a fixed
//! word table. Rendering of `printf` requests is outside this core; the
//! kernel records each request and reports zero characters rendered
//! itself, and the host's own diagnostics (such as the unknown-call notice)
//! are likewise the host's concern.

use vstd::prelude::*;

use crate::thread::HANDLE_BASE;
use crate::thread::MAX_CONTEXTS;
use crate::thread::Regs;
use crate::thread::ThreadHandle;
use crate::thread::ThreadRegistry;
use crate::thread::close_tr;
use crate::thread::open_post;
use crate::thread::switch_tr;

verus! {

/// Function class tagged by call gate A.
pub const CLASS_A: u8 = 0xA0;

/// Function class tagged by call gate B.
pub const CLASS_B: u8 = 0xB0;

/// Function class tagged by call gate C.
pub const CLASS_C: u8 = 0xC0;

/// A(2Fh): next pseudo-random value.
pub const NUM_RAND: u8 = 0x2F;

/// A(30h): seed the pseudo-random generator.
pub const NUM_SRAND: u8 = 0x30;

/// A(33h): allocate from the heap.
pub const NUM_MALLOC: u8 = 0x33;

/// A(34h): release a heap allocation.
pub const NUM_FREE: u8 = 0x34;

/// A(39h): initialize the heap over a caller-provided region.
pub const NUM_INIT_HEAP: u8 = 0x39;

/// A(3Fh): formatted console output.
pub const NUM_PRINTF: u8 = 0x3F;

/// A(B4h): read one word of system information.
pub const NUM_GET_SYSTEM_INFO: u8 = 0xB4;

/// B(0Eh): open a secondary thread context.
pub const NUM_OPEN_THREAD: u8 = 0x0E;

/// B(0Fh): close a thread context.
pub const NUM_CLOSE_THREAD: u8 = 0x0F;

/// B(10h): switch execution to another thread context.
pub const NUM_CHANGE_THREAD: u8 = 0x10;

/// B(3Dh): debug-output putchar; satisfied by returning without action.
pub const NUM_STD_OUT_PUTCHAR: u8 = 0x3D;

/// The sentinel failure value: all bits set.
pub const CALL_FAILED: u32 = 0xFFFF_FFFF;

/// The `(class, number)` pairs the operation table maps.
pub open spec fn is_mapped(class: u8, number: u8) -> bool {
    ||| class == CLASS_A && (number == NUM_INIT_HEAP || number == NUM_MALLOC || number == NUM_FREE
        || number == NUM_SRAND || number == NUM_RAND || number == NUM_PRINTF
        || number == NUM_GET_SYSTEM_INFO)
    ||| class == CLASS_B && (number == NUM_OPEN_THREAD || number == NUM_CHANGE_THREAD
        || number == NUM_CLOSE_THREAD || number == NUM_STD_OUT_PUTCHAR)
}

/// The heap collaborator's state: a caller-owned region `[base, base+len)`
/// and the bump pointer `next` for the following allocation. `free` is a
/// no-op in this allocator, as on the real console.
#[derive(Clone, Copy, PartialEq, Eq, Structural, Debug)]
pub struct HeapRegion {
    pub base: u32,
    pub len: u32,
    pub next: u32,
}

impl HeapRegion {
    pub open spec fn wf(self) -> bool {
        &&& self.base <= self.next <= self.base + self.len
        &&& self.base + self.len <= u32::MAX
    }
}

/// One recorded `printf` request: the format pointer and the three word
/// arguments, exactly as decoded from the registers.
#[derive(Clone, Copy, PartialEq, Eq, Structural, Debug)]
pub struct PrintfRecord {
    pub fmt: u32,
    pub arg0: u32,
    pub arg1: u32,
    pub arg2: u32,
}

/// The heap region `init_heap(addr, len)` installs: the usable length is
/// clamped so the region never wraps the address space, and the bump
/// pointer starts at the base.
pub open spec fn init_region(addr: u32, len: u32) -> HeapRegion {
    HeapRegion {
        base: addr,
        len: if addr + len <= u32::MAX {
            len
        } else {
            (u32::MAX - addr) as u32
        },
        next: addr,
    }
}

/// What `malloc(len)` does to the heap: with no heap installed, or with too
/// little room left, the null pointer comes back and nothing moves;
/// otherwise the bump pointer is returned and advanced. (A heap based at
/// address zero would make its first pointer indistinguishable from null;
/// real console heaps never sit at zero.)
pub open spec fn malloc_spec(h: Option<HeapRegion>, len: u32) -> (Option<HeapRegion>, u32) {
    match h {
        None => (h, 0u32),
        Some(hr) => if hr.next + len <= hr.base + hr.len {
            (Some(HeapRegion { base: hr.base, len: hr.len, next: (hr.next + len) as u32 }), hr.next)
        } else {
            (h, 0u32)
        },
    }
}

/// One step of the console's linear-congruential generator.
pub open spec fn rng_next(s: u32) -> u32 {
    vstd::wrapping::u32_specs::wrapping_add(
        vstd::wrapping::u32_specs::wrapping_mul(s, 0x41C6_4E6D),
        0x3039,
    )
}

/// The word `rand` returns out of a generator state: bits 16..30.
pub open spec fn rng_out(s: u32) -> u32 {
    (s >> 16) & 0x7FFF
}

/// The word `get_system_info(idx)` answers: the table entry, or zero for
/// an index beyond the table.
pub open spec fn sysinfo_spec(table: Seq<u32>, idx: u32) -> u32 {
    if idx < table.len() {
        table[idx as int]
    } else {
        0u32
    }
}

/// Process-wide BIOS state: initialized once at startup and live for the
/// whole run. `cpu` is the register state of the context that currently
/// holds the processor, as the boundary layer last reported it.
pub struct Kernel {
    pub heap: Option<HeapRegion>,
    pub rng: u32,
    pub info: Vec<u32>,
    pub printed: Vec<PrintfRecord>,
    pub cpu: Regs,
    pub threads: ThreadRegistry,
}

pub open spec fn heap_wf(h: Option<HeapRegion>) -> bool {
    match h {
        None => true,
        Some(hr) => hr.wf(),
    }
}

/// Frame: everything but the heap is as before.
pub open spec fn only_heap_changed(pre: Kernel, post: Kernel) -> bool {
    &&& post.rng == pre.rng
    &&& post.info@ == pre.info@
    &&& post.printed@ == pre.printed@
    &&& post.cpu == pre.cpu
    &&& post.threads@ == pre.threads@
}

/// Frame: everything but the generator state is as before.
pub open spec fn only_rng_changed(pre: Kernel, post: Kernel) -> bool {
    &&& post.heap == pre.heap
    &&& post.info@ == pre.info@
    &&& post.printed@ == pre.printed@
    &&& post.cpu == pre.cpu
    &&& post.threads@ == pre.threads@
}

/// Frame: everything but the output log is as before.
pub open spec fn only_printed_changed(pre: Kernel, post: Kernel) -> bool {
    &&& post.heap == pre.heap
    &&& post.rng == pre.rng
    &&& post.info@ == pre.info@
    &&& post.cpu == pre.cpu
    &&& post.threads@ == pre.threads@
}

/// Frame: everything but the thread registry and the processor state is as
/// before.
pub open spec fn only_threads_changed(pre: Kernel, post: Kernel) -> bool {
    &&& post.heap == pre.heap
    &&& post.rng == pre.rng
    &&& post.info@ == pre.info@
    &&& post.printed@ == pre.printed@
}

/// Frame: the whole kernel is as before.
pub open spec fn nothing_changed(pre: Kernel, post: Kernel) -> bool {
    &&& only_heap_changed(pre, post)
    &&& post.heap == pre.heap
}

impl Kernel {
    pub open spec fn wf(self) -> bool {
        &&& heap_wf(self.heap)
        &&& self.threads.wf()
    }

    /// Build the kernel state: no heap yet, generator state zero, an empty
    /// output log, `capacity` thread slots with the main context running
    /// with state `main`, and the given system-information table.
    pub fn new(capacity: usize, main: Regs, info: Vec<u32>) -> (k: Kernel)
        requires
            1 <= capacity <= MAX_CONTEXTS,
        ensures
            k.wf(),
            k.heap == None::<HeapRegion>,
            k.rng == 0u32,
            k.info@ == info@,
            k.printed@ == Seq::<PrintfRecord>::empty(),
            k.cpu == main,
            k.threads@.slots.len() == capacity,
            k.threads@.current == 0,
    {
        Kernel {
            heap: None,
            rng: 0,
            info,
            printed: Vec::new(),
            cpu: main,
            threads: ThreadRegistry::new(capacity, main),
        }
    }

    /// Install the heap over the caller-provided region `[addr, addr+len)`.
    pub fn init_heap(&mut self, addr: u32, len: u32)
        ensures
            final(self).heap == Some(init_region(addr, len)),
            only_heap_changed(*old(self), *final(self)),
            heap_wf(final(self).heap),
    {
        let usable = if len <= u32::MAX - addr {
            len
        } else {
            u32::MAX - addr
        };
        self.heap = Some(HeapRegion { base: addr, len: usable, next: addr });
    }

    /// Allocate `len` bytes from the bump heap; null when no heap is
    /// installed or the region is exhausted.
    pub fn malloc(&mut self, len: u32) -> (p: u32)
        requires
            heap_wf(old(self).heap),
        ensures
            (final(self).heap, p) == malloc_spec(old(self).heap, len),
            only_heap_changed(*old(self), *final(self)),
            heap_wf(final(self).heap),
    {
        match self.heap {
            None => 0,
            Some(hr) => {
                if len as u64 <= (hr.base as u64 + hr.len as u64) - hr.next as u64 {
                    self.heap = Some(HeapRegion { base: hr.base, len: hr.len, next: hr.next + len });
                    hr.next
                } else {
                    0
                }
            },
        }
    }

    /// Release an allocation: a no-op in the bump allocator, as on the
    /// real console's BIOS heap.
    pub fn free(&mut self, _ptr: u32)
        ensures
            *final(self) == *old(self),
    {
    }

    /// Seed the pseudo-random generator.
    pub fn srand(&mut self, seed: u32)
        ensures
            final(self).rng == seed,
            only_rng_changed(*old(self), *final(self)),
    {
        self.rng = seed;
    }

    /// Step the generator and return its output word (at most 0x7FFF).
    pub fn rand(&mut self) -> (v: u32)
        ensures
            final(self).rng == rng_next(old(self).rng),
            v == rng_out(final(self).rng),
            only_rng_changed(*old(self), *final(self)),
    {
        self.rng = self.rng.wrapping_mul(0x41C6_4E6D).wrapping_add(0x3039);
        (self.rng >> 16) & 0x7FFF
    }

    /// Hand a formatted-output request to the console collaborator. The
    /// format pointer is an unchecked trust boundary (the core never
    /// dereferences it); the request is recorded and this core itself
    /// renders nothing, so it reports zero characters written.
    pub fn printf(&mut self, fmt: u32, arg0: u32, arg1: u32, arg2: u32) -> (n: u32)
        ensures
            final(self).printed@ == old(self).printed@.push(
                PrintfRecord { fmt, arg0, arg1, arg2 },
            ),
            only_printed_changed(*old(self), *final(self)),
            n == 0u32,
    {
        self.printed.push(PrintfRecord { fmt, arg0, arg1, arg2 });
        0
    }

    /// Read one word of system information.
    pub fn get_system_info(&self, idx: u32) -> (w: u32)
        ensures
            w == sysinfo_spec(self.info@, idx),
    {
        if (idx as usize) < self.info.len() {
            self.info[idx as usize]
        } else {
            0
        }
    }

    /// Open a secondary thread context; returns its handle, or the
    /// sentinel failure value when the pool is exhausted.
    pub fn open_thread(&mut self, pc: u32, sp: u32, gp: u32) -> (r: u32)
        requires
            old(self).threads.wf(),
        ensures
            final(self).threads.wf(),
            only_threads_changed(*old(self), *final(self)),
            final(self).cpu == old(self).cpu,
            if old(self).threads@.has_free_slot() {
                r != CALL_FAILED && open_post(
                    old(self).threads@,
                    final(self).threads@,
                    pc,
                    sp,
                    gp,
                    Ok(ThreadHandle(r)),
                )
            } else {
                r == CALL_FAILED && final(self).threads@ == old(self).threads@
            },
    {
        match self.threads.open(pc, sp, gp) {
            Ok(h) => {
                proof {
                    assert(old(self).threads@.free_slot(crate::thread::slot_index(h)));
                }
                h.0
            },
            Err(_) => CALL_FAILED,
        }
    }

    /// Switch execution to the context `handle` names, saving the current
    /// processor state first; returns 1 to the entered context, or the
    /// sentinel failure value for an invalid handle (the caller's state is
    /// then untouched).
    pub fn change_thread(&mut self, handle: u32) -> (r: u32)
        requires
            old(self).threads.wf(),
        ensures
            final(self).threads.wf(),
            only_threads_changed(*old(self), *final(self)),
            match switch_tr(old(self).threads@, ThreadHandle(handle), old(self).cpu).1 {
                Ok(regs) => r == 1u32 && final(self).cpu == regs && final(self).threads@
                    == switch_tr(old(self).threads@, ThreadHandle(handle), old(self).cpu).0,
                Err(_) => r == CALL_FAILED && final(self).cpu == old(self).cpu
                    && final(self).threads@ == old(self).threads@,
            },
    {
        let saved = self.cpu;
        match self.threads.switch_to(ThreadHandle(handle), saved) {
            Ok(regs) => {
                self.cpu = regs;
                1
            },
            Err(_) => CALL_FAILED,
        }
    }

    /// Close the context `handle` names; returns 1, or the sentinel
    /// failure value for an invalid handle or the main context.
    pub fn close_thread(&mut self, handle: u32) -> (r: u32)
        requires
            old(self).threads.wf(),
        ensures
            final(self).threads.wf(),
            only_threads_changed(*old(self), *final(self)),
            final(self).cpu == old(self).cpu,
            match close_tr(old(self).threads@, ThreadHandle(handle)).1 {
                Ok(u) => r == 1u32 && final(self).threads@ == close_tr(
                    old(self).threads@,
                    ThreadHandle(handle),
                ).0,
                Err(_) => r == CALL_FAILED && final(self).threads@ == old(self).threads@,
            },
    {
        match self.threads.close(ThreadHandle(handle)) {
            Ok(_) => 1,
            Err(_) => CALL_FAILED,
        }
    }
}

/// The full contract of one dispatched BIOS call: the operation table of
/// the call interface, one clause per `(class, number)` selector. Any
/// selector outside the table returns the sentinel failure value and
/// performs no side effect.
pub open spec fn dispatch_post(
    pre: Kernel,
    post: Kernel,
    class: u8,
    number: u8,
    a0: u32,
    a1: u32,
    a2: u32,
    a3: u32,
    r: u32,
) -> bool {
    if !is_mapped(class, number) {
        r == CALL_FAILED && post == pre
    } else if class == CLASS_A {
        if number == NUM_INIT_HEAP {
            post.heap == Some(init_region(a0, a1)) && r == 0u32 && only_heap_changed(pre, post)
        } else if number == NUM_MALLOC {
            (post.heap, r) == malloc_spec(pre.heap, a0) && only_heap_changed(pre, post)
        } else if number == NUM_FREE {
            post == pre && r == 0u32
        } else if number == NUM_SRAND {
            post.rng == a0 && r == 0u32 && only_rng_changed(pre, post)
        } else if number == NUM_RAND {
            post.rng == rng_next(pre.rng) && r == rng_out(post.rng) && only_rng_changed(pre, post)
        } else if number == NUM_PRINTF {
            post.printed@ == pre.printed@.push(PrintfRecord { fmt: a0, arg0: a1, arg1: a2, arg2: a3 })
                && r == 0u32 && only_printed_changed(pre, post)
        } else {
            // NUM_GET_SYSTEM_INFO
            post == pre && r == sysinfo_spec(pre.info@, a0)
        }
    } else {
        if number == NUM_OPEN_THREAD {
            &&& only_threads_changed(pre, post)
            &&& post.cpu == pre.cpu
            &&& if pre.threads@.has_free_slot() {
                r != CALL_FAILED && open_post(
                    pre.threads@,
                    post.threads@,
                    a0,
                    a1,
                    a2,
                    Ok(ThreadHandle(r)),
                )
            } else {
                r == CALL_FAILED && post.threads@ == pre.threads@
            }
        } else if number == NUM_CHANGE_THREAD {
            &&& only_threads_changed(pre, post)
            &&& match switch_tr(pre.threads@, ThreadHandle(a0), pre.cpu).1 {
                Ok(regs) => r == 1u32 && post.cpu == regs && post.threads@ == switch_tr(
                    pre.threads@,
                    ThreadHandle(a0),
                    pre.cpu,
                ).0,
                Err(_) => r == CALL_FAILED && post.cpu == pre.cpu && post.threads@ == pre.threads@,
            }
        } else if number == NUM_CLOSE_THREAD {
            &&& only_threads_changed(pre, post)
            &&& post.cpu == pre.cpu
            &&& match close_tr(pre.threads@, ThreadHandle(a0)).1 {
                Ok(u) => r == 1u32 && post.threads@ == close_tr(pre.threads@, ThreadHandle(a0)).0,
                Err(_) => r == CALL_FAILED && post.threads@ == pre.threads@,
            }
        } else {
            // NUM_STD_OUT_PUTCHAR
            post == pre && r == 0u32
        }
    }
}

impl Kernel {
    /// The shared handler behind the three call gates: route one decoded
    /// call to its operation and return the word for the return register.
    pub fn dispatch(&mut self, class: u8, number: u8, a0: u32, a1: u32, a2: u32, a3: u32) -> (r:
        u32)
        requires
            old(self).wf(),
        ensures
            final(self).wf(),
            dispatch_post(*old(self), *final(self), class, number, a0, a1, a2, a3, r),
    {
        if class == CLASS_A {
            if number == NUM_INIT_HEAP {
                self.init_heap(a0, a1);
                0
            } else if number == NUM_MALLOC {
                self.malloc(a0)
            } else if number == NUM_FREE {
                self.free(a0);
                0
            } else if number == NUM_SRAND {
                self.srand(a0);
                0
            } else if number == NUM_RAND {
                self.rand()
            } else if number == NUM_PRINTF {
                self.printf(a0, a1, a2, a3)
            } else if number == NUM_GET_SYSTEM_INFO {
                self.get_system_info(a0)
            } else {
                CALL_FAILED
            }
        } else if class == CLASS_B {
            if number == NUM_OPEN_THREAD {
                self.open_thread(a0, a1, a2)
            } else if number == NUM_CHANGE_THREAD {
                self.change_thread(a0)
            } else if number == NUM_CLOSE_THREAD {
                self.close_thread(a0)
            } else if number == NUM_STD_OUT_PUTCHAR {
                0
            } else {
                CALL_FAILED
            }
        } else {
            CALL_FAILED
        }
    }

    /// Call gate A: the fixed entry point that tags function class A0h and
    /// falls through into the shared handler.
    pub fn gate_a(&mut self, number: u8, a0: u32, a1: u32, a2: u32, a3: u32) -> (r: u32)
        requires
            old(self).wf(),
        ensures
            final(self).wf(),
            dispatch_post(*old(self), *final(self), CLASS_A, number, a0, a1, a2, a3, r),
    {
        self.dispatch(CLASS_A, number, a0, a1, a2, a3)
    }

    /// Call gate B: the fixed entry point that tags function class B0h.
    pub fn gate_b(&mut self, number: u8, a0: u32, a1: u32, a2: u32, a3: u32) -> (r: u32)
        requires
            old(self).wf(),
        ensures
            final(self).wf(),
            dispatch_post(*old(self), *final(self), CLASS_B, number, a0, a1, a2, a3, r),
    {
        self.dispatch(CLASS_B, number, a0, a1, a2, a3)
    }

    /// Call gate C: the fixed entry point that tags function class C0h.
    /// The operation table maps no C-class calls, so every call through it
    /// reports the unimplemented-call sentinel.
    pub fn gate_c(&mut self, number: u8, a0: u32, a1: u32, a2: u32, a3: u32) -> (r: u32)
        requires
            old(self).wf(),
        ensures
            final(self).wf(),
            dispatch_post(*old(self), *final(self), CLASS_C, number, a0, a1, a2, a3, r),
    {
        self.dispatch(CLASS_C, number, a0, a1, a2, a3)
    }
}

/// Law: a `(class, number)` selector outside the operation table yields
/// the sentinel failure value and performs no side effect at all.
pub proof fn lemma_unmapped_call_is_harmless(
    pre: Kernel,
    post: Kernel,
    class: u8,
    number: u8,
    a0: u32,
    a1: u32,
    a2: u32,
    a3: u32,
    r: u32,
)
    requires
        dispatch_post(pre, post, class, number, a0, a1, a2, a3, r),
        !is_mapped(class, number),
    ensures
        r == CALL_FAILED,
        post == pre,
{
}

} // verus!
