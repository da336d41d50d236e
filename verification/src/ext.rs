//! The external-state adapter: per-execution state (counters, identities,
//! message buffers, reservations, allocations) mutated exclusively by
//! host-function calls during one execution and read back at its end.
//! Memory growth is wrapped in the two-phase lazy-pages grow handling.

use vstd::prelude::*;
use crate::charge::GasCounters;
use crate::lazy::{LazyGrowHandler, LazyPages, MemoryInterval, OutOfMemoryAccessError};
use crate::memory::GuestMemory;

verus! {

/// Typed errors of the adapter's operations; the host-function boundary
/// converts each into an engine-level trap.
#[derive(Clone, Copy, Debug, PartialEq, Eq, Structural)]
pub enum ProcessorError {
    /// Gas could not cover a charge.
    GasLimitExceeded,
    /// Allowance could not cover a charge.
    GasAllowanceExceeded,
    /// A message handle named no open outgoing message.
    InvalidHandle,
    /// A reply was already committed for this execution.
    DuplicateReply,
    /// A reservation identifier named no live reservation.
    UnknownReservation,
    /// A page was freed that was never allocated.
    InvalidFree,
    /// Growing memory would exceed the configured maximum.
    OutOfMemory,
    /// A wait duration of zero blocks.
    ZeroDuration,
    /// A read of the incoming payload past its end.
    ReadOutOfBounds,
    /// No reply context: the message being processed is not a reply.
    NoReplyContext,
}

/// The cost kinds charged per host call.
#[derive(Clone, Copy, Debug, PartialEq, Eq, Structural)]
pub enum RuntimeCosts {
    Base,
    Alloc,
    Free,
    Send,
    Reply,
}

/// Weight of each runtime cost kind; pure policy data.
#[derive(Clone, Copy, Debug, PartialEq, Eq, Structural)]
pub struct RuntimeWeights {
    pub base: u64,
    pub alloc: u64,
    pub free: u64,
    pub send: u64,
    pub reply: u64,
}

/// One outgoing message under construction or committed.
pub struct OutgoingMessage {
    pub payload: Vec<u8>,
    pub committed: bool,
    pub delay: u32,
    pub message_id: u64,
}

/// One live gas reservation.
#[derive(Clone, Copy, Debug, PartialEq, Eq, Structural)]
pub struct Reservation {
    pub id: u64,
    pub amount: u64,
    pub blocks: u32,
}

/// How the program asked to be suspended, if it did.
#[derive(Clone, Copy, Debug, PartialEq, Eq, Structural)]
pub enum WaitKind {
    Indefinite,
    For(u32),
    UpTo(u32),
}

/// Per-execution context handed in when the adapter is created: counters,
/// identities, policy and environment facts.
pub struct ProcessorContext {
    pub counters: GasCounters,
    pub program_id: u64,
    pub message_id: u64,
    pub msg_source: u64,
    pub origin: u64,
    pub value: u128,
    pub value_available: u128,
    pub block_height: u32,
    pub block_timestamp: u64,
    pub random_payload: Vec<u8>,
    /// Payload of the message being processed.
    pub incoming_payload: Vec<u8>,
    /// The message this execution replies to, where it is a reply at all.
    pub reply_to_id: Option<u64>,
    pub forbidden: Vec<String>,
    pub weights: RuntimeWeights,
    pub static_pages: u32,
    pub max_pages: u32,
}

/// What an execution leaves behind for accounting and persistence: the
/// remaining counters, the touched pages with their final contents, and
/// the produced messages.
pub struct ExtInfo {
    pub counters: GasCounters,
    pub accessed_pages: Vec<(u32, Vec<u8>)>,
    pub outgoing: Vec<OutgoingMessage>,
    pub reply_payload: Vec<u8>,
    pub reply_committed: bool,
}

/// A released page is extracted when it lies in the static area or in the
/// allocated dynamic region.
pub open spec fn spec_kept(p: u32, static_pages: u32, allocs: Seq<u32>) -> bool {
    p < static_pages || allocs.contains(p)
}

fn contains_page(v: &Vec<u32>, p: u32) -> (r: bool)
    ensures
        r == v@.contains(p),
{
    let mut i: usize = 0;
    while i < v.len()
        invariant
            i <= v@.len(),
            forall|j: int| 0 <= j < i ==> v@[j] != p,
        decreases v@.len() - i,
    {
        if v[i] == p {
            return true;
        }
        i = i + 1;
    }
    false
}

/// External-state adapter with lazy-pages support.
pub struct LazyPagesExt {
    pub context: ProcessorContext,
    /// Wasm pages allocated to the program beyond the static area.
    pub allocations: Vec<u32>,
    pub outgoing: Vec<OutgoingMessage>,
    pub reply_payload: Vec<u8>,
    pub reply_committed: bool,
    pub reply_delay: u32,
    pub reservations: Vec<Reservation>,
    pub system_reserved: u64,
    pub waited: Option<WaitKind>,
    pub woken: Vec<(u64, u32)>,
    pub message_nonce: u64,
}

impl LazyPagesExt {
    /// A fresh adapter over one execution's context.
    pub fn new(context: ProcessorContext) -> (e: LazyPagesExt)
        ensures
            e.context == context,
            e.allocations@.len() == 0,
            e.outgoing@.len() == 0,
            e.reply_payload@.len() == 0,
            !e.reply_committed,
            e.reservations@.len() == 0,
            e.waited is None,
            e.woken@.len() == 0,
            e.message_nonce == 0,
    {
        LazyPagesExt {
            context,
            allocations: Vec::new(),
            outgoing: Vec::new(),
            reply_payload: Vec::new(),
            reply_committed: false,
            reply_delay: 0,
            reservations: Vec::new(),
            system_reserved: 0,
            waited: None,
            woken: Vec::new(),
            message_nonce: 0,
        }
    }

    /// Decrement gas by `amount`; fails with an out-of-gas error, changing
    /// nothing, exactly when gas cannot cover it.
    pub fn charge_gas(&mut self, amount: u64) -> (r: Result<(), ProcessorError>)
        ensures
            r is Ok <==> old(self).context.counters.gas >= amount,
            r is Ok ==> final(self).context.counters.gas == old(self).context.counters.gas
                - amount,
            r is Err ==> *final(self) == *old(self) && r == Err::<(), ProcessorError>(
                ProcessorError::GasLimitExceeded,
            ),
            final(self).context.counters.allowance == old(self).context.counters.allowance,
            unchanged_but_counters(*old(self), *final(self)),
    {
        if self.context.counters.gas < amount {
            Err(ProcessorError::GasLimitExceeded)
        } else {
            self.context.counters.gas = self.context.counters.gas - amount;
            Ok(())
        }
    }

    /// The weight of one runtime cost kind.
    pub fn runtime_cost(&self, kind: RuntimeCosts) -> (c: u64)
        ensures
            c == spec_runtime_cost(self.context.weights, kind),
    {
        match kind {
            RuntimeCosts::Base => self.context.weights.base,
            RuntimeCosts::Alloc => self.context.weights.alloc,
            RuntimeCosts::Free => self.context.weights.free,
            RuntimeCosts::Send => self.context.weights.send,
            RuntimeCosts::Reply => self.context.weights.reply,
        }
    }

    /// Charge the weight of one runtime cost kind against gas.
    pub fn charge_gas_runtime(&mut self, kind: RuntimeCosts) -> (r: Result<(), ProcessorError>)
        ensures
            r is Ok <==> old(self).context.counters.gas >= spec_runtime_cost(
                old(self).context.weights,
                kind,
            ),
            r is Ok ==> final(self).context.counters.gas == old(self).context.counters.gas
                - spec_runtime_cost(old(self).context.weights, kind),
            r is Err ==> *final(self) == *old(self),
            final(self).context.counters.allowance == old(self).context.counters.allowance,
            unchanged_but_counters(*old(self), *final(self)),
    {
        let c = self.runtime_cost(kind);
        self.charge_gas(c)
    }

    /// Both counters, for synchronizing with the instrumented globals.
    pub fn counters(&self) -> (r: (u64, u64))
        ensures
            r.0 == self.context.counters.gas,
            r.1 == self.context.counters.allowance,
    {
        (self.context.counters.gas, self.context.counters.allowance)
    }

    /// Overwrite both counters from the instrumented globals.
    pub fn update_counters(&mut self, gas: u64, allowance: u64)
        ensures
            final(self).context.counters.gas == gas,
            final(self).context.counters.allowance == allowance,
            unchanged_but_counters(*old(self), *final(self)),
    {
        self.context.counters.gas = gas;
        self.context.counters.allowance = allowance;
    }

    /// The error reported when the out-of-gas trap import fires.
    pub fn out_of_gas(&self) -> (e: ProcessorError)
        ensures
            e == ProcessorError::GasLimitExceeded,
    {
        ProcessorError::GasLimitExceeded
    }

    /// The error reported when the out-of-allowance trap import fires.
    pub fn out_of_allowance(&self) -> (e: ProcessorError)
        ensures
            e == ProcessorError::GasAllowanceExceeded,
    {
        ProcessorError::GasAllowanceExceeded
    }

    /// Remaining gas.
    pub fn gas_available(&self) -> (g: u64)
        ensures
            g == self.context.counters.gas,
    {
        self.context.counters.gas
    }

    /// The operations this context's policy disallows; the dispatch layer
    /// checks a host function's name here before invoking it.
    pub fn forbidden_funcs(&self) -> (r: &Vec<String>)
        ensures
            r == &self.context.forbidden,
    {
        &self.context.forbidden
    }
}

/// Everything of the adapter except the two counters is unchanged.
pub open spec fn unchanged_but_counters(a: LazyPagesExt, b: LazyPagesExt) -> bool {
    &&& b.context.program_id == a.context.program_id
    &&& b.context.message_id == a.context.message_id
    &&& b.context.msg_source == a.context.msg_source
    &&& b.context.origin == a.context.origin
    &&& b.context.value == a.context.value
    &&& b.context.value_available == a.context.value_available
    &&& b.context.block_height == a.context.block_height
    &&& b.context.block_timestamp == a.context.block_timestamp
    &&& b.context.random_payload == a.context.random_payload
    &&& b.context.incoming_payload == a.context.incoming_payload
    &&& b.context.reply_to_id == a.context.reply_to_id
    &&& b.context.forbidden == a.context.forbidden
    &&& b.context.weights == a.context.weights
    &&& b.context.static_pages == a.context.static_pages
    &&& b.context.max_pages == a.context.max_pages
    &&& b.allocations == a.allocations
    &&& b.outgoing == a.outgoing
    &&& b.reply_payload == a.reply_payload
    &&& b.reply_committed == a.reply_committed
    &&& b.reply_delay == a.reply_delay
    &&& b.reservations == a.reservations
    &&& b.system_reserved == a.system_reserved
    &&& b.waited == a.waited
    &&& b.woken == a.woken
    &&& b.message_nonce == a.message_nonce
}

/// The weight of one runtime cost kind.
pub open spec fn spec_runtime_cost(w: RuntimeWeights, kind: RuntimeCosts) -> u64 {
    match kind {
        RuntimeCosts::Base => w.base,
        RuntimeCosts::Alloc => w.alloc,
        RuntimeCosts::Free => w.free,
        RuntimeCosts::Send => w.send,
        RuntimeCosts::Reply => w.reply,
    }
}

impl LazyPagesExt {
    /// Grow guest memory by `pages` pages, wrapped in the two-phase grow
    /// handling (protections dropped before, recomputed after). Returns the
    /// first page of the new region and records the allocation; fails,
    /// changing nothing, when the configured maximum would be exceeded.
    pub fn alloc_pages(&mut self, pages: u32, mem: &mut GuestMemory, lazy: &mut LazyPages) -> (r: Result<
        u32,
        ProcessorError,
    >)
        requires
            old(mem).wf(),
            old(lazy).wf(),
            old(lazy).total_pages == old(mem)@.len(),
        ensures
            final(mem).wf(),
            final(lazy).wf(),
            r is Ok <==> old(mem)@.len() + pages <= old(self).context.max_pages,
            r is Err ==> *final(self) == *old(self) && *final(mem) == *old(mem) && *final(lazy)
                == *old(lazy) && r == Err::<u32, ProcessorError>(ProcessorError::OutOfMemory),
            r matches Ok(start) ==> {
                &&& start == old(mem)@.len()
                &&& final(mem)@.len() == old(mem)@.len() + pages
                &&& forall|i: int| 0 <= i < old(mem)@.len() ==> final(mem)@[i] == old(mem)@[i]
                &&& final(lazy).active
                &&& final(lazy).total_pages == final(mem)@.len()
                &&& forall|p: int|
                    0 <= p < old(lazy).total_pages ==> (#[trigger] final(lazy).released@[p]) == old(lazy).released@[p]
                &&& final(self).allocations@.len() == old(self).allocations@.len() + pages
                &&& forall|i: int|
                    0 <= i < old(self).allocations@.len() ==> (#[trigger] final(self).allocations@[i]) == old(self).allocations@[i]
                &&& forall|i: int|
                    0 <= i < pages ==> (#[trigger] final(self).allocations@[old(self).allocations@.len() + i]) == old(mem)@.len() + i
            },
            final(self).context == old(self).context,
            final(self).outgoing == old(self).outgoing,
            final(self).reply_payload == old(self).reply_payload,
            final(self).reply_committed == old(self).reply_committed,
            final(self).reservations == old(self).reservations,
            final(self).waited == old(self).waited,
            final(self).woken == old(self).woken,
            final(self).message_nonce == old(self).message_nonce,
    {
        let old_size: u32 = mem.size();
        if pages > self.context.max_pages || old_size > self.context.max_pages - pages {
            return Err(ProcessorError::OutOfMemory);
        }
        let h = LazyGrowHandler::before_grow_action(lazy, mem);
        mem.grow(pages);
        h.after_grow_action(lazy, mem);
        let ghost old_allocs = self.allocations@;
        let mut i: u32 = 0;
        while i < pages
            invariant
                i <= pages,
                old_size + pages <= u32::MAX,
                self.allocations@.len() == old_allocs.len() + i,
                forall|j: int|
                    0 <= j < old_allocs.len() ==> (#[trigger] self.allocations@[j]) == old_allocs[j],
                forall|j: int|
                    0 <= j < i ==> (#[trigger] self.allocations@[old_allocs.len() + j]) == old_size
                        + j,
                self.context == old(self).context,
                self.outgoing == old(self).outgoing,
                self.reply_payload == old(self).reply_payload,
                self.reply_committed == old(self).reply_committed,
                self.reply_delay == old(self).reply_delay,
                self.reservations == old(self).reservations,
                self.system_reserved == old(self).system_reserved,
                self.waited == old(self).waited,
                self.woken == old(self).woken,
                self.message_nonce == old(self).message_nonce,
            decreases pages - i,
        {
            self.allocations.push(old_size + i);
            i = i + 1;
        }
        Ok(old_size)
    }

    /// Return one allocated page; fails, changing nothing, when the page
    /// was never allocated (or was already freed).
    pub fn free(&mut self, page: u32) -> (r: Result<(), ProcessorError>)
        ensures
            r is Ok <==> old(self).allocations@.contains(page),
            r is Err ==> *final(self) == *old(self) && r == Err::<(), ProcessorError>(
                ProcessorError::InvalidFree,
            ),
            r is Ok ==> exists|i: int|
                0 <= i < old(self).allocations@.len() && old(self).allocations@[i] == page && final(self).allocations@ == old(self).allocations@.remove(i),
            final(self).context == old(self).context,
            final(self).outgoing == old(self).outgoing,
            final(self).reply_payload == old(self).reply_payload,
            final(self).reply_committed == old(self).reply_committed,
            final(self).reservations == old(self).reservations,
            final(self).waited == old(self).waited,
            final(self).woken == old(self).woken,
            final(self).message_nonce == old(self).message_nonce,
    {
        let mut i: usize = 0;
        while i < self.allocations.len()
            invariant
                i <= self.allocations@.len(),
                forall|j: int| 0 <= j < i ==> self.allocations@[j] != page,
                *self == *old(self),
            decreases self.allocations@.len() - i,
        {
            if self.allocations[i] == page {
                self.allocations.remove(i);
                return Ok(());
            }
            i = i + 1;
        }
        Err(ProcessorError::InvalidFree)
    }

    /// Open a new outgoing message buffer and hand back its handle.
    pub fn send_init(&mut self) -> (r: Result<u32, ProcessorError>)
        requires
            old(self).outgoing@.len() < u32::MAX,
        ensures
            r is Ok,
            r->Ok_0 == old(self).outgoing@.len(),
            final(self).outgoing@.len() == old(self).outgoing@.len() + 1,
            forall|j: int|
                0 <= j < old(self).outgoing@.len() ==> final(self).outgoing@[j] == old(self).outgoing@[j],
            final(self).outgoing@.last().payload@.len() == 0,
            !final(self).outgoing@.last().committed,
            final(self).context == old(self).context,
            final(self).allocations == old(self).allocations,
            final(self).reply_payload == old(self).reply_payload,
            final(self).reply_committed == old(self).reply_committed,
            final(self).reservations == old(self).reservations,
            final(self).waited == old(self).waited,
            final(self).woken == old(self).woken,
            final(self).message_nonce == old(self).message_nonce,
    {
        let handle: u32 = self.outgoing.len() as u32;
        self.outgoing.push(
            OutgoingMessage { payload: Vec::new(), committed: false, delay: 0, message_id: 0 },
        );
        Ok(handle)
    }

    /// Append bytes to an open outgoing message; fails, changing nothing,
    /// on an unknown or already-committed handle.
    pub fn send_push(&mut self, handle: u32, buffer: &Vec<u8>) -> (r: Result<(), ProcessorError>)
        ensures
            r is Ok <==> handle < old(self).outgoing@.len() && !old(self).outgoing@[handle as int].committed,
            r is Err ==> *final(self) == *old(self) && r == Err::<(), ProcessorError>(
                ProcessorError::InvalidHandle,
            ),
            r is Ok ==> {
                &&& final(self).outgoing@.len() == old(self).outgoing@.len()
                &&& final(self).outgoing@[handle as int].payload@ == old(self).outgoing@[handle as int].payload@ + buffer@
                &&& final(self).outgoing@[handle as int].committed == old(self).outgoing@[handle as int].committed
                &&& forall|j: int|
                    0 <= j < old(self).outgoing@.len() && j != handle ==> final(self).outgoing@[j]
                        == old(self).outgoing@[j]
            },
            final(self).context == old(self).context,
            final(self).allocations == old(self).allocations,
            final(self).reply_payload == old(self).reply_payload,
            final(self).reply_committed == old(self).reply_committed,
            final(self).reservations == old(self).reservations,
            final(self).waited == old(self).waited,
            final(self).woken == old(self).woken,
            final(self).message_nonce == old(self).message_nonce,
    {
        if handle as usize >= self.outgoing.len() {
            return Err(ProcessorError::InvalidHandle);
        }
        if self.outgoing[handle as usize].committed {
            return Err(ProcessorError::InvalidHandle);
        }
        let ghost orig = self.outgoing@;
        let mut i: usize = 0;
        while i < buffer.len()
            invariant
                i <= buffer@.len(),
                (handle as int) < self.outgoing@.len(),
                self.outgoing@.len() == orig.len(),
                self.outgoing@[handle as int].payload@ == orig[handle as int].payload@
                    + buffer@.subrange(0, i as int),
                self.outgoing@[handle as int].committed == orig[handle as int].committed,
                self.outgoing@[handle as int].delay == orig[handle as int].delay,
                self.outgoing@[handle as int].message_id == orig[handle as int].message_id,
                forall|j: int|
                    0 <= j < orig.len() && j != handle ==> self.outgoing@[j] == orig[j],
                self.context == old(self).context,
                self.allocations == old(self).allocations,
                self.reply_payload == old(self).reply_payload,
                self.reply_committed == old(self).reply_committed,
                self.reply_delay == old(self).reply_delay,
                self.reservations == old(self).reservations,
                self.system_reserved == old(self).system_reserved,
                self.waited == old(self).waited,
                self.woken == old(self).woken,
                self.message_nonce == old(self).message_nonce,
            decreases buffer@.len() - i,
        {
            self.outgoing[handle as usize].payload.push(buffer[i]);
            proof {
                assert(self.outgoing@[handle as int].payload@ =~= orig[handle as int].payload@
                    + buffer@.subrange(0, i as int + 1));
            }
            i = i + 1;
        }
        proof {
            assert(buffer@.subrange(0, buffer@.len() as int) =~= buffer@);
        }
        Ok(())
    }

    /// Commit an open outgoing message with a delivery delay, stamping it
    /// with a fresh message identifier; fails, changing nothing, on an
    /// unknown or already-committed handle.
    pub fn send_commit(&mut self, handle: u32, delay: u32) -> (r: Result<u64, ProcessorError>)
        requires
            old(self).message_nonce < u64::MAX,
        ensures
            r is Ok <==> handle < old(self).outgoing@.len() && !old(self).outgoing@[handle as int].committed,
            r is Err ==> *final(self) == *old(self) && r == Err::<u64, ProcessorError>(
                ProcessorError::InvalidHandle,
            ),
            r matches Ok(id) ==> {
                &&& id == old(self).message_nonce
                &&& final(self).message_nonce == old(self).message_nonce + 1
                &&& final(self).outgoing@.len() == old(self).outgoing@.len()
                &&& final(self).outgoing@[handle as int].committed
                &&& final(self).outgoing@[handle as int].delay == delay
                &&& final(self).outgoing@[handle as int].message_id == id
                &&& final(self).outgoing@[handle as int].payload == old(self).outgoing@[handle as int].payload
                &&& forall|j: int|
                    0 <= j < old(self).outgoing@.len() && j != handle ==> final(self).outgoing@[j]
                        == old(self).outgoing@[j]
            },
            final(self).context == old(self).context,
            final(self).allocations == old(self).allocations,
            final(self).reply_payload == old(self).reply_payload,
            final(self).reply_committed == old(self).reply_committed,
            final(self).reservations == old(self).reservations,
            final(self).waited == old(self).waited,
            final(self).woken == old(self).woken,
    {
        if handle as usize >= self.outgoing.len() {
            return Err(ProcessorError::InvalidHandle);
        }
        if self.outgoing[handle as usize].committed {
            return Err(ProcessorError::InvalidHandle);
        }
        let id: u64 = self.message_nonce;
        self.message_nonce = self.message_nonce + 1;
        self.outgoing[handle as usize].committed = true;
        self.outgoing[handle as usize].delay = delay;
        self.outgoing[handle as usize].message_id = id;
        Ok(id)
    }

    /// Append bytes to the reply under construction; fails, changing
    /// nothing, once the reply was committed.
    pub fn reply_push(&mut self, buffer: &Vec<u8>) -> (r: Result<(), ProcessorError>)
        ensures
            r is Ok <==> !old(self).reply_committed,
            r is Err ==> *final(self) == *old(self) && r == Err::<(), ProcessorError>(
                ProcessorError::DuplicateReply,
            ),
            r is Ok ==> final(self).reply_payload@ == old(self).reply_payload@ + buffer@,
            final(self).reply_committed == old(self).reply_committed,
            final(self).context == old(self).context,
            final(self).allocations == old(self).allocations,
            final(self).outgoing == old(self).outgoing,
            final(self).reservations == old(self).reservations,
            final(self).waited == old(self).waited,
            final(self).woken == old(self).woken,
            final(self).message_nonce == old(self).message_nonce,
    {
        if self.reply_committed {
            return Err(ProcessorError::DuplicateReply);
        }
        let mut i: usize = 0;
        let ghost orig = self.reply_payload@;
        while i < buffer.len()
            invariant
                i <= buffer@.len(),
                self.reply_payload@ == orig + buffer@.subrange(0, i as int),
                self.reply_committed == old(self).reply_committed,
                self.context == old(self).context,
                self.allocations == old(self).allocations,
                self.outgoing == old(self).outgoing,
                self.reply_delay == old(self).reply_delay,
                self.reservations == old(self).reservations,
                self.system_reserved == old(self).system_reserved,
                self.waited == old(self).waited,
                self.woken == old(self).woken,
                self.message_nonce == old(self).message_nonce,
            decreases buffer@.len() - i,
        {
            self.reply_payload.push(buffer[i]);
            proof {
                assert(self.reply_payload@ =~= orig + buffer@.subrange(0, i as int + 1));
            }
            i = i + 1;
        }
        proof {
            assert(buffer@.subrange(0, buffer@.len() as int) =~= buffer@);
        }
        Ok(())
    }

    /// Commit the reply with a delivery delay, stamping it with a fresh
    /// message identifier; at most one reply per execution.
    pub fn reply_commit(&mut self, delay: u32) -> (r: Result<u64, ProcessorError>)
        requires
            old(self).message_nonce < u64::MAX,
        ensures
            r is Ok <==> !old(self).reply_committed,
            r is Err ==> *final(self) == *old(self) && r == Err::<u64, ProcessorError>(
                ProcessorError::DuplicateReply,
            ),
            r matches Ok(id) ==> {
                &&& id == old(self).message_nonce
                &&& final(self).message_nonce == old(self).message_nonce + 1
                &&& final(self).reply_committed
                &&& final(self).reply_delay == delay
                &&& final(self).reply_payload == old(self).reply_payload
            },
            final(self).context == old(self).context,
            final(self).allocations == old(self).allocations,
            final(self).outgoing == old(self).outgoing,
            final(self).reservations == old(self).reservations,
            final(self).waited == old(self).waited,
            final(self).woken == old(self).woken,
    {
        if self.reply_committed {
            return Err(ProcessorError::DuplicateReply);
        }
        let id: u64 = self.message_nonce;
        self.message_nonce = self.message_nonce + 1;
        self.reply_committed = true;
        self.reply_delay = delay;
        Ok(id)
    }

    /// Set gas aside under a fresh reservation identifier; fails with the
    /// out-of-gas error, changing nothing, when gas cannot cover it.
    pub fn reserve_gas(&mut self, amount: u64, blocks: u32) -> (r: Result<u64, ProcessorError>)
        requires
            old(self).message_nonce < u64::MAX,
        ensures
            r is Ok <==> old(self).context.counters.gas >= amount,
            r is Err ==> *final(self) == *old(self) && r == Err::<u64, ProcessorError>(
                ProcessorError::GasLimitExceeded,
            ),
            r matches Ok(id) ==> {
                &&& id == old(self).message_nonce
                &&& final(self).message_nonce == old(self).message_nonce + 1
                &&& final(self).context.counters.gas == old(self).context.counters.gas - amount
                &&& final(self).reservations@ == old(self).reservations@.push(
                    Reservation { id, amount, blocks },
                )
            },
            final(self).context.counters.allowance == old(self).context.counters.allowance,
            final(self).allocations == old(self).allocations,
            final(self).outgoing == old(self).outgoing,
            final(self).reply_payload == old(self).reply_payload,
            final(self).reply_committed == old(self).reply_committed,
            final(self).waited == old(self).waited,
            final(self).woken == old(self).woken,
    {
        if self.context.counters.gas < amount {
            return Err(ProcessorError::GasLimitExceeded);
        }
        self.context.counters.gas = self.context.counters.gas - amount;
        let id: u64 = self.message_nonce;
        self.message_nonce = self.message_nonce + 1;
        self.reservations.push(Reservation { id, amount, blocks });
        Ok(id)
    }

    /// Give a reservation's gas back (saturating at the counter's range)
    /// and drop it; fails, changing nothing, on an unknown identifier.
    pub fn unreserve_gas(&mut self, id: u64) -> (r: Result<u64, ProcessorError>)
        ensures
            r is Ok <==> exists|i: int|
                0 <= i < old(self).reservations@.len() && (#[trigger] old(self).reservations@[i]).id == id,
            r is Err ==> *final(self) == *old(self) && r == Err::<u64, ProcessorError>(
                ProcessorError::UnknownReservation,
            ),
            r matches Ok(amount) ==> exists|i: int|
                {
                    &&& 0 <= i < old(self).reservations@.len()
                    &&& (#[trigger] old(self).reservations@[i]).id == id
                    &&& amount == old(self).reservations@[i].amount
                    &&& final(self).reservations@ == old(self).reservations@.remove(i)
                    &&& final(self).context.counters.gas == if old(self).context.counters.gas
                        + amount <= u64::MAX {
                        old(self).context.counters.gas + amount
                    } else {
                        u64::MAX as int
                    }
                },
            final(self).context.counters.allowance == old(self).context.counters.allowance,
            final(self).allocations == old(self).allocations,
            final(self).outgoing == old(self).outgoing,
            final(self).reply_payload == old(self).reply_payload,
            final(self).reply_committed == old(self).reply_committed,
            final(self).waited == old(self).waited,
            final(self).woken == old(self).woken,
            final(self).message_nonce == old(self).message_nonce,
    {
        let mut i: usize = 0;
        while i < self.reservations.len()
            invariant
                i <= self.reservations@.len(),
                forall|j: int| 0 <= j < i ==> (#[trigger] self.reservations@[j]).id != id,
                *self == *old(self),
            decreases self.reservations@.len() - i,
        {
            if self.reservations[i].id == id {
                let res = self.reservations.remove(i);
                if res.amount > u64::MAX - self.context.counters.gas {
                    self.context.counters.gas = u64::MAX;
                } else {
                    self.context.counters.gas = self.context.counters.gas + res.amount;
                }
                return Ok(res.amount);
            }
            i = i + 1;
        }
        Err(ProcessorError::UnknownReservation)
    }

    /// Move gas into the system reservation (saturating); fails with the
    /// out-of-gas error, changing nothing, when gas cannot cover it.
    pub fn system_reserve_gas(&mut self, amount: u64) -> (r: Result<(), ProcessorError>)
        ensures
            r is Ok <==> old(self).context.counters.gas >= amount,
            r is Err ==> *final(self) == *old(self) && r == Err::<(), ProcessorError>(
                ProcessorError::GasLimitExceeded,
            ),
            r is Ok ==> final(self).context.counters.gas == old(self).context.counters.gas - amount
                && final(self).system_reserved == if old(self).system_reserved + amount <= u64::MAX {
                old(self).system_reserved + amount
            } else {
                u64::MAX as int
            },
            final(self).context.counters.allowance == old(self).context.counters.allowance,
            final(self).allocations == old(self).allocations,
            final(self).outgoing == old(self).outgoing,
            final(self).reply_payload == old(self).reply_payload,
            final(self).reply_committed == old(self).reply_committed,
            final(self).reservations == old(self).reservations,
            final(self).waited == old(self).waited,
            final(self).woken == old(self).woken,
            final(self).message_nonce == old(self).message_nonce,
    {
        if self.context.counters.gas < amount {
            return Err(ProcessorError::GasLimitExceeded);
        }
        self.context.counters.gas = self.context.counters.gas - amount;
        if amount > u64::MAX - self.system_reserved {
            self.system_reserved = u64::MAX;
        } else {
            self.system_reserved = self.system_reserved + amount;
        }
        Ok(())
    }

    /// Suspend this execution indefinitely.
    pub fn wait(&mut self) -> (r: Result<(), ProcessorError>)
        ensures
            r is Ok,
            final(self).waited == Some(WaitKind::Indefinite),
            final(self).context == old(self).context,
            final(self).allocations == old(self).allocations,
            final(self).outgoing == old(self).outgoing,
            final(self).reply_payload == old(self).reply_payload,
            final(self).reply_committed == old(self).reply_committed,
            final(self).reservations == old(self).reservations,
            final(self).woken == old(self).woken,
            final(self).message_nonce == old(self).message_nonce,
    {
        self.waited = Some(WaitKind::Indefinite);
        Ok(())
    }

    /// Suspend for exactly `duration` blocks; a zero duration is rejected,
    /// changing nothing.
    pub fn wait_for(&mut self, duration: u32) -> (r: Result<(), ProcessorError>)
        ensures
            r is Ok <==> duration > 0,
            r is Err ==> *final(self) == *old(self) && r == Err::<(), ProcessorError>(
                ProcessorError::ZeroDuration,
            ),
            r is Ok ==> final(self).waited == Some(WaitKind::For(duration)),
            final(self).context == old(self).context,
            final(self).allocations == old(self).allocations,
            final(self).outgoing == old(self).outgoing,
            final(self).reply_payload == old(self).reply_payload,
            final(self).reply_committed == old(self).reply_committed,
            final(self).reservations == old(self).reservations,
            final(self).woken == old(self).woken,
            final(self).message_nonce == old(self).message_nonce,
    {
        if duration == 0 {
            return Err(ProcessorError::ZeroDuration);
        }
        self.waited = Some(WaitKind::For(duration));
        Ok(())
    }

    /// Suspend for at most `duration` blocks; a zero duration is rejected,
    /// changing nothing. Returns true: the wait was registered with its
    /// upper bound.
    pub fn wait_up_to(&mut self, duration: u32) -> (r: Result<bool, ProcessorError>)
        ensures
            r is Ok <==> duration > 0,
            r is Err ==> *final(self) == *old(self) && r == Err::<bool, ProcessorError>(
                ProcessorError::ZeroDuration,
            ),
            r is Ok ==> r == Ok::<bool, ProcessorError>(true) && final(self).waited == Some(
                WaitKind::UpTo(duration),
            ),
            final(self).context == old(self).context,
            final(self).allocations == old(self).allocations,
            final(self).outgoing == old(self).outgoing,
            final(self).reply_payload == old(self).reply_payload,
            final(self).reply_committed == old(self).reply_committed,
            final(self).reservations == old(self).reservations,
            final(self).woken == old(self).woken,
            final(self).message_nonce == old(self).message_nonce,
    {
        if duration == 0 {
            return Err(ProcessorError::ZeroDuration);
        }
        self.waited = Some(WaitKind::UpTo(duration));
        Ok(true)
    }

    /// Ask that a waiting message be woken after `delay` blocks.
    pub fn wake(&mut self, waker_id: u64, delay: u32) -> (r: Result<(), ProcessorError>)
        ensures
            r is Ok,
            final(self).woken@ == old(self).woken@.push((waker_id, delay)),
            final(self).context == old(self).context,
            final(self).allocations == old(self).allocations,
            final(self).outgoing == old(self).outgoing,
            final(self).reply_payload == old(self).reply_payload,
            final(self).reply_committed == old(self).reply_committed,
            final(self).reservations == old(self).reservations,
            final(self).waited == old(self).waited,
            final(self).message_nonce == old(self).message_nonce,
    {
        self.woken.push((waker_id, delay));
        Ok(())
    }

    /// Sender of the message being processed.
    pub fn source(&self) -> (r: u64)
        ensures
            r == self.context.msg_source,
    {
        self.context.msg_source
    }

    /// Original initiator of the execution chain.
    pub fn origin(&self) -> (r: u64)
        ensures
            r == self.context.origin,
    {
        self.context.origin
    }

    /// Identity of the executing program.
    pub fn program_id(&self) -> (r: u64)
        ensures
            r == self.context.program_id,
    {
        self.context.program_id
    }

    /// Identity of the message being processed.
    pub fn message_id(&self) -> (r: u64)
        ensures
            r == self.context.message_id,
    {
        self.context.message_id
    }

    /// Value transferred with the message.
    pub fn value(&self) -> (r: u128)
        ensures
            r == self.context.value,
    {
        self.context.value
    }

    /// Value available to this program.
    pub fn value_available(&self) -> (r: u128)
        ensures
            r == self.context.value_available,
    {
        self.context.value_available
    }

    /// Current block height.
    pub fn block_height(&self) -> (r: u32)
        ensures
            r == self.context.block_height,
    {
        self.context.block_height
    }

    /// Current block timestamp.
    pub fn block_timestamp(&self) -> (r: u64)
        ensures
            r == self.context.block_timestamp,
    {
        self.context.block_timestamp
    }

    /// The context's randomness payload and the block it was drawn at;
    /// fixed for the execution, a plain field read.
    pub fn random(&self) -> (r: (&Vec<u8>, u32))
        ensures
            r.0 == &self.context.random_payload,
            r.1 == self.context.block_height,
    {
        (&self.context.random_payload, self.context.block_height)
    }

    /// Length of the incoming message payload.
    pub fn size(&self) -> (n: usize)
        ensures
            n == self.context.incoming_payload@.len(),
    {
        self.context.incoming_payload.len()
    }

    /// Read `len` bytes of the incoming payload starting at `at`; fails,
    /// changing nothing, exactly when the range runs past the payload's
    /// end.
    pub fn read(&self, at: u32, len: u32) -> (r: Result<Vec<u8>, ProcessorError>)
        ensures
            r is Ok <==> at + len <= self.context.incoming_payload@.len(),
            r matches Ok(v) ==> v@ == self.context.incoming_payload@.subrange(
                at as int,
                at + len,
            ),
            r is Err ==> r == Err::<Vec<u8>, ProcessorError>(ProcessorError::ReadOutOfBounds),
    {
        let n: usize = self.context.incoming_payload.len();
        if (at as u64) + (len as u64) > n as u64 {
            return Err(ProcessorError::ReadOutOfBounds);
        }
        let mut v: Vec<u8> = Vec::new();
        let mut i: usize = 0;
        while i < len as usize
            invariant
                i <= len,
                n == self.context.incoming_payload@.len(),
                at + len <= n,
                v@ == self.context.incoming_payload@.subrange(at as int, at as int + i),
            decreases len as int - i,
        {
            v.push(self.context.incoming_payload[at as usize + i]);
            proof {
                assert(v@ =~= self.context.incoming_payload@.subrange(
                    at as int,
                    at as int + i + 1,
                ));
            }
            i = i + 1;
        }
        Ok(v)
    }

    /// The message this execution replies to; fails when it is no reply.
    pub fn reply_to(&self) -> (r: Result<u64, ProcessorError>)
        ensures
            r is Ok <==> self.context.reply_to_id is Some,
            r matches Ok(id) ==> id == self.context.reply_to_id->Some_0,
            r is Err ==> r == Err::<u64, ProcessorError>(ProcessorError::NoReplyContext),
    {
        match self.context.reply_to_id {
            Some(id) => Ok(id),
            None => Err(ProcessorError::NoReplyContext),
        }
    }

    /// The counters left after the execution.
    pub fn gas_amount(&self) -> (r: GasCounters)
        ensures
            r == self.context.counters,
    {
        self.context.counters
    }

    /// Validate and materialize the pages a guest instruction is about to
    /// touch; delegates to the lazy-pages layer.
    pub fn pre_process_memory_accesses(
        lazy: &mut LazyPages,
        reads: &Vec<MemoryInterval>,
        writes: &Vec<MemoryInterval>,
    ) -> (r: Result<(), OutOfMemoryAccessError>)
        requires
            old(lazy).wf(),
            old(lazy).initialized,
        ensures
            final(lazy).wf(),
            r is Ok <==> crate::lazy::spec_all_in_bounds(reads@, old(lazy).total_pages)
                && crate::lazy::spec_all_in_bounds(writes@, old(lazy).total_pages),
            r is Err ==> *final(lazy) == *old(lazy),
    {
        lazy.pre_process_memory_accesses(reads, writes)
    }
}

/// One extracted entry is sound: the page was released, passes the
/// static-or-allocated filter, and carries the memory's final content.
pub open spec fn spec_entry_ok(
    e: (u32, Vec<u8>),
    lazy: LazyPages,
    mem: Seq<Seq<u8>>,
    static_pages: u32,
    allocs: Seq<u32>,
) -> bool {
    &&& e.0 < lazy.total_pages
    &&& lazy.released@[e.0 as int]
    &&& spec_kept(e.0, static_pages, allocs)
    &&& e.1@ == mem[e.0 as int]
}

impl LazyPagesExt {
    /// Consume the adapter at the end of one execution and extract what the
    /// caller persists: the remaining counters, the produced messages, and
    /// the accessed pages with their final contents. A page appears exactly
    /// when it was touched (released) during the execution and lies in the
    /// static area or in the allocated region; pages never touched are
    /// absent.
    pub fn into_ext_info(self, mem: &GuestMemory, lazy: &LazyPages) -> (info: ExtInfo)
        requires
            mem.wf(),
            lazy.wf(),
            lazy.total_pages <= mem@.len(),
        ensures
            info.counters == self.context.counters,
            info.outgoing == self.outgoing,
            info.reply_payload == self.reply_payload,
            info.reply_committed == self.reply_committed,
            forall|j: int|
                0 <= j < info.accessed_pages@.len() ==> spec_entry_ok(
                    #[trigger] info.accessed_pages@[j],
                    *lazy,
                    mem@,
                    self.context.static_pages,
                    self.allocations@,
                ),
            forall|p: u32|
                p < lazy.total_pages && lazy.released@[p as int] && spec_kept(
                    p,
                    self.context.static_pages,
                    self.allocations@,
                ) ==> exists|j: int|
                    0 <= j < info.accessed_pages@.len() && (#[trigger] info.accessed_pages@[j]).0
                        == p,
    {
        let released: Vec<u32> = lazy.get_released_pages();
        let mut accessed: Vec<(u32, Vec<u8>)> = Vec::new();
        let mut i: usize = 0;
        while i < released.len()
            invariant
                i <= released@.len(),
                mem.wf(),
                lazy.wf(),
                lazy.total_pages <= mem@.len(),
                forall|a: int, b: int| 0 <= a < b < released@.len() ==> released@[a] < released@[b],
                forall|a: int|
                    0 <= a < released@.len() ==> (#[trigger] released@[a]) < lazy.total_pages,
                forall|p: u32| #[trigger]
                    released@.contains(p) <==> (p < lazy.total_pages && lazy.released@[p as int]),
                forall|j: int|
                    0 <= j < accessed@.len() ==> spec_entry_ok(
                        #[trigger] accessed@[j],
                        *lazy,
                        mem@,
                        self.context.static_pages,
                        self.allocations@,
                    ),
                forall|a: int|
                    0 <= a < i && spec_kept(
                        #[trigger] released@[a],
                        self.context.static_pages,
                        self.allocations@,
                    ) ==> exists|j: int|
                        0 <= j < accessed@.len() && (#[trigger] accessed@[j]).0 == released@[a],
            decreases released@.len() - i,
        {
            let p: u32 = released[i];
            let kept: bool = p < self.context.static_pages || contains_page(&self.allocations, p);
            proof {
                assert(released@[i as int] == p);
                assert(released@.contains(p));
                assert(kept == spec_kept(p, self.context.static_pages, self.allocations@));
            }
            if kept {
                let ghost before = accessed@;
                accessed.push((p, mem.page_content(p)));
                proof {
                    assert(accessed@[before.len() as int].0 == p);
                    assert forall|a: int|
                        0 <= a < i + 1 && spec_kept(
                            #[trigger] released@[a],
                            self.context.static_pages,
                            self.allocations@,
                        ) implies exists|j: int|
                        0 <= j < accessed@.len() && (#[trigger] accessed@[j]).0 == released@[a] by {
                        if a < i {
                            let w = choose|w: int|
                                0 <= w < before.len() && (#[trigger] before[w]).0 == released@[a];
                            assert(accessed@[w].0 == released@[a]);
                        } else {
                            assert(accessed@[before.len() as int].0 == released@[a]);
                        }
                    }
                }
            }
            i = i + 1;
        }
        let ghost sp = self.context.static_pages;
        let ghost allocs = self.allocations@;
        let info = ExtInfo {
            counters: self.context.counters,
            accessed_pages: accessed,
            outgoing: self.outgoing,
            reply_payload: self.reply_payload,
            reply_committed: self.reply_committed,
        };
        proof {
            assert forall|p: u32|
                p < lazy.total_pages && lazy.released@[p as int] && spec_kept(
                    p,
                    sp,
                    allocs,
                ) implies exists|j: int|
                0 <= j < info.accessed_pages@.len() && (#[trigger] info.accessed_pages@[j]).0
                    == p by {
                assert(released@.contains(p));
                let a = choose|a: int| 0 <= a < released@.len() && released@[a] == p;
                assert(spec_kept(released@[a], sp, allocs));
                let w = choose|w: int|
                    0 <= w < info.accessed_pages@.len() && (#[trigger] info.accessed_pages@[w]).0
                        == released@[a];
                assert(info.accessed_pages@[w].0 == p);
            }
        }
        info
    }

    /// Bind the lazy-pages layer to a program before its execution;
    /// delegates to the protection layer.
    pub fn lazy_pages_init_for_program(
        lazy: &mut LazyPages,
        mem: &GuestMemory,
        prog_id: u64,
        stack_end: u32,
        globals: crate::lazy::GlobalsConfig,
        weights: crate::lazy::LazyPagesWeights,
    )
        requires
            mem.wf(),
            !old(lazy).initialized,
            stack_end <= mem@.len(),
        ensures
            final(lazy).wf(),
            final(lazy).initialized,
            final(lazy).active,
            final(lazy).total_pages == mem@.len(),
            final(lazy).stack_end == stack_end,
            final(lazy).program_id == prog_id,
            forall|p: int| 0 <= p < mem@.len() ==> !(#[trigger] final(lazy).released@[p]),
    {
        lazy.init_for_program(mem, prog_id, stack_end, globals, weights);
    }

    /// Unconditional teardown after an execution, successful or trapped;
    /// must run before the next initialization.
    pub fn lazy_pages_post_execution_actions(lazy: &mut LazyPages)
        requires
            old(lazy).wf(),
        ensures
            final(lazy).wf(),
            !final(lazy).initialized,
            !final(lazy).active,
            final(lazy).released == old(lazy).released,
            final(lazy).total_pages == old(lazy).total_pages,
    {
        lazy.remove_lazy_pages_prot();
    }
}

} // verus!
