//! The remote memory access protocol: chained pointer dereferencing inside a
//! target process's address space, behind a probe-validate fault boundary.
//!
//! A target process is modelled as a set of disjoint mapped regions. Every
//! dereference and every final copy is probe-validated first, so a request
//! that walks through an unmapped address returns a typed `InvalidAddress`
//! response carrying exactly the pointer values that were resolved before the
//! failing hop; it never faults the privileged context.

use vstd::prelude::*;

use crate::bytes::{u64_le_at, u64_le_spec};

verus! {

/// Maximum number of entries (base address included) a read request's offset
/// chain may carry.
pub const MAX_HOPS: usize = 16;

/// One mapped range of a target process's address space.
pub struct MemoryRegion {
    pub base: u64,
    pub data: Vec<u8>,
}

impl MemoryRegion {
    /// The region lies entirely inside the 64-bit address space.
    pub open spec fn wf(&self) -> bool {
        self.base + self.data@.len() <= u64::MAX + 1
    }

    /// The region contains every address in `[addr, addr + len)`.
    pub open spec fn covers(&self, addr: u64, len: nat) -> bool {
        self.base <= addr && addr + len <= self.base + self.data@.len()
    }

    /// Two regions share no address.
    pub open spec fn disjoint(&self, other: &MemoryRegion) -> bool {
        self.base + self.data@.len() <= other.base || other.base + other.data@.len() <= self.base
    }
}

/// A simulated target process address space: the set of its mapped regions.
pub struct TargetMemory {
    pub regions: Vec<MemoryRegion>,
}

impl TargetMemory {
    /// Regions are in-bounds and pairwise disjoint, so every mapped address
    /// holds exactly one byte value.
    pub open spec fn wf(&self) -> bool {
        &&& forall|i: int|
            0 <= i < self.regions@.len() ==> (#[trigger] self.regions@[i]).wf()
        &&& forall|i: int, j: int|
            #![trigger self.regions@[i].disjoint(&self.regions@[j])]
            0 <= i < j < self.regions@.len() ==> self.regions@[i].disjoint(&self.regions@[j])
    }

    /// `len` bytes are mapped, contiguously within one region, at `addr`.
    /// A zero-length range is always readable.
    pub open spec fn readable(&self, addr: u64, len: nat) -> bool {
        len == 0 || exists|i: int|
            0 <= i < self.regions@.len() && (#[trigger] self.regions@[i]).covers(addr, len)
    }

    /// Index of the region holding `addr` (meaningful only when one exists;
    /// with `wf` it is unique).
    pub open spec fn region_of(&self, addr: u64) -> int {
        choose|i: int| 0 <= i < self.regions@.len() && (#[trigger] self.regions@[i]).covers(addr, 1)
    }

    /// The byte mapped at `addr`; zero for an unmapped address.
    pub open spec fn byte_at(&self, addr: u64) -> u8 {
        if self.readable(addr, 1) {
            let r = self.regions@[self.region_of(addr)];
            r.data@[addr - r.base]
        } else {
            0
        }
    }

    /// The `len` bytes mapped starting at `addr`.
    pub open spec fn bytes_at(&self, addr: u64, len: nat) -> Seq<u8> {
        Seq::new(len, |k: int| self.byte_at((addr + k) as u64))
    }

    /// A fresh address space with nothing mapped.
    pub fn new() -> (r: TargetMemory)
        ensures
            r.wf(),
            r.regions@.len() == 0,
            forall|a: u64, l: nat| l > 0 ==> !r.readable(a, l),
    {
        TargetMemory { regions: Vec::new() }
    }

    /// Maps `data` at `base` if the range fits in the address space and does
    /// not overlap an existing region; reports whether it was mapped.
    pub fn map_region(&mut self, base: u64, data: Vec<u8>) -> (r: bool)
        requires
            old(self).wf(),
        ensures
            final(self).wf(),
            r ==> final(self).regions@ == old(self).regions@.push(
                MemoryRegion { base, data: data },
            ),
            !r ==> *final(self) == *old(self),
    {
        if data.len() as u64 > u64::MAX - base {
            return false;
        }
        let end = base + data.len() as u64;
        let mut i: usize = 0;
        while i < self.regions.len()
            invariant
                0 <= i <= self.regions@.len(),
                base + data@.len() <= u64::MAX + 1,
                end == base + data@.len(),
                forall|j: int|
                    0 <= j < i ==> ((#[trigger] self.regions@[j]).base + self.regions@[j].data@.len()
                        <= base || end <= self.regions@[j].base),
                self.wf(),
                self == old(self),
            decreases self.regions@.len() - i,
        {
            let reg_base = self.regions[i].base;
            let reg_len = self.regions[i].data.len();
            if !(reg_base as u64 >= end || (reg_len as u64 <= u64::MAX - reg_base
                && reg_base + reg_len as u64 <= base)) {
                return false;
            }
            i += 1;
        }
        self.regions.push(MemoryRegion { base, data });
        true
    }

    /// With `wf`, at most one region covers any address.
    proof fn lemma_region_unique(&self, i: int, j: int, addr: u64)
        requires
            self.wf(),
            0 <= i < self.regions@.len(),
            0 <= j < self.regions@.len(),
            self.regions@[i].covers(addr, 1),
            self.regions@[j].covers(addr, 1),
        ensures
            i == j,
    {
        if i < j {
            assert(self.regions@[i].disjoint(&self.regions@[j]));
        } else if j < i {
            assert(self.regions@[j].disjoint(&self.regions@[i]));
        }
    }

    /// Inside a covering region, `byte_at` reads that region's data.
    proof fn lemma_bytes_in_region(&self, i: int, addr: u64, len: nat)
        requires
            self.wf(),
            0 <= i < self.regions@.len(),
            self.regions@[i].covers(addr, len),
        ensures
            forall|k: int|
                0 <= k < len ==> #[trigger] self.byte_at((addr + k) as u64)
                    == self.regions@[i].data@[addr - self.regions@[i].base + k],
    {
        assert forall|k: int| 0 <= k < len implies #[trigger] self.byte_at((addr + k) as u64)
            == self.regions@[i].data@[addr - self.regions@[i].base + k] by {
            let a = (addr + k) as u64;
            assert(self.regions@[i].covers(a, 1));
            assert(self.readable(a, 1));
            self.lemma_region_unique(i, self.region_of(a), a);
        }
    }

    /// Probe-validates that `len` bytes are readable at `addr`: the checkable
    /// condition that stands in for touching the memory.
    pub fn probe(&self, addr: u64, len: usize) -> (r: bool)
        requires
            self.wf(),
        ensures
            r == self.readable(addr, len as nat),
    {
        if len == 0 {
            return true;
        }
        let mut i: usize = 0;
        while i < self.regions.len()
            invariant
                0 <= i <= self.regions@.len(),
                self.wf(),
                len > 0,
                forall|j: int| 0 <= j < i ==> !(#[trigger] self.regions@[j]).covers(
                    addr,
                    len as nat,
                ),
            decreases self.regions@.len() - i,
        {
            let reg = &self.regions[i];
            if reg.base <= addr {
                let off = addr - reg.base;
                let dlen = reg.data.len() as u64;
                if len as u64 <= dlen && off <= dlen - len as u64 {
                    assert(self.regions@[i as int].covers(addr, len as nat));
                    return true;
                }
            }
            proof {
                assert(!self.regions@[i as int].covers(addr, len as nat));
            }
            i += 1;
        }
        false
    }

    /// Reads `len` bytes at `addr`; `None` exactly when the range is not
    /// readable.
    pub fn read_bytes(&self, addr: u64, len: usize) -> (r: Option<Vec<u8>>)
        requires
            self.wf(),
        ensures
            match r {
                Some(v) => self.readable(addr, len as nat) && v@ == self.bytes_at(
                    addr,
                    len as nat,
                ),
                None => !self.readable(addr, len as nat),
            },
    {
        if len == 0 {
            let v: Vec<u8> = Vec::new();
            proof {
                assert(v@ =~= self.bytes_at(addr, 0));
            }
            return Some(v);
        }
        let mut i: usize = 0;
        while i < self.regions.len()
            invariant
                0 <= i <= self.regions@.len(),
                self.wf(),
                len > 0,
                forall|j: int| 0 <= j < i ==> !(#[trigger] self.regions@[j]).covers(
                    addr,
                    len as nat,
                ),
            decreases self.regions@.len() - i,
        {
            let reg_base = self.regions[i].base;
            if reg_base <= addr {
                let off64 = addr - reg_base;
                let dlen = self.regions[i].data.len() as u64;
                if len as u64 <= dlen && off64 <= dlen - len as u64 {
                    let off = off64 as usize;
                    let mut v: Vec<u8> = Vec::new();
                    let mut k: usize = 0;
                    while k < len
                        invariant
                            0 <= k <= len,
                            0 <= i < self.regions@.len(),
                            off + len <= self.regions@[i as int].data@.len(),
                            off + len <= usize::MAX,
                            v@.len() == k,
                            forall|m: int|
                                0 <= m < k ==> v@[m] == self.regions@[i as int].data@[off + m],
                        decreases len - k,
                    {
                        v.push(self.regions[i].data[off + k]);
                        k += 1;
                    }
                    proof {
                        assert(self.regions@[i as int].covers(addr, len as nat));
                        self.lemma_bytes_in_region(i as int, addr, len as nat);
                        assert(v@ =~= self.bytes_at(addr, len as nat));
                    }
                    return Some(v);
                }
            }
            proof {
                assert(!self.regions@[i as int].covers(addr, len as nat));
            }
            i += 1;
        }
        None
    }
}

/// One live target process: its identifier and its address space.
pub struct ProcessEntry {
    pub process_id: u32,
    pub memory: TargetMemory,
}

/// The set of processes the privileged handler can resolve.
pub struct ProcessTable {
    pub processes: Vec<ProcessEntry>,
}

impl ProcessTable {
    /// Process identifiers are unique and every address space is well formed.
    pub open spec fn wf(&self) -> bool {
        &&& forall|i: int, j: int|
            0 <= i < j < self.processes@.len() ==> (#[trigger] self.processes@[i]).process_id != (
            #[trigger] self.processes@[j]).process_id
        &&& forall|i: int|
            0 <= i < self.processes@.len() ==> (#[trigger] self.processes@[i]).memory.wf()
    }

    /// The identifier resolves to a live process.
    pub open spec fn has_pid(&self, pid: u32) -> bool {
        exists|i: int| 0 <= i < self.processes@.len() && (#[trigger] self.processes@[i]).process_id
            == pid
    }

    /// The address space of the process with identifier `pid` (meaningful
    /// only when `has_pid` holds; with `wf` it is unique).
    pub open spec fn memory_of(&self, pid: u32) -> TargetMemory {
        let i = choose|i: int|
            0 <= i < self.processes@.len() && (#[trigger] self.processes@[i]).process_id == pid;
        self.processes@[i].memory
    }

    /// An empty table: no identifier resolves.
    pub fn new() -> (r: ProcessTable)
        ensures
            r.wf(),
            forall|pid: u32| !r.has_pid(pid),
    {
        ProcessTable { processes: Vec::new() }
    }

    /// Registers a process if its identifier is not yet taken; reports
    /// whether it was added.
    pub fn add_process(&mut self, process_id: u32, memory: TargetMemory) -> (r: bool)
        requires
            old(self).wf(),
            memory.wf(),
        ensures
            final(self).wf(),
            r == !old(self).has_pid(process_id),
            r ==> final(self).has_pid(process_id) && final(self).memory_of(process_id) == memory
                && (forall|p: u32|
                p != process_id ==> old(self).has_pid(p) == final(self).has_pid(p) && (old(
                    self,
                ).has_pid(p) ==> final(self).memory_of(p) == old(self).memory_of(p))),
            !r ==> *final(self) == *old(self),
    {
        let mut i: usize = 0;
        while i < self.processes.len()
            invariant
                0 <= i <= self.processes@.len(),
                self.wf(),
                self == old(self),
                forall|j: int| 0 <= j < i ==> (#[trigger] self.processes@[j]).process_id
                    != process_id,
            decreases self.processes@.len() - i,
        {
            if self.processes[i].process_id == process_id {
                return false;
            }
            i += 1;
        }
        self.processes.push(ProcessEntry { process_id, memory });
        proof {
            let n = self.processes@.len() - 1;
            assert(self.processes@[n].process_id == process_id);
            lemma_pid_lookup(self, process_id, n);
            assert forall|p: u32| p != process_id implies old(self).has_pid(p) == self.has_pid(p)
                && (old(self).has_pid(p) ==> self.memory_of(p) == old(self).memory_of(p)) by {
                if old(self).has_pid(p) {
                    let j = choose|j: int|
                        0 <= j < old(self).processes@.len() && (#[trigger] old(
                            self,
                        ).processes@[j]).process_id == p;
                    assert(self.processes@[j].process_id == p);
                    lemma_pid_lookup(self, p, j);
                    lemma_pid_lookup(old(self), p, j);
                }
                if self.has_pid(p) {
                    let j = choose|j: int|
                        0 <= j < self.processes@.len() && (#[trigger] self.processes@[j]).process_id
                            == p;
                    assert(j < n);
                    assert(old(self).processes@[j].process_id == p);
                }
            }
        }
        true
    }

    /// Returns the address space of `pid`, or `None` when the identifier does
    /// not resolve.
    pub fn lookup(&self, pid: u32) -> (r: Option<&TargetMemory>)
        requires
            self.wf(),
        ensures
            match r {
                Some(m) => self.has_pid(pid) && *m == self.memory_of(pid),
                None => !self.has_pid(pid),
            },
    {
        let mut i: usize = 0;
        while i < self.processes.len()
            invariant
                0 <= i <= self.processes@.len(),
                self.wf(),
                forall|j: int| 0 <= j < i ==> (#[trigger] self.processes@[j]).process_id != pid,
            decreases self.processes@.len() - i,
        {
            if self.processes[i].process_id == pid {
                proof {
                    lemma_pid_lookup(self, pid, i as int);
                }
                return Some(&self.processes[i].memory);
            }
            i += 1;
        }
        None
    }
}

/// With unique identifiers, a matching index is the one `memory_of` uses.
proof fn lemma_pid_lookup(table: &ProcessTable, pid: u32, i: int)
    requires
        table.wf(),
        0 <= i < table.processes@.len(),
        table.processes@[i].process_id == pid,
    ensures
        table.has_pid(pid),
        table.memory_of(pid) == table.processes@[i].memory,
{
    let j = choose|j: int|
        0 <= j < table.processes@.len() && (#[trigger] table.processes@[j]).process_id == pid;
    assert(table.processes@[j].process_id == pid);
    if i != j {
        if i < j {
            assert(table.processes@[i].process_id != table.processes@[j].process_id);
        } else {
            assert(table.processes@[j].process_id != table.processes@[i].process_id);
        }
    }
}

/// A request to read `count` bytes at the end of a pointer chain inside the
/// process identified by `process_id`. The first of the `offset_count` used
/// entries of `offsets` is the absolute starting address; each further entry
/// is added, as a signed displacement, to the pointer value read at the
/// current address.
pub struct ReadRequest {
    pub process_id: u32,
    pub offsets: Vec<i64>,
    pub offset_count: usize,
    pub count: usize,
}

impl ReadRequest {
    /// The offset chain carries at least the starting address and does not
    /// exceed the protocol's fixed maximum nor the supplied array.
    pub open spec fn valid(&self) -> bool {
        1 <= self.offset_count <= MAX_HOPS && self.offset_count <= self.offsets@.len()
    }

    /// The offsets a read of this request walks.
    pub open spec fn chain(&self) -> Seq<i64> {
        self.offsets@.take(self.offset_count as int)
    }
}

/// The outcome of a read, exactly one variant active.
#[derive(Debug)]
pub enum ReadResponse {
    /// The destination holds exactly the requested bytes.
    Success { data: Vec<u8> },
    /// The process identifier does not resolve to a live process; a normal
    /// outcome, not an error.
    UnknownProcess,
    /// A probe failed. `resolved_offsets` holds every pointer value
    /// successfully dereferenced before the failing hop, in order; it is
    /// always shorter than the request's offset chain.
    InvalidAddress { resolved_offsets: Vec<u64> },
}

/// A malformed request: a protocol-level failure distinct from any outcome of
/// touching memory.
#[derive(Clone, Copy, PartialEq, Eq, Structural, Debug)]
pub enum ReadError {
    InvalidOffsetCount,
}

/// The pointer value stored at `addr`: the little-endian 64-bit word there.
pub open spec fn deref_at(mem: TargetMemory, addr: u64) -> u64 {
    u64_le_spec(mem.bytes_at(addr, 8))
}

/// The address the chain reaches after `k` hops: `offsets[0]` is the start,
/// and each following step dereferences the current address and displaces the
/// pointer found there by the next offset (wrapping, signed).
pub open spec fn chain_addr(mem: TargetMemory, offsets: Seq<i64>, k: int) -> u64
    recommends
        0 <= k < offsets.len(),
    decreases k,
{
    if k <= 0 {
        offsets[0] as u64
    } else {
        deref_at(mem, chain_addr(mem, offsets, k - 1)).wrapping_add_signed(offsets[k])
    }
}

/// The dereference at hop `j` finds 8 readable bytes.
pub open spec fn hop_ok(mem: TargetMemory, offsets: Seq<i64>, j: int) -> bool {
    mem.readable(chain_addr(mem, offsets, j), 8)
}

/// The first `k` dereferences all succeed.
pub open spec fn hops_ok_to(mem: TargetMemory, offsets: Seq<i64>, k: int) -> bool {
    forall|j: int| 0 <= j < k ==> hop_ok(mem, offsets, j)
}

/// The pointer values produced by the first `k` dereferences, in order.
pub open spec fn resolved_prefix(mem: TargetMemory, offsets: Seq<i64>, k: int) -> Seq<u64> {
    Seq::new(k as nat, |j: int| deref_at(mem, chain_addr(mem, offsets, j)))
}

/// Every dereference of the chain succeeds and `count` bytes are readable at
/// the final address: the whole read succeeds.
pub open spec fn read_ok(mem: TargetMemory, offsets: Seq<i64>, count: nat) -> bool {
    hops_ok_to(mem, offsets, offsets.len() - 1) && mem.readable(
        chain_addr(mem, offsets, offsets.len() - 1),
        count,
    )
}

/// The bytes a successful read returns.
pub open spec fn read_value(mem: TargetMemory, offsets: Seq<i64>, count: nat) -> Seq<u8> {
    mem.bytes_at(chain_addr(mem, offsets, offsets.len() - 1), count)
}

/// The response a successful chain walk produces: the read bytes.
pub open spec fn success_response(mem: TargetMemory, offsets: Seq<i64>, count: nat, res: ReadResponse) -> bool {
    match res {
        ReadResponse::Success { data } => data@ == read_value(mem, offsets, count),
        _ => false,
    }
}

/// The response a failed probe produces: the trace holds exactly the pointer
/// values dereferenced before the failing hop, in order, and is strictly
/// shorter than the offset chain.
pub open spec fn invalid_response(mem: TargetMemory, offsets: Seq<i64>, count: nat, res: ReadResponse) -> bool {
    match res {
        ReadResponse::InvalidAddress { resolved_offsets } => {
            let k = resolved_offsets@.len() as int;
            &&& k < offsets.len()
            &&& hops_ok_to(mem, offsets, k)
            &&& resolved_offsets@ == resolved_prefix(mem, offsets, k)
            &&& k < offsets.len() - 1 ==> !hop_ok(mem, offsets, k)
            &&& k == offsets.len() - 1 ==> !mem.readable(chain_addr(mem, offsets, k), count)
        },
        _ => false,
    }
}

/// Law: a chain holding only the starting address takes no hop. When `count`
/// bytes are readable there, the read succeeds and returns exactly the bytes
/// at that address; nothing is dereferenced along the way.
pub proof fn lemma_direct_read(mem: TargetMemory, offsets: Seq<i64>, count: nat)
    requires
        offsets.len() == 1,
        mem.readable(offsets[0] as u64, count),
    ensures
        read_ok(mem, offsets, count),
        read_value(mem, offsets, count) == mem.bytes_at(offsets[0] as u64, count),
{
}

/// Law: an `InvalidAddress` response always resolves strictly fewer hops
/// than the request's offset chain holds — at least the failing hop was not
/// completed.
pub proof fn lemma_partial_trace_shorter(
    mem: TargetMemory,
    offsets: Seq<i64>,
    count: nat,
    res: ReadResponse,
)
    requires
        invalid_response(mem, offsets, count, res),
    ensures
        res matches ReadResponse::InvalidAddress { resolved_offsets } ==> resolved_offsets@.len()
            < offsets.len(),
{
}

/// Resolves a read request against the process table.
///
/// Outcomes, in the order the handler decides them: an unresolvable process
/// identifier is the normal `UnknownProcess` response; a malformed offset
/// count fails loudly with a protocol error before any memory is touched;
/// otherwise the chain is walked hop by hop, every dereference and the final
/// copy probe-validated, and the response is either the read bytes or
/// `InvalidAddress` with the trace of the hops that did succeed.
#[verifier::rlimit(50)]
pub fn handler_read(table: &ProcessTable, req: &ReadRequest, res: &mut ReadResponse) -> (r: Result<
    (),
    ReadError,
>)
    requires
        table.wf(),
    ensures
        match r {
            Ok(_) => {
                &&& !table.has_pid(req.process_id) ==> (*final(res) matches
                    ReadResponse::UnknownProcess)
                &&& table.has_pid(req.process_id) ==> {
                    let mem = table.memory_of(req.process_id);
                    &&& req.valid()
                    &&& read_ok(mem, req.chain(), req.count as nat) ==> success_response(
                        mem,
                        req.chain(),
                        req.count as nat,
                        *final(res),
                    )
                    &&& !read_ok(mem, req.chain(), req.count as nat) ==> invalid_response(
                        mem,
                        req.chain(),
                        req.count as nat,
                        *final(res),
                    )
                }
            },
            Err(e) => table.has_pid(req.process_id) && !req.valid() && e
                == ReadError::InvalidOffsetCount,
        },
{
    let mem = match table.lookup(req.process_id) {
        Some(mem) => mem,
        None => {
            *res = ReadResponse::UnknownProcess;
            return Ok(());
        },
    };
    proof {
        assert(table.has_pid(req.process_id));
        assert(*mem == table.memory_of(req.process_id));
    }

    if req.offset_count == 0 || req.offset_count > MAX_HOPS || req.offset_count > req.offsets.len()
    {
        return Err(ReadError::InvalidOffsetCount);
    }

    let ghost offs = req.chain();
    let mut target_address: u64 = req.offsets[0] as u64;
    let mut resolved_offsets: Vec<u64> = Vec::new();
    let mut offset_index: usize = 1;

    while offset_index < req.offset_count
        invariant
            mem.wf(),
            req.valid(),
            table.has_pid(req.process_id),
            *mem == table.memory_of(req.process_id),
            offs == req.chain(),
            offs.len() == req.offset_count,
            1 <= offset_index <= req.offset_count,
            target_address == chain_addr(*mem, offs, offset_index - 1),
            hops_ok_to(*mem, offs, offset_index - 1),
            resolved_offsets@ == resolved_prefix(*mem, offs, offset_index - 1),
        decreases req.offset_count - offset_index,
    {
        proof {
            assert(offs[offset_index as int] == req.offsets@[offset_index as int]);
        }
        let deref_value = match mem.read_bytes(target_address, 8) {
            Some(word) => u64_le_at(&word, 0),
            None => {
                // The probe failed: the fault boundary converts the would-be
                // fault into a typed partial-resolution response.
                proof {
                    let k = resolved_offsets@.len() as int;
                    assert(k == offset_index - 1);
                    assert(!hop_ok(*mem, offs, k));
                    assert(!hops_ok_to(*mem, offs, req.offset_count - 1));
                    assert(!read_ok(*mem, offs, req.count as nat));
                    assert(k < offs.len() - 1);
                    assert(hops_ok_to(*mem, offs, k));
                    assert(resolved_offsets@ == resolved_prefix(*mem, offs, k));
                }
                *res = ReadResponse::InvalidAddress { resolved_offsets };
                proof {
                    assert(invalid_response(*mem, offs, req.count as nat, *res));
                }
                return Ok(());
            },
        };
        proof {
            let w = mem.bytes_at(target_address, 8);
            assert(w.subrange(0, 8) =~= w);
            assert(deref_value == deref_at(*mem, chain_addr(*mem, offs, offset_index - 1)));
        }
        resolved_offsets.push(deref_value);
        target_address = deref_value.wrapping_add_signed(req.offsets[offset_index]);
        offset_index += 1;
        proof {
            assert(resolved_offsets@ =~= resolved_prefix(*mem, offs, offset_index - 1));
        }
    }

    proof {
        assert(target_address == chain_addr(*mem, offs, offs.len() - 1));
        assert(hops_ok_to(*mem, offs, offs.len() - 1));
        assert(resolved_offsets@.len() == offs.len() - 1);
    }
    match mem.read_bytes(target_address, req.count) {
        Some(data) => {
            *res = ReadResponse::Success { data };
            Ok(())
        },
        None => {
            proof {
                assert(!read_ok(*mem, offs, req.count as nat));
            }
            *res = ReadResponse::InvalidAddress { resolved_offsets };
            Ok(())
        },
    }
}

} // verus!
