//! The kernel's built-in `bpf(2)` and `perf_event_open(2)` entry points:
//! map creation and program loading hand out sequential ids; every other
//! command is refused as unsupported.

use vstd::prelude::*;

use crate::poll::IoEvents;

verus! {

pub const BPF_MAP_CREATE: u64 = 0;
pub const BPF_MAP_LOOKUP_ELEM: u64 = 1;
pub const BPF_MAP_UPDATE_ELEM: u64 = 2;
pub const BPF_MAP_DELETE_ELEM: u64 = 3;
pub const BPF_MAP_GET_NEXT_KEY: u64 = 4;
pub const BPF_PROG_LOAD: u64 = 5;
pub const BPF_OBJ_PIN: u64 = 6;
pub const BPF_OBJ_GET: u64 = 7;
pub const BPF_PROG_ATTACH: u64 = 8;
pub const BPF_PROG_DETACH: u64 = 9;
pub const BPF_PROG_TEST_RUN: u64 = 10;
pub const BPF_PROG_GET_NEXT_ID: u64 = 11;
pub const BPF_MAP_GET_NEXT_ID: u64 = 12;
pub const BPF_PROG_GET_FD_BY_ID: u64 = 13;
pub const BPF_MAP_GET_FD_BY_ID: u64 = 14;
pub const BPF_OBJ_GET_INFO_BY_FD: u64 = 15;
pub const BPF_PROG_QUERY: u64 = 16;
pub const BPF_RAW_TRACEPOINT_OPEN: u64 = 17;
pub const BPF_BTF_LOAD: u64 = 18;
pub const BPF_BTF_GET_FD_BY_ID: u64 = 19;
pub const BPF_TASK_FD_QUERY: u64 = 20;
pub const BPF_MAP_LOOKUP_AND_DELETE_ELEM: u64 = 21;
pub const BPF_MAP_FREEZE: u64 = 22;
pub const BPF_BTF_GET_NEXT_ID: u64 = 23;
pub const BPF_MAP_LOOKUP_BATCH: u64 = 24;
pub const BPF_MAP_LOOKUP_AND_DELETE_BATCH: u64 = 25;
pub const BPF_MAP_UPDATE_BATCH: u64 = 26;
pub const BPF_MAP_DELETE_BATCH: u64 = 27;
pub const BPF_LINK_CREATE: u64 = 28;
pub const BPF_LINK_UPDATE: u64 = 29;
pub const BPF_LINK_GET_FD_BY_ID: u64 = 30;
pub const BPF_LINK_GET_NEXT_ID: u64 = 31;
pub const BPF_ENABLE_STATS: u64 = 32;
pub const BPF_ITER_CREATE: u64 = 33;
pub const BPF_LINK_DETACH: u64 = 34;
pub const BPF_PROG_BIND_MAP: u64 = 35;

/// Why a `bpf(2)` or `perf_event_open(2)` request fails.
#[derive(Clone, Copy, PartialEq, Eq, Debug, Structural)]
pub enum BpfError {
    /// The request is not supported.
    Unsupported,
    /// The request's arguments are refused.
    InvalidInput,
}

/// A created map; its attributes are not read from the request yet.
#[derive(Clone, Copy, PartialEq, Eq, Debug, Structural)]
pub struct BpfMap {
    pub map_type: u32,
    pub key_size: u32,
    pub value_size: u32,
    pub max_entries: u32,
    pub map_flags: u32,
    pub id: u32,
}

/// A loaded program; its attributes are not read from the request yet.
#[derive(Clone, Copy, PartialEq, Eq, Debug, Structural)]
pub struct BpfProg {
    pub prog_type: u32,
    pub insn_cnt: u32,
    pub id: u32,
}

/// The map record created with id `id`.
pub open spec fn new_map(id: u32) -> BpfMap {
    BpfMap { map_type: 0, key_size: 0, value_size: 0, max_entries: 0, map_flags: 0, id }
}

/// The program record loaded with id `id`.
pub open spec fn new_prog(id: u32) -> BpfProg {
    BpfProg { prog_type: 0, insn_cnt: 0, id }
}

/// The maps and programs created so far.
pub struct BpfRegistry {
    maps: Vec<BpfMap>,
    progs: Vec<BpfProg>,
}

impl BpfRegistry {
    /// The maps, in creation order.
    pub closed spec fn maps(&self) -> Seq<BpfMap> {
        self.maps@
    }

    /// The programs, in load order.
    pub closed spec fn progs(&self) -> Seq<BpfProg> {
        self.progs@
    }

    /// Every map and program carries its creation index as id (modulo 2^32).
    pub open spec fn wf(&self) -> bool {
        &&& forall|i: int| 0 <= i < self.maps().len() ==> #[trigger] self.maps()[i] == new_map(
            i as u32,
        )
        &&& forall|i: int| 0 <= i < self.progs().len() ==> #[trigger] self.progs()[i]
            == new_prog(i as u32)
    }

    /// A registry with no map and no program.
    pub fn new() -> (r: Self)
        ensures
            r.wf(),
            r.maps() == Seq::<BpfMap>::empty(),
            r.progs() == Seq::<BpfProg>::empty(),
    {
        BpfRegistry { maps: Vec::new(), progs: Vec::new() }
    }

    /// The id the next map gets: the number of maps so far, truncated to 32 bits.
    pub fn next_map_id(&self) -> (id: u32)
        ensures
            id == self.maps().len() as u32,
    {
        self.maps.len() as u32
    }

    /// The id the next program gets: the number of programs so far, truncated to 32 bits.
    pub fn next_prog_id(&self) -> (id: u32)
        ensures
            id == self.progs().len() as u32,
    {
        self.progs.len() as u32
    }
}

/// The `bpf(2)` system call. `BPF_MAP_CREATE` records a new map and returns
/// its id; `BPF_PROG_LOAD` records a new program and returns its id; every
/// other command fails with `Unsupported` and changes nothing.
pub fn sys_bpf(registry: &mut BpfRegistry, cmd: u64, uattr: usize, size: u32) -> (r: Result<isize, BpfError>)
    requires
        old(registry).wf(),
    ensures
        final(registry).wf(),
        cmd == BPF_MAP_CREATE ==> {
            let id = old(registry).maps().len() as u32;
            &&& r == Ok::<isize, BpfError>(id as isize)
            &&& final(registry).maps() == old(registry).maps().push(new_map(id))
            &&& final(registry).progs() == old(registry).progs()
        },
        cmd == BPF_PROG_LOAD ==> {
            let id = old(registry).progs().len() as u32;
            &&& r == Ok::<isize, BpfError>(id as isize)
            &&& final(registry).progs() == old(registry).progs().push(new_prog(id))
            &&& final(registry).maps() == old(registry).maps()
        },
        cmd != BPF_MAP_CREATE && cmd != BPF_PROG_LOAD ==> {
            &&& r == Err::<isize, BpfError>(BpfError::Unsupported)
            &&& final(registry).maps() == old(registry).maps()
            &&& final(registry).progs() == old(registry).progs()
        },
{
    if cmd == BPF_MAP_CREATE {
        let id = registry.next_map_id();
        registry.maps.push(
            BpfMap { map_type: 0, key_size: 0, value_size: 0, max_entries: 0, map_flags: 0, id },
        );
        proof {
            assert forall|i: int| 0 <= i < registry.maps().len() implies #[trigger] registry.maps()[i]
                == new_map(i as u32) by {
                if i < old(registry).maps().len() {
                    assert(registry.maps()[i] == old(registry).maps()[i]);
                }
            }
        }
        Ok(id as isize)
    } else if cmd == BPF_PROG_LOAD {
        let id = registry.next_prog_id();
        registry.progs.push(BpfProg { prog_type: 0, insn_cnt: 0, id });
        proof {
            assert forall|i: int| 0 <= i < registry.progs().len() implies #[trigger] registry.progs()[i]
                == new_prog(i as u32) by {
                if i < old(registry).progs().len() {
                    assert(registry.progs()[i] == old(registry).progs()[i]);
                }
            }
        }
        Ok(id as isize)
    } else {
        Err(BpfError::Unsupported)
    }
}

/// The `perf_event_open(2)` system call, which is not supported yet.
pub fn sys_perf_event_open(attr_uptr: usize, pid: i32, cpu: i32, group_fd: i32, flags: u64) -> (r: Result<isize, BpfError>)
    ensures
        r == Err::<isize, BpfError>(BpfError::Unsupported),
{
    Err(BpfError::Unsupported)
}

/// The number of `bpf(2)` commands the ABI defines (`__MAX_BPF_CMD`); the
/// codes 0 through this one name a command.
pub const MAX_BPF_CMD: u32 = 37;

/// How the loadable eBPF module serves a `bpf(2)` command.
#[derive(Clone, Copy, PartialEq, Eq, Debug, Structural)]
pub enum KebpfRoute {
    MapCreate,
    MapUpdateElem,
    MapLookupElem,
    MapGetNextKey,
    MapDeleteElem,
    MapLookupAndDeleteElem,
    MapLookupBatch,
    MapFreeze,
    RawTracepointOpen,
    ProgLoad,
    /// Known but refused with `Unsupported` (BTF load, link creation,
    /// object info).
    Refused,
    /// Not implemented at all: the module stops with a panic.
    Unimplemented,
}

/// Why the loadable eBPF module rejects a command code.
#[derive(Clone, Copy, PartialEq, Eq, Debug, Structural)]
pub enum KebpfError {
    /// The code names no `bpf(2)` command.
    InvalidInput,
}

/// The route of each command code.
pub open spec fn route_of(cmd: u32) -> Result<KebpfRoute, KebpfError> {
    if cmd > 37 {
        Err(KebpfError::InvalidInput)
    } else if cmd == 0 {
        Ok(KebpfRoute::MapCreate)
    } else if cmd == 1 {
        Ok(KebpfRoute::MapLookupElem)
    } else if cmd == 2 {
        Ok(KebpfRoute::MapUpdateElem)
    } else if cmd == 3 {
        Ok(KebpfRoute::MapDeleteElem)
    } else if cmd == 4 {
        Ok(KebpfRoute::MapGetNextKey)
    } else if cmd == 5 {
        Ok(KebpfRoute::ProgLoad)
    } else if cmd == 17 {
        Ok(KebpfRoute::RawTracepointOpen)
    } else if cmd == 21 {
        Ok(KebpfRoute::MapLookupAndDeleteElem)
    } else if cmd == 22 {
        Ok(KebpfRoute::MapFreeze)
    } else if cmd == 24 {
        Ok(KebpfRoute::MapLookupBatch)
    } else if cmd == 15 || cmd == 18 || cmd == 28 {
        Ok(KebpfRoute::Refused)
    } else {
        Ok(KebpfRoute::Unimplemented)
    }
}

/// The command table of the loadable eBPF module: map commands go to the
/// map operations, program loading and raw tracepoint attachment to their
/// helpers; BTF load, link creation and object info are refused; the other
/// commands are not implemented; a code above `__MAX_BPF_CMD` is invalid.
pub fn bpf_route(cmd: u32) -> (r: Result<KebpfRoute, KebpfError>)
    ensures
        r == route_of(cmd),
{
    if cmd > MAX_BPF_CMD {
        return Err(KebpfError::InvalidInput);
    }
    let route = if cmd == BPF_MAP_CREATE as u32 {
        KebpfRoute::MapCreate
    } else if cmd == BPF_MAP_LOOKUP_ELEM as u32 {
        KebpfRoute::MapLookupElem
    } else if cmd == BPF_MAP_UPDATE_ELEM as u32 {
        KebpfRoute::MapUpdateElem
    } else if cmd == BPF_MAP_DELETE_ELEM as u32 {
        KebpfRoute::MapDeleteElem
    } else if cmd == BPF_MAP_GET_NEXT_KEY as u32 {
        KebpfRoute::MapGetNextKey
    } else if cmd == BPF_PROG_LOAD as u32 {
        KebpfRoute::ProgLoad
    } else if cmd == BPF_RAW_TRACEPOINT_OPEN as u32 {
        KebpfRoute::RawTracepointOpen
    } else if cmd == BPF_MAP_LOOKUP_AND_DELETE_ELEM as u32 {
        KebpfRoute::MapLookupAndDeleteElem
    } else if cmd == BPF_MAP_FREEZE as u32 {
        KebpfRoute::MapFreeze
    } else if cmd == BPF_MAP_LOOKUP_BATCH as u32 {
        KebpfRoute::MapLookupBatch
    } else if cmd == BPF_OBJ_GET_INFO_BY_FD as u32 || cmd == BPF_BTF_LOAD as u32 || cmd
        == BPF_LINK_CREATE as u32 {
        KebpfRoute::Refused
    } else {
        KebpfRoute::Unimplemented
    };
    Ok(route)
}

/// The `bpf(2)` command code (Linux `enum bpf_cmd`) whose operation a route
/// performs, for the routes that perform one.
pub open spec fn command_code(route: KebpfRoute) -> Option<u32> {
    match route {
        KebpfRoute::MapCreate => Some(0u32),
        KebpfRoute::MapLookupElem => Some(1u32),
        KebpfRoute::MapUpdateElem => Some(2u32),
        KebpfRoute::MapDeleteElem => Some(3u32),
        KebpfRoute::MapGetNextKey => Some(4u32),
        KebpfRoute::ProgLoad => Some(5u32),
        KebpfRoute::RawTracepointOpen => Some(17u32),
        KebpfRoute::MapLookupAndDeleteElem => Some(21u32),
        KebpfRoute::MapFreeze => Some(22u32),
        KebpfRoute::MapLookupBatch => Some(24u32),
        KebpfRoute::Refused => None,
        KebpfRoute::Unimplemented => None,
    }
}

/// Every command is served by the operation it names, and by no other: a
/// code is routed to an operation exactly when it is that operation's
/// command code. Only BTF load (18), link creation (28) and object info
/// (15) are refused; a code above the last command is invalid.
pub proof fn lemma_route_is_named_operation(cmd: u32, route: KebpfRoute)
    requires
        command_code(route) is Some,
    ensures
        route_of(cmd) == Ok::<KebpfRoute, KebpfError>(route) <==> command_code(route) == Some(cmd),
        route_of(cmd) == Ok::<KebpfRoute, KebpfError>(KebpfRoute::Refused) <==> (cmd == 15 || cmd
            == 18 || cmd == 28),
        route_of(cmd) is Err <==> cmd > 37,
{
}

/// The command constants are the Linux `enum bpf_cmd` codes of the routed
/// operations.
pub proof fn lemma_command_constants()
    ensures
        command_code(KebpfRoute::MapCreate) == Some(BPF_MAP_CREATE as u32),
        command_code(KebpfRoute::MapLookupElem) == Some(BPF_MAP_LOOKUP_ELEM as u32),
        command_code(KebpfRoute::MapUpdateElem) == Some(BPF_MAP_UPDATE_ELEM as u32),
        command_code(KebpfRoute::MapDeleteElem) == Some(BPF_MAP_DELETE_ELEM as u32),
        command_code(KebpfRoute::MapGetNextKey) == Some(BPF_MAP_GET_NEXT_KEY as u32),
        command_code(KebpfRoute::ProgLoad) == Some(BPF_PROG_LOAD as u32),
        command_code(KebpfRoute::RawTracepointOpen) == Some(BPF_RAW_TRACEPOINT_OPEN as u32),
        command_code(KebpfRoute::MapLookupAndDeleteElem) == Some(
            BPF_MAP_LOOKUP_AND_DELETE_ELEM as u32,
        ),
        command_code(KebpfRoute::MapFreeze) == Some(BPF_MAP_FREEZE as u32),
        command_code(KebpfRoute::MapLookupBatch) == Some(BPF_MAP_LOOKUP_BATCH as u32),
{
}

/// Successive map creations return 0, 1, 2, ...: after `n` maps the next
/// creation returns `n`, and different maps never share an id while fewer
/// than 2^32 exist.
pub proof fn lemma_map_ids_distinct(r: BpfRegistry, i: int, j: int)
    requires
        r.wf(),
        0 <= i < j < r.maps().len(),
        r.maps().len() <= 0x1_0000_0000,
    ensures
        r.maps()[i].id != r.maps()[j].id,
        r.maps()[i].id == i,
{
    assert(r.maps()[i] == new_map(i as u32));
    assert(r.maps()[j] == new_map(j as u32));
}

/// The answer of `write_event` on a BPF perf event before it touches the
/// ring buffer: until user space has mapped the buffer the record is
/// dropped and the call succeeds at once (`Some(Ok(()))`); once it is
/// mapped, nothing is decided yet (`None`) and the record is written.
pub fn perf_write_early_result(mapped: bool) -> (r: Option<Result<(), BpfError>>)
    ensures
        !mapped ==> r == Some(Ok::<(), BpfError>(())),
        mapped ==> r is None,
{
    if mapped {
        None
    } else {
        Some(Ok(()))
    }
}

/// What writing a record to a BPF perf event's mapped ring buffer comes
/// to, given whether the ring buffer took the record and whether the event
/// is enabled: a refused record is an invalid-input error; a taken one
/// succeeds and wakes the pollers of an enabled event.
pub fn perf_write_outcome(written: Result<(), ()>, enabled: bool) -> (r: (Result<(), BpfError>, bool))
    ensures
        written is Err ==> r == (Err::<(), BpfError>(BpfError::InvalidInput), false),
        written is Ok ==> r == (Ok::<(), BpfError>(()), enabled),
{
    match written {
        Err(_) => (Err(BpfError::InvalidInput), false),
        Ok(()) => (Ok(()), enabled),
    }
}

/// The events a BPF perf event reports: readable while its ring buffer
/// holds a record, none otherwise.
pub fn perf_poll_events(has_record: bool) -> (e: IoEvents)
    ensures
        has_record ==> e.spec_bits() == 1,
        !has_record ==> e.spec_bits() == 0,
{
    if has_record {
        IoEvents::readable()
    } else {
        IoEvents::empty()
    }
}

/// Whether a poller asking for `events` is parked on a BPF perf event:
/// only one that waits for readability.
pub fn perf_parks_poller(events: &IoEvents) -> (b: bool)
    ensures
        b == (events.spec_bits() & 1 == 1),
{
    events.contains(IoEvents::readable())
}

} // verus!
