//! Resource registry: resource-type descriptors, live allocations with their
//! reference counts, term bindings, and the monitors that owning processes
//! hold on resources.
//!
//! Handles are plain identifiers. A resource type is named by its id, a live
//! allocation by its resource id, a wrapping term by a `u64` key and a
//! monitor by its monitor id.

use vstd::prelude::*;
use vstd::string::*;
use crate::text::str_equal;

verus! {

/// Failures of the registry and of its monitor table.
#[derive(Debug, Clone, Copy, PartialEq, Eq, Structural)]
pub enum ResourceError {
    /// The type could not be registered (injected failure).
    InitializationFailed,
    /// A type name is empty or longer than 255 bytes.
    InvalidName,
    /// A type of that name is already registered.
    DuplicateName,
    /// No type has the given tag.
    UnknownType,
    /// An allocation of size zero was asked for.
    ZeroSize,
    /// A limit of the registry was reached.
    CapacityExceeded,
    /// No live resource has the given handle.
    UnknownResource,
    /// No binding exists for a term, or its resource is gone.
    NotFound,
    /// The resource behind a term is of another type.
    TypeMismatch,
    /// No monitor has the given id.
    UnknownMonitor,
    /// The operation was refused (injected failure).
    BadArg,
}

/// Callbacks a resource type is registered with.
#[derive(Debug, Clone, Copy, PartialEq, Eq, Structural)]
pub struct ResourceTypeInit {
    pub dtor: bool,
    pub stop: bool,
    pub down: bool,
}

/// A registered resource type.
#[derive(Debug)]
pub struct MockResourceType {
    pub id: usize,
    pub name: String,
    pub has_destructor: bool,
    pub has_stop_callback: bool,
    pub has_down_callback: bool,
}

/// A live allocation.
#[derive(Debug)]
pub struct MockResource {
    pub id: usize,
    pub type_id: usize,
    pub size: u32,
    pub ref_count: usize,
    pub data: Vec<u8>,
}

/// A monitor an owning process holds on a resource.
#[derive(Debug, Clone, Copy, PartialEq, Eq, Structural)]
pub struct MockMonitor {
    pub resource_id: usize,
    pub pid: i32,
    pub active: bool,
}

/// Offset of the first term key handed out.
pub const TERM_BASE: u64 = 0x12340000;

/// Bound on the term counter, so that every key fits in a `u64`.
pub const TERM_LIMIT: usize = 0x4000_0000;

/// Which monitors a removal takes.
#[derive(Debug, Clone, Copy, PartialEq, Eq, Structural)]
pub enum MonitorKey {
    /// All monitors on a resource.
    Resource(usize),
    /// All monitors owned by a process.
    Owner(i32),
    /// The monitor with an id.
    Id(usize),
}

/// Whether monitor entry `e` is taken by `key`.
pub open spec fn key_matches(key: MonitorKey, e: (usize, MockMonitor)) -> bool {
    match key {
        MonitorKey::Resource(id) => e.1.resource_id == id,
        MonitorKey::Owner(pid) => e.1.pid == pid,
        MonitorKey::Id(mid) => e.0 == mid,
    }
}

/// Selects the entries taken by `key`.
pub open spec fn taken_by(key: MonitorKey) -> spec_fn((usize, MockMonitor)) -> bool {
    |e: (usize, MockMonitor)| key_matches(key, e)
}

/// Selects the entries left by `key`.
pub open spec fn left_by(key: MonitorKey) -> spec_fn((usize, MockMonitor)) -> bool {
    |e: (usize, MockMonitor)| !key_matches(key, e)
}

/// The whole state of the registry.
#[derive(Debug)]
pub struct MockResourceManagerState {
    pub resource_types: Vec<MockResourceType>,
    pub resources: Vec<MockResource>,
    /// (monitor id, monitor)
    pub monitors: Vec<(usize, MockMonitor)>,
    /// (term key, resource id)
    pub term_to_resource: Vec<(u64, usize)>,
    pub next_type_id: usize,
    pub next_resource_id: usize,
    pub next_term_id: usize,
    pub next_monitor_id: usize,
    pub init_calls: Vec<String>,
    /// (type id, size)
    pub alloc_calls: Vec<(usize, u32)>,
    pub make_resource_calls: Vec<usize>,
    /// (term key, type id)
    pub get_resource_calls: Vec<(u64, usize)>,
    pub keep_resource_calls: Vec<usize>,
    pub release_resource_calls: Vec<usize>,
    /// (event, mode, resource id)
    pub select_calls: Vec<(i32, u32, usize)>,
    /// (resource id, pid)
    pub monitor_calls: Vec<(usize, i32)>,
    /// ids of the monitors removed, by demonitor or by teardown
    pub demonitor_calls: Vec<usize>,
    /// resources whose destructor ran
    pub destructor_calls: Vec<usize>,
    /// (resource id, pid) of each down-callback invoked
    pub down_calls: Vec<(usize, i32)>,
    pub fail_init: bool,
    pub fail_alloc: bool,
    pub fail_make_resource: bool,
    pub fail_get_resource: bool,
    pub fail_keep_resource: bool,
    pub fail_release_resource: bool,
    pub fail_select: bool,
    pub fail_monitor: bool,
    pub fail_demonitor: bool,
    pub max_resources: Option<usize>,
    pub max_monitors: Option<usize>,
}

impl MockResourceManagerState {
    /// Well-formedness: type ids are positions and names are unique; resource
    /// ids and term keys are unique; every id is below its counter; every
    /// live resource is referenced at least once and is of a registered type;
    /// every monitor is active and watches a live resource.
    pub open spec fn wf(&self) -> bool {
        &&& self.next_type_id == self.resource_types@.len()
        &&& forall|i: int|
            0 <= i < self.resource_types@.len() ==> (#[trigger] self.resource_types@[i]).id == i
        &&& forall|i: int, j: int|
            0 <= i < j < self.resource_types@.len() ==> (#[trigger] self.resource_types@[i]).name@
                != (#[trigger] self.resource_types@[j]).name@
        &&& forall|i: int|
            0 <= i < self.resources@.len() ==> {
                &&& (#[trigger] self.resources@[i]).id < self.next_resource_id
                &&& self.resources@[i].ref_count >= 1
                &&& self.resources@[i].type_id < self.resource_types@.len()
            }
        &&& forall|i: int, j: int|
            0 <= i < j < self.resources@.len() ==> (#[trigger] self.resources@[i]).id
                != (#[trigger] self.resources@[j]).id
        &&& forall|i: int|
            0 <= i < self.monitors@.len() ==> {
                &&& (#[trigger] self.monitors@[i]).0 < self.next_monitor_id
                &&& self.has_resource(self.monitors@[i].1.resource_id)
                &&& self.monitors@[i].1.active
            }
        &&& forall|i: int|
            0 <= i < self.term_to_resource@.len() ==> (#[trigger] self.term_to_resource@[i]).0
                < TERM_BASE + self.next_term_id
        &&& forall|i: int, j: int|
            0 <= i < j < self.term_to_resource@.len() ==> (#[trigger] self.term_to_resource@[i]).0
                != (#[trigger] self.term_to_resource@[j]).0
        &&& self.next_term_id <= TERM_LIMIT
    }

    /// Whether a live resource has id `id`.
    pub open spec fn has_resource(&self, id: usize) -> bool {
        exists|i: int| 0 <= i < self.resources@.len() && (#[trigger] self.resources@[i]).id == id
    }

    /// Position of the live resource with id `id`.
    pub open spec fn resource_index(&self, id: usize) -> int {
        choose|i: int| 0 <= i < self.resources@.len() && (#[trigger] self.resources@[i]).id == id
    }

    /// Current reference count of a live resource.
    pub open spec fn ref_count_of(&self, id: usize) -> usize {
        self.resources@[self.resource_index(id)].ref_count
    }

    /// Whether a monitor with id `mid` is registered.
    pub open spec fn has_monitor(&self, mid: usize) -> bool {
        exists|i: int| 0 <= i < self.monitors@.len() && (#[trigger] self.monitors@[i]).0 == mid
    }

    /// Number of monitors on resource `id`.
    pub open spec fn monitors_on(&self, id: usize) -> nat {
        self.monitors@.filter(taken_by(MonitorKey::Resource(id))).len()
    }

    /// The registry with nothing registered, allocated or logged.
    pub open spec fn is_fresh(&self) -> bool {
        &&& self.wf()
        &&& self.resource_types@.len() == 0
        &&& self.resources@.len() == 0
        &&& self.monitors@.len() == 0
        &&& self.term_to_resource@.len() == 0
        &&& self.next_resource_id == 0
        &&& self.next_term_id == 0
        &&& self.next_monitor_id == 0
        &&& self.init_calls@.len() == 0
        &&& self.alloc_calls@.len() == 0
        &&& self.destructor_calls@.len() == 0
        &&& self.max_resources.is_none()
        &&& self.max_monitors.is_none()
        &&& !self.fail_init && !self.fail_alloc && !self.fail_make_resource
        &&& !self.fail_get_resource && !self.fail_keep_resource
        &&& !self.fail_release_resource && !self.fail_select
        &&& !self.fail_monitor && !self.fail_demonitor
    }

    pub fn new() -> (r: MockResourceManagerState)
        ensures
            r.is_fresh(),
    {
        MockResourceManagerState {
            resource_types: Vec::new(),
            resources: Vec::new(),
            monitors: Vec::new(),
            term_to_resource: Vec::new(),
            next_type_id: 0,
            next_resource_id: 0,
            next_term_id: 0,
            next_monitor_id: 0,
            init_calls: Vec::new(),
            alloc_calls: Vec::new(),
            make_resource_calls: Vec::new(),
            get_resource_calls: Vec::new(),
            keep_resource_calls: Vec::new(),
            release_resource_calls: Vec::new(),
            select_calls: Vec::new(),
            monitor_calls: Vec::new(),
            demonitor_calls: Vec::new(),
            destructor_calls: Vec::new(),
            down_calls: Vec::new(),
            fail_init: false,
            fail_alloc: false,
            fail_make_resource: false,
            fail_get_resource: false,
            fail_keep_resource: false,
            fail_release_resource: false,
            fail_select: false,
            fail_monitor: false,
            fail_demonitor: false,
            max_resources: None,
            max_monitors: None,
        }
    }

    pub fn reset(&mut self)
        ensures
            final(self).is_fresh(),
    {
        *self = MockResourceManagerState::new();
    }

    /// Hands out the next type id.
    pub fn generate_type_id(&mut self) -> (r: usize)
        requires
            old(self).next_type_id < usize::MAX,
        ensures
            r == old(self).next_type_id,
            final(self).next_type_id == old(self).next_type_id + 1,
            *final(self) == (MockResourceManagerState { next_type_id: final(self).next_type_id, ..*old(self) }),
    {
        let id = self.next_type_id;
        self.next_type_id = id + 1;
        id
    }

    /// Hands out the next resource id.
    pub fn generate_resource_id(&mut self) -> (r: usize)
        requires
            old(self).next_resource_id < usize::MAX,
        ensures
            r == old(self).next_resource_id,
            final(self).next_resource_id == old(self).next_resource_id + 1,
            *final(self) == (MockResourceManagerState { next_resource_id: final(self).next_resource_id, ..*old(self) }),
    {
        let id = self.next_resource_id;
        self.next_resource_id = id + 1;
        id
    }

    /// Hands out the next term key: the term counter offset by `TERM_BASE`.
    pub fn generate_term_id(&mut self) -> (r: u64)
        requires
            old(self).next_term_id < TERM_LIMIT,
        ensures
            r == TERM_BASE + old(self).next_term_id,
            final(self).next_term_id == old(self).next_term_id + 1,
            *final(self) == (MockResourceManagerState { next_term_id: final(self).next_term_id, ..*old(self) }),
    {
        let n = self.next_term_id;
        self.next_term_id = n + 1;
        TERM_BASE + n as u64
    }

    /// Hands out the next monitor id.
    pub fn generate_monitor_id(&mut self) -> (r: usize)
        requires
            old(self).next_monitor_id < usize::MAX,
        ensures
            r == old(self).next_monitor_id,
            final(self).next_monitor_id == old(self).next_monitor_id + 1,
            *final(self) == (MockResourceManagerState { next_monitor_id: final(self).next_monitor_id, ..*old(self) }),
    {
        let id = self.next_monitor_id;
        self.next_monitor_id = id + 1;
        id
    }

    /// Position of the live resource with id `id`, if there is one.
    pub fn find_resource(&self, id: usize) -> (r: Option<usize>)
        requires
            self.wf(),
        ensures
            r.is_none() <==> !self.has_resource(id),
            r.is_some() ==> r.unwrap() == self.resource_index(id),
            r.is_some() ==> self.resources@[r.unwrap() as int].id == id,
            r.is_some() ==> r.unwrap() < self.resources@.len(),
    {
        let mut i: usize = 0;
        while i < self.resources.len()
            invariant
                self.wf(),
                i <= self.resources@.len(),
                forall|k: int| 0 <= k < i ==> (#[trigger] self.resources@[k]).id != id,
            decreases self.resources@.len() - i,
        {
            if self.resources[i].id == id {
                proof {
                    self.lemma_resource_index(id, i as int);
                }
                return Some(i);
            }
            i = i + 1;
        }
        None
    }

    /// The position of a resource is the one its id is found at.
    pub proof fn lemma_resource_index(&self, id: usize, i: int)
        requires
            self.wf(),
            0 <= i < self.resources@.len(),
            self.resources@[i].id == id,
        ensures
            self.has_resource(id),
            self.resource_index(id) == i,
    {
        let j = self.resource_index(id);
        assert(self.has_resource(id));
        if j != i {
            if j < i {
                assert(self.resources@[j].id != self.resources@[i].id);
            } else {
                assert(self.resources@[i].id != self.resources@[j].id);
            }
        }
    }

    /// Position of the monitor with id `mid`, if there is one.
    pub fn find_monitor(&self, mid: usize) -> (r: Option<usize>)
        ensures
            r.is_none() <==> !self.has_monitor(mid),
            r.is_some() ==> r.unwrap() < self.monitors@.len() && self.monitors@[r.unwrap() as int].0
                == mid,
    {
        let mut i: usize = 0;
        while i < self.monitors.len()
            invariant
                i <= self.monitors@.len(),
                forall|k: int| 0 <= k < i ==> (#[trigger] self.monitors@[k]).0 != mid,
            decreases self.monitors@.len() - i,
        {
            if self.monitors[i].0 == mid {
                return Some(i);
            }
            i = i + 1;
        }
        None
    }

    /// Position of the type named `name`, if there is one.
    pub fn find_type_by_name(&self, name: &str) -> (r: Option<usize>)
        ensures
            r.is_none() <==> forall|k: int|
                0 <= k < self.resource_types@.len() ==> (#[trigger] self.resource_types@[k]).name@
                    != name@,
            r.is_some() ==> r.unwrap() < self.resource_types@.len()
                && self.resource_types@[r.unwrap() as int].name@ == name@,
    {
        let mut i: usize = 0;
        while i < self.resource_types.len()
            invariant
                i <= self.resource_types@.len(),
                forall|k: int|
                    0 <= k < i ==> (#[trigger] self.resource_types@[k]).name@ != name@,
            decreases self.resource_types@.len() - i,
        {
            if str_equal(self.resource_types[i].name.as_str(), name) {
                return Some(i);
            }
            i = i + 1;
        }
        None
    }
}


impl MockResourceManagerState {
    /// Removes the monitors that `key` takes, keeping the order of the others,
    /// and returns the removed ones in order.
    pub fn take_monitors(&mut self, key: MonitorKey) -> (removed: Vec<(usize, MockMonitor)>)
        ensures
            final(self).monitors@ == old(self).monitors@.filter(left_by(key)),
            removed@ == old(self).monitors@.filter(taken_by(key)),
            forall|k: int|
                0 <= k < final(self).monitors@.len() ==> old(self).monitors@.contains(
                    #[trigger] final(self).monitors@[k],
                ) && !key_matches(key, final(self).monitors@[k]),
            forall|k: int|
                0 <= k < removed@.len() ==> old(self).monitors@.contains(#[trigger] removed@[k]),
            final(self).resource_types == old(self).resource_types,
            final(self).resources == old(self).resources,
            final(self).term_to_resource == old(self).term_to_resource,
            final(self).next_type_id == old(self).next_type_id,
            final(self).next_resource_id == old(self).next_resource_id,
            final(self).next_term_id == old(self).next_term_id,
            final(self).next_monitor_id == old(self).next_monitor_id,
            final(self).init_calls == old(self).init_calls,
            final(self).alloc_calls == old(self).alloc_calls,
            final(self).make_resource_calls == old(self).make_resource_calls,
            final(self).get_resource_calls == old(self).get_resource_calls,
            final(self).keep_resource_calls == old(self).keep_resource_calls,
            final(self).release_resource_calls == old(self).release_resource_calls,
            final(self).select_calls == old(self).select_calls,
            final(self).monitor_calls == old(self).monitor_calls,
            final(self).demonitor_calls == old(self).demonitor_calls,
            final(self).destructor_calls == old(self).destructor_calls,
            final(self).down_calls == old(self).down_calls,
            final(self).fail_init == old(self).fail_init,
            final(self).fail_alloc == old(self).fail_alloc,
            final(self).fail_make_resource == old(self).fail_make_resource,
            final(self).fail_get_resource == old(self).fail_get_resource,
            final(self).fail_keep_resource == old(self).fail_keep_resource,
            final(self).fail_release_resource == old(self).fail_release_resource,
            final(self).fail_select == old(self).fail_select,
            final(self).fail_monitor == old(self).fail_monitor,
            final(self).fail_demonitor == old(self).fail_demonitor,
            final(self).max_resources == old(self).max_resources,
            final(self).max_monitors == old(self).max_monitors,
    {
        let ghost all = self.monitors@;
        let mut kept: Vec<(usize, MockMonitor)> = Vec::new();
        let mut removed: Vec<(usize, MockMonitor)> = Vec::new();
        let mut i: usize = 0;
        let n = self.monitors.len();
        while i < n
            invariant
                all == self.monitors@,
                n == all.len(),
                i <= n,
                kept@ == all.subrange(0, i as int).filter(left_by(key)),
                removed@ == all.subrange(0, i as int).filter(taken_by(key)),
                forall|k: int|
                    0 <= k < kept@.len() ==> all.contains(#[trigger] kept@[k]) && !key_matches(
                        key,
                        kept@[k],
                    ),
                forall|k: int| 0 <= k < removed@.len() ==> all.contains(#[trigger] removed@[k]),
            decreases n - i,
        {
            let e = self.monitors[i];
            proof {
                assert(all.subrange(0, i + 1) == all.subrange(0, i as int).push(e));
                all.subrange(0, i as int).lemma_filter_push(e, left_by(key));
                all.subrange(0, i as int).lemma_filter_push(e, taken_by(key));
                assert(all.contains(e)) by {
                    assert(all[i as int] == e);
                }
            }
            let hit = match key {
                MonitorKey::Resource(id) => e.1.resource_id == id,
                MonitorKey::Owner(pid) => e.1.pid == pid,
                MonitorKey::Id(mid) => e.0 == mid,
            };
            if hit {
                removed.push(e);
            } else {
                kept.push(e);
            }
            i = i + 1;
        }
        proof {
            assert(all.subrange(0, n as int) == all);
        }
        self.monitors = kept;
        removed
    }
}

/// Registry front end, with knobs to inject failures and limits.
#[derive(Debug)]
pub struct MockResourceManager {
    pub state: MockResourceManagerState,
}

/// A filter that no element passes is empty.
pub proof fn lemma_filter_none<A>(s: Seq<A>, p: spec_fn(A) -> bool)
    requires
        forall|i: int| 0 <= i < s.len() ==> !p(#[trigger] s[i]),
    ensures
        s.filter(p).len() == 0,
    decreases s.len(),
{
    reveal(Seq::filter);
    if s.len() > 0 {
        lemma_filter_none(s.drop_last(), p);
    }
}

/// A payload of `n` zero bytes.
pub open spec fn zeros(n: nat) -> Seq<u8> {
    Seq::new(n, |k: int| 0u8)
}

impl MockResourceManager {
    pub open spec fn wf(&self) -> bool {
        self.state.wf()
    }

    pub fn new() -> (r: MockResourceManager)
        ensures
            r.state.is_fresh(),
    {
        MockResourceManager { state: MockResourceManagerState::new() }
    }

    /// Caps the number of live resources.
    pub fn with_max_resources(self, max: usize) -> (r: MockResourceManager)
        ensures
            r == (MockResourceManager {
                state: MockResourceManagerState { max_resources: Some(max), ..self.state },
            }),
    {
        let mut m = self;
        m.state.max_resources = Some(max);
        m
    }

    /// Caps the number of monitors.
    pub fn with_max_monitors(self, max: usize) -> (r: MockResourceManager)
        ensures
            r == (MockResourceManager {
                state: MockResourceManagerState { max_monitors: Some(max), ..self.state },
            }),
    {
        let mut m = self;
        m.state.max_monitors = Some(max);
        m
    }

    pub fn set_fail_init(&mut self, fail: bool)
        ensures
            *final(self) == (MockResourceManager {
                state: MockResourceManagerState { fail_init: fail, ..old(self).state },
            }),
    {
        self.state.fail_init = fail;
    }

    pub fn set_fail_alloc(&mut self, fail: bool)
        ensures
            *final(self) == (MockResourceManager {
                state: MockResourceManagerState { fail_alloc: fail, ..old(self).state },
            }),
    {
        self.state.fail_alloc = fail;
    }

    pub fn set_fail_make_resource(&mut self, fail: bool)
        ensures
            *final(self) == (MockResourceManager {
                state: MockResourceManagerState { fail_make_resource: fail, ..old(self).state },
            }),
    {
        self.state.fail_make_resource = fail;
    }

    pub fn set_fail_get_resource(&mut self, fail: bool)
        ensures
            *final(self) == (MockResourceManager {
                state: MockResourceManagerState { fail_get_resource: fail, ..old(self).state },
            }),
    {
        self.state.fail_get_resource = fail;
    }

    pub fn get_resource_count(&self) -> (r: usize)
        ensures
            r == self.state.resources@.len(),
    {
        self.state.resources.len()
    }

    pub fn get_resource_type_count(&self) -> (r: usize)
        ensures
            r == self.state.resource_types@.len(),
    {
        self.state.resource_types.len()
    }

    pub fn get_monitor_count(&self) -> (r: usize)
        ensures
            r == self.state.monitors@.len(),
    {
        self.state.monitors.len()
    }

    pub fn get_init_call_count(&self) -> (r: usize)
        ensures
            r == self.state.init_calls@.len(),
    {
        self.state.init_calls.len()
    }

    pub fn get_alloc_call_count(&self) -> (r: usize)
        ensures
            r == self.state.alloc_calls@.len(),
    {
        self.state.alloc_calls.len()
    }

    pub fn get_destructor_call_count(&self) -> (r: usize)
        ensures
            r == self.state.destructor_calls@.len(),
    {
        self.state.destructor_calls.len()
    }

    /// Whether a type of that name was registered.
    pub fn verify_init_called(&self, name: &str) -> (r: bool)
        ensures
            r == exists|k: int|
                0 <= k < self.state.init_calls@.len() && (#[trigger] self.state.init_calls@[k])@
                    == name@,
    {
        let mut i: usize = 0;
        while i < self.state.init_calls.len()
            invariant
                i <= self.state.init_calls@.len(),
                forall|k: int| 0 <= k < i ==> (#[trigger] self.state.init_calls@[k])@ != name@,
            decreases self.state.init_calls@.len() - i,
        {
            if str_equal(self.state.init_calls[i].as_str(), name) {
                return true;
            }
            i = i + 1;
        }
        false
    }

    /// Whether the destructor of resource `resource_id` ran.
    pub fn verify_destructor_called(&self, resource_id: usize) -> (r: bool)
        ensures
            r == self.state.destructor_calls@.contains(resource_id),
    {
        let mut i: usize = 0;
        while i < self.state.destructor_calls.len()
            invariant
                i <= self.state.destructor_calls@.len(),
                forall|k: int| 0 <= k < i ==> self.state.destructor_calls@[k] != resource_id,
            decreases self.state.destructor_calls@.len() - i,
        {
            if self.state.destructor_calls[i] == resource_id {
                assert(self.state.destructor_calls@[i as int] == resource_id);
                return true;
            }
            i = i + 1;
        }
        false
    }

    /// Reference count of a live resource.
    pub fn get_resource_ref_count(&self, resource_id: usize) -> (r: Option<usize>)
        requires
            self.wf(),
        ensures
            r.is_none() <==> !self.state.has_resource(resource_id),
            r.is_some() ==> r.unwrap() == self.state.ref_count_of(resource_id),
    {
        match self.state.find_resource(resource_id) {
            Some(i) => Some(self.state.resources[i].ref_count),
            None => None,
        }
    }

    pub fn reset(&mut self)
        ensures
            final(self).state.is_fresh(),
    {
        self.state.reset();
    }

    pub fn get_state(&self) -> (r: &MockResourceManagerState)
        ensures
            *r == self.state,
    {
        &self.state
    }

    pub fn get_state_mut(&mut self) -> (r: &mut MockResourceManagerState)
        ensures
            *r == old(self).state,
            final(self).state == *final(r),
    {
        &mut self.state
    }
}


impl MockResourceManagerState {
    /// Whether a type named `name` is registered.
    pub open spec fn has_type_named(&self, name: Seq<char>) -> bool {
        exists|k: int|
            0 <= k < self.resource_types@.len() && (#[trigger] self.resource_types@[k]).name@
                == name
    }

    /// Whether the live resource `id` is of a type with a down-callback.
    pub open spec fn has_down_callback(&self, id: usize) -> bool {
        self.resource_types@[self.resources@[self.resource_index(id)].type_id as int].has_down_callback
    }

    /// Whether the live resource `id` is of a type with a destructor.
    pub open spec fn has_destructor(&self, id: usize) -> bool {
        self.resource_types@[self.resources@[self.resource_index(id)].type_id as int].has_destructor
    }

    /// Whether the resource cap is reached.
    pub open spec fn at_resource_limit(&self) -> bool {
        match self.max_resources {
            Some(m) => self.resources@.len() >= m,
            None => false,
        }
    }

    /// Whether the monitor cap is reached.
    pub open spec fn at_monitor_limit(&self) -> bool {
        match self.max_monitors {
            Some(m) => self.monitors@.len() >= m,
            None => false,
        }
    }

    /// The resource term `term` is bound to, if any.
    pub open spec fn binding_of(&self, term: u64) -> Option<usize> {
        if exists|k: int|
            0 <= k < self.term_to_resource@.len() && (#[trigger] self.term_to_resource@[k]).0
                == term {
            let k = choose|k: int|
                0 <= k < self.term_to_resource@.len() && (#[trigger] self.term_to_resource@[k]).0
                    == term;
            Some(self.term_to_resource@[k].1)
        } else {
            None
        }
    }

    /// The down-callbacks owed for removed monitors, in order.
    pub open spec fn down_entries(&self, removed: Seq<(usize, MockMonitor)>) -> Seq<(usize, i32)>
        decreases removed.len(),
    {
        if removed.len() == 0 {
            Seq::empty()
        } else {
            let e = removed.last();
            let rest = self.down_entries(removed.drop_last());
            if self.has_down_callback(e.1.resource_id) {
                rest.push((e.1.resource_id, e.1.pid))
            } else {
                rest
            }
        }
    }
}

/// Outcome of registering a type named `name`.
pub open spec fn init_outcome(s: MockResourceManagerState, name: &str) -> Result<usize, ResourceError> {
    if s.fail_init {
        Err(ResourceError::InitializationFailed)
    } else if name.len() == 0 || name.len() > 255 {
        Err(ResourceError::InvalidName)
    } else if s.has_type_named(name@) {
        Err(ResourceError::DuplicateName)
    } else if s.next_type_id == usize::MAX {
        Err(ResourceError::CapacityExceeded)
    } else {
        Ok(s.next_type_id)
    }
}

/// Outcome of allocating `size` bytes of type `type_id`.
pub open spec fn alloc_outcome(s: MockResourceManagerState, type_id: usize, size: u32) -> Result<
    usize,
    ResourceError,
> {
    if s.fail_alloc {
        Err(ResourceError::CapacityExceeded)
    } else if size == 0 {
        Err(ResourceError::ZeroSize)
    } else if s.at_resource_limit() {
        Err(ResourceError::CapacityExceeded)
    } else if type_id >= s.resource_types@.len() {
        Err(ResourceError::UnknownType)
    } else if s.next_resource_id == usize::MAX {
        Err(ResourceError::CapacityExceeded)
    } else {
        Ok(s.next_resource_id)
    }
}

/// Outcome of wrapping resource `id` in a term.
pub open spec fn make_outcome(s: MockResourceManagerState, id: usize) -> Result<u64, ResourceError> {
    if s.fail_make_resource {
        Err(ResourceError::BadArg)
    } else if !s.has_resource(id) {
        Err(ResourceError::UnknownResource)
    } else if s.next_term_id >= TERM_LIMIT {
        Err(ResourceError::CapacityExceeded)
    } else {
        Ok((TERM_BASE + s.next_term_id) as u64)
    }
}

/// Outcome of resolving term `term` as a resource of type `type_id`.
pub open spec fn get_outcome(s: MockResourceManagerState, term: u64, type_id: usize) -> Result<
    usize,
    ResourceError,
> {
    if s.fail_get_resource {
        Err(ResourceError::NotFound)
    } else if type_id >= s.resource_types@.len() {
        Err(ResourceError::UnknownType)
    } else {
        match s.binding_of(term) {
            None => Err(ResourceError::NotFound),
            Some(id) => if !s.has_resource(id) {
                Err(ResourceError::NotFound)
            } else if s.resources@[s.resource_index(id)].type_id != type_id {
                Err(ResourceError::TypeMismatch)
            } else {
                Ok(id)
            },
        }
    }
}

/// Outcome of taking one more reference to resource `id`.
pub open spec fn keep_outcome(s: MockResourceManagerState, id: usize) -> Result<(), ResourceError> {
    if s.fail_keep_resource {
        Err(ResourceError::BadArg)
    } else if !s.has_resource(id) {
        Err(ResourceError::UnknownResource)
    } else if s.ref_count_of(id) == usize::MAX {
        Err(ResourceError::CapacityExceeded)
    } else {
        Ok(())
    }
}

/// Outcome of dropping one reference to resource `id`.
pub open spec fn release_outcome(s: MockResourceManagerState, id: usize) -> Result<(), ResourceError> {
    if s.fail_release_resource {
        Err(ResourceError::BadArg)
    } else if !s.has_resource(id) {
        Err(ResourceError::UnknownResource)
    } else {
        Ok(())
    }
}

/// Outcome of registering a monitor on resource `id`.
pub open spec fn monitor_outcome(s: MockResourceManagerState, id: usize) -> Result<usize, ResourceError> {
    if s.fail_monitor {
        Err(ResourceError::BadArg)
    } else if !s.has_resource(id) {
        Err(ResourceError::UnknownResource)
    } else if s.at_monitor_limit() || s.next_monitor_id == usize::MAX {
        Err(ResourceError::CapacityExceeded)
    } else {
        Ok(s.next_monitor_id)
    }
}

/// Outcome of removing monitor `mid`.
pub open spec fn demonitor_outcome(s: MockResourceManagerState, mid: usize) -> Result<(), ResourceError> {
    if s.fail_demonitor {
        Err(ResourceError::BadArg)
    } else if !s.has_monitor(mid) {
        Err(ResourceError::UnknownMonitor)
    } else {
        Ok(())
    }
}

/// A resource with its reference count changed by `delta`.
pub open spec fn with_count(r: MockResource, c: int) -> MockResource {
    MockResource { ref_count: c as usize, ..r }
}

/// The monitor ids of removed entries.
pub open spec fn ids_of(removed: Seq<(usize, MockMonitor)>) -> Seq<usize> {
    removed.map_values(|e: (usize, MockMonitor)| e.0)
}


impl MockResourceManagerState {
    /// Appends the ids of removed monitors to the removal log.
    fn log_removed(&mut self, removed: &Vec<(usize, MockMonitor)>)
        ensures
            *final(self) == (MockResourceManagerState {
                demonitor_calls: final(self).demonitor_calls,
                ..*old(self)
            }),
            final(self).demonitor_calls@ == old(self).demonitor_calls@ + ids_of(removed@),
    {
        let mut k: usize = 0;
        while k < removed.len()
            invariant
                k <= removed@.len(),
                *self == (MockResourceManagerState {
                    demonitor_calls: self.demonitor_calls,
                    ..*old(self)
                }),
                self.demonitor_calls@ == old(self).demonitor_calls@ + ids_of(
                    removed@.subrange(0, k as int),
                ),
            decreases removed@.len() - k,
        {
            proof {
                assert(ids_of(removed@.subrange(0, k + 1)) =~= ids_of(
                    removed@.subrange(0, k as int),
                ).push(removed@[k as int].0));
            }
            self.demonitor_calls.push(removed[k].0);
            k = k + 1;
        }
        proof {
            assert(removed@.subrange(0, removed@.len() as int) == removed@);
        }
    }

    /// Removes the live resource at position `i` together with every monitor
    /// on it, logging each monitor removed; runs its destructor if `dtor`.
    fn destroy(&mut self, i: usize, dtor: bool)
        requires
            old(self).wf(),
            i < old(self).resources@.len(),
        ensures
            final(self).wf(),
            ({
                let id = old(self).resources@[i as int].id;
                &&& *final(self) == (MockResourceManagerState {
                    resources: final(self).resources,
                    monitors: final(self).monitors,
                    demonitor_calls: final(self).demonitor_calls,
                    destructor_calls: final(self).destructor_calls,
                    ..*old(self)
                })
                &&& final(self).resources@ == old(self).resources@.remove(i as int)
                &&& final(self).monitors@ == old(self).monitors@.filter(
                    left_by(MonitorKey::Resource(id)),
                )
                &&& final(self).demonitor_calls@ == old(self).demonitor_calls@ + ids_of(
                    old(self).monitors@.filter(taken_by(MonitorKey::Resource(id))),
                )
                &&& final(self).destructor_calls@ == if dtor {
                    old(self).destructor_calls@.push(id)
                } else {
                    old(self).destructor_calls@
                }
                &&& !final(self).has_resource(id)
                &&& final(self).monitors_on(id) == 0
            }),
    {
        let id = self.resources[i].id;
        let ghost s0 = *self;
        let removed = self.take_monitors(MonitorKey::Resource(id));
        self.log_removed(&removed);
        if dtor {
            self.destructor_calls.push(id);
        }
        let _gone = self.resources.remove(i);
        proof {
            let s1 = *self;
            // resource ids stay unique and bounded
            assert forall|a: int, b: int|
                0 <= a < b < s1.resources@.len() implies (#[trigger] s1.resources@[a]).id
                != (#[trigger] s1.resources@[b]).id by {
                let oa = if a < i { a } else { a + 1 };
                let ob = if b < i { b } else { b + 1 };
                assert(s1.resources@[a] == s0.resources@[oa]);
                assert(s1.resources@[b] == s0.resources@[ob]);
            }
            assert forall|a: int| 0 <= a < s1.resources@.len() implies {
                &&& (#[trigger] s1.resources@[a]).id < s1.next_resource_id
                &&& s1.resources@[a].ref_count >= 1
                &&& s1.resources@[a].type_id < s1.resource_types@.len()
            } by {
                let oa = if a < i { a } else { a + 1 };
                assert(s1.resources@[a] == s0.resources@[oa]);
            }
            // the destroyed id is gone
            assert forall|a: int| 0 <= a < s1.resources@.len() implies (#[trigger] s1.resources@[
                a
            ]).id != id by {
                let oa = if a < i { a } else { a + 1 };
                assert(s1.resources@[a] == s0.resources@[oa]);
            }
            // every remaining monitor watches a remaining resource
            assert forall|k: int| 0 <= k < s1.monitors@.len() implies {
                &&& (#[trigger] s1.monitors@[k]).0 < s1.next_monitor_id
                &&& s1.has_resource(s1.monitors@[k].1.resource_id)
                &&& s1.monitors@[k].1.active
            } by {
                let e = s1.monitors@[k];
                assert(s0.monitors@.contains(e));
                let j = choose|j: int| 0 <= j < s0.monitors@.len() && s0.monitors@[j] == e;
                assert(s0.has_resource(e.1.resource_id));
                let w = choose|w: int|
                    0 <= w < s0.resources@.len() && (#[trigger] s0.resources@[w]).id
                        == e.1.resource_id;
                assert(w != i);
                let nw = if w < i { w } else { w - 1 };
                assert(s1.resources@[nw] == s0.resources@[w]);
            }
            lemma_filter_none(s1.monitors@, taken_by(MonitorKey::Resource(id)));
        }
    }
}

impl MockResourceManager {
    /// Registers a resource type. Names are 1 to 255 bytes and unique for
    /// the life of the registry; the new type's tag is returned.
    pub fn init_resource_type(&mut self, name: &str, init: ResourceTypeInit) -> (r: Result<
        usize,
        ResourceError,
    >)
        requires
            old(self).wf(),
        ensures
            final(self).wf(),
            r == init_outcome(old(self).state, name),
            r is Err ==> *final(self) == *old(self),
            r is Ok ==> {
                let n = old(self).state.resource_types@.len();
                &&& final(self).state == (MockResourceManagerState {
                    resource_types: final(self).state.resource_types,
                    next_type_id: final(self).state.next_type_id,
                    init_calls: final(self).state.init_calls,
                    ..old(self).state
                })
                &&& final(self).state.next_type_id == n + 1
                &&& final(self).state.resource_types@.len() == n + 1
                &&& final(self).state.resource_types@.drop_last() == old(
                    self,
                ).state.resource_types@
                &&& final(self).state.resource_types@[n as int].name@ == name@
                &&& final(self).state.resource_types@[n as int].has_destructor == init.dtor
                &&& final(self).state.resource_types@[n as int].has_stop_callback == init.stop
                &&& final(self).state.resource_types@[n as int].has_down_callback == init.down
                &&& final(self).state.init_calls@.len() == old(self).state.init_calls@.len() + 1
                &&& final(self).state.init_calls@.drop_last() == old(self).state.init_calls@
                &&& final(self).state.init_calls@.last()@ == name@
            },
    {
        if self.state.fail_init {
            return Err(ResourceError::InitializationFailed);
        }
        let len = name.len();
        if len == 0 || len > 255 {
            return Err(ResourceError::InvalidName);
        }
        if let Some(k) = self.state.find_type_by_name(name) {
            assert(self.state.resource_types@[k as int].name@ == name@);
            return Err(ResourceError::DuplicateName);
        }
        if self.state.next_type_id == usize::MAX {
            return Err(ResourceError::CapacityExceeded);
        }
        let ghost s0 = self.state;
        let type_id = self.state.generate_type_id();
        let resource_type = MockResourceType {
            id: type_id,
            name: String::from_str(name),
            has_destructor: init.dtor,
            has_stop_callback: init.stop,
            has_down_callback: init.down,
        };
        self.state.init_calls.push(String::from_str(name));
        self.state.resource_types.push(resource_type);
        proof {
            let s1 = self.state;
            assert(s1.resource_types@.drop_last() =~= s0.resource_types@);
            assert(s1.init_calls@.drop_last() =~= s0.init_calls@);
            assert forall|a: int| 0 <= a < s1.resource_types@.len() implies (#[trigger] s1.resource_types@[a]).id == a by {
                if a < s0.resource_types@.len() {
                    assert(s1.resource_types@[a] == s0.resource_types@[a]);
                }
            }
            assert forall|a: int, b: int|
                0 <= a < b < s1.resource_types@.len() implies (#[trigger] s1.resource_types@[a]).name@
                != (#[trigger] s1.resource_types@[b]).name@ by {
                assert(s1.resource_types@[a] == s0.resource_types@[a]);
                if b < s0.resource_types@.len() {
                    assert(s1.resource_types@[b] == s0.resource_types@[b]);
                }
            }
            assert forall|a: int| 0 <= a < s1.monitors@.len() implies s1.has_resource(
                (#[trigger] s1.monitors@[a]).1.resource_id,
            ) by {
                let rid = s0.monitors@[a].1.resource_id;
                assert(s0.has_resource(rid));
                let w = choose|w: int|
                    0 <= w < s0.resources@.len() && (#[trigger] s0.resources@[w]).id == rid;
                assert(s1.resources@[w] == s0.resources@[w]);
            }
        }
        Ok(type_id)
    }

    /// Allocates a zero-filled resource of `size` bytes with reference count 1.
    pub fn alloc_resource(&mut self, type_id: usize, size: u32) -> (r: Result<usize, ResourceError>)
        requires
            old(self).wf(),
        ensures
            final(self).wf(),
            r == alloc_outcome(old(self).state, type_id, size),
            r is Err ==> *final(self) == *old(self),
            r matches Ok(id) ==> {
                let n = old(self).state.resources@.len();
                &&& final(self).state == (MockResourceManagerState {
                    resources: final(self).state.resources,
                    next_resource_id: final(self).state.next_resource_id,
                    alloc_calls: final(self).state.alloc_calls,
                    ..old(self).state
                })
                &&& final(self).state.next_resource_id == id + 1
                &&& final(self).state.resources@.len() == n + 1
                &&& final(self).state.resources@.drop_last() == old(self).state.resources@
                &&& final(self).state.resources@[n as int].id == id
                &&& final(self).state.resources@[n as int].type_id == type_id
                &&& final(self).state.resources@[n as int].size == size
                &&& final(self).state.resources@[n as int].ref_count == 1
                &&& final(self).state.resources@[n as int].data@ == zeros(size as nat)
                &&& final(self).state.alloc_calls@ == old(self).state.alloc_calls@.push(
                    (type_id, size),
                )
                &&& final(self).state.has_resource(id)
                &&& final(self).state.ref_count_of(id) == 1
            },
    {
        if self.state.fail_alloc {
            return Err(ResourceError::CapacityExceeded);
        }
        if size == 0 {
            return Err(ResourceError::ZeroSize);
        }
        if let Some(max) = self.state.max_resources {
            if self.state.resources.len() >= max {
                return Err(ResourceError::CapacityExceeded);
            }
        }
        if type_id >= self.state.resource_types.len() {
            return Err(ResourceError::UnknownType);
        }
        if self.state.next_resource_id == usize::MAX {
            return Err(ResourceError::CapacityExceeded);
        }
        let ghost s0 = self.state;
        let resource_id = self.state.generate_resource_id();
        let data = vec![0u8; size as usize];
        let resource = MockResource { id: resource_id, type_id, size, ref_count: 1, data };
        self.state.alloc_calls.push((type_id, size));
        self.state.resources.push(resource);
        proof {
            let s1 = self.state;
            let n = s0.resources@.len();
            assert(s1.resources@.drop_last() =~= s0.resources@);
            assert(s1.resources@[n as int].data@ =~= zeros(size as nat));
            assert forall|a: int| 0 <= a < s1.resources@.len() implies {
                &&& (#[trigger] s1.resources@[a]).id < s1.next_resource_id
                &&& s1.resources@[a].ref_count >= 1
                &&& s1.resources@[a].type_id < s1.resource_types@.len()
            } by {
                if a < n {
                    assert(s1.resources@[a] == s0.resources@[a]);
                }
            }
            assert forall|a: int, b: int|
                0 <= a < b < s1.resources@.len() implies (#[trigger] s1.resources@[a]).id
                != (#[trigger] s1.resources@[b]).id by {
                assert(s1.resources@[a] == s0.resources@[a]);
                if b < n {
                    assert(s1.resources@[b] == s0.resources@[b]);
                }
            }
            assert forall|a: int| 0 <= a < s1.monitors@.len() implies s1.has_resource(
                (#[trigger] s1.monitors@[a]).1.resource_id,
            ) by {
                let rid = s0.monitors@[a].1.resource_id;
                assert(s0.has_resource(rid));
                let w = choose|w: int|
                    0 <= w < s0.resources@.len() && (#[trigger] s0.resources@[w]).id == rid;
                assert(s1.resources@[w] == s0.resources@[w]);
            }
            s1.lemma_resource_index(resource_id, n as int);
        }
        Ok(resource_id)
    }
}


/// Monitors that watched live resources still do when the resources are
/// the same.
pub proof fn lemma_monitors_live(s0: MockResourceManagerState, s1: MockResourceManagerState)
    requires
        s0.wf(),
        s1.resources == s0.resources,
        s1.monitors == s0.monitors,
    ensures
        forall|a: int|
            0 <= a < s1.monitors@.len() ==> s1.has_resource((#[trigger] s1.monitors@[a]).1.resource_id),
{
    assert forall|a: int| 0 <= a < s1.monitors@.len() implies s1.has_resource(
        (#[trigger] s1.monitors@[a]).1.resource_id,
    ) by {
        let rid = s0.monitors@[a].1.resource_id;
        assert(s0.has_resource(rid));
        let w = choose|w: int|
            0 <= w < s0.resources@.len() && (#[trigger] s0.resources@[w]).id == rid;
        assert(s1.resources@[w] == s0.resources@[w]);
    }
}

impl MockResourceManager {
    /// Wraps live resource `resource_id` in a fresh term and records the
    /// binding. Several wraps of one resource are allowed.
    pub fn make_resource(&mut self, resource_id: usize) -> (r: Result<u64, ResourceError>)
        requires
            old(self).wf(),
        ensures
            final(self).wf(),
            r == make_outcome(old(self).state, resource_id),
            r is Err ==> *final(self) == *old(self),
            r matches Ok(t) ==> {
                &&& final(self).state == (MockResourceManagerState {
                    term_to_resource: final(self).state.term_to_resource,
                    next_term_id: final(self).state.next_term_id,
                    make_resource_calls: final(self).state.make_resource_calls,
                    ..old(self).state
                })
                &&& final(self).state.next_term_id == old(self).state.next_term_id + 1
                &&& final(self).state.term_to_resource@ == old(
                    self,
                ).state.term_to_resource@.push((t, resource_id))
                &&& final(self).state.make_resource_calls@ == old(
                    self,
                ).state.make_resource_calls@.push(resource_id)
                &&& final(self).state.binding_of(t) == Some(resource_id)
            },
    {
        if self.state.fail_make_resource {
            return Err(ResourceError::BadArg);
        }
        if self.state.find_resource(resource_id).is_none() {
            return Err(ResourceError::UnknownResource);
        }
        if self.state.next_term_id >= TERM_LIMIT {
            return Err(ResourceError::CapacityExceeded);
        }
        let ghost s0 = self.state;
        let term = self.state.generate_term_id();
        self.state.make_resource_calls.push(resource_id);
        self.state.term_to_resource.push((term, resource_id));
        proof {
            let s1 = self.state;
            let n = s0.term_to_resource@.len();
            lemma_monitors_live(s0, s1);
            assert forall|a: int| 0 <= a < s1.term_to_resource@.len() implies (#[trigger] s1.term_to_resource@[a]).0
                < TERM_BASE + s1.next_term_id by {
                if a < n {
                    assert(s1.term_to_resource@[a] == s0.term_to_resource@[a]);
                }
            }
            assert forall|a: int, b: int|
                0 <= a < b < s1.term_to_resource@.len() implies (#[trigger] s1.term_to_resource@[a]).0
                != (#[trigger] s1.term_to_resource@[b]).0 by {
                assert(s1.term_to_resource@[a] == s0.term_to_resource@[a]);
                if b < n {
                    assert(s1.term_to_resource@[b] == s0.term_to_resource@[b]);
                }
            }
            assert(s1.term_to_resource@[n as int].0 == term);
            let k = choose|k: int|
                0 <= k < s1.term_to_resource@.len() && (#[trigger] s1.term_to_resource@[k]).0
                    == term;
            if k != n {
                assert(s1.term_to_resource@[k].0 != s1.term_to_resource@[n as int].0);
            }
        }
        Ok(term)
    }

    /// Resolves a term to the resource it wraps, checking the resource's type.
    /// Each resolution that reaches the lookup is logged.
    pub fn get_resource(&mut self, term: u64, type_id: usize) -> (r: Result<usize, ResourceError>)
        requires
            old(self).wf(),
        ensures
            final(self).wf(),
            r == get_outcome(old(self).state, term, type_id),
            old(self).state.fail_get_resource || type_id >= old(self).state.resource_types@.len()
                ==> *final(self) == *old(self),
            !old(self).state.fail_get_resource && type_id < old(self).state.resource_types@.len()
                ==> {
                &&& final(self).state == (MockResourceManagerState {
                    get_resource_calls: final(self).state.get_resource_calls,
                    ..old(self).state
                })
                &&& final(self).state.get_resource_calls@ == old(
                    self,
                ).state.get_resource_calls@.push((term, type_id))
            },
    {
        if self.state.fail_get_resource {
            return Err(ResourceError::NotFound);
        }
        if type_id >= self.state.resource_types.len() {
            return Err(ResourceError::UnknownType);
        }
        let ghost s0 = self.state;
        self.state.get_resource_calls.push((term, type_id));
        proof {
            lemma_monitors_live(s0, self.state);
        }
        let ghost s1 = self.state;
        let mut k: usize = 0;
        let n = self.state.term_to_resource.len();
        while k < n
            invariant
                self.state == s1,
                s0 == old(self).state,
                !s0.fail_get_resource,
                type_id < s0.resource_types@.len(),
                s1 == (MockResourceManagerState { get_resource_calls: s1.get_resource_calls, ..s0 }),
                s1.get_resource_calls@ == s0.get_resource_calls@.push((term, type_id)),
                s0.wf(),
                self.state.wf(),
                n == self.state.term_to_resource@.len(),
                self.state.term_to_resource == s0.term_to_resource,
                self.state.resources == s0.resources,
                k <= n,
                forall|j: int| 0 <= j < k ==> (#[trigger] self.state.term_to_resource@[j]).0 != term,
            decreases n - k,
        {
            if self.state.term_to_resource[k].0 == term {
                let resource_id = self.state.term_to_resource[k].1;
                proof {
                    let s = self.state;
                    let c = choose|c: int|
                        0 <= c < s.term_to_resource@.len() && (#[trigger] s.term_to_resource@[c]).0
                            == term;
                    if c != k {
                        if c < k {
                            assert(s.term_to_resource@[c].0 != s.term_to_resource@[k as int].0);
                        } else {
                            assert(s.term_to_resource@[k as int].0 != s.term_to_resource@[c].0);
                        }
                    }
                    assert(s0.binding_of(term) == Some(resource_id));
                }
                match self.state.find_resource(resource_id) {
                    None => {
                        return Err(ResourceError::NotFound);
                    },
                    Some(i) => {
                        if self.state.resources[i].type_id != type_id {
                            return Err(ResourceError::TypeMismatch);
                        }
                        return Ok(resource_id);
                    },
                }
            }
            k = k + 1;
        }
        Err(ResourceError::NotFound)
    }

    /// Takes one more reference to a live resource.
    pub fn keep_resource(&mut self, resource_id: usize) -> (r: Result<(), ResourceError>)
        requires
            old(self).wf(),
        ensures
            final(self).wf(),
            r == keep_outcome(old(self).state, resource_id),
            r is Err ==> *final(self) == *old(self),
            r is Ok ==> {
                let i = old(self).state.resource_index(resource_id);
                let c = old(self).state.ref_count_of(resource_id);
                &&& final(self).state == (MockResourceManagerState {
                    resources: final(self).state.resources,
                    keep_resource_calls: final(self).state.keep_resource_calls,
                    ..old(self).state
                })
                &&& final(self).state.resources@ == old(self).state.resources@.update(
                    i,
                    with_count(old(self).state.resources@[i], c + 1),
                )
                &&& final(self).state.keep_resource_calls@ == old(
                    self,
                ).state.keep_resource_calls@.push(resource_id)
                &&& final(self).state.has_resource(resource_id)
                &&& final(self).state.ref_count_of(resource_id) == c + 1
            },
            r is Ok ==> keep_effect(old(self).state, final(self).state, resource_id),
    {
        if self.state.fail_keep_resource {
            return Err(ResourceError::BadArg);
        }
        match self.state.find_resource(resource_id) {
            None => Err(ResourceError::UnknownResource),
            Some(i) => {
                let c = self.state.resources[i].ref_count;
                if c == usize::MAX {
                    return Err(ResourceError::CapacityExceeded);
                }
                let ghost s0 = self.state;
                self.state.resources[i].ref_count = c + 1;
                self.state.keep_resource_calls.push(resource_id);
                proof {
                    let s1 = self.state;
                    assert(s1.resources@ =~= s0.resources@.update(
                        i as int,
                        with_count(s0.resources@[i as int], c + 1),
                    ));
                    lemma_count_change_wf(s0, s1, i as int);
                    s1.lemma_resource_index(resource_id, i as int);
                }
                Ok(())
            },
        }
    }
}

/// Changing one reference count to a positive value keeps the registry
/// well formed.
pub proof fn lemma_count_change_wf(s0: MockResourceManagerState, s1: MockResourceManagerState, i: int)
    requires
        s0.wf(),
        0 <= i < s0.resources@.len(),
        s1.resources@.len() == s0.resources@.len(),
        forall|j: int| 0 <= j < s0.resources@.len() && j != i ==> s1.resources@[j] == s0.resources@[j],
        s1.resources@[i].id == s0.resources@[i].id,
        s1.resources@[i].type_id == s0.resources@[i].type_id,
        s1.resources@[i].ref_count >= 1,
        s1 == (MockResourceManagerState {
            resources: s1.resources,
            keep_resource_calls: s1.keep_resource_calls,
            release_resource_calls: s1.release_resource_calls,
            ..s0
        }),
    ensures
        s1.wf(),
{
    assert forall|a: int| 0 <= a < s1.resources@.len() implies {
        &&& (#[trigger] s1.resources@[a]).id < s1.next_resource_id
        &&& s1.resources@[a].ref_count >= 1
        &&& s1.resources@[a].type_id < s1.resource_types@.len()
    } by {
        if a != i {
            assert(s1.resources@[a] == s0.resources@[a]);
        }
    }
    assert forall|a: int, b: int|
        0 <= a < b < s1.resources@.len() implies (#[trigger] s1.resources@[a]).id
        != (#[trigger] s1.resources@[b]).id by {
        assert(s0.resources@[a].id != s0.resources@[b].id);
        if a != i {
            assert(s1.resources@[a] == s0.resources@[a]);
        }
        if b != i {
            assert(s1.resources@[b] == s0.resources@[b]);
        }
    }
    assert forall|a: int| 0 <= a < s1.monitors@.len() implies s1.has_resource(
        (#[trigger] s1.monitors@[a]).1.resource_id,
    ) by {
        let rid = s0.monitors@[a].1.resource_id;
        assert(s0.has_resource(rid));
        let w = choose|w: int|
            0 <= w < s0.resources@.len() && (#[trigger] s0.resources@[w]).id == rid;
        assert(s1.resources@[w].id == s0.resources@[w].id);
    }
}


impl MockResourceManager {
    /// Drops one reference to a live resource. On the last one the resource
    /// is destroyed: every monitor on it is removed first (each removal is
    /// logged), its type's destructor runs once, and its storage is freed.
    pub fn release_resource(&mut self, resource_id: usize) -> (r: Result<(), ResourceError>)
        requires
            old(self).wf(),
        ensures
            final(self).wf(),
            r == release_outcome(old(self).state, resource_id),
            r is Err ==> *final(self) == *old(self),
            r is Ok ==> {
                let s0 = old(self).state;
                let s1 = final(self).state;
                let i = s0.resource_index(resource_id);
                let c = s0.ref_count_of(resource_id);
                &&& s1.release_resource_calls@ == s0.release_resource_calls@.push(resource_id)
                &&& c > 1 ==> {
                    &&& s1 == (MockResourceManagerState {
                        resources: s1.resources,
                        release_resource_calls: s1.release_resource_calls,
                        ..s0
                    })
                    &&& s1.resources@ == s0.resources@.update(i, with_count(s0.resources@[i], c - 1))
                    &&& s1.has_resource(resource_id)
                    &&& s1.ref_count_of(resource_id) == c - 1
                }
                &&& c == 1 ==> {
                    &&& s1 == (MockResourceManagerState {
                        resources: s1.resources,
                        monitors: s1.monitors,
                        demonitor_calls: s1.demonitor_calls,
                        destructor_calls: s1.destructor_calls,
                        release_resource_calls: s1.release_resource_calls,
                        ..s0
                    })
                    &&& s1.resources@ == s0.resources@.remove(i)
                    &&& s1.monitors@ == s0.monitors@.filter(left_by(MonitorKey::Resource(resource_id)))
                    &&& s1.demonitor_calls@ == s0.demonitor_calls@ + ids_of(
                        s0.monitors@.filter(taken_by(MonitorKey::Resource(resource_id))),
                    )
                    &&& s1.destructor_calls@ == if s0.has_destructor(resource_id) {
                        s0.destructor_calls@.push(resource_id)
                    } else {
                        s0.destructor_calls@
                    }
                    &&& !s1.has_resource(resource_id)
                    &&& s1.monitors_on(resource_id) == 0
                }
            },
            r is Ok ==> release_effect(old(self).state, final(self).state, resource_id),
    {
        if self.state.fail_release_resource {
            return Err(ResourceError::BadArg);
        }
        match self.state.find_resource(resource_id) {
            None => Err(ResourceError::UnknownResource),
            Some(i) => {
                let ghost s0 = self.state;
                proof {
                    assert(s0.resources@[i as int].ref_count >= 1);
                }
                self.state.release_resource_calls.push(resource_id);
                let c = self.state.resources[i].ref_count;
                if c > 1 {
                    self.state.resources[i].ref_count = c - 1;
                    proof {
                        let s1 = self.state;
                        assert(s1.resources@ =~= s0.resources@.update(
                            i as int,
                            with_count(s0.resources@[i as int], c - 1),
                        ));
                        lemma_count_change_wf(s0, s1, i as int);
                        s1.lemma_resource_index(resource_id, i as int);
                    }
                } else {
                    let t = self.state.resources[i].type_id;
                    let dtor = self.state.resource_types[t].has_destructor;
                    proof {
                        let s1 = self.state;
                        lemma_monitors_live(s0, s1);
                    }
                    self.state.destroy(i, dtor);
                    proof {
                        let x = s0.monitors@.filter(taken_by(MonitorKey::Resource(resource_id)));
                        assert(ids_of(x).len() == x.len());
                    }
                }
                Ok(())
            },
        }
    }

    /// Destroys a live resource regardless of its count, as the runtime's
    /// collector would: monitors first, then the destructor, then storage.
    pub fn simulate_destructor_call(&mut self, resource_id: usize)
        requires
            old(self).wf(),
        ensures
            final(self).wf(),
            !final(self).state.has_resource(resource_id),
            final(self).state.monitors_on(resource_id) == 0,
            !old(self).state.has_resource(resource_id) ==> *final(self) == *old(self),
            old(self).state.has_resource(resource_id) ==> {
                let s0 = old(self).state;
                let s1 = final(self).state;
                &&& s1 == (MockResourceManagerState {
                    resources: s1.resources,
                    monitors: s1.monitors,
                    demonitor_calls: s1.demonitor_calls,
                    destructor_calls: s1.destructor_calls,
                    ..s0
                })
                &&& s1.resources@ == s0.resources@.remove(s0.resource_index(resource_id))
                &&& s1.monitors@ == s0.monitors@.filter(left_by(MonitorKey::Resource(resource_id)))
                &&& s1.destructor_calls@ == s0.destructor_calls@.push(resource_id)
            },
    {
        match self.state.find_resource(resource_id) {
            None => {
                proof {
                    lemma_filter_none(
                        self.state.monitors@,
                        taken_by(MonitorKey::Resource(resource_id)),
                    );
                }
            },
            Some(i) => {
                self.state.destroy(i, true);
            },
        }
    }

    /// Registers interest of resource `resource_id` in an event.
    pub fn select(&mut self, event: i32, mode: u32, resource_id: usize) -> (r: Result<(), ResourceError>)
        requires
            old(self).wf(),
        ensures
            final(self).wf(),
            r == (if old(self).state.fail_select {
                Err(ResourceError::BadArg)
            } else if !old(self).state.has_resource(resource_id) {
                Err(ResourceError::UnknownResource)
            } else {
                Ok(())
            }),
            r is Err ==> *final(self) == *old(self),
            r is Ok ==> final(self).state == (MockResourceManagerState {
                select_calls: final(self).state.select_calls,
                ..old(self).state
            }) && final(self).state.select_calls@ == old(self).state.select_calls@.push(
                (event, mode, resource_id),
            ),
    {
        if self.state.fail_select {
            return Err(ResourceError::BadArg);
        }
        if self.state.find_resource(resource_id).is_none() {
            return Err(ResourceError::UnknownResource);
        }
        let ghost s0 = self.state;
        self.state.select_calls.push((event, mode, resource_id));
        proof {
            lemma_monitors_live(s0, self.state);
        }
        Ok(())
    }

    /// Registers a monitor of process `pid` on a live resource and returns
    /// its id.
    pub fn monitor_process(&mut self, resource_id: usize, pid: i32) -> (r: Result<usize, ResourceError>)
        requires
            old(self).wf(),
        ensures
            final(self).wf(),
            r == monitor_outcome(old(self).state, resource_id),
            r is Err ==> *final(self) == *old(self),
            r matches Ok(mid) ==> {
                let s0 = old(self).state;
                let s1 = final(self).state;
                &&& s1 == (MockResourceManagerState {
                    monitors: s1.monitors,
                    next_monitor_id: s1.next_monitor_id,
                    monitor_calls: s1.monitor_calls,
                    ..s0
                })
                &&& s1.next_monitor_id == mid + 1
                &&& s1.monitors@ == s0.monitors@.push(
                    (mid, MockMonitor { resource_id, pid, active: true }),
                )
                &&& s1.monitor_calls@ == s0.monitor_calls@.push((resource_id, pid))
                &&& s1.monitors_on(resource_id) == s0.monitors_on(resource_id) + 1
                &&& !s0.has_monitor(mid)
                &&& s1.has_monitor(mid)
            },
    {
        if self.state.fail_monitor {
            return Err(ResourceError::BadArg);
        }
        let found = self.state.find_resource(resource_id);
        if found.is_none() {
            return Err(ResourceError::UnknownResource);
        }
        if let Some(max) = self.state.max_monitors {
            if self.state.monitors.len() >= max {
                return Err(ResourceError::CapacityExceeded);
            }
        }
        if self.state.next_monitor_id == usize::MAX {
            return Err(ResourceError::CapacityExceeded);
        }
        let ghost s0 = self.state;
        let monitor_id = self.state.generate_monitor_id();
        let monitor = MockMonitor { resource_id, pid, active: true };
        self.state.monitor_calls.push((resource_id, pid));
        self.state.monitors.push((monitor_id, monitor));
        proof {
            let s1 = self.state;
            let n = s0.monitors@.len();
            let fi = found.unwrap() as int;
            assert(s1.resources@[fi] == s0.resources@[fi]);
            assert(s1.has_resource(resource_id));
            assert forall|a: int| 0 <= a < s1.monitors@.len() implies {
                &&& (#[trigger] s1.monitors@[a]).0 < s1.next_monitor_id
                &&& s1.has_resource(s1.monitors@[a].1.resource_id)
                &&& s1.monitors@[a].1.active
            } by {
                if a < n {
                    assert(s1.monitors@[a] == s0.monitors@[a]);
                    let rid = s0.monitors@[a].1.resource_id;
                    assert(s0.has_resource(rid));
                    let w = choose|w: int|
                        0 <= w < s0.resources@.len() && (#[trigger] s0.resources@[w]).id == rid;
                    assert(s1.resources@[w] == s0.resources@[w]);
                }
            }
            s0.monitors@.lemma_filter_push(
                (monitor_id, monitor),
                taken_by(MonitorKey::Resource(resource_id)),
            );
            assert(s1.monitors@[n as int].0 == monitor_id);
        }
        Ok(monitor_id)
    }

    /// Removes monitor `monitor_id`; the removal is logged.
    pub fn demonitor_process(&mut self, monitor_id: usize) -> (r: Result<(), ResourceError>)
        requires
            old(self).wf(),
        ensures
            final(self).wf(),
            r == demonitor_outcome(old(self).state, monitor_id),
            r is Err ==> *final(self) == *old(self),
            r is Ok ==> {
                let s0 = old(self).state;
                let s1 = final(self).state;
                &&& s1 == (MockResourceManagerState {
                    monitors: s1.monitors,
                    demonitor_calls: s1.demonitor_calls,
                    ..s0
                })
                &&& s1.monitors@ == s0.monitors@.filter(left_by(MonitorKey::Id(monitor_id)))
                &&& s1.demonitor_calls@ == s0.demonitor_calls@ + ids_of(
                    s0.monitors@.filter(taken_by(MonitorKey::Id(monitor_id))),
                )
                &&& !s1.has_monitor(monitor_id)
            },
    {
        if self.state.fail_demonitor {
            return Err(ResourceError::BadArg);
        }
        if self.state.find_monitor(monitor_id).is_none() {
            return Err(ResourceError::UnknownMonitor);
        }
        let ghost s0 = self.state;
        let removed = self.state.take_monitors(MonitorKey::Id(monitor_id));
        self.state.log_removed(&removed);
        proof {
            lemma_kept_monitors_wf(s0, self.state);
        }
        Ok(())
    }

    /// The owner `pid` went down: each of its monitors is removed (and the
    /// removal logged), and for each whose resource's type has a
    /// down-callback that callback is invoked. Returns how many were removed;
    /// zero matches is fine.
    pub fn notify_process_down(&mut self, pid: i32) -> (r: usize)
        requires
            old(self).wf(),
        ensures
            final(self).wf(),
            ({
                let s0 = old(self).state;
                let s1 = final(self).state;
                let gone = s0.monitors@.filter(taken_by(MonitorKey::Owner(pid)));
                &&& r == gone.len()
                &&& s1 == (MockResourceManagerState {
                    monitors: s1.monitors,
                    demonitor_calls: s1.demonitor_calls,
                    down_calls: s1.down_calls,
                    ..s0
                })
                &&& s1.monitors@ == s0.monitors@.filter(left_by(MonitorKey::Owner(pid)))
                &&& s1.demonitor_calls@ == s0.demonitor_calls@ + ids_of(gone)
                &&& s1.down_calls@ == s0.down_calls@ + s0.down_entries(gone)
            }),
    {
        let ghost s0 = self.state;
        let removed = self.state.take_monitors(MonitorKey::Owner(pid));
        let ghost s1 = self.state;
        proof {
            lemma_kept_monitors_wf(s0, s1);
        }
        let mut k: usize = 0;
        while k < removed.len()
            invariant
                s0.wf(),
                s1.wf(),
                self.state.wf(),
                k <= removed@.len(),
                s1.resources == s0.resources,
                s1.resource_types == s0.resource_types,
                forall|j: int| 0 <= j < removed@.len() ==> s0.monitors@.contains(#[trigger] removed@[j]),
                self.state == (MockResourceManagerState { down_calls: self.state.down_calls, ..s1 }),
                self.state.down_calls@ == s0.down_calls@ + s0.down_entries(
                    removed@.subrange(0, k as int),
                ),
            decreases removed@.len() - k,
        {
            let e = removed[k];
            let rid = e.1.resource_id;
            proof {
                assert(s0.monitors@.contains(removed@[k as int]));
                let j = choose|j: int| 0 <= j < s0.monitors@.len() && s0.monitors@[j] == e;
                assert(s0.has_resource(s0.monitors@[j].1.resource_id));
                assert(removed@.subrange(0, k + 1).drop_last() =~= removed@.subrange(0, k as int));
                assert(removed@.subrange(0, k + 1).last() == e);
                let w = choose|w: int|
                    0 <= w < s0.resources@.len() && (#[trigger] s0.resources@[w]).id == rid;
                assert(self.state.resources@[w] == s0.resources@[w]);
                assert(self.state.has_resource(rid));
            }
            let ghost before = self.state;
            match self.state.find_resource(rid) {
                Some(i) => {
                    let t = self.state.resources[i].type_id;
                    proof {
                        assert(s0.resource_index(rid) == i);
                    }
                    if self.state.resource_types[t].has_down_callback {
                        self.state.down_calls.push((rid, e.1.pid));
                    }
                    proof {
                        assert(self.state.down_calls@ =~= s0.down_calls@ + s0.down_entries(
                            removed@.subrange(0, k + 1),
                        ));
                    }
                },
                None => {},
            }
            proof {
                lemma_kept_monitors_wf(before, self.state);
            }
            k = k + 1;
        }
        proof {
            assert(removed@.subrange(0, removed@.len() as int) == removed@);
        }
        self.state.log_removed(&removed);
        proof {
            lemma_kept_monitors_wf(s0, self.state);
        }
        removed.len()
    }
}

/// Keeping a subset of the monitors, and nothing else changed but the logs,
/// keeps the registry well formed.
pub proof fn lemma_kept_monitors_wf(s0: MockResourceManagerState, s1: MockResourceManagerState)
    requires
        s0.wf(),
        s1.resources == s0.resources,
        s1.resource_types == s0.resource_types,
        s1.term_to_resource == s0.term_to_resource,
        s1.next_type_id == s0.next_type_id,
        s1.next_resource_id == s0.next_resource_id,
        s1.next_term_id == s0.next_term_id,
        s1.next_monitor_id == s0.next_monitor_id,
        forall|k: int| 0 <= k < s1.monitors@.len() ==> s0.monitors@.contains(#[trigger] s1.monitors@[k]),
    ensures
        s1.wf(),
{
    assert forall|a: int| 0 <= a < s1.monitors@.len() implies {
        &&& (#[trigger] s1.monitors@[a]).0 < s1.next_monitor_id
        &&& s1.has_resource(s1.monitors@[a].1.resource_id)
        &&& s1.monitors@[a].1.active
    } by {
        let e = s1.monitors@[a];
        assert(s0.monitors@.contains(e));
        let j = choose|j: int| 0 <= j < s0.monitors@.len() && s0.monitors@[j] == e;
        let rid = e.1.resource_id;
        assert(s0.has_resource(s0.monitors@[j].1.resource_id));
        let w = choose|w: int|
            0 <= w < s0.resources@.len() && (#[trigger] s0.resources@[w]).id == rid;
        assert(s1.resources@[w] == s0.resources@[w]);
    }
}


/// A successful `keep_resource(id)` from `s0` to `s1`: the resource stays
/// alive with one more reference, and no destructor runs.
pub open spec fn keep_effect(s0: MockResourceManagerState, s1: MockResourceManagerState, id: usize) -> bool {
    &&& s0.has_resource(id)
    &&& s1.has_resource(id)
    &&& s1.ref_count_of(id) == s0.ref_count_of(id) + 1
    &&& s1.destructor_calls == s0.destructor_calls
}

/// A successful `release_resource(id)` from `s0` to `s1`: with more than
/// one reference the resource stays alive with one less and no destructor
/// runs; with one, the resource is destroyed, its destructor (if its type
/// has one) runs once, and its monitors are removed with one logged removal
/// each.
pub open spec fn release_effect(s0: MockResourceManagerState, s1: MockResourceManagerState, id: usize) -> bool {
    &&& s0.has_resource(id)
    &&& s0.ref_count_of(id) >= 1
    &&& if s0.ref_count_of(id) > 1 {
        &&& s1.has_resource(id)
        &&& s1.ref_count_of(id) == s0.ref_count_of(id) - 1
        &&& s1.destructor_calls == s0.destructor_calls
    } else {
        &&& !s1.has_resource(id)
        &&& s1.destructor_calls@ == if s0.has_destructor(id) {
            s0.destructor_calls@.push(id)
        } else {
            s0.destructor_calls@
        }
        &&& s1.monitors_on(id) == 0
        &&& s1.demonitor_calls@.len() == s0.demonitor_calls@.len() + s0.monitors_on(id)
    }
}

/// Number of keeps in a run of keeps (`true`) and releases (`false`).
pub open spec fn keeps_in(ops: Seq<bool>) -> int
    decreases ops.len(),
{
    if ops.len() == 0 {
        0
    } else {
        keeps_in(ops.drop_last()) + if ops.last() {
            1int
        } else {
            0int
        }
    }
}

/// Number of releases in a run of keeps (`true`) and releases (`false`).
pub open spec fn releases_in(ops: Seq<bool>) -> int
    decreases ops.len(),
{
    if ops.len() == 0 {
        0
    } else {
        releases_in(ops.drop_last()) + if ops.last() {
            0int
        } else {
            1int
        }
    }
}

/// Reference counting. Along any run of successful keeps and releases of
/// one resource, while the resource lives its count is the starting count
/// plus the keeps minus the releases, and no destructor runs; once it is
/// gone, keeps minus releases took the count to exactly zero, this happened
/// on the last release, and the destructor ran exactly once.
pub proof fn lemma_reference_counting(
    states: Seq<MockResourceManagerState>,
    ops: Seq<bool>,
    id: usize,
)
    requires
        states.len() == ops.len() + 1,
        forall|i: int|
            0 <= i < ops.len() ==> if #[trigger] ops[i] {
                keep_effect(states[i], states[i + 1], id)
            } else {
                release_effect(states[i], states[i + 1], id)
            },
    ensures
        ({
            let n = ops.len() as int;
            let count = states[0].ref_count_of(id) + keeps_in(ops) - releases_in(ops);
            &&& states[n].has_resource(id) ==> {
                &&& states[n].ref_count_of(id) == count
                &&& states[n].destructor_calls == states[0].destructor_calls
            }
            &&& !states[n].has_resource(id) && n > 0 ==> {
                &&& count == 0
                &&& !ops[n - 1]
                &&& states[n].destructor_calls@ == if states[n - 1].has_destructor(id) {
                    states[0].destructor_calls@.push(id)
                } else {
                    states[0].destructor_calls@
                }
            }
        }),
    decreases ops.len(),
{
    let n = ops.len() as int;
    if n > 0 {
        let ps = states.drop_last();
        let po = ops.drop_last();
        assert forall|i: int| 0 <= i < po.len() implies if #[trigger] po[i] {
            keep_effect(ps[i], ps[i + 1], id)
        } else {
            release_effect(ps[i], ps[i + 1], id)
        } by {
            assert(po[i] == ops[i]);
        }
        lemma_reference_counting(ps, po, id);
        assert(ps[n - 1] == states[n - 1]);
        assert(ps[0] == states[0]);
        if ops[n - 1] {
            assert(keep_effect(states[n - 1], states[n], id));
        } else {
            assert(release_effect(states[n - 1], states[n], id));
        }
        assert(states[n - 1].has_resource(id));
        assert(states[n - 1].destructor_calls == states[0].destructor_calls);
        assert(keeps_in(ops) == keeps_in(po) + if ops[n - 1] {
            1int
        } else {
            0int
        });
        assert(releases_in(ops) == releases_in(po) + if ops[n - 1] {
            0int
        } else {
            1int
        });
    }
}

/// Releasing is idempotent at destruction: once a release destroyed a
/// resource, releasing its handle again fails with `UnknownResource` (unless
/// a failure is injected), and no later allocation reuses the handle.
pub proof fn lemma_released_handle_unknown(
    s0: MockResourceManagerState,
    s1: MockResourceManagerState,
    id: usize,
)
    requires
        s0.wf(),
        release_effect(s0, s1, id),
        s0.ref_count_of(id) == 1,
        !s1.fail_release_resource,
    ensures
        release_outcome(s1, id) == Err::<(), ResourceError>(ResourceError::UnknownResource),
        id < s0.next_resource_id,
        forall|t: usize, size: u32|
            #[trigger] alloc_outcome(s0, t, size) matches Ok(fresh) ==> fresh != id,
{
    let i = s0.resource_index(id);
    assert(s0.resources@[i].id < s0.next_resource_id);
}

/// Monitor clean-up: destroying a resource watched by N monitors leaves no
/// monitor on it and logs N removals.
pub proof fn lemma_monitor_cleanup(
    s0: MockResourceManagerState,
    s1: MockResourceManagerState,
    id: usize,
)
    requires
        release_effect(s0, s1, id),
        s0.ref_count_of(id) == 1,
    ensures
        s1.monitors_on(id) == 0,
        s1.demonitor_calls@.len() - s0.demonitor_calls@.len() == s0.monitors_on(id),
{
}

} // verus!
