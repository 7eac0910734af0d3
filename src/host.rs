//! The host that runs the virtual machine, its errors, and the dispatcher
//! of messages to actors.

use vstd::prelude::*;
use vstd::string::*;

verus! {

/// Errors of the host.
#[derive(Debug, Clone, PartialEq, Eq)]
pub enum HostError {
    NotInitialized,
    AlreadyInitialized,
    ModuleNotFound,
    InvalidBytecode(String),
    NifError(String),
    IoError(String),
    Internal(String),
}

/// The message of each error.
pub open spec fn message_of(e: HostError) -> &'static str {
    match e {
        HostError::NotInitialized => "Host not initialized",
        HostError::AlreadyInitialized => "Host already initialized",
        HostError::ModuleNotFound => "Module not found",
        HostError::InvalidBytecode(_) => "Invalid bytecode",
        HostError::NifError(_) => "NIF error",
        HostError::IoError(_) => "IO error",
        HostError::Internal(_) => "Internal error",
    }
}

impl HostError {
    pub fn message(&self) -> (r: &'static str)
        ensures
            r == message_of(*self),
    {
        match self {
            HostError::NotInitialized => "Host not initialized",
            HostError::AlreadyInitialized => "Host already initialized",
            HostError::ModuleNotFound => "Module not found",
            HostError::InvalidBytecode(_) => "Invalid bytecode",
            HostError::NifError(_) => "NIF error",
            HostError::IoError(_) => "IO error",
            HostError::Internal(_) => "Internal error",
        }
    }
}

/// Configuration of the virtual machine.
#[derive(Debug)]
pub struct VmConfig {
    pub bytecode_path: String,
    pub heap_size: u32,
    pub num_schedulers: u32,
}

/// Heap size of the default configuration, in bytes.
pub const DEFAULT_HEAP_SIZE: u32 = 1024 * 1024;

impl VmConfig {
    /// One scheduler and a 1 MiB heap.
    pub fn default_with_bytecode(path: &str) -> (r: VmConfig)
        ensures
            r.bytecode_path@ == path@,
            r.heap_size == DEFAULT_HEAP_SIZE,
            r.num_schedulers == 1,
    {
        VmConfig { bytecode_path: String::from_str(path), heap_size: DEFAULT_HEAP_SIZE, num_schedulers: 1 }
    }
}

/// The host: initialized at most once at a time, loading modules only when
/// initialized.
pub struct Host {
    pub config: VmConfig,
    pub initialized: bool,
    pub modules: Vec<String>,
}

impl Host {
    pub fn new(config: VmConfig) -> (r: Host)
        ensures
            r.config == config,
            !r.initialized,
            r.modules@.len() == 0,
    {
        Host { config, initialized: false, modules: Vec::new() }
    }

    pub fn initialize(&mut self) -> (r: Result<(), HostError>)
        ensures
            old(self).initialized ==> r == Err::<(), HostError>(HostError::AlreadyInitialized)
                && *final(self) == *old(self),
            !old(self).initialized ==> r is Ok && final(self).initialized && final(self).modules
                == old(self).modules && final(self).config == old(self).config,
    {
        if self.initialized {
            return Err(HostError::AlreadyInitialized);
        }
        self.initialized = true;
        Ok(())
    }

    /// Records the module at `path` as loaded.
    pub fn load_module(&mut self, path: &str) -> (r: Result<(), HostError>)
        ensures
            !old(self).initialized ==> r == Err::<(), HostError>(HostError::NotInitialized)
                && *final(self) == *old(self),
            old(self).initialized ==> r is Ok && final(self).initialized && final(self).modules@.len() == old(self).modules@.len() + 1 && final(self).modules@.drop_last()
                == old(self).modules@ && final(self).modules@.last()@ == path@ && final(self).config
                == old(self).config,
    {
        if !self.initialized {
            return Err(HostError::NotInitialized);
        }
        let ghost before = self.modules@;
        self.modules.push(String::from_str(path));
        proof {
            assert(self.modules@.drop_last() =~= before);
        }
        Ok(())
    }

    pub fn config(&self) -> (r: &VmConfig)
        ensures
            *r == self.config,
    {
        &self.config
    }

    pub fn is_initialized(&self) -> (r: bool)
        ensures
            r == self.initialized,
    {
        self.initialized
    }

    pub fn modules(&self) -> (r: &[String])
        ensures
            r@ == self.modules@,
    {
        self.modules.as_slice()
    }

    /// Unloads every module; only an initialized host shuts down.
    pub fn shutdown(&mut self) -> (r: Result<(), HostError>)
        ensures
            !old(self).initialized ==> r == Err::<(), HostError>(HostError::NotInitialized)
                && *final(self) == *old(self),
            old(self).initialized ==> r is Ok && !final(self).initialized && final(self).modules@.len() == 0 && final(self).config == old(self).config,
    {
        if !self.initialized {
            return Err(HostError::NotInitialized);
        }
        self.initialized = false;
        self.modules.clear();
        Ok(())
    }
}

/// Hands out actor ids and routes messages to actors.
pub struct NifDispatcher {
    pub next_actor_id: u32,
}

impl NifDispatcher {
    pub fn new() -> (r: NifDispatcher)
        ensures
            r.next_actor_id == 1,
    {
        NifDispatcher { next_actor_id: 1 }
    }

    /// Ids are handed out in order from 1.
    pub fn allocate_actor_id(&mut self) -> (r: u32)
        requires
            old(self).next_actor_id < u32::MAX,
        ensures
            r == old(self).next_actor_id,
            final(self).next_actor_id == r + 1,
    {
        let id = self.next_actor_id;
        self.next_actor_id = id + 1;
        id
    }

    /// Routes a message to an actor; no actor replies with data.
    pub fn dispatch(&self, actor_id: u32, message_data: &[u8]) -> (r: Result<Vec<u8>, HostError>)
        ensures
            r matches Ok(v) && v@.len() == 0,
    {
        Ok(Vec::new())
    }
}

impl Default for NifDispatcher {
    fn default() -> (r: NifDispatcher)
        ensures
            r.next_actor_id == 1,
    {
        NifDispatcher::new()
    }
}

} // verus!
