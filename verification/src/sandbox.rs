//! The sandbox policy applied to guest modules: a cap on linear memory, an
//! instruction budget ("fuel"), and capability flags that are all off by
//! default.

use vstd::prelude::*;

verus! {

/// Default cap on guest linear memory, in 64 KiB pages (256 MiB).
pub const MAX_MEMORY_PAGES: u32 = 4096;

/// Default instruction budget of a store before the guest is halted.
pub const FUEL_LIMIT: u64 = 500000000;

/// Fuel granted to each guest callback run from the frame loop.
pub const FRAME_FUEL_LIMIT: u64 = 50000000;

/// Bytes in one WebAssembly memory page.
pub const WASM_PAGE_BYTES: u64 = 65536;

/// What resources a guest may use and the hard limits applied at runtime.
#[derive(Clone, Debug)]
pub struct SandboxPolicy {
    /// Maximum number of 64 KiB memory pages the guest may grow to.
    pub max_memory_pages: u32,
    /// Instruction budget of a single store.
    pub fuel_limit: u64,
    /// Whether the embedding may expose file-system APIs.
    pub allow_filesystem: bool,
    /// Whether the embedding may expose environment variables.
    pub allow_env_vars: bool,
    /// Whether the embedding may expose network sockets.
    pub allow_network_sockets: bool,
}

impl Default for SandboxPolicy {
    /// 4096 memory pages (256 MiB), about 500M instructions of fuel, and
    /// every capability denied.
    fn default() -> (r: Self)
        ensures
            r.max_memory_pages == MAX_MEMORY_PAGES,
            r.fuel_limit == FUEL_LIMIT,
            !r.allow_filesystem,
            !r.allow_env_vars,
            !r.allow_network_sockets,
    {
        SandboxPolicy {
            max_memory_pages: MAX_MEMORY_PAGES,
            fuel_limit: FUEL_LIMIT,
            allow_filesystem: false,
            allow_env_vars: false,
            allow_network_sockets: false,
        }
    }
}

impl SandboxPolicy {
    /// The most linear memory, in bytes, the policy lets a guest use.
    pub fn max_memory_bytes(&self) -> (r: u64)
        ensures
            r == self.max_memory_pages * WASM_PAGE_BYTES,
    {
        assert(self.max_memory_pages * WASM_PAGE_BYTES <= u64::MAX) by (nonlinear_arith)
            requires
                self.max_memory_pages <= u32::MAX,
        ;
        self.max_memory_pages as u64 * WASM_PAGE_BYTES
    }
}

/// The default policy caps guest memory at 256 MiB and denies every
/// capability.
pub proof fn law_default_policy_denies(p: SandboxPolicy)
    requires
        p.max_memory_pages == MAX_MEMORY_PAGES,
        !p.allow_filesystem,
        !p.allow_env_vars,
        !p.allow_network_sockets,
    ensures
        p.max_memory_pages * WASM_PAGE_BYTES == 256 * 1024 * 1024,
{
}

} // verus!
