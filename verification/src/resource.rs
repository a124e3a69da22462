//! Resource accounting.
//!
//! Memory, network and disk are counted here. CPU shares are fractions, which
//! the caller compares; it says whether a request's share fits.
use crate::protocol::{ActrError, ActrErrorView};
use vstd::prelude::*;
use vstd::string::*;

verus! {

/// Resource quota.
#[derive(Debug, Clone, Copy, PartialEq, Eq, Structural)]
pub struct ResourceQuota {
    /// Memory quota (bytes).
    pub memory_bytes: u64,
    /// Network bandwidth quota (bytes/sec).
    pub network_bandwidth_bps: u64,
    /// Disk IO quota (bytes/sec).
    pub disk_io_bps: u64,
}

impl Default for ResourceQuota {
    fn default() -> (r: ResourceQuota)
        ensures
            r.memory_bytes == 1024 * 1024 * 1024,
            r.network_bandwidth_bps == 100 * 1024 * 1024,
            r.disk_io_bps == 100 * 1024 * 1024,
    {
        ResourceQuota {
            memory_bytes: 1024 * 1024 * 1024,
            network_bandwidth_bps: 100 * 1024 * 1024,
            disk_io_bps: 100 * 1024 * 1024,
        }
    }
}

/// Resource usage.
#[derive(Debug, Clone, Copy, PartialEq, Eq, Structural)]
pub struct ResourceUsage {
    /// Memory used (bytes).
    pub memory_used_bytes: u64,
    /// Network bandwidth used (bytes/sec).
    pub network_usage_bps: u64,
    /// Disk IO used (bytes/sec).
    pub disk_io_bps: u64,
}

impl Default for ResourceUsage {
    fn default() -> (r: ResourceUsage)
        ensures
            r == (ResourceUsage { memory_used_bytes: 0, network_usage_bps: 0, disk_io_bps: 0 }),
    {
        ResourceUsage { memory_used_bytes: 0, network_usage_bps: 0, disk_io_bps: 0 }
    }
}

/// Resource configuration.
#[derive(Debug, Clone, Copy, PartialEq, Eq, Structural)]
pub struct ResourceConfig {
    /// Whether to enforce resource limits.
    pub enable_limits: bool,
    /// Resource monitoring interval (seconds).
    pub monitoring_interval_seconds: u64,
}

impl Default for ResourceConfig {
    fn default() -> (r: ResourceConfig)
        ensures
            r.enable_limits,
            r.monitoring_interval_seconds == 5,
    {
        ResourceConfig { enable_limits: true, monitoring_interval_seconds: 5 }
    }
}

/// Resource manager.
#[derive(Debug)]
pub struct ResourceManager {
    config: ResourceConfig,
    quota: ResourceQuota,
    current_usage: ResourceUsage,
}

/// One amount taken away from another, stopping at zero.
pub open spec fn less(a: u64, b: u64) -> u64 {
    if a >= b {
        (a - b) as u64
    } else {
        0
    }
}

impl ResourceUsage {
    /// Two usages together.
    pub open spec fn plus(self, other: ResourceUsage) -> ResourceUsage {
        ResourceUsage {
            memory_used_bytes: (self.memory_used_bytes + other.memory_used_bytes) as u64,
            network_usage_bps: (self.network_usage_bps + other.network_usage_bps) as u64,
            disk_io_bps: (self.disk_io_bps + other.disk_io_bps) as u64,
        }
    }

    /// Whether two usages together can still be counted.
    pub open spec fn countable(self, other: ResourceUsage) -> bool {
        &&& self.memory_used_bytes + other.memory_used_bytes <= u64::MAX
        &&& self.network_usage_bps + other.network_usage_bps <= u64::MAX
        &&& self.disk_io_bps + other.disk_io_bps <= u64::MAX
    }

    /// One usage without another, stopping at zero.
    pub open spec fn minus(self, other: ResourceUsage) -> ResourceUsage {
        ResourceUsage {
            memory_used_bytes: less(self.memory_used_bytes, other.memory_used_bytes),
            network_usage_bps: less(self.network_usage_bps, other.network_usage_bps),
            disk_io_bps: less(self.disk_io_bps, other.disk_io_bps),
        }
    }
}

impl ResourceManager {
    /// While limits are enforced, the memory in use is within the quota.
    #[verifier::type_invariant]
    spec fn within_quota(self) -> bool {
        self.config.enable_limits ==> self.current_usage.memory_used_bytes
            <= self.quota.memory_bytes
    }

    /// The configuration.
    pub closed spec fn config(self) -> ResourceConfig {
        self.config
    }

    /// The quota.
    pub closed spec fn quota(self) -> ResourceQuota {
        self.quota
    }

    /// What is in use.
    pub closed spec fn usage(self) -> ResourceUsage {
        self.current_usage
    }

    /// Whether a request fits.
    pub open spec fn fits(self, required: ResourceUsage, cpu_fits: bool) -> bool {
        !self.config().enable_limits || (cpu_fits && self.usage().memory_used_bytes
            + required.memory_used_bytes <= self.quota().memory_bytes)
    }

    /// Create a new resource manager with nothing in use.
    pub fn new(config: ResourceConfig, quota: ResourceQuota) -> (r: ResourceManager)
        ensures
            r.config() == config,
            r.quota() == quota,
            r.usage() == (ResourceUsage {
                memory_used_bytes: 0,
                network_usage_bps: 0,
                disk_io_bps: 0,
            }),
    {
        ResourceManager { config, quota, current_usage: ResourceUsage::default() }
    }

    /// Check whether the required resources are available. `cpu_fits` says
    /// whether the request's CPU share does.
    pub fn check_resource_availability(&self, required: &ResourceUsage, cpu_fits: bool) -> (r:
        Result<bool, ActrError>)
        ensures
            r == Ok::<bool, ActrError>(self.fits(*required, cpu_fits)),
    {
        proof {
            use_type_invariant(self);
        }
        if !self.config.enable_limits {
            return Ok(true);
        }
        if !cpu_fits {
            return Ok(false);
        }
        let memory_available: u64 = self.quota.memory_bytes - self.current_usage.memory_used_bytes;
        Ok(required.memory_used_bytes <= memory_available)
    }

    /// Allocate resources, or refuse and leave everything as it is.
    pub fn allocate_resources(&mut self, usage: &ResourceUsage, cpu_fits: bool) -> (r: Result<
        (),
        ActrError,
    >)
        requires
            old(self).fits(*usage, cpu_fits) ==> old(self).usage().countable(*usage),
        ensures
            final(self).config() == old(self).config(),
            final(self).quota() == old(self).quota(),
            if old(self).fits(*usage, cpu_fits) {
                r is Ok && final(self).usage() == old(self).usage().plus(*usage)
            } else {
                &&& r matches Err(e) && e@ == ActrErrorView::Unavailable(
                    "Insufficient resources available"@,
                )
                &&& final(self).usage() == old(self).usage()
            },
    {
        proof {
            use_type_invariant(&*self);
        }
        let available: bool = match self.check_resource_availability(usage, cpu_fits) {
            Ok(available) => available,
            Err(e) => return Err(e),
        };
        if !available {
            return Err(ActrError::Unavailable("Insufficient resources available".to_owned()));
        }
        self.current_usage = ResourceUsage {
            memory_used_bytes: self.current_usage.memory_used_bytes + usage.memory_used_bytes,
            network_usage_bps: self.current_usage.network_usage_bps + usage.network_usage_bps,
            disk_io_bps: self.current_usage.disk_io_bps + usage.disk_io_bps,
        };
        Ok(())
    }

    /// Release resources. Releasing more than is in use leaves nothing in use.
    pub fn release_resources(&mut self, usage: &ResourceUsage) -> (r: Result<(), ActrError>)
        ensures
            r is Ok,
            final(self).config() == old(self).config(),
            final(self).quota() == old(self).quota(),
            final(self).usage() == old(self).usage().minus(*usage),
    {
        proof {
            use_type_invariant(&*self);
        }
        self.current_usage = ResourceUsage {
            memory_used_bytes: self.current_usage.memory_used_bytes.saturating_sub(
                usage.memory_used_bytes,
            ),
            network_usage_bps: self.current_usage.network_usage_bps.saturating_sub(
                usage.network_usage_bps,
            ),
            disk_io_bps: self.current_usage.disk_io_bps.saturating_sub(usage.disk_io_bps),
        };
        Ok(())
    }

    /// Get current resource usage. While limits are enforced, its memory is within
    /// the quota.
    pub fn get_usage(&self) -> (r: &ResourceUsage)
        ensures
            *r == self.usage(),
            self.config().enable_limits ==> r.memory_used_bytes <= self.quota().memory_bytes,
    {
        proof {
            use_type_invariant(self);
        }
        &self.current_usage
    }

    /// Get the resource quota.
    pub fn get_quota(&self) -> (r: &ResourceQuota)
        ensures
            *r == self.quota(),
    {
        &self.quota
    }
}

/// Releasing what was allocated leaves what was in use before.
pub proof fn release_undoes_allocation(before: ResourceUsage, usage: ResourceUsage)
    requires
        before.countable(usage),
    ensures
        before.plus(usage).minus(usage) == before,
{
}

/// While limits are enforced, allocations never exceed the memory quota.
pub proof fn memory_stays_within_quota(manager: ResourceManager, usage: ResourceUsage)
    requires
        manager.config().enable_limits,
        manager.fits(usage, true),
        manager.usage().countable(usage),
    ensures
        manager.usage().plus(usage).memory_used_bytes <= manager.quota().memory_bytes,
{
}

/// A request fits exactly when limits are off, or its CPU share fits and its memory on top
/// of what is in use is within the quota; network and disk decide nothing.
pub proof fn requests_fit_by_cpu_and_memory(
    manager: ResourceManager,
    required: ResourceUsage,
    other: ResourceUsage,
    cpu_fits: bool,
)
    ensures
        !manager.config().enable_limits ==> manager.fits(required, cpu_fits),
        manager.config().enable_limits && !cpu_fits ==> !manager.fits(required, cpu_fits),
        manager.config().enable_limits && cpu_fits ==> (manager.fits(required, cpu_fits)
            <==> manager.usage().memory_used_bytes + required.memory_used_bytes
            <= manager.quota().memory_bytes),
        required.memory_used_bytes == other.memory_used_bytes ==> manager.fits(required, cpu_fits)
            == manager.fits(other, cpu_fits),
{
}

/// Usages add up resource by resource, and taking away never leaves more than there was
/// nor less than nothing.
pub proof fn usages_are_counted_apart(a: ResourceUsage, b: ResourceUsage)
    requires
        a.countable(b),
    ensures
        a.plus(b).memory_used_bytes == a.memory_used_bytes + b.memory_used_bytes,
        a.plus(b).network_usage_bps == a.network_usage_bps + b.network_usage_bps,
        a.plus(b).disk_io_bps == a.disk_io_bps + b.disk_io_bps,
        a.plus(b) == b.plus(a),
        a.minus(b).memory_used_bytes <= a.memory_used_bytes,
        a.minus(b).network_usage_bps <= a.network_usage_bps,
        a.minus(b).disk_io_bps <= a.disk_io_bps,
        b.memory_used_bytes >= a.memory_used_bytes ==> a.minus(b).memory_used_bytes == 0,
        b.network_usage_bps >= a.network_usage_bps ==> a.minus(b).network_usage_bps == 0,
        b.disk_io_bps >= a.disk_io_bps ==> a.minus(b).disk_io_bps == 0,
        b.memory_used_bytes <= a.memory_used_bytes ==> a.minus(b).memory_used_bytes
            + b.memory_used_bytes == a.memory_used_bytes,
        b.network_usage_bps <= a.network_usage_bps ==> a.minus(b).network_usage_bps
            + b.network_usage_bps == a.network_usage_bps,
        b.disk_io_bps <= a.disk_io_bps ==> a.minus(b).disk_io_bps + b.disk_io_bps == a.disk_io_bps,
{
}

} // verus!
