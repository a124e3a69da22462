//! Resource accounting.

use actr_hyper::protocol::ActrError;
use actr_hyper::resource::{ResourceConfig, ResourceManager, ResourceQuota, ResourceUsage};

fn quota(mem: u64) -> ResourceQuota {
    ResourceQuota {
        memory_bytes: mem,
        network_bandwidth_bps: 100,
        disk_io_bps: 100,
    }
}

#[test]
fn quota_default_values() {
    let q = ResourceQuota::default();
    assert_eq!(q.memory_bytes, 1024 * 1024 * 1024);
    assert_eq!(q.network_bandwidth_bps, 100 * 1024 * 1024);
    assert_eq!(q.disk_io_bps, 100 * 1024 * 1024);
}

#[test]
fn config_default_values() {
    let c = ResourceConfig::default();
    assert!(c.enable_limits);
    assert_eq!(c.monitoring_interval_seconds, 5);
}

#[test]
fn resource_usage_default_is_zero() {
    let u = ResourceUsage::default();
    assert_eq!(u.memory_used_bytes, 0);
    assert_eq!(u.network_usage_bps, 0);
    assert_eq!(u.disk_io_bps, 0);
}

#[test]
fn disabled_limits_always_available() {
    let mut cfg = ResourceConfig::default();
    cfg.enable_limits = false;
    let rm = ResourceManager::new(cfg, ResourceQuota::default());
    // Even an absurd request is "available" when limits are off.
    let huge = ResourceUsage {
        memory_used_bytes: u64::MAX,
        network_usage_bps: 0,
        disk_io_bps: 0,
    };
    assert!(rm.check_resource_availability(&huge, false).unwrap());
}

#[test]
fn availability_ok_within_quota() {
    let rm = ResourceManager::new(ResourceConfig::default(), quota(1024));
    let req = ResourceUsage {
        memory_used_bytes: 512,
        network_usage_bps: 0,
        disk_io_bps: 0,
    };
    assert!(rm.check_resource_availability(&req, true).unwrap());
}

#[test]
fn availability_rejected_on_memory_exhaustion() {
    let rm = ResourceManager::new(ResourceConfig::default(), quota(1000));
    let req = ResourceUsage {
        memory_used_bytes: 1500, // > 1000 available
        network_usage_bps: 0,
        disk_io_bps: 0,
    };
    assert!(!rm.check_resource_availability(&req, true).unwrap());
}

#[test]
fn a_cpu_share_that_does_not_fit_is_rejected() {
    let rm = ResourceManager::new(ResourceConfig::default(), quota(1024));
    assert!(rm.check_resource_availability(&ResourceUsage::default(), true).unwrap());
    assert!(!rm.check_resource_availability(&ResourceUsage::default(), false).unwrap());
}

#[test]
fn allocate_updates_usage_and_getters() {
    let mut rm = ResourceManager::new(ResourceConfig::default(), quota(1024));
    let req = ResourceUsage {
        memory_used_bytes: 300,
        network_usage_bps: 10,
        disk_io_bps: 20,
    };
    rm.allocate_resources(&req, true).unwrap();

    let usage = rm.get_usage();
    assert_eq!(usage.memory_used_bytes, 300);
    assert_eq!(usage.network_usage_bps, 10);
    assert_eq!(usage.disk_io_bps, 20);

    let q = rm.get_quota();
    assert_eq!(q.memory_bytes, 1024);
}

#[test]
fn the_whole_quota_can_be_taken_and_given_back() {
    let mut rm = ResourceManager::new(ResourceConfig::default(), quota(1024));
    let some = ResourceUsage {
        memory_used_bytes: 300,
        network_usage_bps: 10,
        disk_io_bps: 20,
    };
    let rest = ResourceUsage {
        memory_used_bytes: 724,
        network_usage_bps: 0,
        disk_io_bps: 0,
    };
    rm.allocate_resources(&some, true).unwrap();
    rm.allocate_resources(&rest, true).unwrap();
    assert_eq!(rm.get_usage().memory_used_bytes, 1024);
    rm.release_resources(&rest).unwrap();
    assert_eq!(*rm.get_usage(), some);
}

#[test]
fn allocate_rejects_when_insufficient() {
    let mut rm = ResourceManager::new(ResourceConfig::default(), quota(100));
    let req = ResourceUsage {
        memory_used_bytes: 200, // exceeds 100
        network_usage_bps: 0,
        disk_io_bps: 0,
    };
    let err = rm.allocate_resources(&req, true).unwrap_err();
    assert!(matches!(err, ActrError::Unavailable(_)));
    // Usage must remain unchanged on rejection.
    assert_eq!(rm.get_usage().memory_used_bytes, 0);
}

#[test]
fn release_saturates_and_does_not_underflow() {
    let mut rm = ResourceManager::new(ResourceConfig::default(), quota(1024));
    rm.allocate_resources(
        &ResourceUsage {
            memory_used_bytes: 50,
            network_usage_bps: 5,
            disk_io_bps: 5,
        },
        true,
    )
    .unwrap();
    rm.release_resources(&ResourceUsage {
        memory_used_bytes: 9999,
        network_usage_bps: 9999,
        disk_io_bps: 9999,
    })
    .unwrap();
    let u = rm.get_usage();
    assert_eq!(u.memory_used_bytes, 0);
    assert_eq!(u.network_usage_bps, 0);
    assert_eq!(u.disk_io_bps, 0);
}
