//! Performance counters for resolver operations.
use std::sync::atomic::{AtomicU64, Ordering};
use std::time::Duration;

use vstd::prelude::*;

verus! {

/// What `Duration::as_nanos` gives for a duration: its whole nanoseconds.
pub uninterp spec fn spec_duration_nanos(duration: Duration) -> u128;

/// `Duration::as_nanos`: the whole nanoseconds of the duration, a function of the duration
/// alone.
#[verifier::external_body]
fn duration_as_nanos(duration: &Duration) -> (r: u128)
    ensures
        r == spec_duration_nanos(*duration),
{
    duration.as_nanos()
}

/// The nanoseconds of `duration`, truncated to 64 bits (their low 64 bits).
fn truncated_nanos(duration: &Duration) -> (r: u64)
    ensures
        r == spec_duration_nanos(*duration) as u64,
{
    duration_as_nanos(duration) as u64
}

/// Counters for tracking resolver operations. Every counter wraps around on overflow.
pub struct PerfCounters {
    /// Number of cache hits for path metadata
    pub cache_hits: AtomicU64,
    /// Number of cache misses for path metadata
    pub cache_misses: AtomicU64,
    /// Number of filesystem operations
    pub fs_operations: AtomicU64,
    /// Time spent in filesystem operations
    pub fs_time_nanos: AtomicU64,
    /// Number of path normalizations
    pub path_normalizations: AtomicU64,
    /// Number of package.json reads
    pub package_json_reads: AtomicU64,
    /// Number of tsconfig reads
    pub tsconfig_reads: AtomicU64,
    /// Total resolution count
    pub resolutions: AtomicU64,
    /// Time spent in hot paths (resolution)
    pub resolution_time_nanos: AtomicU64,
    /// Memory allocations for paths (inline vs heap)
    pub inline_path_allocations: AtomicU64,
    pub heap_path_allocations: AtomicU64,
}

impl Default for PerfCounters {
    fn default() -> Self {
        Self {
            cache_hits: AtomicU64::new(0),
            cache_misses: AtomicU64::new(0),
            fs_operations: AtomicU64::new(0),
            fs_time_nanos: AtomicU64::new(0),
            path_normalizations: AtomicU64::new(0),
            package_json_reads: AtomicU64::new(0),
            tsconfig_reads: AtomicU64::new(0),
            resolutions: AtomicU64::new(0),
            resolution_time_nanos: AtomicU64::new(0),
            inline_path_allocations: AtomicU64::new(0),
            heap_path_allocations: AtomicU64::new(0),
        }
    }
}

impl PerfCounters {
    pub fn cache_hit(&self) {
        self.cache_hits.fetch_add(1, Ordering::Relaxed);
    }

    pub fn cache_miss(&self) {
        self.cache_misses.fetch_add(1, Ordering::Relaxed);
    }

    /// Counts one filesystem operation and adds its duration in nanoseconds (truncated to 64
    /// bits).
    pub fn fs_operation(&self, duration: Duration) {
        self.fs_operations.fetch_add(1, Ordering::Relaxed);
        let nanos = truncated_nanos(&duration);
        self.fs_time_nanos.fetch_add(nanos, Ordering::Relaxed);
    }

    pub fn path_normalization(&self) {
        self.path_normalizations.fetch_add(1, Ordering::Relaxed);
    }

    pub fn package_json_read(&self) {
        self.package_json_reads.fetch_add(1, Ordering::Relaxed);
    }

    pub fn tsconfig_read(&self) {
        self.tsconfig_reads.fetch_add(1, Ordering::Relaxed);
    }

    /// Counts one resolution and adds its duration in nanoseconds (truncated to 64 bits).
    pub fn resolution(&self, duration: Duration) {
        self.resolutions.fetch_add(1, Ordering::Relaxed);
        let nanos = truncated_nanos(&duration);
        self.resolution_time_nanos.fetch_add(nanos, Ordering::Relaxed);
    }

    pub fn inline_path_allocation(&self) {
        self.inline_path_allocations.fetch_add(1, Ordering::Relaxed);
    }

    pub fn heap_path_allocation(&self) {
        self.heap_path_allocations.fetch_add(1, Ordering::Relaxed);
    }

    /// Sets every counter back to zero.
    pub fn reset(&self) {
        self.cache_hits.store(0, Ordering::Relaxed);
        self.cache_misses.store(0, Ordering::Relaxed);
        self.fs_operations.store(0, Ordering::Relaxed);
        self.fs_time_nanos.store(0, Ordering::Relaxed);
        self.path_normalizations.store(0, Ordering::Relaxed);
        self.package_json_reads.store(0, Ordering::Relaxed);
        self.tsconfig_reads.store(0, Ordering::Relaxed);
        self.resolutions.store(0, Ordering::Relaxed);
        self.resolution_time_nanos.store(0, Ordering::Relaxed);
        self.inline_path_allocations.store(0, Ordering::Relaxed);
        self.heap_path_allocations.store(0, Ordering::Relaxed);
    }
}

} // verus!
