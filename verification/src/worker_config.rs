//! How many background workers of each kind the player starts.

use vstd::prelude::*;

verus! {

/// How many workers read metadata, make thumbnails, and fill the cache.
#[derive(Clone, Copy, PartialEq, Eq, Debug, Structural)]
pub struct WorkerConfig {
    pub metadata: usize,
    pub thumbnail: usize,
    pub cacher: usize,
}

/// The CPUs that may be used: nine tenths of the logical CPUs, rounded down,
/// and at least two.
pub open spec fn usable_cpus(logical: nat) -> nat {
    let u = logical * 9 / 10;
    if u < 2 {
        2
    } else {
        u
    }
}

/// The workers for `logical` logical CPUs (counting at least one): a quarter
/// of the usable CPUs, at least one, fill the cache; the rest, at most eight,
/// read metadata, and as many make thumbnails.
pub open spec fn worker_config_spec(logical: nat) -> WorkerConfig {
    let l = if logical < 1 {
        1
    } else {
        logical
    };
    let usable = usable_cpus(l);
    let cacher = if usable / 4 < 1 {
        1
    } else {
        usable / 4
    };
    let scanners = (usable - cacher) as nat;
    let capped = if scanners < 8 {
        scanners
    } else {
        8
    };
    WorkerConfig { metadata: capped as usize, thumbnail: capped as usize, cacher: cacher as usize }
}

/// The workers to start on a machine with `logical` logical CPUs.
pub fn worker_config_for(logical: usize) -> (c: WorkerConfig)
    ensures
        c == worker_config_spec(logical as nat),
{
    let logical = if logical < 1 {
        1
    } else {
        logical
    };
    let nine_tenths = logical / 10 * 9 + logical % 10 * 9 / 10;
    assert(nine_tenths == logical * 9 / 10) by (nonlinear_arith)
        requires
            nine_tenths == logical / 10 * 9 + logical % 10 * 9 / 10,
    ;
    let usable = if nine_tenths < 2 {
        2
    } else {
        nine_tenths
    };
    let cacher = if usable / 4 < 1 {
        1
    } else {
        usable / 4
    };
    let scanner_total = usable - cacher;
    let capped = if scanner_total < 8 {
        scanner_total
    } else {
        8
    };
    WorkerConfig { metadata: capped, thumbnail: capped, cacher }
}

/// Calls `num_cpus::get`, the number of CPUs that this process may use, which
/// its documentation promises to be at least one.
#[verifier::external_body]
fn cpu_count() -> (n: usize)
    ensures
        n >= 1,
{
    num_cpus::get()
}

/// The workers to start on this machine.
pub fn calculate_worker_config() -> (c: WorkerConfig)
    ensures
        exists|n: nat| n >= 1 && c == worker_config_spec(n),
        1 <= c.cacher,
        1 <= c.metadata <= 8,
        c.thumbnail == c.metadata,
{
    let n = cpu_count();
    let c = worker_config_for(n);
    proof {
        law_worker_config_bounds(n as nat);
    }
    c
}

/// Whatever the machine, at least one worker of each kind starts, at most
/// eight read metadata and as many make thumbnails, and the workers never
/// outnumber the usable CPUs.
pub proof fn law_worker_config_bounds(logical: nat)
    requires
        logical <= usize::MAX,
    ensures
        1 <= worker_config_spec(logical).cacher,
        1 <= worker_config_spec(logical).metadata <= 8,
        worker_config_spec(logical).thumbnail == worker_config_spec(logical).metadata,
        worker_config_spec(logical).cacher + worker_config_spec(logical).metadata <= usable_cpus(
            if logical < 1 { 1 } else { logical },
        ),
{
    let l: nat = if logical < 1 { 1 } else { logical };
    let u = usable_cpus(l);
    assert(l * 9 / 10 <= l) by (nonlinear_arith);
    assert(u >= 2);
    assert(u <= usize::MAX);
    assert(u / 4 < u);
}

} // verus!
