//! Ordered scans: a detector made of probes that are tried one after another
//! and that stops at the first positive one.
//!
//! The probes are performed by the caller (they read the device); the
//! library decides, from the outcomes seen so far, which probe comes next or
//! what the answer is.  The caller starts with no outcomes, performs each
//! probe it is asked for and appends its outcome, until an answer comes.

use vstd::prelude::*;

verus! {

/// What a scan asks for next.
#[derive(Clone, Copy, Debug, PartialEq, Eq, Structural)]
pub enum ScanStep {
    /// Perform the probe with this index and report its outcome.
    Probe(usize),
    /// The scan is over, with this answer.
    Finished(bool),
}

/// Some outcome among the first `n` that have been seen is positive.
pub open spec fn hit_among(n: nat, hits: Seq<bool>) -> bool {
    exists|i: int| 0 <= i < hits.len() && i < n && #[trigger] hits[i]
}

/// The step of a scan of `n` probes after the outcomes `hits`: finished
/// with `true` as soon as a probe was positive, finished with `false` when
/// all `n` were negative, and otherwise the probe after those seen.
pub open spec fn next_step(n: nat, hits: Seq<bool>) -> ScanStep {
    if hit_among(n, hits) {
        ScanStep::Finished(true)
    } else if hits.len() < n {
        ScanStep::Probe(hits.len() as usize)
    } else {
        ScanStep::Finished(false)
    }
}

/// The step of a scan of `probe_count` probes after the outcomes `hits`.
pub fn scan_step(probe_count: usize, hits: &Vec<bool>) -> (step: ScanStep)
    ensures
        step == next_step(probe_count as nat, hits@),
{
    let len = hits.len();
    let mut i: usize = 0;
    while i < len && i < probe_count
        invariant
            len == hits@.len(),
            i <= len,
            forall|k: int| 0 <= k < i ==> !hits@[k],
        decreases len - i,
    {
        if hits[i] {
            return ScanStep::Finished(true);
        }
        i += 1;
    }
    if len < probe_count {
        ScanStep::Probe(len)
    } else {
        ScanStep::Finished(false)
    }
}

/// How many probes a scan of `n` performs when the outcomes are `oracle`,
/// counting from probe `j`: up to and including the first positive one, or
/// all of them.
pub open spec fn probes_performed(n: nat, oracle: Seq<bool>, j: nat) -> nat
    decreases n - j,
{
    if j >= n {
        n
    } else if oracle[j as int] {
        j + 1
    } else {
        probes_performed(n, oracle, j + 1)
    }
}

/// Driving a scan of `n` probes to its end, with `oracle` giving each probe's
/// outcome: the scan asks for probes `0, 1, ...` in order, each once, up to
/// the first positive one (or all `n`), and then answers whether any of the
/// `n` probes is positive.
pub proof fn lemma_scan_run(n: nat, oracle: Seq<bool>)
    requires
        oracle.len() >= n,
        n <= usize::MAX,
    ensures
        forall|j: nat| j < probes_performed(n, oracle, 0) ==> next_step(n, oracle.take(j as int))
            == ScanStep::Probe(j as usize),
        next_step(n, oracle.take(probes_performed(n, oracle, 0) as int)) == ScanStep::Finished(
            exists|i: int| 0 <= i < n && oracle[i],
        ),
{
    lemma_scan_run_from(n, oracle, 0);
}

proof fn lemma_scan_run_from(n: nat, oracle: Seq<bool>, j: nat)
    requires
        oracle.len() >= n,
        n <= usize::MAX,
        j <= n,
        forall|i: int| 0 <= i < j ==> !oracle[i],
    ensures
        j <= probes_performed(n, oracle, j) <= n,
        forall|k: nat| j <= k < probes_performed(n, oracle, j) ==> next_step(
            n,
            oracle.take(k as int),
        ) == ScanStep::Probe(k as usize),
        next_step(n, oracle.take(probes_performed(n, oracle, j) as int)) == ScanStep::Finished(
            exists|i: int| 0 <= i < n && oracle[i],
        ),
    decreases n - j,
{
    let p = probes_performed(n, oracle, j);
    if j >= n {
        let t = oracle.take(n as int);
        assert(!hit_among(n, t));
        assert(!(exists|i: int| 0 <= i < n && oracle[i]));
    } else if oracle[j as int] {
        let t = oracle.take(j + 1int);
        assert(t[j as int]);
        assert(hit_among(n, t));
        let tj = oracle.take(j as int);
        assert(!hit_among(n, tj));
    } else {
        lemma_scan_run_from(n, oracle, j + 1);
        let tj = oracle.take(j as int);
        assert(!hit_among(n, tj));
    }
}

} // verus!
