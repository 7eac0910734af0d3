//! A ping-pong loop that crosses the boundary hop after hop and records the
//! heap, errors and state of each hop, with the analysis of the record.

use vstd::prelude::*;
use vstd::string::*;
use crate::text::{append_decimal, append_bool, decimal, bool_text};

verus! {

/// Heap state at a point in time.
#[derive(Debug, Clone, Copy, PartialEq, Eq, Structural)]
pub struct HeapSnapshot {
    pub total_bytes: u64,
    pub alloc_count: u32,
    pub peak_bytes: u64,
}

impl HeapSnapshot {
    pub fn new(total: u64, count: u32, peak: u64) -> (r: HeapSnapshot)
        ensures
            r == (HeapSnapshot { total_bytes: total, alloc_count: count, peak_bytes: peak }),
    {
        HeapSnapshot { total_bytes: total, alloc_count: count, peak_bytes: peak }
    }

    /// Bytes allocated here minus bytes allocated in `other`, as the two
    /// counts read as `i64` give it.
    pub fn delta_bytes(&self, other: &HeapSnapshot) -> (r: i64)
        requires
            -0x8000_0000_0000_0000 <= (self.total_bytes as i64) - (other.total_bytes as i64)
                <= 0x7FFF_FFFF_FFFF_FFFF,
        ensures
            r == (self.total_bytes as i64) - (other.total_bytes as i64),
    {
        self.total_bytes as i64 - other.total_bytes as i64
    }

    /// Whether this snapshot holds more than `threshold` bytes beyond
    /// `other`.
    pub fn shows_growth(&self, other: &HeapSnapshot, threshold: u64) -> (r: bool)
        ensures
            r == (self.total_bytes > other.total_bytes && self.total_bytes - other.total_bytes
                > threshold),
    {
        self.total_bytes > other.total_bytes && self.total_bytes - other.total_bytes > threshold
    }
}

/// One crossing of the boundary.
#[derive(Debug)]
pub struct HopRecord {
    pub hop_num: u32,
    pub heap_before: HeapSnapshot,
    pub heap_after: HeapSnapshot,
    pub errors: Vec<String>,
    pub state: Vec<(String, i32)>,
    pub is_deterministic: bool,
}

/// The state of a hop as text and values.
pub open spec fn state_view(s: Seq<(String, i32)>) -> Seq<(Seq<char>, i32)> {
    s.map_values(|e: (String, i32)| (e.0@, e.1))
}

/// What a copy of a hop must agree on.
pub open spec fn same_hop(a: HopRecord, b: HopRecord) -> bool {
    &&& a.hop_num == b.hop_num
    &&& a.heap_before == b.heap_before
    &&& a.heap_after == b.heap_after
    &&& a.errors@.map_values(|s: String| s@) == b.errors@.map_values(|s: String| s@)
    &&& state_view(a.state@) == state_view(b.state@)
    &&& a.is_deterministic == b.is_deterministic
}

fn copy_state(s: &Vec<(String, i32)>) -> (r: Vec<(String, i32)>)
    ensures
        state_view(r@) == state_view(s@),
{
    let mut out: Vec<(String, i32)> = Vec::new();
    let mut i: usize = 0;
    while i < s.len()
        invariant
            i <= s@.len(),
            out@.len() == i,
            forall|j: int| 0 <= j < i ==> (#[trigger] out@[j]).0@ == s@[j].0@ && out@[j].1 == s@[j].1,
        decreases s@.len() - i,
    {
        let k = s[i].0.clone();
        out.push((k, s[i].1));
        i = i + 1;
    }
    proof {
        assert(state_view(out@) =~= state_view(s@));
    }
    out
}

fn copy_strings(s: &Vec<String>) -> (r: Vec<String>)
    ensures
        r@.map_values(|x: String| x@) == s@.map_values(|x: String| x@),
{
    let mut out: Vec<String> = Vec::new();
    let mut i: usize = 0;
    while i < s.len()
        invariant
            i <= s@.len(),
            out@.len() == i,
            forall|j: int| 0 <= j < i ==> (#[trigger] out@[j])@ == s@[j]@,
        decreases s@.len() - i,
    {
        out.push(s[i].clone());
        i = i + 1;
    }
    proof {
        assert(out@.map_values(|x: String| x@) =~= s@.map_values(|x: String| x@));
    }
    out
}

impl HopRecord {
    /// A copy of the hop.
    pub fn copy(&self) -> (r: HopRecord)
        ensures
            same_hop(r, *self),
    {
        HopRecord {
            hop_num: self.hop_num,
            heap_before: self.heap_before,
            heap_after: self.heap_after,
            errors: copy_strings(&self.errors),
            state: copy_state(&self.state),
            is_deterministic: self.is_deterministic,
        }
    }
}

/// Analysis of a run of hops.
#[derive(Debug)]
pub struct HopAnalysis {
    pub hops: Vec<HopRecord>,
    pub total_hops: u32,
    pub heap_growth: Option<u64>,
    pub error_drift: Option<String>,
    pub all_deterministic: bool,
}

/// Whether every hop was deterministic.
pub open spec fn all_det(hops: Seq<HopRecord>) -> bool {
    forall|i: int| 0 <= i < hops.len() ==> (#[trigger] hops[i]).is_deterministic
}

/// What a copy of an analysis must agree on.
pub open spec fn same_analysis(a: HopAnalysis, b: HopAnalysis) -> bool {
    &&& a.hops@.len() == b.hops@.len()
    &&& forall|i: int| 0 <= i < a.hops@.len() ==> same_hop(#[trigger] a.hops@[i], b.hops@[i])
    &&& a.total_hops == b.total_hops
    &&& a.heap_growth == b.heap_growth
    &&& a.error_drift.is_some() == b.error_drift.is_some()
    &&& (a.error_drift matches Some(x) ==> b.error_drift matches Some(y) && x@ == y@)
    &&& a.all_deterministic == b.all_deterministic
}

impl HopAnalysis {
    pub fn new() -> (r: HopAnalysis)
        ensures
            r.hops@.len() == 0,
            r.total_hops == 0,
            r.heap_growth.is_none(),
            r.error_drift.is_none(),
            r.all_deterministic,
    {
        HopAnalysis {
            hops: Vec::new(),
            total_hops: 0,
            heap_growth: None,
            error_drift: None,
            all_deterministic: true,
        }
    }

    /// Appends a hop; the total becomes its number.
    pub fn record_hop(&mut self, hop: HopRecord)
        ensures
            final(self).hops@ == old(self).hops@.push(hop),
            final(self).total_hops == hop.hop_num,
            final(self).all_deterministic == (old(self).all_deterministic && hop.is_deterministic),
            final(self).heap_growth == old(self).heap_growth,
            final(self).error_drift == old(self).error_drift,
    {
        self.all_deterministic = self.all_deterministic && hop.is_deterministic;
        self.total_hops = hop.hop_num;
        self.hops.push(hop);
    }

    /// With two hops or more: whether the heap grew by more than
    /// `threshold` from before the first hop to after the last; the growth
    /// is recorded when it did.
    pub fn detect_heap_growth(&mut self, threshold: u64) -> (r: bool)
        ensures
            ({
                let h = old(self).hops@;
                let grew = h.len() >= 2 && h[h.len() - 1].heap_after.total_bytes > h[0].heap_before.total_bytes
                    && h[h.len() - 1].heap_after.total_bytes - h[0].heap_before.total_bytes > threshold;
                &&& r == grew
                &&& grew ==> final(self).heap_growth == Some(
                    (h[h.len() - 1].heap_after.total_bytes - h[0].heap_before.total_bytes) as u64,
                )
                &&& !grew ==> final(self).heap_growth == old(self).heap_growth
            }),
            final(self).hops == old(self).hops,
            final(self).total_hops == old(self).total_hops,
            final(self).error_drift == old(self).error_drift,
            final(self).all_deterministic == old(self).all_deterministic,
    {
        let n = self.hops.len();
        if n < 2 {
            return false;
        }
        let first = self.hops[0].heap_before.total_bytes;
        let last = self.hops[n - 1].heap_after.total_bytes;
        let growth = if last > first {
            last - first
        } else {
            0
        };
        if growth > threshold {
            self.heap_growth = Some(growth);
            return true;
        }
        false
    }

    /// Whether some hop after the first has a different number of errors
    /// than the first; the first such hop is described when there is one.
    pub fn detect_error_drift(&mut self) -> (r: bool)
        ensures
            r == exists|i: int|
                1 <= i < old(self).hops@.len() && (#[trigger] old(self).hops@[i]).errors@.len()
                    != old(self).hops@[0].errors@.len(),
            !r ==> final(self).error_drift == old(self).error_drift,
            r ==> final(self).error_drift.is_some(),
            final(self).hops == old(self).hops,
            final(self).total_hops == old(self).total_hops,
            final(self).heap_growth == old(self).heap_growth,
            final(self).all_deterministic == old(self).all_deterministic,
    {
        let n = self.hops.len();
        if n == 0 {
            return false;
        }
        let first = self.hops[0].errors.len();
        let mut i: usize = 1;
        while i < n
            invariant
                n == self.hops@.len(),
                1 <= i <= n,
                *self == *old(self),
                first == self.hops@[0].errors@.len(),
                forall|j: int| 1 <= j < i ==> (#[trigger] self.hops@[j]).errors@.len() == first,
            decreases n - i,
        {
            let count = self.hops[i].errors.len();
            if count != first {
                let mut text = String::from_str("Hop ");
                append_decimal(&mut text, i as u64);
                text.append(" error count changed: ");
                append_decimal(&mut text, first as u64);
                text.append(" → ");
                append_decimal(&mut text, count as u64);
                self.error_drift = Some(text);
                return true;
            }
            i = i + 1;
        }
        false
    }

    /// A copy of the analysis.
    pub fn copy(&self) -> (r: HopAnalysis)
        ensures
            same_analysis(r, *self),
    {
        let mut hops: Vec<HopRecord> = Vec::new();
        let mut i: usize = 0;
        while i < self.hops.len()
            invariant
                i <= self.hops@.len(),
                hops@.len() == i,
                forall|k: int| 0 <= k < i ==> same_hop(#[trigger] hops@[k], self.hops@[k]),
            decreases self.hops@.len() - i,
        {
            hops.push(self.hops[i].copy());
            i = i + 1;
        }
        let error_drift = match &self.error_drift {
            Some(d) => Some(d.clone()),
            None => None,
        };
        HopAnalysis {
            hops,
            total_hops: self.total_hops,
            heap_growth: self.heap_growth,
            error_drift,
            all_deterministic: self.all_deterministic,
        }
    }

    /// The evidence report: totals, warnings, and one line per hop.
    pub fn evidence_report(&self) -> (r: String)
        ensures
            r@ == "=== Ping-Pong Hop Analysis ===\n\n"@ + "Total hops: "@ + decimal(
                self.total_hops as nat,
            ) + "\n"@ + "All deterministic: "@ + bool_text(self.all_deterministic) + "\n"@ + (
            match self.heap_growth {
                Some(g) => "⚠️  Heap growth detected: "@ + decimal(g as nat) + " bytes\n"@,
                None => Seq::empty(),
            }) + (match self.error_drift {
                Some(d) => "⚠️  Error drift detected: "@ + d@ + "\n"@,
                None => Seq::empty(),
            }) + "\n--- Hop Details ---\n"@ + hop_lines(self.hops@),
    {
        let mut report = String::from_str("=== Ping-Pong Hop Analysis ===\n\n");
        report.append("Total hops: ");
        append_decimal(&mut report, self.total_hops as u64);
        report.append("\n");
        report.append("All deterministic: ");
        append_bool(&mut report, self.all_deterministic);
        report.append("\n");
        let ghost a = report@;
        match self.heap_growth {
            Some(g) => {
                report.append("⚠️  Heap growth detected: ");
                append_decimal(&mut report, g);
                report.append(" bytes\n");
            },
            None => {},
        }
        let ghost b = report@;
        proof {
            assert(b =~= a + (match self.heap_growth {
                Some(g) => "⚠️  Heap growth detected: "@ + decimal(g as nat) + " bytes\n"@,
                None => Seq::empty(),
            }));
        }
        match &self.error_drift {
            Some(d) => {
                report.append("⚠️  Error drift detected: ");
                report.append(d.as_str());
                report.append("\n");
            },
            None => {},
        }
        let ghost c = report@;
        proof {
            assert(c =~= b + (match self.error_drift {
                Some(d) => "⚠️  Error drift detected: "@ + d@ + "\n"@,
                None => Seq::empty(),
            }));
        }
        report.append("\n--- Hop Details ---\n");
        let ghost head = report@;
        let mut i: usize = 0;
        proof {
            assert(self.hops@.take(0) =~= Seq::<HopRecord>::empty());
            assert(head + hop_lines(Seq::<HopRecord>::empty()) =~= head);
        }
        while i < self.hops.len()
            invariant
                i <= self.hops@.len(),
                report@ == head + hop_lines(self.hops@.take(i as int)),
            decreases self.hops@.len() - i,
        {
            append_hop_line(&mut report, &self.hops[i]);
            proof {
                assert(self.hops@.take(i + 1).drop_last() =~= self.hops@.take(i as int));
                assert(report@ =~= head + hop_lines(self.hops@.take(i + 1)));
            }
            i = i + 1;
        }
        proof {
            assert(self.hops@.take(i as int) =~= self.hops@);
            assert(report@ =~= a + (match self.heap_growth {
                Some(g) => "⚠️  Heap growth detected: "@ + decimal(g as nat) + " bytes\n"@,
                None => Seq::empty(),
            }) + (match self.error_drift {
                Some(d) => "⚠️  Error drift detected: "@ + d@ + "\n"@,
                None => Seq::empty(),
            }) + "\n--- Hop Details ---\n"@ + hop_lines(self.hops@));
        }
        report
    }
}

/// The report line of a hop.
pub open spec fn hop_line(h: HopRecord) -> Seq<char> {
    "Hop "@ + decimal(h.hop_num as nat) + ": "@ + "heap "@ + decimal(h.heap_before.total_bytes as nat)
        + " → "@ + decimal(h.heap_after.total_bytes as nat) + " bytes, "@ + "errors: "@ + decimal(
        h.errors@.len(),
    ) + ", "@ + "deterministic: "@ + bool_text(h.is_deterministic) + "\n"@
}

/// Appends the report line of a hop.
fn append_hop_line(report: &mut String, hop: &HopRecord)
    ensures
        final(report)@ == old(report)@ + hop_line(*hop),
{
    report.append("Hop ");
    append_decimal(report, hop.hop_num as u64);
    report.append(": ");
    report.append("heap ");
    append_decimal(report, hop.heap_before.total_bytes);
    report.append(" → ");
    append_decimal(report, hop.heap_after.total_bytes);
    report.append(" bytes, ");
    report.append("errors: ");
    append_decimal(report, hop.errors.len() as u64);
    report.append(", ");
    report.append("deterministic: ");
    append_bool(report, hop.is_deterministic);
    report.append("\n");
    proof {
        assert(final(report)@ =~= old(report)@ + hop_line(*hop));
    }
}

/// The report lines of hops, in order.
pub open spec fn hop_lines(hs: Seq<HopRecord>) -> Seq<char>
    decreases hs.len(),
{
    if hs.len() == 0 {
        Seq::empty()
    } else {
        hop_lines(hs.drop_last()) + hop_line(hs.last())
    }
}

/// Runs hops and keeps their record and the accumulated state.
pub struct PingPongLoop {
    pub analysis: HopAnalysis,
    pub state: Vec<(String, i32)>,
}

impl PingPongLoop {
    pub fn new() -> (r: PingPongLoop)
        ensures
            r.analysis.hops@.len() == 0,
            r.analysis.total_hops == 0,
            r.analysis.all_deterministic,
            r.analysis.heap_growth.is_none(),
            r.analysis.error_drift.is_none(),
            r.state@.len() == 0,
    {
        PingPongLoop { analysis: HopAnalysis::new(), state: Vec::new() }
    }

    /// Runs hops 1 to `num_hops`. Hop `n` sees the heap grow from 1000 to
    /// 1000 + n bytes with n allocations, reports no error, adds
    /// `("hop_n", n)` to the state and records the state after it. Returns
    /// a copy of the analysis.
    pub fn run(&mut self, num_hops: u32) -> (r: HopAnalysis)
        ensures
            final(self).analysis.hops@.len() == old(self).analysis.hops@.len() + num_hops,
            final(self).state@.len() == old(self).state@.len() + num_hops,
            state_view(final(self).state@.take(old(self).state@.len() as int)) == state_view(old(self).state@),
            forall|k: int|
                0 <= k < num_hops ==> {
                    let h = #[trigger] final(self).analysis.hops@[old(self).analysis.hops@.len() + k];
                    &&& h.hop_num == k + 1
                    &&& h.heap_before == HeapSnapshot { total_bytes: 1000, alloc_count: (k + 1) as u32, peak_bytes: 2000 }
                    &&& h.heap_after == HeapSnapshot { total_bytes: (1000 + k + 1) as u64, alloc_count: (k + 1) as u32, peak_bytes: 2000 }
                    &&& h.errors@.len() == 0
                    &&& h.is_deterministic
                    &&& h.state@.len() == old(self).state@.len() + k + 1
                },
            num_hops > 0 ==> final(self).analysis.total_hops == num_hops,
            num_hops == 0 ==> final(self).analysis.total_hops == old(self).analysis.total_hops,
            final(self).analysis.all_deterministic == old(self).analysis.all_deterministic,
            final(self).analysis.heap_growth == old(self).analysis.heap_growth,
            same_analysis(r, final(self).analysis),
    {
        let ghost h0 = self.analysis.hops@.len();
        let ghost s0 = self.state@;
        let mut hop_num: u32 = 1;
        while hop_num <= num_hops
            invariant
                1 <= hop_num <= num_hops as int + 1,
                self.analysis.hops@.len() == h0 + hop_num - 1,
                self.state@.len() == s0.len() + hop_num - 1,
                h0 == old(self).analysis.hops@.len(),
                s0 == old(self).state@,
                state_view(self.state@.take(s0.len() as int)) == state_view(s0),
                forall|k: int|
                    0 <= k < hop_num - 1 ==> {
                        let h = #[trigger] self.analysis.hops@[h0 + k];
                        &&& h.hop_num == k + 1
                        &&& h.heap_before == HeapSnapshot { total_bytes: 1000, alloc_count: (k + 1) as u32, peak_bytes: 2000 }
                        &&& h.heap_after == HeapSnapshot { total_bytes: (1000 + k + 1) as u64, alloc_count: (k + 1) as u32, peak_bytes: 2000 }
                        &&& h.errors@.len() == 0
                        &&& h.is_deterministic
                        &&& h.state@.len() == s0.len() + k + 1
                    },
                hop_num > 1 ==> self.analysis.total_hops == hop_num - 1,
                hop_num == 1 ==> self.analysis.total_hops == old(self).analysis.total_hops,
                self.analysis.all_deterministic == old(self).analysis.all_deterministic,
                self.analysis.heap_growth == old(self).analysis.heap_growth,
            decreases num_hops as int + 1 - hop_num,
        {
            let mut key = String::from_str("hop_");
            append_decimal(&mut key, hop_num as u64);
            let ghost before = self.state@;
            self.state.push((key, hop_num as i32));
            let snapshot = copy_state(&self.state);
            let hop = HopRecord {
                hop_num,
                heap_before: HeapSnapshot::new(1000, hop_num, 2000),
                heap_after: HeapSnapshot::new(1000 + hop_num as u64, hop_num, 2000),
                errors: Vec::new(),
                state: snapshot,
                is_deterministic: true,
            };
            let ghost hops_before = self.analysis.hops@;
            self.analysis.record_hop(hop);
            proof {
                assert forall|j: int| 0 <= j < s0.len() implies self.state@[j] == before[j] by {}
                assert(state_view(self.state@.take(s0.len() as int)) =~= state_view(before.take(s0.len() as int)));
                assert(state_view(hop.state@) == state_view(self.state@));
                assert(hop.state@.len() == state_view(hop.state@).len());
                assert forall|k: int| 0 <= k < hop_num implies #[trigger] self.analysis.hops@[h0 + k] == if k < hop_num - 1 { hops_before[h0 + k] } else { hop } by {}
            }
            if hop_num == u32::MAX {
                return self.analysis.copy();
            }
            hop_num = hop_num + 1;
        }
        self.analysis.copy()
    }

    /// Runs `num_hops` hops, then checks for heap growth over `growth_threshold`.
    pub fn run_with_heap_detection(&mut self, num_hops: u32, growth_threshold: u64) -> (r: HopAnalysis)
        ensures
            final(self).analysis.hops@.len() == old(self).analysis.hops@.len() + num_hops,
            same_analysis(r, final(self).analysis),
    {
        let _ = self.run(num_hops);
        let _ = self.analysis.detect_heap_growth(growth_threshold);
        self.analysis.copy()
    }

    /// Runs `num_hops` hops, then checks for error drift.
    pub fn run_with_error_detection(&mut self, num_hops: u32) -> (r: HopAnalysis)
        ensures
            final(self).analysis.hops@.len() == old(self).analysis.hops@.len() + num_hops,
            same_analysis(r, final(self).analysis),
    {
        let _ = self.run(num_hops);
        let _ = self.analysis.detect_error_drift();
        self.analysis.copy()
    }

    pub fn analysis(&self) -> (r: &HopAnalysis)
        ensures
            *r == self.analysis,
    {
        &self.analysis
    }

    pub fn analysis_mut(&mut self) -> (r: &mut HopAnalysis)
        ensures
            *r == old(self).analysis,
            final(self).analysis == *final(r),
            final(self).state == old(self).state,
    {
        &mut self.analysis
    }
}

} // verus!
