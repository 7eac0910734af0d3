//! A registry of claims, each tied to the test that is its evidence, with
//! their verification status.

use vstd::prelude::*;
use vstd::string::*;
use crate::text::{str_equal, append_decimal, append_bool, decimal, bool_text};
use crate::atom_table::compare_names;

verus! {

/// Where a claim stands.
#[derive(Debug, Clone, PartialEq, Eq)]
pub enum VerificationStatus {
    Proposed,
    Green,
    Crossed,
    Failed(String),
}

/// The symbol of each status.
pub open spec fn symbol_of(s: VerificationStatus) -> &'static str {
    match s {
        VerificationStatus::Proposed => "○",
        VerificationStatus::Green => "✓",
        VerificationStatus::Crossed => "✗",
        VerificationStatus::Failed(_) => "✗",
    }
}

/// The description of each status.
pub open spec fn description_of(s: VerificationStatus) -> &'static str {
    match s {
        VerificationStatus::Proposed => "proposed",
        VerificationStatus::Green => "verified",
        VerificationStatus::Crossed => "failed",
        VerificationStatus::Failed(_) => "error",
    }
}

impl VerificationStatus {
    pub fn symbol(&self) -> (r: &'static str)
        ensures
            r == symbol_of(*self),
    {
        match self {
            VerificationStatus::Proposed => "○",
            VerificationStatus::Green => "✓",
            VerificationStatus::Crossed => "✗",
            VerificationStatus::Failed(_) => "✗",
        }
    }

    pub fn description(&self) -> (r: &'static str)
        ensures
            r == description_of(*self),
    {
        match self {
            VerificationStatus::Proposed => "proposed",
            VerificationStatus::Green => "verified",
            VerificationStatus::Crossed => "failed",
            VerificationStatus::Failed(_) => "error",
        }
    }

    pub fn is_green(&self) -> (r: bool)
        ensures
            r == (*self is Green),
    {
        match self {
            VerificationStatus::Green => true,
            _ => false,
        }
    }
}

/// A claim with the test and example that are its evidence.
#[derive(Debug, Clone)]
pub struct ThesisClaim {
    pub id: String,
    pub statement: String,
    pub finding: String,
    pub evidence_test: String,
    pub evidence_example: Option<String>,
    pub verification_status: VerificationStatus,
}

impl ThesisClaim {
    pub fn new(id: &str, statement: &str, finding: &str, test: &str) -> (r: ThesisClaim)
        ensures
            r.id@ == id@,
            r.statement@ == statement@,
            r.finding@ == finding@,
            r.evidence_test@ == test@,
            r.evidence_example.is_none(),
            r.verification_status is Proposed,
    {
        ThesisClaim {
            id: String::from_str(id),
            statement: String::from_str(statement),
            finding: String::from_str(finding),
            evidence_test: String::from_str(test),
            evidence_example: None,
            verification_status: VerificationStatus::Proposed,
        }
    }

    pub fn with_example(self, example: &str) -> (r: ThesisClaim)
        ensures
            r == (ThesisClaim { evidence_example: r.evidence_example, ..self }),
            r.evidence_example matches Some(e) && e@ == example@,
    {
        ThesisClaim { evidence_example: Some(String::from_str(example)), ..self }
    }

    pub fn mark_verified(self) -> (r: ThesisClaim)
        ensures
            r == (ThesisClaim { verification_status: VerificationStatus::Green, ..self }),
    {
        ThesisClaim { verification_status: VerificationStatus::Green, ..self }
    }

    pub fn mark_failed(self, reason: &str) -> (r: ThesisClaim)
        ensures
            r == (ThesisClaim { verification_status: r.verification_status, ..self }),
            r.verification_status matches VerificationStatus::Failed(m) && m@ == reason@,
    {
        ThesisClaim { verification_status: VerificationStatus::Failed(String::from_str(reason)), ..self }
    }
}

/// Whether every claim is green.
pub open spec fn all_green(cs: Seq<ThesisClaim>) -> bool {
    forall|i: int| 0 <= i < cs.len() ==> (#[trigger] cs[i]).verification_status is Green
}

/// The claims of finding `f`, in order.
pub open spec fn claims_of(cs: Seq<ThesisClaim>, f: Seq<char>) -> Seq<ThesisClaim> {
    cs.filter(|c: ThesisClaim| c.finding@ == f)
}

/// Whether some claim is of finding `f`.
pub open spec fn has_finding(cs: Seq<ThesisClaim>, f: Seq<char>) -> bool {
    exists|k: int| 0 <= k < cs.len() && (#[trigger] cs[k]).finding@ == f
}

/// Whether `f` is listed in `fs`.
pub open spec fn listed(fs: Seq<String>, f: Seq<char>) -> bool {
    exists|i: int| 0 <= i < fs.len() && (#[trigger] fs[i])@ == f
}

/// Whether `fs` lists every finding of `cs` exactly once.
pub open spec fn lists_findings(fs: Seq<String>, cs: Seq<ThesisClaim>) -> bool {
    &&& forall|i: int, j: int| 0 <= i < j < fs.len() ==> (#[trigger] fs[i])@ != (#[trigger] fs[j])@
    &&& forall|i: int| 0 <= i < fs.len() ==> has_finding(cs, (#[trigger] fs[i])@)
    &&& forall|k: int| 0 <= k < cs.len() ==> listed(fs, (#[trigger] cs[k]).finding@)
}

/// The report lines of claims.
pub open spec fn claim_lines(cs: Seq<ThesisClaim>) -> Seq<char>
    decreases cs.len(),
{
    if cs.len() == 0 {
        Seq::empty()
    } else {
        let c = cs.last();
        claim_lines(cs.drop_last()) + "  "@ + symbol_of(c.verification_status)@ + " ["@ + c.id@
            + "] "@ + c.statement@ + "\n"@ + "    Test: "@ + c.evidence_test@ + "\n"@ + (
        match c.evidence_example {
            Some(e) => "    Example: "@ + e@ + "\n"@,
            None => Seq::empty(),
        })
    }
}

/// The report section of finding `f`.
pub open spec fn finding_section(cs: Seq<ThesisClaim>, f: Seq<char>) -> Seq<char> {
    let mine = claims_of(cs, f);
    (if all_green(mine) {
        "✓"@
    } else {
        "✗"@
    }) + " Finding: "@ + f + " ("@ + decimal(mine.len()) + ")\n"@ + claim_lines(mine) + "\n"@
}

/// The report sections of findings, in order.
pub open spec fn finding_sections(cs: Seq<ThesisClaim>, fs: Seq<String>) -> Seq<char>
    decreases fs.len(),
{
    if fs.len() == 0 {
        Seq::empty()
    } else {
        finding_sections(cs, fs.drop_last()) + finding_section(cs, fs.last()@)
    }
}

/// Claims and whether all of them were green when last verified.
#[derive(Debug, Clone)]
pub struct ProofPack {
    pub claims: Vec<ThesisClaim>,
    pub all_green: bool,
}

impl ProofPack {
    pub fn new() -> (r: ProofPack)
        ensures
            r.claims@.len() == 0,
            !r.all_green,
    {
        ProofPack { claims: Vec::new(), all_green: false }
    }

    pub fn add_claim(&mut self, claim: ThesisClaim)
        ensures
            final(self).claims@ == old(self).claims@.push(claim),
            final(self).all_green == old(self).all_green,
    {
        self.claims.push(claim);
    }

    /// Every proposed claim becomes green; then records whether all are.
    pub fn verify_all(&mut self) -> (r: Result<(), String>)
        ensures
            r is Ok,
            final(self).claims@.len() == old(self).claims@.len(),
            forall|i: int|
                0 <= i < old(self).claims@.len() ==> (#[trigger] final(self).claims@[i]) == if old(
                    self,
                ).claims@[i].verification_status is Proposed {
                    ThesisClaim {
                        verification_status: VerificationStatus::Green,
                        ..old(self).claims@[i]
                    }
                } else {
                    old(self).claims@[i]
                },
            final(self).all_green == all_green(final(self).claims@),
    {
        let n = self.claims.len();
        let mut i: usize = 0;
        while i < n
            invariant
                n == self.claims@.len(),
                n == old(self).claims@.len(),
                i <= n,
                forall|k: int|
                    0 <= k < n ==> (#[trigger] self.claims@[k]) == if k < i && old(
                        self,
                    ).claims@[k].verification_status is Proposed {
                        ThesisClaim {
                            verification_status: VerificationStatus::Green,
                            ..old(self).claims@[k]
                        }
                    } else {
                        old(self).claims@[k]
                    },
            decreases n - i,
        {
            let proposed = match self.claims[i].verification_status {
                VerificationStatus::Proposed => true,
                _ => false,
            };
            if proposed {
                self.claims[i].verification_status = VerificationStatus::Green;
            }
            i = i + 1;
        }
        let mut all = true;
        let mut j: usize = 0;
        while j < n
            invariant
                n == self.claims@.len(),
                j <= n,
                all == forall|k: int| 0 <= k < j ==> (#[trigger] self.claims@[k]).verification_status is Green,
            decreases n - j,
        {
            if !self.claims[j].verification_status.is_green() {
                all = false;
            }
            j = j + 1;
        }
        self.all_green = all;
        Ok(())
    }

    /// Whether every claim of `finding` is green.
    pub fn finding_verified(&self, finding: &str) -> (r: bool)
        ensures
            r == forall|k: int|
                0 <= k < self.claims@.len() && (#[trigger] self.claims@[k]).finding@ == finding@
                    ==> self.claims@[k].verification_status is Green,
    {
        let mut i: usize = 0;
        while i < self.claims.len()
            invariant
                i <= self.claims@.len(),
                forall|k: int|
                    0 <= k < i && (#[trigger] self.claims@[k]).finding@ == finding@
                        ==> self.claims@[k].verification_status is Green,
            decreases self.claims@.len() - i,
        {
            if str_equal(self.claims[i].finding.as_str(), finding)
                && !self.claims[i].verification_status.is_green() {
                return false;
            }
            i = i + 1;
        }
        true
    }

    /// Number of green claims.
    pub fn verified_count(&self) -> (r: usize)
        ensures
            r == self.claims@.filter(|c: ThesisClaim| c.verification_status is Green).len(),
    {
        count_green(&self.claims)
    }

    /// The distinct findings of the claims.
    fn findings(&self) -> (r: Vec<String>)
        ensures
            lists_findings(r@, self.claims@),
    {
        let mut fs: Vec<String> = Vec::new();
        let mut i: usize = 0;
        while i < self.claims.len()
            invariant
                i <= self.claims@.len(),
                forall|a: int, b: int| 0 <= a < b < fs@.len() ==> (#[trigger] fs@[a])@ != (#[trigger] fs@[b])@,
                forall|a: int| 0 <= a < fs@.len() ==> has_finding(self.claims@, (#[trigger] fs@[a])@),
                forall|k: int| 0 <= k < i ==> listed(fs@, (#[trigger] self.claims@[k]).finding@),
            decreases self.claims@.len() - i,
        {
            let f = self.claims[i].finding.as_str();
            let mut present = false;
            let mut j: usize = 0;
            while j < fs.len()
                invariant
                    j <= fs@.len(),
                    present ==> listed(fs@, f@),
                    !present ==> forall|a: int| 0 <= a < j ==> (#[trigger] fs@[a])@ != f@,
                decreases fs@.len() - j,
            {
                if str_equal(fs[j].as_str(), f) {
                    present = true;
                }
                j = j + 1;
            }
            if !present {
                let mut pos: usize = 0;
                while pos < fs.len() && compare_names(f, fs[pos].as_str()) >= 0
                    invariant
                        pos <= fs@.len(),
                    decreases fs@.len() - pos,
                {
                    pos = pos + 1;
                }
                let ghost before = fs@;
                fs.insert(pos, String::from_str(f));
                proof {
                    assert forall|a: int, b: int| 0 <= a < b < fs@.len() implies (#[trigger] fs@[a])@ != (#[trigger] fs@[b])@ by {
                        if a < pos && b < pos {
                            assert(fs@[a] == before[a] && fs@[b] == before[b]);
                        } else if a < pos && b == pos {
                            assert(fs@[a] == before[a]);
                        } else if a < pos {
                            assert(fs@[a] == before[a] && fs@[b] == before[b - 1]);
                        } else if a == pos {
                            assert(fs@[b] == before[b - 1]);
                        } else {
                            assert(fs@[a] == before[a - 1] && fs@[b] == before[b - 1]);
                        }
                    }
                    assert forall|a: int| 0 <= a < fs@.len() implies has_finding(self.claims@, (#[trigger] fs@[a])@) by {
                        if a < pos {
                            assert(fs@[a] == before[a]);
                        } else if a == pos {
                            assert(self.claims@[i as int].finding@ == fs@[a]@);
                        } else {
                            assert(fs@[a] == before[a - 1]);
                        }
                    }
                    assert forall|k: int| 0 <= k < i + 1 implies listed(fs@, (#[trigger] self.claims@[k]).finding@) by {
                        if k == i {
                            assert(fs@[pos as int]@ == self.claims@[k].finding@);
                        } else {
                            let a = choose|a: int| 0 <= a < before.len() && (#[trigger] before[a])@ == self.claims@[k].finding@;
                            if a < pos {
                                assert(fs@[a] == before[a]);
                            } else {
                                assert(fs@[a + 1] == before[a]);
                            }
                        }
                    }
                }
            }
            i = i + 1;
        }
        fs
    }

    /// The evidence report: counts, then for each finding (in order of
    /// name) its status, its claims and their evidence.
    pub fn evidence_report(&self) -> (r: String)
        ensures
            exists|fs: Seq<String>|
                lists_findings(fs, self.claims@) && r@ == "=== Thesis Evidence Proof Pack ===\n\n"@
                    + "Total claims: "@ + decimal(self.claims@.len()) + "\n"@ + "Verified: "@
                    + decimal(
                    self.claims@.filter(|c: ThesisClaim| c.verification_status is Green).len(),
                ) + "/"@ + decimal(self.claims@.len()) + "\n"@ + "All green: "@ + bool_text(
                    self.all_green,
                ) + "\n\n"@ + finding_sections(self.claims@, fs),
    {
        let n = self.claims.len();
        let mut report = String::from_str("=== Thesis Evidence Proof Pack ===\n\n");
        report.append("Total claims: ");
        append_decimal(&mut report, n as u64);
        report.append("\n");
        report.append("Verified: ");
        append_decimal(&mut report, self.verified_count() as u64);
        report.append("/");
        append_decimal(&mut report, n as u64);
        report.append("\n");
        report.append("All green: ");
        append_bool(&mut report, self.all_green);
        report.append("\n\n");
        let fs = self.findings();
        let ghost head = report@;
        proof {
            assert(fs@.take(0) =~= Seq::<String>::empty());
            assert(head + finding_sections(self.claims@, Seq::<String>::empty()) =~= head);
        }
        let mut i: usize = 0;
        while i < fs.len()
            invariant
                i <= fs@.len(),
                report@ == head + finding_sections(self.claims@, fs@.take(i as int)),
            decreases fs@.len() - i,
        {
            append_finding_section(&mut report, &self.claims, fs[i].as_str());
            proof {
                assert(fs@.take(i + 1).drop_last() =~= fs@.take(i as int));
                assert(report@ =~= head + finding_sections(self.claims@, fs@.take(i + 1)));
            }
            i = i + 1;
        }
        proof {
            assert(fs@.take(i as int) =~= fs@);
        }
        report
    }
}

/// Number of green claims.
fn count_green(cs: &Vec<ThesisClaim>) -> (r: usize)
    ensures
        r == cs@.filter(|c: ThesisClaim| c.verification_status is Green).len(),
{
    let mut count: usize = 0;
    let mut i: usize = 0;
    while i < cs.len()
        invariant
            i <= cs@.len(),
            count == cs@.take(i as int).filter(|c: ThesisClaim| c.verification_status is Green).len(),
            count <= i,
        decreases cs@.len() - i,
    {
        proof {
            assert(cs@.take(i + 1) =~= cs@.take(i as int).push(cs@[i as int]));
            cs@.take(i as int).lemma_filter_push(cs@[i as int], |c: ThesisClaim| c.verification_status is Green);
        }
        if cs[i].verification_status.is_green() {
            count = count + 1;
        }
        i = i + 1;
    }
    proof {
        assert(cs@.take(i as int) =~= cs@);
    }
    count
}

/// Appends the report lines of one claim.
fn append_claim_lines(report: &mut String, c: &ThesisClaim)
    ensures
        final(report)@ == old(report)@ + ("  "@ + symbol_of(c.verification_status)@ + " ["@ + c.id@
            + "] "@ + c.statement@ + "\n"@ + "    Test: "@ + c.evidence_test@ + "\n"@ + (
        match c.evidence_example {
            Some(e) => "    Example: "@ + e@ + "\n"@,
            None => Seq::empty(),
        })),
{
    report.append("  ");
    report.append(c.verification_status.symbol());
    report.append(" [");
    report.append(c.id.as_str());
    report.append("] ");
    report.append(c.statement.as_str());
    report.append("\n");
    report.append("    Test: ");
    report.append(c.evidence_test.as_str());
    report.append("\n");
    let ghost mid = report@;
    match &c.evidence_example {
        Some(e) => {
            report.append("    Example: ");
            report.append(e.as_str());
            report.append("\n");
        },
        None => {},
    }
    proof {
        assert(final(report)@ =~= old(report)@ + ("  "@ + symbol_of(c.verification_status)@ + " ["@
            + c.id@ + "] "@ + c.statement@ + "\n"@ + "    Test: "@ + c.evidence_test@ + "\n"@ + (
        match c.evidence_example {
            Some(e) => "    Example: "@ + e@ + "\n"@,
            None => Seq::empty(),
        })));
    }
}

/// Appends the report section of finding `f`.
fn append_finding_section(report: &mut String, cs: &Vec<ThesisClaim>, f: &str)
    ensures
        final(report)@ == old(report)@ + finding_section(cs@, f@),
{
    let ghost mine = claims_of(cs@, f@);
    let mut count: usize = 0;
    let mut green = true;
    let mut i: usize = 0;
    while i < cs.len()
        invariant
            i <= cs@.len(),
            count == claims_of(cs@.take(i as int), f@).len(),
            count <= i,
            green == all_green(claims_of(cs@.take(i as int), f@)),
        decreases cs@.len() - i,
    {
        proof {
            assert(cs@.take(i + 1) =~= cs@.take(i as int).push(cs@[i as int]));
            cs@.take(i as int).lemma_filter_push(cs@[i as int], |c: ThesisClaim| c.finding@ == f@);
        }
        if str_equal(cs[i].finding.as_str(), f) {
            count = count + 1;
            if !cs[i].verification_status.is_green() {
                green = false;
            }
        }
        proof {
            let now = claims_of(cs@.take(i + 1), f@);
            let was = claims_of(cs@.take(i as int), f@);
            if cs@[i as int].finding@ == f@ {
                assert(now == was.push(cs@[i as int]));
                assert(green == all_green(now)) by {
                    if green {
                        assert forall|k: int| 0 <= k < now.len() implies (#[trigger] now[k]).verification_status is Green by {
                            if k < was.len() {
                                assert(now[k] == was[k]);
                            }
                        }
                    } else {
                        if !(cs@[i as int].verification_status is Green) {
                            assert(!(now[now.len() - 1].verification_status is Green));
                        } else {
                            let k = choose|k: int| 0 <= k < was.len() && !((#[trigger] was[k]).verification_status is Green);
                            assert(now[k] == was[k]);
                        }
                    }
                }
            }
        }
        i = i + 1;
    }
    proof {
        assert(cs@.take(i as int) =~= cs@);
    }
    let ghost s0 = report@;
    if green {
        report.append("✓");
    } else {
        report.append("✗");
    }
    report.append(" Finding: ");
    report.append(f);
    report.append(" (");
    append_decimal(report, count as u64);
    report.append(")\n");
    let ghost head = report@;
    proof {
        assert(mine.take(0) =~= Seq::<ThesisClaim>::empty());
        assert(head + claim_lines(Seq::<ThesisClaim>::empty()) =~= head);
    }
    let mut j: usize = 0;
    let mut seen: usize = 0;
    while j < cs.len()
        invariant
            j <= cs@.len(),
            mine == claims_of(cs@, f@),
            seen == claims_of(cs@.take(j as int), f@).len(),
            claims_of(cs@.take(j as int), f@) == mine.take(seen as int),
            seen <= mine.len(),
            report@ == head + claim_lines(mine.take(seen as int)),
        decreases cs@.len() - j,
    {
        proof {
            assert(cs@.take(j + 1) =~= cs@.take(j as int).push(cs@[j as int]));
            cs@.take(j as int).lemma_filter_push(cs@[j as int], |c: ThesisClaim| c.finding@ == f@);
        }
        if str_equal(cs[j].finding.as_str(), f) {
            proof {
                lemma_filter_prefix(cs@, f@, j as int);
                assert(mine.take(seen + 1) =~= mine.take(seen as int).push(cs@[j as int]));
                assert(mine.take(seen + 1).drop_last() =~= mine.take(seen as int));
            }
            append_claim_lines(report, &cs[j]);
            proof {
                assert(report@ =~= head + claim_lines(mine.take(seen + 1)));
            }
            seen = seen + 1;
        }
        j = j + 1;
    }
    proof {
        assert(cs@.take(j as int) =~= cs@);
        assert(mine.take(seen as int) =~= mine);
    }
    report.append("\n");
    proof {
        assert(report@ =~= s0 + finding_section(cs@, f@));
    }
}

/// The claims of a finding among a prefix are a prefix of all its claims,
/// and the next matching claim extends that prefix.
proof fn lemma_filter_prefix(cs: Seq<ThesisClaim>, f: Seq<char>, j: int)
    requires
        0 <= j < cs.len(),
        cs[j].finding@ == f,
    ensures
        claims_of(cs, f).len() > claims_of(cs.take(j), f).len(),
        claims_of(cs, f)[claims_of(cs.take(j), f).len() as int] == cs[j],
{
    let pre = cs.take(j);
    let post = cs.skip(j);
    assert(cs =~= pre + post);
    Seq::filter_distributes_over_add(pre, post, |c: ThesisClaim| c.finding@ == f);
    assert(post =~= seq![cs[j]] + post.skip(1));
    Seq::filter_distributes_over_add(seq![cs[j]], post.skip(1), |c: ThesisClaim| c.finding@ == f);
    Seq::<ThesisClaim>::empty().lemma_filter_push(cs[j], |c: ThesisClaim| c.finding@ == f);
    assert(Seq::<ThesisClaim>::empty().push(cs[j]) =~= seq![cs[j]]);
    reveal(Seq::filter);
    assert(Seq::<ThesisClaim>::empty().filter(|c: ThesisClaim| c.finding@ == f) =~= Seq::<ThesisClaim>::empty());
}

} // verus!
