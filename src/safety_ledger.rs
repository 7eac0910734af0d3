//! A ledger of the unsafe blocks of a code base, their documented
//! conditions and their verification.

use vstd::prelude::*;
use vstd::string::*;
use crate::text::{str_equal, append_decimal, append_bool, decimal, bool_text};

verus! {

/// An unsafe block with its conditions.
#[derive(Debug, Clone)]
pub struct UnsafeBlock {
    pub location: String,
    pub description: String,
    pub preconditions: Vec<String>,
    pub postconditions: Vec<String>,
    pub verified: bool,
    pub proof: Option<String>,
}

/// Whether a block is verified and documents both kinds of condition.
pub open spec fn documented(b: UnsafeBlock) -> bool {
    b.verified && b.preconditions@.len() > 0 && b.postconditions@.len() > 0
}

impl UnsafeBlock {
    pub fn new(location: &str, description: &str) -> (r: UnsafeBlock)
        ensures
            r.location@ == location@,
            r.description@ == description@,
            r.preconditions@.len() == 0,
            r.postconditions@.len() == 0,
            !r.verified,
            r.proof.is_none(),
    {
        UnsafeBlock {
            location: String::from_str(location),
            description: String::from_str(description),
            preconditions: Vec::new(),
            postconditions: Vec::new(),
            verified: false,
            proof: None,
        }
    }

    pub fn add_precondition(&mut self, condition: &str)
        ensures
            final(self).preconditions@.len() == old(self).preconditions@.len() + 1,
            final(self).preconditions@.drop_last() == old(self).preconditions@,
            final(self).preconditions@.last()@ == condition@,
            final(self).postconditions == old(self).postconditions,
            final(self).location == old(self).location,
            final(self).verified == old(self).verified,
    {
        let ghost before = self.preconditions@;
        self.preconditions.push(String::from_str(condition));
        proof {
            assert(self.preconditions@.drop_last() =~= before);
        }
    }

    pub fn add_postcondition(&mut self, condition: &str)
        ensures
            final(self).postconditions@.len() == old(self).postconditions@.len() + 1,
            final(self).postconditions@.drop_last() == old(self).postconditions@,
            final(self).postconditions@.last()@ == condition@,
            final(self).preconditions == old(self).preconditions,
            final(self).location == old(self).location,
            final(self).verified == old(self).verified,
    {
        let ghost before = self.postconditions@;
        self.postconditions.push(String::from_str(condition));
        proof {
            assert(self.postconditions@.drop_last() =~= before);
        }
    }

    /// Marks the block verified by `proof`.
    pub fn mark_verified(&mut self, proof: &str)
        ensures
            final(self).verified,
            final(self).proof matches Some(p) && p@ == proof@,
            final(self).location == old(self).location,
            final(self).description == old(self).description,
            final(self).preconditions == old(self).preconditions,
            final(self).postconditions == old(self).postconditions,
    {
        self.verified = true;
        self.proof = Some(String::from_str(proof));
    }

    /// Verified, with at least one pre- and one postcondition.
    pub fn check_invariants(&self) -> (r: bool)
        ensures
            r == documented(*self),
    {
        self.verified && self.preconditions.len() > 0 && self.postconditions.len() > 0
    }
}

/// Safety invariants of the whole code base.
#[derive(Debug, Clone, Copy, PartialEq, Eq, Structural)]
pub enum GlobalInvariant {
    NullPtrCheck,
    NoUseAfterFree,
    NoUninitialized,
    DocumentedInvariants,
}

/// The text of each global invariant.
pub open spec fn invariant_text(g: GlobalInvariant) -> &'static str {
    match g {
        GlobalInvariant::NullPtrCheck => "No null pointer dereferences",
        GlobalInvariant::NoUseAfterFree => "No use-after-free",
        GlobalInvariant::NoUninitialized => "No uninitialized memory access",
        GlobalInvariant::DocumentedInvariants => "All unsafe code documents invariants",
    }
}

impl GlobalInvariant {
    pub fn description(&self) -> (r: &'static str)
        ensures
            r == invariant_text(*self),
    {
        match self {
            GlobalInvariant::NullPtrCheck => "No null pointer dereferences",
            GlobalInvariant::NoUseAfterFree => "No use-after-free",
            GlobalInvariant::NoUninitialized => "No uninitialized memory access",
            GlobalInvariant::DocumentedInvariants => "All unsafe code documents invariants",
        }
    }
}

/// The ledger: one block per location, in order of first registration.
#[derive(Debug, Clone)]
pub struct SafetyLedger {
    pub unsafe_blocks: Vec<UnsafeBlock>,
    pub global_invariants: Vec<GlobalInvariant>,
    pub all_verified: bool,
}

/// Lines listing conditions, one `    - ` line each.
pub open spec fn condition_lines(cs: Seq<String>) -> Seq<char>
    decreases cs.len(),
{
    if cs.len() == 0 {
        Seq::empty()
    } else {
        condition_lines(cs.drop_last()) + "    - "@ + cs.last()@ + "\n"@
    }
}

/// The first lines of a block's report section.
pub open spec fn block_head(b: UnsafeBlock) -> Seq<char> {
    "Location: "@ + b.location@ + "\n"@ + "  Description: "@ + b.description@ + "\n"@
        + "  Verified: "@ + bool_text(b.verified) + "\n"@
}

/// The precondition lines of a block's report section.
pub open spec fn block_pre(b: UnsafeBlock) -> Seq<char> {
    if b.preconditions@.len() > 0 {
        "  Preconditions:\n"@ + condition_lines(b.preconditions@)
    } else {
        Seq::empty()
    }
}

/// The postcondition lines of a block's report section.
pub open spec fn block_post(b: UnsafeBlock) -> Seq<char> {
    if b.postconditions@.len() > 0 {
        "  Postconditions:\n"@ + condition_lines(b.postconditions@)
    } else {
        Seq::empty()
    }
}

/// The proof line of a block's report section.
pub open spec fn block_proof(b: UnsafeBlock) -> Seq<char> {
    match b.proof {
        Some(p) => "  Proof: "@ + p@ + "\n"@,
        None => Seq::empty(),
    }
}

/// The report section of one block.
pub open spec fn block_section(b: UnsafeBlock) -> Seq<char> {
    block_head(b) + block_pre(b) + block_post(b) + block_proof(b) + "\n"@
}

/// The report sections of blocks, in order.
pub open spec fn block_sections(bs: Seq<UnsafeBlock>) -> Seq<char>
    decreases bs.len(),
{
    if bs.len() == 0 {
        Seq::empty()
    } else {
        block_sections(bs.drop_last()) + block_section(bs.last())
    }
}

/// The report lines of the global invariants.
pub open spec fn invariant_lines(gs: Seq<GlobalInvariant>, holds: bool) -> Seq<char>
    decreases gs.len(),
{
    if gs.len() == 0 {
        Seq::empty()
    } else {
        invariant_lines(gs.drop_last(), holds) + invariant_text(gs.last())@ + ": "@ + bool_text(
            holds,
        ) + "\n"@
    }
}

/// Number of verified blocks.
pub open spec fn verified_in(bs: Seq<UnsafeBlock>) -> nat {
    bs.filter(|b: UnsafeBlock| b.verified).len()
}

/// Appends the first lines of a block's report section.
fn append_block_head(report: &mut String, block: &UnsafeBlock)
    ensures
        final(report)@ == old(report)@ + block_head(*block),
{
    report.append("Location: ");
    report.append(block.location.as_str());
    report.append("\n");
    report.append("  Description: ");
    report.append(block.description.as_str());
    report.append("\n");
    report.append("  Verified: ");
    append_bool(report, block.verified);
    report.append("\n");
    proof {
        assert(final(report)@ =~= old(report)@ + block_head(*block));
    }
}

/// Appends the report section of a block.
fn append_block_section(report: &mut String, block: &UnsafeBlock)
    ensures
        final(report)@ == old(report)@ + block_section(*block),
{
    let ghost s0 = report@;
    append_block_head(report, block);
    let ghost s1 = report@;
    if block.preconditions.len() > 0 {
        report.append("  Preconditions:\n");
        append_conditions(report, &block.preconditions);
    }
    let ghost s2 = report@;
    proof {
        assert(s2 =~= s1 + block_pre(*block));
    }
    if block.postconditions.len() > 0 {
        report.append("  Postconditions:\n");
        append_conditions(report, &block.postconditions);
    }
    let ghost s3 = report@;
    proof {
        assert(s3 =~= s2 + block_post(*block));
    }
    match &block.proof {
        Some(p) => {
            report.append("  Proof: ");
            report.append(p.as_str());
            report.append("\n");
        },
        None => {},
    }
    let ghost s4 = report@;
    proof {
        assert(s4 =~= s3 + block_proof(*block));
    }
    report.append("\n");
    proof {
        assert(report@ =~= s0 + block_section(*block));
    }
}

/// Appends the `    - ` lines of conditions.
fn append_conditions(report: &mut String, cs: &Vec<String>)
    ensures
        final(report)@ == old(report)@ + condition_lines(cs@),
{
    let mut i: usize = 0;
    proof {
        assert(cs@.take(0) =~= Seq::<String>::empty());
        assert(old(report)@ + condition_lines(Seq::<String>::empty()) =~= old(report)@);
    }
    while i < cs.len()
        invariant
            i <= cs@.len(),
            report@ == old(report)@ + condition_lines(cs@.take(i as int)),
        decreases cs@.len() - i,
    {
        proof {
            assert(cs@.take(i + 1).drop_last() =~= cs@.take(i as int));
        }
        report.append("    - ");
        report.append(cs[i].as_str());
        report.append("\n");
        proof {
            assert(report@ =~= old(report)@ + condition_lines(cs@.take(i + 1)));
        }
        i = i + 1;
    }
    proof {
        assert(cs@.take(i as int) =~= cs@);
    }
}

impl SafetyLedger {
    pub fn new() -> (r: SafetyLedger)
        ensures
            r.unsafe_blocks@.len() == 0,
            r.global_invariants@ == seq![
                GlobalInvariant::NullPtrCheck,
                GlobalInvariant::NoUseAfterFree,
                GlobalInvariant::NoUninitialized,
                GlobalInvariant::DocumentedInvariants,
            ],
            !r.all_verified,
    {
        let invariants = vec![
            GlobalInvariant::NullPtrCheck,
            GlobalInvariant::NoUseAfterFree,
            GlobalInvariant::NoUninitialized,
            GlobalInvariant::DocumentedInvariants,
        ];
        proof {
            assert(invariants@ =~= seq![
                GlobalInvariant::NullPtrCheck,
                GlobalInvariant::NoUseAfterFree,
                GlobalInvariant::NoUninitialized,
                GlobalInvariant::DocumentedInvariants,
            ]);
        }
        SafetyLedger { unsafe_blocks: Vec::new(), global_invariants: invariants, all_verified: false }
    }

    /// Position of the block at `location`.
    fn position_of(&self, location: &str) -> (r: Option<usize>)
        ensures
            r.is_none() ==> forall|k: int|
                0 <= k < self.unsafe_blocks@.len() ==> (#[trigger] self.unsafe_blocks@[k]).location@
                    != location@,
            r matches Some(i) ==> i < self.unsafe_blocks@.len()
                && self.unsafe_blocks@[i as int].location@ == location@,
    {
        let mut i: usize = 0;
        while i < self.unsafe_blocks.len()
            invariant
                i <= self.unsafe_blocks@.len(),
                forall|k: int| 0 <= k < i ==> (#[trigger] self.unsafe_blocks@[k]).location@ != location@,
            decreases self.unsafe_blocks@.len() - i,
        {
            if str_equal(self.unsafe_blocks[i].location.as_str(), location) {
                return Some(i);
            }
            i = i + 1;
        }
        None
    }

    /// Records `block`, replacing a block registered at the same location.
    pub fn register_unsafe_block(&mut self, block: UnsafeBlock)
        ensures
            (exists|k: int|
                0 <= k < old(self).unsafe_blocks@.len() && (#[trigger] old(self).unsafe_blocks@[k]).location@ == block.location@ && final(self).unsafe_blocks@
                    == old(self).unsafe_blocks@.update(k, block)) || ((forall|k: int|
                0 <= k < old(self).unsafe_blocks@.len() ==> (#[trigger] old(self).unsafe_blocks@[k]).location@ != block.location@) && final(self).unsafe_blocks@
                == old(self).unsafe_blocks@.push(block)),
            final(self).global_invariants == old(self).global_invariants,
            final(self).all_verified == old(self).all_verified,
    {
        match self.position_of(block.location.as_str()) {
            Some(i) => {
                self.unsafe_blocks.set(i, block);
            },
            None => {
                self.unsafe_blocks.push(block);
            },
        }
    }

    /// The block at `location`.
    pub fn get_unsafe_block(&self, location: &str) -> (r: Option<&UnsafeBlock>)
        ensures
            r.is_none() ==> forall|k: int|
                0 <= k < self.unsafe_blocks@.len() ==> (#[trigger] self.unsafe_blocks@[k]).location@
                    != location@,
            r matches Some(b) ==> exists|k: int|
                0 <= k < self.unsafe_blocks@.len() && *b == #[trigger] self.unsafe_blocks@[k]
                    && b.location@ == location@,
    {
        match self.position_of(location) {
            Some(i) => Some(&self.unsafe_blocks[i]),
            None => None,
        }
    }

    /// The block at `location`, to change in place.
    pub fn get_unsafe_block_mut(&mut self, location: &str) -> (r: Option<&mut UnsafeBlock>)
        ensures
            r.is_none() ==> final(self).unsafe_blocks == old(self).unsafe_blocks && forall|k: int|
                0 <= k < old(self).unsafe_blocks@.len() ==> (#[trigger] old(self).unsafe_blocks@[k]).location@
                    != location@,
            r matches Some(b) ==> exists|k: int|
                0 <= k < old(self).unsafe_blocks@.len() && *b == #[trigger] old(self).unsafe_blocks@[k]
                    && b.location@ == location@ && final(self).unsafe_blocks@ == old(self).unsafe_blocks@.update(k, *final(b)),
            final(self).global_invariants == old(self).global_invariants,
            final(self).all_verified == old(self).all_verified,
    {
        match self.position_of(location) {
            Some(i) => Some(&mut self.unsafe_blocks[i]),
            None => None,
        }
    }

    /// Marks the block at `location` verified by `proof`; false when there
    /// is none.
    pub fn verify_unsafe_block(&mut self, location: &str, proof: &str) -> (r: bool)
        ensures
            r == exists|k: int|
                0 <= k < old(self).unsafe_blocks@.len() && (#[trigger] old(self).unsafe_blocks@[k]).location@ == location@,
            final(self).unsafe_blocks@.len() == old(self).unsafe_blocks@.len(),
            r ==> exists|k: int|
                0 <= k < old(self).unsafe_blocks@.len() && (#[trigger] old(self).unsafe_blocks@[k]).location@ == location@ && final(self).unsafe_blocks@[k].verified
                    && (forall|j: int|
                    0 <= j < old(self).unsafe_blocks@.len() && j != k ==> final(self).unsafe_blocks@[j] == old(self).unsafe_blocks@[j]),
            !r ==> final(self).unsafe_blocks == old(self).unsafe_blocks,
            final(self).global_invariants == old(self).global_invariants,
            final(self).all_verified == old(self).all_verified,
    {
        match self.position_of(location) {
            Some(i) => {
                self.unsafe_blocks[i].mark_verified(proof);
                true
            },
            None => false,
        }
    }

    /// Whether every block is verified.
    pub fn check_all_verified(&self) -> (r: bool)
        ensures
            r == forall|k: int|
                0 <= k < self.unsafe_blocks@.len() ==> (#[trigger] self.unsafe_blocks@[k]).verified,
    {
        let mut i: usize = 0;
        while i < self.unsafe_blocks.len()
            invariant
                i <= self.unsafe_blocks@.len(),
                forall|k: int| 0 <= k < i ==> (#[trigger] self.unsafe_blocks@[k]).verified,
            decreases self.unsafe_blocks@.len() - i,
        {
            if !self.unsafe_blocks[i].verified {
                return false;
            }
            i = i + 1;
        }
        true
    }

    /// Whether every block is verified and documents its conditions; the
    /// answer is kept as `all_verified`.
    pub fn check_global_invariants(&mut self) -> (r: bool)
        ensures
            r == forall|k: int|
                0 <= k < old(self).unsafe_blocks@.len() ==> documented(
                    #[trigger] old(self).unsafe_blocks@[k],
                ),
            final(self).all_verified == r,
            final(self).unsafe_blocks == old(self).unsafe_blocks,
            final(self).global_invariants == old(self).global_invariants,
    {
        let mut all = true;
        let mut i: usize = 0;
        while i < self.unsafe_blocks.len()
            invariant
                i <= self.unsafe_blocks@.len(),
                all == forall|k: int| 0 <= k < i ==> documented(#[trigger] self.unsafe_blocks@[k]),
            decreases self.unsafe_blocks@.len() - i,
        {
            if !self.unsafe_blocks[i].check_invariants() {
                all = false;
            }
            i = i + 1;
        }
        self.all_verified = all;
        all
    }

    pub fn unsafe_blocks(&self) -> (r: &[UnsafeBlock])
        ensures
            r@ == self.unsafe_blocks@,
    {
        self.unsafe_blocks.as_slice()
    }

    /// Number of verified blocks.
    pub fn verified_count(&self) -> (r: usize)
        ensures
            r == verified_in(self.unsafe_blocks@),
    {
        let mut count: usize = 0;
        let mut i: usize = 0;
        while i < self.unsafe_blocks.len()
            invariant
                i <= self.unsafe_blocks@.len(),
                count == verified_in(self.unsafe_blocks@.take(i as int)),
                count <= i,
            decreases self.unsafe_blocks@.len() - i,
        {
            proof {
                assert(self.unsafe_blocks@.take(i + 1) =~= self.unsafe_blocks@.take(i as int).push(
                    self.unsafe_blocks@[i as int],
                ));
                self.unsafe_blocks@.take(i as int).lemma_filter_push(
                    self.unsafe_blocks@[i as int],
                    |b: UnsafeBlock| b.verified,
                );
            }
            if self.unsafe_blocks[i].verified {
                count = count + 1;
            }
            i = i + 1;
        }
        proof {
            assert(self.unsafe_blocks@.take(i as int) =~= self.unsafe_blocks@);
        }
        count
    }

    /// The audit report: counts, each block in order with its conditions
    /// and proof, and each global invariant with the last answer of
    /// `check_global_invariants`.
    pub fn audit_report(&self) -> (r: String)
        ensures
            r@ == "=== FFI Safety Audit Report ===\n\n"@ + "Total unsafe blocks: "@ + decimal(
                self.unsafe_blocks@.len(),
            ) + "\n"@ + "Verified blocks: "@ + decimal(verified_in(self.unsafe_blocks@)) + "/"@
                + decimal(self.unsafe_blocks@.len()) + "\n"@ + "All invariants hold: "@ + bool_text(
                self.all_verified,
            ) + "\n\n"@ + "--- Unsafe Blocks ---\n"@ + block_sections(self.unsafe_blocks@)
                + "--- Global Invariants ---\n"@ + invariant_lines(
                self.global_invariants@,
                self.all_verified,
            ),
    {
        let mut report = String::from_str("=== FFI Safety Audit Report ===\n\n");
        let n = self.unsafe_blocks.len();
        report.append("Total unsafe blocks: ");
        append_decimal(&mut report, n as u64);
        report.append("\n");
        report.append("Verified blocks: ");
        append_decimal(&mut report, self.verified_count() as u64);
        report.append("/");
        append_decimal(&mut report, n as u64);
        report.append("\n");
        report.append("All invariants hold: ");
        append_bool(&mut report, self.all_verified);
        report.append("\n\n");
        report.append("--- Unsafe Blocks ---\n");
        let ghost head = report@;
        let mut i: usize = 0;
        proof {
            assert(self.unsafe_blocks@.take(0) =~= Seq::<UnsafeBlock>::empty());
            assert(head + block_sections(Seq::<UnsafeBlock>::empty()) =~= head);
        }
        while i < n
            invariant
                n == self.unsafe_blocks@.len(),
                i <= n,
                report@ == head + block_sections(self.unsafe_blocks@.take(i as int)),
            decreases n - i,
        {
            let block = &self.unsafe_blocks[i];
            append_block_section(&mut report, block);
            proof {
                assert(self.unsafe_blocks@.take(i + 1).drop_last() =~= self.unsafe_blocks@.take(
                    i as int,
                ));
                assert(report@ =~= head + block_sections(self.unsafe_blocks@.take(i + 1)));
            }
            i = i + 1;
        }
        proof {
            assert(self.unsafe_blocks@.take(i as int) =~= self.unsafe_blocks@);
        }
        report.append("--- Global Invariants ---\n");
        let ghost mid = report@;
        let mut j: usize = 0;
        proof {
            assert(self.global_invariants@.take(0) =~= Seq::<GlobalInvariant>::empty());
            assert(mid + invariant_lines(Seq::<GlobalInvariant>::empty(), self.all_verified) =~= mid);
        }
        while j < self.global_invariants.len()
            invariant
                j <= self.global_invariants@.len(),
                report@ == mid + invariant_lines(
                    self.global_invariants@.take(j as int),
                    self.all_verified,
                ),
            decreases self.global_invariants@.len() - j,
        {
            let ghost before = report@;
            report.append(self.global_invariants[j].description());
            report.append(": ");
            append_bool(&mut report, self.all_verified);
            report.append("\n");
            proof {
                assert(self.global_invariants@.take(j + 1).drop_last() =~= self.global_invariants@.take(
                    j as int,
                ));
                assert(report@ =~= mid + invariant_lines(
                    self.global_invariants@.take(j + 1),
                    self.all_verified,
                ));
            }
            j = j + 1;
        }
        proof {
            assert(self.global_invariants@.take(j as int) =~= self.global_invariants@);
        }
        report
    }
}

} // verus!
