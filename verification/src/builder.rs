use vstd::prelude::*;

use crate::pattern::{ascii_bytes, spec_split_regex, split_regex, PatternSyntaxError};
use crate::plan::{
    assign_plan, fill_count, plan_assignment, prefix_len, regions_view, RegionModel, RegionPlan,
    SynthesisError,
};
use crate::RegexCheckConfigParams;
use halo2_proofs::pasta::Fp;
use halo2_proofs::plonk::{Advice, Column, ConstraintSystem, Selector};

verus! {

#[verifier::external_type_specification]
#[verifier::external_body]
pub struct ExSelector(Selector);

/// A mutable borrow of halo2_proofs' ConstraintSystem over the pasta base
/// field, held opaquely: the generic bounds of the type itself cannot be
/// declared here, so unverified callers build this handle around the
/// borrow the proving framework hands them, and the trusted wrappers
/// below are the only operations the verified builder performs on it.
#[verifier::external_body]
pub struct ConstraintSystemRef<'a> {
    pub inner: &'a mut ConstraintSystem<Fp>,
}

/// An advice column of the constraint system, held opaquely for
/// the same reason; unverified executors read `inner` back out of it.
#[verifier::external_body]
pub struct AdviceColumn {
    pub inner: Column<Advice>,
}

/// Relies on halo2_proofs' ConstraintSystem::selector: allocates a fresh
/// simple selector in the constraint system.
#[verifier::external_body]
fn fresh_selector(meta: &mut ConstraintSystemRef<'_>) -> Selector {
    meta.inner.selector()
}

/// Relies on halo2_proofs' ConstraintSystem::advice_column: allocates a
/// fresh advice column in the constraint system.
#[verifier::external_body]
fn fresh_advice_column(meta: &mut ConstraintSystemRef<'_>) -> AdviceColumn {
    AdviceColumn { inner: meta.inner.advice_column() }
}

/// Relies on halo2_proofs' ConstraintSystem::create_gate: registers one
/// gate holding the single membership constraint
/// `value * (m_0 - value) * ... * (m_k - value)` over the section's
/// allowed bytes `m_0 .. m_k`, where `value` is the given column queried
/// at the current rotation, enabled by the given selector. Exactly one
/// constraint is passed, so `create_gate` cannot panic.
#[verifier::external_body]
fn register_membership_gate(
    meta: &mut ConstraintSystemRef<'_>,
    selector: &Selector,
    column: &AdviceColumn,
    allowed: &Vec<u8>,
) {
    let selector = *selector;
    let column = column.inner;
    meta.inner.create_gate("range check", |meta| {
        let q = meta.query_selector(selector);
        let value = meta.query_advice(column, halo2_proofs::poly::Rotation::cur());
        let range_check = allowed.iter().fold(value.clone(), |expr, m| {
            expr * (halo2_proofs::plonk::Expression::Constant(Fp::from(*m as u64)) - value.clone())
        });
        halo2_proofs::plonk::Constraints::with_selector(q, [("range check", range_check)])
    });
}

/// One compiled section together with its advice column and enabling
/// selector. Holding the three in one record keeps section, column and
/// gate aligned by construction.
pub struct SectionGate {
    pub column: AdviceColumn,
    pub selector: Selector,
    pub allowed: Vec<u8>,
}

/// The configured regex check circuit: one `SectionGate` per compiled
/// section, in pattern order. The order is part of the public contract —
/// the witness assigner fills columns in the same order.
pub struct RegexCheckConfig {
    pub gates: Vec<SectionGate>,
}

impl RegexCheckConfig {
    /// The ordered allowed-byte sets of the compiled sections.
    pub open spec fn sections(&self) -> Seq<Seq<u8>> {
        Seq::new(self.gates@.len(), |i: int| self.gates@[i].allowed@)
    }

    /// Well-formed configuration: every section is a non-empty set of
    /// allowed bytes.
    pub open spec fn wf(&self) -> bool {
        forall|i: int| 0 <= i < self.gates@.len() ==> #[trigger] self.gates@[i].allowed@.len() > 0
    }

    /// Compiles the pattern of `params` and allocates one advice column,
    /// one selector and one membership gate per section, in pattern order.
    /// A malformed pattern is rejected before any column or gate is
    /// allocated.
    pub fn configure(meta: &mut ConstraintSystemRef<'_>, params: &RegexCheckConfigParams) -> (r:
        Result<Self, PatternSyntaxError>)
        requires
            vstd::utf8::is_ascii_chars(params.regex@),
        ensures
            match r {
                Ok(c) => spec_split_regex(ascii_bytes(params.regex@)) == Ok::<
                    Seq<Seq<u8>>,
                    PatternSyntaxError,
                >(c.sections()) && c.wf(),
                Err(e) => spec_split_regex(ascii_bytes(params.regex@)) == Err::<
                    Seq<Seq<u8>>,
                    PatternSyntaxError,
                >(e),
            },
    {
        let sections: Vec<Vec<u8>> = match split_regex(params.regex.clone()) {
            Ok(s) => s,
            Err(e) => {
                return Err(e);
            },
        };
        let ghost gsections = sections.deep_view();
        let n = sections.len();
        let mut gates: Vec<SectionGate> = Vec::new();
        let mut i: usize = 0;
        while i < n
            invariant
                i <= n == sections@.len(),
                gsections == sections.deep_view(),
                gates@.len() == i,
                forall|t: int| 0 <= t < i ==> #[trigger] gates@[t].allowed@ == gsections[t],
            decreases n - i,
        {
            let selector = fresh_selector(meta);
            let column = fresh_advice_column(meta);
            let src: &Vec<u8> = vstd::std_specs::vec::vec_index(&sections, i);
            let m = src.len();
            let mut allowed: Vec<u8> = Vec::new();
            let mut j: usize = 0;
            while j < m
                invariant
                    j <= m == src@.len(),
                    allowed@ =~= src@.take(j as int),
                decreases m - j,
            {
                allowed.push(*vstd::std_specs::vec::vec_index(src, j));
                j = j + 1;
            }
            proof {
                assert(allowed@ =~= src@);
                assert(gsections[i as int] =~= src@);
            }
            register_membership_gate(meta, &selector, &column, &allowed);
            gates.push(SectionGate { column, selector, allowed });
            i = i + 1;
        }
        let config = RegexCheckConfig { gates };
        proof {
            assert(config.sections() =~= gsections);
            assert(spec_split_regex(ascii_bytes(params.regex@)) == Ok::<
                Seq<Seq<u8>>,
                PatternSyntaxError,
            >(config.sections()));
            crate::pattern::lemma_split_regex_sections_nonempty(ascii_bytes(params.regex@));
            assert forall|t: int|
                0 <= t < config.gates@.len() implies #[trigger] config.gates@[t].allowed@.len()
                > 0 by {
                let secs = spec_split_regex(ascii_bytes(params.regex@))->Ok_0;
                assert(secs == config.sections());
                assert(secs[t].len() > 0);
                assert(config.sections()[t] == config.gates@[t].allowed@);
            }
            assert(config.wf());
        }
        Ok(config)
    }

    /// Plans the witness assignment against this configuration: default
    /// mode with one sentinel-zero row per section when `converted_input`
    /// is empty, fill mode with truncation of excess segments otherwise,
    /// exactly as `assign_plan` describes. Fails with a synthesis error
    /// when the plan's last region would write nothing.
    pub fn assign(&self, converted_input: Vec<Vec<u64>>) -> (r: Result<
        Vec<RegionPlan>,
        SynthesisError,
    >)
        requires
            converted_input@.len() > 0 ==> prefix_len(
                converted_input.deep_view(),
                fill_count(self.gates@.len() as int, converted_input.deep_view()),
            ) <= usize::MAX,
        ensures
            match r {
                Ok(v) => assign_plan(self.gates@.len() as int, converted_input.deep_view()) == Ok::<
                    Seq<RegionModel>,
                    SynthesisError,
                >(regions_view(v@)),
                Err(e) => assign_plan(self.gates@.len() as int, converted_input.deep_view())
                    == Err::<Seq<RegionModel>, SynthesisError>(e),
            },
    {
        plan_assignment(self.gates.len(), &converted_input)
    }

    /// Decides whether an assignment plan satisfies every membership gate
    /// of this configuration: the verdict the proving framework reaches on
    /// the assigned rows.
    pub fn check_plan(&self, regions: &Vec<RegionPlan>) -> (r: bool)
        ensures
            r == crate::plan::plan_ok(self.sections(), regions_view(regions@)),
    {
        let n = self.gates.len();
        let ghost gsections = self.sections();
        let mut sections: Vec<Vec<u8>> = Vec::new();
        let mut i: usize = 0;
        while i < n
            invariant
                i <= n == self.gates@.len(),
                sections@.len() == i,
                gsections == self.sections(),
                forall|t: int| 0 <= t < i ==> #[trigger] sections@[t]@ == gsections[t],
            decreases n - i,
        {
            let src: &Vec<u8> = &vstd::std_specs::vec::vec_index(&self.gates, i).allowed;
            let m = src.len();
            let mut allowed: Vec<u8> = Vec::new();
            let mut j: usize = 0;
            while j < m
                invariant
                    j <= m == src@.len(),
                    allowed@ =~= src@.take(j as int),
                decreases m - j,
            {
                allowed.push(*vstd::std_specs::vec::vec_index(src, j));
                j = j + 1;
            }
            proof {
                assert(allowed@ =~= src@);
            }
            sections.push(allowed);
            i = i + 1;
        }
        proof {
            assert(sections.deep_view() =~~= gsections);
        }
        crate::plan::check_plan(&sections, regions)
    }
}

} // verus!
