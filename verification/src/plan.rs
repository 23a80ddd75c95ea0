use vstd::prelude::*;

use crate::gate::row_ok;

verus! {

/// Assignment failed to produce any assigned cell: there were no sections
/// to fill in default mode, or the last processed segment wrote nothing.
#[derive(Clone, Copy, Debug, PartialEq, Eq, Structural)]
pub enum SynthesisError {
    Synthesis,
}

/// Mathematical model of one region of the assignment: the section whose
/// gate is enabled, the first row of the region, and the witnessed values,
/// one per consecutive row starting at `offset`.
pub struct RegionModel {
    pub section: int,
    pub offset: int,
    pub values: Seq<u64>,
}

/// One region of an assignment plan: within it, rows are contiguous from
/// `offset`, section `section_index`'s gate is enabled at each row,
/// and `values` are written to that section's column in order.
pub struct RegionPlan {
    pub section_index: usize,
    pub offset: usize,
    pub values: Vec<u64>,
}

impl View for RegionPlan {
    type V = RegionModel;

    open spec fn view(&self) -> RegionModel {
        RegionModel {
            section: self.section_index as int,
            offset: self.offset as int,
            values: self.values@,
        }
    }
}

pub open spec fn regions_view(rs: Seq<RegionPlan>) -> Seq<RegionModel> {
    Seq::new(rs.len(), |i: int| rs[i]@)
}

/// The number of rows the first `i` segments occupy.
pub open spec fn prefix_len(segs: Seq<Seq<u64>>, i: int) -> int
    decreases i,
{
    if i <= 0 {
        0
    } else {
        prefix_len(segs, i - 1) + segs[i - 1].len()
    }
}

pub proof fn lemma_prefix_len_mono(segs: Seq<Seq<u64>>, i: int, k: int)
    requires
        i <= k,
    ensures
        prefix_len(segs, i) <= prefix_len(segs, k),
    decreases k - i,
{
    if i < k {
        lemma_prefix_len_mono(segs, i, k - 1);
    }
}

/// `prefix_len` reads only the first `i` segments.
pub proof fn lemma_prefix_len_take(segs: Seq<Seq<u64>>, n: int, i: int)
    requires
        0 <= i <= n <= segs.len(),
    ensures
        prefix_len(segs, i) == prefix_len(segs.take(n), i),
    decreases i,
{
    if i > 0 {
        lemma_prefix_len_take(segs, n, i - 1);
    }
}

/// The default-mode plan: one zero-valued, gate-enabled row per section,
/// at consecutive offsets.
pub open spec fn default_plan(n_sections: int) -> Seq<RegionModel> {
    Seq::new(
        n_sections as nat,
        |i: int| RegionModel { section: i, offset: i, values: seq![0u64] },
    )
}

/// The fill-mode plan for the first `k` segments: segment `i` fills
/// section `i`, at rows contiguous from the end of segment `i - 1`.
pub open spec fn fill_plan(segs: Seq<Seq<u64>>, k: int) -> Seq<RegionModel> {
    Seq::new(
        k as nat,
        |i: int| RegionModel { section: i, offset: prefix_len(segs, i), values: segs[i] },
    )
}

/// The number of sections that receive a segment in fill mode: segments
/// beyond the compiled sections are truncated.
pub open spec fn fill_count(n_sections: int, segs: Seq<Seq<u64>>) -> int {
    if segs.len() < n_sections {
        segs.len() as int
    } else {
        n_sections
    }
}

/// What the witness assigner does with `n_sections` compiled sections and
/// the given segments. With no segments at all it assigns the sentinel
/// zero once per section (default mode); otherwise it fills sections with
/// segments in order, ignoring excess segments. It fails exactly when the
/// last region it would process writes nothing: no sections in default
/// mode, or an empty final segment in fill mode.
pub open spec fn assign_plan(n_sections: int, segs: Seq<Seq<u64>>) -> Result<
    Seq<RegionModel>,
    SynthesisError,
> {
    if segs.len() == 0 {
        if n_sections <= 0 {
            Err(SynthesisError::Synthesis)
        } else {
            Ok(default_plan(n_sections))
        }
    } else {
        let k = fill_count(n_sections, segs);
        if k <= 0 {
            Err(SynthesisError::Synthesis)
        } else if segs[k - 1].len() == 0 {
            Err(SynthesisError::Synthesis)
        } else {
            Ok(fill_plan(segs, k))
        }
    }
}

/// One region satisfies the constraint system: its section exists, and
/// every value it writes is accepted by that section's gate.
pub open spec fn region_ok(sections: Seq<Seq<u8>>, r: RegionModel) -> bool {
    &&& 0 <= r.section < sections.len()
    &&& forall|j: int| 0 <= j < r.values.len() ==> row_ok(sections[r.section], #[trigger] r.values[j])
}

/// Every region of the plan satisfies its gate: this is exactly what the
/// proving framework checks at verification time.
pub open spec fn plan_ok(sections: Seq<Seq<u8>>, regions: Seq<RegionModel>) -> bool {
    forall|i: int| 0 <= i < regions.len() ==> region_ok(sections, #[trigger] regions[i])
}

/// Computes the assignment plan for `n_sections` compiled sections and the
/// given per-section segments, exactly as `assign_plan` describes: default
/// mode when `converted_input` is empty, fill mode with truncation of
/// excess segments otherwise.
pub fn plan_assignment(n_sections: usize, converted_input: &Vec<Vec<u64>>) -> (r: Result<
    Vec<RegionPlan>,
    SynthesisError,
>)
    requires
        converted_input@.len() > 0 ==> prefix_len(
            converted_input.deep_view(),
            fill_count(n_sections as int, converted_input.deep_view()),
        ) <= usize::MAX,
    ensures
        match r {
            Ok(v) => assign_plan(n_sections as int, converted_input.deep_view()) == Ok::<
                Seq<RegionModel>,
                SynthesisError,
            >(regions_view(v@)),
            Err(e) => assign_plan(n_sections as int, converted_input.deep_view()) == Err::<
                Seq<RegionModel>,
                SynthesisError,
            >(e),
        },
{
    let ghost segs = converted_input.deep_view();
    if converted_input.len() == 0 {
        if n_sections == 0 {
            return Err(SynthesisError::Synthesis);
        }
        let mut regions: Vec<RegionPlan> = Vec::new();
        let mut i: usize = 0;
        while i < n_sections
            invariant
                i <= n_sections,
                regions@.len() == i,
                forall|t: int| 0 <= t < i ==> #[trigger] regions@[t]@ == default_plan(
                    n_sections as int,
                )[t],
            decreases n_sections - i,
        {
            let mut vals: Vec<u64> = Vec::new();
            vals.push(0);
            proof {
                assert(vals@ =~= seq![0u64]);
            }
            regions.push(RegionPlan { section_index: i, offset: i, values: vals });
            i = i + 1;
        }
        proof {
            assert(regions_view(regions@) =~= default_plan(n_sections as int));
        }
        Ok(regions)
    } else {
        let k = if converted_input.len() < n_sections {
            converted_input.len()
        } else {
            n_sections
        };
        proof {
            assert(k as int == fill_count(n_sections as int, segs));
        }
        if k == 0 {
            return Err(SynthesisError::Synthesis);
        }
        let last_seg: &Vec<u64> = vstd::std_specs::vec::vec_index(converted_input, k - 1);
        if last_seg.len() == 0 {
            proof {
                assert(segs[k - 1int] =~= Seq::<u64>::empty());
            }
            return Err(SynthesisError::Synthesis);
        }
        let mut regions: Vec<RegionPlan> = Vec::new();
        let mut offset: usize = 0;
        let mut i: usize = 0;
        while i < k
            invariant
                i <= k,
                k as int == fill_count(n_sections as int, segs),
                k <= converted_input@.len(),
                segs == converted_input.deep_view(),
                converted_input@.len() == segs.len(),
                prefix_len(segs, k as int) <= usize::MAX,
                offset == prefix_len(segs, i as int),
                regions@.len() == i,
                forall|t: int| 0 <= t < i ==> #[trigger] regions@[t]@ == fill_plan(segs, k as int)[t],
            decreases k - i,
        {
            let seg: &Vec<u64> = vstd::std_specs::vec::vec_index(converted_input, i);
            let len = seg.len();
            proof {
                assert(segs[i as int] =~= seg@);
                lemma_prefix_len_mono(segs, i as int + 1, k as int);
            }
            let mut vals: Vec<u64> = Vec::new();
            let mut j: usize = 0;
            while j < len
                invariant
                    j <= len,
                    len == seg@.len(),
                    vals@ =~= seg@.take(j as int),
                decreases len - j,
            {
                vals.push(*vstd::std_specs::vec::vec_index(seg, j));
                j = j + 1;
            }
            proof {
                assert(vals@ =~= seg@);
            }
            regions.push(RegionPlan { section_index: i, offset, values: vals });
            offset = offset + len;
            i = i + 1;
        }
        proof {
            assert(regions_view(regions@) =~= fill_plan(segs, k as int));
        }
        Ok(regions)
    }
}

/// Decides whether a plan satisfies every gate of the compiled sections:
/// the verdict the proving framework reaches on the assigned rows.
pub fn check_plan(sections: &Vec<Vec<u8>>, regions: &Vec<RegionPlan>) -> (r: bool)
    ensures
        r == plan_ok(sections.deep_view(), regions_view(regions@)),
{
    let ghost gsections = sections.deep_view();
    let ghost gregions = regions_view(regions@);
    let n = regions.len();
    let mut i: usize = 0;
    while i < n
        invariant
            i <= n == regions@.len(),
            gsections == sections.deep_view(),
            gregions == regions_view(regions@),
            forall|t: int| 0 <= t < i ==> region_ok(gsections, #[trigger] gregions[t]),
        decreases n - i,
    {
        let region: &RegionPlan = vstd::std_specs::vec::vec_index(regions, i);
        if region.section_index >= sections.len() {
            assert(!region_ok(gsections, gregions[i as int]));
            return false;
        }
        let allowed: &Vec<u8> = vstd::std_specs::vec::vec_index(sections, region.section_index);
        proof {
            assert(gsections[region.section_index as int] =~= allowed@);
        }
        let m = region.values.len();
        let mut j: usize = 0;
        while j < m
            invariant
                j <= m == region.values@.len(),
                i < n == gregions.len(),
                gsections == sections.deep_view(),
                gregions == regions_view(regions@),
                (region.section_index as int) < gsections.len(),
                allowed@ == gsections[region.section_index as int],
                gregions[i as int].values == region.values@,
                gregions[i as int].section == region.section_index as int,
                forall|t: int| 0 <= t < j ==> row_ok(
                    gsections[region.section_index as int],
                    #[trigger] region.values@[t],
                ),
            decreases m - j,
        {
            let v = *vstd::std_specs::vec::vec_index(&region.values, j);
            if !crate::gate::row_satisfied(allowed, v) {
                assert(!region_ok(gsections, gregions[i as int]));
                return false;
            }
            j = j + 1;
        }
        assert(region_ok(gsections, gregions[i as int]));
        i = i + 1;
    }
    true
}

/// Law: supplying more segments than compiled sections is not an error;
/// the excess segments are ignored, so the plan — and with it the
/// satisfaction of every assigned row — is the same as for the truncated
/// input.
pub proof fn lemma_truncation(n_sections: int, segs: Seq<Seq<u64>>)
    requires
        0 <= n_sections <= segs.len(),
    ensures
        assign_plan(n_sections, segs) == assign_plan(n_sections, segs.take(n_sections)),
{
    let taken = segs.take(n_sections);
    if segs.len() == 0 {
        assert(taken =~= segs);
    } else if n_sections == 0 {
        assert(taken.len() == 0);
    } else {
        let k = fill_count(n_sections, segs);
        assert(k == n_sections);
        assert(fill_count(n_sections, taken) == n_sections);
        assert(taken[k - 1] == segs[k - 1]);
        if segs[k - 1].len() != 0 {
            assert forall|i: int| 0 <= i < k implies fill_plan(segs, k)[i] == fill_plan(taken, k)[i] by {
                lemma_prefix_len_take(segs, n_sections, i);
            }
            assert(fill_plan(segs, k) =~= fill_plan(taken, k));
        }
    }
}

/// Law: default-mode assignment, with no segments at all, yields one
/// zero-valued, gate-enabled row per section, and the sentinel zero
/// satisfies every gate's membership polynomial.
pub proof fn lemma_default_mode_satisfies(sections: Seq<Seq<u8>>)
    requires
        sections.len() > 0,
    ensures
        assign_plan(sections.len() as int, Seq::empty()) == Ok::<Seq<RegionModel>, SynthesisError>(
            default_plan(sections.len() as int),
        ),
        default_plan(sections.len() as int).len() == sections.len(),
        plan_ok(sections, default_plan(sections.len() as int)),
        forall|i: int| 0 <= i < sections.len() ==> crate::gate::membership_poly(
            #[trigger] sections[i],
            0,
        ) == 0,
{
    let plan = default_plan(sections.len() as int);
    assert forall|i: int| 0 <= i < plan.len() implies region_ok(sections, #[trigger] plan[i]) by {
        assert(plan[i].values == seq![0u64]);
        assert(row_ok(sections[i], plan[i].values[0]));
    }
    assert forall|i: int| 0 <= i < sections.len() implies crate::gate::membership_poly(
        #[trigger] sections[i],
        0,
    ) == 0 by {
        crate::gate::lemma_row_ok_is_poly_root(sections[i], 0);
    }
}

/// Law: for a literal-only pattern, one witnessed value per section, an
/// input is accepted exactly when every value is its section's literal
/// byte or the sentinel zero; a substituted nonzero byte is rejected.
pub proof fn lemma_literal_pattern(sections: Seq<Seq<u8>>, segs: Seq<Seq<u64>>)
    requires
        sections.len() > 0,
        segs.len() == sections.len(),
        forall|i: int| 0 <= i < sections.len() ==> #[trigger] sections[i].len() == 1,
        forall|i: int| 0 <= i < segs.len() ==> #[trigger] segs[i].len() == 1,
    ensures
        assign_plan(sections.len() as int, segs) == Ok::<Seq<RegionModel>, SynthesisError>(
            fill_plan(segs, sections.len() as int),
        ),
        plan_ok(sections, fill_plan(segs, sections.len() as int)) <==> (forall|i: int|
            0 <= i < segs.len() ==> (#[trigger] segs[i][0] == sections[i][0] as u64 || segs[i][0]
                == 0)),
{
    let n = sections.len() as int;
    let k = fill_count(n, segs);
    assert(k == n);
    assert(segs[k - 1].len() == 1);
    let plan = fill_plan(segs, n);
    if plan_ok(sections, plan) {
        assert forall|i: int| 0 <= i < segs.len() implies (#[trigger] segs[i][0] == sections[i][0]
            as u64 || segs[i][0] == 0) by {
            assert(region_ok(sections, plan[i]));
            assert(row_ok(sections[i], plan[i].values[0]));
            if segs[i][0] != 0 {
                let j = choose|j: int| 0 <= j < sections[i].len() && #[trigger] sections[i][j]
                    as u64 == segs[i][0];
                assert(j == 0);
            }
        }
    }
    if forall|i: int| 0 <= i < segs.len() ==> (#[trigger] segs[i][0] == sections[i][0] as u64
        || segs[i][0] == 0) {
        assert forall|i: int| 0 <= i < plan.len() implies region_ok(
            sections,
            #[trigger] plan[i],
        ) by {
            assert(segs[i][0] == sections[i][0] as u64 || segs[i][0] == 0);
            assert forall|j: int| 0 <= j < plan[i].values.len() implies row_ok(
                sections[i],
                #[trigger] plan[i].values[j],
            ) by {
                assert(j == 0);
                assert(plan[i].values[0] == segs[i][0]);
                if segs[i][0] != 0 {
                    assert(sections[i][0] as u64 == segs[i][0]);
                }
            }
        }
    }
}

} // verus!
