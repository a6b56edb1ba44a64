//! The compiled pipeline-layout description and its query interface.
//!
//! All lookups are pure functions over the immutable compiled layout.

use vstd::prelude::*;

use crate::descriptor::{
    spec_lookup_set, DescriptorDesc, DescriptorDescTy, DescriptorMeta, DescriptorSetLayout,
    SetBindings, SetBindingsV,
};
use crate::push_constants::{pc_range_seq, PcRangeV, PipelineLayoutDescPcRange};
use crate::ShaderStages;

verus! {

/// The last declaration occupying slot `(set, binding)`, if any. Two
/// declarations sharing a slot silently collapse to the later one: this
/// last-wins collapse is a policy decision, and callers must not rely on
/// detecting accidental collisions.
pub open spec fn spec_descriptor_at(
    metas: Seq<DescriptorMeta>,
    set: usize,
    binding: usize,
) -> Option<DescriptorDescTy>
    decreases metas.len(),
{
    if metas.len() == 0 {
        None
    } else if metas.last().set == set && metas.last().binding == binding {
        Some(metas.last().ty)
    } else {
        spec_descriptor_at(metas.drop_last(), set, binding)
    }
}

/// The layout description of one compiled shader stage: its stage mask,
/// its set/binding aggregation and per-binding metadata, and its
/// push-constant range table.
#[derive(Clone, Debug, PartialEq, Eq)]
pub struct MainLayout {
    pub stages: ShaderStages,
    pub desc: DescriptorSetLayout,
    pub pc_ranges: Vec<PipelineLayoutDescPcRange>,
}

/// The mathematical value of a [`MainLayout`].
pub struct MainLayoutV {
    pub stages: ShaderStages,
    pub sets: Seq<SetBindingsV>,
    pub metas: Seq<DescriptorMeta>,
    pub pc_ranges: Seq<PcRangeV>,
}

impl View for MainLayout {
    type V = MainLayoutV;

    open spec fn view(&self) -> MainLayoutV {
        MainLayoutV {
            stages: self.stages,
            sets: self.desc@.sets,
            metas: self.desc@.metas,
            pc_ranges: pc_range_seq(&self.pc_ranges),
        }
    }
}

impl MainLayout {
    /// Number of descriptor sets this layout takes: the count of distinct
    /// set indices observed.
    pub fn num_sets(&self) -> (r: usize)
        ensures
            r == self@.sets.len(),
    {
        self.desc.sets.len()
    }

    /// Number of distinct bindings observed in the given set, or nothing
    /// for an unobserved set.
    pub fn num_bindings_in_set(&self, set: usize) -> (r: Option<usize>)
        ensures
            match spec_lookup_set(self@.sets, set) {
                Some(sb) => r == Some(sb.bindings.len() as usize),
                None => r is None,
            },
    {
        let ghost sv = self@.sets;
        let n = self.desc.sets.len();
        let mut i: usize = 0;
        proof {
            assert(sv.skip(0) =~= sv);
        }
        while i < n
            invariant
                i <= n == self.desc.sets@.len(),
                sv == self@.sets,
                spec_lookup_set(sv, set) == spec_lookup_set(sv.skip(i as int), set),
            decreases n - i,
        {
            proof {
                assert(sv[i as int] == self.desc.sets@[i as int]@);
                assert(sv.skip(i as int).first() == sv[i as int]);
                assert(sv.skip(i as int).drop_first() =~= sv.skip(i as int + 1));
            }
            let sb = &self.desc.sets[i];
            if sb.set == set {
                return Some(sb.bindings.len());
            }
            i = i + 1;
        }
        proof {
            assert(sv.skip(n as int) =~= Seq::<SetBindingsV>::empty());
        }
        None
    }

    /// What is bound at `(set, binding)`: the resource shape of the last
    /// declaration occupying the slot, an array count fixed at one, the
    /// stage mask of this layout, and read-only access; or nothing when
    /// the slot is empty.
    pub fn descriptor(&self, set: usize, binding: usize) -> (r: Option<DescriptorDesc>)
        ensures
            match spec_descriptor_at(self@.metas, set, binding) {
                Some(ty) => r == Some(
                    DescriptorDesc { ty, array_count: 1u32, stages: self.stages, readonly: true },
                ),
                None => r is None,
            },
    {
        let ghost mv = self@.metas;
        let mut i: usize = self.desc.metas.len();
        proof {
            assert(mv.take(i as int) =~= mv);
        }
        while i > 0
            invariant
                i <= self.desc.metas@.len(),
                mv == self@.metas,
                spec_descriptor_at(mv, set, binding) == spec_descriptor_at(
                    mv.take(i as int),
                    set,
                    binding,
                ),
            decreases i,
        {
            proof {
                assert(mv.take(i as int).last() == mv[i as int - 1]);
                assert(mv.take(i as int).drop_last() =~= mv.take(i as int - 1));
            }
            let m = &self.desc.metas[i - 1];
            if m.set == set && m.binding == binding {
                return Some(
                    DescriptorDesc { ty: m.ty, array_count: 1, stages: self.stages, readonly: true },
                );
            }
            i = i - 1;
        }
        proof {
            assert(mv.take(0) =~= Seq::<DescriptorMeta>::empty());
        }
        None
    }

    /// Number of push-constant ranges of this layout.
    pub fn num_push_constants_ranges(&self) -> (r: usize)
        ensures
            r == self@.pc_ranges.len(),
    {
        self.pc_ranges.len()
    }

    /// The push-constant range at the given index, or nothing past the
    /// table's end.
    pub fn push_constants_range(&self, num: usize) -> (r: Option<PipelineLayoutDescPcRange>)
        ensures
            num < self@.pc_ranges.len() ==> (r matches Some(x) && x@ == self@.pc_ranges[num as int]),
            num >= self@.pc_ranges.len() ==> r is None,
    {
        if num < self.pc_ranges.len() {
            Some(self.pc_ranges[num])
        } else {
            None
        }
    }
}

} // verus!
