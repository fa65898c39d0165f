//! The material of the demo: a fragment shader with two parameters that are
//! bound as one uniform block.

use vstd::prelude::*;
use crate::layout::{
    align_up, block, block_size, law_single_slot_length, le_bytes, lemma_align_up, packed,
    raw_block, raw_len, zeros,
};
use crate::material::{MaterialHandle, MaterialSpec};
use crate::parameter_set::ParameterSet;
use crate::params::{FieldSpec, ParamValue};
use crate::render::RenderContext;
use crate::shader::{next_action, next_source, WatchAction, WatchEventSpec};

verus! {

/// Stable tag of the material type.
pub const CUSTOM_MATERIAL_TAG: u128 = 0x515FB3B6_17D8_49C0_8C36_96BBD337A5B2;

/// The parameters of the custom material. `spatial_repetition` is a 32-bit
/// IEEE-754 number and is carried as its bit pattern.
#[derive(Clone, Copy, Debug, PartialEq, Eq, Structural)]
pub struct CustomMaterial {
    pub spatial_repetition: u32,
    pub iterations: u32,
}

/// The fields that the material declares: both at slot 0, in this order.
pub open spec fn custom_fields(material: CustomMaterial) -> Seq<FieldSpec> {
    seq![
        FieldSpec {
            name: "spatial_repetition"@,
            slot: 0,
            value: ParamValue::Float(material.spatial_repetition),
        },
        FieldSpec { name: "iterations"@, slot: 0, value: ParamValue::Uint(material.iterations) },
    ]
}

/// The material packs to one block of 16 bytes: the bits of
/// `spatial_repetition`, then `iterations`, each least significant byte
/// first, then eight bytes of padding.
pub proof fn law_custom_material_layout(material: CustomMaterial)
    ensures
        packed(custom_fields(material)) == le_bytes(material.spatial_repetition) + le_bytes(
            material.iterations,
        ) + zeros(8),
        packed(custom_fields(material)).len() == 16,
{
    let fields = custom_fields(material);
    law_single_slot_length(fields, 0);
    reveal_with_fuel(raw_block, 3);
    assert(raw_block(fields, 0, 2) =~= le_bytes(material.spatial_repetition) + le_bytes(
        material.iterations,
    ));
    assert(block(fields, 0) =~= le_bytes(material.spatial_repetition) + le_bytes(
        material.iterations,
    ) + zeros(8));
}

impl CustomMaterial {
    /// Stable tag of the material type.
    pub fn type_tag() -> (tag: u128)
        ensures
            tag == CUSTOM_MATERIAL_TAG,
    {
        CUSTOM_MATERIAL_TAG
    }

    /// Path of the fragment shader, relative to the asset directory.
    pub fn fragment_shader() -> (path: String)
        ensures
            path@ == "shaders/custom_shader.wgsl"@,
    {
        "shaders/custom_shader.wgsl".to_owned()
    }

    /// The entry point that replaces the default one: none, so the
    /// pipeline is compiled with `fragment`.
    pub fn entry_point() -> (entry: Option<String>)
        ensures
            entry is None,
    {
        None
    }

    /// The parameter set of the material.
    pub fn parameters(&self) -> (set: ParameterSet)
        ensures
            set@ == custom_fields(*self),
            set.valid(),
    {
        let mut set = ParameterSet::new();
        proof {
            reveal_strlit("spatial_repetition");
            reveal_strlit("iterations");
            reveal_with_fuel(raw_len, 3);
            lemma_align_up(4, 16);
            lemma_align_up(8, 16);
        }
        let ghost first = FieldSpec {
            name: "spatial_repetition"@,
            slot: 0,
            value: ParamValue::Float(self.spatial_repetition),
        };
        let ghost second = FieldSpec {
            name: "iterations"@,
            slot: 0,
            value: ParamValue::Uint(self.iterations),
        };
        assert(block_size(seq![first], 0) == 16);
        assert(block_size(seq![first, second], 0) == 16);
        assert(Seq::<FieldSpec>::empty().push(first) =~= seq![first]);
        assert(seq![first].push(second) =~= seq![first, second]);
        let _ = set.push(
            "spatial_repetition".to_owned(),
            0,
            ParamValue::Float(self.spatial_repetition),
        );
        assert(set@ == seq![first]);
        assert(first.name.len() != second.name.len());
        let _ = set.push("iterations".to_owned(), 0, ParamValue::Uint(self.iterations));
        assert(set@ == seq![first, second]);
        set
    }

    /// Registers the material with `ctx`, as one more of its materials.
    pub fn register(&self, ctx: &mut RenderContext) -> (r: (MaterialHandle, WatchAction))
        requires
            old(ctx).wf(),
        ensures
            final(ctx).wf(),
            r.0.index == old(ctx)@.materials.len(),
            final(ctx)@.materials == old(ctx)@.materials.push(
                Some(
                    MaterialSpec {
                        type_tag: CUSTOM_MATERIAL_TAG,
                        params: custom_fields(*self),
                        shader: "shaders/custom_shader.wgsl"@,
                        entry_point: None,
                        buffer: Seq::empty(),
                        bindings: Seq::empty(),
                        dirty: true,
                        refs: 1,
                    },
                ),
            ),
            final(ctx)@.pipelines == old(ctx)@.pipelines,
            old(ctx)@.shader.path == "shaders/custom_shader.wgsl"@ ==> final(ctx)@.shader
                == next_source(old(ctx)@.shader, WatchEventSpec::Referenced) && r.1 == next_action(
                old(ctx)@.shader,
                WatchEventSpec::Referenced,
            ),
            old(ctx)@.shader.path != "shaders/custom_shader.wgsl"@ ==> final(ctx)@.shader == old(ctx)@.shader && r.1 == WatchAction::Nothing,
    {
        ctx.create_material(
            CustomMaterial::type_tag(),
            self.parameters(),
            CustomMaterial::fragment_shader(),
            CustomMaterial::entry_point(),
        )
    }

    /// Reads the material back from a parameter set of its shape, as it
    /// stands after edits.
    pub fn from_parameters(set: &ParameterSet) -> (r: Option<CustomMaterial>)
        ensures
            r == if set@.len() == 2 {
                match (set@[0].value, set@[1].value) {
                    (ParamValue::Float(spatial_repetition), ParamValue::Uint(iterations)) => Some(
                        CustomMaterial { spatial_repetition, iterations },
                    ),
                    _ => None,
                }
            } else {
                None
            },
    {
        if set.len() != 2 {
            return None;
        }
        match (set.value(0), set.value(1)) {
            (Some(ParamValue::Float(spatial_repetition)), Some(ParamValue::Uint(iterations))) => Some(
                CustomMaterial { spatial_repetition, iterations },
            ),
            _ => None,
        }
    }
}

} // verus!
