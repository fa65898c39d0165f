//! The live tweak bridge: the fields of a material as a list of editable
//! properties, and edits written back into the material.

use vstd::prelude::*;
use crate::layout::{
    block_size, buffer_offset, kind_size, law_edit_is_local, lemma_edit_raw_len, same_outside,
    value_bytes, with_value, MAX_BLOCK_SIZE,
};
use crate::material::{live, material_wf, repacked, MaterialHandle, MaterialSpec, MaterialTable};
use crate::parameter_set::{first_named, has_name};
use crate::params::{FieldKind, FieldSpec, ParamValue};

verus! {

/// One field of a material as an editor shows it.
#[derive(Debug)]
pub struct Property {
    /// Position of the field in its parameter set.
    pub index: usize,
    pub name: String,
    pub kind: FieldKind,
    pub value: ParamValue,
}

/// Mathematical model of a [`Property`].
pub struct PropertySpec {
    pub index: usize,
    pub name: Seq<char>,
    pub kind: FieldKind,
    pub value: ParamValue,
}

impl View for Property {
    type V = PropertySpec;

    open spec fn view(&self) -> PropertySpec {
        PropertySpec { index: self.index, name: self.name@, kind: self.kind, value: self.value }
    }
}

/// One edit from the editor: a new value for one field of one material.
#[derive(Clone, Copy, Debug, PartialEq, Eq, Structural)]
pub struct Edit {
    pub material: MaterialHandle,
    /// Position of the field in the parameter set of the material.
    pub field: usize,
    pub value: ParamValue,
}

/// Why an edit was refused.
#[derive(Clone, Copy, Debug, PartialEq, Eq, Structural)]
pub enum TweakError {
    /// The handle names no live material.
    NoSuchMaterial,
    /// The material has no such field.
    NoSuchField,
    /// The new value is of another kind than the field.
    KindMismatch,
}

/// The property that stands for field `i`.
pub open spec fn property_of(fields: Seq<FieldSpec>, i: int) -> PropertySpec
    recommends
        0 <= i < fields.len(),
{
    PropertySpec {
        index: i as usize,
        name: fields[i].name,
        kind: fields[i].value.kind(),
        value: fields[i].value,
    }
}

/// `m` after the value of field `index` was replaced by `value`: nothing but
/// that value changes, and the buffer is marked stale.
pub open spec fn edited(m: MaterialSpec, index: int, value: ParamValue) -> MaterialSpec {
    MaterialSpec { params: with_value(m.params, index, value), dirty: true, ..m }
}

/// Whether the edit of field `index` of the material of `handle` to `value`
/// is accepted.
pub open spec fn edit_outcome(
    table: Seq<Option<MaterialSpec>>,
    handle: MaterialHandle,
    index: usize,
    value: ParamValue,
) -> Result<(), TweakError> {
    if !live(table, handle) {
        Err(TweakError::NoSuchMaterial)
    } else if index >= table[handle.index as int]->0.params.len() {
        Err(TweakError::NoSuchField)
    } else if table[handle.index as int]->0.params[index as int].value.kind() != value.kind() {
        Err(TweakError::KindMismatch)
    } else {
        Ok(())
    }
}

/// The table after the edit.
pub open spec fn table_after_edit(
    table: Seq<Option<MaterialSpec>>,
    handle: MaterialHandle,
    index: usize,
    value: ParamValue,
) -> Seq<Option<MaterialSpec>> {
    if edit_outcome(table, handle, index, value) is Ok {
        table.update(
            handle.index as int,
            Some(edited(table[handle.index as int]->0, index as int, value)),
        )
    } else {
        table
    }
}

/// The table after the first `n` of `edits` were applied in order.
pub open spec fn table_after_edits(
    table: Seq<Option<MaterialSpec>>,
    edits: Seq<Edit>,
    n: nat,
) -> Seq<Option<MaterialSpec>>
    recommends
        n <= edits.len(),
    decreases n,
{
    if n == 0 {
        table
    } else {
        let e = edits[n - 1];
        table_after_edit(table_after_edits(table, edits, (n - 1) as nat), e.material, e.field, e.value)
    }
}

/// An edit followed by the repacking of the buffer changes the buffer at the
/// offset of the edited field and nowhere else: the new buffer holds the
/// bytes of the new value there, and every other byte is what it was.
pub proof fn law_edit_then_repack(m: MaterialSpec, index: int, value: ParamValue)
    requires
        material_wf(m),
        !m.dirty,
        0 <= index < m.params.len(),
        value.kind() == m.params[index].value.kind(),
    ensures
        ({
            let after = repacked(edited(m, index, value));
            let lo = buffer_offset(m.params, index) as int;
            let hi = lo + kind_size(value.kind());
            &&& hi <= m.buffer.len()
            &&& same_outside(after.buffer, m.buffer, lo, hi)
            &&& after.buffer.subrange(lo, hi) == value_bytes(value)
            &&& material_wf(after)
        }),
{
    law_edit_is_local(m.params, index, value);
    let fields = with_value(m.params, index, value);
    assert forall|slot: u32| #[trigger] block_size(fields, slot) <= MAX_BLOCK_SIZE by {
        lemma_edit_raw_len(m.params, index, value, slot, m.params.len());
        assert(block_size(m.params, slot) <= MAX_BLOCK_SIZE);
    }
    assert forall|a: int, b: int| 0 <= a < b < fields.len() implies (#[trigger] fields[a]).name != (
    #[trigger] fields[b]).name by {
        assert(m.params[a].name != m.params[b].name);
    }
}

/// The fields of the material of `handle` as properties, in declaration
/// order.
pub fn properties(table: &MaterialTable, handle: MaterialHandle) -> (r: Option<Vec<Property>>)
    ensures
        match r {
            Some(list) => {
                let fields = table@[handle.index as int]->0.params;
                &&& live(table@, handle)
                &&& list@.len() == fields.len()
                &&& forall|i: int|
                    0 <= i < fields.len() ==> (#[trigger] list@[i])@ == property_of(fields, i)
            },
            None => !live(table@, handle),
        },
{
    let material = match table.get(handle) {
        Some(m) => m,
        None => {
            return None;
        },
    };
    let params = material.params();
    let mut list: Vec<Property> = Vec::new();
    let mut k: usize = 0;
    while k < params.len()
        invariant
            k <= params@.len(),
            list@.len() == k,
            forall|i: int| 0 <= i < k ==> (#[trigger] list@[i])@ == property_of(params@, i),
        decreases params@.len() - k,
    {
        match params.field(k) {
            Some(field) => {
                list.push(
                    Property {
                        index: k,
                        name: field.name.clone(),
                        kind: field.value.kind(),
                        value: field.value,
                    },
                );
            },
            None => {},
        }
        k += 1;
    }
    Some(list)
}

/// Writes `value` into field `index` of the material of `handle` and marks
/// its buffer stale. The value is stored as given: nothing is clamped.
pub fn apply_edit(
    table: &mut MaterialTable,
    handle: MaterialHandle,
    index: usize,
    value: ParamValue,
) -> (r: Result<(), TweakError>)
    requires
        old(table).wf(),
    ensures
        r == edit_outcome(old(table)@, handle, index, value),
        final(table)@ == table_after_edit(old(table)@, handle, index, value),
        final(table).wf(),
{
    let same = match table.get(handle) {
        Some(material) => match material.params().value(index) {
            Some(current) => current.kind() == value.kind(),
            None => {
                return Err(TweakError::NoSuchField);
            },
        },
        None => {
            return Err(TweakError::NoSuchMaterial);
        },
    };
    if !same {
        return Err(TweakError::KindMismatch);
    }
    match table.get_mut(handle) {
        Some(params) => {
            let _ = params.set_value(index, value);
        },
        None => {},
    }
    Ok(())
}

/// Writes `value` into the field called `name` of the material of `handle`.
pub fn apply_edit_by_name(
    table: &mut MaterialTable,
    handle: MaterialHandle,
    name: &String,
    value: ParamValue,
) -> (r: Result<(), TweakError>)
    requires
        old(table).wf(),
    ensures
        r == if !live(old(table)@, handle) {
            Err::<(), TweakError>(TweakError::NoSuchMaterial)
        } else if !has_name(old(table)@[handle.index as int]->0.params, name@) {
            Err(TweakError::NoSuchField)
        } else {
            edit_outcome(
                old(table)@,
                handle,
                first_named(old(table)@[handle.index as int]->0.params, name@) as usize,
                value,
            )
        },
        final(table)@ == if live(old(table)@, handle) && has_name(
            old(table)@[handle.index as int]->0.params,
            name@,
        ) {
            table_after_edit(
                old(table)@,
                handle,
                first_named(old(table)@[handle.index as int]->0.params, name@) as usize,
                value,
            )
        } else {
            old(table)@
        },
        final(table).wf(),
{
    let found = match table.get(handle) {
        Some(material) => material.params().index_of(name),
        None => {
            return Err(TweakError::NoSuchMaterial);
        },
    };
    match found {
        Some(index) => apply_edit(table, handle, index, value),
        None => Err(TweakError::NoSuchField),
    }
}

/// Applies the edits of a frame in the order given. Entry `i` of the result
/// says whether edit `i` was accepted, after the edits before it.
pub fn apply_edits(table: &mut MaterialTable, edits: &Vec<Edit>) -> (results: Vec<
    Result<(), TweakError>,
>)
    requires
        old(table).wf(),
    ensures
        final(table).wf(),
        final(table)@ == table_after_edits(old(table)@, edits@, edits@.len()),
        results@.len() == edits@.len(),
        forall|i: int|
            0 <= i < edits@.len() ==> #[trigger] results@[i] == edit_outcome(
                table_after_edits(old(table)@, edits@, i as nat),
                edits@[i].material,
                edits@[i].field,
                edits@[i].value,
            ),
{
    let mut results: Vec<Result<(), TweakError>> = Vec::new();
    let mut k: usize = 0;
    while k < edits.len()
        invariant
            k <= edits.len(),
            table.wf(),
            table@ == table_after_edits(old(table)@, edits@, k as nat),
            results@.len() == k,
            forall|i: int|
                0 <= i < k ==> #[trigger] results@[i] == edit_outcome(
                    table_after_edits(old(table)@, edits@, i as nat),
                    edits@[i].material,
                    edits@[i].field,
                    edits@[i].value,
                ),
        decreases edits.len() - k,
    {
        let e = edits[k];
        let r = apply_edit(table, e.material, e.field, e.value);
        results.push(r);
        k += 1;
    }
    results
}

} // verus!
