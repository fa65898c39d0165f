//! The material table: live materials by handle, each with its parameter
//! set, its uniform buffer and the flag that says whether the buffer is
//! stale.

use vstd::prelude::*;
use crate::layout::{bindings_of, packed};
use crate::parameter_set::{valid_fields, ParameterSet};
use crate::params::{BlockBinding, FieldSpec};

verus! {

/// Names a material of a table. A handle is never given out twice.
#[derive(Clone, Copy, Debug, PartialEq, Eq, Structural)]
pub struct MaterialHandle {
    pub index: usize,
}

/// A material: a parameter set, the shader it is drawn with, and the
/// uniform buffer packed from the parameters.
#[derive(Debug)]
pub struct Material {
    type_tag: u128,
    params: ParameterSet,
    shader: String,
    entry_point: Option<String>,
    buffer: Vec<u8>,
    bindings: Vec<BlockBinding>,
    dirty: bool,
    refs: usize,
}

/// Mathematical model of a [`Material`].
pub struct MaterialSpec {
    /// Stable tag of the material type.
    pub type_tag: u128,
    pub params: Seq<FieldSpec>,
    /// Path of the shader source that the material is drawn with.
    pub shader: Seq<char>,
    /// Entry point that replaces the default one, if any.
    pub entry_point: Option<Seq<char>>,
    /// Content of the uniform buffer.
    pub buffer: Seq<u8>,
    /// The ranges of the buffer that are bound at the used slots.
    pub bindings: Seq<BlockBinding>,
    /// True when the parameters may have changed since the buffer was packed.
    pub dirty: bool,
    /// Number of scene entities that refer to the material.
    pub refs: usize,
}

/// The parameters are valid, and a buffer that is not marked stale holds
/// exactly the packed parameters, with the bindings that go with them.
pub open spec fn material_wf(m: MaterialSpec) -> bool {
    &&& valid_fields(m.params)
    &&& !m.dirty ==> m.buffer == packed(m.params) && m.bindings == bindings_of(m.params)
}

impl View for Material {
    type V = MaterialSpec;

    closed spec fn view(&self) -> MaterialSpec {
        MaterialSpec {
            type_tag: self.type_tag,
            params: self.params@,
            shader: self.shader@,
            entry_point: match self.entry_point {
                Some(name) => Some(name@),
                None => None,
            },
            buffer: self.buffer@,
            bindings: self.bindings@,
            dirty: self.dirty,
            refs: self.refs,
        }
    }
}

impl Material {
    /// Stable tag of the material type.
    pub fn type_tag(&self) -> (t: u128)
        ensures
            t == self@.type_tag,
    {
        self.type_tag
    }

    /// The current parameters.
    pub fn params(&self) -> (p: &ParameterSet)
        ensures
            p@ == self@.params,
    {
        &self.params
    }

    /// Path of the shader source that the material is drawn with.
    pub fn shader(&self) -> (s: &String)
        ensures
            s@ == self@.shader,
    {
        &self.shader
    }

    /// Entry point that replaces the default one, if any.
    pub fn entry_point(&self) -> (e: Option<&String>)
        ensures
            match e {
                Some(name) => self@.entry_point == Some(name@),
                None => self@.entry_point is None,
            },
    {
        match &self.entry_point {
            Some(name) => Some(name),
            None => None,
        }
    }

    /// Content of the uniform buffer as it was last packed.
    pub fn buffer(&self) -> (b: &Vec<u8>)
        ensures
            b@ == self@.buffer,
    {
        &self.buffer
    }

    /// The ranges of the buffer that are bound at the used slots, as they
    /// were last computed.
    pub fn bindings(&self) -> (b: &Vec<BlockBinding>)
        ensures
            b@ == self@.bindings,
    {
        &self.bindings
    }

    /// Number of scene entities that refer to the material.
    pub fn refs(&self) -> (n: usize)
        ensures
            n == self@.refs,
    {
        self.refs
    }

    /// True when the parameters may have changed since the buffer was packed.
    pub fn is_dirty(&self) -> (d: bool)
        ensures
            d == self@.dirty,
    {
        self.dirty
    }
}

/// The models of the slots of a table, in order.
pub open spec fn slot_specs(slots: Seq<Option<Material>>) -> Seq<Option<MaterialSpec>> {
    Seq::new(
        slots.len(),
        |i: int|
            match slots[i] {
                Some(m) => Some(m@),
                None => None,
            },
    )
}

/// The materials of a scene. Slot `i` holds the material of the handle with
/// index `i` while it lives, and nothing once it is destroyed.
#[derive(Debug)]
pub struct MaterialTable {
    slots: Vec<Option<Material>>,
}

impl View for MaterialTable {
    type V = Seq<Option<MaterialSpec>>;

    closed spec fn view(&self) -> Seq<Option<MaterialSpec>> {
        slot_specs(self.slots@)
    }
}

/// True when `handle` names a live material of `table`.
pub open spec fn live(table: Seq<Option<MaterialSpec>>, handle: MaterialHandle) -> bool {
    handle.index < table.len() && table[handle.index as int] is Some
}

/// `m` with its buffer packed anew from its parameters.
pub open spec fn repacked(m: MaterialSpec) -> MaterialSpec {
    MaterialSpec {
        buffer: packed(m.params),
        bindings: bindings_of(m.params),
        dirty: false,
        ..m
    }
}

/// `table` with the buffer of every live material packed anew.
pub open spec fn all_repacked(table: Seq<Option<MaterialSpec>>) -> Seq<Option<MaterialSpec>> {
    Seq::new(
        table.len(),
        |i: int|
            match table[i] {
                Some(m) => Some(repacked(m)),
                None => None,
            },
    )
}

/// Number of live materials among the first `n` slots whose buffer is stale.
pub open spec fn stale_count(table: Seq<Option<MaterialSpec>>, n: nat) -> nat
    recommends
        n <= table.len(),
    decreases n,
{
    if n == 0 {
        0
    } else {
        let rest = stale_count(table, (n - 1) as nat);
        match table[n - 1] {
            Some(m) => if m.dirty {
                rest + 1
            } else {
                rest
            },
            None => rest,
        }
    }
}

/// `after` has every slot of `before`, and what was destroyed in `before`
/// is still destroyed: no handle comes to name another material.
pub open spec fn succeeds(
    before: Seq<Option<MaterialSpec>>,
    after: Seq<Option<MaterialSpec>>,
) -> bool {
    &&& before.len() <= after.len()
    &&& forall|i: int| 0 <= i < before.len() && (#[trigger] before[i]) is None ==> after[i] is None
}

/// Every live material is well formed.
pub open spec fn table_wf(table: Seq<Option<MaterialSpec>>) -> bool {
    forall|i: int| 0 <= i < table.len() && (#[trigger] table[i]) is Some ==> material_wf(table[i]->0)
}

impl MaterialTable {
    /// Every live material is well formed.
    pub open spec fn wf(&self) -> bool {
        table_wf(self@)
    }

    /// The empty table.
    pub fn new() -> (table: MaterialTable)
        ensures
            table@ == Seq::<Option<MaterialSpec>>::empty(),
            table.wf(),
    {
        let table = MaterialTable { slots: Vec::new() };
        assert(table@ =~= Seq::<Option<MaterialSpec>>::empty());
        table
    }

    /// Number of handles given out so far.
    pub fn len(&self) -> (n: usize)
        ensures
            n == self@.len(),
    {
        self.slots.len()
    }

    /// Registers a material for one scene entity. Its buffer is packed on
    /// first use.
    pub fn create(
        &mut self,
        type_tag: u128,
        params: ParameterSet,
        shader: String,
        entry_point: Option<String>,
    ) -> (handle: MaterialHandle)
        requires
            old(self).wf(),
            params.valid(),
        ensures
            handle.index == old(self)@.len(),
            final(self)@ == old(self)@.push(
                Some(
                    MaterialSpec {
                        type_tag,
                        params: params@,
                        shader: shader@,
                        entry_point: match entry_point {
                            Some(name) => Some(name@),
                            None => None,
                        },
                        buffer: Seq::empty(),
                        bindings: Seq::empty(),
                        dirty: true,
                        refs: 1,
                    },
                ),
            ),
            final(self).wf(),
            succeeds(old(self)@, final(self)@),
    {
        let index = self.slots.len();
        let material = Material {
            type_tag,
            params,
            shader,
            entry_point,
            buffer: Vec::new(),
            bindings: Vec::new(),
            dirty: true,
            refs: 1,
        };
        self.slots.push(Some(material));
        assert(self@ =~= old(self)@.push(Some(material@)));
        MaterialHandle { index }
    }

    /// True when `handle` names a live material.
    pub fn is_live(&self, handle: MaterialHandle) -> (r: bool)
        ensures
            r == live(self@, handle),
    {
        handle.index < self.slots.len() && self.slots[handle.index].is_some()
    }

    /// The material that `handle` names.
    pub fn get(&self, handle: MaterialHandle) -> (r: Option<&Material>)
        ensures
            match r {
                Some(m) => live(self@, handle) && m@ == self@[handle.index as int]->0,
                None => !live(self@, handle),
            },
    {
        if handle.index >= self.slots.len() {
            return None;
        }
        match &self.slots[handle.index] {
            Some(m) => Some(m),
            None => None,
        }
    }

    /// Hands out the parameters of a live material for editing and marks its
    /// buffer stale.
    pub fn get_mut(&mut self, handle: MaterialHandle) -> (r: Option<&mut ParameterSet>)
        ensures
            match r {
                Some(params) => {
                    &&& live(old(self)@, handle)
                    &&& params@ == old(self)@[handle.index as int]->0.params
                    &&& final(self)@ == old(self)@.update(
                        handle.index as int,
                        Some(
                            MaterialSpec {
                                params: final(params)@,
                                dirty: true,
                                ..old(self)@[handle.index as int]->0
                            },
                        ),
                    )
                },
                None => !live(old(self)@, handle) && final(self)@ == old(self)@,
            },
            succeeds(old(self)@, final(self)@),
    {
        if handle.index >= self.slots.len() {
            return None;
        }
        match &mut self.slots[handle.index] {
            Some(m) => {
                m.dirty = true;
                Some(&mut m.params)
            },
            None => None,
        }
    }

    /// Destroys the material that `handle` names, with its buffer, however
    /// many entities refer to it. Says whether there was one.
    pub fn destroy(&mut self, handle: MaterialHandle) -> (r: bool)
        ensures
            r == live(old(self)@, handle),
            final(self)@ == if r {
                old(self)@.update(handle.index as int, None)
            } else {
                old(self)@
            },
            old(self).wf() ==> final(self).wf(),
            succeeds(old(self)@, final(self)@),
    {
        if !self.is_live(handle) {
            return false;
        }
        self.slots.set(handle.index, None);
        assert(self@ =~= old(self)@.update(handle.index as int, None));
        true
    }

    /// Counts one more scene entity that refers to the material. Says
    /// whether it was counted: it is not where the handle names no live
    /// material, or the count is at its limit.
    pub fn retain(&mut self, handle: MaterialHandle) -> (r: bool)
        ensures
            r == (live(old(self)@, handle) && old(self)@[handle.index as int]->0.refs
                < usize::MAX),
            final(self)@ == if r {
                old(self)@.update(
                    handle.index as int,
                    Some(
                        MaterialSpec {
                            refs: (old(self)@[handle.index as int]->0.refs + 1) as usize,
                            ..old(self)@[handle.index as int]->0
                        },
                    ),
                )
            } else {
                old(self)@
            },
            old(self).wf() ==> final(self).wf(),
            succeeds(old(self)@, final(self)@),
    {
        if handle.index >= self.slots.len() {
            return false;
        }
        let mut counted = false;
        match &mut self.slots[handle.index] {
            Some(m) => {
                if m.refs < usize::MAX {
                    m.refs = m.refs + 1;
                    counted = true;
                }
            },
            None => {},
        }
        proof {
            if counted {
                assert(self@ =~= old(self)@.update(
                    handle.index as int,
                    Some(
                        MaterialSpec {
                            refs: (old(self)@[handle.index as int]->0.refs + 1) as usize,
                            ..old(self)@[handle.index as int]->0
                        },
                    ),
                ));
            } else {
                assert(self@ =~= old(self)@);
            }
        }
        counted
    }

    /// Counts one scene entity less that refers to the material, and
    /// destroys the material when none is left. Says whether it was
    /// destroyed.
    pub fn release(&mut self, handle: MaterialHandle) -> (r: bool)
        ensures
            r == (live(old(self)@, handle) && old(self)@[handle.index as int]->0.refs <= 1),
            final(self)@ == if !live(old(self)@, handle) {
                old(self)@
            } else if r {
                old(self)@.update(handle.index as int, None)
            } else {
                old(self)@.update(
                    handle.index as int,
                    Some(
                        MaterialSpec {
                            refs: (old(self)@[handle.index as int]->0.refs - 1) as usize,
                            ..old(self)@[handle.index as int]->0
                        },
                    ),
                )
            },
            old(self).wf() ==> final(self).wf(),
            succeeds(old(self)@, final(self)@),
    {
        if handle.index >= self.slots.len() {
            return false;
        }
        let mut last = false;
        match &mut self.slots[handle.index] {
            Some(m) => {
                if m.refs > 1 {
                    m.refs = m.refs - 1;
                } else {
                    last = true;
                }
            },
            None => {
                assert(self@ =~= old(self)@);
                return false;
            },
        }
        if last {
            self.slots.set(handle.index, None);
            assert(self@ =~= old(self)@.update(handle.index as int, None));
        } else {
            assert(self@ =~= old(self)@.update(
                handle.index as int,
                Some(
                    MaterialSpec {
                        refs: (old(self)@[handle.index as int]->0.refs - 1) as usize,
                        ..old(self)@[handle.index as int]->0
                    },
                ),
            ));
        }
        last
    }

    /// Packs the buffer of the material anew if it is stale, and says
    /// whether it did. The buffer is replaced as a whole, never in part.
    pub fn refresh(&mut self, handle: MaterialHandle) -> (r: bool)
        requires
            old(self).wf(),
        ensures
            r == (live(old(self)@, handle) && old(self)@[handle.index as int]->0.dirty),
            final(self)@ == if live(old(self)@, handle) {
                old(self)@.update(
                    handle.index as int,
                    Some(repacked(old(self)@[handle.index as int]->0)),
                )
            } else {
                old(self)@
            },
            final(self).wf(),
            succeeds(old(self)@, final(self)@),
    {
        if handle.index >= self.slots.len() {
            return false;
        }
        let ghost i = handle.index as int;
        let mut did = false;
        match &mut self.slots[handle.index] {
            Some(m) => {
                if m.dirty {
                    let (buffer, bindings) = m.params.pack_with_bindings();
                    m.buffer = buffer;
                    m.bindings = bindings;
                    m.dirty = false;
                    did = true;
                }
            },
            None => {},
        }
        proof {
            if live(old(self)@, handle) {
                assert(self@ =~= old(self)@.update(i, Some(repacked(old(self)@[i]->0))));
            } else {
                assert(self@ =~= old(self)@);
            }
        }
        did
    }

    /// Packs the buffer of every material whose buffer is stale, and
    /// returns how many there were.
    pub fn repack_dirty(&mut self) -> (count: usize)
        requires
            old(self).wf(),
        ensures
            final(self)@ == all_repacked(old(self)@),
            count == stale_count(old(self)@, old(self)@.len()),
            final(self).wf(),
            succeeds(old(self)@, final(self)@),
    {
        let ghost before = self@;
        let mut count: usize = 0;
        let mut k: usize = 0;
        while k < self.slots.len()
            invariant
                k <= self.slots.len(),
                before == old(self)@,
                table_wf(before),
                self@.len() == before.len(),
                count == stale_count(before, k as nat),
                count <= k,
                forall|i: int| 0 <= i < k ==> #[trigger] self@[i] == all_repacked(before)[i],
                forall|i: int| k <= i < before.len() ==> #[trigger] self@[i] == before[i],
            decreases self.slots.len() - k,
        {
            let was = self.refresh(MaterialHandle { index: k });
            if was {
                count += 1;
            }
            k += 1;
        }
        assert(self@ =~= all_repacked(before));
        count
    }

    /// The uniform buffer of the material, packed anew first if it is
    /// stale: what is returned always holds the packed parameters.
    pub fn uniform(&mut self, handle: MaterialHandle) -> (r: Option<&Vec<u8>>)
        requires
            old(self).wf(),
        ensures
            match r {
                Some(buffer) => live(old(self)@, handle) && buffer@ == packed(
                    old(self)@[handle.index as int]->0.params,
                ),
                None => !live(old(self)@, handle),
            },
            final(self)@ == if live(old(self)@, handle) {
                old(self)@.update(
                    handle.index as int,
                    Some(repacked(old(self)@[handle.index as int]->0)),
                )
            } else {
                old(self)@
            },
            final(self).wf(),
            succeeds(old(self)@, final(self)@),
    {
        self.refresh(handle);
        match self.get(handle) {
            Some(m) => Some(&m.buffer),
            None => None,
        }
    }
}

} // verus!
