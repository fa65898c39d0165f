//! The parameter set of a material: an ordered list of named fields that
//! keeps every uniform block within the size every target can bind.

use vstd::prelude::*;
use crate::layout::{
    bindings_of, block_size, field_offset, kind_size, lemma_align_up,
    lemma_edit_raw_len, lemma_raw_len_monotonic, lemma_raw_len_prefix, packed, raw_len,
    with_value, BLOCK_ALIGN, MAX_BLOCK_SIZE,
};
use crate::packer::{
    align_of_kind, block_end, field_specs, pack_blocks, pack_fields, padding, size_of_kind,
};
use crate::params::{BlockBinding, Field, FieldSpec, ParamValue};

verus! {

/// Why a field declaration was refused.
#[derive(Clone, Copy, Debug, PartialEq, Eq, Structural)]
pub enum LayoutError {
    /// Another field of the set already has this name.
    DuplicateName,
    /// With this field the block of its slot would pass `MAX_BLOCK_SIZE`.
    BlockTooLarge,
}

/// Why an edit of a value was refused.
#[derive(Clone, Copy, Debug, PartialEq, Eq, Structural)]
pub enum EditError {
    /// The set has no field at this position.
    NoSuchField,
    /// The new value is of another kind than the field.
    KindMismatch,
}

/// Where a field lies within the block of its slot.
#[derive(Clone, Copy, Debug, PartialEq, Eq, Structural)]
pub struct FieldDescriptor {
    pub slot: u32,
    pub offset: usize,
    pub size: usize,
}

/// True when some field of `fields` is called `name`.
pub open spec fn has_name(fields: Seq<FieldSpec>, name: Seq<char>) -> bool {
    exists|i: int| 0 <= i < fields.len() && (#[trigger] fields[i]).name == name
}

/// Position of the first field of `fields` that is called `name`.
pub open spec fn first_named(fields: Seq<FieldSpec>, name: Seq<char>) -> int {
    choose|i: int|
        0 <= i < fields.len() && (#[trigger] fields[i]).name == name && forall|j: int|
            0 <= j < i ==> (#[trigger] fields[j]).name != name
}

/// No two fields share a name.
pub open spec fn names_distinct(fields: Seq<FieldSpec>) -> bool {
    forall|i: int, j: int|
        0 <= i < j < fields.len() ==> (#[trigger] fields[i]).name != (#[trigger] fields[j]).name
}

/// The block of every slot is at most `MAX_BLOCK_SIZE` bytes.
pub open spec fn blocks_fit(fields: Seq<FieldSpec>) -> bool {
    forall|slot: u32| #[trigger] block_size(fields, slot) <= MAX_BLOCK_SIZE
}

/// What holds of the fields of every parameter set built through
/// [`ParameterSet::new`] and [`ParameterSet::push`].
pub open spec fn valid_fields(fields: Seq<FieldSpec>) -> bool {
    names_distinct(fields) && blocks_fit(fields)
}

/// The descriptor of field `i`.
pub open spec fn descriptor_of(fields: Seq<FieldSpec>, i: int) -> FieldDescriptor
    recommends
        0 <= i < fields.len(),
{
    FieldDescriptor {
        slot: fields[i].slot,
        offset: field_offset(fields, i) as usize,
        size: kind_size(fields[i].value.kind()) as usize,
    }
}

/// Appending a field leaves the blocks of all other slots as they were.
proof fn lemma_push_other_slot(fields: Seq<FieldSpec>, f: FieldSpec, slot: u32)
    requires
        f.slot != slot,
    ensures
        block_size(fields.push(f), slot) == block_size(fields, slot),
{
    lemma_raw_len_prefix(fields.push(f), fields, slot, fields.len());
}

/// An ordered set of named fields.
#[derive(Debug)]
pub struct ParameterSet {
    fields: Vec<Field>,
}

impl View for ParameterSet {
    type V = Seq<FieldSpec>;

    closed spec fn view(&self) -> Seq<FieldSpec> {
        field_specs(self.fields@)
    }
}

impl ParameterSet {
    /// Names are distinct and every block fits.
    pub open spec fn valid(&self) -> bool {
        valid_fields(self@)
    }

    /// The empty set.
    pub fn new() -> (set: ParameterSet)
        ensures
            set@ == Seq::<FieldSpec>::empty(),
            set.valid(),
    {
        let set = ParameterSet { fields: Vec::new() };
        proof {
            assert(set@ =~= Seq::<FieldSpec>::empty());
            assert forall|slot: u32| #[trigger] block_size(set@, slot) <= MAX_BLOCK_SIZE by {
                lemma_align_up(0, 16);
            }
        }
        set
    }

    /// Number of fields.
    pub fn len(&self) -> (n: usize)
        ensures
            n == self@.len(),
    {
        self.fields.len()
    }

    /// True when the set has no field.
    pub fn is_empty(&self) -> (b: bool)
        ensures
            b == (self@.len() == 0),
    {
        self.fields.len() == 0
    }

    /// Position of the field called `name`.
    pub fn index_of(&self, name: &String) -> (r: Option<usize>)
        ensures
            match r {
                Some(i) => {
                    &&& i < self@.len()
                    &&& self@[i as int].name == name@
                    &&& has_name(self@, name@)
                    &&& i == first_named(self@, name@)
                },
                None => !has_name(self@, name@),
            },
    {
        let mut k: usize = 0;
        while k < self.fields.len()
            invariant
                k <= self.fields.len(),
                forall|j: int| 0 <= j < k ==> (#[trigger] self@[j]).name != name@,
            decreases self.fields.len() - k,
        {
            if self.fields[k].name == *name {
                proof {
                    let fields = self@;
                    let c = first_named(fields, name@);
                    assert(fields[k as int].name == name@);
                    if c < k {
                        assert(fields[c].name != name@);
                    }
                }
                return Some(k);
            }
            k += 1;
        }
        None
    }

    /// Declares one more field after those already there. The field is
    /// refused, and the set left as it was, when its name is taken or when the
    /// block of its slot would grow past `MAX_BLOCK_SIZE`.
    pub fn push(&mut self, name: String, slot: u32, value: ParamValue) -> (r: Result<
        (),
        LayoutError,
    >)
        ensures
            ({
                let field = FieldSpec { name: name@, slot, value };
                let grown = old(self)@.push(field);
                &&& r == if has_name(old(self)@, name@) {
                    Err::<(), LayoutError>(LayoutError::DuplicateName)
                } else if block_size(grown, slot) > MAX_BLOCK_SIZE {
                    Err(LayoutError::BlockTooLarge)
                } else {
                    Ok(())
                }
                &&& r is Ok ==> final(self)@ == grown
                &&& r is Err ==> final(self)@ == old(self)@
                &&& old(self).valid() ==> final(self).valid()
            }),
    {
        let ghost before = self@;
        let ghost field = FieldSpec { name: name@, slot, value };
        let ghost grown = before.push(field);
        if self.index_of(&name).is_some() {
            return Err(LayoutError::DuplicateName);
        }
        let n = self.fields.len();
        proof {
            lemma_raw_len_prefix(grown, before, slot, n as nat);
            lemma_align_up(raw_len(grown, slot, (n + 1) as nat), 16);
        }
        let kind = value.kind();
        let fits = match block_end(&self.fields, slot, n) {
            Some(end) => {
                let next = end + padding(end, align_of_kind(kind)) + size_of_kind(kind);
                next + padding(next, BLOCK_ALIGN) <= MAX_BLOCK_SIZE
            },
            None => false,
        };
        if !fits {
            return Err(LayoutError::BlockTooLarge);
        }
        self.fields.push(Field { name, slot, value });
        proof {
            assert(self@ =~= grown);
            if valid_fields(before) {
                assert forall|s: u32| #[trigger] block_size(grown, s) <= MAX_BLOCK_SIZE by {
                    if s != slot {
                        lemma_push_other_slot(before, field, s);
                    }
                }
                assert forall|i: int, j: int| 0 <= i < j < grown.len() implies (
                #[trigger] grown[i]).name != (#[trigger] grown[j]).name by {
                    if j == n {
                        assert(before[i].name != name@);
                    } else {
                        assert(before[i].name != before[j].name);
                    }
                }
            }
        }
        Ok(())
    }

    /// The field at position `i`.
    pub fn field(&self, i: usize) -> (r: Option<&Field>)
        ensures
            i < self@.len() ==> r is Some && r->0@ == self@[i as int],
            i >= self@.len() ==> r is None,
    {
        if i < self.fields.len() {
            Some(&self.fields[i])
        } else {
            None
        }
    }

    /// The value of the field at position `i`.
    pub fn value(&self, i: usize) -> (r: Option<ParamValue>)
        ensures
            r == if i < self@.len() {
                Some(self@[i as int].value)
            } else {
                None
            },
    {
        if i < self.fields.len() {
            Some(self.fields[i].value)
        } else {
            None
        }
    }

    /// Replaces the value of the field at position `i` by a value of the same
    /// kind. Nothing but that value changes; the value itself is stored as
    /// given.
    pub fn set_value(&mut self, i: usize, value: ParamValue) -> (r: Result<(), EditError>)
        ensures
            r == if i >= old(self)@.len() {
                Err::<(), EditError>(EditError::NoSuchField)
            } else if value.kind() != old(self)@[i as int].value.kind() {
                Err(EditError::KindMismatch)
            } else {
                Ok(())
            },
            r is Ok ==> final(self)@ == with_value(old(self)@, i as int, value),
            r is Err ==> final(self)@ == old(self)@,
            old(self).valid() ==> final(self).valid(),
    {
        if i >= self.fields.len() {
            return Err(EditError::NoSuchField);
        }
        if value.kind() != self.fields[i].value.kind() {
            return Err(EditError::KindMismatch);
        }
        let ghost before = self@;
        let name = self.fields[i].name.clone();
        let slot = self.fields[i].slot;
        self.fields.set(i, Field { name, slot, value });
        proof {
            let edited = with_value(before, i as int, value);
            assert(self@ =~= edited);
            if valid_fields(before) {
                assert forall|s: u32| #[trigger] block_size(edited, s) <= MAX_BLOCK_SIZE by {
                    lemma_edit_raw_len(before, i as int, value, s, before.len());
                    assert(block_size(before, s) <= MAX_BLOCK_SIZE);
                }
                assert forall|a: int, b: int| 0 <= a < b < edited.len() implies (
                #[trigger] edited[a]).name != (#[trigger] edited[b]).name by {
                    assert(before[a].name != before[b].name);
                }
            }
        }
        Ok(())
    }

    /// The uniform buffer of the set.
    pub fn pack(&self) -> (buf: Vec<u8>)
        ensures
            buf@ == packed(self@),
    {
        pack_fields(&self.fields)
    }

    /// The uniform buffer of the set together with the ranges that the
    /// blocks of the used slots take in it, in ascending slot order.
    pub fn pack_with_bindings(&self) -> (r: (Vec<u8>, Vec<BlockBinding>))
        ensures
            r.0@ == packed(self@),
            r.1@ == bindings_of(self@),
    {
        pack_blocks(&self.fields)
    }

    /// The descriptor table of the set: for every field, in declaration
    /// order, its slot, its offset within the block of that slot and its size.
    pub fn descriptors(&self) -> (table: Vec<FieldDescriptor>)
        requires
            self.valid(),
        ensures
            table@.len() == self@.len(),
            forall|i: int| 0 <= i < self@.len() ==> #[trigger] table@[i] == descriptor_of(self@, i),
    {
        let mut table: Vec<FieldDescriptor> = Vec::new();
        let mut k: usize = 0;
        while k < self.fields.len()
            invariant
                k <= self.fields.len(),
                self.valid(),
                table@.len() == k,
                forall|i: int| 0 <= i < k ==> #[trigger] table@[i] == descriptor_of(self@, i),
            decreases self.fields.len() - k,
        {
            let slot = self.fields[k].slot;
            let kind = self.fields[k].value.kind();
            proof {
                lemma_raw_len_monotonic(self@, slot, k as nat, self@.len());
                lemma_align_up(raw_len(self@, slot, self@.len()), 16);
                assert(block_size(self@, slot) <= MAX_BLOCK_SIZE);
            }
            let end = match block_end(&self.fields, slot, k) {
                Some(end) => end,
                None => 0,
            };
            let offset = end + padding(end, align_of_kind(kind));
            table.push(FieldDescriptor { slot, offset, size: size_of_kind(kind) });
            k += 1;
        }
        table
    }
}

} // verus!
