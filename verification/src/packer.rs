//! Serializes a parameter set into its uniform buffer.

use vstd::prelude::*;
use crate::layout::{
    bindings_of, bindings_upto, block, blocks_upto, kind_align, kind_size, law_block_length,
    le_bytes, lemma_blocks_upto_len, lemma_raw_len_monotonic, lemma_unused_range_empty,
    lemma_unused_range_unbound, packed, padding_for, raw_block, raw_len, slot_limit, slot_used,
    value_bytes, zeros, BLOCK_ALIGN, MAX_BLOCK_SIZE,
};
use crate::params::{BlockBinding, Field, FieldKind, FieldSpec, ParamValue};

verus! {

/// The models of a list of fields, in order.
pub open spec fn field_specs(fields: Seq<Field>) -> Seq<FieldSpec> {
    Seq::new(fields.len(), |i: int| fields[i]@)
}

/// Size in bytes of a value of the given kind.
pub fn size_of_kind(kind: FieldKind) -> (n: usize)
    ensures
        n == kind_size(kind),
{
    match kind {
        FieldKind::Float => 4,
        FieldKind::Uint => 4,
        FieldKind::Vector => 16,
    }
}

/// Alignment in bytes of a value of the given kind.
pub fn align_of_kind(kind: FieldKind) -> (n: usize)
    ensures
        n == kind_align(kind),
        n > 0,
{
    match kind {
        FieldKind::Float => 4,
        FieldKind::Uint => 4,
        FieldKind::Vector => 16,
    }
}

/// Computes the padding that brings `offset` up to a multiple of `align`.
pub fn padding(offset: usize, align: usize) -> (pad: usize)
    requires
        align > 0,
    ensures
        pad == padding_for(offset as nat, align as nat),
        pad < align,
{
    let rem: usize = offset % align;
    if rem == 0 {
        0
    } else {
        align - rem
    }
}

/// Lays out those of the first `upto` fields that are bound to `slot` and
/// returns the end offset within the block, or `None` as soon as it passes
/// `MAX_BLOCK_SIZE`.
pub fn block_end(fields: &Vec<Field>, slot: u32, upto: usize) -> (r: Option<usize>)
    requires
        upto <= fields.len(),
    ensures
        r == if raw_len(field_specs(fields@), slot, upto as nat) <= MAX_BLOCK_SIZE {
            Some(raw_len(field_specs(fields@), slot, upto as nat) as usize)
        } else {
            None
        },
{
    let ghost specs = field_specs(fields@);
    let mut end: usize = 0;
    let mut k: usize = 0;
    while k < upto
        invariant
            k <= upto <= fields.len(),
            specs == field_specs(fields@),
            end == raw_len(specs, slot, k as nat),
            end <= MAX_BLOCK_SIZE,
        decreases upto - k,
    {
        if fields[k].slot == slot {
            let kind = fields[k].value.kind();
            let next = end + padding(end, align_of_kind(kind)) + size_of_kind(kind);
            assert(specs[k as int] == fields@[k as int]@);
            assert(next == raw_len(specs, slot, (k + 1) as nat));
            if next > MAX_BLOCK_SIZE {
                proof {
                    lemma_raw_len_monotonic(specs, slot, (k + 1) as nat, upto as nat);
                }
                return None;
            }
            end = next;
        } else {
            assert(specs[k as int] == fields@[k as int]@);
        }
        k += 1;
    }
    Some(end)
}

fn push_zeros(buf: &mut Vec<u8>, n: usize)
    ensures
        final(buf)@ == old(buf)@ + zeros(n as nat),
{
    let mut i: usize = 0;
    while i < n
        invariant
            i <= n,
            buf@ == old(buf)@ + zeros(i as nat),
        decreases n - i,
    {
        buf.push(0u8);
        i += 1;
        assert(buf@ =~= old(buf)@ + zeros(i as nat));
    }
}

fn push_u32(buf: &mut Vec<u8>, x: u32)
    ensures
        final(buf)@ == old(buf)@ + le_bytes(x),
{
    buf.push((x % 256) as u8);
    buf.push(((x / 256) % 256) as u8);
    buf.push(((x / 65536) % 256) as u8);
    buf.push(((x / 16777216) % 256) as u8);
    assert(buf@ =~= old(buf)@ + le_bytes(x));
}

fn push_value(buf: &mut Vec<u8>, value: ParamValue)
    ensures
        final(buf)@ == old(buf)@ + value_bytes(value),
{
    match value {
        ParamValue::Float(bits) => {
            push_u32(buf, bits);
        },
        ParamValue::Uint(x) => {
            push_u32(buf, x);
        },
        ParamValue::Vector(x, y, z, w) => {
            push_u32(buf, x);
            push_u32(buf, y);
            push_u32(buf, z);
            push_u32(buf, w);
            assert(buf@ =~= old(buf)@ + value_bytes(value));
        },
    }
}

/// Appends the block of `slot` to `buf`.
fn push_block(buf: &mut Vec<u8>, fields: &Vec<Field>, slot: u32)
    ensures
        final(buf)@ == old(buf)@ + block(field_specs(fields@), slot),
{
    let ghost specs = field_specs(fields@);
    let start: usize = buf.len();
    let mut k: usize = 0;
    while k < fields.len()
        invariant
            k <= fields.len(),
            specs == field_specs(fields@),
            start == old(buf)@.len(),
            buf@ == old(buf)@ + raw_block(specs, slot, k as nat),
        decreases fields.len() - k,
    {
        let ghost prev = raw_block(specs, slot, k as nat);
        if fields[k].slot == slot {
            let value = fields[k].value;
            let pad = padding(buf.len() - start, align_of_kind(value.kind()));
            push_zeros(buf, pad);
            push_value(buf, value);
            assert(buf@ =~= old(buf)@ + (prev + zeros(pad as nat) + value_bytes(value)));
        }
        k += 1;
        assert(specs[k - 1] == fields@[k - 1]@);
    }
    let pad = padding(buf.len() - start, BLOCK_ALIGN);
    push_zeros(buf, pad);
    assert(buf@ =~= old(buf)@ + block(specs, slot));
}

/// Finds the lowest slot that is at least `from` and has a field bound to it.
fn next_used_slot(fields: &Vec<Field>, from: u32) -> (r: Option<u32>)
    ensures
        match r {
            Some(s) => {
                &&& from <= s
                &&& slot_used(field_specs(fields@), s)
                &&& forall|i: int|
                    0 <= i < fields.len() ==> !(from <= (#[trigger] fields[i]).slot < s)
            },
            None => forall|i: int| 0 <= i < fields.len() ==> (#[trigger] fields[i]).slot < from,
        },
{
    let ghost specs = field_specs(fields@);
    let mut best: Option<u32> = None;
    let mut k: usize = 0;
    while k < fields.len()
        invariant
            k <= fields.len(),
            specs == field_specs(fields@),
            match best {
                Some(s) => {
                    &&& from <= s
                    &&& slot_used(specs, s)
                    &&& forall|i: int| 0 <= i < k ==> !(from <= (#[trigger] fields[i]).slot < s)
                },
                None => forall|i: int| 0 <= i < k ==> (#[trigger] fields[i]).slot < from,
            },
        decreases fields.len() - k,
    {
        let slot = fields[k].slot;
        if slot >= from {
            let better = match best {
                Some(s) => slot < s,
                None => true,
            };
            if better {
                best = Some(slot);
                assert(specs[k as int].slot == slot);
            }
        }
        k += 1;
    }
    best
}

/// Packs the fields into one uniform buffer: for every slot in ascending
/// order, the fields bound to it in declaration order, each aligned to its
/// kind, and each slot's block padded to a multiple of 16 bytes. With the
/// buffer come the ranges that the blocks take in it.
pub fn pack_blocks(fields: &Vec<Field>) -> (r: (Vec<u8>, Vec<BlockBinding>))
    ensures
        r.0@ == packed(field_specs(fields@)),
        r.1@ == bindings_of(field_specs(fields@)),
{
    let ghost specs = field_specs(fields@);
    let mut buf: Vec<u8> = Vec::new();
    let mut bindings: Vec<BlockBinding> = Vec::new();
    let mut from: u64 = 0;
    while from < 0x1_0000_0000
        invariant
            from <= 0x1_0000_0000,
            specs == field_specs(fields@),
            buf@ == blocks_upto(specs, from as nat),
            bindings@ == bindings_upto(specs, from as nat),
        ensures
            buf@ == packed(specs),
            bindings@ == bindings_of(specs),
        decreases 0x1_0000_0000 - from,
    {
        match next_used_slot(fields, from as u32) {
            Some(slot) => {
                proof {
                    assert forall|i: int| 0 <= i < specs.len() implies !(from as nat <= (
                    #[trigger] specs[i]).slot < slot as nat) by {
                        assert(specs[i].slot == fields[i].slot);
                    }
                    lemma_unused_range_empty(specs, from as nat, slot as nat);
                    lemma_unused_range_unbound(specs, from as nat, slot as nat);
                    lemma_blocks_upto_len(specs, slot as nat);
                    law_block_length(specs, slot);
                }
                let offset = buf.len();
                push_block(&mut buf, fields, slot);
                bindings.push(BlockBinding { slot, offset, size: buf.len() - offset });
                from = slot as u64 + 1;
            },
            None => {
                proof {
                    assert forall|i: int| 0 <= i < specs.len() implies !(from as nat <= (
                    #[trigger] specs[i]).slot < slot_limit()) by {
                        assert(specs[i].slot == fields[i].slot);
                    }
                    lemma_unused_range_empty(specs, from as nat, slot_limit());
                    lemma_unused_range_unbound(specs, from as nat, slot_limit());
                }
                break ;
            },
        }
    }
    (buf, bindings)
}

/// Packs the fields into one uniform buffer.
pub fn pack_fields(fields: &Vec<Field>) -> (buf: Vec<u8>)
    ensures
        buf@ == packed(field_specs(fields@)),
{
    pack_blocks(fields).0
}

} // verus!
