//! Uniform-block layout: where each field of a parameter set lands in the
//! packed buffer, stated over sequences of field models.

use vstd::prelude::*;
use vstd::arithmetic::div_mod::{lemma_fundamental_div_mod, lemma_mod_multiples_basic};
use crate::params::{BlockBinding, FieldKind, FieldSpec, ParamValue};

verus! {

/// Every uniform block is padded to a multiple of this many bytes.
pub const BLOCK_ALIGN: usize = 16;

/// Largest block, in bytes, that every target is guaranteed to bind.
pub const MAX_BLOCK_SIZE: usize = 65536;

/// Number of slot indices: slots range over `0..slot_limit()`.
pub open spec fn slot_limit() -> nat {
    0x1_0000_0000
}

/// Number of padding bytes that bring `offset` up to a multiple of `align`.
pub open spec fn padding_for(offset: nat, align: nat) -> nat
    recommends
        align > 0,
{
    if offset % align == 0 {
        0
    } else {
        (align - offset % align) as nat
    }
}

/// `offset` rounded up to the next multiple of `align`.
pub open spec fn align_up(offset: nat, align: nat) -> nat
    recommends
        align > 0,
{
    offset + padding_for(offset, align)
}

/// Rounding up reaches a multiple of the alignment and adds less than one
/// alignment unit.
pub proof fn lemma_align_up(offset: nat, align: nat)
    requires
        align > 0,
    ensures
        align_up(offset, align) % align == 0,
        offset <= align_up(offset, align) < offset + align,
        offset % align == 0 ==> align_up(offset, align) == offset,
{
    let d = align as int;
    let x = offset as int;
    lemma_fundamental_div_mod(x, d);
    if x % d != 0 {
        let q = x / d;
        assert(d * (q + 1) == d * q + d) by (nonlinear_arith);
        assert((q + 1) * d == d * (q + 1)) by (nonlinear_arith);
        lemma_mod_multiples_basic(q + 1, d);
    }
}

/// Size in bytes of a value of the given kind.
pub open spec fn kind_size(kind: FieldKind) -> nat {
    match kind {
        FieldKind::Float => 4,
        FieldKind::Uint => 4,
        FieldKind::Vector => 16,
    }
}

/// Alignment in bytes of a value of the given kind: scalars align to 4,
/// vectors to 16.
pub open spec fn kind_align(kind: FieldKind) -> nat {
    match kind {
        FieldKind::Float => 4,
        FieldKind::Uint => 4,
        FieldKind::Vector => 16,
    }
}

/// The four bytes of `x`, least significant first.
pub open spec fn le_bytes(x: u32) -> Seq<u8> {
    seq![
        (x % 256) as u8,
        ((x / 256) % 256) as u8,
        ((x / 65536) % 256) as u8,
        ((x / 16777216) % 256) as u8,
    ]
}

/// The bytes a value occupies in a uniform block.
pub open spec fn value_bytes(value: ParamValue) -> Seq<u8> {
    match value {
        ParamValue::Float(bits) => le_bytes(bits),
        ParamValue::Uint(x) => le_bytes(x),
        ParamValue::Vector(x, y, z, w) => le_bytes(x) + le_bytes(y) + le_bytes(z) + le_bytes(w),
    }
}

/// `n` zero bytes.
pub open spec fn zeros(n: nat) -> Seq<u8> {
    Seq::new(n, |i: int| 0u8)
}

/// The unpadded bytes of the block of `slot`, built from those of the first
/// `n` fields that are bound to `slot`, in declaration order.
pub open spec fn raw_block(fields: Seq<FieldSpec>, slot: u32, n: nat) -> Seq<u8>
    recommends
        n <= fields.len(),
    decreases n,
{
    if n == 0 {
        Seq::empty()
    } else {
        let prev = raw_block(fields, slot, (n - 1) as nat);
        let f = fields[n - 1];
        if f.slot == slot {
            prev + zeros(padding_for(prev.len(), kind_align(f.value.kind()))) + value_bytes(f.value)
        } else {
            prev
        }
    }
}

/// The block of `slot`: its fields in declaration order, each padded to its
/// alignment, and the whole padded to the block alignment.
pub open spec fn block(fields: Seq<FieldSpec>, slot: u32) -> Seq<u8> {
    let raw = raw_block(fields, slot, fields.len());
    raw + zeros(padding_for(raw.len(), BLOCK_ALIGN as nat))
}

/// The blocks of slots `0..s`, one after the other.
pub open spec fn blocks_upto(fields: Seq<FieldSpec>, s: nat) -> Seq<u8>
    recommends
        s <= slot_limit(),
    decreases s,
{
    if s == 0 {
        Seq::empty()
    } else {
        blocks_upto(fields, (s - 1) as nat) + block(fields, (s - 1) as u32)
    }
}

/// The packed uniform buffer of a parameter set: the blocks of all slots in
/// ascending slot order. A slot without fields contributes nothing.
pub open spec fn packed(fields: Seq<FieldSpec>) -> Seq<u8> {
    blocks_upto(fields, slot_limit())
}

/// True when some field is bound to `slot`.
pub open spec fn slot_used(fields: Seq<FieldSpec>, slot: u32) -> bool {
    exists|i: int| 0 <= i < fields.len() && (#[trigger] fields[i]).slot == slot
}

/// A slot that no field is bound to has an empty block.
pub proof fn lemma_unused_block_empty(fields: Seq<FieldSpec>, slot: u32)
    requires
        !slot_used(fields, slot),
    ensures
        block(fields, slot) == Seq::<u8>::empty(),
{
    lemma_unused_raw_empty(fields, slot, fields.len());
    assert(block(fields, slot) =~= Seq::<u8>::empty());
}

proof fn lemma_unused_raw_empty(fields: Seq<FieldSpec>, slot: u32, n: nat)
    requires
        !slot_used(fields, slot),
        n <= fields.len(),
    ensures
        raw_block(fields, slot, n) == Seq::<u8>::empty(),
    decreases n,
{
    if n > 0 {
        lemma_unused_raw_empty(fields, slot, (n - 1) as nat);
        assert(fields[n - 1].slot != slot);
    }
}

/// Slots `a..b` contribute nothing when no field is bound to any of them.
pub proof fn lemma_unused_range_empty(fields: Seq<FieldSpec>, a: nat, b: nat)
    requires
        a <= b <= slot_limit(),
        forall|i: int| 0 <= i < fields.len() ==> !(a <= (#[trigger] fields[i]).slot < b),
    ensures
        blocks_upto(fields, b) == blocks_upto(fields, a),
    decreases b,
{
    if a < b {
        lemma_unused_range_empty(fields, a, (b - 1) as nat);
        let slot = (b - 1) as u32;
        assert(!slot_used(fields, slot));
        lemma_unused_block_empty(fields, slot);
        assert(blocks_upto(fields, b) =~= blocks_upto(fields, (b - 1) as nat));
    }
}

/// End offset within the block of `slot` after laying out those of the first
/// `n` fields that are bound to it: the sum of their padded sizes.
pub open spec fn raw_len(fields: Seq<FieldSpec>, slot: u32, n: nat) -> nat
    recommends
        n <= fields.len(),
    decreases n,
{
    if n == 0 {
        0
    } else {
        let prev = raw_len(fields, slot, (n - 1) as nat);
        let f = fields[n - 1];
        if f.slot == slot {
            align_up(prev, kind_align(f.value.kind())) + kind_size(f.value.kind())
        } else {
            prev
        }
    }
}

/// Size in bytes of the block of `slot`.
pub open spec fn block_size(fields: Seq<FieldSpec>, slot: u32) -> nat {
    align_up(raw_len(fields, slot, fields.len()), BLOCK_ALIGN as nat)
}

/// Total size in bytes of the blocks of slots `0..s`.
pub open spec fn size_upto(fields: Seq<FieldSpec>, s: nat) -> nat
    recommends
        s <= slot_limit(),
    decreases s,
{
    if s == 0 {
        0
    } else {
        size_upto(fields, (s - 1) as nat) + block_size(fields, (s - 1) as u32)
    }
}

/// Size in bytes of the packed buffer.
pub open spec fn packed_size(fields: Seq<FieldSpec>) -> nat {
    size_upto(fields, slot_limit())
}

/// The bindings of the used slots among `0..s`, in ascending slot order:
/// each names the range that the block of its slot takes in the packed
/// buffer. (The ranges are exact wherever the buffer fits in memory.)
pub open spec fn bindings_upto(fields: Seq<FieldSpec>, s: nat) -> Seq<BlockBinding>
    recommends
        s <= slot_limit(),
    decreases s,
{
    if s == 0 {
        Seq::empty()
    } else {
        let prev = bindings_upto(fields, (s - 1) as nat);
        let slot = (s - 1) as u32;
        if slot_used(fields, slot) {
            prev.push(
                BlockBinding {
                    slot,
                    offset: size_upto(fields, (s - 1) as nat) as usize,
                    size: block_size(fields, slot) as usize,
                },
            )
        } else {
            prev
        }
    }
}

/// The bindings of a parameter set: one for every slot that a field is
/// bound to, in ascending slot order.
pub open spec fn bindings_of(fields: Seq<FieldSpec>) -> Seq<BlockBinding> {
    bindings_upto(fields, slot_limit())
}

/// Slots `a..b` add no binding when no field is bound to any of them.
pub proof fn lemma_unused_range_unbound(fields: Seq<FieldSpec>, a: nat, b: nat)
    requires
        a <= b <= slot_limit(),
        forall|i: int| 0 <= i < fields.len() ==> !(a <= (#[trigger] fields[i]).slot < b),
    ensures
        bindings_upto(fields, b) == bindings_upto(fields, a),
    decreases b,
{
    if a < b {
        lemma_unused_range_unbound(fields, a, (b - 1) as nat);
        assert(!slot_used(fields, (b - 1) as u32));
    }
}

/// Offset of field `i` within the block of its slot.
pub open spec fn field_offset(fields: Seq<FieldSpec>, i: int) -> nat
    recommends
        0 <= i < fields.len(),
{
    align_up(raw_len(fields, fields[i].slot, i as nat), kind_align(fields[i].value.kind()))
}

/// Offset of the block of `slot` within the packed buffer.
pub open spec fn block_base(fields: Seq<FieldSpec>, slot: u32) -> nat {
    size_upto(fields, slot as nat)
}

/// Offset of field `i` within the packed buffer.
pub open spec fn buffer_offset(fields: Seq<FieldSpec>, i: int) -> nat
    recommends
        0 <= i < fields.len(),
{
    block_base(fields, fields[i].slot) + field_offset(fields, i)
}

/// `fields` with the value of field `i` replaced by `value`.
pub open spec fn with_value(fields: Seq<FieldSpec>, i: int, value: ParamValue) -> Seq<FieldSpec>
    recommends
        0 <= i < fields.len(),
{
    fields.update(i, FieldSpec { name: fields[i].name, slot: fields[i].slot, value })
}

/// `a` and `b` have the same length and agree on every byte outside `lo..hi`.
pub open spec fn same_outside(a: Seq<u8>, b: Seq<u8>, lo: int, hi: int) -> bool {
    &&& a.len() == b.len()
    &&& forall|k: int| 0 <= k < a.len() && !(lo <= k < hi) ==> a[k] == b[k]
}

/// A value occupies as many bytes as its kind says.
pub proof fn lemma_value_bytes_len(value: ParamValue)
    ensures
        value_bytes(value).len() == kind_size(value.kind()),
{
}

/// The unpadded block is as long as the sum of the padded sizes of its fields.
pub proof fn lemma_raw_block_len(fields: Seq<FieldSpec>, slot: u32, n: nat)
    requires
        n <= fields.len(),
    ensures
        raw_block(fields, slot, n).len() == raw_len(fields, slot, n),
    decreases n,
{
    if n > 0 {
        lemma_raw_block_len(fields, slot, (n - 1) as nat);
        lemma_value_bytes_len(fields[n - 1].value);
    }
}

/// The length of a block is the sum of the padded sizes of its fields,
/// rounded up to the block alignment.
pub proof fn law_block_length(fields: Seq<FieldSpec>, slot: u32)
    ensures
        block(fields, slot).len() == block_size(fields, slot),
        block(fields, slot).len() % 16 == 0,
{
    lemma_raw_block_len(fields, slot, fields.len());
    lemma_align_up(raw_len(fields, slot, fields.len()), 16);
}

/// The blocks of slots `0..s` are as long as their sizes together.
pub proof fn lemma_blocks_upto_len(fields: Seq<FieldSpec>, s: nat)
    requires
        s <= slot_limit(),
    ensures
        blocks_upto(fields, s).len() == size_upto(fields, s),
        size_upto(fields, s) % 16 == 0,
    decreases s,
{
    if s > 0 {
        lemma_blocks_upto_len(fields, (s - 1) as nat);
        law_block_length(fields, (s - 1) as u32);
    }
}

/// The packed buffer is as long as its blocks together, which is a multiple
/// of the block alignment.
pub proof fn law_packed_length(fields: Seq<FieldSpec>)
    ensures
        packed(fields).len() == packed_size(fields),
        packed(fields).len() % 16 == 0,
{
    lemma_blocks_upto_len(fields, slot_limit());
}

/// A set whose fields all share one slot packs to exactly that slot's block:
/// the sum of the padded field sizes, rounded up to the block alignment.
pub proof fn law_single_slot_length(fields: Seq<FieldSpec>, slot: u32)
    requires
        forall|i: int| 0 <= i < fields.len() ==> (#[trigger] fields[i]).slot == slot,
    ensures
        packed(fields) == block(fields, slot),
        packed(fields).len() == align_up(raw_len(fields, slot, fields.len()), 16),
{
    lemma_unused_range_empty(fields, 0, slot as nat);
    lemma_unused_range_empty(fields, (slot + 1) as nat, slot_limit());
    assert(blocks_upto(fields, 0) =~= Seq::<u8>::empty());
    assert(blocks_upto(fields, (slot + 1) as nat) =~= block(fields, slot));
    law_block_length(fields, slot);
}

/// The packed bytes depend on the slot and value of each field only, not on
/// the names: packing equal values again gives the same buffer.
pub proof fn law_pack_is_function_of_values(a: Seq<FieldSpec>, b: Seq<FieldSpec>)
    requires
        a.len() == b.len(),
        forall|i: int|
            0 <= i < a.len() ==> (#[trigger] a[i]).slot == b[i].slot && a[i].value == b[i].value,
    ensures
        packed(a) == packed(b),
{
    lemma_blocks_same(a, b, slot_limit());
}

proof fn lemma_raw_same(a: Seq<FieldSpec>, b: Seq<FieldSpec>, slot: u32, n: nat)
    requires
        a.len() == b.len(),
        n <= a.len(),
        forall|i: int|
            0 <= i < a.len() ==> (#[trigger] a[i]).slot == b[i].slot && a[i].value == b[i].value,
    ensures
        raw_block(a, slot, n) == raw_block(b, slot, n),
    decreases n,
{
    if n > 0 {
        lemma_raw_same(a, b, slot, (n - 1) as nat);
        assert(a[n - 1].slot == b[n - 1].slot);
    }
}

proof fn lemma_blocks_same(a: Seq<FieldSpec>, b: Seq<FieldSpec>, s: nat)
    requires
        a.len() == b.len(),
        s <= slot_limit(),
        forall|i: int|
            0 <= i < a.len() ==> (#[trigger] a[i]).slot == b[i].slot && a[i].value == b[i].value,
    ensures
        blocks_upto(a, s) == blocks_upto(b, s),
    decreases s,
{
    if s > 0 {
        lemma_blocks_same(a, b, (s - 1) as nat);
        lemma_raw_same(a, b, (s - 1) as u32, a.len());
    }
}

/// The end offset of a block never shrinks as more fields are laid out.
pub proof fn lemma_raw_len_monotonic(fields: Seq<FieldSpec>, slot: u32, m: nat, n: nat)
    requires
        m <= n <= fields.len(),
    ensures
        raw_len(fields, slot, m) <= raw_len(fields, slot, n),
    decreases n,
{
    if m < n {
        lemma_raw_len_monotonic(fields, slot, m, (n - 1) as nat);
    }
}

/// The end offset after `n` fields depends on those `n` fields only.
pub proof fn lemma_raw_len_prefix(a: Seq<FieldSpec>, b: Seq<FieldSpec>, slot: u32, n: nat)
    requires
        n <= a.len(),
        n <= b.len(),
        forall|i: int| 0 <= i < n ==> a[i] == b[i],
    ensures
        raw_len(a, slot, n) == raw_len(b, slot, n),
    decreases n,
{
    if n > 0 {
        lemma_raw_len_prefix(a, b, slot, (n - 1) as nat);
    }
}

/// Replacing a value by one of the same kind moves nothing.
pub proof fn lemma_edit_raw_len(fields: Seq<FieldSpec>, i: int, value: ParamValue, slot: u32, n: nat)
    requires
        0 <= i < fields.len(),
        value.kind() == fields[i].value.kind(),
        n <= fields.len(),
    ensures
        raw_len(with_value(fields, i, value), slot, n) == raw_len(fields, slot, n),
    decreases n,
{
    if n > 0 {
        lemma_edit_raw_len(fields, i, value, slot, (n - 1) as nat);
    }
}

/// Effect of replacing the value of field `i` on the unpadded block of
/// `slot` after `n` fields.
proof fn lemma_edit_raw(fields: Seq<FieldSpec>, i: int, value: ParamValue, slot: u32, n: nat)
    requires
        0 <= i < fields.len(),
        value.kind() == fields[i].value.kind(),
        n <= fields.len(),
    ensures
        ({
            let edited = with_value(fields, i, value);
            let lo = field_offset(fields, i) as int;
            let hi = lo + kind_size(value.kind());
            if slot == fields[i].slot && n > i {
                &&& same_outside(raw_block(edited, slot, n), raw_block(fields, slot, n), lo, hi)
                &&& hi <= raw_len(fields, slot, n)
                &&& raw_block(edited, slot, n).subrange(lo, hi) == value_bytes(value)
            } else {
                raw_block(edited, slot, n) == raw_block(fields, slot, n)
            }
        }),
    decreases n,
{
    let edited = with_value(fields, i, value);
    let lo = field_offset(fields, i) as int;
    let hi = lo + kind_size(value.kind());
    if n > 0 {
        let m = (n - 1) as nat;
        lemma_edit_raw(fields, i, value, slot, m);
        lemma_edit_raw_len(fields, i, value, slot, m);
        lemma_raw_block_len(fields, slot, m);
        lemma_raw_block_len(edited, slot, m);
        lemma_raw_block_len(fields, slot, n);
        lemma_raw_block_len(edited, slot, n);
        lemma_edit_raw_len(fields, i, value, slot, n);
        let f = fields[n - 1];
        let e = edited[n - 1];
        lemma_value_bytes_len(f.value);
        lemma_value_bytes_len(e.value);
        let old_prev = raw_block(fields, slot, m);
        let new_prev = raw_block(edited, slot, m);
        let old_now = raw_block(fields, slot, n);
        let new_now = raw_block(edited, slot, n);
        if f.slot == slot {
            let pad = padding_for(old_prev.len(), kind_align(f.value.kind()));
            assert(old_now == old_prev + zeros(pad) + value_bytes(f.value));
            assert(new_now == new_prev + zeros(pad) + value_bytes(e.value));
            if n - 1 == i {
                assert(lo == old_prev.len() + pad);
                assert(new_prev == old_prev);
                assert(new_now.subrange(lo, hi) =~= value_bytes(value));
                assert(same_outside(new_now, old_now, lo, hi));
            } else if slot == fields[i].slot && n - 1 > i {
                assert(e == f);
                assert(new_now.subrange(lo, hi) =~= new_prev.subrange(lo, hi));
                assert(same_outside(new_now, old_now, lo, hi));
            } else {
                assert(e == f);
            }
        } else {
            assert(e.slot == f.slot);
        }
    }
}

/// Effect of replacing the value of field `i` on the block of `slot`.
proof fn lemma_edit_block(fields: Seq<FieldSpec>, i: int, value: ParamValue, slot: u32)
    requires
        0 <= i < fields.len(),
        value.kind() == fields[i].value.kind(),
    ensures
        ({
            let edited = with_value(fields, i, value);
            let lo = field_offset(fields, i) as int;
            let hi = lo + kind_size(value.kind());
            if slot == fields[i].slot {
                &&& same_outside(block(edited, slot), block(fields, slot), lo, hi)
                &&& hi <= block_size(fields, slot)
                &&& block(edited, slot).subrange(lo, hi) == value_bytes(value)
            } else {
                block(edited, slot) == block(fields, slot)
            }
        }),
{
    let edited = with_value(fields, i, value);
    let lo = field_offset(fields, i) as int;
    let hi = lo + kind_size(value.kind());
    let n = fields.len();
    lemma_edit_raw(fields, i, value, slot, n);
    lemma_edit_raw_len(fields, i, value, slot, n);
    lemma_raw_block_len(fields, slot, n);
    lemma_raw_block_len(edited, slot, n);
    lemma_align_up(raw_len(fields, slot, n), 16);
    if slot == fields[i].slot {
        assert(block(edited, slot).subrange(lo, hi) =~= raw_block(edited, slot, n).subrange(
            lo,
            hi,
        ));
        assert(same_outside(block(edited, slot), block(fields, slot), lo, hi));
    }
}

/// Effect of replacing the value of field `i` on the blocks of slots `0..s`.
proof fn lemma_edit_blocks(fields: Seq<FieldSpec>, i: int, value: ParamValue, s: nat)
    requires
        0 <= i < fields.len(),
        value.kind() == fields[i].value.kind(),
        s <= slot_limit(),
    ensures
        ({
            let edited = with_value(fields, i, value);
            let lo = buffer_offset(fields, i) as int;
            let hi = lo + kind_size(value.kind());
            if s > fields[i].slot {
                &&& same_outside(blocks_upto(edited, s), blocks_upto(fields, s), lo, hi)
                &&& hi <= size_upto(fields, s)
                &&& blocks_upto(edited, s).subrange(lo, hi) == value_bytes(value)
            } else {
                blocks_upto(edited, s) == blocks_upto(fields, s)
            }
        }),
    decreases s,
{
    let edited = with_value(fields, i, value);
    let lo = buffer_offset(fields, i) as int;
    let hi = lo + kind_size(value.kind());
    if s > 0 {
        let t = (s - 1) as nat;
        let slot = t as u32;
        lemma_edit_blocks(fields, i, value, t);
        lemma_edit_block(fields, i, value, slot);
        lemma_blocks_upto_len(fields, t);
        lemma_blocks_upto_len(edited, t);
        lemma_blocks_upto_len(fields, s);
        lemma_blocks_upto_len(edited, s);
        law_block_length(fields, slot);
        law_block_length(edited, slot);
        let old_prev = blocks_upto(fields, t);
        let new_prev = blocks_upto(edited, t);
        let old_now = blocks_upto(fields, s);
        let new_now = blocks_upto(edited, s);
        assert(old_now == old_prev + block(fields, slot));
        assert(new_now == new_prev + block(edited, slot));
        if slot == fields[i].slot {
            let base = old_prev.len() as int;
            let blo = field_offset(fields, i) as int;
            let bhi = blo + kind_size(value.kind());
            assert(lo == base + blo);
            assert(new_prev == old_prev);
            assert(new_now.subrange(lo, hi) =~= block(edited, slot).subrange(blo, bhi));
            assert forall|k: int| 0 <= k < new_now.len() && !(lo <= k < hi) implies new_now[k]
                == old_now[k] by {
                if k >= base {
                    assert(new_now[k] == block(edited, slot)[k - base]);
                    assert(old_now[k] == block(fields, slot)[k - base]);
                }
            }
        } else if s > fields[i].slot {
            assert(new_now.subrange(lo, hi) =~= new_prev.subrange(lo, hi));
            assert(same_outside(new_now, old_now, lo, hi));
        }
    }
}

/// Replacing the value of one field by a value of the same kind changes the
/// packed buffer at that field's offset and nowhere else: the buffer keeps its
/// length, holds the new value's bytes at the field's offset, and every byte
/// outside the field is what it was.
pub proof fn law_edit_is_local(fields: Seq<FieldSpec>, i: int, value: ParamValue)
    requires
        0 <= i < fields.len(),
        value.kind() == fields[i].value.kind(),
    ensures
        ({
            let edited = with_value(fields, i, value);
            let lo = buffer_offset(fields, i) as int;
            let hi = lo + kind_size(value.kind());
            &&& hi <= packed(fields).len()
            &&& same_outside(packed(edited), packed(fields), lo, hi)
            &&& packed(edited).subrange(lo, hi) == value_bytes(value)
        }),
{
    lemma_edit_blocks(fields, i, value, slot_limit());
    law_packed_length(fields);
}

/// Every field starts at a multiple of the alignment of its kind, within its
/// block and within the packed buffer, and every block starts at a multiple
/// of the block alignment.
pub proof fn law_offsets_aligned(fields: Seq<FieldSpec>, i: int)
    requires
        0 <= i < fields.len(),
    ensures
        field_offset(fields, i) % kind_align(fields[i].value.kind()) == 0,
        block_base(fields, fields[i].slot) % 16 == 0,
        buffer_offset(fields, i) % kind_align(fields[i].value.kind()) == 0,
{
    let slot = fields[i].slot;
    let align = kind_align(fields[i].value.kind());
    lemma_align_up(raw_len(fields, slot, i as nat), align);
    lemma_blocks_upto_len(fields, slot as nat);
}

/// Every field's bytes stand at its offset in the packed buffer.
pub proof fn law_field_at_offset(fields: Seq<FieldSpec>, i: int)
    requires
        0 <= i < fields.len(),
    ensures
        ({
            let lo = buffer_offset(fields, i) as int;
            let hi = lo + kind_size(fields[i].value.kind());
            &&& hi <= packed(fields).len()
            &&& packed(fields).subrange(lo, hi) == value_bytes(fields[i].value)
        }),
{
    assert(with_value(fields, i, fields[i].value) =~= fields);
    law_edit_is_local(fields, i, fields[i].value);
}

/// A field ends within the unpadded block of its slot as soon as it is laid
/// out.
proof fn lemma_field_within_raw(fields: Seq<FieldSpec>, i: int, n: nat)
    requires
        0 <= i < n <= fields.len(),
    ensures
        field_offset(fields, i) + kind_size(fields[i].value.kind()) <= raw_len(
            fields,
            fields[i].slot,
            n,
        ),
{
    lemma_raw_len_monotonic(fields, fields[i].slot, (i + 1) as nat, n);
}

/// The total size of the blocks never shrinks as more slots are counted.
proof fn lemma_size_upto_monotonic(fields: Seq<FieldSpec>, a: nat, b: nat)
    requires
        a <= b <= slot_limit(),
    ensures
        size_upto(fields, a) <= size_upto(fields, b),
    decreases b,
{
    if a < b {
        lemma_size_upto_monotonic(fields, a, (b - 1) as nat);
    }
}

/// A field lies within the block of its slot, and the block within the
/// packed buffer.
pub proof fn law_field_within_block(fields: Seq<FieldSpec>, i: int)
    requires
        0 <= i < fields.len(),
    ensures
        field_offset(fields, i) + kind_size(fields[i].value.kind()) <= block_size(
            fields,
            fields[i].slot,
        ),
        block_base(fields, fields[i].slot) + block_size(fields, fields[i].slot) <= packed_size(
            fields,
        ),
{
    let slot = fields[i].slot;
    lemma_field_within_raw(fields, i, fields.len());
    lemma_align_up(raw_len(fields, slot, fields.len()), 16);
    lemma_size_upto_monotonic(fields, (slot + 1) as nat, slot_limit());
}

/// No two fields share a byte of the packed buffer.
pub proof fn law_fields_disjoint(fields: Seq<FieldSpec>, i: int, j: int)
    requires
        0 <= i < fields.len(),
        0 <= j < fields.len(),
        i != j,
    ensures
        buffer_offset(fields, i) + kind_size(fields[i].value.kind()) <= buffer_offset(fields, j)
            || buffer_offset(fields, j) + kind_size(fields[j].value.kind()) <= buffer_offset(
            fields,
            i,
        ),
{
    let si = fields[i].slot;
    let sj = fields[j].slot;
    if si == sj {
        if i < j {
            lemma_field_within_raw(fields, i, j as nat);
            lemma_align_up(raw_len(fields, sj, j as nat), kind_align(fields[j].value.kind()));
        } else {
            lemma_field_within_raw(fields, j, i as nat);
            lemma_align_up(raw_len(fields, si, i as nat), kind_align(fields[i].value.kind()));
        }
    } else if si < sj {
        law_field_within_block(fields, i);
        lemma_size_upto_monotonic(fields, (si + 1) as nat, sj as nat);
    } else {
        law_field_within_block(fields, j);
        lemma_size_upto_monotonic(fields, (sj + 1) as nat, si as nat);
    }
}

/// True when byte `k` of the block of `slot` belongs to one of the first
/// `n` fields.
pub open spec fn in_block_field(fields: Seq<FieldSpec>, slot: u32, n: nat, k: int) -> bool {
    exists|i: int|
        0 <= i < n && (#[trigger] fields[i]).slot == slot && field_offset(fields, i) <= k
            < field_offset(fields, i) + kind_size(fields[i].value.kind())
}

/// True when byte `k` of the packed buffer belongs to a field.
pub open spec fn in_field(fields: Seq<FieldSpec>, k: int) -> bool {
    exists|i: int|
        0 <= i < fields.len() && buffer_offset(fields, i) <= k < buffer_offset(fields, i)
            + kind_size((#[trigger] fields[i]).value.kind())
}

proof fn lemma_raw_padding_is_zero(fields: Seq<FieldSpec>, slot: u32, n: nat, k: int)
    requires
        n <= fields.len(),
        0 <= k < raw_len(fields, slot, n),
        !in_block_field(fields, slot, n, k),
    ensures
        raw_block(fields, slot, n)[k] == 0,
    decreases n,
{
    if n > 0 {
        let m = (n - 1) as nat;
        let f = fields[n - 1];
        lemma_raw_block_len(fields, slot, m);
        lemma_raw_block_len(fields, slot, n);
        lemma_value_bytes_len(f.value);
        if k < raw_len(fields, slot, m) {
            if in_block_field(fields, slot, m, k) {
                let i = choose|i: int|
                    0 <= i < m && (#[trigger] fields[i]).slot == slot && field_offset(fields, i)
                        <= k < field_offset(fields, i) + kind_size(fields[i].value.kind());
                assert(fields[i].slot == slot);
            }
            lemma_raw_padding_is_zero(fields, slot, m, k);
        } else {
            assert(f.slot == slot);
            assert(k < field_offset(fields, n - 1));
        }
    }
}

proof fn lemma_block_padding_is_zero(fields: Seq<FieldSpec>, slot: u32, k: int)
    requires
        0 <= k < block_size(fields, slot),
        !in_block_field(fields, slot, fields.len(), k),
    ensures
        block(fields, slot)[k] == 0,
{
    lemma_raw_block_len(fields, slot, fields.len());
    if k < raw_len(fields, slot, fields.len()) {
        lemma_raw_padding_is_zero(fields, slot, fields.len(), k);
    }
}

proof fn lemma_blocks_padding_is_zero(fields: Seq<FieldSpec>, s: nat, k: int)
    requires
        s <= slot_limit(),
        0 <= k < size_upto(fields, s),
        !in_field(fields, k),
    ensures
        blocks_upto(fields, s)[k] == 0,
    decreases s,
{
    if s > 0 {
        let t = (s - 1) as nat;
        let slot = t as u32;
        lemma_blocks_upto_len(fields, t);
        law_block_length(fields, slot);
        if k < size_upto(fields, t) {
            lemma_blocks_padding_is_zero(fields, t, k);
        } else {
            let local = k - size_upto(fields, t);
            if in_block_field(fields, slot, fields.len(), local) {
                let i = choose|i: int|
                    0 <= i < fields.len() && (#[trigger] fields[i]).slot == slot && field_offset(
                        fields,
                        i,
                    ) <= local < field_offset(fields, i) + kind_size(fields[i].value.kind());
                assert(buffer_offset(fields, i) <= k < buffer_offset(fields, i) + kind_size(
                    fields[i].value.kind(),
                ));
            }
            lemma_block_padding_is_zero(fields, slot, local);
        }
    }
}

/// Every byte of the packed buffer that belongs to no field is zero.
pub proof fn law_padding_is_zero(fields: Seq<FieldSpec>, k: int)
    requires
        0 <= k < packed(fields).len(),
        !in_field(fields, k),
    ensures
        packed(fields)[k] == 0,
{
    law_packed_length(fields);
    lemma_blocks_padding_is_zero(fields, slot_limit(), k);
}

} // verus!
