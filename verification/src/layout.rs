//! Reading a run of fields off a buffer, in the order of a field list.
//!
//! A record is laid out as a list of slots, each a destination and a width
//! in bits. The fields are read one after the other, most significant bit
//! first, and reading fails as soon as a field does not fit in what is left.

use vstd::prelude::*;
use vstd::arithmetic::power2::pow2;
use crate::bits::{bits_of_bytes, lemma_field_in_byte, lemma_value_of_bits_bound, value_of_bits};
use crate::cursor::BitCursor;

verus! {

/// One entry of a field list: where a field goes and how many bits it has.
#[derive(Debug)]
pub struct Slot<F> {
    /// The destination of the field.
    pub field: F,
    /// The number of bits of the field.
    pub width: u32,
}

/// Whether every slot of a field list is between one and sixteen bits wide.
pub open spec fn widths_in_range<F>(layout: Seq<Slot<F>>) -> bool {
    forall|i: int| 0 <= i < layout.len() ==> 1 <= (#[trigger] layout[i]).width <= 16
}

/// The number of bits that the first `count` slots of a field list take.
pub open spec fn width_of_first<F>(layout: Seq<Slot<F>>, count: nat) -> nat
    decreases count,
{
    if count == 0 {
        0
    } else {
        width_of_first(layout, (count - 1) as nat) + layout[count - 1].width as nat
    }
}

/// The number of bits that a field list takes.
pub open spec fn total_width<F>(layout: Seq<Slot<F>>) -> nat {
    width_of_first(layout, layout.len())
}

proof fn lemma_width_of_prefix<F>(layout: Seq<Slot<F>>, count: nat)
    requires
        count < layout.len(),
    ensures
        width_of_first(layout.drop_last(), count) == width_of_first(layout, count),
    decreases count,
{
    if count > 0 {
        lemma_width_of_prefix(layout, (count - 1) as nat);
    }
}

/// The values of the fields of a list, read off the front of `bits`, together
/// with the bits that are left; `None` where some field does not fit.
pub open spec fn field_values<F>(bits: Seq<bool>, layout: Seq<Slot<F>>) -> Option<
    (Seq<u16>, Seq<bool>),
>
    decreases layout.len(),
{
    if layout.len() == 0 {
        Some((Seq::empty(), bits))
    } else {
        match field_values(bits, layout.drop_last()) {
            None => None,
            Some((values, rest)) => {
                let width = layout.last().width as int;
                if rest.len() < width {
                    None
                } else {
                    Some((values.push(value_of_bits(rest.take(width)) as u16), rest.skip(width)))
                }
            },
        }
    }
}

/// The fields of a list can be read exactly where the bits are at least as
/// many as the list takes; what is left then is what follows those bits, and
/// there is one value for each slot.
pub proof fn lemma_field_values<F>(bits: Seq<bool>, layout: Seq<Slot<F>>)
    ensures
        field_values(bits, layout) is Some <==> total_width(layout) <= bits.len(),
        field_values(bits, layout) matches Some((values, rest)) ==> values.len() == layout.len()
            && rest == bits.skip(total_width(layout) as int),
    decreases layout.len(),
{
    if layout.len() > 0 {
        lemma_field_values(bits, layout.drop_last());
        lemma_width_of_prefix(layout, (layout.len() - 1) as nat);
        match field_values(bits, layout.drop_last()) {
            None => {},
            Some((values, rest)) => {
                let width = layout.last().width as int;
                if rest.len() >= width {
                    assert(rest.skip(width) == bits.skip(total_width(layout) as int));
                }
            },
        }
    } else {
        assert(bits.skip(0) == bits);
    }
}

/// The value of field `i` of a list is the number that its bits spell: the
/// bits after those of the slots before it.
pub proof fn lemma_field_value<F>(bits: Seq<bool>, layout: Seq<Slot<F>>, i: int)
    requires
        0 <= i < layout.len(),
    ensures
        field_values(bits, layout) matches Some((values, rest)) ==> values[i] == value_of_bits(
            bits.subrange(
                width_of_first(layout, i as nat) as int,
                width_of_first(layout, (i + 1) as nat) as int,
            ),
        ) as u16,
    decreases layout.len(),
{
    let head = layout.drop_last();
    lemma_field_values(bits, head);
    lemma_field_values(bits, layout);
    lemma_width_of_prefix(layout, (layout.len() - 1) as nat);
    if let Some((values, rest)) = field_values(bits, layout) {
        let (earlier, before) = field_values(bits, head)->0;
        if i == layout.len() - 1 {
            let width = layout.last().width as int;
            assert(before.take(width) == bits.subrange(
                width_of_first(layout, i as nat) as int,
                width_of_first(layout, (i + 1) as nat) as int,
            ));
        } else {
            lemma_field_value(bits, head, i);
            lemma_width_of_prefix(layout, i as nat);
            lemma_width_of_prefix(layout, (i + 1) as nat);
            assert(values[i] == earlier[i]);
        }
    }
}

/// A field of a list that lies within one byte of the buffer, from bit
/// `from` up to but not including bit `to` of byte `j`, has as its value the
/// byte without its low `8 - to` bits, taken modulo two to the width of the
/// field.
pub proof fn lemma_field_of_byte<F>(
    bytes: Seq<u8>,
    layout: Seq<Slot<F>>,
    i: int,
    j: int,
    from: int,
    to: int,
)
    requires
        0 <= i < layout.len(),
        0 <= j < bytes.len(),
        0 <= from <= to <= 8,
        width_of_first(layout, i as nat) == 8 * j + from,
        width_of_first(layout, (i + 1) as nat) == 8 * j + to,
    ensures
        field_values(bits_of_bytes(bytes), layout) matches Some((values, rest)) ==> values[i]
            as nat == (bytes[j] as nat / pow2((8 - to) as nat)) % pow2((to - from) as nat),
{
    let bits = bits_of_bytes(bytes);
    lemma_field_value(bits, layout, i);
    lemma_field_in_byte(bytes, j, from, to);
    lemma_value_of_bits_bound(bits.subrange(8 * j + from, 8 * j + to));
    vstd::arithmetic::power2::lemma2_to64();
    vstd::arithmetic::power2::lemma_pow2_strictly_increases((to - from) as nat, 9);
}

/// Reads the fields of a list off a cursor, in order.
pub fn read_fields<F>(cursor: &mut BitCursor, layout: &[Slot<F>]) -> (result: Option<Vec<u16>>)
    requires
        widths_in_range(layout@),
    ensures
        match result {
            Some(values) => field_values(old(cursor).remaining(), layout@) == Some(
                (values@, final(cursor).remaining()),
            ),
            None => field_values(old(cursor).remaining(), layout@) is None,
        },
{
    let mut values: Vec<u16> = Vec::new();
    let mut i: usize = 0;
    while i < layout.len()
        invariant
            i <= layout.len(),
            widths_in_range(layout@),
            field_values(old(cursor).remaining(), layout@.take(i as int)) == Some(
                (values@, cursor.remaining()),
            ),
        decreases layout.len() - i,
    {
        proof {
            assert(layout@.take(i + 1).drop_last() == layout@.take(i as int));
            lemma_value_of_bits_bound(cursor.remaining().take(layout@[i as int].width as int));
        }
        match cursor.read(layout[i].width) {
            Some(value) => {
                values.push(value);
            },
            None => {
                proof {
                    lemma_rest_stays_unread(old(cursor).remaining(), layout@, i + 1);
                }
                return None;
            },
        }
        i += 1;
    }
    proof {
        assert(layout@.take(layout@.len() as int) == layout@);
    }
    Some(values)
}

/// Once a field does not fit, no longer list can be read either.
proof fn lemma_rest_stays_unread<F>(bits: Seq<bool>, layout: Seq<Slot<F>>, upto: int)
    requires
        0 <= upto <= layout.len(),
        field_values(bits, layout.take(upto)) is None,
    ensures
        field_values(bits, layout) is None,
    decreases layout.len() - upto,
{
    if upto < layout.len() {
        assert(layout.take(upto + 1).drop_last() == layout.take(upto));
        lemma_rest_stays_unread(bits, layout, upto + 1);
    } else {
        assert(layout.take(upto) == layout);
    }
}

} // verus!
