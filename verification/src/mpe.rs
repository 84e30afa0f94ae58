//! Bounded pool of expressive MIDI channels.
//!
//! Channels 2-16 form a 15-slot pool for MPE voices; channel 1 is the
//! master channel and is never handed out.  The pool is a 16-bit usage
//! mask: bit `i` stands for channel `i + 1`, and a set bit means the
//! channel is currently held by an active voice.

use vstd::prelude::*;

use crate::midi::Channel;
use crate::midi::index_to_channel;
use crate::midi::channel_to_index;
use crate::midi::spec_channel_index;
use crate::midi::spec_index_channel;

verus! {

/// True when bit `i` of the usage mask is set (channel `i + 1` is held).
pub open spec fn mask_bit(mask: u16, i: int) -> bool {
    mask & (1u16 << (i as u16)) != 0
}

/// The lowest free slot index at or above `i`, or 16 when every slot in
/// `i..16` is taken.
pub open spec fn spec_first_free_from(mask: u16, i: int) -> int
    decreases 16 - i,
{
    if i >= 16 {
        16
    } else if !mask_bit(mask, i) {
        i
    } else {
        spec_first_free_from(mask, i + 1)
    }
}

/// The lowest free slot index in 1..16, or 16 when the pool is exhausted.
/// Slot 0 (channel 1) is never considered.
pub open spec fn spec_first_free(mask: u16) -> int {
    spec_first_free_from(mask, 1)
}

/// What `spec_first_free_from` returns: the first free slot at or above
/// `i`, with every slot strictly below it taken.
proof fn lemma_first_free_from(mask: u16, i: int)
    requires
        1 <= i <= 16,
    ensures
        i <= spec_first_free_from(mask, i) <= 16,
        spec_first_free_from(mask, i) < 16 ==> !mask_bit(mask, spec_first_free_from(mask, i)),
        forall|j: int| i <= j < spec_first_free_from(mask, i) ==> mask_bit(mask, j),
        spec_first_free_from(mask, i) == 16 ==> forall|j: int| i <= j < 16 ==> mask_bit(mask, j),
    decreases 16 - i,
{
    if i < 16 && mask_bit(mask, i) {
        lemma_first_free_from(mask, i + 1);
    }
}

/// The characterization of `spec_first_free` over the whole pool.
pub proof fn lemma_first_free(mask: u16)
    ensures
        1 <= spec_first_free(mask) <= 16,
        spec_first_free(mask) < 16 ==> !mask_bit(mask, spec_first_free(mask)),
        forall|j: int| 1 <= j < spec_first_free(mask) ==> mask_bit(mask, j),
        spec_first_free(mask) == 16 ==> forall|j: int| 1 <= j < 16 ==> mask_bit(mask, j),
{
    lemma_first_free_from(mask, 1);
}

/// A free slot below the first free one would contradict the definition.
proof fn lemma_first_free_pins(mask: u16, i: int)
    requires
        1 <= i < 16,
        !mask_bit(mask, i),
        forall|j: int| 1 <= j < i ==> mask_bit(mask, j),
    ensures
        spec_first_free(mask) == i,
{
    lemma_first_free_from(mask, 1);
    if spec_first_free(mask) < i {
        assert(mask_bit(mask, spec_first_free(mask)));
    }
}

/// Setting bit `i` leaves every other bit as it was.
pub proof fn lemma_set_bit(mask: u16, i: u16)
    requires
        i < 16,
    ensures
        mask_bit(mask | (1u16 << i), i as int),
        forall|j: int| 0 <= j < 16 && j != i ==> mask_bit(mask | (1u16 << i), j) == mask_bit(
            mask,
            j,
        ),
{
    assert((mask | (1u16 << i)) & (1u16 << i) != 0) by (bit_vector)
        requires
            i < 16,
    ;
    assert(forall|j: u16|
        j < 16 && j != i ==> ((mask | (1u16 << i)) & (1u16 << j) == mask & (1u16 << j)))
        by (bit_vector)
        requires
            i < 16,
    ;
    assert forall|j: int| 0 <= j < 16 && j != i implies mask_bit(mask | (1u16 << i), j)
        == mask_bit(mask, j) by {
        let ju = j as u16;
        assert(ju < 16 && ju != i);
        assert((mask | (1u16 << i)) & (1u16 << ju) == mask & (1u16 << ju));
    }
}

/// Clearing bit `i` leaves every other bit as it was.
pub proof fn lemma_clear_bit(mask: u16, i: u16)
    requires
        i < 16,
    ensures
        !mask_bit(mask & !(1u16 << i), i as int),
        forall|j: int| 0 <= j < 16 && j != i ==> mask_bit(mask & !(1u16 << i), j) == mask_bit(
            mask,
            j,
        ),
{
    assert((mask & !(1u16 << i)) & (1u16 << i) == 0) by (bit_vector)
        requires
            i < 16,
    ;
    assert(forall|j: u16|
        j < 16 && j != i ==> ((mask & !(1u16 << i)) & (1u16 << j) == mask & (1u16 << j)))
        by (bit_vector)
        requires
            i < 16,
    ;
    assert forall|j: int| 0 <= j < 16 && j != i implies mask_bit(mask & !(1u16 << i), j)
        == mask_bit(mask, j) by {
        let ju = j as u16;
        assert(ju < 16 && ju != i);
        assert((mask & !(1u16 << i)) & (1u16 << ju) == mask & (1u16 << ju));
    }
}

/// Allocating a free bit and then clearing it restores the mask exactly.
pub proof fn lemma_set_clear_roundtrip(mask: u16, i: u16)
    requires
        i < 16,
        mask & (1u16 << i) == 0,
    ensures
        (mask | (1u16 << i)) & !(1u16 << i) == mask,
{
    assert((mask | (1u16 << i)) & !(1u16 << i) == mask) by (bit_vector)
        requires
            i < 16,
            mask & (1u16 << i) == 0,
    ;
}

/// Lowest-free-index reuse: after channel slot `i` is freed, the next
/// allocation returns slot `i` again whenever every lower slot is taken.
pub proof fn lemma_free_then_alloc_reuses(mask: u16, i: u16)
    requires
        1 <= i < 16,
        forall|j: int| 1 <= j < i ==> mask_bit(mask, j),
    ensures
        spec_first_free(mask & !(1u16 << i)) == i,
{
    lemma_clear_bit(mask, i);
    assert forall|j: int| 1 <= j < i implies mask_bit(mask & !(1u16 << i), j) by {
        assert(mask_bit(mask, j));
        assert(mask_bit(mask & !(1u16 << i), j) == mask_bit(mask, j));
    }
    lemma_first_free_pins(mask & !(1u16 << i), i as int);
}

/// The usage mask after `k` allocations from an empty pool: slots 1..=k
/// taken, the rest free.
pub open spec fn spec_prefix_mask(k: int) -> u16
    decreases k,
{
    if k <= 0 {
        0u16
    } else {
        spec_prefix_mask(k - 1) | (1u16 << (k as u16))
    }
}

/// Which bits a prefix mask holds: exactly the slots 1..=k.
proof fn lemma_prefix_mask_bits(k: int)
    requires
        0 <= k <= 15,
    ensures
        forall|j: int| 0 <= j < 16 ==> (mask_bit(spec_prefix_mask(k), j) <==> 1 <= j <= k),
    decreases k,
{
    if k == 0 {
        assert(forall|j: u16| j < 16 ==> 0u16 & (1u16 << j) == 0) by (bit_vector);
        assert forall|j: int| 0 <= j < 16 implies !mask_bit(spec_prefix_mask(0), j) by {
            let ju = j as u16;
            assert(0u16 & (1u16 << ju) == 0);
        }
    } else {
        lemma_prefix_mask_bits(k - 1);
        lemma_set_bit(spec_prefix_mask(k - 1), k as u16);
        assert forall|j: int| 0 <= j < 16 implies (mask_bit(spec_prefix_mask(k), j) <==> 1 <= j
            <= k) by {
            if j != k {
                assert(mask_bit(spec_prefix_mask(k), j) == mask_bit(spec_prefix_mask(k - 1), j));
                assert(mask_bit(spec_prefix_mask(k - 1), j) <==> 1 <= j <= k - 1);
            }
        }
    }
}

/// Allocation from an empty pool walks the channels in order: after `k`
/// allocations the mask holds exactly slots 1..=k, the next allocation
/// takes slot `k + 1` (channel `k + 2`, never channel 1), and after the
/// fifteenth the pool is exhausted and allocation fails.
pub proof fn lemma_alloc_sequence(k: int)
    requires
        0 <= k <= 15,
    ensures
        k < 15 ==> spec_first_free(spec_prefix_mask(k)) == k + 1,
        k < 15 ==> (spec_prefix_mask(k) | (1u16 << ((k + 1) as u16))) == spec_prefix_mask(k + 1),
        k == 15 ==> spec_first_free(spec_prefix_mask(k)) == 16,
{
    lemma_prefix_mask_bits(k);
    if k < 15 {
        lemma_first_free_pins(spec_prefix_mask(k), k + 1);
    } else {
        lemma_first_free(spec_prefix_mask(k));
        if spec_first_free(spec_prefix_mask(k)) < 16 {
            assert(mask_bit(spec_prefix_mask(k), spec_first_free(spec_prefix_mask(k))));
        }
    }
}

/// The 15-slot pool of MPE voice channels (channels 2-16).
#[derive(Clone, Copy, Debug, PartialEq, Eq, Structural)]
pub struct MpeVoiceAllocator {
    // 0 = free, 1 = taken; bit 0 stands for channel 1 and stays clear.
    usage_mask: u16,
}

impl MpeVoiceAllocator {
    /// The raw usage mask.
    pub closed spec fn mask(&self) -> u16 {
        self.usage_mask
    }

    /// An empty pool: every channel free.
    pub fn new() -> (r: Self)
        ensures
            r.mask() == 0u16,
    {
        Self { usage_mask: 0 }
    }

    /// Takes the lowest free channel in Ch2..Ch16, or returns `None` when
    /// all fifteen are held.  Channel 1 is never handed out.
    pub fn allocate(&mut self) -> (r: Option<Channel>)
        ensures
            spec_first_free(old(self).mask()) == 16 ==> r is None && *final(self) == *old(self),
            spec_first_free(old(self).mask()) < 16 ==> {
                let i = spec_first_free(old(self).mask());
                &&& r == Some(spec_index_channel(i))
                &&& final(self).mask() == old(self).mask() | (1u16 << (i as u16))
                &&& mask_bit(final(self).mask(), i)
                &&& 1 <= i < 16
            },
            r != Some(Channel::Ch1),
    {
        let mask = self.usage_mask;
        let mut i: u16 = 1;
        while i < 16
            invariant
                1 <= i <= 16,
                mask == self.usage_mask,
                self.usage_mask == old(self).usage_mask,
                forall|j: int| 1 <= j < i ==> mask_bit(mask, j),
            decreases 16 - i,
        {
            let bit: u16 = 1u16 << i;
            if mask & bit == 0 {
                proof {
                    lemma_first_free_pins(mask, i as int);
                    lemma_set_bit(mask, i);
                }
                self.usage_mask = mask | bit;
                return index_to_channel(i as u8);
            }
            proof {
                assert(mask_bit(mask, i as int));
            }
            i = i + 1;
        }
        proof {
            lemma_first_free_from(mask, 1);
            if spec_first_free(mask) < 16 {
                assert(mask_bit(mask, spec_first_free(mask)));
            }
        }
        None
    }

    /// Releases a channel back to the pool.  Freeing channel 1 or an
    /// already-free channel changes nothing.
    pub fn free(&mut self, channel: Channel)
        ensures
            spec_channel_index(channel) == 0 ==> *final(self) == *old(self),
            spec_channel_index(channel) > 0 ==> final(self).mask() == old(self).mask() & !(1u16
                << (spec_channel_index(channel) as u16)),
    {
        let i = channel_to_index(channel);
        if i > 0 {
            // Don't touch channel 1 even if we were handed it by mistake.
            self.usage_mask = self.usage_mask & !(1u16 << (i as u16));
        }
    }
}

} // verus!
