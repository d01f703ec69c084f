use vstd::prelude::*;

verus! {

/// IRQ line of the programmable interval timer.
pub const IRQ_TIMER: u32 = 0;

/// IRQ line of the keyboard.
pub const IRQ_KEYBOARD: u32 = 1;

/// I/O port of the master PIC's interrupt mask register.
pub const PIC_IMR1: u16 = 0x21;

/// I/O port of the slave PIC's interrupt mask register.
pub const PIC_IMR2: u16 = 0xa1;

/// Number of IRQ lines served by the two cascaded PICs.
pub const IRQ_COUNT: u32 = 16;

/// The interrupt mask registers of the two cascaded PICs.
///
/// Bit `i` of `imr1` masks IRQ `i` (0..8), bit `i` of `imr2` masks IRQ `8 + i`.
/// A clear bit lets the IRQ through, a set bit masks it.
pub struct Pic {
    pub imr1: u8,
    pub imr2: u8,
}

/// Bit `b` of `m` is set.
pub open spec fn bit_set(m: u8, b: u8) -> bool {
    m & (1u8 << b) != 0
}

/// IRQ `irq` is masked in the register pair `(imr1, imr2)`.
pub open spec fn masked(imr1: u8, imr2: u8, irq: u32) -> bool {
    if irq < 8 {
        bit_set(imr1, irq as u8)
    } else {
        bit_set(imr2, (irq - 8) as u8)
    }
}

proof fn lemma_clear_bit(m: u8, b: u8, c: u8)
    requires
        b < 8,
        c < 8,
    ensures
        bit_set(m & !(1u8 << b), c) == (c != b && bit_set(m, c)),
{
    assert((m & !(1u8 << b)) & (1u8 << c) != 0 <==> (c != b && m & (1u8 << c) != 0))
        by (bit_vector)
        requires
            b < 8,
            c < 8,
    ;
}

proof fn lemma_set_bit(m: u8, b: u8, c: u8)
    requires
        b < 8,
        c < 8,
    ensures
        bit_set(m | (1u8 << b), c) == (c == b || bit_set(m, c)),
{
    assert((m | (1u8 << b)) & (1u8 << c) != 0 <==> (c == b || m & (1u8 << c) != 0))
        by (bit_vector)
        requires
            b < 8,
            c < 8,
    ;
}

/// The registers after clearing the mask bit of `irq`.
pub open spec fn after_allow(p: Pic, irq: u32) -> Pic {
    if irq < 8 {
        Pic { imr1: p.imr1 & !(1u8 << irq as u8), imr2: p.imr2 }
    } else {
        Pic { imr1: p.imr1, imr2: p.imr2 & !(1u8 << (irq - 8) as u8) }
    }
}

/// The registers after setting the mask bit of `irq`.
pub open spec fn after_forbid(p: Pic, irq: u32) -> Pic {
    if irq < 8 {
        Pic { imr1: p.imr1 | (1u8 << irq as u8), imr2: p.imr2 }
    } else {
        Pic { imr1: p.imr1, imr2: p.imr2 | (1u8 << (irq - 8) as u8) }
    }
}

/// Allowing an IRQ and then reading its status reports it enabled, masking it
/// reports it disabled, and neither changes the status of any other IRQ.
pub proof fn lemma_allow_forbid_status(p: Pic, irq: u32, other: u32)
    requires
        irq < IRQ_COUNT,
        other < IRQ_COUNT,
        other != irq,
    ensures
        !after_allow(p, irq).is_masked(irq),
        after_forbid(p, irq).is_masked(irq),
        after_allow(p, irq).is_masked(other) == p.is_masked(other),
        after_forbid(p, irq).is_masked(other) == p.is_masked(other),
{
    if irq < 8 {
        lemma_clear_bit(p.imr1, irq as u8, irq as u8);
        lemma_set_bit(p.imr1, irq as u8, irq as u8);
        if other < 8 {
            lemma_clear_bit(p.imr1, irq as u8, other as u8);
            lemma_set_bit(p.imr1, irq as u8, other as u8);
        }
    } else {
        lemma_clear_bit(p.imr2, (irq - 8) as u8, (irq - 8) as u8);
        lemma_set_bit(p.imr2, (irq - 8) as u8, (irq - 8) as u8);
        if other >= 8 {
            lemma_clear_bit(p.imr2, (irq - 8) as u8, (other - 8) as u8);
            lemma_set_bit(p.imr2, (irq - 8) as u8, (other - 8) as u8);
        }
    }
}

impl Pic {
    /// Whether IRQ `irq` is masked in these registers.
    pub open spec fn is_masked(&self, irq: u32) -> bool {
        masked(self.imr1, self.imr2, irq)
    }

    /// Lets IRQ `irq` through: clears its mask bit and keeps every other bit.
    pub fn allow(&mut self, irq: u32)
        requires
            irq < IRQ_COUNT,
        ensures
            *final(self) == after_allow(*old(self), irq),
            !final(self).is_masked(irq),
            forall|j: u32| j < IRQ_COUNT && j != irq ==> #[trigger] final(self).is_masked(j)
                == old(self).is_masked(j),
    {
        if irq < 8 {
            self.imr1 = self.imr1 & !(1u8 << irq as u8);
        } else {
            self.imr2 = self.imr2 & !(1u8 << (irq - 8) as u8);
        }
        proof {
            assert forall|j: u32| j < IRQ_COUNT && j != irq implies #[trigger] self.is_masked(j)
                == old(self).is_masked(j) by {
                lemma_allow_forbid_status(*old(self), irq, j);
            }
            lemma_allow_forbid_status(*old(self), irq, if irq == 0 { 1 } else { 0 });
        }
    }

    /// Masks IRQ `irq`: sets its mask bit and keeps every other bit.
    pub fn forbid(&mut self, irq: u32)
        requires
            irq < IRQ_COUNT,
        ensures
            *final(self) == after_forbid(*old(self), irq),
            final(self).is_masked(irq),
            forall|j: u32| j < IRQ_COUNT && j != irq ==> #[trigger] final(self).is_masked(j)
                == old(self).is_masked(j),
    {
        if irq < 8 {
            self.imr1 = self.imr1 | (1u8 << irq as u8);
        } else {
            self.imr2 = self.imr2 | (1u8 << (irq - 8) as u8);
        }
        proof {
            assert forall|j: u32| j < IRQ_COUNT && j != irq implies #[trigger] self.is_masked(j)
                == old(self).is_masked(j) by {
                lemma_allow_forbid_status(*old(self), irq, j);
            }
            lemma_allow_forbid_status(*old(self), irq, if irq == 0 { 1 } else { 0 });
        }
    }

    /// Whether IRQ `irq` is masked: `true` means disabled, `false` enabled.
    pub fn status(&self, irq: u32) -> (r: bool)
        requires
            irq < IRQ_COUNT,
        ensures
            r == self.is_masked(irq),
    {
        if irq < 8 {
            self.imr1 & (1u8 << irq as u8) != 0
        } else {
            self.imr2 & (1u8 << (irq - 8) as u8) != 0
        }
    }
}

} // verus!
