//! GPIO block of the BCM2837: function-select fields, the set and clear
//! registers, and the level registers.
use vstd::prelude::*;
use crate::mmio::RegWrite;

verus! {

/// Function select for pins 0-9.
pub const GPIO_FSEL0: usize = 0x3F20_0000;
/// Function select for pins 10-19.
pub const GPIO_FSEL1: usize = 0x3F20_0004;
/// Function select for pins 20-29.
pub const GPIO_FSEL2: usize = 0x3F20_0008;
/// Output set register for pins 0-31.
pub const GPIO_SETO: usize = 0x3F20_001C;
/// Output clear register for pins 0-31.
pub const GPIO_CLRO: usize = 0x3F20_0028;
/// Level register for pins 0-31.
pub const GPIO_LEV0: usize = 0x3F20_0034;
/// Level register for pins 32-53.
pub const GPIO_LEV1: usize = 0x3F20_0038;

/// Pins below this number are the ones the shell lets a user drive.
pub const GPIO_USER_PINS: u32 = 28;
/// Pins below this number have a function-select field in the three
/// registers this driver knows.
pub const GPIO_FSEL_PINS: u32 = 30;
/// Function-select code of an output pin.
pub const GPIO_FUNCTION_OUTPUT: u32 = 1;

/// The 3-bit function-select field `slot` (0-9) of a function-select register.
pub open spec fn fsel_field(reg: u32, slot: u32) -> u32 {
    (reg >> ((3 * slot) as u32)) & 7u32
}

/// Bit `i` of `x`.
pub open spec fn bit_of(x: u32, i: u32) -> bool {
    (x >> i) & 1u32 == 1u32
}

/// The function-select register that holds the field of `pin`.
pub open spec fn fsel_address(pin: u32) -> usize {
    if pin < 10 {
        GPIO_FSEL0
    } else if pin < 20 {
        GPIO_FSEL1
    } else {
        GPIO_FSEL2
    }
}

/// The level register that holds the bit of `pin`.
pub open spec fn level_address(pin: u32) -> usize {
    if pin < 32 {
        GPIO_LEV0
    } else {
        GPIO_LEV1
    }
}

/// The new value of a function-select register whose field `slot` is set to
/// "output" while every other bit keeps its value in `current`.
pub open spec fn output_selected(current: u32, slot: u32) -> u32 {
    (current & !(7u32 << ((3 * slot) as u32))) | (1u32 << ((3 * slot) as u32))
}

proof fn lemma_output_selected(current: u32, slot: u32)
    requires
        slot < 10,
    ensures
        fsel_field(output_selected(current, slot), slot) == GPIO_FUNCTION_OUTPUT,
        forall|j: u32|
            j < 10 && j != slot ==> #[trigger] fsel_field(output_selected(current, slot), j)
                == fsel_field(current, j),
        output_selected(current, slot) >> 30u32 == current >> 30u32,
{
    assert(fsel_field(output_selected(current, slot), slot) == 1u32) by (bit_vector)
        requires
            slot < 10,
    ;
    assert(forall|j: u32|
        j < 10 && j != slot ==> #[trigger] fsel_field(output_selected(current, slot), j)
            == fsel_field(current, j)) by (bit_vector)
        requires
            slot < 10,
    ;
    assert(output_selected(current, slot) >> 30u32 == current >> 30u32) by (bit_vector)
        requires
            slot < 10,
    ;
}

proof fn lemma_bit_or(current: u32, pin: u32)
    requires
        pin < 32,
    ensures
        bit_of(current | (1u32 << pin), pin),
        forall|i: u32| i < 32 && i != pin ==> #[trigger] bit_of(current | (1u32 << pin), i) == bit_of(current, i),
{
    assert(bit_of(current | (1u32 << pin), pin)) by (bit_vector)
        requires
            pin < 32,
    ;
    assert(forall|i: u32|
        i < 32 && i != pin ==> #[trigger] bit_of(current | (1u32 << pin), i) == bit_of(current, i))
        by (bit_vector)
        requires
            pin < 32,
    ;
}

/// The GPIO controller. Every operation computes the register access for a
/// pin; the caller performs the load or store.
pub struct GPIO;

impl GPIO {
    /// Whether the shell accepts `pin`.
    pub fn check_pin_no(pin: u32) -> (ok: bool)
        ensures
            ok == (pin < GPIO_USER_PINS),
    {
        pin < 28
    }

    /// The function-select register to read before `set_output(pin, ..)`.
    pub fn fsel_register(pin: u32) -> (addr: usize)
        requires
            pin < GPIO_FSEL_PINS,
        ensures
            addr == fsel_address(pin),
    {
        match pin / 10 {
            0 => GPIO_FSEL0,
            1 => GPIO_FSEL1,
            _ => GPIO_FSEL2,
        }
    }

    /// The store that makes `pin` an output, given the current value of its
    /// function-select register: the pin's 3-bit field becomes 1 and every
    /// other field keeps its value.
    pub fn set_output(pin: u32, current: u32) -> (w: RegWrite)
        requires
            pin < GPIO_FSEL_PINS,
        ensures
            w.addr == fsel_address(pin),
            w.value == output_selected(current, pin % 10),
            fsel_field(w.value, pin % 10) == GPIO_FUNCTION_OUTPUT,
            forall|j: u32|
                j < 10 && j != pin % 10 ==> #[trigger] fsel_field(w.value, j) == fsel_field(
                    current,
                    j,
                ),
            w.value >> 30u32 == current >> 30u32,
    {
        let addr: usize = Self::fsel_register(pin);
        let shift: u32 = (pin % 10) * 3;
        let mut val: u32 = current;
        val &= !(7u32 << shift);
        val |= 1u32 << shift;
        proof {
            assert(shift == ((3 * (pin % 10)) as u32));
            lemma_output_selected(current, pin % 10);
        }
        RegWrite { addr, value: val }
    }

    /// The store that drives `pin` high, given the current value of the set
    /// register: bit `pin` is set and every other bit is kept.
    pub fn set(pin: u32, current: u32) -> (w: RegWrite)
        requires
            pin < 32,
        ensures
            w.addr == GPIO_SETO,
            w.value == current | (1u32 << pin),
            bit_of(w.value, pin),
            forall|i: u32| i < 32 && i != pin ==> #[trigger] bit_of(w.value, i) == bit_of(current, i),
    {
        proof {
            lemma_bit_or(current, pin);
        }
        RegWrite { addr: GPIO_SETO, value: current | (1u32 << pin) }
    }

    /// The store that drives `pin` low, given the current value of the clear
    /// register: bit `pin` is set and every other bit is kept.
    pub fn clear(pin: u32, current: u32) -> (w: RegWrite)
        requires
            pin < 32,
        ensures
            w.addr == GPIO_CLRO,
            w.value == current | (1u32 << pin),
            bit_of(w.value, pin),
            forall|i: u32| i < 32 && i != pin ==> #[trigger] bit_of(w.value, i) == bit_of(current, i),
    {
        proof {
            lemma_bit_or(current, pin);
        }
        RegWrite { addr: GPIO_CLRO, value: current | (1u32 << pin) }
    }

    /// The level register that holds `pin`.
    pub fn level_register(pin: u32) -> (addr: usize)
        ensures
            addr == level_address(pin),
    {
        if pin < 32 {
            GPIO_LEV0
        } else {
            GPIO_LEV1
        }
    }

    /// Whether `pin` is high, given the value of its level register.
    pub fn read_level(pin: u32, level: u32) -> (high: bool)
        ensures
            high == bit_of(level, pin % 32),
    {
        let i: u32 = pin % 32;
        proof {
            assert((level & (1u32 << i) != 0) == bit_of(level, i)) by (bit_vector)
                requires
                    i < 32,
            ;
        }
        (level & (1u32 << i)) != 0
    }

    /// The register that flips `pin` from its current level: the clear
    /// register when it is high, the set register when it is low.
    pub fn toggle_register(high: bool) -> (addr: usize)
        ensures
            addr == (if high { GPIO_CLRO } else { GPIO_SETO }),
    {
        if high {
            GPIO_CLRO
        } else {
            GPIO_SETO
        }
    }

    /// The store that flips `pin`, given its current level and the current
    /// value of `toggle_register(high)`.
    pub fn toggle(pin: u32, high: bool, current: u32) -> (w: RegWrite)
        requires
            pin < 32,
        ensures
            w == (if high { RegWrite { addr: GPIO_CLRO, value: current | (1u32 << pin) } } else {
                RegWrite { addr: GPIO_SETO, value: current | (1u32 << pin) }
            }),
    {
        if high {
            Self::clear(pin, current)
        } else {
            Self::set(pin, current)
        }
    }
}

/// A pin the shell accepts is one every GPIO operation accepts.
pub proof fn lemma_user_pin_in_range(pin: u32)
    requires
        pin < GPIO_USER_PINS,
    ensures
        pin < GPIO_FSEL_PINS,
        pin < 32,
        level_address(pin) == GPIO_LEV0,
{
}

/// Selecting "output" twice for the same pin gives the value of selecting it
/// once.
pub proof fn lemma_set_output_idempotent(current: u32, slot: u32)
    requires
        slot < 10,
    ensures
        output_selected(output_selected(current, slot), slot) == output_selected(current, slot),
{
    assert(output_selected(output_selected(current, slot), slot) == output_selected(current, slot))
        by (bit_vector)
        requires
            slot < 10,
    ;
}

/// The function-select registers are consecutive words, ten pins each:
/// pin `p` lives in the word `p / 10` after `GPIO_FSEL0`, in field `p % 10`.
pub proof fn lemma_fsel_register_of_pin(pin: u32)
    requires
        pin < GPIO_FSEL_PINS,
    ensures
        fsel_address(pin) == GPIO_FSEL0 + 4 * (pin / 10),
        pin == 10 * (pin / 10) + pin % 10,
{
}

/// Two pins share a function-select register exactly when they are in the
/// same group of ten.
pub proof fn lemma_fsel_register_shared(p: u32, q: u32)
    requires
        p < GPIO_FSEL_PINS,
        q < GPIO_FSEL_PINS,
    ensures
        (fsel_address(p) == fsel_address(q)) == (p / 10 == q / 10),
{
}

/// The level register of pin `p` is the word `p / 32` after `GPIO_LEV0`, and
/// the level bit is `p % 32`.
pub proof fn lemma_level_register_of_pin(pin: u32)
    requires
        pin < 64,
    ensures
        level_address(pin) == GPIO_LEV0 + 4 * (pin / 32),
{
}

/// Making pin `p` an output writes 1 into bits `3*(p%10)..3*(p%10)+3` of its
/// register and keeps the bits of every other pin of that register.
pub proof fn lemma_set_output_bits(current: u32, pin: u32, other: u32)
    requires
        pin < GPIO_FSEL_PINS,
        other < GPIO_FSEL_PINS,
        other / 10 == pin / 10,
        other != pin,
    ensures
        (output_selected(current, pin % 10) >> ((3 * (pin % 10)) as u32)) & 7u32 == 1u32,
        (output_selected(current, pin % 10) >> ((3 * (other % 10)) as u32)) & 7u32
            == (current >> ((3 * (other % 10)) as u32)) & 7u32,
{
    let a = pin % 10;
    let b = other % 10;
    assert(a != b);
    assert(((current & !(7u32 << ((3 * a) as u32))) | (1u32 << ((3 * a) as u32))) >> ((3
        * a) as u32) & 7u32 == 1u32) by (bit_vector)
        requires
            a < 10,
    ;
    assert(((current & !(7u32 << ((3 * a) as u32))) | (1u32 << ((3 * a) as u32))) >> ((3
        * b) as u32) & 7u32 == (current >> ((3 * b) as u32)) & 7u32) by (bit_vector)
        requires
            a < 10,
            b < 10,
            a != b,
    ;
}

/// After setting bit `p` a level read of pin `p` is high; after clearing it,
/// low; other pins read as before.
pub proof fn lemma_level_bits(x: u32, pin: u32, other: u32)
    requires
        pin < 32,
        other < 32,
        other != pin,
    ensures
        bit_of(x | (1u32 << pin), pin),
        !bit_of(x & !(1u32 << pin), pin),
        bit_of(x | (1u32 << pin), other) == bit_of(x, other),
        bit_of(x, pin) == (x & (1u32 << pin) != 0),
{
    assert(bit_of(x | (1u32 << pin), pin)) by (bit_vector)
        requires
            pin < 32,
    ;
    assert(!bit_of(x & !(1u32 << pin), pin)) by (bit_vector)
        requires
            pin < 32,
    ;
    assert(bit_of(x | (1u32 << pin), other) == bit_of(x, other)) by (bit_vector)
        requires
            pin < 32,
            other < 32,
            other != pin,
    ;
    assert(bit_of(x, pin) == (x & (1u32 << pin) != 0)) by (bit_vector)
        requires
            pin < 32,
    ;
}

} // verus!
