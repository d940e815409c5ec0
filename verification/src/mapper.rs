use vstd::prelude::*;

use crate::sample::CalibratedSample;
use crate::sample::JoystickReport;

verus! {

/// The button assigned to bit `k` of the report's bitmask, least-significant
/// bit first: B, A, Y, X, left trigger, right trigger, minus, plus.
pub open spec fn button_at(s: CalibratedSample, k: int) -> bool {
    if k == 0 {
        s.button_b
    } else if k == 1 {
        s.button_a
    } else if k == 2 {
        s.button_y
    } else if k == 3 {
        s.button_x
    } else if k == 4 {
        s.button_trigger_l
    } else if k == 5 {
        s.button_trigger_r
    } else if k == 6 {
        s.button_minus
    } else if k == 7 {
        s.button_plus
    } else {
        false
    }
}

/// The report's button bitmask: the sum of one fixed power of two per pressed
/// button, so bit `k` is set exactly when `button_at(s, k)` holds.
pub open spec fn buttons_mask(s: CalibratedSample) -> u8 {
    ((if s.button_b {
        1int
    } else {
        0int
    }) + (if s.button_a {
        2int
    } else {
        0int
    }) + (if s.button_y {
        4int
    } else {
        0int
    }) + (if s.button_x {
        8int
    } else {
        0int
    }) + (if s.button_trigger_l {
        16int
    } else {
        0int
    }) + (if s.button_trigger_r {
        32int
    } else {
        0int
    }) + (if s.button_minus {
        64int
    } else {
        0int
    }) + (if s.button_plus {
        128int
    } else {
        0int
    })) as u8
}

/// Whether bit `k` of `mask` is set.
pub open spec fn bit_set(mask: u8, k: u8) -> bool {
    (mask >> k) & 1u8 == 1u8
}

/// The joystick mapping: the button bitmask, X passed through, Y negated
/// (the controller's vertical convention is inverted relative to the
/// report's coordinate space).
pub open spec fn joystick_map(s: CalibratedSample) -> JoystickReport {
    JoystickReport {
        buttons: buttons_mask(s),
        x: s.joystick_left_x,
        y: (-(s.joystick_left_y as int)) as i8,
    }
}

/// Map one calibrated sample to the joystick report: bitmask of the eight
/// buttons, X unchanged, Y negated. No clamping or scaling is applied.
pub fn map_joystick(input: &CalibratedSample) -> (r: JoystickReport)
    requires
        input.joystick_left_y != i8::MIN,
    ensures
        r == joystick_map(*input),
        r.buttons == buttons_mask(*input),
        r.x == input.joystick_left_x,
        r.y == -(input.joystick_left_y as int),
{
    let mut buttons: u8 = 0;
    if input.button_b {
        buttons = buttons + 1;
    }
    if input.button_a {
        buttons = buttons + 2;
    }
    if input.button_y {
        buttons = buttons + 4;
    }
    if input.button_x {
        buttons = buttons + 8;
    }
    if input.button_trigger_l {
        buttons = buttons + 16;
    }
    if input.button_trigger_r {
        buttons = buttons + 32;
    }
    if input.button_minus {
        buttons = buttons + 64;
    }
    if input.button_plus {
        buttons = buttons + 128;
    }
    JoystickReport { buttons, x: input.joystick_left_x, y: -input.joystick_left_y }
}

/// Map one calibrated sample to the pin level: the level is exactly the
/// B-button flag; every other field of the sample is ignored.
pub fn map_pin(input: &CalibratedSample) -> (level: bool)
    ensures
        level == input.button_b,
{
    input.button_b
}

proof fn lemma_mask_bits_bv(m: u8, b0: bool, b1: bool, b2: bool, b3: bool, b4: bool, b5: bool, b6: bool, b7: bool)
    by (bit_vector)
    requires
        m == ((if b0 {
            1int
        } else {
            0int
        }) + (if b1 {
            2int
        } else {
            0int
        }) + (if b2 {
            4int
        } else {
            0int
        }) + (if b3 {
            8int
        } else {
            0int
        }) + (if b4 {
            16int
        } else {
            0int
        }) + (if b5 {
            32int
        } else {
            0int
        }) + (if b6 {
            64int
        } else {
            0int
        }) + (if b7 {
            128int
        } else {
            0int
        })) as u8,
    ensures
        bit_set(m, 0) == b0,
        bit_set(m, 1) == b1,
        bit_set(m, 2) == b2,
        bit_set(m, 3) == b3,
        bit_set(m, 4) == b4,
        bit_set(m, 5) == b5,
        bit_set(m, 6) == b6,
        bit_set(m, 7) == b7,
{
}

/// Law: in the report's bitmask, bit `k` is set if and only if the button
/// assigned to bit `k` is pressed, for each of the eight tracked buttons.
pub proof fn lemma_buttons_mask_bits(s: CalibratedSample)
    ensures
        forall|k: int| 0 <= k < 8 ==> (bit_set(buttons_mask(s), k as u8) <==> button_at(s, k)),
{
    lemma_mask_bits_bv(
        buttons_mask(s),
        s.button_b,
        s.button_a,
        s.button_y,
        s.button_x,
        s.button_trigger_l,
        s.button_trigger_r,
        s.button_minus,
        s.button_plus,
    );
    assert forall|k: int| 0 <= k < 8 implies (bit_set(buttons_mask(s), k as u8) <==> button_at(
        s,
        k,
    )) by {
        if k == 0 {
        } else if k == 1 {
        } else if k == 2 {
        } else if k == 3 {
        } else if k == 4 {
        } else if k == 5 {
        } else if k == 6 {
        } else {
        }
    }
}

/// Law: the bitmask depends on the button flags alone: two samples with equal
/// flags get equal bitmasks, whatever their axis values.
pub proof fn lemma_buttons_mask_ignores_axes(s1: CalibratedSample, s2: CalibratedSample)
    requires
        s1.button_b == s2.button_b,
        s1.button_a == s2.button_a,
        s1.button_y == s2.button_y,
        s1.button_x == s2.button_x,
        s1.button_trigger_l == s2.button_trigger_l,
        s1.button_trigger_r == s2.button_trigger_r,
        s1.button_minus == s2.button_minus,
        s1.button_plus == s2.button_plus,
    ensures
        buttons_mask(s1) == buttons_mask(s2),
{
}

/// Law: the Y sign flip is self-inverse: feeding a report's Y value back in
/// as a sample's Y yields the original Y, and X passes through unchanged.
pub proof fn lemma_y_flip_self_inverse(s: CalibratedSample)
    requires
        s.joystick_left_y != i8::MIN,
    ensures
        joystick_map(s).x == s.joystick_left_x,
        (joystick_map(CalibratedSample { joystick_left_y: joystick_map(s).y, ..s }).y)
            == s.joystick_left_y,
{
}

} // verus!
