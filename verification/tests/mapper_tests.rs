use wii_joystick::mapper::map_joystick;
use wii_joystick::mapper::map_pin;
use wii_joystick::sample::CalibratedSample;

fn sample_with(flags: [bool; 8], x: i8, y: i8) -> CalibratedSample {
    CalibratedSample {
        button_b: flags[0],
        button_a: flags[1],
        button_y: flags[2],
        button_x: flags[3],
        button_trigger_l: flags[4],
        button_trigger_r: flags[5],
        button_minus: flags[6],
        button_plus: flags[7],
        joystick_left_x: x,
        joystick_left_y: y,
    }
}

#[test]
fn each_button_sets_exactly_its_own_bit() {
    for k in 0..8usize {
        let mut flags = [false; 8];
        flags[k] = true;
        let r = map_joystick(&sample_with(flags, 0, 0));
        assert_eq!(r.buttons, 1u8 << k);
    }
}

#[test]
fn no_buttons_gives_empty_mask_and_all_buttons_fill_it() {
    assert_eq!(map_joystick(&sample_with([false; 8], 0, 0)).buttons, 0);
    assert_eq!(map_joystick(&sample_with([true; 8], 0, 0)).buttons, 0xff);
}

#[test]
fn mask_is_independent_of_axis_values() {
    let flags = [true, false, true, false, false, true, false, true];
    let a = map_joystick(&sample_with(flags, 0, 0));
    let b = map_joystick(&sample_with(flags, -128, 127));
    assert_eq!(a.buttons, b.buttons);
    assert_eq!(a.buttons, 0b1010_0101);
}

#[test]
fn x_passes_through_and_y_negates() {
    let r = map_joystick(&sample_with([false; 8], 5, 7));
    assert_eq!(r.x, 5);
    assert_eq!(r.y, -7);
    let extremes = map_joystick(&sample_with([false; 8], -128, 127));
    assert_eq!(extremes.x, -128);
    assert_eq!(extremes.y, -127);
    let other = map_joystick(&sample_with([false; 8], 127, -127));
    assert_eq!(other.x, 127);
    assert_eq!(other.y, 127);
}

#[test]
fn y_sign_flip_is_self_inverse() {
    for y in [-127i8, -1, 0, 1, 42, 127] {
        let first = map_joystick(&sample_with([false; 8], 3, y));
        let second = map_joystick(&sample_with([false; 8], 3, first.y));
        assert_eq!(second.y, y);
        assert_eq!(second.x, 3);
    }
}

#[test]
fn pin_level_equals_button_b_regardless_of_everything_else() {
    let pressed = sample_with([true, true, false, true, false, true, false, true], -60, 99);
    assert!(map_pin(&pressed));
    let released = sample_with([false, true, true, true, true, true, true, true], 127, -128);
    assert!(!map_pin(&released));
}

#[test]
fn concrete_scenario_button_b_only() {
    let s = sample_with([true, false, false, false, false, false, false, false], 0, 0);
    let r = map_joystick(&s);
    assert_eq!(r.buttons, 0b0000_0001);
    assert_eq!(r.x, 0);
    assert_eq!(r.y, 0);
    assert!(map_pin(&s));
}
