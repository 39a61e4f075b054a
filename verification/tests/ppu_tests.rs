use turtle_gba::ppu::{alpha_blend, bgr555_to_rgb, brightness_down, brightness_up};

#[test]
fn bgr555_white() {
    assert_eq!(bgr555_to_rgb(0x7FFF), 0x00FFFFFF);
}

#[test]
fn bgr555_black() {
    assert_eq!(bgr555_to_rgb(0x0000), 0x00000000);
}

#[test]
fn bgr555_pure_red() {
    assert_eq!(bgr555_to_rgb(0x001F), 0x00FF0000);
}

#[test]
fn bgr555_pure_green() {
    assert_eq!(bgr555_to_rgb(0x03E0), 0x0000FF00);
}

#[test]
fn bgr555_pure_blue() {
    assert_eq!(bgr555_to_rgb(0x7C00), 0x000000FF);
}

#[test]
fn alpha_blend_equal() {
    // 50/50 blend of red and blue
    let result = alpha_blend(0x00FF0000, 0x000000FF, 8, 8);
    assert_eq!(result, 0x007F007F);
}

#[test]
fn brightness_up_full() {
    assert_eq!(brightness_up(0x00000000, 16), 0x00FFFFFF);
}

#[test]
fn brightness_down_full() {
    assert_eq!(brightness_down(0x00FFFFFF, 16), 0x00000000);
}
