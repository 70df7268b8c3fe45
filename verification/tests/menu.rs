use qcheat::menu::{
    clamp_mouse_delta, pressed, row_down, row_up, vk_name, ItemKind, KeySnapshot, MenuState,
};
use qcheat::util::parse_hex;

const ITEMS: [ItemKind; 6] = [
    ItemKind::Toggle,
    ItemKind::Slider,
    ItemKind::Slider,
    ItemKind::Slider,
    ItemKind::Toggle,
    ItemKind::Slider,
];

fn keys() -> KeySnapshot {
    KeySnapshot { menu: false, aimbot: false, up: false, down: false, left: false, right: false }
}

#[test]
fn menu_rows_wrap() {
    assert_eq!(row_up(0, 6), 5);
    assert_eq!(row_up(3, 6), 2);
    assert_eq!(row_down(5, 6), 0);
    assert_eq!(row_down(2, 6), 3);
    for s in 0..6 {
        assert_eq!(row_down(row_up(s, 6), 6), s);
    }
    assert!(pressed(true, false));
    assert!(!pressed(true, true));
}

#[test]
fn menu_opens_and_navigates() {
    let mut m = MenuState::new();
    // Arrows do nothing while closed.
    let st = m.step(&ITEMS, KeySnapshot { down: true, ..keys() });
    assert_eq!(m.selected, 0);
    assert_eq!(st.click_through, None);
    // Open the menu: overlay stops being click-through.
    let st = m.step(&ITEMS, KeySnapshot { menu: true, ..keys() });
    assert!(m.open);
    assert_eq!(st.click_through, Some(false));
    // Holding the key does not toggle again.
    let st = m.step(&ITEMS, KeySnapshot { menu: true, ..keys() });
    assert!(m.open);
    assert_eq!(st.click_through, None);
    // UP from row 0 wraps to the last row.
    m.step(&ITEMS, KeySnapshot { up: true, ..keys() });
    assert_eq!(m.selected, 5);
    // Holding UP does not move again.
    m.step(&ITEMS, KeySnapshot { up: true, ..keys() });
    assert_eq!(m.selected, 5);
    m.step(&ITEMS, keys());
    let st = m.step(&ITEMS, KeySnapshot { down: true, ..keys() });
    assert_eq!(m.selected, 0);
    // Row 0 is a toggle: a RIGHT press flips it once.
    let st2 = m.step(&ITEMS, KeySnapshot { right: true, ..keys() });
    assert_eq!(st2.flip_item, Some(0));
    let st3 = m.step(&ITEMS, KeySnapshot { right: true, ..keys() });
    assert_eq!(st3.flip_item, None);
    assert_eq!(st.flip_item, None);
    // Row 1 is a slider: held keys keep moving it.
    m.step(&ITEMS, KeySnapshot { down: true, ..keys() });
    assert_eq!(m.selected, 1);
    for _ in 0..3 {
        let st = m.step(&ITEMS, KeySnapshot { left: true, ..keys() });
        assert_eq!(st.slider_item, Some(1));
        assert!(st.slider_down && !st.slider_up);
    }
    // Close again.
    let st = m.step(&ITEMS, KeySnapshot { menu: true, ..keys() });
    assert!(!m.open);
    assert_eq!(st.click_through, Some(true));
}

#[test]
fn menu_aimbot_hotkey_works_when_closed() {
    let mut m = MenuState::new();
    let st = m.step(&ITEMS, KeySnapshot { aimbot: true, ..keys() });
    assert!(st.toggle_aimbot);
    let st = m.step(&ITEMS, KeySnapshot { aimbot: true, ..keys() });
    assert!(!st.toggle_aimbot);
    assert!(!m.open);
}

#[test]
fn menu_vk_names() {
    assert_eq!(vk_name(0x70), "F1");
    assert_eq!(vk_name(0x73), "F4");
    assert_eq!(vk_name(0x24), "HOME");
    assert_eq!(vk_name(0x2D), "INSERT");
    assert_eq!(vk_name(0x2E), "DELETE");
    for vk in [0usize, 5, 0x0F, 0x10, 0x41, 0xFF, 0x1234, usize::MAX] {
        assert_eq!(vk_name(vk), format!("0x{vk:02X}"));
        assert_eq!(parse_hex(&vk_name(vk)), Ok(vk));
    }
}

#[test]
fn menu_clamps_mouse_delta() {
    assert_eq!(clamp_mouse_delta(100, 60), 60);
    assert_eq!(clamp_mouse_delta(-100, 60), -60);
    assert_eq!(clamp_mouse_delta(7, 60), 7);
    assert_eq!(clamp_mouse_delta(5, 0), 0);
}
