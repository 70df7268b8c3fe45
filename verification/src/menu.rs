//! Keyboard handling of the in-game settings menu and the naming of
//! virtual-key codes.
//!
//! Navigation is keyboard-only: UP/DOWN select a row, LEFT/RIGHT adjust
//! it. A toggle row flips on a LEFT or RIGHT press; a slider row moves for
//! as long as the key is held.

use vstd::prelude::*;

verus! {

/// A key went down since the previous poll.
pub open spec fn spec_pressed(down: bool, was_down: bool) -> bool {
    down && !was_down
}

/// A key went down since the previous poll.
pub fn pressed(down: bool, was_down: bool) -> (r: bool)
    ensures
        r == spec_pressed(down, was_down),
{
    down && !was_down
}

/// Kind of a menu row.
#[derive(Debug, Clone, Copy, PartialEq, Eq, Structural)]
pub enum ItemKind {
    /// On/off setting.
    Toggle,
    /// Numeric setting moved in steps between bounds.
    Slider,
}

/// Keys held down during one poll.
#[derive(Debug, Clone, Copy, PartialEq, Eq, Structural)]
pub struct KeySnapshot {
    /// The menu open/close key.
    pub menu: bool,
    /// The aimbot quick-toggle key.
    pub aimbot: bool,
    /// Arrow up.
    pub up: bool,
    /// Arrow down.
    pub down: bool,
    /// Arrow left.
    pub left: bool,
    /// Arrow right.
    pub right: bool,
}

/// What the caller has to carry out after one poll.
#[derive(Debug, Clone, Copy, PartialEq, Eq, Structural)]
pub struct MenuStep {
    /// New click-through setting of the overlay, when the menu opened
    /// (`false`) or closed (`true`).
    pub click_through: Option<bool>,
    /// The aimbot quick-toggle key was pressed.
    pub toggle_aimbot: bool,
    /// Toggle row to flip.
    pub flip_item: Option<usize>,
    /// Slider row to move, if a slider is selected and LEFT or RIGHT is held.
    pub slider_item: Option<usize>,
    /// Move that slider down one step (LEFT held).
    pub slider_down: bool,
    /// Then move it up one step (RIGHT held).
    pub slider_up: bool,
}

/// State of the menu between polls.
#[derive(Debug, Clone, Copy, PartialEq, Eq, Structural)]
pub struct MenuState {
    /// The menu is shown.
    pub open: bool,
    /// Selected row.
    pub selected: usize,
    /// Keys held at the previous poll (arrows as of the last poll with
    /// the menu open).
    pub prev: KeySnapshot,
}

/// Row above `sel`, wrapping to the last of `len` rows.
pub open spec fn spec_row_up(sel: usize, len: usize) -> usize {
    if sel == 0 {
        (len - 1) as usize
    } else {
        (sel - 1) as usize
    }
}

/// Row below `sel`, wrapping to the first of `len` rows.
pub open spec fn spec_row_down(sel: usize, len: usize) -> usize {
    ((sel + 1) % (len as int)) as usize
}

/// Row above `sel`, wrapping to the last of `len` rows.
pub fn row_up(sel: usize, len: usize) -> (r: usize)
    requires
        sel < len,
    ensures
        r == spec_row_up(sel, len),
        r < len,
{
    if sel == 0 {
        len - 1
    } else {
        sel - 1
    }
}

/// Row below `sel`, wrapping to the first of `len` rows.
pub fn row_down(sel: usize, len: usize) -> (r: usize)
    requires
        sel < len,
    ensures
        r == spec_row_down(sel, len),
        r < len,
{
    (sel + 1) % len
}

/// Row selected after one poll with the menu open: UP moves first, then
/// DOWN.
pub open spec fn spec_select(sel: usize, len: usize, k: KeySnapshot, prev: KeySnapshot) -> usize {
    let sel1 = if spec_pressed(k.up, prev.up) {
        spec_row_up(sel, len)
    } else {
        sel
    };
    if spec_pressed(k.down, prev.down) {
        spec_row_down(sel1, len)
    } else {
        sel1
    }
}

impl MenuState {
    /// Closed menu, first row selected, no key held.
    pub fn new() -> (r: MenuState)
        ensures
            !r.open,
            r.selected == 0,
            r.prev == (KeySnapshot {
                menu: false,
                aimbot: false,
                up: false,
                down: false,
                left: false,
                right: false,
            }),
    {
        MenuState {
            open: false,
            selected: 0,
            prev: KeySnapshot {
                menu: false,
                aimbot: false,
                up: false,
                down: false,
                left: false,
                right: false,
            },
        }
    }

    /// One poll: the menu key opens or closes the menu, the aimbot key
    /// toggles the aimbot, and with the menu open the arrows move the
    /// selection (UP before DOWN) and adjust the selected row.
    #[verifier::rlimit(40)]
    pub fn step(&mut self, items: &[ItemKind], keys: KeySnapshot) -> (r: MenuStep)
        requires
            items@.len() > 0,
            old(self).selected < items@.len(),
        ensures
            final(self).open == (old(self).open != spec_pressed(keys.menu, old(self).prev.menu)),
            r.click_through == (if spec_pressed(keys.menu, old(self).prev.menu) {
                Some(!final(self).open)
            } else {
                None::<bool>
            }),
            r.toggle_aimbot == spec_pressed(keys.aimbot, old(self).prev.aimbot),
            !final(self).open ==> {
                &&& final(self).selected == old(self).selected
                &&& final(self).prev == (KeySnapshot {
                    menu: keys.menu,
                    aimbot: keys.aimbot,
                    ..old(self).prev
                })
                &&& r.flip_item is None
                &&& r.slider_item is None
                &&& !r.slider_down
                &&& !r.slider_up
            },
            final(self).open ==> {
                let sel = final(self).selected;
                &&& sel == spec_select(old(self).selected, items@.len() as usize, keys, old(self).prev)
                &&& final(self).prev == keys
                &&& r.flip_item == (if items@[sel as int] == ItemKind::Toggle && (spec_pressed(
                    keys.left,
                    old(self).prev.left,
                ) || spec_pressed(keys.right, old(self).prev.right)) {
                    Some(sel)
                } else {
                    None::<usize>
                })
                &&& r.slider_item == (if items@[sel as int] == ItemKind::Slider && (keys.left
                    || keys.right) {
                    Some(sel)
                } else {
                    None::<usize>
                })
                &&& r.slider_down == (r.slider_item is Some && keys.left)
                &&& r.slider_up == (r.slider_item is Some && keys.right)
            },
            final(self).selected < items@.len(),
    {
        let len = items.len();
        let prev = self.prev;
        let menu_edge = pressed(keys.menu, prev.menu);
        let open = if menu_edge {
            !self.open
        } else {
            self.open
        };
        let aim_edge = pressed(keys.aimbot, prev.aimbot);
        let click_through = if menu_edge {
            Some(!open)
        } else {
            None
        };
        if !open {
            self.open = open;
            self.prev = KeySnapshot { menu: keys.menu, aimbot: keys.aimbot, ..prev };
            return MenuStep {
                click_through,
                toggle_aimbot: aim_edge,
                flip_item: None,
                slider_item: None,
                slider_down: false,
                slider_up: false,
            };
        }
        let sel1 = if pressed(keys.up, prev.up) {
            row_up(self.selected, len)
        } else {
            self.selected
        };
        let sel2 = if pressed(keys.down, prev.down) {
            row_down(sel1, len)
        } else {
            sel1
        };
        let is_toggle = match items[sel2] {
            ItemKind::Toggle => true,
            ItemKind::Slider => false,
        };
        let flip = is_toggle && (pressed(keys.left, prev.left) || pressed(keys.right, prev.right));
        let slide = !is_toggle && (keys.left || keys.right);
        self.open = open;
        self.selected = sel2;
        self.prev = keys;
        MenuStep {
            click_through,
            toggle_aimbot: aim_edge,
            flip_item: if flip {
                Some(sel2)
            } else {
                None
            },
            slider_item: if slide {
                Some(sel2)
            } else {
                None
            },
            slider_down: slide && keys.left,
            slider_up: slide && keys.right,
        }
    }
}

/// Clamps a mouse correction to `[-max_delta, max_delta]`.
pub fn clamp_mouse_delta(d: i32, max_delta: i32) -> (r: i32)
    requires
        max_delta >= 0,
    ensures
        r == (if d < -max_delta {
            -max_delta
        } else if d > max_delta {
            max_delta as int
        } else {
            d as int
        }),
{
    if d < -max_delta {
        -max_delta
    } else if d > max_delta {
        max_delta
    } else {
        d
    }
}

/// Upper-case hexadecimal digit for `d < 16`.
pub open spec fn hex_char(d: nat) -> char {
    if d < 10 {
        (48 + d) as char
    } else {
        (55 + d) as char
    }
}

/// Upper-case hexadecimal digits of `v`, without leading zeros (`"0"` for 0).
pub open spec fn hex_upper(v: nat) -> Seq<char>
    decreases v,
{
    if v < 16 {
        seq![hex_char(v)]
    } else {
        hex_upper(v / 16).push(hex_char(v % 16))
    }
}

/// Upper-case hexadecimal digits of `v`, at least two of them.
pub open spec fn hex_upper_min2(v: nat) -> Seq<char> {
    if v < 16 {
        seq!['0', hex_char(v)]
    } else {
        hex_upper(v)
    }
}

fn hex_digit(d: usize) -> (r: &'static str)
    requires
        d < 16,
    ensures
        r@ == seq![hex_char(d as nat)],
{
    proof {
        reveal_strlit("0");
        reveal_strlit("1");
        reveal_strlit("2");
        reveal_strlit("3");
        reveal_strlit("4");
        reveal_strlit("5");
        reveal_strlit("6");
        reveal_strlit("7");
        reveal_strlit("8");
        reveal_strlit("9");
        reveal_strlit("A");
        reveal_strlit("B");
        reveal_strlit("C");
        reveal_strlit("D");
        reveal_strlit("E");
        reveal_strlit("F");
    }
    let r = match d {
        0 => "0",
        1 => "1",
        2 => "2",
        3 => "3",
        4 => "4",
        5 => "5",
        6 => "6",
        7 => "7",
        8 => "8",
        9 => "9",
        10 => "A",
        11 => "B",
        12 => "C",
        13 => "D",
        14 => "E",
        _ => "F",
    };
    assert(r@ =~= seq![hex_char(d as nat)]);
    r
}

fn append_hex(s: &mut String, v: usize)
    ensures
        final(s)@ == old(s)@ + hex_upper(v as nat),
    decreases v,
{
    if v >= 16 {
        append_hex(s, v / 16);
    }
    s.append(hex_digit(v % 16));
    proof {
        if v >= 16 {
            assert(old(s)@ + hex_upper(v as nat) =~= old(s)@ + hex_upper((v / 16) as nat) + seq![
                hex_char((v % 16) as nat),
            ]);
        } else {
            assert(v % 16 == v);
        }
    }
}

/// Human-readable name of a virtual-key code.
pub open spec fn spec_vk_name(vk: usize) -> Seq<char> {
    if vk == 0x70 {
        "F1"@
    } else if vk == 0x71 {
        "F2"@
    } else if vk == 0x72 {
        "F3"@
    } else if vk == 0x73 {
        "F4"@
    } else if vk == 0x24 {
        "HOME"@
    } else if vk == 0x23 {
        "END"@
    } else if vk == 0x2D {
        "INSERT"@
    } else if vk == 0x2E {
        "DELETE"@
    } else {
        "0x"@ + hex_upper_min2(vk as nat)
    }
}

/// The virtual-key codes that have a name of their own.
pub open spec fn is_named_vk(vk: usize) -> bool {
    vk == 0x70 || vk == 0x71 || vk == 0x72 || vk == 0x73 || vk == 0x24 || vk == 0x23 || vk
        == 0x2D || vk == 0x2E
}

/// Human-readable name for the handful of virtual-key codes anyone would
/// bind the menu to; the raw code as `0x..` (two digits at least,
/// upper case) for any other.
pub fn vk_name(vk: usize) -> (r: String)
    ensures
        r@ == spec_vk_name(vk),
{
    match vk {
        0x70 => String::from_str("F1"),
        0x71 => String::from_str("F2"),
        0x72 => String::from_str("F3"),
        0x73 => String::from_str("F4"),
        0x24 => String::from_str("HOME"),
        0x23 => String::from_str("END"),
        0x2D => String::from_str("INSERT"),
        0x2E => String::from_str("DELETE"),
        _ => {
            let mut s = String::from_str("0x");
            if vk < 16 {
                s.append("0");
                proof {
                    reveal_strlit("0");
                }
                let ghost before = s@;
                append_hex(&mut s, vk);
                assert(s@ =~= "0x"@ + hex_upper_min2(vk as nat));
            } else {
                append_hex(&mut s, vk);
            }
            s
        },
    }
}

} // verus!
