//! The help window.

use vstd::prelude::*;

use crate::keybinds::Keymap;

verus! {

/// The help window: the keybinds of the area it was opened over, then the global ones.
#[derive(Debug, Clone, Copy, PartialEq, Eq, Structural)]
pub struct HelpModal {
    /// The keymap of the area that was focused when the window opened.
    pub area_binds: Keymap,
}

impl HelpModal {
    pub fn new(area_binds: Keymap) -> (r: HelpModal)
        ensures
            r.area_binds == area_binds,
    {
        HelpModal { area_binds }
    }
}

/// The sum of the lengths.
pub open spec fn total(lens: Seq<usize>) -> int
    decreases lens.len(),
{
    if lens.len() == 0 {
        0
    } else {
        total(lens.drop_last()) + lens.last()
    }
}

/// The width of the keys of one keybind written one after another, `", "` between two.
pub open spec fn keys_width(lens: Seq<usize>) -> int {
    total(lens) + if lens.len() > 0 {
        2 * (lens.len() - 1)
    } else {
        0
    }
}

/// The widest keys of the keybinds, and at least 3.
pub open spec fn widest_keys(rows: Seq<Seq<usize>>) -> int
    decreases rows.len(),
{
    if rows.len() == 0 {
        3
    } else {
        let w = widest_keys(rows.drop_last());
        let x = keys_width(rows.last());
        if x > w {
            x
        } else {
            w
        }
    }
}

/// The largest width that a column can have.
pub open spec fn capped(w: int) -> int {
    if w > 65535 {
        65535
    } else {
        w
    }
}

/// The width of one keybind's keys, given the length of each key's text, capped at the
/// largest width a column can have.
pub fn keys_column_width(lens: &Vec<usize>) -> (r: u16)
    ensures
        r == capped(keys_width(lens@)),
{
    let mut acc: usize = 0;
    let mut i: usize = 0;
    while i < lens.len()
        invariant
            i <= lens.len(),
            acc == capped(keys_width(lens@.subrange(0, i as int))),
        decreases lens.len() - i,
    {
        proof {
            assert(lens@.subrange(0, i + 1).drop_last() =~= lens@.subrange(0, i as int));
            assert(lens@.subrange(0, i + 1).last() == lens@[i as int]);
        }
        let x = lens[i];
        let sep: usize = if i > 0 {
            2
        } else {
            0
        };
        if acc < 65535 {
            let room: usize = 65535 - acc;
            if x >= room {
                acc = 65535;
            } else {
                let t: usize = acc + x;
                if t + sep >= 65535 {
                    acc = 65535;
                } else {
                    acc = t + sep;
                }
            }
        }
        i = i + 1;
    }
    proof {
        assert(lens@.subrange(0, lens@.len() as int) =~= lens@);
    }
    acc as u16
}

/// The width of the key column of the help window, given the length of each key's text of
/// each keybind: the widest keys, at least 3, capped at the largest width a column can have.
pub fn key_column_width(rows: &Vec<Vec<usize>>) -> (r: u16)
    ensures
        r == capped(widest_keys(rows@.map_values(|v: Vec<usize>| v@))),
{
    let ghost rs = rows@.map_values(|v: Vec<usize>| v@);
    let mut w: u16 = 3;
    let mut i: usize = 0;
    while i < rows.len()
        invariant
            i <= rows.len(),
            rs == rows@.map_values(|v: Vec<usize>| v@),
            w == capped(widest_keys(rs.subrange(0, i as int))),
        decreases rows.len() - i,
    {
        proof {
            assert(rs.subrange(0, i + 1).drop_last() =~= rs.subrange(0, i as int));
            assert(rs.subrange(0, i + 1).last() == rows@[i as int]@);
        }
        let x = keys_column_width(&rows[i]);
        if x > w {
            w = x;
        }
        i = i + 1;
    }
    proof {
        assert(rs.subrange(0, rows@.len() as int) =~= rs);
    }
    w
}

} // verus!
