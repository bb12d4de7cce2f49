//! Which display the indicator window goes to, and how the tray menu names
//! the displays.
use vstd::prelude::*;

use crate::text::{decimal, decimal_text, has_prefix, lemma_parse_decimal_text, parse_decimal};

verus! {

/// The number of pixels of a display whose size is `size` (width, height).
pub open spec fn area(size: (u32, u32)) -> int {
    size.0 as int * size.1 as int
}

/// Whether `i` indexes a display of largest area in `sizes`, and the last
/// such display where several share that area.
pub open spec fn is_last_largest(sizes: Seq<(u32, u32)>, i: int) -> bool {
    &&& 0 <= i < sizes.len()
    &&& forall|j: int| 0 <= j < sizes.len() ==> area(#[trigger] sizes[j]) <= area(sizes[i])
    &&& forall|j: int| i < j < sizes.len() ==> area(#[trigger] sizes[j]) < area(sizes[i])
}

/// Whether `r` is the display that the window starts on, given the index
/// saved in the settings and the sizes of the connected displays: the saved
/// index where it names a connected display, else the largest display, else
/// the first slot.
pub open spec fn is_initial_monitor(saved: Option<usize>, sizes: Seq<(u32, u32)>, r: usize) -> bool {
    if saved is Some && saved->0 < sizes.len() {
        r == saved->0
    } else if sizes.len() == 0 {
        r == 0
    } else {
        is_last_largest(sizes, r as int)
    }
}

/// The display that the window is laid out on, out of `count` connected
/// displays: the selected one where it is connected, else the first one,
/// else none.
pub open spec fn monitor_choice(index: usize, count: usize) -> Option<usize> {
    if index < count {
        Some(index)
    } else if count > 0 {
        Some(0)
    } else {
        None
    }
}

/// The display to lay the window out on; see `monitor_choice`.
pub fn select_monitor(index: usize, count: usize) -> (r: Option<usize>)
    ensures
        r == monitor_choice(index, count),
{
    if index < count {
        Some(index)
    } else if count > 0 {
        Some(0)
    } else {
        None
    }
}

/// The number of pixels of a display of the given size.
pub fn pixel_area(size: (u32, u32)) -> (a: u64)
    ensures
        a == area(size),
{
    let w = size.0 as u64;
    let h = size.1 as u64;
    assert(w * h <= u64::MAX) by (nonlinear_arith)
        requires
            w <= u32::MAX,
            h <= u32::MAX,
    ;
    w * h
}

/// The display that the window starts on; see `is_initial_monitor`.
pub fn initial_monitor_index(saved: Option<usize>, sizes: &Vec<(u32, u32)>) -> (r: usize)
    ensures
        is_initial_monitor(saved, sizes@, r),
{
    if let Some(i) = saved {
        if i < sizes.len() {
            return i;
        }
    }
    if sizes.len() == 0 {
        return 0;
    }
    let mut best: usize = 0;
    let mut best_area: u64 = pixel_area(sizes[0]);
    let mut j: usize = 1;
    while j < sizes.len()
        invariant
            1 <= j <= sizes@.len(),
            best < j,
            best_area == area(sizes@[best as int]),
            forall|k: int| 0 <= k < j ==> area(#[trigger] sizes@[k]) <= area(sizes@[best as int]),
            forall|k: int| best < k < j ==> area(#[trigger] sizes@[k]) < area(sizes@[best as int]),
        decreases sizes@.len() - j,
    {
        let a = pixel_area(sizes[j]);
        if a >= best_area {
            best = j;
            best_area = a;
        }
        j = j + 1;
    }
    best
}

/// The tray menu caption of display number `index` (counted from 0): its
/// own name, or "显示器 " and its number counted from 1 where it has no name.
pub open spec fn monitor_label_text(name: Option<Seq<char>>, index: usize) -> Seq<char> {
    if name is Some && name->0.len() > 0 {
        name->0
    } else {
        "显示器 "@ + decimal_text((index + 1) as nat)
    }
}

/// The tray menu caption of display number `index`; see
/// `monitor_label_text`.
pub fn monitor_label(name: Option<String>, index: usize) -> (s: String)
    requires
        index < usize::MAX,
    ensures
        s@ == monitor_label_text(
            match name {
                Some(n) => Some(n@),
                None => None,
            },
            index,
        ),
{
    match name {
        Some(n) => {
            if !n.as_str().is_empty() {
                return n;
            }
        },
        None => {},
    }
    let mut s = String::from_str("显示器 ");
    let number = decimal(index as u64 + 1);
    s.append(number.as_str());
    s
}

/// The identifier of the tray menu entry that moves the window to display
/// number `index`.
pub open spec fn monitor_item_id_text(index: usize) -> Seq<char> {
    "monitor:"@ + decimal_text(index as nat)
}

/// The identifier of the tray menu entry for display number `index`.
pub fn monitor_item_id(index: usize) -> (s: String)
    ensures
        s@ == monitor_item_id_text(index),
{
    let mut s = String::from_str("monitor:");
    let number = decimal(index as u64);
    s.append(number.as_str());
    s
}

/// The window starts on the saved display whenever that display is still
/// connected. When none was saved, or the saved one is gone, and some display
/// is connected, it starts on one of largest area (width times height), the
/// last of them where several are equally large; the stale saved value plays
/// no part. With no display connected it starts on the first slot.
pub proof fn lemma_start_display(saved: Option<usize>, sizes: Seq<(u32, u32)>, r: usize)
    requires
        is_initial_monitor(saved, sizes, r),
    ensures
        saved is Some && saved->0 < sizes.len() ==> r == saved->0,
        (saved is None || saved->0 >= sizes.len()) && sizes.len() > 0 ==> {
            &&& r < sizes.len()
            &&& forall|j: int|
                0 <= j < sizes.len() ==> ((#[trigger] sizes[j]).0 as int) * (sizes[j].1 as int)
                    <= (sizes[r as int].0 as int) * (sizes[r as int].1 as int)
            &&& forall|j: int|
                r < j < sizes.len() ==> ((#[trigger] sizes[j]).0 as int) * (sizes[j].1 as int)
                    < (sizes[r as int].0 as int) * (sizes[r as int].1 as int)
        },
        sizes.len() == 0 ==> r == 0,
        (saved is None || saved->0 >= sizes.len()) ==> is_initial_monitor(None, sizes, r),
{
}

/// A display of largest area, the last such, is unique: the start display
/// after a stale or missing saved index is fully determined by the sizes.
pub proof fn lemma_start_display_unique(sizes: Seq<(u32, u32)>, r1: usize, r2: usize)
    requires
        is_last_largest(sizes, r1 as int),
        is_last_largest(sizes, r2 as int),
    ensures
        r1 == r2,
{
    if r1 < r2 {
        assert(area(sizes[r2 as int]) < area(sizes[r1 as int]));
        assert(area(sizes[r2 as int]) <= area(sizes[r1 as int]));
        assert(area(sizes[r1 as int]) <= area(sizes[r2 as int]));
    } else if r2 < r1 {
        assert(area(sizes[r1 as int]) < area(sizes[r2 as int]));
        assert(area(sizes[r2 as int]) <= area(sizes[r1 as int]));
    }
}

/// The window is laid out on the selected display whenever it is connected;
/// otherwise on the first display; the result is always a connected display,
/// and there is none only when no display is connected.
pub proof fn lemma_layout_display(index: usize, count: usize)
    ensures
        index < count ==> monitor_choice(index, count) == Some(index),
        index >= count && count > 0 ==> monitor_choice(index, count) == Some(0usize),
        monitor_choice(index, count) matches Some(j) ==> j < count,
        monitor_choice(index, count) is None <==> count == 0,
{
}

/// A display with a name is listed under that name; one without is listed
/// as "显示器 " followed by its number counted from 1, which reads back as
/// its index plus one.
pub proof fn lemma_monitor_label(name: Option<Seq<char>>, index: usize)
    ensures
        name is Some && name->0.len() > 0 ==> monitor_label_text(name, index) == name->0,
        !(name is Some && name->0.len() > 0) ==> {
            let label = monitor_label_text(name, index);
            &&& has_prefix(label, "显示器 "@)
            &&& parse_decimal(label.skip("显示器 "@.len() as int)) == Some((index + 1) as nat)
        },
{
    if !(name is Some && name->0.len() > 0) {
        let label = monitor_label_text(name, index);
        assert(label.take("显示器 "@.len() as int) =~= "显示器 "@);
        assert(label.skip("显示器 "@.len() as int) =~= decimal_text((index + 1) as nat));
        lemma_parse_decimal_text((index + 1) as nat);
    }
}

} // verus!
