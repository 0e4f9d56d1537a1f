use vstd::prelude::*;
use crate::tui::layout::{Area, PlacedText};
use vstd::utf8::{encode_utf8, is_ascii_chars_encode_utf8};

verus! {

/// Which columns of measurements are switched on.
pub struct ColumnConfigState {
    latency_frequency: bool,
    garbage_collection: bool,
    memory_allocation: bool,
    network: bool,
    disk: bool,
}

/// The bar of column switches.
pub struct ColumnConfig {}

/// The label of a switch: `[v] name` when on, `[ ] name` when off.
pub open spec fn switch_label(on: bool, name: Seq<char>) -> Seq<char> {
    if on {
        seq!['[', 'v', ']', ' '] + name
    } else {
        seq!['[', ' ', ']', ' '] + name
    }
}

/// The total width in bytes of the five switch labels.
pub const SWITCHES_WIDTH: u16 = 56;

impl ColumnConfigState {
    /// Which columns are on: latency and frequency, garbage collection,
    /// memory allocation, network, disk.
    pub fn new(
        latency_frequency: bool,
        garbage_collection: bool,
        memory_allocation: bool,
        network: bool,
        disk: bool,
    ) -> (s: Self)
        ensures
            s.switches() == seq![
                latency_frequency,
                garbage_collection,
                memory_allocation,
                network,
                disk,
            ],
    {
        ColumnConfigState { latency_frequency, garbage_collection, memory_allocation, network, disk }
    }

    /// The switches, in the order they are shown.
    pub closed spec fn switches(&self) -> Seq<bool> {
        seq![
            self.latency_frequency,
            self.garbage_collection,
            self.memory_allocation,
            self.network,
            self.disk,
        ]
    }
}

/// The names of the switches, in the order they are shown.
pub open spec fn switch_names() -> Seq<Seq<char>> {
    seq!["Latency/Frequency"@, "GC"@, "Allocation"@, "Net"@, "Disk"@]
}

fn place_switch(x: &mut u16, y: u16, on: bool, name: &str, items: &mut Vec<PlacedText>)
    requires
        vstd::utf8::is_ascii_chars(name@),
        *old(x) + 4 + name@.len() <= u16::MAX,
    ensures
        final(items)@ == old(items)@.push(
            PlacedText { x: *old(x), y, text: final(items)@.last().text },
        ),
        final(items)@.last().text@ == switch_label(on, name@),
        *final(x) == *old(x) + 4 + name@.len(),
{
    let mut label = if on {
        String::from_str("[v] ")
    } else {
        String::from_str("[ ] ")
    };
    label.append(name);
    proof {
        reveal_strlit("[v] ");
        reveal_strlit("[ ] ");
        assert(label@ =~= switch_label(on, name@));
        assert(vstd::utf8::is_ascii_chars(label@));
        is_ascii_chars_encode_utf8(label@);
    }
    let width = label.as_str().len();
    let start = *x;
    *x = *x + (width as u16);
    items.push(PlacedText { x: start, y, text: label });
}

impl ColumnConfig {
    /// The switch labels side by side on the second row of the area, from its
    /// left edge, each starting where the one before ends.
    pub fn switch_texts(area: Area, state: &ColumnConfigState) -> (items: Vec<PlacedText>)
        requires
            area.x + SWITCHES_WIDTH <= u16::MAX,
            area.y + 1 <= u16::MAX,
        ensures
            items@.len() == 5,
            items@[0].x == area.x,
            forall|k: int| 0 <= k < 5 ==> (#[trigger] items@[k]).y == area.y + 1,
            forall|k: int| 0 <= k < 5 ==> (#[trigger] items@[k]).text@ == switch_label(
                state.switches()[k],
                switch_names()[k],
            ),
            forall|k: int| 0 <= k < 4 ==> (#[trigger] items@[k + 1]).x == items@[k].x + encode_utf8(
                items@[k].text@,
            ).len(),
    {
        proof {
            reveal_strlit("Latency/Frequency");
            reveal_strlit("GC");
            reveal_strlit("Allocation");
            reveal_strlit("Net");
            reveal_strlit("Disk");
        }
        let y = area.y + 1;
        let mut x = area.x;
        let mut items: Vec<PlacedText> = Vec::new();
        place_switch(&mut x, y, state.latency_frequency, "Latency/Frequency", &mut items);
        place_switch(&mut x, y, state.garbage_collection, "GC", &mut items);
        place_switch(&mut x, y, state.memory_allocation, "Allocation", &mut items);
        place_switch(&mut x, y, state.network, "Net", &mut items);
        place_switch(&mut x, y, state.disk, "Disk", &mut items);
        proof {
            assert forall|k: int| 0 <= k < 5 implies vstd::utf8::is_ascii_chars(#[trigger] items@[k].text@) by {}
            assert forall|k: int| 0 <= k < 5 implies encode_utf8(#[trigger] items@[k].text@).len()
                == items@[k].text@.len() by {
                is_ascii_chars_encode_utf8(items@[k].text@);
            }
        }
        items
    }
}

} // verus!
