//! StatusFlag bitmask of a snapshot.
use vstd::prelude::*;

verus! {

pub const ONLINE: u16 = 1;
pub const ON_BATTERY: u16 = 2;
pub const LOW_BATTERY: u16 = 4;
pub const REPLACE_BATTERY: u16 = 8;
pub const CHARGING: u16 = 16;
pub const DISCHARGING: u16 = 32;
pub const OVERLOAD: u16 = 64;
pub const BYPASS: u16 = 128;
pub const OFFLINE: u16 = 256;
pub const FAULT: u16 = 512;

/// The flags in label order, each with its label.
pub open spec fn flag_table() -> Seq<(u16, &'static str)> {
    seq![
        (ONLINE, "online"),
        (ON_BATTERY, "on_battery"),
        (LOW_BATTERY, "low_battery"),
        (REPLACE_BATTERY, "replace_battery"),
        (CHARGING, "charging"),
        (DISCHARGING, "discharging"),
        (OVERLOAD, "overload"),
        (BYPASS, "bypass"),
        (OFFLINE, "offline"),
        (FAULT, "fault"),
    ]
}

/// The labels of the first `n` table entries whose bit is set in `flags`, in table order.
pub open spec fn labels_upto(flags: u16, n: nat) -> Seq<&'static str>
    decreases n,
{
    if n == 0 {
        Seq::empty()
    } else {
        let prev = labels_upto(flags, (n - 1) as nat);
        let e = flag_table()[n - 1];
        if flags & e.0 != 0 {
            prev.push(e.1)
        } else {
            prev
        }
    }
}

/// The labels of the flags set in `flags`, in table order.
pub open spec fn labels_spec(flags: u16) -> Seq<&'static str> {
    labels_upto(flags, 10)
}

/// Human-readable labels of the flags set in `flags`, in bit order.
pub fn labels(flags: u16) -> (v: Vec<&'static str>)
    ensures
        v@ == labels_spec(flags),
{
    let table: [(u16, &'static str); 10] = [
        (ONLINE, "online"),
        (ON_BATTERY, "on_battery"),
        (LOW_BATTERY, "low_battery"),
        (REPLACE_BATTERY, "replace_battery"),
        (CHARGING, "charging"),
        (DISCHARGING, "discharging"),
        (OVERLOAD, "overload"),
        (BYPASS, "bypass"),
        (OFFLINE, "offline"),
        (FAULT, "fault"),
    ];
    proof {
        assert(table@ =~= flag_table());
    }
    let mut v: Vec<&'static str> = Vec::new();
    let mut i: usize = 0;
    while i < 10
        invariant
            i <= 10,
            table@ == flag_table(),
            v@ == labels_upto(flags, i as nat),
        decreases 10 - i,
    {
        let (bit, name) = table[i];
        if flags & bit != 0 {
            v.push(name);
        }
        i = i + 1;
    }
    v
}

} // verus!
