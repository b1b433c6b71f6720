use crate::duration::DurationString;
use crate::model::format_model;
use crate::platform::render;
use vstd::prelude::*;

verus! {

impl DurationString {
    /// The text of this duration: its count in the largest unit that divides
    /// it exactly (`y`, `w`, `d`, `h`, `m`, `s`, `ms`, `us`), else in `ns`.
    pub fn to_string(&self) -> (r: String)
        ensures
            r@ == format_model(self@),
    {
        let ns = self.as_nanos();
        proof {
            reveal_strlit("y");
            reveal_strlit("w");
            reveal_strlit("d");
            reveal_strlit("h");
            reveal_strlit("m");
            reveal_strlit("s");
            reveal_strlit("ms");
            reveal_strlit("us");
            reveal_strlit("ns");
        }
        if ns % 31_556_926_000_000_000 == 0 {
            render(ns / 31_556_926_000_000_000, "y")
        } else if ns % 604_800_000_000_000 == 0 {
            render(ns / 604_800_000_000_000, "w")
        } else if ns % 86_400_000_000_000 == 0 {
            render(ns / 86_400_000_000_000, "d")
        } else if ns % 3_600_000_000_000 == 0 {
            render(ns / 3_600_000_000_000, "h")
        } else if ns % 60_000_000_000 == 0 {
            render(ns / 60_000_000_000, "m")
        } else if ns % 1_000_000_000 == 0 {
            render(ns / 1_000_000_000, "s")
        } else if ns % 1_000_000 == 0 {
            render(ns / 1_000_000, "ms")
        } else if ns % 1_000 == 0 {
            render(ns / 1_000, "us")
        } else {
            render(ns, "ns")
        }
    }
}

} // verus!
