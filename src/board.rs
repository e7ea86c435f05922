//! The board description that early boot reads, and the text it reports.
use vstd::prelude::*;
use crate::text::{decimal, push_decimal, push_str};

verus! {

/// The compatibility identifiers of a board's drivers, in the board's order.
pub open spec fn names(drivers: Seq<String>) -> Seq<Seq<char>> {
    drivers.map_values(|s: String| s@)
}

/// One line of the driver list: its 1-based position and identifier.
pub open spec fn driver_line(pos: nat, compatible: Seq<char>) -> Seq<char> {
    "      "@ + decimal(pos) + ". "@ + compatible + "\n"@
}

/// The driver list, one line per driver, numbered from 1 in the board's order.
pub open spec fn driver_list(drivers: Seq<Seq<char>>) -> Seq<char>
    decreases drivers.len(),
{
    if drivers.len() == 0 {
        Seq::empty()
    } else {
        driver_list(drivers.drop_last()) + driver_line(drivers.len(), drivers.last())
    }
}

/// The boot summary: board name, driver list and the console's counter.
pub open spec fn banner_text(board: Seq<char>, drivers: Seq<Seq<char>>, written: u64) -> Seq<char> {
    "[0] Booting on: "@ + board + "\n"@ + "[1] Drivers loaded:\n"@ + driver_list(drivers)
        + "[2] Chars written: "@ + decimal(written as nat) + "\n"@ + "[3] Echoing input now\n"@
}

/// The fatal line for a driver whose init failed.
pub open spec fn fatal_text(compatible: Seq<char>) -> Seq<char> {
    "Error loading driver: "@ + compatible
}

/// A board: its identifier and the compatibility identifiers of its drivers,
/// in the order they are brought up. Fixed once made.
pub struct Board {
    name: String,
    drivers: Vec<String>,
}

impl Board {
    /// The board's identifier.
    pub closed spec fn name_spec(&self) -> Seq<char> {
        self.name@
    }

    /// The drivers' compatibility identifiers, in bring-up order.
    pub closed spec fn drivers_spec(&self) -> Seq<Seq<char>> {
        names(self.drivers@)
    }

    /// A board named `name` whose drivers, in bring-up order, have the
    /// compatibility identifiers `drivers`.
    pub fn new(name: String, drivers: Vec<String>) -> (r: Board)
        ensures
            r.name_spec() == name@,
            r.drivers_spec() == names(drivers@),
    {
        Board { name, drivers }
    }

    /// The board's identifier.
    pub fn name(&self) -> (r: &str)
        ensures
            r@ == self.name_spec(),
    {
        self.name.as_str()
    }

    /// How many drivers the board has.
    pub fn driver_count(&self) -> (r: usize)
        ensures
            r == self.drivers_spec().len(),
    {
        self.drivers.len()
    }

    /// The compatibility identifier of the driver at `i`.
    pub fn compatible(&self, i: usize) -> (r: &str)
        requires
            i < self.drivers_spec().len(),
        ensures
            r@ == self.drivers_spec()[i as int],
    {
        self.drivers[i].as_str()
    }

    /// The fatal line naming the driver at `i`.
    pub fn fatal_message(&self, i: usize) -> (r: Vec<char>)
        requires
            i < self.drivers_spec().len(),
        ensures
            r@ == fatal_text(self.drivers_spec()[i as int]),
    {
        let mut out: Vec<char> = Vec::new();
        push_str(&mut out, "Error loading driver: ");
        push_str(&mut out, self.compatible(i));
        out
    }

    /// The boot summary, given the console's counter.
    pub fn banner(&self, written: u64) -> (r: Vec<char>)
        ensures
            r@ == banner_text(self.name_spec(), self.drivers_spec(), written),
    {
        let mut out: Vec<char> = Vec::new();
        push_str(&mut out, "[0] Booting on: ");
        push_str(&mut out, self.name());
        push_str(&mut out, "\n");
        push_str(&mut out, "[1] Drivers loaded:\n");
        let ghost head = out@;
        let ghost ds = self.drivers_spec();
        let mut i: usize = 0;
        while i < self.drivers.len()
            invariant
                ds == self.drivers_spec(),
                i <= ds.len(),
                out@ == head + driver_list(ds.take(i as int)),
            decreases ds.len() - i,
        {
            let ghost before = out@;
            push_str(&mut out, "      ");
            push_decimal(&mut out, i as u128 + 1);
            push_str(&mut out, ". ");
            push_str(&mut out, self.compatible(i));
            push_str(&mut out, "\n");
            proof {
                let t = ds.take(i + 1);
                assert(t.drop_last() == ds.take(i as int));
                assert(t.last() == ds[i as int]);
                assert(out@ == before + driver_line((i + 1) as nat, ds[i as int]));
            }
            i = i + 1;
        }
        assert(ds.take(ds.len() as int) == ds);
        push_str(&mut out, "[2] Chars written: ");
        push_decimal(&mut out, written as u128);
        push_str(&mut out, "\n");
        push_str(&mut out, "[3] Echoing input now\n");
        out
    }
}

} // verus!
