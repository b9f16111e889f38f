use vstd::prelude::*;

verus! {

/// The command-line surface: the path of the ROM to run, the target clock
/// rate in cycles per second, and the character that renders a lit pixel.
/// Parsing the command line happens outside the library; this type carries
/// the settled values.
pub struct Opt {
    pub rom: String,
    pub clock_rate: u16,
    pub symbol: char,
}

impl Opt {
    /// The pause between completed cycles, in whole milliseconds, that
    /// paces execution to the configured clock rate.
    pub fn cycle_millis(&self) -> (ms: u64)
        requires
            self.clock_rate >= 1,
        ensures
            ms == 1000u64 / (self.clock_rate as u64),
    {
        1000 / self.clock_rate as u64
    }
}

} // verus!
