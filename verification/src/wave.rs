//! The bounded wave-index model: `WaveNumber`, `Wave`, and the full wave
//! reference listing.

use vstd::prelude::*;

use crate::text::{dec_rep, decimal_string};

verus! {

/// The name of wave `n` in the K4's fixed wave table, as `ksynth` renders it.
pub uninterp spec fn wave_name_spec(n: int) -> Seq<char>;

/// Relies on `ksynth::k4::wave::Wave::name` (with `syxpack::Ranged::new` to
/// build the in-range `ksynth::k4::WaveNumber` argument): the name of a wave
/// is a fixed table lookup that depends on the wave number alone.
#[verifier::external_body]
fn ksynth_wave_name(n: u16) -> (r: String)
    requires
        1 <= n <= 256,
    ensures
        r@ == wave_name_spec(n as int),
{
    let number = <ksynth::k4::WaveNumber as syxpack::Ranged>::new(n as i32);
    let wave = ksynth::k4::wave::Wave { number };
    wave.name()
}

/// Error returned when a raw wave index lies outside the legal range 1..=256.
#[derive(Debug, Clone, Copy, PartialEq, Eq, Structural)]
pub struct OutOfRange {
    /// The rejected raw value.
    pub value: u16,
}

/// A validated index into the fixed K4 wave table.
///
/// Out-of-range input is rejected at construction, never clamped or wrapped,
/// so a live value always satisfies `1 <= w@ <= 256`.
#[derive(Debug, Clone, Copy, PartialEq, Eq, Structural)]
pub struct WaveNumber {
    value: u16,
}

impl View for WaveNumber {
    type V = int;

    closed spec fn view(&self) -> int {
        self.value as int
    }
}

impl WaveNumber {
    #[verifier::type_invariant]
    spec fn inv(self) -> bool {
        1 <= self.value <= 256
    }

    /// Validates a raw wave index: values in 1..=256 are accepted as they
    /// are, all others fail with `OutOfRange`.
    pub fn new(value: u16) -> (r: Result<WaveNumber, OutOfRange>)
        ensures
            1 <= value <= 256 ==> (r matches Ok(w) && w@ == value as int),
            !(1 <= value <= 256) ==> r == Err::<WaveNumber, OutOfRange>((OutOfRange { value })),
    {
        if 1 <= value && value <= 256 {
            Ok(WaveNumber { value })
        } else {
            Err(OutOfRange { value })
        }
    }

    /// The validated numeric value.
    pub fn value(&self) -> (r: u16)
        ensures
            r as int == self@,
            1 <= r <= 256,
    {
        proof {
            use_type_invariant(&*self);
        }
        self.value
    }
}

/// The display line for wave `n`: its decimal number, a separator, and the
/// wave's name.
pub open spec fn wave_line_spec(n: int) -> Seq<char> {
    dec_rep(n) + ": "@ + wave_name_spec(n)
}

/// A display wrapper pairing a wave number with its textual rendering.
#[derive(Debug, Clone, Copy)]
pub struct Wave {
    pub number: WaveNumber,
}

impl Wave {
    /// Renders this wave as `"<number>: <name>"`.
    pub fn display_string(&self) -> (r: String)
        ensures
            r@ == wave_line_spec(self.number@),
    {
        let n = self.number.value();
        let mut s = decimal_string(n);
        s.append(": ");
        let name = ksynth_wave_name(n);
        s.append(name.as_str());
        proof {
            assert(s@ =~= wave_line_spec(self.number@));
        }
        s
    }
}

/// Produces the wave reference table: one display line per wave, in ascending
/// numeric order from wave 1 through wave 256.
pub fn wave_list() -> (r: Vec<String>)
    ensures
        r@.len() == 256,
        forall|i: int| 0 <= i < 256 ==> #[trigger] r@[i]@ == wave_line_spec(i + 1),
{
    let mut lines: Vec<String> = Vec::new();
    let mut n: u16 = 1;
    while n <= 256
        invariant
            1 <= n <= 257,
            lines@.len() == n - 1,
            forall|i: int| 0 <= i < n - 1 ==> #[trigger] lines@[i]@ == wave_line_spec(i + 1),
        decreases 257 - n,
    {
        let number = match WaveNumber::new(n) {
            Ok(w) => w,
            Err(_) => unreached(),
        };
        let wave = Wave { number };
        lines.push(wave.display_string());
        n += 1;
    }
    lines
}

} // verus!
