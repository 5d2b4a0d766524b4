//! Spectrogram display options: the values a user can pick, the text shown
//! for each, and the number that the spectrogram engine takes for it.

use vstd::arithmetic::power2::{lemma2_to64, pow2};
use vstd::prelude::*;
use vstd::string::*;

verus! {

/// FFT window size.
#[derive(Debug, Clone, Copy, PartialEq, Eq, Structural)]
pub enum FftSize {
    Size512,
    Size256,
    Size128,
    Size64,
    Size32,
    Size16,
}

impl FftSize {
    /// All variants, in the order in which they are offered.
    pub const VARIANTS: [FftSize; 6] = [
        FftSize::Size512,
        FftSize::Size256,
        FftSize::Size128,
        FftSize::Size64,
        FftSize::Size32,
        FftSize::Size16,
    ];

    /// Position of the variant in `VARIANTS`.
    pub open spec fn index(self) -> nat {
        match self {
            FftSize::Size512 => 0,
            FftSize::Size256 => 1,
            FftSize::Size128 => 2,
            FftSize::Size64 => 3,
            FftSize::Size32 => 4,
            FftSize::Size16 => 5,
        }
    }

    /// The text shown for the variant.
    pub open spec fn label(self) -> Seq<char> {
        match self {
            FftSize::Size512 => "N=512"@,
            FftSize::Size256 => "N=256"@,
            FftSize::Size128 => "N=128"@,
            FftSize::Size64 => "N=64"@,
            FftSize::Size32 => "N=32"@,
            FftSize::Size16 => "N=16"@,
        }
    }

    /// Position of the variant in `VARIANTS`.
    pub fn position(&self) -> (at: usize)
        ensures
            at == self.index(),
            at < 6,
            FftSize::VARIANTS[at as int] == *self,
    {
        match self {
            FftSize::Size512 => 0,
            FftSize::Size256 => 1,
            FftSize::Size128 => 2,
            FftSize::Size64 => 3,
            FftSize::Size32 => 4,
            FftSize::Size16 => 5,
        }
    }

    /// The number of samples in one FFT window: 512 for the first variant, and half
    /// as much for each one after it.
    pub fn to_value(&self) -> (value: usize)
        ensures
            value == pow2((9 - self.index()) as nat),
    {
        let shift: u32 = 9 - self.position() as u32;
        proof {
            lemma2_to64();
            assert(1usize << 4u32 == 16) by (bit_vector);
            assert(1usize << 5u32 == 32) by (bit_vector);
            assert(1usize << 6u32 == 64) by (bit_vector);
            assert(1usize << 7u32 == 128) by (bit_vector);
            assert(1usize << 8u32 == 256) by (bit_vector);
            assert(1usize << 9u32 == 512) by (bit_vector);
        }
        1usize << shift
    }

    /// The text shown for the variant.
    pub fn to_string(&self) -> (text: String)
        ensures
            text@ == self.label(),
    {
        String::from_str(
            match self {
                FftSize::Size512 => "N=512",
                FftSize::Size256 => "N=256",
                FftSize::Size128 => "N=128",
                FftSize::Size64 => "N=64",
                FftSize::Size32 => "N=32",
                FftSize::Size16 => "N=16",
            },
        )
    }
}

impl Default for FftSize {
    fn default() -> (choice: FftSize)
        ensures
            choice == FftSize::Size512,
    {
        FftSize::Size512
    }
}

/// Gain value adjustment.
#[derive(Debug, Clone, Copy, PartialEq, Eq, Structural)]
pub enum DbGain {
    Gain0,
    Gain3,
    Gain6,
    Gain9,
    Gain12,
    Gain15,
    Gain18,
    Gain21,
    Gain24,
    Gain27,
    Gain30,
}

impl DbGain {
    /// All variants, in the order in which they are offered.
    pub const VARIANTS: [DbGain; 11] = [
        DbGain::Gain0,
        DbGain::Gain3,
        DbGain::Gain6,
        DbGain::Gain9,
        DbGain::Gain12,
        DbGain::Gain15,
        DbGain::Gain18,
        DbGain::Gain21,
        DbGain::Gain24,
        DbGain::Gain27,
        DbGain::Gain30,
    ];

    /// Position of the variant in `VARIANTS`.
    pub open spec fn index(self) -> nat {
        match self {
            DbGain::Gain0 => 0,
            DbGain::Gain3 => 1,
            DbGain::Gain6 => 2,
            DbGain::Gain9 => 3,
            DbGain::Gain12 => 4,
            DbGain::Gain15 => 5,
            DbGain::Gain18 => 6,
            DbGain::Gain21 => 7,
            DbGain::Gain24 => 8,
            DbGain::Gain27 => 9,
            DbGain::Gain30 => 10,
        }
    }

    /// The text shown for the variant.
    pub open spec fn label(self) -> Seq<char> {
        match self {
            DbGain::Gain0 => "+0 dB"@,
            DbGain::Gain3 => "+3 dB"@,
            DbGain::Gain6 => "+6 dB"@,
            DbGain::Gain9 => "+9 dB"@,
            DbGain::Gain12 => "+12 dB"@,
            DbGain::Gain15 => "+15 dB"@,
            DbGain::Gain18 => "+18 dB"@,
            DbGain::Gain21 => "+21 dB"@,
            DbGain::Gain24 => "+24 dB"@,
            DbGain::Gain27 => "+27 dB"@,
            DbGain::Gain30 => "+30 dB"@,
        }
    }

    /// Position of the variant in `VARIANTS`.
    pub fn position(&self) -> (at: usize)
        ensures
            at == self.index(),
            at < 11,
            DbGain::VARIANTS[at as int] == *self,
    {
        match self {
            DbGain::Gain0 => 0,
            DbGain::Gain3 => 1,
            DbGain::Gain6 => 2,
            DbGain::Gain9 => 3,
            DbGain::Gain12 => 4,
            DbGain::Gain15 => 5,
            DbGain::Gain18 => 6,
            DbGain::Gain21 => 7,
            DbGain::Gain24 => 8,
            DbGain::Gain27 => 9,
            DbGain::Gain30 => 10,
        }
    }

    /// The gain in dB: 3 dB for each step.
    pub fn to_value(&self) -> (value: usize)
        ensures
            value == 3 * self.index(),
    {
        3 * self.position()
    }

    /// The text shown for the variant.
    pub fn to_string(&self) -> (text: String)
        ensures
            text@ == self.label(),
    {
        String::from_str(
            match self {
                DbGain::Gain0 => "+0 dB",
                DbGain::Gain3 => "+3 dB",
                DbGain::Gain6 => "+6 dB",
                DbGain::Gain9 => "+9 dB",
                DbGain::Gain12 => "+12 dB",
                DbGain::Gain15 => "+15 dB",
                DbGain::Gain18 => "+18 dB",
                DbGain::Gain21 => "+21 dB",
                DbGain::Gain24 => "+24 dB",
                DbGain::Gain27 => "+27 dB",
                DbGain::Gain30 => "+30 dB",
            },
        )
    }
}

impl Default for DbGain {
    fn default() -> (choice: DbGain)
        ensures
            choice == DbGain::Gain6,
    {
        DbGain::Gain6
    }
}

/// Range value adjustment.
#[derive(Debug, Clone, Copy, PartialEq, Eq, Structural)]
pub enum DbRange {
    Range6,
    Range12,
    Range18,
    Range24,
    Range30,
    Range36,
    Range42,
    Range48,
    Range54,
    Range60,
    Range66,
    Range72,
    Range78,
    Range84,
    Range90,
}

impl DbRange {
    /// All variants, in the order in which they are offered.
    pub const VARIANTS: [DbRange; 15] = [
        DbRange::Range6,
        DbRange::Range12,
        DbRange::Range18,
        DbRange::Range24,
        DbRange::Range30,
        DbRange::Range36,
        DbRange::Range42,
        DbRange::Range48,
        DbRange::Range54,
        DbRange::Range60,
        DbRange::Range66,
        DbRange::Range72,
        DbRange::Range78,
        DbRange::Range84,
        DbRange::Range90,
    ];

    /// Position of the variant in `VARIANTS`.
    pub open spec fn index(self) -> nat {
        match self {
            DbRange::Range6 => 0,
            DbRange::Range12 => 1,
            DbRange::Range18 => 2,
            DbRange::Range24 => 3,
            DbRange::Range30 => 4,
            DbRange::Range36 => 5,
            DbRange::Range42 => 6,
            DbRange::Range48 => 7,
            DbRange::Range54 => 8,
            DbRange::Range60 => 9,
            DbRange::Range66 => 10,
            DbRange::Range72 => 11,
            DbRange::Range78 => 12,
            DbRange::Range84 => 13,
            DbRange::Range90 => 14,
        }
    }

    /// The text shown for the variant.
    pub open spec fn label(self) -> Seq<char> {
        match self {
            DbRange::Range6 => "6 dB"@,
            DbRange::Range12 => "12 dB"@,
            DbRange::Range18 => "18 dB"@,
            DbRange::Range24 => "24 dB"@,
            DbRange::Range30 => "30 dB"@,
            DbRange::Range36 => "36 dB"@,
            DbRange::Range42 => "42 dB"@,
            DbRange::Range48 => "48 dB"@,
            DbRange::Range54 => "54 dB"@,
            DbRange::Range60 => "60 dB"@,
            DbRange::Range66 => "66 dB"@,
            DbRange::Range72 => "72 dB"@,
            DbRange::Range78 => "78 dB"@,
            DbRange::Range84 => "84 dB"@,
            DbRange::Range90 => "90 dB"@,
        }
    }

    /// Position of the variant in `VARIANTS`.
    pub fn position(&self) -> (at: usize)
        ensures
            at == self.index(),
            at < 15,
            DbRange::VARIANTS[at as int] == *self,
    {
        match self {
            DbRange::Range6 => 0,
            DbRange::Range12 => 1,
            DbRange::Range18 => 2,
            DbRange::Range24 => 3,
            DbRange::Range30 => 4,
            DbRange::Range36 => 5,
            DbRange::Range42 => 6,
            DbRange::Range48 => 7,
            DbRange::Range54 => 8,
            DbRange::Range60 => 9,
            DbRange::Range66 => 10,
            DbRange::Range72 => 11,
            DbRange::Range78 => 12,
            DbRange::Range84 => 13,
            DbRange::Range90 => 14,
        }
    }

    /// The range in dB: 6 dB for the first variant, and 6 dB more for each one
    /// after it.
    pub fn to_value(&self) -> (value: usize)
        ensures
            value == 6 * (1 + self.index()),
    {
        6 * (1 + self.position())
    }

    /// The text shown for the variant.
    pub fn to_string(&self) -> (text: String)
        ensures
            text@ == self.label(),
    {
        String::from_str(
            match self {
                DbRange::Range6 => "6 dB",
                DbRange::Range12 => "12 dB",
                DbRange::Range18 => "18 dB",
                DbRange::Range24 => "24 dB",
                DbRange::Range30 => "30 dB",
                DbRange::Range36 => "36 dB",
                DbRange::Range42 => "42 dB",
                DbRange::Range48 => "48 dB",
                DbRange::Range54 => "54 dB",
                DbRange::Range60 => "60 dB",
                DbRange::Range66 => "66 dB",
                DbRange::Range72 => "72 dB",
                DbRange::Range78 => "78 dB",
                DbRange::Range84 => "84 dB",
                DbRange::Range90 => "90 dB",
            },
        )
    }
}

impl Default for DbRange {
    fn default() -> (choice: DbRange)
        ensures
            choice == DbRange::Range30,
    {
        DbRange::Range30
    }
}

/// Colormap for signal strength.
#[derive(Debug, Clone, Copy, PartialEq, Eq, Structural)]
pub enum Colormap {
    Cube1,
    Viridis,
    Plasma,
    Inferno,
    Magma,
    Hot,
    Afmhot,
    GistHeat,
    Turbo,
    Parabola,
    Grayscale,
    Roentgen,
    Phosphor,
}

impl Colormap {
    /// All variants, in the order in which they are offered.
    pub const VARIANTS: [Colormap; 13] = [
        Colormap::Cube1,
        Colormap::Viridis,
        Colormap::Plasma,
        Colormap::Inferno,
        Colormap::Magma,
        Colormap::Hot,
        Colormap::Afmhot,
        Colormap::GistHeat,
        Colormap::Turbo,
        Colormap::Parabola,
        Colormap::Grayscale,
        Colormap::Roentgen,
        Colormap::Phosphor,
    ];

    /// Position of the variant in `VARIANTS`.
    pub open spec fn index(self) -> nat {
        match self {
            Colormap::Cube1 => 0,
            Colormap::Viridis => 1,
            Colormap::Plasma => 2,
            Colormap::Inferno => 3,
            Colormap::Magma => 4,
            Colormap::Hot => 5,
            Colormap::Afmhot => 6,
            Colormap::GistHeat => 7,
            Colormap::Turbo => 8,
            Colormap::Parabola => 9,
            Colormap::Grayscale => 10,
            Colormap::Roentgen => 11,
            Colormap::Phosphor => 12,
        }
    }

    /// The text shown for the variant.
    pub open spec fn label(self) -> Seq<char> {
        match self {
            Colormap::Cube1 => "Cube1"@,
            Colormap::Viridis => "Viridis"@,
            Colormap::Plasma => "Plasma"@,
            Colormap::Inferno => "Inferno"@,
            Colormap::Magma => "Magma"@,
            Colormap::Hot => "Hot"@,
            Colormap::Afmhot => "Afm-Hot"@,
            Colormap::GistHeat => "Gist-Heat"@,
            Colormap::Turbo => "Turbo"@,
            Colormap::Parabola => "Parabola"@,
            Colormap::Grayscale => "Grayscale"@,
            Colormap::Roentgen => "Roentgen"@,
            Colormap::Phosphor => "Phosphor"@,
        }
    }

    /// Position of the variant in `VARIANTS`.
    pub fn position(&self) -> (at: usize)
        ensures
            at == self.index(),
            at < 13,
            Colormap::VARIANTS[at as int] == *self,
    {
        match self {
            Colormap::Cube1 => 0,
            Colormap::Viridis => 1,
            Colormap::Plasma => 2,
            Colormap::Inferno => 3,
            Colormap::Magma => 4,
            Colormap::Hot => 5,
            Colormap::Afmhot => 6,
            Colormap::GistHeat => 7,
            Colormap::Turbo => 8,
            Colormap::Parabola => 9,
            Colormap::Grayscale => 10,
            Colormap::Roentgen => 11,
            Colormap::Phosphor => 12,
        }
    }

    /// The engine's number for the colormap.
    pub fn to_value(&self) -> (value: usize)
        ensures
            value == self.index(),
    {
        self.position()
    }

    /// The text shown for the variant.
    pub fn to_string(&self) -> (text: String)
        ensures
            text@ == self.label(),
    {
        String::from_str(
            match self {
                Colormap::Cube1 => "Cube1",
                Colormap::Viridis => "Viridis",
                Colormap::Plasma => "Plasma",
                Colormap::Inferno => "Inferno",
                Colormap::Magma => "Magma",
                Colormap::Hot => "Hot",
                Colormap::Afmhot => "Afm-Hot",
                Colormap::GistHeat => "Gist-Heat",
                Colormap::Turbo => "Turbo",
                Colormap::Parabola => "Parabola",
                Colormap::Grayscale => "Grayscale",
                Colormap::Roentgen => "Roentgen",
                Colormap::Phosphor => "Phosphor",
            },
        )
    }
}

impl Default for Colormap {
    fn default() -> (choice: Colormap)
        ensures
            choice == Colormap::Cube1,
    {
        Colormap::Cube1
    }
}

/// Window function for sampling.
#[derive(Debug, Clone, Copy, PartialEq, Eq, Structural)]
pub enum WindowFunctions {
    Rectangular,
    Bartlett,
    Hann,
    Hamming,
    Blackman,
    BlackmanHarris,
    BlackmanNuttall,
    FlatTop,
    BartlettHann,
    Cosine,
    Lanczos,
    Gaussian,
}

impl WindowFunctions {
    /// All variants, in the order in which they are offered.
    pub const VARIANTS: [WindowFunctions; 12] = [
        WindowFunctions::Rectangular,
        WindowFunctions::Bartlett,
        WindowFunctions::Hann,
        WindowFunctions::Hamming,
        WindowFunctions::Blackman,
        WindowFunctions::BlackmanHarris,
        WindowFunctions::BlackmanNuttall,
        WindowFunctions::FlatTop,
        WindowFunctions::BartlettHann,
        WindowFunctions::Cosine,
        WindowFunctions::Lanczos,
        WindowFunctions::Gaussian,
    ];

    /// Position of the variant in `VARIANTS`.
    pub open spec fn index(self) -> nat {
        match self {
            WindowFunctions::Rectangular => 0,
            WindowFunctions::Bartlett => 1,
            WindowFunctions::Hann => 2,
            WindowFunctions::Hamming => 3,
            WindowFunctions::Blackman => 4,
            WindowFunctions::BlackmanHarris => 5,
            WindowFunctions::BlackmanNuttall => 6,
            WindowFunctions::FlatTop => 7,
            WindowFunctions::BartlettHann => 8,
            WindowFunctions::Cosine => 9,
            WindowFunctions::Lanczos => 10,
            WindowFunctions::Gaussian => 11,
        }
    }

    /// The text shown for the variant.
    pub open spec fn label(self) -> Seq<char> {
        match self {
            WindowFunctions::Rectangular => "Rectangular"@,
            WindowFunctions::Bartlett => "Bartlett"@,
            WindowFunctions::Hann => "Hann"@,
            WindowFunctions::Hamming => "Hamming"@,
            WindowFunctions::Blackman => "Blackman"@,
            WindowFunctions::BlackmanHarris => "Blackman-Harris"@,
            WindowFunctions::BlackmanNuttall => "Blackman-Nuttall"@,
            WindowFunctions::FlatTop => "Flat-Top"@,
            WindowFunctions::BartlettHann => "Bartlett-Hann"@,
            WindowFunctions::Cosine => "Cosine"@,
            WindowFunctions::Lanczos => "Lanczos"@,
            WindowFunctions::Gaussian => "Gaussian"@,
        }
    }

    /// Position of the variant in `VARIANTS`.
    pub fn position(&self) -> (at: usize)
        ensures
            at == self.index(),
            at < 12,
            WindowFunctions::VARIANTS[at as int] == *self,
    {
        match self {
            WindowFunctions::Rectangular => 0,
            WindowFunctions::Bartlett => 1,
            WindowFunctions::Hann => 2,
            WindowFunctions::Hamming => 3,
            WindowFunctions::Blackman => 4,
            WindowFunctions::BlackmanHarris => 5,
            WindowFunctions::BlackmanNuttall => 6,
            WindowFunctions::FlatTop => 7,
            WindowFunctions::BartlettHann => 8,
            WindowFunctions::Cosine => 9,
            WindowFunctions::Lanczos => 10,
            WindowFunctions::Gaussian => 11,
        }
    }

    /// The engine's number for the window function.
    pub fn to_value(&self) -> (value: usize)
        ensures
            value == self.index(),
    {
        self.position()
    }

    /// The text shown for the variant.
    pub fn to_string(&self) -> (text: String)
        ensures
            text@ == self.label(),
    {
        String::from_str(
            match self {
                WindowFunctions::Rectangular => "Rectangular",
                WindowFunctions::Bartlett => "Bartlett",
                WindowFunctions::Hann => "Hann",
                WindowFunctions::Hamming => "Hamming",
                WindowFunctions::Blackman => "Blackman",
                WindowFunctions::BlackmanHarris => "Blackman-Harris",
                WindowFunctions::BlackmanNuttall => "Blackman-Nuttall",
                WindowFunctions::FlatTop => "Flat-Top",
                WindowFunctions::BartlettHann => "Bartlett-Hann",
                WindowFunctions::Cosine => "Cosine",
                WindowFunctions::Lanczos => "Lanczos",
                WindowFunctions::Gaussian => "Gaussian",
            },
        )
    }
}

impl Default for WindowFunctions {
    fn default() -> (choice: WindowFunctions)
        ensures
            choice == WindowFunctions::BlackmanHarris,
    {
        WindowFunctions::BlackmanHarris
    }
}

/// Display orientation.
#[derive(Debug, Clone, Copy, PartialEq, Eq, Structural)]
pub enum Orientation {
    Spectrogram,
    Waterfall,
    Geyser,
}

impl Orientation {
    /// All variants, in the order in which they are offered.
    pub const VARIANTS: [Orientation; 3] = [
        Orientation::Spectrogram,
        Orientation::Waterfall,
        Orientation::Geyser,
    ];

    /// Position of the variant in `VARIANTS`.
    pub open spec fn index(self) -> nat {
        match self {
            Orientation::Spectrogram => 0,
            Orientation::Waterfall => 1,
            Orientation::Geyser => 2,
        }
    }

    /// The text shown for the variant.
    pub open spec fn label(self) -> Seq<char> {
        match self {
            Orientation::Spectrogram => "Spectrogram"@,
            Orientation::Waterfall => "Waterfall"@,
            Orientation::Geyser => "Geyser"@,
        }
    }

    /// Position of the variant in `VARIANTS`.
    pub fn position(&self) -> (at: usize)
        ensures
            at == self.index(),
            at < 3,
            Orientation::VARIANTS[at as int] == *self,
    {
        match self {
            Orientation::Spectrogram => 0,
            Orientation::Waterfall => 1,
            Orientation::Geyser => 2,
        }
    }

    /// The engine's number for the orientation.
    pub fn to_value(&self) -> (value: usize)
        ensures
            value == self.index(),
    {
        self.position()
    }

    /// The text shown for the variant.
    pub fn to_string(&self) -> (text: String)
        ensures
            text@ == self.label(),
    {
        String::from_str(
            match self {
                Orientation::Spectrogram => "Spectrogram",
                Orientation::Waterfall => "Waterfall",
                Orientation::Geyser => "Geyser",
            },
        )
    }
}

impl Default for Orientation {
    fn default() -> (choice: Orientation)
        ensures
            choice == Orientation::Spectrogram,
    {
        Orientation::Spectrogram
    }
}

} // verus!
