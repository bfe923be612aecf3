//! The layout of the radio capture files and the plan by which rows are
//! drawn from them.

use rand::seq::IteratorRandom;
use rand::SeedableRng;
use rand_chacha::ChaCha8Rng;
use vstd::prelude::*;
use vstd::relations::{sorted_by, total_ordering};
use vstd::seq_lib::lemma_sorted_unique;

verus! {

/// The number of captures that a file holds for one signal-to-noise ratio.
pub const ROWS_PER_LEVEL: usize = 4096;

/// The number of signal-to-noise ratios in the file of a modulated signal.
pub const LEVELS: usize = 26;

/// The number of captures in the file of a modulated signal.
pub const SIGNAL_ROWS: usize = 106_496;

/// The number of captures in the file of pure noise.
pub const NOISE_ROWS: usize = 16_384;

/// The number of time steps in one capture.
pub const STEPS: usize = 1024;

/// The number of channels (in-phase and quadrature) per time step.
pub const CHANNELS: usize = 2;

/// The seed from which the rows to keep are drawn.
pub const SEED: u64 = 42;

/// The lowest signal-to-noise ratio of a modulated signal, in decibels.
pub const LOWEST_SNR: i32 = -20;

/// The signal-to-noise ratio recorded for pure noise, in decibels.
pub const NOISE_SNR: i32 = -50;

/// The modulation scheme of the signals held in one capture file.
#[derive(Debug, Clone, Copy, PartialEq, Eq, Structural)]
#[allow(non_camel_case_types)]
pub enum ModulationMode {
    QAM_64,
    QPSK,
    GMSK,
    QAM_32,
    PSK_16,
    OOK,
    FM,
    APSK_32,
    PSK_32,
    AM_DSB_WC,
    APSK_64,
    OQPSK,
    QAM_128,
    ASK_4,
    AM_SSB_SC,
    AM_DSB_SC,
    PSK_8,
    ASK_8,
    QAM_256,
    APSK_128,
    APSK_16,
    OOK_2,
    BPSK,
    QAM_16,
    AM_SSB_WC,
    Noise_20220222,
}

impl ModulationMode {
    /// The place of the mode in the order in which the files are read.
    pub open spec fn ordinal(self) -> nat {
        match self {
            Self::QAM_64 => 0,
            Self::QPSK => 1,
            Self::GMSK => 2,
            Self::QAM_32 => 3,
            Self::PSK_16 => 4,
            Self::OOK => 5,
            Self::FM => 6,
            Self::APSK_32 => 7,
            Self::PSK_32 => 8,
            Self::AM_DSB_WC => 9,
            Self::APSK_64 => 10,
            Self::OQPSK => 11,
            Self::QAM_128 => 12,
            Self::ASK_4 => 13,
            Self::AM_SSB_SC => 14,
            Self::AM_DSB_SC => 15,
            Self::PSK_8 => 16,
            Self::ASK_8 => 17,
            Self::QAM_256 => 18,
            Self::APSK_128 => 19,
            Self::APSK_16 => 20,
            Self::OOK_2 => 21,
            Self::BPSK => 22,
            Self::QAM_16 => 23,
            Self::AM_SSB_WC => 24,
            Self::Noise_20220222 => 25,
        }
    }

    /// The name of the file that holds the captures of the mode.
    pub open spec fn spec_data_name(self) -> Seq<char> {
        match self {
            Self::QAM_64 => "mod_64QAM.h5"@,
            Self::QPSK => "mod_QPSK.h5"@,
            Self::GMSK => "mod_GMSK.h5"@,
            Self::QAM_32 => "mod_32QAM.h5"@,
            Self::PSK_16 => "mod_16PSK.h5"@,
            Self::OOK => "mod_OOK.h5"@,
            Self::FM => "mod_FM.h5"@,
            Self::APSK_32 => "mod_32APSK.h5"@,
            Self::PSK_32 => "mod_32PSK.h5"@,
            Self::AM_DSB_WC => "mod_AM-DSB-WC.h5"@,
            Self::APSK_64 => "mod_64APSK.h5"@,
            Self::OQPSK => "mod_OQPSK.h5"@,
            Self::QAM_128 => "mod_128QAM.h5"@,
            Self::ASK_4 => "mod_4ASK.h5"@,
            Self::AM_SSB_SC => "mod_AM-SSB-SC.h5"@,
            Self::AM_DSB_SC => "mod_AM-DSB-SC.h5"@,
            Self::PSK_8 => "mod_8PSK.h5"@,
            Self::ASK_8 => "mod_8ASK.h5"@,
            Self::QAM_256 => "mod_256QAM.h5"@,
            Self::APSK_128 => "mod_128APSK.h5"@,
            Self::APSK_16 => "mod_16APSK.h5"@,
            Self::OOK_2 => "mod2_OOK.h5"@,
            Self::BPSK => "mod_BPSK.h5"@,
            Self::QAM_16 => "mod_16QAM.h5"@,
            Self::AM_SSB_WC => "mod_AM-SSB-WC.h5"@,
            Self::Noise_20220222 => "noise_20220222.h5"@,
        }
    }

    /// The name of the file that holds the captures of the mode.
    pub fn data_name(&self) -> (name: &'static str)
        ensures
            name@ == self.spec_data_name(),
    {
        match self {
            Self::QAM_64 => "mod_64QAM.h5",
            Self::QPSK => "mod_QPSK.h5",
            Self::GMSK => "mod_GMSK.h5",
            Self::QAM_32 => "mod_32QAM.h5",
            Self::PSK_16 => "mod_16PSK.h5",
            Self::OOK => "mod_OOK.h5",
            Self::FM => "mod_FM.h5",
            Self::APSK_32 => "mod_32APSK.h5",
            Self::PSK_32 => "mod_32PSK.h5",
            Self::AM_DSB_WC => "mod_AM-DSB-WC.h5",
            Self::APSK_64 => "mod_64APSK.h5",
            Self::OQPSK => "mod_OQPSK.h5",
            Self::QAM_128 => "mod_128QAM.h5",
            Self::ASK_4 => "mod_4ASK.h5",
            Self::AM_SSB_SC => "mod_AM-SSB-SC.h5",
            Self::AM_DSB_SC => "mod_AM-DSB-SC.h5",
            Self::PSK_8 => "mod_8PSK.h5",
            Self::ASK_8 => "mod_8ASK.h5",
            Self::QAM_256 => "mod_256QAM.h5",
            Self::APSK_128 => "mod_128APSK.h5",
            Self::APSK_16 => "mod_16APSK.h5",
            Self::OOK_2 => "mod2_OOK.h5",
            Self::BPSK => "mod_BPSK.h5",
            Self::QAM_16 => "mod_16QAM.h5",
            Self::AM_SSB_WC => "mod_AM-SSB-WC.h5",
            Self::Noise_20220222 => "noise_20220222.h5",
        }
    }

    /// Whether the file of the mode holds pure noise.
    pub open spec fn spec_is_noise(self) -> bool {
        self == Self::Noise_20220222
    }

    /// The number of signal-to-noise ratios in the file of the mode.
    pub open spec fn spec_levels(self) -> nat {
        if self.spec_is_noise() {
            1
        } else {
            LEVELS as nat
        }
    }

    /// The shape of the tensor in the file of the mode: captures, time
    /// steps, channels.
    pub open spec fn spec_shape(self) -> Seq<usize> {
        if self.spec_is_noise() {
            seq![NOISE_ROWS, STEPS, CHANNELS]
        } else {
            seq![SIGNAL_ROWS, STEPS, CHANNELS]
        }
    }

    /// The signal-to-noise ratio of level `k` of the file of the mode, in
    /// decibels: the levels of a signal rise in steps of two.
    pub open spec fn spec_snr(self, k: int) -> int {
        if self.spec_is_noise() {
            NOISE_SNR as int
        } else {
            LOWEST_SNR + 2 * k
        }
    }

    /// Whether the file of the mode holds pure noise.
    pub fn is_noise(&self) -> (noise: bool)
        ensures
            noise == self.spec_is_noise(),
    {
        match self {
            Self::Noise_20220222 => true,
            _ => false,
        }
    }

    /// The shape of the tensor in the file of the mode.
    pub fn shape(&self) -> (shape: [usize; 3])
        ensures
            shape@ == self.spec_shape(),
    {
        if self.is_noise() {
            [NOISE_ROWS, STEPS, CHANNELS]
        } else {
            [SIGNAL_ROWS, STEPS, CHANNELS]
        }
    }

    /// Every mode, once each, in the order in which the files are read.
    pub fn variants<'a>() -> (all: &'a [ModulationMode])
        ensures
            all@.len() == 26,
            forall|i: int| 0 <= i < 26 ==> (#[trigger] all@[i]).ordinal() == i,
            forall|m: ModulationMode| all@[m.ordinal() as int] == m,
    {
        &[
            Self::QAM_64,
            Self::QPSK,
            Self::GMSK,
            Self::QAM_32,
            Self::PSK_16,
            Self::OOK,
            Self::FM,
            Self::APSK_32,
            Self::PSK_32,
            Self::AM_DSB_WC,
            Self::APSK_64,
            Self::OQPSK,
            Self::QAM_128,
            Self::ASK_4,
            Self::AM_SSB_SC,
            Self::AM_DSB_SC,
            Self::PSK_8,
            Self::ASK_8,
            Self::QAM_256,
            Self::APSK_128,
            Self::APSK_16,
            Self::OOK_2,
            Self::BPSK,
            Self::QAM_16,
            Self::AM_SSB_WC,
            Self::Noise_20220222,
        ]
    }
}

/// What tells the file names apart: the length of a name and four of its
/// characters.
spec fn mark(name: Seq<char>) -> (nat, char, char, char, char) {
    (
        name.len(),
        name[4],
        name[5],
        name[7],
        if name.len() > 11 {
            name[11]
        } else {
            ' '
        },
    )
}

/// No two modes share a file.
pub proof fn lemma_data_names_differ(a: ModulationMode, b: ModulationMode)
    requires
        a != b,
    ensures
        a.spec_data_name() != b.spec_data_name(),
{
    assert(mark(a.spec_data_name()) != mark(b.spec_data_name())) by {
        lemma_data_names_revealed();
    }
}

proof fn lemma_data_names_revealed()
    ensures
        forall|a: ModulationMode, b: ModulationMode|
            a != b ==> mark(#[trigger] a.spec_data_name()) != mark(#[trigger] b.spec_data_name()),
{
    reveal_strlit("mod_64QAM.h5");
    reveal_strlit("mod_QPSK.h5");
    reveal_strlit("mod_GMSK.h5");
    reveal_strlit("mod_32QAM.h5");
    reveal_strlit("mod_16PSK.h5");
    reveal_strlit("mod_OOK.h5");
    reveal_strlit("mod_FM.h5");
    reveal_strlit("mod_32APSK.h5");
    reveal_strlit("mod_32PSK.h5");
    reveal_strlit("mod_AM-DSB-WC.h5");
    reveal_strlit("mod_64APSK.h5");
    reveal_strlit("mod_OQPSK.h5");
    reveal_strlit("mod_128QAM.h5");
    reveal_strlit("mod_4ASK.h5");
    reveal_strlit("mod_AM-SSB-SC.h5");
    reveal_strlit("mod_AM-DSB-SC.h5");
    reveal_strlit("mod_8PSK.h5");
    reveal_strlit("mod_8ASK.h5");
    reveal_strlit("mod_256QAM.h5");
    reveal_strlit("mod_128APSK.h5");
    reveal_strlit("mod_16APSK.h5");
    reveal_strlit("mod2_OOK.h5");
    reveal_strlit("mod_BPSK.h5");
    reveal_strlit("mod_16QAM.h5");
    reveal_strlit("mod_AM-SSB-WC.h5");
    reveal_strlit("noise_20220222.h5");
}

/// The rows that `rand`'s reservoir sampling keeps when it draws `amount`
/// items out of `0..population` with a ChaCha8 generator seeded by `seed`,
/// in the order in which the reservoir holds them.
pub uninterp spec fn chosen_rows(seed: u64, population: usize, amount: usize) -> Seq<usize>;

/// Calls `rand`'s `IteratorRandom::choose_multiple` on the range
/// `0..population`, with a `ChaCha8Rng` made by `SeedableRng::seed_from_u64`.
/// The generator is a function of its seed, and for at most `u32::MAX` items
/// the sampling draws 32-bit indices on every platform, so the outcome is a
/// function of the three arguments. The reservoir is first filled with
/// `amount` items of the range, and each later item of the range replaces at
/// most one slot: the result holds `amount` different numbers below
/// `population`.
#[verifier::external_body]
fn choose_rows(seed: u64, population: usize, amount: usize) -> (rows: Vec<usize>)
    requires
        amount <= population <= u32::MAX,
    ensures
        rows@ == chosen_rows(seed, population, amount),
        rows@.len() == amount,
        rows@.no_duplicates(),
        forall|i: int| 0 <= i < rows@.len() ==> rows@[i] < population,
{
    (0..population).choose_multiple(&mut ChaCha8Rng::seed_from_u64(seed), amount)
}

/// Whether the numbers stand in ascending order.
pub open spec fn ascending(rows: Seq<usize>) -> bool {
    forall|i: int, j: int| 0 <= i <= j < rows.len() ==> rows[i] <= rows[j]
}

/// Calls the standard library's `sort` on a slice of numbers: afterwards the
/// slice holds the same numbers, each as often as before, in ascending order.
#[verifier::external_body]
pub(crate) fn sort_rows(rows: &mut Vec<usize>)
    ensures
        final(rows)@.to_multiset() == old(rows)@.to_multiset(),
        ascending(final(rows)@),
{
    rows.sort();
}

/// The order in which rows are kept: by their number.
pub open spec fn by_number() -> spec_fn(usize, usize) -> bool {
    |a: usize, b: usize| a <= b
}

/// The rows kept of every level when `num_samples` captures are asked for:
/// what the seeded draw picks out of one level, or the whole level if more
/// is asked for than it holds, in ascending order.
pub open spec fn drawn_rows(num_samples: usize) -> Seq<usize> {
    chosen_rows(
        SEED,
        ROWS_PER_LEVEL,
        if num_samples < ROWS_PER_LEVEL {
            num_samples
        } else {
            ROWS_PER_LEVEL
        },
    ).sort_by(by_number())
}

/// The numbers stand in strictly ascending order.
pub open spec fn strictly_ascending(rows: Seq<usize>) -> bool {
    forall|i: int, j: int| 0 <= i < j < rows.len() ==> rows[i] < rows[j]
}

/// Draws the rows to keep of every level and puts them in ascending order.
pub fn sample_indices(num_samples: usize) -> (indices: Vec<usize>)
    ensures
        indices@ == drawn_rows(num_samples),
        strictly_ascending(indices@),
        indices@.len() == if num_samples < ROWS_PER_LEVEL {
            num_samples
        } else {
            ROWS_PER_LEVEL
        },
        forall|i: int| 0 <= i < indices@.len() ==> indices@[i] < ROWS_PER_LEVEL,
{
    let amount = if num_samples < ROWS_PER_LEVEL {
        num_samples
    } else {
        ROWS_PER_LEVEL
    };
    let mut indices = choose_rows(SEED, ROWS_PER_LEVEL, amount);
    let ghost drawn = indices@;
    sort_rows(&mut indices);
    proof {
        drawn.lemma_multiset_has_no_duplicates();
        indices@.lemma_multiset_has_no_duplicates_conv();
        drawn.to_multiset_ensures();
        indices@.to_multiset_ensures();
        assert forall|i: int| 0 <= i < indices@.len() implies indices@[i] < ROWS_PER_LEVEL by {
            assert(indices@.to_multiset().contains(indices@[i]));
            assert(drawn.contains(indices@[i]));
        }
        assert(total_ordering(by_number()));
        assert(sorted_by(indices@, by_number()));
        drawn.lemma_sort_by_ensures(by_number());
        lemma_sorted_unique(indices@, drawn.sort_by(by_number()), by_number());
    }
    indices
}

/// The captures of one signal-to-noise ratio, each named by the row of the
/// file that holds it.
#[derive(Debug)]
pub struct SingleSnR {
    rows: Vec<usize>,
    snr: i32,
}

impl SingleSnR {
    /// The rows of the file that the level holds, in order.
    pub closed spec fn spec_rows(&self) -> Seq<usize> {
        self.rows@
    }

    /// The signal-to-noise ratio of the level, in decibels.
    pub closed spec fn spec_snr(&self) -> i32 {
        self.snr
    }

    /// The level that holds `count` consecutive rows of the file from row
    /// `first` on.
    pub fn full(first: usize, count: usize, snr: i32) -> (level: Self)
        requires
            first + count <= usize::MAX,
        ensures
            level.spec_snr() == snr,
            level.spec_rows() == Seq::new(count as nat, |i: int| (first + i) as usize),
    {
        let mut rows: Vec<usize> = Vec::new();
        let mut i: usize = 0;
        while i < count
            invariant
                i <= count,
                first + count <= usize::MAX,
                rows@ == Seq::new(i as nat, |k: int| (first + k) as usize),
            decreases count - i,
        {
            rows.push(first + i);
            i += 1;
            assert(rows@ =~= Seq::new(i as nat, |k: int| (first + k) as usize));
        }
        Self { rows, snr }
    }

    /// The rows of the file that the level holds, in order.
    pub fn rows(&self) -> (rows: &Vec<usize>)
        ensures
            rows@ == self.spec_rows(),
    {
        &self.rows
    }

    /// The signal-to-noise ratio of the level, in decibels.
    pub fn snr(&self) -> (snr: i32)
        ensures
            snr == self.spec_snr(),
    {
        self.snr
    }

    /// The shape of the tensor of the level: captures, time steps, channels.
    pub fn shape(&self) -> (shape: [usize; 3])
        ensures
            shape@ == seq![self.spec_rows().len() as usize, STEPS, CHANNELS],
    {
        [self.rows.len(), STEPS, CHANNELS]
    }

    /// Whether the level holds every capture of its signal-to-noise ratio.
    pub fn validate_full(&self) -> (valid: bool)
        ensures
            valid == (self.spec_rows().len() == ROWS_PER_LEVEL),
    {
        self.rows.len() == ROWS_PER_LEVEL
    }

    /// Whether the level holds exactly `num_samples` captures.
    pub fn validate_sampled(&self, num_samples: usize) -> (valid: bool)
        ensures
            valid == (self.spec_rows().len() == num_samples),
    {
        self.rows.len() == num_samples
    }

    /// The level reduced to the captures at the given positions, in the
    /// order in which the positions are given.
    pub fn subsample(self, indices: &[usize]) -> (sub: Self)
        requires
            indices@.len() > 0,
            forall|k: int| 0 <= k < indices@.len() ==> indices@[k] < self.spec_rows().len(),
        ensures
            sub.spec_snr() == self.spec_snr(),
            sub.spec_rows() == Seq::new(
                indices@.len(),
                |k: int| self.spec_rows()[indices@[k] as int],
            ),
    {
        let mut rows: Vec<usize> = Vec::new();
        let mut k: usize = 0;
        while k < indices.len()
            invariant
                k <= indices@.len(),
                forall|j: int| 0 <= j < indices@.len() ==> indices@[j] < self.rows@.len(),
                rows@ == Seq::new(k as nat, |j: int| self.rows@[indices@[j] as int]),
            decreases indices@.len() - k,
        {
            rows.push(self.rows[indices[k]]);
            k += 1;
            assert(rows@ =~= Seq::new(k as nat, |j: int| self.rows@[indices@[j] as int]));
        }
        Self { rows, snr: self.snr }
    }
}

/// The rows of the file that level `k` keeps: the kept positions, counted
/// from the first row of the level.
pub open spec fn level_rows(indices: Seq<usize>, k: int) -> Seq<usize> {
    Seq::new(indices.len(), |i: int| (k * ROWS_PER_LEVEL + indices[i]) as usize)
}

/// The rows kept of the first `levels` levels, level after level.
pub open spec fn joined_rows(indices: Seq<usize>, levels: nat) -> Seq<usize>
    decreases levels,
{
    if levels == 0 {
        Seq::empty()
    } else {
        joined_rows(indices, (levels - 1) as nat) + level_rows(indices, levels - 1)
    }
}

/// The first `levels` levels hold `levels` times as many rows as one.
pub proof fn lemma_joined_len(indices: Seq<usize>, levels: nat)
    ensures
        joined_rows(indices, levels).len() == levels * indices.len(),
    decreases levels,
{
    if levels > 0 {
        lemma_joined_len(indices, (levels - 1) as nat);
        assert(level_rows(indices, levels - 1).len() == indices.len());
        assert(levels * indices.len() == (levels - 1) * indices.len() + indices.len())
            by (nonlinear_arith);
    } else {
        assert(levels * indices.len() == 0) by (nonlinear_arith)
            requires
                levels == 0,
        ;
    }
}

/// What is kept of one capture file: of every signal-to-noise ratio the
/// captures at the same positions.
#[derive(Debug)]
pub struct RadioFile {
    modulation: ModulationMode,
    levels: Vec<SingleSnR>,
    sample_indices: Vec<usize>,
}

impl RadioFile {
    /// The modulation of the signals in the file.
    pub closed spec fn spec_modulation(&self) -> ModulationMode {
        self.modulation
    }

    /// The levels of the file, by rising signal-to-noise ratio.
    pub closed spec fn spec_levels(&self) -> Seq<SingleSnR> {
        self.levels@
    }

    /// The positions kept of every level.
    pub closed spec fn spec_sample_indices(&self) -> Seq<usize> {
        self.sample_indices@
    }

    /// The file holds every level of its modulation, and every level keeps
    /// the captures at the kept positions.
    pub open spec fn wf(&self) -> bool {
        &&& self.spec_sample_indices().len() > 0
        &&& forall|i: int|
            0 <= i < self.spec_sample_indices().len() ==> self.spec_sample_indices()[i]
                < ROWS_PER_LEVEL
        &&& self.spec_levels().len() == self.spec_modulation().spec_levels()
        &&& forall|k: int|
            0 <= k < self.spec_levels().len() ==> {
                &&& (#[trigger] self.spec_levels()[k]).spec_snr() == self.spec_modulation().spec_snr(
                    k,
                )
                &&& self.spec_levels()[k].spec_rows() == level_rows(self.spec_sample_indices(), k)
            }
    }

    /// The modulation of the signals in the file.
    pub fn modulation(&self) -> (modulation: ModulationMode)
        ensures
            modulation == self.spec_modulation(),
    {
        self.modulation
    }

    /// The levels of the file, by rising signal-to-noise ratio.
    pub fn levels(&self) -> (levels: &Vec<SingleSnR>)
        ensures
            levels@ == self.spec_levels(),
    {
        &self.levels
    }

    /// The positions kept of every level.
    pub fn sample_indices(&self) -> (indices: &Vec<usize>)
        ensures
            indices@ == self.spec_sample_indices(),
    {
        &self.sample_indices
    }

    /// Keeps of every level of a file the captures at the given positions.
    /// `shape` is the shape of the tensor that the file holds.
    pub fn with_indices(
        shape: [usize; 3],
        modulation: ModulationMode,
        sample_indices: Vec<usize>,
    ) -> (file: Self)
        requires
            shape@ == modulation.spec_shape(),
            sample_indices@.len() > 0,
            forall|i: int| 0 <= i < sample_indices@.len() ==> sample_indices@[i] < ROWS_PER_LEVEL,
        ensures
            file.wf(),
            file.spec_modulation() == modulation,
            file.spec_sample_indices() == sample_indices@,
    {
        let mut levels: Vec<SingleSnR> = Vec::new();
        if modulation.is_noise() {
            let level = SingleSnR::full(0, shape[0], NOISE_SNR).subsample(
                sample_indices.as_slice(),
            );
            assert(level.spec_rows() =~= level_rows(sample_indices@, 0));
            levels.push(level);
        } else {
            let mut k: usize = 0;
            let mut snr: i32 = LOWEST_SNR;
            while k < LEVELS
                invariant
                    k <= LEVELS,
                    snr == LOWEST_SNR + 2 * k,
                    levels@.len() == k,
                    !modulation.spec_is_noise(),
                    sample_indices@.len() > 0,
                    forall|i: int|
                        0 <= i < sample_indices@.len() ==> sample_indices@[i] < ROWS_PER_LEVEL,
                    forall|j: int|
                        0 <= j < k ==> {
                            &&& (#[trigger] levels@[j]).spec_snr() == modulation.spec_snr(j)
                            &&& levels@[j].spec_rows() == level_rows(sample_indices@, j)
                        },
                decreases LEVELS - k,
            {
                let level = SingleSnR::full(k * ROWS_PER_LEVEL, ROWS_PER_LEVEL, snr).subsample(
                    sample_indices.as_slice(),
                );
                assert(level.spec_rows() =~= level_rows(sample_indices@, k as int));
                levels.push(level);
                k += 1;
                snr += 2;
            }
        }
        Self { modulation, levels, sample_indices }
    }

    /// Keeps of every level of a file `num_samples` captures, drawn once
    /// for all files and levels. `shape` is the shape of the tensor that the
    /// file holds.
    pub fn new(shape: [usize; 3], modulation: ModulationMode, num_samples: usize) -> (file: Self)
        requires
            shape@ == modulation.spec_shape(),
            num_samples > 0,
        ensures
            file.wf(),
            file.spec_modulation() == modulation,
            file.spec_sample_indices() == drawn_rows(num_samples),
    {
        Self::with_indices(shape, modulation, sample_indices(num_samples))
    }

    /// Whether the file holds every level of a modulated signal, each with
    /// as many captures as positions are kept.
    pub fn validate_sampled(&self) -> (valid: bool)
        ensures
            valid == (self.spec_levels().len() == LEVELS && forall|k: int|
                0 <= k < self.spec_levels().len() ==> (#[trigger] self.spec_levels()[k]).spec_rows().len()
                    == self.spec_sample_indices().len()),
    {
        if self.levels.len() != LEVELS {
            return false;
        }
        let mut k: usize = 0;
        while k < self.levels.len()
            invariant
                k <= self.levels@.len(),
                forall|j: int|
                    0 <= j < k ==> (#[trigger] self.levels@[j]).spec_rows().len()
                        == self.sample_indices@.len(),
            decreases self.levels@.len() - k,
        {
            if !self.levels[k].validate_sampled(self.sample_indices.len()) {
                return false;
            }
            k += 1;
        }
        true
    }

    /// The rows kept of the file, level after level, and the modulation of
    /// the file.
    pub fn join(self) -> (joined: (Vec<usize>, ModulationMode))
        requires
            self.wf(),
        ensures
            joined.0@ == joined_rows(
                self.spec_sample_indices(),
                self.spec_modulation().spec_levels(),
            ),
            joined.0@.len() == self.spec_modulation().spec_levels()
                * self.spec_sample_indices().len(),
            joined.1 == self.spec_modulation(),
    {
        let mut rows: Vec<usize> = Vec::new();
        let mut k: usize = 0;
        while k < self.levels.len()
            invariant
                self.wf(),
                k <= self.levels@.len(),
                rows@ == joined_rows(self.sample_indices@, k as nat),
            decreases self.levels@.len() - k,
        {
            let level = self.levels[k].rows();
            let mut i: usize = 0;
            while i < level.len()
                invariant
                    i <= level@.len(),
                    level@ == level_rows(self.sample_indices@, k as int),
                    rows@ == joined_rows(self.sample_indices@, k as nat) + level@.subrange(
                        0,
                        i as int,
                    ),
                decreases level@.len() - i,
            {
                rows.push(level[i]);
                i += 1;
                assert(level@.subrange(0, i as int) =~= level@.subrange(0, i - 1).push(
                    level@[i - 1],
                ));
            }
            assert(level@.subrange(0, i as int) =~= level@);
            k += 1;
        }
        proof {
            lemma_joined_len(self.sample_indices@, self.levels@.len());
        }
        (rows, self.modulation)
    }
}

/// The rows kept of the first `files` files, file after file, each row with
/// the place of its file in the order in which the files are read.
pub open spec fn tagged_rows(samples: Seq<Seq<usize>>, files: nat) -> Seq<(usize, usize)>
    decreases files,
{
    if files == 0 {
        Seq::empty()
    } else {
        tagged_rows(samples, (files - 1) as nat) + Seq::new(
            samples[files - 1].len(),
            |i: int| ((files - 1) as usize, samples[files - 1][i]),
        )
    }
}

/// What is kept of all capture files: of every file, in the order in which
/// the files are read, the rows that go into the data set.
#[derive(Debug)]
pub struct RadioData {
    samples: Vec<Vec<usize>>,
    num_samples: usize,
}

impl RadioData {
    /// The rows kept of every file.
    pub closed spec fn spec_samples(&self) -> Seq<Seq<usize>> {
        Seq::new(self.samples@.len(), |f: int| self.samples@[f]@)
    }

    /// The number of captures asked for of every level.
    pub closed spec fn spec_num_samples(&self) -> usize {
        self.num_samples
    }

    /// The rows kept of every file.
    pub fn samples(&self) -> (samples: &Vec<Vec<usize>>)
        ensures
            samples@.len() == self.spec_samples().len(),
            forall|f: int| 0 <= f < samples@.len() ==> (#[trigger] samples@[f])@ == self.spec_samples()[f],
    {
        &self.samples
    }

    /// The number of captures asked for of every level.
    pub fn num_samples(&self) -> (num_samples: usize)
        ensures
            num_samples == self.spec_num_samples(),
    {
        self.num_samples
    }

    /// Plans what to keep of every file when `num_samples` captures are
    /// asked for of every level. `shapes` holds, for every mode in the order
    /// in which the files are read, the shape of the tensor in its file.
    pub fn read(shapes: &[[usize; 3]], num_samples: usize) -> (data: Self)
        requires
            shapes@.len() == 26,
            forall|m: ModulationMode| (#[trigger] shapes@[m.ordinal() as int])@ == m.spec_shape(),
            num_samples > 0,
        ensures
            data.spec_num_samples() == num_samples,
            data.spec_samples().len() == 26,
            forall|m: ModulationMode| #[trigger]
                data.spec_samples()[m.ordinal() as int] == joined_rows(
                    drawn_rows(num_samples),
                    m.spec_levels(),
                ),
    {
        let modes = ModulationMode::variants();
        let mut samples: Vec<Vec<usize>> = Vec::new();
        let mut f: usize = 0;
        while f < modes.len()
            invariant
                f <= modes@.len(),
                modes@.len() == 26,
                shapes@.len() == 26,
                num_samples > 0,
                samples@.len() == f,
                forall|i: int| 0 <= i < 26 ==> (#[trigger] modes@[i]).ordinal() == i,
                forall|m: ModulationMode| modes@[m.ordinal() as int] == m,
                forall|m: ModulationMode|
                    (#[trigger] shapes@[m.ordinal() as int])@ == m.spec_shape(),
                forall|i: int|
                    0 <= i < f ==> (#[trigger] samples@[i])@ == joined_rows(
                        drawn_rows(num_samples),
                        modes@[i].spec_levels(),
                    ),
            decreases modes@.len() - f,
        {
            let mode = modes[f];
            assert(shapes@[mode.ordinal() as int]@ == mode.spec_shape());
            let (rows, _) = RadioFile::new(shapes[f], mode, num_samples).join();
            samples.push(rows);
            f += 1;
        }
        let data = Self { samples, num_samples };
        assert forall|m: ModulationMode| #[trigger]
            data.spec_samples()[m.ordinal() as int] == joined_rows(
                drawn_rows(num_samples),
                m.spec_levels(),
            ) by {
            assert(modes@[m.ordinal() as int] == m);
        }
        data
    }

    /// Whether every file keeps `num_samples` captures of each of the
    /// levels of a modulated signal.
    pub fn validate_sampled(&self) -> (valid: bool)
        ensures
            valid == (forall|f: int|
                0 <= f < self.spec_samples().len() ==> (#[trigger] self.spec_samples()[f]).len()
                    == LEVELS * self.spec_num_samples()),
    {
        if self.num_samples > usize::MAX / LEVELS {
            assert(LEVELS * self.num_samples > usize::MAX) by (nonlinear_arith)
                requires
                    self.num_samples > usize::MAX / LEVELS,
                    LEVELS == 26,
            ;
            // No file can hold that many rows.
            if self.samples.len() > 0 {
                let held = self.samples[0].len();
                assert(self.spec_samples()[0].len() == held);
                return false;
            }
            return true;
        }
        let expected = LEVELS * self.num_samples;
        let mut f: usize = 0;
        while f < self.samples.len()
            invariant
                f <= self.samples@.len(),
                expected == LEVELS * self.num_samples,
                forall|i: int| 0 <= i < f ==> (#[trigger] self.spec_samples()[i]).len() == expected,
            decreases self.samples@.len() - f,
        {
            if self.samples[f].len() != expected {
                assert(self.spec_samples()[f as int].len() != expected);
                return false;
            }
            f += 1;
        }
        true
    }

    /// The rows kept of all files, file after file, each with the place of
    /// its file in the order in which the files are read.
    pub fn join(self) -> (joined: Vec<(usize, usize)>)
        ensures
            joined@ == tagged_rows(self.spec_samples(), self.spec_samples().len()),
    {
        let mut joined: Vec<(usize, usize)> = Vec::new();
        let mut f: usize = 0;
        while f < self.samples.len()
            invariant
                f <= self.samples@.len(),
                joined@ == tagged_rows(self.spec_samples(), f as nat),
            decreases self.samples@.len() - f,
        {
            let rows = &self.samples[f];
            let ghost tagged = Seq::new(rows@.len(), |i: int| (f, rows@[i]));
            let mut i: usize = 0;
            while i < rows.len()
                invariant
                    i <= rows@.len(),
                    f < self.samples@.len(),
                    rows@ == self.spec_samples()[f as int],
                    tagged == Seq::new(rows@.len(), |i: int| (f, rows@[i])),
                    joined@ == tagged_rows(self.spec_samples(), f as nat) + tagged.subrange(
                        0,
                        i as int,
                    ),
                decreases rows@.len() - i,
            {
                joined.push((f, rows[i]));
                i += 1;
                assert(tagged.subrange(0, i as int) =~= tagged.subrange(0, i - 1).push(
                    tagged[i - 1],
                ));
            }
            assert(tagged.subrange(0, i as int) =~= tagged);
            f += 1;
            assert(tagged =~= Seq::new(
                self.spec_samples()[f - 1].len(),
                |i: int| ((f - 1) as usize, self.spec_samples()[f - 1][i]),
            ));
        }
        joined
    }
}

} // verus!
