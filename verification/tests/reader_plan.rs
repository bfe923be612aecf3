use radio_ml::old_reader::get_samples_processed;
use radio_ml::reader::{sample_indices, ModulationMode, RadioData, RadioFile, SingleSnR};
use rand::seq::{IteratorRandom, SliceRandom};
use rand::SeedableRng;
use rand_chacha::ChaCha8Rng;

#[test]
fn every_mode_is_listed_once() {
    let all = ModulationMode::variants();
    assert_eq!(all.len(), 26);
    assert_eq!(all[0], ModulationMode::QAM_64);
    assert_eq!(all[25], ModulationMode::Noise_20220222);
    for (i, a) in all.iter().enumerate() {
        for b in &all[i + 1..] {
            assert_ne!(a, b);
            assert_ne!(a.data_name(), b.data_name());
        }
    }
}

#[test]
fn modes_name_their_files() {
    assert_eq!(ModulationMode::QAM_64.data_name(), "mod_64QAM.h5");
    assert_eq!(ModulationMode::AM_DSB_WC.data_name(), "mod_AM-DSB-WC.h5");
    assert_eq!(ModulationMode::OOK_2.data_name(), "mod2_OOK.h5");
    assert_eq!(ModulationMode::Noise_20220222.data_name(), "noise_20220222.h5");
}

#[test]
fn modes_know_the_shape_of_their_files() {
    assert_eq!(ModulationMode::QPSK.shape(), [106_496, 1024, 2]);
    assert_eq!(ModulationMode::Noise_20220222.shape(), [16_384, 1024, 2]);
    assert!(ModulationMode::Noise_20220222.is_noise());
    assert!(!ModulationMode::BPSK.is_noise());
}

#[test]
fn drawn_rows_are_the_sorted_seeded_draw() {
    let mut expected = (0..4096usize).choose_multiple(&mut ChaCha8Rng::seed_from_u64(42), 100);
    assert!(expected.windows(2).any(|w| w[0] > w[1]));
    expected.sort();
    let indices = sample_indices(100);
    assert_eq!(indices, expected);
    assert_eq!(indices.len(), 100);
    assert!(indices.windows(2).all(|w| w[0] < w[1]));
    assert!(indices.iter().all(|&i| i < 4096));
    assert_eq!(sample_indices(100), indices);
}

#[test]
fn asking_for_more_than_a_level_holds_keeps_the_level() {
    let whole: Vec<usize> = (0..4096).collect();
    assert_eq!(sample_indices(4096), whole);
    assert_eq!(sample_indices(5000), whole);
    assert_eq!(sample_indices(0), Vec::<usize>::new());
}

#[test]
fn a_level_is_reduced_to_the_given_positions() {
    let level = SingleSnR::full(8192, 4096, -16);
    assert!(level.validate_full());
    assert_eq!(level.shape(), [4096, 1024, 2]);
    let sub = level.subsample(&[3, 0, 4095]);
    assert_eq!(sub.rows(), &vec![8195, 8192, 12287]);
    assert_eq!(sub.snr(), -16);
    assert!(sub.validate_sampled(3));
    assert!(!sub.validate_sampled(4));
    assert!(!sub.validate_full());
    assert_eq!(sub.shape(), [3, 1024, 2]);
}

#[test]
fn a_signal_file_keeps_the_same_positions_of_every_level() {
    let file = RadioFile::with_indices([106_496, 1024, 2], ModulationMode::GMSK, vec![1, 7]);
    assert_eq!(file.modulation(), ModulationMode::GMSK);
    assert_eq!(file.sample_indices(), &vec![1, 7]);
    assert_eq!(file.levels().len(), 26);
    for (k, level) in file.levels().iter().enumerate() {
        assert_eq!(level.snr(), -20 + 2 * k as i32);
        assert_eq!(level.rows(), &vec![k * 4096 + 1, k * 4096 + 7]);
    }
    assert_eq!(file.levels()[25].snr(), 30);
    assert!(file.validate_sampled());
    let (rows, modulation) = file.join();
    assert_eq!(modulation, ModulationMode::GMSK);
    assert_eq!(rows.len(), 52);
    assert_eq!(&rows[..4], &[1, 7, 4097, 4103]);
    assert_eq!(&rows[50..], &[25 * 4096 + 1, 25 * 4096 + 7]);
}

#[test]
fn a_noise_file_has_one_level() {
    let file =
        RadioFile::with_indices([16_384, 1024, 2], ModulationMode::Noise_20220222, vec![0, 9, 4095]);
    assert_eq!(file.levels().len(), 1);
    assert_eq!(file.levels()[0].snr(), -50);
    assert!(!file.validate_sampled());
    let (rows, modulation) = file.join();
    assert_eq!(modulation, ModulationMode::Noise_20220222);
    assert_eq!(rows, vec![0, 9, 4095]);
}

#[test]
fn a_file_is_sampled_by_the_seeded_draw() {
    let file = RadioFile::new([106_496, 1024, 2], ModulationMode::FM, 10);
    assert_eq!(file.sample_indices(), &sample_indices(10));
    assert!(file.validate_sampled());
    let (rows, _) = file.join();
    assert_eq!(rows.len(), 260);
    assert!(rows.windows(2).all(|w| w[0] < w[1]));
}

#[test]
fn all_files_are_planned_in_reading_order() {
    let shapes: Vec<[usize; 3]> = ModulationMode::variants().iter().map(|m| m.shape()).collect();
    let data = RadioData::read(&shapes, 3);
    assert_eq!(data.num_samples(), 3);
    assert_eq!(data.samples().len(), 26);
    let (signal, _) = RadioFile::new([106_496, 1024, 2], ModulationMode::QAM_64, 3).join();
    let (noise, _) = RadioFile::new([16_384, 1024, 2], ModulationMode::Noise_20220222, 3).join();
    for f in 0..25 {
        assert_eq!(data.samples()[f], signal);
    }
    assert_eq!(data.samples()[25], noise);
    // The noise file keeps one level only.
    assert!(!data.validate_sampled());
    let joined = data.join();
    assert_eq!(joined.len(), 25 * 78 + 3);
    assert_eq!(joined[0], (0, signal[0]));
    assert_eq!(joined[78], (1, signal[0]));
    assert_eq!(joined[25 * 78 + 2], (25, noise[2]));
}

#[test]
fn rows_of_a_table_are_the_sorted_seeded_draw() {
    let pool: Vec<usize> = (0..1000).collect();
    let mut expected: Vec<usize> =
        pool.choose_multiple(&mut ChaCha8Rng::seed_from_u64(42), 50).cloned().collect();
    assert!(expected.windows(2).any(|w| w[0] > w[1]));
    expected.sort();
    let idx = get_samples_processed(1000, 50);
    assert_eq!(idx, expected);
    assert!(idx.windows(2).all(|w| w[0] < w[1]));
    assert!(idx.iter().all(|&i| i < 1000));
}

#[test]
fn asking_for_more_rows_than_a_table_holds_keeps_the_table() {
    let whole: Vec<usize> = (0..10).collect();
    assert_eq!(get_samples_processed(10, 10), whole);
    assert_eq!(get_samples_processed(10, 11), whole);
    assert_eq!(get_samples_processed(1, 7), vec![0]);
}
