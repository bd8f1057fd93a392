use rtty::filter::{Kernel, Window, PI_PRECISION, PI_RAW};
use rtty::nco::NCOTable;
use rtty::signal::SignalError;

fn q16(x: f64) -> i32 {
    (x * 65536.0).round() as i32
}

fn sine(sample_rate: u64, bits: usize, fractional: usize) -> NCOTable {
    let max = 1usize << bits;
    let samples: Vec<i32> = (0..max)
        .map(|s| q16(((s as f64 / max as f64) * 2.0 * std::f64::consts::PI).sin()))
        .collect();
    NCOTable::new(sample_rate, bits, fractional, samples, 16).unwrap()
}

/// The sinc kernel in floating point, brought to unit gain.
fn float_sinc(frequency: f64, rate: f64, bins: usize) -> Vec<f64> {
    let half = ((bins - 1) / 2) as i64;
    let taps: Vec<f64> = (-half..half + 1)
        .map(|x| {
            let c = x as f64;
            if x == 0 {
                1.0
            } else {
                (2.0 * std::f64::consts::PI * c * frequency / rate).sin()
                    / (c * std::f64::consts::PI)
            }
        })
        .collect();
    let scale: f64 = taps.iter().sum();
    taps.iter().map(|x| x / scale).collect()
}

/// The Blackman window in floating point.
fn float_blackman(bins: usize) -> Vec<f64> {
    let m = (bins - 1) as f64;
    (0..bins)
        .map(|x| {
            let c = x as f64;
            0.42 - 0.5 * (2.0 * std::f64::consts::PI * c / m).cos()
                + 0.08 * (4.0 * std::f64::consts::PI * c / m).cos()
        })
        .collect()
}

#[test]
fn pi_is_rounded_to_the_nearest() {
    let exact = std::f64::consts::PI * (1u64 << PI_PRECISION) as f64;
    assert_eq!(PI_RAW, exact.round() as i64);
}

#[test]
fn unit_kernel_is_a_single_one() {
    let table = sine(44100, 8, 2);
    let k = Kernel::new(&table).unit();
    assert_eq!(k.stream, vec![1]);
    assert_eq!(k.precision, 0);
    let s = rtty::signal::Signal::new(vec![5, -6, 7], 16).unwrap();
    assert_eq!(s.convolve(&k).stream, vec![5, -6, 7]);
}

#[test]
fn sinc_on_a_table_of_four_entries() {
    // A quarter of the sample rate: the sine is one after one sample and
    // zero after two. One by pi is 20860 at 16 bits, and the taps 20860,
    // 65536, 20860 add up to 107256.
    let table = NCOTable::new(4, 2, 0, vec![0, 65536, 0, -65536], 16).unwrap();
    let k = Kernel::new(&table);
    assert_eq!(k.sinc(1, 3).stream, vec![12745, 40044, 12745]);
    assert_eq!(k.sinc(1, 5).stream, vec![0, 12745, 40044, 12745, 0]);
    assert_eq!(k.sinc(1, 3).precision, 16);
}

#[test]
fn sinc_has_one_tap_less_for_an_even_number_of_bins() {
    let table = sine(44100, 10, 4);
    let k = Kernel::new(&table);
    assert_eq!(k.sinc(700, 1).stream, vec![65536]);
    assert_eq!(k.sinc(700, 2).stream, vec![65536]);
    assert_eq!(k.sinc(700, 3).len(), 3);
    assert_eq!(k.sinc(700, 4).len(), 3);
    assert_eq!(k.sinc(700, 100).len(), 99);
    assert_eq!(k.sinc(700, 101).len(), 101);
}

#[test]
fn sinc_follows_the_formula() {
    let table = sine(44100, 16, 2);
    let got = Kernel::new(&table).sinc(700, 101);
    let expected = float_sinc(700.0, 44100.0, 101);
    assert_eq!(got.len(), 101);
    for (g, e) in got.stream.iter().zip(expected.iter()) {
        assert!((*g as f64 / 65536.0 - e).abs() < 0.0005, "{} for {}", g, e);
    }
    let total: i64 = got.stream.iter().map(|x| *x as i64).sum();
    assert!((total - 65536).abs() < 101, "gain {}", total);
    for k in 0..50 {
        assert_eq!(got.stream[k], got.stream[100 - k]);
    }
}

#[test]
fn blackman_on_a_table_of_four_entries() {
    let table = NCOTable::new(4, 2, 0, vec![0, 65536, 0, -65536], 16).unwrap();
    // 0.42 - 0.5 + 0.08, 0.42 - 0.08, 0.42 + 0.5 + 0.08, and back.
    assert_eq!(Window::blackman(&table, 5).stream, vec![0, 22282, 65536, 22282, 0]);
    assert_eq!(Window::blackman(&table, 3).stream, vec![0, 65536, 0]);
    assert_eq!(Window::blackman(&table, 5).precision, 16);
}

#[test]
fn blackman_follows_the_formula() {
    let table = sine(44100, 16, 2);
    let got = Window::blackman(&table, 101);
    let expected = float_blackman(101);
    assert_eq!(got.len(), 101);
    for (g, e) in got.stream.iter().zip(expected.iter()) {
        assert!((*g as f64 / 65536.0 - e).abs() < 0.0005, "{} for {}", g, e);
    }
    assert_eq!(got.stream[50], 65536);
    assert!(got.stream[0].abs() <= 1);
}

#[test]
fn windowed_sinc_on_a_table_of_four_entries() {
    let table = NCOTable::new(4, 2, 0, vec![0, 65536, 0, -65536], 16).unwrap();
    let k = Kernel::new(&table).windowed_sinc(1, 5).unwrap();
    // The products 4333, 40044, 4333 add up to 48710.
    assert_eq!(k.stream, vec![0, 5829, 53876, 5829, 0]);
}

#[test]
fn windowed_sinc_follows_the_formula() {
    let table = sine(44100, 16, 2);
    let got = Kernel::new(&table).windowed_sinc(700, 101).unwrap();
    let sinc = float_sinc(700.0, 44100.0, 101);
    let window = float_blackman(101);
    let base: Vec<f64> = sinc.iter().zip(window.iter()).map(|(a, b)| a * b).collect();
    let scale: f64 = base.iter().sum();
    assert_eq!(got.len(), 101);
    for (g, b) in got.stream.iter().zip(base.iter()) {
        assert!((*g as f64 / 65536.0 - b / scale).abs() < 0.0005, "{} for {}", g, b / scale);
    }
    let total: i64 = got.stream.iter().map(|x| *x as i64).sum();
    assert!((total - 65536).abs() < 101, "gain {}", total);
}

#[test]
fn windowed_sinc_needs_an_odd_number_of_bins() {
    let table = sine(44100, 10, 4);
    let k = Kernel::new(&table);
    assert_eq!(k.windowed_sinc(700, 2).err(), Some(SignalError::LengthMismatch));
    assert_eq!(k.windowed_sinc(700, 100).err(), Some(SignalError::LengthMismatch));
    assert!(k.windowed_sinc(700, 3).is_ok());
}
