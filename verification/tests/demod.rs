use rtty::baudot::decode_stream;
use rtty::clock::recover;
use rtty::demod::{demodulate, discriminate};
use rtty::nco::NCOTable;
use rtty::signal::Signal;

const RATE: u64 = 8000;
const DETECT: u64 = 1000;
const SHIFT: f64 = 100.0;
const BAUD: u64 = 50;

fn q16(x: f64) -> i32 {
    (x * 65536.0).round() as i32
}

fn sine(sample_rate: u64, bits: usize, fractional: usize) -> NCOTable {
    let max = 1usize << bits;
    let samples: Vec<i32> = (0..max)
        .map(|s| q16(((s as f64 / max as f64) * 2.0 * std::f64::consts::PI).sin()))
        .collect();
    NCOTable::new(sample_rate, bits, fractional, samples, 16).unwrap()
}

/// A low-pass kernel: a sinc under a Blackman window, with unit gain at zero
/// frequency.
fn lowpass(cutoff: f64, bins: usize) -> Signal {
    let pi = std::f64::consts::PI;
    let half = ((bins - 1) / 2) as i64;
    let m = (bins - 1) as f64;
    let taps: Vec<i32> = (0..bins)
        .map(|n| {
            let c = (n as i64 - half) as f64;
            let sinc = if c == 0.0 {
                2.0 * cutoff / RATE as f64
            } else {
                (2.0 * pi * c * cutoff / RATE as f64).sin() / (c * pi)
            };
            let window = 0.42 - 0.5 * (2.0 * pi * n as f64 / m).cos()
                + 0.08 * (4.0 * pi * n as f64 / m).cos();
            q16(sinc * window)
        })
        .collect();
    Signal::new(taps, 16).unwrap().normalize()
}

/// A tone that stands `SHIFT` above the detection frequency for a `1` and as
/// far below it for a `0`, with no jump in phase, `width` samples to the symbol.
fn keyed(symbols: &[usize], width: usize) -> Signal {
    let mut phase: f64 = 0.0;
    let mut stream = vec![];
    for s in symbols {
        let f = if *s == 1 { DETECT as f64 + SHIFT } else { DETECT as f64 - SHIFT };
        for _ in 0..width {
            stream.push(q16(phase.cos()));
            phase += 2.0 * std::f64::consts::PI * f / RATE as f64;
        }
    }
    Signal::new(stream, 16).unwrap()
}

fn frame(data: [usize; 5]) -> Vec<usize> {
    let mut bits = vec![0];
    bits.extend_from_slice(&data);
    bits.push(1);
    bits.push(1);
    bits
}

#[test]
fn discriminate_is_its_steps_in_a_row() {
    let table = sine(RATE, 8, 4);
    let h = lowpass(300.0, 11);
    let raw = keyed(&[1, 0], 60);
    let n = raw.len();
    let i = (table.sin(DETECT).into_signal(n) * raw.clone()).unwrap().filter(&h);
    let q = (table.cos(DETECT).into_signal(n) * raw.clone()).unwrap().filter(&h);
    let id = i.diff();
    let qd = q.diff();
    let i2 = (i.clone() * i.clone()).unwrap();
    let q2 = (q.clone() * q.clone()).unwrap();
    let cross = ((i * qd).unwrap() - (q * id).unwrap()).unwrap();
    let expected = (cross / (i2 + q2).unwrap()).unwrap().filter(&h);
    let got = discriminate(&raw, &table, DETECT, &h);
    assert_eq!(got.stream, expected.stream);
    assert_eq!(got.precision, 16);
    assert_eq!(got.len(), 120 - 4 * 11);
    let bits = demodulate(&raw, &table, DETECT, &h, q16(0.05));
    assert_eq!(bits.stream, expected.into_bitstream(q16(0.05)).stream);
}

#[test]
fn discriminate_of_silence_is_zero() {
    let table = sine(RATE, 8, 4);
    let h = lowpass(300.0, 11);
    let raw = Signal::new(vec![0; 100], 16).unwrap();
    let got = discriminate(&raw, &table, DETECT, &h);
    assert_eq!(got.stream, vec![0; 56]);
    let bits = demodulate(&raw, &table, DETECT, &h, q16(0.05));
    assert_eq!(bits.stream, vec![0; 56]);
}

#[test]
fn discriminate_of_a_short_signal_is_empty() {
    let table = sine(RATE, 8, 4);
    let h = lowpass(300.0, 11);
    let raw = keyed(&[1], 30);
    assert!(discriminate(&raw, &table, DETECT, &h).stream.is_empty());
    assert!(demodulate(&raw, &table, DETECT, &h, 0).stream.is_empty());
}

#[test]
fn the_higher_tone_reads_positive_and_the_lower_negative() {
    let table = sine(RATE, 10, 6);
    let h = lowpass(300.0, 41);
    let high = discriminate(&keyed(&[1], 600), &table, DETECT, &h);
    let low = discriminate(&keyed(&[0], 600), &table, DETECT, &h);
    // Twice the sine of the shift in radians to the sample: 0.157.
    let expected = 2.0 * (2.0 * std::f64::consts::PI * SHIFT / RATE as f64).sin();
    for k in 200..high.len() {
        let v = high.stream[k] as f64 / 65536.0;
        assert!((v - expected).abs() < 0.03, "sample {} is {}", k, v);
        let w = low.stream[k] as f64 / 65536.0;
        assert!((w + expected).abs() < 0.03, "sample {} is {}", k, w);
    }
}

#[test]
fn a_keyed_tone_is_demodulated_into_its_symbols() {
    let table = sine(RATE, 10, 6);
    let h = lowpass(300.0, 41);
    let width = (RATE / BAUD) as usize;
    let symbols = [1, 1, 0, 1, 0, 0, 1, 1];
    let bits = demodulate(&keyed(&symbols, width), &table, DETECT, &h, q16(0.05));
    assert_eq!(bits.len(), symbols.len() * width - 4 * 41);
    // The two filters drop 164 samples and delay by 40: the middle of symbol
    // `k` stands near `k * width + width / 2 - 124`.
    for (k, s) in symbols.iter().enumerate().skip(1) {
        let middle = k * width + width / 2 - 124;
        assert_eq!(bits.stream[middle], *s, "symbol {}", k);
    }
}

#[test]
fn a_keyed_message_is_decoded_into_text() {
    let table = sine(RATE, 10, 6);
    let h = lowpass(300.0, 41);
    let width = (RATE / BAUD) as usize;
    let mut symbols = vec![1; 6];
    symbols.extend(frame([0, 1, 0, 1, 0])); // 01010 R
    symbols.extend(frame([1, 0, 1, 0, 1])); // 10101 Y
    symbols.extend(frame([0, 0, 0, 1, 1])); // 11000 O
    symbols.extend(vec![1; 4]);
    let bits = demodulate(&keyed(&symbols, width), &table, DETECT, &h, q16(0.05));
    let picked = recover(&table, BAUD, &bits).unwrap();
    assert_eq!(decode_stream(picked), "RYO");
}
