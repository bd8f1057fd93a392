use rtty::nco::{power_of_two, NCOTable};

/// One cycle of a sine in `2^bits` samples, with `precision` bits behind the
/// binary point.
fn sine_table(bits: usize, precision: u32) -> Vec<i32> {
    let max = 1usize << bits;
    (0..max)
        .map(|s| {
            let v = ((s as f64 / max as f64) * 2.0 * std::f64::consts::PI).sin();
            (v * (1u64 << precision) as f64).round() as i32
        })
        .collect()
}

fn sine(sample_rate: u64, bits: usize, fractional: usize) -> NCOTable {
    NCOTable::new(sample_rate, bits, fractional, sine_table(bits, 16), 16).unwrap()
}

#[test]
fn test_sin_cos() {
    let table = sine(44100, 8, 4);
    let mut s = table.sin(500);
    let mut c = table.cos(500);
    let cval = c.next().unwrap();
    println!("{}", cval);
    assert!(s.next() == Some(0), "Sin should be 0.0");
    assert!(cval as f64 / 65536.0 > 0.99, "Cos should be 1.0");
}

#[test]
fn test_set_phase() {
    let table = sine(44100, 8, 2);
    let mut osc = table.freq(500);
    assert!(osc.index == 0, "Initial index should be 0");
    osc.set_phase(1, 4);
    println!("oscillator index is {}", osc.index);
    // 1/4 of the way around is 1 << 8, since 1 << (8 + 2) is the full table size
    assert!(osc.index == 256, "Phase-shifted index should be 1/4 around the values");
}

#[test]
fn test_pulsetrain() {
    let table = sine(44100, 8, 2);
    let osc = table.freq(500);
    let mut pt = osc.into_pulsetrain();
    assert!(pt.next() == Some(1), "Expected a pulse");
    assert!(pt.next() == Some(0), "Expected no pulse");
}

#[test]
fn table_keeps_what_it_is_given() {
    let table = NCOTable::new(8000, 2, 3, vec![0, 10, 0, -10], 5).unwrap();
    assert_eq!(table.sample_rate, 8000);
    assert_eq!(table.bits, 2);
    assert_eq!(table.fractional, 3);
    assert_eq!(table.precision, 5);
    assert_eq!(table.samples, vec![0, 10, 0, -10]);
    assert_eq!(table.accumulator_range(), 32);
}

#[test]
fn table_refuses_the_wrong_number_of_entries() {
    assert!(NCOTable::new(8000, 2, 0, vec![0, 1, 0], 0).is_none());
    assert!(NCOTable::new(8000, 2, 0, vec![0, 1, 0, -1, 0], 0).is_none());
    assert!(NCOTable::new(8000, 0, 0, vec![], 0).is_none());
    assert!(NCOTable::new(8000, 0, 0, vec![0], 0).is_some());
}

#[test]
fn table_refuses_a_zero_sample_rate() {
    assert!(NCOTable::new(0, 2, 0, vec![0, 1, 0, -1], 0).is_none());
}

#[test]
fn table_refuses_a_precision_beyond_the_word() {
    assert!(NCOTable::new(8000, 2, 0, vec![0, 1, 0, -1], 31).is_some());
    assert!(NCOTable::new(8000, 2, 0, vec![0, 1, 0, -1], 32).is_none());
}

#[test]
fn table_refuses_an_accumulator_wider_than_a_word() {
    let width = usize::BITS as usize;
    assert!(NCOTable::new(8000, 2, width - 3, vec![0, 1, 0, -1], 0).is_some());
    assert!(NCOTable::new(8000, 2, width - 2, vec![0, 1, 0, -1], 0).is_none());
    assert!(NCOTable::new(8000, width, 0, vec![0, 1, 0, -1], 0).is_none());
    assert!(NCOTable::new(8000, 2, usize::MAX, vec![0, 1, 0, -1], 0).is_none());
}

#[test]
fn power_of_two_values() {
    assert_eq!(power_of_two(0), 1);
    assert_eq!(power_of_two(10), 1024);
    assert_eq!(power_of_two(usize::BITS as usize - 1), 1usize << (usize::BITS - 1));
}

#[test]
fn steps_for_freq_is_the_whole_part_of_the_exact_step() {
    // 4096 * 500 / 44100 = 46.4...
    assert_eq!(sine(44100, 8, 4).steps_for_freq(500), 46);
    // 1024 * 500 / 44100 = 11.6...
    assert_eq!(sine(44100, 8, 2).steps_for_freq(500), 11);
    assert_eq!(sine(44100, 8, 2).steps_for_freq(0), 0);
    assert_eq!(sine(44100, 8, 2).steps_for_freq(44100), 1024);
    assert_eq!(sine(44100, 8, 2).steps_for_freq(11025), 256);
}

#[test]
fn steps_for_freq_is_capped_at_the_largest_step() {
    let table = NCOTable::new(1, 2, usize::BITS as usize - 3, vec![0, 1, 0, -1], 0).unwrap();
    assert_eq!(table.steps_for_freq(u64::MAX), usize::MAX);
}

#[test]
fn step_starts_at_phase_zero() {
    let table = sine(44100, 8, 2);
    let osc = table.step(17);
    assert_eq!(osc.index, 0);
    assert_eq!(osc.step, 17);
}

#[test]
fn next_reads_the_entry_and_advances_modulo_the_range() {
    let table = NCOTable::new(8, 2, 1, vec![0, 10, 0, -10], 0).unwrap();
    let mut osc = table.step(3);
    let mut seen = vec![];
    let mut phases = vec![];
    for _ in 0..9 {
        phases.push(osc.index);
        seen.push(osc.next().unwrap());
    }
    assert_eq!(phases, vec![0, 3, 6, 1, 4, 7, 2, 5, 0]);
    assert_eq!(seen, vec![0, 10, -10, 0, 0, -10, 10, 0, 0]);
}

#[test]
fn next_with_the_largest_step_does_not_overflow() {
    let table = NCOTable::new(8, 2, 1, vec![0, 10, 0, -10], 0).unwrap();
    let mut osc = table.step(usize::MAX);
    osc.set_phase(7, 8);
    assert_eq!(osc.index, 7);
    osc.next();
    // usize::MAX is 7 modulo 8, and 7 + 7 is 6 modulo 8.
    assert_eq!(osc.index, 6);
}

#[test]
fn set_step_and_set_freq_keep_the_phase() {
    let table = sine(44100, 8, 2);
    let mut osc = table.freq(500);
    osc.next();
    osc.next();
    assert_eq!(osc.index, 22);
    osc.set_step(5);
    assert_eq!((osc.index, osc.step), (22, 5));
    osc.set_freq(11025);
    assert_eq!((osc.index, osc.step), (22, 256));
}

#[test]
fn set_phase_wraps_whole_turns() {
    let table = sine(44100, 8, 2);
    let mut osc = table.freq(500);
    osc.set_phase(5, 4);
    assert_eq!(osc.index, 256);
    osc.set_phase(1, 3);
    assert_eq!(osc.index, 341);
    osc.set_phase(0, 1);
    assert_eq!(osc.index, 0);
    osc.set_phase(1, 1);
    assert_eq!(osc.index, 0);
}

#[test]
fn shift_phase_adds_modulo_the_range() {
    let table = sine(44100, 8, 2);
    let mut osc = table.freq(500);
    osc.shift_phase(3, 4);
    assert_eq!(osc.index, 768);
    osc.shift_phase(1, 2);
    assert_eq!(osc.index, 256);
    assert_eq!(osc.step, 11);
}

#[test]
fn cos_starts_a_quarter_turn_ahead() {
    let table = sine(44100, 8, 4);
    let c = table.cos(500);
    assert_eq!(c.index, 1024);
    assert_eq!(c.step, 46);
}

#[test]
fn into_signal_takes_the_next_samples() {
    let table = NCOTable::new(8, 2, 1, vec![0, 10, 0, -10], 3).unwrap();
    let s = table.step(3).into_signal(9);
    assert_eq!(s.stream, vec![0, 10, -10, 0, 0, -10, 10, 0, 0]);
    assert_eq!(s.precision, 3);
    assert!(table.step(3).into_signal(0).stream.is_empty());
}

#[test]
fn sine_wave_has_the_asked_frequency() {
    // A quarter of the sample rate: one cycle in four samples.
    let table = sine(8000, 8, 4);
    let s = table.sin(2000).into_signal(8);
    assert_eq!(s.stream, vec![0, 65536, 0, -65536, 0, 65536, 0, -65536]);
    let c = table.cos(2000).into_signal(4);
    assert_eq!(c.stream, vec![65536, 0, -65536, 0]);
}

#[test]
fn pulsetrain_ticks_once_for_each_cycle() {
    let table = sine(8000, 8, 4);
    // One cycle in eight samples.
    let mut pt = table.freq(1000).into_pulsetrain();
    let mut ticks = vec![];
    for _ in 0..17 {
        ticks.push(pt.next().unwrap());
    }
    assert_eq!(ticks, vec![1, 0, 0, 0, 0, 0, 0, 0, 1, 0, 0, 0, 0, 0, 0, 0, 1]);
}

#[test]
fn clones_are_independent_cursors() {
    let table = sine(8000, 8, 4);
    let mut a = table.freq(1000);
    a.next();
    let mut b = a.clone();
    assert_eq!((b.index, b.step), (a.index, a.step));
    b.next();
    assert_ne!(b.index, a.index);
    let t = table.clone();
    assert_eq!(t.samples, table.samples);
    assert_eq!((t.bits, t.fractional, t.sample_rate, t.precision), (8, 4, 8000, 16));
    let mut p = a.into_pulsetrain();
    p.next();
    let q = p.clone();
    assert_eq!((q.last, q.nco.index), (p.last, p.nco.index));
}
