use daisy_rs::dsp::choir::Voicing;
use daisy_rs::dsp::delay::DelayLine;
use daisy_rs::dsp::fft_q15::{cfft_q15, cmul, hi, lo, pack};
use daisy_rs::dsp::freeze::Freeze;
use daisy_rs::dsp::granular::Granular;
use daisy_rs::dsp::noise::Prng;
use daisy_rs::dsp::pitch::FlipFlop;
use daisy_rs::dsp::reblock::SampleFifo;
use daisy_rs::dsp::reverb::{FdnReverb, DELAYS, DIFF_DELAYS, REQUIRED_BUF, STARTS};
use daisy_rs::dsp::sampler::{nearest_zone, seam_len, set_chord, Zone};
use daisy_rs::spatializer::Voice;

#[test]
fn deterministic() {
    let mut a = Prng::new(1);
    let mut b = Prng::new(1);
    for _ in 0..100 {
        assert_eq!(a.next_u32(), b.next_u32());
    }
}

#[test]
fn in_range() {
    let mut p = Prng::new(42);
    for _ in 0..10_000 {
        let x = p.next_bits24() as f32 * (1.0 / 8_388_608.0) - 1.0;
        assert!((-1.0..1.0).contains(&x));
    }
}

#[test]
fn push_pop_roundtrip_preserves_order() {
    let mut f = SampleFifo::<f32, 16>::new(0.0);
    assert_eq!(f.extend(&[1.0, 2.0, 3.0, 4.0]), 4);
    assert_eq!(f.len(), 4);
    let mut out = [0.0f32; 3];
    assert!(f.pop(&mut out));
    assert_eq!(out, [1.0, 2.0, 3.0]);
    assert_eq!(f.len(), 1);
    // Not enough for another 3-block.
    assert!(!f.pop(&mut out));
    assert_eq!(f.len(), 1);
}

#[test]
fn overflow_drops_and_reports_short_count() {
    let mut f = SampleFifo::<f32, 4>::new(0.0);
    assert_eq!(f.extend(&[1.0, 2.0, 3.0, 4.0, 5.0, 6.0]), 4); // only 4 fit
    assert_eq!(f.len(), 4);
    assert!(!f.push(9.0)); // full
    let mut out = [0.0f32; 4];
    assert!(f.pop(&mut out));
    assert_eq!(out, [1.0, 2.0, 3.0, 4.0]); // 5,6 were dropped, not wrapped in
}

#[test]
fn wraps_around_capacity() {
    let mut f = SampleFifo::<f32, 4>::new(0.0);
    f.extend(&[1.0, 2.0, 3.0]);
    let mut out = [0.0f32; 2];
    f.pop(&mut out); // head now at 2, len 1
    f.extend(&[4.0, 5.0, 6.0]); // wraps past the end
    assert_eq!(f.len(), 4);
    let mut all = [0.0f32; 4];
    assert!(f.pop(&mut all));
    assert_eq!(all, [3.0, 4.0, 5.0, 6.0]);
}

// The real workload: 48-sample callback chunks in, 64-sample convolver
// blocks out, and the same on the way back — assert not one sample is lost
// or duplicated across the 48/64 boundary over many cycles (an identity
// "convolver" makes the whole path a pure delay).
#[test]
fn reblock_48_to_64_is_sample_exact() {
    const IN: usize = 48;
    const B: usize = 64;
    let mut in_fifo = SampleFifo::<f32, 128>::new(0.0);
    let mut out_fifo = SampleFifo::<f32, 256>::new(0.0);

    // A recognisable ramp so any drop/dup/reorder shows up.
    let total = IN * 400;
    let src: Vec<f32> = (0..total).map(|i| i as f32).collect();

    let mut produced: Vec<f32> = Vec::new();
    let mut block = [0.0f32; B];
    let mut chunk_out = [0.0f32; IN];

    for chunk in src.chunks_exact(IN) {
        in_fifo.extend(chunk);
        // Drain as many whole blocks as are ready through the identity stage.
        while in_fifo.pop(&mut block) {
            out_fifo.extend(&block);
        }
        // Emit one callback's worth if primed (else this callback is silent).
        if out_fifo.pop(&mut chunk_out) {
            produced.extend_from_slice(&chunk_out);
        }
    }

    // Everything produced must be a contiguous prefix of the source (a pure
    // delay), with no gaps: produced[i] == src[i] for all produced samples.
    assert!(!produced.is_empty());
    for (i, &v) in produced.iter().enumerate() {
        assert_eq!(v, src[i], "sample {i} diverged");
    }
    // And the pipeline should keep up: latency is bounded (< 2 blocks), so we
    // lose at most a couple of callbacks of output to priming.
    assert!(produced.len() >= total - 2 * B - IN);
}

// The seam of a frozen loop: the tail fades into the head.
fn seam(head: f32, tail: f32, i: usize, n: usize) -> f32 {
    let f = i as f32 / n as f32;
    f * head + (1.0 - f) * tail
}

#[test]
fn live_passes_through() {
    let mut buf = [0.0f32; 64];
    let mut fz = Freeze::new(&mut buf, 8, 0.0);
    for i in 0..40 {
        let x = (i as f32) * 0.01;
        assert_eq!(fz.tick(x), x);
    }
}

#[test]
fn frozen_output_is_periodic_and_finite() {
    let mut buf = [0.0f32; 256];
    let xfade = 32;
    let mut fz = Freeze::new(&mut buf, xfade, 0.0);
    // Record a full buffer of a smooth tone.
    for i in 0..256 {
        let t = i as f32 / 256.0;
        fz.tick(libm::sinf(core::f32::consts::TAU * 3.0 * t));
    }
    fz.freeze(seam);
    let period = 256 - xfade;
    // Collect two loop periods.
    let mut out = [0.0f32; 448]; // 2 * period
    for o in out.iter_mut() {
        *o = fz.tick(0.0);
    }
    assert!(out.iter().all(|v| v.is_finite()));
    // Exact periodicity: sample n == sample n+period.
    for n in 0..period {
        assert!((out[n] - out[n + period]).abs() < 1e-6);
    }
}

#[test]
fn seam_has_no_click() {
    let mut buf = [0.0f32; 512];
    let xfade = 64;
    let mut fz = Freeze::new(&mut buf, xfade, 0.0);
    // A tone whose period does NOT divide the loop, so a naive butt-join
    // would click at the seam; the crossfade must smooth it.
    for i in 0..512 {
        let t = i as f32;
        fz.tick(libm::sinf(0.11 * t));
    }
    fz.freeze(seam);
    let period = 512 - xfade;
    let mut out = [0.0f32; 900];
    for o in out.iter_mut() {
        *o = fz.tick(0.0);
    }
    // Largest step within a body must bound the step across the wrap: no
    // sample-to-sample discontinuity bigger than the signal's own slope.
    let max_body_step = (1..period)
        .map(|n| (out[n] - out[n - 1]).abs())
        .fold(0.0f32, f32::max);
    let wrap_step = (out[period] - out[period - 1]).abs();
    assert!(
        wrap_step <= max_body_step * 1.5,
        "wrap step {wrap_step} vs body {max_body_step}"
    );
}


fn q15f(v: f64) -> i16 {
    (v * 32768.0).round().clamp(-32768.0, 32767.0) as i16
}

// Naive O(N^2) complex DFT of a dequantized packed-Q15 input, in f64.
fn naive_dft(x: &[i32]) -> (Vec<f64>, Vec<f64>) {
    let n = x.len();
    let re: Vec<f64> = x.iter().map(|&v| lo(v) as f64 / 32768.0).collect();
    let im: Vec<f64> = x.iter().map(|&v| hi(v) as f64 / 32768.0).collect();
    let (mut or, mut oi) = (vec![0.0; n], vec![0.0; n]);
    for k in 0..n {
        let (mut sr, mut si) = (0.0, 0.0);
        for t in 0..n {
            let a = -2.0 * std::f64::consts::PI * (k * t) as f64 / n as f64;
            let (c, s) = (a.cos(), a.sin());
            sr += re[t] * c - im[t] * s;
            si += re[t] * s + im[t] * c;
        }
        or[k] = sr;
        oi[k] = si;
    }
    (or, oi)
}

fn lcg(seed: &mut u64) -> f64 {
    *seed = seed
        .wrapping_mul(6364136223846793005)
        .wrapping_add(1442695040888963407);
    ((*seed >> 40) as f64 / (1u64 << 24) as f64) * 2.0 - 1.0
}

#[test]
fn cfft_q15_matches_naive_dft() {
    for &l in &[128usize, 256, 512, 1024] {
        let mut seed = 0x51_5a5a ^ l as u64;
        // Keep inputs at half scale so the twiddle products keep headroom.
        let x: Vec<i32> = (0..l)
            .map(|_| pack(q15f(lcg(&mut seed) * 0.5), q15f(lcg(&mut seed) * 0.5)))
            .collect();
        let (gr, gi) = naive_dft(&x);

        let mut y = x.clone();
        cfft_q15(&mut y);

        // Our output is the DFT scaled by 1/L; compare against gr/L, gi/L.
        let inv_l = 1.0 / l as f64;
        let mut max_err = 0.0f64;
        for k in 0..l {
            let yr = lo(y[k]) as f64 / 32768.0;
            let yi = hi(y[k]) as f64 / 32768.0;
            max_err = max_err.max((yr - gr[k] * inv_l).abs());
            max_err = max_err.max((yi - gi[k] * inv_l).abs());
        }
        // Q15 radix-2 with per-stage ÷2 + twiddle quantization over log2(L)
        // stages: a few ×10^-3 on the 1/L-scaled bins is expected.
        assert!(max_err < 6e-3, "L={l} Q15 FFT max err {max_err}");
    }
}

#[test]
fn silence_has_a_silent_spectrum() {
    let mut x = [0i32; 256];
    cfft_q15(&mut x);
    assert!(x.iter().all(|&v| v == 0));
}

#[test]
fn generator_follows_the_published_recurrence() {
    // xorshift32 with shifts 13, 17, 5.
    let mut p = Prng::new(1);
    assert_eq!(p.next_u32(), 270_369);
    assert_eq!(p.next_u32(), 67_634_689);
    // A zero seed is replaced.
    let mut z = Prng::new(0);
    assert_ne!(z.next_u32(), 0);
    let mut words = [0u32; 3];
    Prng::new(1).fill_bits24(&mut words);
    assert_eq!(words[0], 270_369 >> 8);
    assert_eq!(words[1], 67_634_689 >> 8);
}

#[test]
fn delay_line_reads_back_what_was_written() {
    let mut buf = [0i32; 4];
    let mut line = DelayLine::new(&mut buf, 0);
    for x in 1..=6 {
        line.write(x);
    }
    assert_eq!(line.read(0), 6);
    assert_eq!(line.read(3), 3);
    assert_eq!(line.read(100), 3); // clamped to the oldest
    assert_eq!(line.tick(7, 1), 6);
    line.reset(0);
    assert_eq!(line.read(2), 0);
}

#[test]
fn reverb_rings_turn_with_their_own_period() {
    assert_eq!(REQUIRED_BUF, DELAYS.iter().sum::<usize>() + DIFF_DELAYS.iter().sum::<usize>());
    let mut r = FdnReverb::new(REQUIRED_BUF);
    let first = r.line_cell(2);
    assert_eq!(first, STARTS[2]);
    for n in 1..=DELAYS[2] {
        r.advance();
        assert_eq!(r.line_cell(2) == first, n == DELAYS[2]);
    }
    assert_eq!(r.read_cells(0, DELAYS[0] - 1), (STARTS[0] + DELAYS[0] - 1, STARTS[0]));
    let c = r.diffuse(3);
    assert_eq!(r.diffuse(3), c + 1);
    r.reset();
    assert_eq!(r.line_cell(7), STARTS[7]);
    assert_eq!(r.position(7), 0);
}

#[test]
fn grains_are_drawn_behind_the_head() {
    let mut buf = vec![0i32; 4096];
    let mut g = Granular::new(&mut buf, 0, 600, 1);
    assert_eq!(g.interval(), 100);
    for i in 0..1000 {
        g.record(i);
    }
    // The first word of the generator decides the spray.
    let back = 600 + 270_369 % 2048;
    let (voice, start) = g.spawn().unwrap();
    assert_eq!(voice, 0);
    assert_eq!(start, (1000 + 4096 - back) % 4096);
    for v in 1..12 {
        assert_eq!(g.spawn().unwrap().0, v);
    }
    assert_eq!(g.spawn(), None);
    g.retire(5);
    assert!(!g.sounds(5));
    assert_eq!(g.spawn().unwrap().0, 5);
}

#[test]
fn frozen_cloud_keeps_its_moment() {
    let mut buf = vec![0i32; 4096];
    let mut g = Granular::new(&mut buf, 0, 600, 7);
    for i in 0..4096 {
        g.record(i);
    }
    g.set_frozen(true);
    assert!(g.is_frozen());
    g.record(-1);
    assert_eq!(g.pair(0), (0, 1));
    assert_eq!(g.pair(4095), (4095, 0));
    g.set_frozen(false);
    g.record(-1);
    assert_eq!(g.pair(0), (-1, 1));
}

#[test]
fn grains_come_when_they_are_due() {
    let mut buf = vec![0i32; 4096];
    let mut g = Granular::new(&mut buf, 0, 60, 7);
    let due: Vec<bool> = (0..20).map(|_| g.due()).collect();
    assert_eq!(due.iter().filter(|&&d| d).count(), 2);
    assert!(due[9] && due[19]);
    g.schedule(0);
    assert!(g.due());
    g.set_density(3);
    assert_eq!((g.due(), g.due(), g.due()), (false, false, true));
    g.set_grain_len(0);
    g.reset(0);
    assert_eq!(g.next_bits24() >> 24, 0);
    assert_eq!(g.capacity(), 4096);
}

#[test]
fn loops_are_clamped_to_the_recording() {
    let sample = [0u8; 100];
    let z = Zone::new(&sample);
    assert_eq!((z.loop_start, z.loop_len), (0, 100));
    let cases = [((10, 50), (10, 50)), ((90, 50), (90, 10)), ((200, 5), (98, 2)), ((40, 0), (40, 2))];
    for (asked, given) in cases {
        let z = Zone::new(&sample).with_loop(asked.0, asked.1);
        assert_eq!((z.loop_start, z.loop_len), given);
    }
    assert_eq!(seam_len(2048, 400), 100);
    assert_eq!(seam_len(0, 400), 1);
}

#[test]
fn picks_nearest_zone() {
    // A 400 Hz note is closer to the 440 zone than the 220 zone.
    let distance = |freq: f32, base: f32| libm::fabsf(libm::log2f(freq / base)).to_bits();
    let zones = [220.0f32, 440.0];
    let d: Vec<u32> = zones.iter().map(|&b| distance(400.0, b)).collect();
    let zone = nearest_zone(&d);
    assert_eq!(zone, 1);
    let rate = 400.0 / zones[zone];
    assert!((rate - 400.0f32 / 440.0).abs() < 1e-4);
    assert_eq!(nearest_zone(&[5, 3, 3, 9]), 1);
}

#[test]
fn chords_share_the_voices() {
    assert_eq!(set_chord(3, 2), [0, 0, 1, 1, 2, 2]);
    assert_eq!(set_chord(30, 1).len(), 24);
    assert_eq!(set_chord(2, 23)[23], 1);
    assert!(set_chord(0, 3).is_empty());
}

#[test]
fn choir_never_overdraws_its_bank() {
    let mut v = Voicing::new(3, 2);
    let mut sung = Vec::new();
    while let Some((note, singer)) = v.next_singer() {
        sung.push((note, singer));
        for _ in 0..10 {
            v.next_partial();
        }
    }
    assert_eq!(sung, [(0, 0), (0, 1), (1, 2), (1, 3), (2, 4), (2, 5)]);
    assert_eq!(v.partials(), 60);
    assert_eq!(v.owner(25), 2);
    // 100 harmonics each: the third singer exhausts the oscillators.
    let mut v = Voicing::new(9, 9);
    let mut full = false;
    while let Some(_) = v.next_singer() {
        for _ in 0..100 {
            if v.next_partial().is_none() {
                full = true;
                break;
            }
        }
    }
    assert!(full);
    assert_eq!((v.singers(), v.partials()), (3, 256));
    let mut v = Voicing::new(30, 0);
    while v.next_singer().is_some() {}
    assert_eq!(v.singers(), 24);
}

#[test]
fn flip_flop_halves_the_frequency() {
    let mut f = FlipFlop::new();
    let up: Vec<bool> = (0..16).map(|i| f.tick(i % 4 < 2)).collect();
    assert_eq!(up[..8], [false, false, false, false, true, true, true, true]);
    assert_eq!(up[..8], up[8..]);
}

#[test]
fn voice_is_silent_for_one_callback_only() {
    let mut v: Voice<u32> = Voice::new(0);
    let mut next = 0u32;
    let mut out = Vec::new();
    for callback in 0..50 {
        let mono: Vec<u32> = (0..48).map(|i| next + i).collect();
        next += 48;
        v.take(&mono);
        let mut block = [0u32; 64];
        while v.next_block(&mut block) {
            v.put(&block, &block);
        }
        let (mut l, mut r) = ([u32::MAX; 48], [u32::MAX; 48]);
        assert_eq!(v.emit(&mut l, &mut r), callback > 0);
        assert_eq!(l, r);
        if callback > 0 {
            out.extend_from_slice(&l);
        } else {
            assert!(l.iter().all(|&x| x == u32::MAX));
        }
    }
    assert!(out.iter().enumerate().all(|(i, &x)| x == i as u32));
}

#[test]
fn recording_goes_on_where_a_freeze_left_it() {
    let mut buf = [0.0f32; 8];
    let mut f = Freeze::new(&mut buf, 1, 0.0);
    for x in [1.0, 2.0, 3.0] {
        f.tick(x);
    }
    f.freeze(seam);
    f.unfreeze();
    for x in [4.0, 5.0] {
        f.tick(x);
    }
    f.freeze(seam);
    let out: Vec<f32> = (0..7).map(|_| f.tick(0.0)).collect();
    assert_eq!(out, [5.0, 0.0, 0.0, 1.0, 2.0, 3.0, 4.0]);
}

#[test]
fn q15_products_saturate() {
    // (-1 - 1j) squared is 2j, one more than Q15 holds.
    let x = pack(-32768, -32768);
    assert_eq!(cmul(x, x), pack(0, 32767));
    // (-1) squared.
    let m = pack(-32768, 0);
    assert_eq!(cmul(m, m), pack(32767, 0));
    // 0.5 * 0.5j = 0.25j.
    assert_eq!(cmul(pack(16384, 0), pack(0, 16384)), pack(0, 8192));
}
