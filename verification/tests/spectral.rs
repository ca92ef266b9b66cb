use daisy_rs::dsp::convolution::{stereo_scratch, Convolver as Geometry};
use daisy_rs::dsp::dynamics::{Hold, Limiter as Lookahead};
use daisy_rs::dsp::fft::bit_reverse;
use daisy_rs::dsp::fft_plan::{butterfly, mirror_bins, pack, unpack, Plan};
use daisy_rs::dsp::stft::{slide, SpectralFreeze, SpectrumStep, Stft};
use daisy_rs::dsp::yin::{next_lag, period};
use std::f32::consts::TAU;

const SIZES: [usize; 4] = [256, 512, 1024, 2048];
const FS: f32 = 48_000.0;

// ---- the single-precision arithmetic that the library's plans drive ---------

fn tw(i: usize) -> (f32, f32) {
    let a = -2.0 * std::f64::consts::PI * i as f64 / 2048.0;
    (a.cos() as f32, a.sin() as f32)
}

fn cmul(a: (f32, f32), b: (f32, f32)) -> (f32, f32) {
    (a.0 * b.0 - a.1 * b.1, a.0 * b.1 + a.1 * b.0)
}

fn fft_in_place(re: &mut [f32], im: &mut [f32], inverse: bool) {
    let l = re.len();
    if inverse {
        for v in im.iter_mut() {
            *v = -*v;
        }
    }
    bit_reverse(re);
    bit_reverse(im);
    let plan = Plan::new(l);
    if plan.pairs {
        for i in (0..l).step_by(2) {
            let (a, b) = ((re[i], im[i]), (re[i + 1], im[i + 1]));
            (re[i], im[i]) = (a.0 + b.0, a.1 + b.1);
            (re[i + 1], im[i + 1]) = (a.0 - b.0, a.1 - b.1);
        }
    }
    for &q in &plan.sizes {
        for j in 0..l / 4 {
            let f = butterfly(l, q, j);
            let b1 = cmul((re[f.p1], im[f.p1]), tw(f.near));
            let d1 = cmul((re[f.p3], im[f.p3]), tw(f.near));
            let (x0, x2) = ((re[f.p0], im[f.p0]), (re[f.p2], im[f.p2]));
            let (u0, u1) = ((x0.0 + b1.0, x0.1 + b1.1), (x0.0 - b1.0, x0.1 - b1.1));
            let c = cmul((x2.0 + d1.0, x2.1 + d1.1), tw(f.far));
            let e = cmul((x2.0 - d1.0, x2.1 - d1.1), tw(f.far));
            (re[f.p0], im[f.p0]) = (u0.0 + c.0, u0.1 + c.1);
            (re[f.p2], im[f.p2]) = (u0.0 - c.0, u0.1 - c.1);
            (re[f.p1], im[f.p1]) = (u1.0 + e.1, u1.1 - e.0);
            (re[f.p3], im[f.p3]) = (u1.0 - e.1, u1.1 + e.0);
        }
    }
    if inverse {
        let s = 1.0 / l as f32;
        for v in re.iter_mut() {
            *v *= s;
        }
        for v in im.iter_mut() {
            *v = -*v * s;
        }
    }
}

struct RealFft<'s> {
    sre: &'s mut [f32],
    sim: &'s mut [f32],
}

impl<'s> RealFft<'s> {
    fn new(sre: &'s mut [f32], sim: &'s mut [f32]) -> Self {
        Self { sre, sim }
    }

    fn forward(&mut self, input: &[f32], out_re: &mut [f32], out_im: &mut [f32]) {
        let l = self.sre.len();
        pack(input, self.sre, self.sim);
        fft_in_place(self.sre, self.sim, false);
        for k in 0..=l {
            let (kl, lk) = mirror_bins(k, l);
            let (z, y) = ((self.sre[kl], self.sim[kl]), (self.sre[lk], self.sim[lk]));
            let xo = (0.5 * (z.1 + y.1), -0.5 * (z.0 - y.0));
            let p = cmul(xo, tw(k * (1024 / l)));
            out_re[k] = 0.5 * (z.0 + y.0) + p.0;
            out_im[k] = 0.5 * (z.1 - y.1) + p.1;
        }
    }

    fn inverse(&mut self, in_re: &[f32], in_im: &[f32], output: &mut [f32]) {
        let l = self.sre.len();
        for k in 0..l {
            let (x, y) = ((in_re[k], in_im[k]), (in_re[l - k], -in_im[l - k]));
            let w = tw(k * (1024 / l));
            let t = (0.5 * (x.0 - y.0), 0.5 * (x.1 - y.1));
            let xo = cmul(t, (w.0, -w.1));
            self.sre[k] = 0.5 * (x.0 + y.0) - xo.1;
            self.sim[k] = 0.5 * (x.1 + y.1) + xo.0;
        }
        fft_in_place(self.sre, self.sim, true);
        unpack(self.sre, self.sim, output);
    }
}

struct Convolver<'a> {
    g: Geometry,
    b: usize,
    p: usize,
    scratch: &'a mut [f32],
}

impl<'a> Convolver<'a> {
    fn required_scratch(ir_len: usize, b: usize) -> usize {
        Geometry::required_scratch(ir_len, b)
    }

    fn new(ir: &[f32], b: usize, scratch: &'a mut [f32]) -> Self {
        let g = Geometry::new(ir.len(), b, scratch.len());
        let l = g.layout();
        let p = l.ir_re.len / (b + 1);
        scratch.fill(0.0);
        let (mut sre, mut sim) = (vec![0.0; b], vec![0.0; b]);
        for part in 0..p {
            let frame: Vec<f32> =
                (0..2 * b).map(|i| g.tap(part, i).map_or(0.0, |t| ir[t])).collect();
            let (mut re, mut im) = (vec![0.0; b + 1], vec![0.0; b + 1]);
            RealFft::new(&mut sre, &mut sim).forward(&frame, &mut re, &mut im);
            let s = g.part_span(part);
            scratch[l.ir_re.start + s.start..][..s.len].copy_from_slice(&re);
            scratch[l.ir_im.start + s.start..][..s.len].copy_from_slice(&im);
        }
        Self { g, b, p, scratch }
    }

    fn process_block(&mut self, in_block: &[f32], out_block: &mut [f32]) {
        let (b, l) = (self.b, self.g.layout());
        slide(&mut self.scratch[l.win.start..][..l.win.len], in_block);
        let (mut sre, mut sim) = (vec![0.0; b], vec![0.0; b]);
        let (mut re, mut im) = (vec![0.0; b + 1], vec![0.0; b + 1]);
        let win = self.scratch[l.win.start..][..l.win.len].to_vec();
        RealFft::new(&mut sre, &mut sim).forward(&win, &mut re, &mut im);
        let s = self.g.ring_span(0);
        self.scratch[l.xh_re.start + s.start..][..s.len].copy_from_slice(&re);
        self.scratch[l.xh_im.start + s.start..][..s.len].copy_from_slice(&im);
        let (mut ar, mut ai) = (vec![0.0; b + 1], vec![0.0; b + 1]);
        for part in 0..self.p {
            let (x, h) = (self.g.ring_span(part).start, self.g.part_span(part).start);
            for k in 0..=b {
                let xv = (self.scratch[l.xh_re.start + x + k], self.scratch[l.xh_im.start + x + k]);
                let hv = (self.scratch[l.ir_re.start + h + k], self.scratch[l.ir_im.start + h + k]);
                let m = cmul(xv, hv);
                ar[k] += m.0;
                ai[k] += m.1;
            }
        }
        let mut out = vec![0.0; 2 * b];
        RealFft::new(&mut sre, &mut sim).inverse(&ar, &ai, &mut out);
        out_block.copy_from_slice(&out[b..]);
        self.g.advance();
    }
}

fn detect(samples: &[f32], fs: f32, threshold: f32, cmndf: &mut [f32]) -> Option<(f32, f32)> {
    let w = cmndf.len();
    cmndf[0] = 1.0;
    let mut running = 0.0f32;
    for tau in 1..w {
        let d: f32 = (0..w).map(|j| (samples[j] - samples[j + tau]).powi(2)).sum();
        running += d;
        cmndf[tau] = if running > 0.0 { d * tau as f32 / running } else { 1.0 };
    }
    let keys: Vec<u32> = cmndf.iter().map(|v| v.to_bits()).collect();
    let tau = period(&keys, threshold.to_bits(), 0.3f32.to_bits())?;
    let (x0, x1, x2) = (cmndf[tau - 1], cmndf[tau], cmndf[next_lag(tau, w)]);
    let denom = x0 + x2 - 2.0 * x1;
    let shift = if denom.abs() > 1.0e-9 { 0.5 * (x0 - x2) / denom } else { 0.0 };
    Some((fs / (tau as f32 + shift.clamp(-1.0, 1.0)), (1.0 - x1).clamp(0.0, 1.0)))
}

struct Limiter<const LA: usize> {
    look: Lookahead<LA>,
    ceiling: f32,
    gain: f32,
    rel: f32,
}

impl<const LA: usize> Limiter<LA> {
    fn new(fs: f32, ceiling: f32, release_s: f32) -> Self {
        let rel = libm::expf(-1.0 / (release_s * fs));
        Self { look: Lookahead::new(), ceiling, gain: 1.0, rel }
    }

    fn tick(&mut self, x: f32) -> f32 {
        let (out, peak) = self.look.tick(x.to_bits());
        let (out, peak) = (f32::from_bits(out), f32::from_bits(peak));
        let target = if peak > self.ceiling { self.ceiling / peak } else { 1.0 };
        self.gain = if target < self.gain {
            target
        } else {
            (target + self.rel * (self.gain - target)).min(target)
        };
        out * self.gain
    }
}

// ---- oracles and tests ------------------------------------------------------

fn naive_dft(re: &[f32], im: &[f32]) -> (Vec<f64>, Vec<f64>) {
    let n = re.len();
    let mut or = vec![0.0f64; n];
    let mut oi = vec![0.0f64; n];
    for k in 0..n {
        let (mut sr, mut si) = (0.0f64, 0.0f64);
        for t in 0..n {
            let a = -2.0 * std::f64::consts::PI * (k as f64) * (t as f64) / (n as f64);
            let (c, s) = (a.cos(), a.sin());
            let (xr, xi) = (re[t] as f64, im[t] as f64);
            sr += xr * c - xi * s;
            si += xr * s + xi * c;
        }
        or[k] = sr;
        oi[k] = si;
    }
    (or, oi)
}

fn lcg(seed: &mut u64) -> f32 {
    // deterministic uniform in [-1, 1)
    *seed = seed.wrapping_mul(6364136223846793005).wrapping_add(1442695040888963407);
    ((*seed >> 40) as f32 / (1u64 << 24) as f32) * 2.0 - 1.0
}

fn max_abs_err(a: &[f32], b: &[f64]) -> f64 {
    a.iter().zip(b).map(|(x, y)| (*x as f64 - *y).abs()).fold(0.0, f64::max)
}

#[test]
fn complex_fft_matches_naive_dft() {
    for &n in &SIZES {
        let mut seed = 0x1234_5678_9abc_def0 ^ n as u64;
        let re0: Vec<f32> = (0..n).map(|_| lcg(&mut seed)).collect();
        let im0: Vec<f32> = (0..n).map(|_| lcg(&mut seed)).collect();
        let (mut re, mut im) = (re0.clone(), im0.clone());
        fft_in_place(&mut re, &mut im, false);
        let (gr, gi) = naive_dft(&re0, &im0);
        // error grows ~sqrt(N) in f32; tolerance scaled accordingly.
        let tol = 3e-3 * (n as f64).sqrt();
        assert!(max_abs_err(&re, &gr) < tol, "N={n} re err {}", max_abs_err(&re, &gr));
        assert!(max_abs_err(&im, &gi) < tol, "N={n} im err {}", max_abs_err(&im, &gi));
    }
}

#[test]
fn complex_roundtrip_is_identity() {
    for &n in &SIZES {
        let mut seed = 0xdead_beef ^ n as u64;
        let re0: Vec<f32> = (0..n).map(|_| lcg(&mut seed)).collect();
        let im0: Vec<f32> = (0..n).map(|_| lcg(&mut seed)).collect();
        let (mut re, mut im) = (re0.clone(), im0.clone());
        fft_in_place(&mut re, &mut im, false);
        fft_in_place(&mut re, &mut im, true);
        let er = max_abs_err(&re, &re0.iter().map(|&x| x as f64).collect::<Vec<_>>());
        let ei = max_abs_err(&im, &im0.iter().map(|&x| x as f64).collect::<Vec<_>>());
        assert!(er < 1e-4 && ei < 1e-4, "N={n} roundtrip err {er}/{ei}");
    }
}

#[test]
fn real_fft_matches_naive_dft() {
    for &n in &SIZES {
        let mut seed = 0x0bad_c0de ^ n as u64;
        let input: Vec<f32> = (0..n).map(|_| lcg(&mut seed)).collect();
        let zeros = vec![0.0f32; n];
        let (gr, gi) = naive_dft(&input, &zeros);

        let (mut sre, mut sim) = (vec![0.0f32; n / 2], vec![0.0f32; n / 2]);
        let (mut outr, mut outi) = (vec![0.0f32; n / 2 + 1], vec![0.0f32; n / 2 + 1]);
        RealFft::new(&mut sre, &mut sim).forward(&input, &mut outr, &mut outi);

        let tol = 3e-3 * (n as f64).sqrt();
        for k in 0..=n / 2 {
            assert!((outr[k] as f64 - gr[k]).abs() < tol, "N={n} k={k} re");
            assert!((outi[k] as f64 - gi[k]).abs() < tol, "N={n} k={k} im");
        }
        // DC and Nyquist bins are purely real.
        assert!(outi[0].abs() < 1e-3 && outi[n / 2].abs() < 1e-3, "N={n} DC/Nyq imag");
    }
}

#[test]
fn real_roundtrip_is_identity() {
    for &n in &SIZES {
        let mut seed = 0xfeed_face ^ n as u64;
        let input: Vec<f32> = (0..n).map(|_| lcg(&mut seed)).collect();
        let (mut sre, mut sim) = (vec![0.0f32; n / 2], vec![0.0f32; n / 2]);
        let (mut outr, mut outi) = (vec![0.0f32; n / 2 + 1], vec![0.0f32; n / 2 + 1]);
        let mut back = vec![0.0f32; n];
        {
            let mut fft = RealFft::new(&mut sre, &mut sim);
            fft.forward(&input, &mut outr, &mut outi);
            fft.inverse(&outr, &outi, &mut back);
        }
        let err = input
            .iter()
            .zip(&back)
            .map(|(a, b)| (a - b).abs())
            .fold(0.0f32, f32::max);
        assert!(err < 1e-4, "N={n} real roundtrip err {err}");
    }
}

#[test]
fn known_signals() {
    let n = 1024usize;
    let (mut sre, mut sim) = (vec![0.0f32; n / 2], vec![0.0f32; n / 2]);
    let (mut outr, mut outi) = (vec![0.0f32; n / 2 + 1], vec![0.0f32; n / 2 + 1]);

    // DC: all-ones → energy only in bin 0.
    let ones = vec![1.0f32; n];
    RealFft::new(&mut sre, &mut sim).forward(&ones, &mut outr, &mut outi);
    assert!((outr[0] - n as f32).abs() < 1e-1, "DC bin");
    for k in 1..=n / 2 {
        assert!(outr[k].abs() < 1e-1 && outi[k].abs() < 1e-1, "DC leak k={k}");
    }

    // A pure cosine at bin b → a single spectral line of height N/2 at b.
    let b = 17usize;
    let cos: Vec<f32> = (0..n)
        .map(|t| (2.0 * std::f32::consts::PI * b as f32 * t as f32 / n as f32).cos())
        .collect();
    RealFft::new(&mut sre, &mut sim).forward(&cos, &mut outr, &mut outi);
    for k in 0..=n / 2 {
        let mag = (outr[k] * outr[k] + outi[k] * outi[k]).sqrt();
        let expect = if k == b { n as f32 / 2.0 } else { 0.0 };
        assert!((mag - expect).abs() < 5e-1, "cos bin k={k} mag={mag}");
    }
}

#[test]
fn parseval_energy_conservation() {
    // Σ|x|² == (1/N) Σ|X|² over the full complex spectrum.
    for &n in &SIZES {
        let mut seed = 0xa5a5_5a5a ^ n as u64;
        let input: Vec<f32> = (0..n).map(|_| lcg(&mut seed)).collect();
        let time_energy: f64 = input.iter().map(|&x| (x as f64) * (x as f64)).sum();

        let (mut sre, mut sim) = (vec![0.0f32; n / 2], vec![0.0f32; n / 2]);
        let (mut outr, mut outi) = (vec![0.0f32; n / 2 + 1], vec![0.0f32; n / 2 + 1]);
        RealFft::new(&mut sre, &mut sim).forward(&input, &mut outr, &mut outi);

        // full-spectrum energy: bins 1..N/2 counted twice (conjugate pair).
        let mut spec = (outr[0] * outr[0] + outi[0] * outi[0]) as f64
            + (outr[n / 2] * outr[n / 2] + outi[n / 2] * outi[n / 2]) as f64;
        for k in 1..n / 2 {
            spec += 2.0 * (outr[k] * outr[k] + outi[k] * outi[k]) as f64;
        }
        let freq_energy = spec / n as f64;
        let rel = (time_energy - freq_energy).abs() / time_energy.max(1e-9);
        assert!(rel < 1e-3, "N={n} Parseval rel err {rel}");
    }
}

#[test]
fn linearity() {
    let n = 512usize;
    let mut seed = 0x1357_9bdf;
    let x: Vec<f32> = (0..n).map(|_| lcg(&mut seed)).collect();
    let y: Vec<f32> = (0..n).map(|_| lcg(&mut seed)).collect();
    let sum: Vec<f32> = x.iter().zip(&y).map(|(a, b)| 2.0 * a - 3.0 * b).collect();

    let (mut sre, mut sim) = (vec![0.0f32; n / 2], vec![0.0f32; n / 2]);
    let mk = |inp: &[f32], sre: &mut [f32], sim: &mut [f32]| {
        let (mut r, mut i) = (vec![0.0f32; n / 2 + 1], vec![0.0f32; n / 2 + 1]);
        RealFft::new(sre, sim).forward(inp, &mut r, &mut i);
        (r, i)
    };
    let (xr, xi) = mk(&x, &mut sre, &mut sim);
    let (yr, yi) = mk(&y, &mut sre, &mut sim);
    let (sr, si) = mk(&sum, &mut sre, &mut sim);
    for k in 0..=n / 2 {
        assert!((sr[k] - (2.0 * xr[k] - 3.0 * yr[k])).abs() < 1e-2, "lin re k={k}");
        assert!((si[k] - (2.0 * xi[k] - 3.0 * yi[k])).abs() < 1e-2, "lin im k={k}");
    }
}

// Direct linear convolution oracle.
fn direct(x: &[f32], h: &[f32]) -> Vec<f32> {
    let mut y = vec![0.0f32; x.len() + h.len() - 1];
    for (n, xn) in x.iter().enumerate() {
        for (k, hk) in h.iter().enumerate() {
            y[n + k] += xn * hk;
        }
    }
    y
}

#[test]
fn matches_direct_convolution() {
    for &(irlen, b) in &[(700usize, 256usize), (1024, 128), (300, 64)] {
        let mut seed = 0xC0FFEE ^ (irlen as u64);
        let ir: Vec<f32> = (0..irlen).map(|_| lcg(&mut seed) * 0.3).collect();
        let nblocks = 24;
        let x: Vec<f32> = (0..nblocks * b).map(|_| lcg(&mut seed)).collect();
        let want = direct(&x, &ir);

        let mut scratch = vec![0.0f32; Convolver::required_scratch(irlen, b)];
        let mut conv = Convolver::new(&ir, b, &mut scratch);
        let mut got = Vec::new();
        let mut ob = vec![0.0f32; b];
        for blk in x.chunks_exact(b) {
            conv.process_block(blk, &mut ob);
            got.extend_from_slice(&ob);
        }

        // UPOLS is block-aligned (no extra latency): output block m ↔ input
        // block m. Compare the interior against the direct convolution.
        let mut max_err = 0.0f32;
        for i in b..(got.len() - b) {
            max_err = max_err.max((got[i] - want[i]).abs());
        }
        assert!(max_err < 2e-3, "irlen={irlen} b={b}: conv err {max_err}");
    }
}

#[test]
fn impulse_response_is_reproduced() {
    // Convolving a unit impulse with the IR must return the IR itself.
    let b = 64usize;
    let mut seed = 0x1234u64;
    let ir: Vec<f32> = (0..200).map(|_| lcg(&mut seed) * 0.5).collect();
    let mut scratch = vec![0.0f32; Convolver::required_scratch(ir.len(), b)];
    let mut conv = Convolver::new(&ir, b, &mut scratch);

    let mut out = Vec::new();
    let mut ob = vec![0.0f32; b];
    for blk in 0..12 {
        let mut ib = vec![0.0f32; b];
        if blk == 0 {
            ib[0] = 1.0;
        }
        conv.process_block(&ib, &mut ob);
        out.extend_from_slice(&ob);
    }
    // Block-aligned: convolving an impulse returns the IR starting at out[0].
    for (k, &h) in ir.iter().enumerate() {
        assert!((out[k] - h).abs() < 2e-3, "tap {k}: {} vs {h}", out[k]);
    }
}

fn tone(freq: f32, harmonics: usize, n: usize) -> Vec<f32> {
    (0..n)
        .map(|i| {
            let t = i as f32 / FS;
            let mut s = 0.0;
            for h in 1..=harmonics {
                s += (1.0 / h as f32) * libm::sinf(TAU * freq * h as f32 * t);
            }
            s * 0.3
        })
        .collect()
}

#[test]
fn detects_musical_pitches_accurately() {
    // Rich (harmonic) tones across the guitar/vocal range.
    for &f in &[82.41f32, 146.83, 220.0, 440.0, 880.0] {
        let sig = tone(f, 6, 4096);
        let mut cmndf = vec![0.0f32; 2048];
        let (est, clarity) = detect(&sig, FS, 0.15, &mut cmndf).expect("no pitch");
        let cents = 1200.0 * libm::log2f(est / f);
        assert!(
            cents.abs() < 15.0,
            "f={f}: est={est} ({cents:.1} cents), clarity={clarity}"
        );
        assert!(clarity > 0.8, "f={f}: low clarity {clarity}");
    }
}

#[test]
fn rejects_noise() {
    let mut seed = 0x1234_5678u32;
    let sig: Vec<f32> = (0..4096)
        .map(|_| {
            seed = seed.wrapping_mul(1664525).wrapping_add(1013904223);
            (seed >> 8) as f32 / (1 << 24) as f32 * 2.0 - 1.0
        })
        .collect();
    let mut cmndf = vec![0.0f32; 2048];
    // White noise is aperiodic → no confident pitch.
    assert!(detect(&sig, FS, 0.15, &mut cmndf).is_none());
}

#[test]
fn limiter_never_exceeds_ceiling_and_passes_quiet_signals() {
    let ceiling = 0.5;
    let mut lim = Limiter::<48>::new(FS, ceiling, 0.05);
    // Hot input (amp 2.0) — every output sample must stay under the ceiling.
    let mut maxout = 0.0f32;
    for i in 0..48_000 {
        let x = 2.0 * libm::sinf(2.0 * core::f32::consts::PI * 220.0 * i as f32 / FS);
        maxout = maxout.max(lim.tick(x).abs());
    }
    assert!(
        maxout <= ceiling * 1.001,
        "limiter overshoot: {maxout} > {ceiling}"
    );

    // Quiet input (peak 0.2 < ceiling) passes through unchanged after latency.
    let mut lim2 = Limiter::<48>::new(FS, ceiling, 0.05);
    let mut buf = [0.0f32; 512];
    for (i, b) in buf.iter_mut().enumerate() {
        let x = 0.2 * libm::sinf(2.0 * core::f32::consts::PI * 440.0 * i as f32 / FS);
        *b = lim2.tick(x);
    }
    // After the 48-sample latency, |out| tracks the (undistorted) 0.2 peak.
    let tail_peak = buf[128..].iter().fold(0.0f32, |m, &v| m.max(v.abs()));
    assert!(
        (tail_peak - 0.2).abs() < 0.01,
        "quiet signal altered: {tail_peak}"
    );
}

fn check_reconstruction<const N: usize>() {
    let mut seed = 0xC0DE ^ N as u64;
    let sig: Vec<f32> = (0..N * 12).map(|_| lcg(&mut seed) * 0.5).collect();
    let win: Vec<f32> =
        (0..N).map(|i| 0.5 - 0.5 * libm::cosf(TAU * i as f32 / N as f32)).collect();
    let mut s = Stft::<f32, N>::new(0.0);
    let hop = s.hop();
    let norm: f32 = (0..4).map(|k| win[k * hop] * win[k * hop]).sum();
    let silence = vec![0.0f32; hop];
    let (mut sre, mut sim) = (vec![0.0; N / 2], vec![0.0; N / 2]);
    let (mut re, mut im) = (vec![0.0; s.bins()], vec![0.0; s.bins()]);
    let mut frame = vec![0.0f32; N];
    let mut rec = Vec::new();
    for chunk in sig.chunks_exact(hop) {
        s.take_hop(chunk);
        for i in 0..N {
            frame[i] = s.input_at(i) * win[i];
        }
        RealFft::new(&mut sre, &mut sim).forward(&frame, &mut re, &mut im);
        RealFft::new(&mut sre, &mut sim).inverse(&re, &im, &mut frame);
        s.move_output(&silence);
        for i in 0..N {
            s.set_output(i, s.output_at(i) + frame[i] * win[i] / norm);
        }
        rec.extend((0..hop).map(|i| s.output_at(i)));
    }
    // Output lags input by the STFT latency; compare the overlapping tail.
    let lat = s.latency();
    let mut max_err = 0.0f32;
    for i in (2 * N)..(sig.len() - N) {
        max_err = max_err.max((rec[i] - sig[i - lat]).abs());
    }
    assert!(max_err < 1e-3, "N={N}: reconstruction err {max_err}");
}

#[test]
fn identity_reconstruction_is_exact() {
    check_reconstruction::<256>();
    check_reconstruction::<512>();
    check_reconstruction::<1024>();
}

#[test]
fn spectral_freeze_captures_once() {
    let mut f = SpectralFreeze::new();
    assert_eq!(f.step(), SpectrumStep::Pass);
    f.set_frozen(true);
    assert_eq!(f.step(), SpectrumStep::Capture);
    assert_eq!(f.step(), SpectrumStep::Resynthesize);
    f.set_frozen(false);
    f.set_frozen(true);
    assert_eq!(f.step(), SpectrumStep::Capture);
}

#[test]
fn gate_holds_for_its_time() {
    let mut h = Hold::new(3);
    assert!(!h.tick(false));
    assert!(h.tick(true));
    assert_eq!((h.tick(false), h.tick(false), h.tick(false)), (true, true, false));
    h.tick(true);
    h.reset();
    assert!(!h.tick(false));
}

#[test]
fn lookahead_delays_and_bounds() {
    let mut l = Lookahead::<4>::new();
    assert_eq!(l.latency(), 4);
    let xs = [1.0f32, -3.0, 2.0, 0.5, 0.25, 0.125, 0.0, 0.0];
    let outs: Vec<(f32, f32)> = xs
        .iter()
        .map(|x| l.tick(x.to_bits()))
        .map(|(o, p)| (f32::from_bits(o), f32::from_bits(p)))
        .collect();
    assert_eq!(outs[4].0, 1.0);
    assert_eq!(outs[5], (-3.0, 3.0));
    assert_eq!(outs[6], (2.0, 2.0));
    assert!(outs.iter().all(|(o, p)| o.abs() <= *p));
}

#[test]
fn plans_cover_every_length() {
    let p = Plan::new(512);
    assert!(p.pairs);
    assert_eq!(p.sizes, [2, 8, 32, 128]);
    let p = Plan::new(1024);
    assert!(!p.pairs);
    assert_eq!(p.sizes, [1, 4, 16, 64, 256]);
    let mut seen = [0u8; 64];
    for j in 0..16 {
        let f = butterfly(64, 4, j);
        for p in [f.p0, f.p1, f.p2, f.p3] {
            seen[p] += 1;
        }
    }
    assert!(seen.iter().all(|&n| n == 1));
}

#[test]
fn convolver_scratch_is_exact() {
    // Four spectra for each of 3 partitions, the window and the working space.
    assert_eq!(Geometry::required_scratch(700, 256), 4 * 3 * 257 + 512 + 1024 + 514);
    assert_eq!(Geometry::required_scratch(0, 64), Geometry::required_scratch(64, 64));
    assert_eq!(stereo_scratch(200, 64), 2 * Geometry::required_scratch(200, 64));
}

#[test]
fn period_needs_a_dip_or_a_low_minimum() {
    assert_eq!(period(&[9, 9, 9, 4, 3, 5, 1], 5, 0), Some(4));
    assert_eq!(period(&[9, 8, 7, 6, 6, 7], 5, 6), Some(3));
    assert_eq!(period(&[9, 8, 7, 6, 6, 7], 5, 5), None);
    assert_eq!(period(&[1], 5, 5), None);
}

#[test]
fn limiter_peak_ignores_what_is_no_number() {
    let mut look: Lookahead<4> = Lookahead::new();
    let four = 4.0f32.to_bits();
    assert_eq!(look.tick(four), (0, four));
    assert_eq!(look.tick(0x7FC0_0000), (0, four));
    assert_eq!(look.tick(0xFFC0_0001), (0, four));
    // Infinity is a number, and the loudest.
    let inf = f32::INFINITY.to_bits();
    assert_eq!(look.tick(f32::NEG_INFINITY.to_bits()), (0, inf));
    // The samples pass through as they are.
    assert_eq!(look.tick(0), (four, inf));
    assert_eq!(look.tick(0).0, 0x7FC0_0000);
}
