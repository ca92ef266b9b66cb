//! The integer half of the signal-processing library: sample queues and rings,
//! the fixed-point transform, and the index arithmetic and decisions of the
//! processors.
pub mod choir;
pub mod convolution;
pub mod delay;
pub mod dynamics;
pub mod fft;
pub mod fft_plan;
pub mod fft_q15;
pub mod filter;
pub mod freeze;
pub mod granular;
pub mod lfo;
pub mod noise;
pub mod oscillator;
pub mod pitch;
pub mod reblock;
pub mod reverb;
pub mod sampler;
pub mod slices;
pub mod stft;
pub mod twiddles;
pub mod waveshaper;
pub mod yin;
