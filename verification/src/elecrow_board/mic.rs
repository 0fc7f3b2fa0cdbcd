//! PDM microphone (LMD3526B261) clocking and sample conversion.
//!
//! I2S0 is run in TDM mode with its registers patched to PDM RX with the
//! hardware PDM→PCM decimation filter at DSR_8S (÷64).  The I2S sample
//! rate is derived from the wanted PCM rate so that the PDM clock on the WS
//! pin lands where the decimation yields exactly that PCM rate:
//!
//! ```text
//! i2s_rate  = pcm_sample_rate × DSR_DIVISOR / BITS_PER_FRAME = pcm_sample_rate × 2
//! pdm_clock = i2s_rate × BITS_PER_FRAME                     = pcm_sample_rate × 64
//! pcm_rate  = pdm_clock / 64                                 = pcm_sample_rate
//! ```

use vstd::prelude::*;

verus! {

/// Size of the circular DMA buffer in bytes.
pub const DMA_BUF_SIZE: usize = 32000;

/// Bits per I2S frame in the Data16Channel16 format: 2 channels × 16 bits.
pub const BITS_PER_FRAME: u32 = 32;

/// PDM decimation ratio of the DSR_8S mode.
pub const DSR_DIVISOR: u32 = 64;

/// The I2S sample rate and PDM clock that produce `pcm_sample_rate` PCM
/// samples per second.
pub fn pdm_rates(pcm_sample_rate: u32) -> (r: (u32, u32))
    requires
        pcm_sample_rate * DSR_DIVISOR <= u32::MAX,
    ensures
        r.0 as int == pcm_sample_rate as int * 64 / 32,
        r.1 as int == r.0 as int * 32,
        r.1 as int == pcm_sample_rate as int * 64,
{
    let i2s_sample_rate = pcm_sample_rate * DSR_DIVISOR / BITS_PER_FRAME;
    assert(i2s_sample_rate == pcm_sample_rate * 2);
    let pdm_clock = i2s_sample_rate * BITS_PER_FRAME;
    (i2s_sample_rate, pdm_clock)
}

/// Drop the duplicate channel of `n` bytes of 16-bit samples in place.
///
/// Data16Channel16 outputs each mono PDM sample twice (L and R slots
/// identical); keeping every other 16-bit sample gives true mono:
/// `[S0,S0,S1,S1,…] → [S0,S1,…]`.  Returns the number of mono bytes,
/// `n / 2`.
pub fn downmix_to_mono(buf: &mut [u8], n: usize) -> (mono_len: usize)
    requires
        n <= old(buf)@.len(),
    ensures
        mono_len == n / 2,
        final(buf)@.len() == old(buf)@.len(),
        forall|m: int| 0 <= m && 4 * m + 1 < n ==> {
            &&& #[trigger] final(buf)@[2 * m] == old(buf)@[4 * m]
            &&& final(buf)@[2 * m + 1] == old(buf)@[4 * m + 1]
        },
        forall|i: int|
            2 * ((n as int + 2) / 4) <= i < old(buf)@.len() ==> #[trigger] final(buf)@[i] == old(
                buf,
            )@[i],
{
    let mono_len = n / 2;
    let copies = n / 4 + if n % 4 >= 2 {
        1
    } else {
        0
    };
    assert(copies == (n as int + 2) / 4);
    let mut m: usize = 0;
    while m < copies
        invariant
            n <= buf@.len(),
            buf@.len() == old(buf)@.len(),
            copies == (n as int + 2) / 4,
            m <= copies,
            forall|k: int| 0 <= k < m ==> {
                &&& #[trigger] buf@[2 * k] == old(buf)@[4 * k]
                &&& buf@[2 * k + 1] == old(buf)@[4 * k + 1]
            },
            forall|p: int| 2 * m <= p < buf@.len() ==> #[trigger] buf@[p] == old(buf)@[p],
        decreases copies - m,
    {
        let i = 4 * m;
        let lo = buf[i];
        let hi = buf[i + 1];
        buf[2 * m] = lo;
        buf[2 * m + 1] = hi;
        m = m + 1;
    }
    proof {
        assert forall|k: int| 0 <= k && 4 * k + 1 < n implies {
            &&& #[trigger] buf@[2 * k] == old(buf)@[4 * k]
            &&& buf@[2 * k + 1] == old(buf)@[4 * k + 1]
        } by {
            assert(k < copies);
        }
    }
    mono_len
}

} // verus!
