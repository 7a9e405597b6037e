//! Two-channel byte textures that a shader reads as a source of randomness.

use rand::distributions::{Distribution, Uniform};
use rand::rngs::ThreadRng;
use vstd::prelude::*;

verus! {

/// Bytes per texel: a red and a green channel.
pub const CHANNELS: usize = 2;

/// `rand::rngs::ThreadRng`, the handle to a thread's generator, as a value
/// that is passed along and never looked into.
#[verifier::external_type_specification]
#[verifier::external_body]
pub struct ExThreadRng(ThreadRng);

/// Number of bytes of a texture of `size_x` by `size_y` texels.
pub open spec fn texture_len(size_x: nat, size_y: nat) -> nat {
    size_x * size_y * CHANNELS as nat
}

/// `rand::thread_rng`: a handle to the generator of the calling thread.
/// Nothing is claimed of it.
#[verifier::external_body]
fn thread_rng() -> ThreadRng {
    rand::thread_rng()
}

/// `Uniform::from` on an inclusive range of bytes, followed by one
/// `Distribution::sample` of it. Building the distribution panics where the
/// range is empty; the byte drawn lies in the range.
#[verifier::external_body]
fn sample_byte(rng: &mut ThreadRng, low: u8, high: u8) -> (byte: u8)
    requires
        low <= high,
    ensures
        low <= byte <= high,
{
    Uniform::from(low..=high).sample(rng)
}

/// A texture whose bytes are all zero.
pub fn fixed_rg_data(size_x: usize, size_y: usize) -> (data: Vec<u8>)
    requires
        texture_len(size_x as nat, size_y as nat) <= usize::MAX,
    ensures
        data@ == Seq::new(texture_len(size_x as nat, size_y as nat), |k: int| 0u8),
{
    let mut data: Vec<u8> = Vec::new();
    let texels = texel_count(size_x, size_y);
    let mut n: usize = 0;
    while n < texels
        invariant
            n <= texels,
            texels * CHANNELS <= usize::MAX,
            data@ == Seq::new((n * CHANNELS) as nat, |k: int| 0u8),
        decreases texels - n,
    {
        data.push(0);
        data.push(0);
        n += 1;
        assert(data@ =~= Seq::new((n * CHANNELS) as nat, |k: int| 0u8));
    }
    data
}

/// A texture whose bytes are drawn independently and uniformly from all
/// byte values.
pub fn random_rg_data(size_x: usize, size_y: usize) -> (data: Vec<u8>)
    requires
        texture_len(size_x as nat, size_y as nat) <= usize::MAX,
    ensures
        data@.len() == texture_len(size_x as nat, size_y as nat),
{
    let mut data: Vec<u8> = Vec::new();
    let mut rng = thread_rng();
    let texels = texel_count(size_x, size_y);
    let mut n: usize = 0;
    while n < texels
        invariant
            n <= texels,
            texels * CHANNELS <= usize::MAX,
            data@.len() == n * CHANNELS,
        decreases texels - n,
    {
        data.push(sample_byte(&mut rng, u8::MIN, u8::MAX));
        data.push(sample_byte(&mut rng, u8::MIN, u8::MAX));
        n += 1;
    }
    data
}

/// Number of texels of a texture whose bytes can be counted.
fn texel_count(size_x: usize, size_y: usize) -> (texels: usize)
    requires
        texture_len(size_x as nat, size_y as nat) <= usize::MAX,
    ensures
        texels == size_x * size_y,
        texels * CHANNELS == texture_len(size_x as nat, size_y as nat),
{
    assert(size_x * size_y <= size_x * size_y * CHANNELS) by (nonlinear_arith)
        requires
            CHANNELS == 2,
    ;
    size_x * size_y
}

} // verus!
