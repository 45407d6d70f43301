//! Author seeds: strings of random ASCII letters and digits.

use rand::rngs::ThreadRng;
use rand::Rng;
use vstd::prelude::*;

verus! {

/// The number of characters of a generated seed.
pub const SEED_LENGTH: usize = 30;

/// `c` is an ASCII letter or digit.
pub open spec fn is_alphanumeric(c: char) -> bool {
    let code = c as u32;
    ||| 48 <= code <= 57
    ||| 65 <= code <= 90
    ||| 97 <= code <= 122
}

/// `byte` encodes an ASCII letter or digit.
pub open spec fn is_alphanumeric_byte(byte: u8) -> bool {
    ||| 48 <= byte <= 57
    ||| 65 <= byte <= 90
    ||| 97 <= byte <= 122
}

#[verifier::external_type_specification]
#[verifier::external_body]
pub struct ExThreadRng(ThreadRng);

/// `rand::thread_rng`: a handle to the generator of the current thread.
/// Nothing is claimed of it.
#[verifier::external_body]
fn thread_rng() -> ThreadRng {
    rand::thread_rng()
}

/// `Rng::sample` with the `rand::distributions::Alphanumeric` distribution:
/// claims only that the byte drawn is that of an ASCII letter or digit, as
/// the distribution's documentation and its table of 62 characters show.
#[verifier::external_body]
fn sample_alphanumeric(rng: &mut ThreadRng) -> (byte: u8)
    ensures
        is_alphanumeric_byte(byte),
{
    rng.sample(rand::distributions::Alphanumeric)
}

/// `String::push`: claims that the character is appended at the end.
#[verifier::external_body]
fn push_char(text: &mut String, c: char)
    ensures
        final(text)@ == old(text)@.push(c),
{
    text.push(c)
}

/// The seed whose characters are the ASCII characters of `samples`, in order.
pub fn seed_from_samples(samples: &Vec<u8>) -> (seed: String)
    ensures
        seed@ == samples@.map_values(|byte: u8| byte as char),
{
    let mut seed = String::new();
    let mut i: usize = 0;
    while i < samples.len()
        invariant
            i <= samples.len(),
            seed@ == samples@.take(i as int).map_values(|byte: u8| byte as char),
        decreases samples.len() - i,
    {
        push_char(&mut seed, samples[i] as char);
        proof {
            assert(samples@.take(i + 1) =~= samples@.take(i as int).push(samples@[i as int]));
        }
        i = i + 1;
    }
    proof {
        assert(samples@.take(samples.len() as int) =~= samples@);
    }
    seed
}

/// Generates a fresh author seed of [`SEED_LENGTH`] random ASCII letters and
/// digits.
pub fn generate_seed() -> (seed: String)
    ensures
        seed@.len() == SEED_LENGTH,
        forall|i: int| 0 <= i < seed@.len() ==> is_alphanumeric(#[trigger] seed@[i]),
{
    let mut rng = thread_rng();
    let mut samples: Vec<u8> = Vec::new();
    let mut i: usize = 0;
    while i < SEED_LENGTH
        invariant
            i <= SEED_LENGTH,
            samples@.len() == i,
            forall|j: int| 0 <= j < i ==> is_alphanumeric_byte(#[trigger] samples@[j]),
        decreases SEED_LENGTH - i,
    {
        let byte = sample_alphanumeric(&mut rng);
        samples.push(byte);
        i = i + 1;
    }
    let seed = seed_from_samples(&samples);
    assert forall|i: int| 0 <= i < seed@.len() implies is_alphanumeric(#[trigger] seed@[i]) by {
        assert(is_alphanumeric_byte(samples@[i]));
    }
    seed
}

} // verus!
