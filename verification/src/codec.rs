//! Decoding of the receiver's raw bytes into complex samples.
//!
//! The receiver delivers unsigned bytes, in-phase and quadrature interleaved.
//! A byte `b` stands for the real number `b / 127.5 - 1`, which is
//! `(2 * b - 255) / 255`. A component is kept as that exact numerator, an odd
//! integer between -255 and 255, over the fixed denominator [`SCALE`].

use vstd::prelude::*;

verus! {

/// The denominator under every component.
pub const SCALE: i16 = 255;

/// One complex sample: two numerators over [`SCALE`].
#[derive(Clone, Copy, Debug, PartialEq, Eq, Structural)]
pub struct IqSample {
    pub re: i16,
    pub im: i16,
}

/// The numerator that a byte stands for.
pub open spec fn component_of(b: u8) -> int {
    2 * b - 255
}

/// Whether a numerator is one that some byte stands for.
pub open spec fn is_component(c: int) -> bool {
    -255 <= c <= 255 && c % 2 != 0
}

/// The byte that stands for a numerator.
pub open spec fn byte_of(c: int) -> int {
    (c + 255) / 2
}

impl IqSample {
    /// Both components are numerators that a byte stands for.
    pub open spec fn wf(self) -> bool {
        is_component(self.re as int) && is_component(self.im as int)
    }
}

/// The samples that a byte sequence stands for: consecutive bytes in pairs, a
/// last byte without a partner left out.
pub open spec fn decoded(bytes: Seq<u8>) -> Seq<IqSample> {
    Seq::new(
        bytes.len() / 2,
        |k: int|
            IqSample {
                re: component_of(bytes[2 * k]) as i16,
                im: component_of(bytes[2 * k + 1]) as i16,
            },
    )
}

/// The byte sequence that stands for a sequence of samples.
pub open spec fn encoded(samples: Seq<IqSample>) -> Seq<u8> {
    Seq::new(
        2 * samples.len(),
        |j: int|
            if j % 2 == 0 {
                byte_of(samples[j / 2].re as int) as u8
            } else {
                byte_of(samples[j / 2].im as int) as u8
            },
    )
}

pub open spec fn all_wf(samples: Seq<IqSample>) -> bool {
    forall|k: int| 0 <= k < samples.len() ==> (#[trigger] samples[k]).wf()
}

/// The numerator for one byte.
pub fn centered_component(b: u8) -> (c: i16)
    ensures
        c == component_of(b),
        is_component(c as int),
        byte_of(c as int) == b,
{
    2 * (b as i16) - 255
}

/// The byte for one numerator, where there is one.
pub fn component_byte(c: i16) -> (r: Option<u8>)
    ensures
        r.is_some() <==> is_component(c as int),
        r.is_some() ==> r.unwrap() == byte_of(c as int) && component_of(r.unwrap()) == c,
{
    if c < -255 || c > 255 || c % 2 == 0 {
        None
    } else {
        Some(((c + 255) / 2) as u8)
    }
}

/// Pairs consecutive components into complex samples.
pub fn convert_to_complex(components: &[i16]) -> (iq: Vec<IqSample>)
    ensures
        iq@.len() == components@.len() / 2,
        forall|k: int|
            0 <= k < iq@.len() ==> #[trigger] iq@[k] == (IqSample {
                re: components@[2 * k],
                im: components@[2 * k + 1],
            }),
{
    let n: usize = components.len() / 2;
    let mut iq: Vec<IqSample> = Vec::new();
    let mut k: usize = 0;
    while k < n
        invariant
            k <= n,
            n == components@.len() / 2,
            2 * n <= components.len(),
            iq@.len() == k,
            forall|j: int|
                0 <= j < k ==> #[trigger] iq@[j] == (IqSample {
                    re: components@[2 * j],
                    im: components@[2 * j + 1],
                }),
        decreases n - k,
    {
        iq.push(IqSample { re: components[2 * k], im: components[2 * k + 1] });
        k += 1;
    }
    iq
}

/// The numerator for each byte, in order.
pub fn convert_to_components(bytes: &[u8]) -> (components: Vec<i16>)
    ensures
        components@.len() == bytes@.len(),
        forall|j: int|
            0 <= j < bytes@.len() ==> #[trigger] components@[j] == component_of(bytes@[j]),
{
    let mut components: Vec<i16> = Vec::new();
    let mut j: usize = 0;
    while j < bytes.len()
        invariant
            j <= bytes@.len(),
            components@.len() == j,
            forall|i: int| 0 <= i < j ==> #[trigger] components@[i] == component_of(bytes@[i]),
        decreases bytes@.len() - j,
    {
        components.push(centered_component(bytes[j]));
        j += 1;
    }
    components
}

/// Decodes raw receiver bytes into complex samples: half as many samples as
/// bytes, each well formed.
pub fn complex_from_rtlsdr(buf: &[u8]) -> (iq: Vec<IqSample>)
    ensures
        iq@ == decoded(buf@),
        iq@.len() == buf@.len() / 2,
        all_wf(iq@),
{
    let f = convert_to_components(buf);
    let iq = convert_to_complex(f.as_slice());
    assert(iq@ =~= decoded(buf@));
    iq
}

/// Encodes complex samples as raw receiver bytes. Fails exactly when a
/// component is no numerator that a byte stands for.
pub fn rtlsdr_from_complex(samples: &[IqSample]) -> (r: Option<Vec<u8>>)
    ensures
        r.is_some() <==> all_wf(samples@),
        r.is_some() ==> r.unwrap()@ == encoded(samples@),
{
    let mut bytes: Vec<u8> = Vec::new();
    let mut k: usize = 0;
    while k < samples.len()
        invariant
            k <= samples@.len(),
            bytes@.len() == 2 * k,
            forall|i: int| 0 <= i < k ==> (#[trigger] samples@[i]).wf(),
            forall|j: int| 0 <= j < 2 * k ==> #[trigger] bytes@[j] == encoded(samples@)[j],
        decreases samples@.len() - k,
    {
        let s: IqSample = samples[k];
        match (component_byte(s.re), component_byte(s.im)) {
            (Some(i), Some(q)) => {
                bytes.push(i);
                bytes.push(q);
            },
            _ => {
                assert(!samples@[k as int].wf());
                return None;
            },
        }
        k += 1;
    }
    assert(bytes@ =~= encoded(samples@));
    Some(bytes)
}

/// Decoding halves the length and yields well-formed samples only.
pub proof fn lemma_decoded_shape(bytes: Seq<u8>)
    ensures
        decoded(bytes).len() == bytes.len() / 2,
        all_wf(decoded(bytes)),
{
}

/// Encoding what was decoded gives back the bytes, for every byte sequence of
/// even length.
pub proof fn lemma_decode_then_encode(bytes: Seq<u8>)
    requires
        bytes.len() % 2 == 0,
    ensures
        encoded(decoded(bytes)) == bytes,
{
    assert(encoded(decoded(bytes)) =~= bytes) by {
        assert forall|j: int| 0 <= j < bytes.len() implies encoded(decoded(bytes))[j]
            == bytes[j] by {
            let k = j / 2;
            if j % 2 == 0 {
                assert(j == 2 * k);
            } else {
                assert(j == 2 * k + 1);
            }
        }
    }
}

/// Decoding what was encoded gives back the samples, for all well-formed
/// samples.
pub proof fn lemma_encode_then_decode(samples: Seq<IqSample>)
    requires
        all_wf(samples),
    ensures
        decoded(encoded(samples)) == samples,
{
    assert(decoded(encoded(samples)) =~= samples) by {
        assert forall|k: int| 0 <= k < samples.len() implies decoded(encoded(samples))[k]
            == samples[k] by {
            assert(samples[k].wf());
            assert((2 * k) % 2 == 0);
            assert((2 * k) / 2 == k);
            assert((2 * k + 1) % 2 == 1);
            assert((2 * k + 1) / 2 == k);
        }
    }
}

/// A byte at the receiver's bias, 127 or 128, stands for the numerator closest
/// to zero on its side: minus one or one.
pub proof fn lemma_bias_is_smallest(b: u8)
    ensures
        (b == 127 || b == 128) <==> (component_of(b) == -1 || component_of(b) == 1),
        forall|x: u8| component_of(x) != 0,
{
}

} // verus!
