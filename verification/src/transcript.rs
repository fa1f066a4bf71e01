//! The Fiat-Shamir transcript: a duplex sponge that absorbs labelled prover
//! messages and emits verifier challenges.
//!
//! The sponge is `merlin::Transcript`; `ts_view` names its state, and the two
//! transitions are named functions of the state alone, so every challenge is a
//! deterministic function of what was absorbed before it. A label is absorbed
//! as a message of its own right before what it labels; the sponge length-
//! prefixes each message, so the encoding stays injective.
use vstd::prelude::*;

use curve25519_dalek::scalar::Scalar;
use merlin::Transcript;

use crate::scalar::f_from_wide;
use crate::scalar::group_order;
use crate::scalar::scalar_from_wide;
use crate::scalar::scalar_val;

verus! {

/// The abstract state of a transcript.
pub uninterp spec fn ts_view(t: Transcript) -> Seq<u8>;

/// The state of a fresh transcript made from a label.
pub uninterp spec fn ts_new_of(label: Seq<u8>) -> Seq<u8>;

/// The state after absorbing one message.
pub uninterp spec fn ts_absorb_of(st: Seq<u8>, msg: Seq<u8>) -> Seq<u8>;

/// The (state, 64 challenge bytes) one squeeze yields.
pub uninterp spec fn ts_challenge_of(st: Seq<u8>) -> (Seq<u8>, Seq<u8>);

/// The state after absorbing a labelled message.
pub open spec fn absorb_st(st: Seq<u8>, label: Seq<u8>, msg: Seq<u8>) -> Seq<u8> {
    ts_absorb_of(ts_absorb_of(st, label), msg)
}

/// The state after squeezing a labelled scalar challenge.
pub open spec fn squeeze_st(st: Seq<u8>, label: Seq<u8>) -> Seq<u8> {
    ts_challenge_of(ts_absorb_of(st, label)).0
}

/// The canonical value of a labelled scalar challenge.
pub open spec fn squeeze_val(st: Seq<u8>, label: Seq<u8>) -> nat {
    f_from_wide(ts_challenge_of(ts_absorb_of(st, label)).1)
}

#[verifier::external_type_specification]
#[verifier::external_body]
pub struct ExTranscript(Transcript);

/// Relies on `merlin::Transcript::new` and `Transcript::append_message`: a
/// sponge under a fixed protocol label, seeded with one message, is a
/// function of that seed alone. The sponge length-prefixes a message with a
/// `u32`, so the seed must be shorter than `2^32` bytes.
#[verifier::external_body]
pub fn ts_new(seed: &Vec<u8>) -> (r: Transcript)
    requires
        seed@.len() < 0x1_0000_0000,
    ensures
        ts_view(r) == ts_new_of(seed@),
{
    let mut t = Transcript::new(b"ipa-pc");
    t.append_message(b"seed", seed.as_slice());
    t
}

/// Relies on `merlin::Transcript::append_message`: the next state is a
/// function of the state and the message alone. The sponge length-prefixes a
/// message with a `u32`, so it must be shorter than `2^32` bytes.
#[verifier::external_body]
pub fn ts_absorb(t: &mut Transcript, msg: &Vec<u8>)
    requires
        msg@.len() < 0x1_0000_0000,
    ensures
        ts_view(*final(t)) == ts_absorb_of(ts_view(*old(t)), msg@),
{
    t.append_message(b"ipa-msg", msg.as_slice());
}

/// Relies on `merlin::Transcript::challenge_bytes`: the bytes put out and the
/// next state are functions of the state alone.
#[verifier::external_body]
pub fn ts_challenge64(t: &mut Transcript) -> (r: Vec<u8>)
    ensures
        ts_view(*final(t)) == ts_challenge_of(ts_view(*old(t))).0,
        r@ == ts_challenge_of(ts_view(*old(t))).1,
        r@.len() == 64,
{
    let mut buf = [0u8; 64];
    t.challenge_bytes(b"ipa-challenge", &mut buf);
    buf.to_vec()
}

/// Absorb a labelled message.
pub fn absorb_bytes(t: &mut Transcript, label: &Vec<u8>, msg: &Vec<u8>)
    requires
        label@.len() < 0x1_0000_0000,
        msg@.len() < 0x1_0000_0000,
    ensures
        ts_view(*final(t)) == absorb_st(ts_view(*old(t)), label@, msg@),
{
    ts_absorb(t, label);
    ts_absorb(t, msg);
}

/// Squeeze a labelled scalar challenge out of the transcript.
pub fn squeeze_scalar(t: &mut Transcript, label: &Vec<u8>) -> (r: Scalar)
    requires
        label@.len() < 0x1_0000_0000,
    ensures
        ts_view(*final(t)) == squeeze_st(ts_view(*old(t)), label@),
        scalar_val(r) == squeeze_val(ts_view(*old(t)), label@),
        scalar_val(r) < group_order(),
{
    ts_absorb(t, label);
    let bytes = ts_challenge64(t);
    scalar_from_wide(&bytes)
}

} // verus!
