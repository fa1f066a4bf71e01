//! The transcript labels of the argument, as byte strings.
use vstd::prelude::*;

verus! {

/// "IPA", the protocol's domain-separation tag.
pub open spec fn lab_protocol() -> Seq<u8> {
    seq![73u8, 80u8, 65u8]
}

/// "dom-sep", the label under which the protocol tag is absorbed.
pub open spec fn lab_dom_sep() -> Seq<u8> {
    seq![100u8, 111u8, 109u8, 45u8, 115u8, 101u8, 112u8]
}

/// "U", the label of the instance.
pub open spec fn lab_instance() -> Seq<u8> {
    seq![85u8]
}

/// "L", the label of a round's left commitment.
pub open spec fn lab_left() -> Seq<u8> {
    seq![76u8]
}

/// "R", the label of a round's right commitment.
pub open spec fn lab_right() -> Seq<u8> {
    seq![82u8]
}

/// "r", the label of a scalar challenge.
pub open spec fn lab_challenge() -> Seq<u8> {
    seq![114u8]
}

/// "ipa", the seed of the single-generator key of the scalar claim.
pub open spec fn lab_ipa() -> Seq<u8> {
    seq![105u8, 112u8, 97u8]
}

/// "gen", the label under which key generators are squeezed.
pub open spec fn lab_gen() -> Seq<u8> {
    seq![103u8, 101u8, 110u8]
}

pub fn label_protocol() -> (r: Vec<u8>)
    ensures
        r@ == lab_protocol(),
{
    let v: Vec<u8> = vec![73u8, 80u8, 65u8];
    proof {
        assert(v@ =~= lab_protocol());
    }
    v
}

pub fn label_dom_sep() -> (r: Vec<u8>)
    ensures
        r@ == lab_dom_sep(),
{
    let v: Vec<u8> = vec![100u8, 111u8, 109u8, 45u8, 115u8, 101u8, 112u8];
    proof {
        assert(v@ =~= lab_dom_sep());
    }
    v
}

pub fn label_instance() -> (r: Vec<u8>)
    ensures
        r@ == lab_instance(),
{
    let v: Vec<u8> = vec![85u8];
    proof {
        assert(v@ =~= lab_instance());
    }
    v
}

pub fn label_left() -> (r: Vec<u8>)
    ensures
        r@ == lab_left(),
{
    let v: Vec<u8> = vec![76u8];
    proof {
        assert(v@ =~= lab_left());
    }
    v
}

pub fn label_right() -> (r: Vec<u8>)
    ensures
        r@ == lab_right(),
{
    let v: Vec<u8> = vec![82u8];
    proof {
        assert(v@ =~= lab_right());
    }
    v
}

pub fn label_challenge() -> (r: Vec<u8>)
    ensures
        r@ == lab_challenge(),
{
    let v: Vec<u8> = vec![114u8];
    proof {
        assert(v@ =~= lab_challenge());
    }
    v
}

pub fn label_ipa() -> (r: Vec<u8>)
    ensures
        r@ == lab_ipa(),
{
    let v: Vec<u8> = vec![105u8, 112u8, 97u8];
    proof {
        assert(v@ =~= lab_ipa());
    }
    v
}

pub fn label_gen() -> (r: Vec<u8>)
    ensures
        r@ == lab_gen(),
{
    let v: Vec<u8> = vec![103u8, 101u8, 110u8];
    proof {
        assert(v@ =~= lab_gen());
    }
    v
}

} // verus!
