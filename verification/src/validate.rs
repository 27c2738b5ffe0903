//! The entry dispatcher: reads the declared authority, collects the
//! before/after record sets, and routes to mint, battle or transfer.

use crate::battle::{spec_battle, validate_battle};
use crate::bytes::{bytes_eq, bytes_views};
use crate::error::Error;
use crate::record::{collect_inputs_data, collect_outputs_data, rec_views, spec_collect, NFTView};
use crate::transfer::{spec_transfer, validate_transfer};
use vstd::prelude::*;

verus! {

/// One transition, handed over as plain values: the authority
/// argument of the validating script, the owner-binding hash of
/// every before-side input of the whole transition, the raw record
/// payloads and per-slot binding hashes of both sides, and the
/// auxiliary proof attached to the second input slot, if any.
pub struct Transition {
    /// The 20-byte authority argument attached to the validator.
    pub authority_arg: Vec<u8>,
    /// The owner-binding hash of every before-side input of the
    /// enclosing transition, whatever the record type.
    pub input_bindings: Vec<Vec<u8>>,
    /// The raw before-side record payloads, in slot order.
    pub before_data: Vec<Vec<u8>>,
    /// The raw after-side record payloads, in slot order.
    pub after_data: Vec<Vec<u8>>,
    /// The owner-binding hash of each before-side record slot.
    pub before_bindings: Vec<Vec<u8>>,
    /// The owner-binding hash of each after-side record slot.
    pub after_bindings: Vec<Vec<u8>>,
    /// The untrusted side channel carrying the round certificate.
    pub aux_proof: Option<Vec<u8>>,
}

impl Transition {
    /// What the enclosing ledger guarantees of a transition: binding
    /// hashes and the authority argument are 20-byte digests, and
    /// each record slot has a binding hash.
    pub open spec fn wf(&self) -> bool {
        &&& self.authority_arg@.len() == 20
        &&& forall|i: int|
            0 <= i < self.input_bindings@.len() ==> (#[trigger] self.input_bindings@[i])@.len()
                == 20
        &&& self.before_bindings@.len() == self.before_data@.len()
        &&& forall|i: int|
            0 <= i < self.before_bindings@.len() ==> (#[trigger] self.before_bindings@[i])@.len()
                == 20
        &&& self.after_bindings@.len() == self.after_data@.len()
        &&& forall|i: int|
            0 <= i < self.after_bindings@.len() ==> (#[trigger] self.after_bindings@[i])@.len()
                == 20
    }
}

/// Whether some before-side input is bound by the authority argument
/// exactly: the transition is then an authority-sanctioned mint.
pub open spec fn spec_authority(arg: Seq<u8>, bindings: Seq<Seq<u8>>) -> bool {
    exists|i: int| 0 <= i < bindings.len() && #[trigger] bindings[i] == arg
}

/// The view of the auxiliary proof channel.
pub open spec fn aux_view(aux: Option<Vec<u8>>) -> Option<Seq<u8>> {
    match aux {
        Option::None => Option::None,
        Option::Some(w) => Option::Some(w@),
    }
}

/// The round certificate an auxiliary proof carries: the big-endian
/// 16-bit value after a four-byte reserved prefix. An absent or too
/// short channel means zero, and zero means no battle.
pub open spec fn spec_round(aux: Option<Seq<u8>>) -> u16 {
    match aux {
        Option::None => 0,
        Option::Some(w) => if w.len() >= 6 {
            (w[4] * 0x100 + w[5]) as u16
        } else {
            0
        },
    }
}

/// The verdict of the validator on the views of a transition.
pub open spec fn spec_validate(
    arg: Seq<u8>,
    input_bindings: Seq<Seq<u8>>,
    before: Seq<Seq<u8>>,
    after: Seq<Seq<u8>>,
    before_bindings: Seq<Seq<u8>>,
    after_bindings: Seq<Seq<u8>>,
    aux: Option<Seq<u8>>,
) -> Result<(), Error> {
    match spec_collect(after, false) {
        Err(e) => Err(e),
        Ok(outs) => if spec_authority(arg, input_bindings) {
            Ok(())
        } else {
            match spec_collect(before, true) {
                Err(e) => Err(e),
                Ok(ins) => if ins.len() != outs.len() {
                    Err(Error::WrongInputOutput)
                } else if ins.len() == 2 && spec_round(aux) > 0 {
                    spec_battle(
                        ins,
                        outs,
                        before_bindings,
                        after_bindings,
                        input_bindings.len() as int,
                        spec_round(aux),
                    )
                } else {
                    spec_transfer(ins, outs)
                },
            }
        },
    }
}

/// The verdict on a transition value.
pub open spec fn transition_verdict(t: Transition) -> Result<(), Error> {
    spec_validate(
        t.authority_arg@,
        bytes_views(t.input_bindings@),
        bytes_views(t.before_data@),
        bytes_views(t.after_data@),
        bytes_views(t.before_bindings@),
        bytes_views(t.after_bindings@),
        aux_view(t.aux_proof),
    )
}

/// Mint is unconditional: when some before-side input is bound by
/// the authority argument, any after-record set that decodes is
/// accepted, whatever it holds.
pub proof fn lemma_mint_unconditional(t: Transition)
    requires
        spec_authority(t.authority_arg@, bytes_views(t.input_bindings@)),
        spec_collect(bytes_views(t.after_data@), false) is Ok,
    ensures
        transition_verdict(t) == Ok::<(), Error>(()),
{
}

/// Whether any before-side input of the transition is bound by the
/// authority argument; true marks an authority-sanctioned mint.
pub fn check_owner_mode(args: &Vec<u8>, bindings: &Vec<Vec<u8>>) -> (r: bool)
    ensures
        r == spec_authority(args@, bytes_views(bindings@)),
{
    let mut i: usize = 0;
    while i < bindings.len()
        invariant
            0 <= i <= bindings@.len(),
            forall|j: int| 0 <= j < i ==> #[trigger] bytes_views(bindings@)[j] != args@,
        decreases bindings@.len() - i,
    {
        if bytes_eq(&bindings[i], args) {
            proof {
                assert(bytes_views(bindings@)[i as int] == args@);
            }
            return true;
        }
        i += 1;
    }
    false
}

/// Extracts the round certificate from the auxiliary proof channel.
pub fn extract_round(aux: &Option<Vec<u8>>) -> (n: u16)
    ensures
        n == spec_round(aux_view(*aux)),
{
    match aux {
        Option::None => 0,
        Option::Some(w) => {
            if w.len() >= 6 {
                (w[4] as u16) * 0x100 + (w[5] as u16)
            } else {
                0
            }
        },
    }
}

/// Validates one transition and returns the binding verdict.
///
/// After-side records are decoded first; an authority-sanctioned
/// mint is accepted unconditionally; otherwise the record counts
/// must match, and two records with a nonzero round certificate are
/// resolved as a battle, anything else as a transfer.
pub fn validate(t: &Transition) -> (r: Result<(), Error>)
    requires
        t.wf(),
    ensures
        r == transition_verdict(*t),
{
    let outs = match collect_outputs_data(&t.after_data) {
        Ok(v) => v,
        Err(e) => { return Err(e) },
    };
    if check_owner_mode(&t.authority_arg, &t.input_bindings) {
        return Ok(());
    }
    let ins = match collect_inputs_data(&t.before_data) {
        Ok(v) => v,
        Err(e) => { return Err(e) },
    };
    if ins.len() != outs.len() {
        return Err(Error::WrongInputOutput);
    }
    if ins.len() == 2 {
        let n = extract_round(&t.aux_proof);
        if n > 0 {
            return validate_battle(
                &ins,
                &outs,
                &t.before_bindings,
                &t.after_bindings,
                t.input_bindings.len(),
                n,
            );
        }
    }
    validate_transfer(&ins, &outs)
}

} // verus!
