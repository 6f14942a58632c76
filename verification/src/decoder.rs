//! Decoding: from a table and a byte slice to an instruction.

use crate::binding::{
    all_consistent, any_cut_short, first_match, is_first_match, lemma_first_match_is_least,
    pattern_cut_short, pattern_matches, Binding, BindingTable,
};
use crate::operand::{extract, extracted, OperandValue};
use vstd::prelude::*;

verus! {

/// A decoded instruction: the name of its variant and the values of its
/// operands, in declared order.
#[derive(Clone, Debug, PartialEq, Eq)]
pub struct Instruction {
    pub variant: String,
    pub operands: Vec<OperandValue>,
}

/// What an `Instruction` holds, as mathematical values.
pub struct InstructionView {
    pub variant: Seq<char>,
    pub operands: Seq<OperandValue>,
}

/// Why a byte slice could not be decoded.
#[derive(Clone, Copy, Debug, PartialEq, Eq, Structural)]
pub enum DecodeError {
    /// No pattern of the table matches the front of the input, nor would
    /// any with more input.
    UnknownOpcode,
    /// No pattern matches, but the input agrees with a pattern as far as it
    /// goes: more bytes are needed.
    TruncatedInput,
}

impl View for Instruction {
    type V = InstructionView;

    open spec fn view(&self) -> InstructionView {
        InstructionView { variant: self.variant@, operands: self.operands@ }
    }
}

/// The instruction that `binding` decodes from bytes that match it: the
/// operands are taken from the bytes under the pattern.
pub open spec fn instruction_of(binding: Binding, bytes: Seq<u8>) -> InstructionView {
    InstructionView {
        variant: binding.variant@,
        operands: extracted(
            bytes.subrange(0, binding.pattern@.len() as int),
            binding.operand_types@,
            binding.fields@,
        ),
    }
}

/// What decoding the front of `bytes` against `bindings` gives.
///
/// The first binding in declaration order whose pattern matches decides
/// the instruction, and the length of its pattern is the number of bytes
/// taken. Where none matches, the input is truncated if it agrees with
/// some pattern as far as it goes, and the opcode is unknown otherwise.
pub open spec fn decoded(bindings: Seq<Binding>, bytes: Seq<u8>) -> Result<
    (InstructionView, nat),
    DecodeError,
> {
    match first_match(bindings, bytes) {
        Some(i) => Ok((instruction_of(bindings[i], bytes), bindings[i].pattern@.len())),
        None => if any_cut_short(bindings, bytes) {
            Err(DecodeError::TruncatedInput)
        } else {
            Err(DecodeError::UnknownOpcode)
        },
    }
}

/// The result of a call of `decode`, as mathematical values.
pub open spec fn outcome(result: Result<(Instruction, usize), DecodeError>) -> Result<
    (InstructionView, nat),
    DecodeError,
> {
    match result {
        Ok((instruction, consumed)) => Ok((instruction@, consumed as nat)),
        Err(error) => Err(error),
    }
}

/// The number of bytes that a decoding took: none where it failed.
pub open spec fn consumed(result: Result<(Instruction, usize), DecodeError>) -> nat {
    match result {
        Ok((_, consumed)) => consumed as nat,
        Err(_) => 0,
    }
}

/// Whether some binding is cut short by the end of `bytes`.
fn cut_short_anywhere(bindings: &Vec<Binding>, bytes: &[u8]) -> (r: bool)
    ensures
        r == any_cut_short(bindings@, bytes@),
{
    let mut i: usize = 0;
    while i < bindings.len()
        invariant
            i <= bindings@.len(),
            forall|k: int|
                0 <= k < i ==> !pattern_cut_short((#[trigger] bindings@[k]).pattern@, bytes@),
        decreases bindings@.len() - i,
    {
        if bindings[i].cut_short(bytes) {
            return true;
        }
        i += 1;
    }
    false
}

/// Decodes the instruction at the front of `bytes`.
///
/// On success the result holds the instruction and the number of bytes it
/// took, which is never more than `bytes` has. Nothing is kept between
/// calls: a program is decoded by calling again on what follows. A binding
/// with an empty pattern matches every input and takes no byte.
pub fn decode(table: &BindingTable, bytes: &[u8]) -> (result: Result<
    (Instruction, usize),
    DecodeError,
>)
    ensures
        outcome(result) == decoded(table@, bytes@),
        consumed(result) <= bytes@.len(),
{
    match table.find_match(bytes) {
        Some((binding, taken)) => {
            let matched = vstd::slice::slice_subrange(bytes, 0, taken);
            let operands = extract(
                matched,
                binding.operand_types.as_slice(),
                binding.fields.as_slice(),
            );
            let instruction = Instruction { variant: binding.variant.clone(), operands };
            assert(instruction@.operands =~= instruction_of(*binding, bytes@).operands);
            assert(instruction@ == instruction_of(*binding, bytes@));
            Ok((instruction, taken))
        },
        None => {
            if cut_short_anywhere(table.bindings(), bytes) {
                Err(DecodeError::TruncatedInput)
            } else {
                Err(DecodeError::UnknownOpcode)
            }
        },
    }
}

/// The number of bytes that a call of `decode` took: the length of the
/// instruction where it succeeded, and zero where it failed.
pub fn consumed_length(result: &Result<(Instruction, usize), DecodeError>) -> (length: usize)
    ensures
        length == consumed(*result),
{
    match result {
        Ok((_, taken)) => *taken,
        Err(_) => 0,
    }
}

/// Decoding is a function of the table and the bytes: two results of
/// decoding the same bytes against the same table hold the same values.
pub proof fn lemma_decode_is_deterministic(
    bindings: Seq<Binding>,
    bytes: Seq<u8>,
    first: Result<(Instruction, usize), DecodeError>,
    second: Result<(Instruction, usize), DecodeError>,
)
    requires
        outcome(first) == decoded(bindings, bytes),
        outcome(second) == decoded(bindings, bytes),
    ensures
        outcome(first) == outcome(second),
        consumed(first) == consumed(second),
{
}

/// Decoding succeeds exactly when some pattern matches, and then with the
/// first binding that matches: its variant, its operands, and the length
/// of its pattern, which the input covers.
pub proof fn lemma_decoded_by_first_match(bindings: Seq<Binding>, bytes: Seq<u8>, i: int)
    requires
        is_first_match(bindings, bytes, i),
    ensures
        decoded(bindings, bytes) == Ok::<(InstructionView, nat), DecodeError>(
            (instruction_of(bindings[i], bytes), bindings[i].pattern@.len()),
        ),
        bindings[i].pattern@.len() <= bytes.len(),
        instruction_of(bindings[i], bytes).operands.len() == bindings[i].operand_types@.len(),
{
    lemma_first_match_is_least(bindings, bytes, i);
}

/// A decoded instruction of a valid table has one operand for each field
/// of its variant.
pub proof fn lemma_decoded_operand_count(bindings: Seq<Binding>, bytes: Seq<u8>)
    requires
        all_consistent(bindings),
        decoded(bindings, bytes) is Ok,
    ensures
        first_match(bindings, bytes) matches Some(i) && decoded(bindings, bytes)->Ok_0.0.operands.len()
            == bindings[i].fields@.len(),
{
}

/// Input that ends inside an instruction is reported as truncated: where
/// no pattern matches and the binding at `i` agrees with all the bytes
/// there are but has more slots, decoding fails with `TruncatedInput`.
pub proof fn lemma_cut_short_is_truncated(bindings: Seq<Binding>, bytes: Seq<u8>, i: int)
    requires
        0 <= i < bindings.len(),
        pattern_cut_short(bindings[i].pattern@, bytes),
        forall|k: int|
            0 <= k < bindings.len() ==> !pattern_matches((#[trigger] bindings[k]).pattern@, bytes),
    ensures
        decoded(bindings, bytes) == Err::<(InstructionView, nat), DecodeError>(
            DecodeError::TruncatedInput,
        ),
{
}

/// Where no pattern matches and none is cut short, the opcode is unknown.
pub proof fn lemma_no_match_is_unknown(bindings: Seq<Binding>, bytes: Seq<u8>)
    requires
        forall|k: int|
            0 <= k < bindings.len() ==> !pattern_matches((#[trigger] bindings[k]).pattern@, bytes),
        forall|k: int|
            0 <= k < bindings.len() ==> !pattern_cut_short(
                (#[trigger] bindings[k]).pattern@,
                bytes,
            ),
    ensures
        decoded(bindings, bytes) == Err::<(InstructionView, nat), DecodeError>(
            DecodeError::UnknownOpcode,
        ),
{
}

} // verus!
