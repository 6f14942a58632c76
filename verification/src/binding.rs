//! Bindings and the table that holds them: checking a binding against the
//! shape of its variant, and finding the binding that matches a byte slice.

use crate::operand::{kind_of, operand_fits, OperandKind, OperandType, TargetType};
use vstd::prelude::*;

verus! {

/// One position of a byte pattern.
#[derive(Clone, Copy, Debug, PartialEq, Eq, Structural)]
pub enum Slot {
    /// Matches this byte only.
    Literal(u8),
    /// Matches any byte: the place of an immediate.
    Wildcard,
}

/// One rule of an instruction set: the bytes that select an instruction
/// variant, and the types of its operands.
#[derive(Clone, Debug, PartialEq, Eq)]
pub struct Binding {
    /// The name of the instruction variant.
    pub variant: String,
    /// The declared types of the variant's fields, in order.
    pub fields: Vec<TargetType>,
    /// The byte pattern.
    pub pattern: Vec<Slot>,
    /// The operand types, one for each field.
    pub operand_types: Vec<OperandType>,
}

/// The ways in which a binding can disagree with the shape of its variant
/// or with its own pattern.
#[derive(Clone, Copy, Debug, PartialEq, Eq, Structural)]
pub enum Inconsistency {
    /// The number of operand types is not the number of fields.
    OperandCount,
    /// An immediate would read a byte that the pattern does not have.
    MissingSlot,
}

/// Why a table could not be built: the declaration at `index`, the first
/// that is inconsistent, and what is wrong with it.
#[derive(Clone, Copy, Debug, PartialEq, Eq, Structural)]
pub struct InconsistentBinding {
    pub index: usize,
    pub reason: Inconsistency,
}

/// The validated bindings of one instruction set, in declaration order.
///
/// A table is made by `build` only, and is not changed afterwards: every
/// binding in it is consistent.
#[derive(Debug)]
pub struct BindingTable {
    bindings: Vec<Binding>,
}

/// Whether `slot` matches `byte`.
pub open spec fn slot_accepts(slot: Slot, byte: u8) -> bool {
    match slot {
        Slot::Literal(value) => value == byte,
        Slot::Wildcard => true,
    }
}

/// Whether the first `upto` slots of `pattern` match the bytes at their
/// positions.
pub open spec fn pattern_agrees(pattern: Seq<Slot>, bytes: Seq<u8>, upto: int) -> bool {
    forall|j: int| 0 <= j < upto ==> #[trigger] slot_accepts(pattern[j], bytes[j])
}

/// Whether `pattern` matches the front of `bytes`: the bytes are at least
/// as many as the slots, and every slot matches its byte.
pub open spec fn pattern_matches(pattern: Seq<Slot>, bytes: Seq<u8>) -> bool {
    pattern.len() <= bytes.len() && pattern_agrees(pattern, bytes, pattern.len() as int)
}

/// Whether `bytes` ends too early for `pattern`: every byte that is there
/// matches its slot, but the pattern has more slots.
pub open spec fn pattern_cut_short(pattern: Seq<Slot>, bytes: Seq<u8>) -> bool {
    pattern.len() > bytes.len() && pattern_agrees(pattern, bytes, bytes.len() as int)
}

/// What is wrong with the operand at position `i` of `binding`, if anything.
pub open spec fn operand_fault(binding: Binding, i: int) -> Option<Inconsistency> {
    let kind = kind_of(binding.operand_types@[i]);
    if (kind == OperandKind::Imm8 && i >= binding.pattern@.len()) || (kind == OperandKind::Imm16
        && i + 1 >= binding.pattern@.len()) {
        Some(Inconsistency::MissingSlot)
    } else {
        None
    }
}

/// Whether the pattern of `binding` has every slot that its immediates
/// read.
pub open spec fn slots_present(binding: Binding) -> bool {
    forall|i: int|
        0 <= i < binding.operand_types@.len() ==> operand_fits(
            #[trigger] binding.operand_types@[i],
            i,
            binding.pattern@.len() as int,
        )
}

/// A binding is consistent when it has one operand type for each field of
/// its variant, and the bytes that its immediates read are slots of its
/// pattern. The types of the fields play no part.
pub open spec fn consistent(binding: Binding) -> bool {
    binding.operand_types@.len() == binding.fields@.len() && slots_present(binding)
}

/// Whether `reason` is what is wrong with `binding`: the operand count if
/// it differs from the field count, else the fault of the first operand
/// that has one.
pub open spec fn inconsistent_for(binding: Binding, reason: Inconsistency) -> bool {
    if binding.operand_types@.len() != binding.fields@.len() {
        reason == Inconsistency::OperandCount
    } else {
        exists|i: int|
            {
                &&& 0 <= i < binding.operand_types@.len()
                &&& #[trigger] operand_fault(binding, i) == Some(reason)
                &&& forall|k: int| 0 <= k < i ==> #[trigger] operand_fault(binding, k) is None
            }
    }
}

/// Whether every binding of the sequence is consistent.
pub open spec fn all_consistent(bindings: Seq<Binding>) -> bool {
    forall|i: int| 0 <= i < bindings.len() ==> consistent(#[trigger] bindings[i])
}

/// Whether the binding at position `i` matches `bytes` and none before it
/// does.
pub open spec fn is_first_match(bindings: Seq<Binding>, bytes: Seq<u8>, i: int) -> bool {
    &&& 0 <= i < bindings.len()
    &&& pattern_matches(bindings[i].pattern@, bytes)
    &&& forall|k: int| 0 <= k < i ==> !pattern_matches((#[trigger] bindings[k]).pattern@, bytes)
}

/// The position of the first binding, in declaration order, whose pattern
/// matches the front of `bytes`.
pub open spec fn first_match(bindings: Seq<Binding>, bytes: Seq<u8>) -> Option<int> {
    if exists|i: int| is_first_match(bindings, bytes, i) {
        Some(choose|i: int| is_first_match(bindings, bytes, i))
    } else {
        None
    }
}

/// Whether some binding is cut short by the end of `bytes`: it agrees with
/// every byte there is, and would need more.
pub open spec fn any_cut_short(bindings: Seq<Binding>, bytes: Seq<u8>) -> bool {
    exists|i: int|
        0 <= i < bindings.len() && pattern_cut_short((#[trigger] bindings[i]).pattern@, bytes)
}

impl Slot {
    /// Whether this slot matches `byte`.
    pub fn accepts(&self, byte: u8) -> (r: bool)
        ensures
            r == slot_accepts(*self, byte),
    {
        match self {
            Slot::Literal(value) => *value == byte,
            Slot::Wildcard => true,
        }
    }
}

/// Whether the first `upto` slots match their bytes.
fn agrees(pattern: &[Slot], bytes: &[u8], upto: usize) -> (r: bool)
    requires
        upto <= pattern@.len(),
        upto <= bytes@.len(),
    ensures
        r == pattern_agrees(pattern@, bytes@, upto as int),
{
    let mut j: usize = 0;
    while j < upto
        invariant
            j <= upto,
            upto <= pattern@.len(),
            upto <= bytes@.len(),
            pattern_agrees(pattern@, bytes@, j as int),
        decreases upto - j,
    {
        if !pattern[j].accepts(bytes[j]) {
            assert(!slot_accepts(pattern@[j as int], bytes@[j as int]));
            return false;
        }
        j += 1;
    }
    true
}

impl Binding {
    /// Whether the pattern matches the front of `bytes`. Literal slots are
    /// compared with their bytes; wildcard slots match any byte.
    pub fn matches(&self, bytes: &[u8]) -> (r: bool)
        ensures
            r == pattern_matches(self.pattern@, bytes@),
    {
        let n = self.pattern.len();
        n <= bytes.len() && agrees(self.pattern.as_slice(), bytes, n)
    }

    /// Whether `bytes` ends before the pattern does, and matches as far as
    /// it goes.
    pub fn cut_short(&self, bytes: &[u8]) -> (r: bool)
        ensures
            r == pattern_cut_short(self.pattern@, bytes@),
    {
        let n = bytes.len();
        self.pattern.len() > n && agrees(self.pattern.as_slice(), bytes, n)
    }

    /// Validates the binding against the shape of its variant.
    ///
    /// It must have as many operand types as the variant has fields, and
    /// the bytes that an immediate reads must be slots of the pattern.
    /// Nothing else is asked: an operand may go into a field of any type.
    pub fn validate(&self) -> (result: Result<(), Inconsistency>)
        ensures
            result is Ok <==> consistent(*self),
            result matches Err(reason) ==> inconsistent_for(*self, reason),
    {
        let n = self.operand_types.len();
        if n != self.fields.len() {
            return Err(Inconsistency::OperandCount);
        }
        let slots = self.pattern.len();
        let mut i: usize = 0;
        while i < n
            invariant
                i <= n,
                n == self.operand_types@.len(),
                n == self.fields@.len(),
                slots == self.pattern@.len(),
                forall|k: int| 0 <= k < i ==> #[trigger] operand_fault(*self, k) is None,
            decreases n - i,
        {
            let kind = self.operand_types[i].kind();
            let fault = if (kind == OperandKind::Imm8 && i >= slots) || (kind == OperandKind::Imm16
                && i + 1 >= slots) {
                Some(Inconsistency::MissingSlot)
            } else {
                None
            };
            assert(fault == operand_fault(*self, i as int));
            if let Some(reason) = fault {
                assert(!operand_fits(
                    self.operand_types@[i as int],
                    i as int,
                    self.pattern@.len() as int,
                ));
                return Err(reason);
            }
            i += 1;
        }
        assert forall|k: int| 0 <= k < self.operand_types@.len() implies operand_fits(
            #[trigger] self.operand_types@[k],
            k,
            self.pattern@.len() as int,
        ) by {
            assert(operand_fault(*self, k) is None);
        }
        Ok(())
    }
}

impl View for BindingTable {
    type V = Seq<Binding>;

    closed spec fn view(&self) -> Seq<Binding> {
        self.bindings@
    }
}

impl BindingTable {
    #[verifier::type_invariant]
    spec fn only_consistent(&self) -> bool {
        all_consistent(self.bindings@)
    }

    /// Builds the table of an instruction set from its declarations.
    ///
    /// The table holds every declaration, in the order given, if all of them
    /// are consistent. Otherwise no table is built, and the error names the
    /// first inconsistent declaration.
    pub fn build(declarations: Vec<Binding>) -> (result: Result<BindingTable, InconsistentBinding>)
        ensures
            result is Ok <==> all_consistent(declarations@),
            result matches Ok(table) ==> table@ == declarations@,
            result matches Err(error) ==> {
                &&& error.index < declarations@.len()
                &&& forall|k: int| 0 <= k < error.index ==> consistent(#[trigger] declarations@[k])
                &&& inconsistent_for(declarations@[error.index as int], error.reason)
                &&& !consistent(declarations@[error.index as int])
            },
    {
        let mut index: usize = 0;
        while index < declarations.len()
            invariant
                index <= declarations@.len(),
                forall|k: int| 0 <= k < index ==> consistent(#[trigger] declarations@[k]),
            decreases declarations@.len() - index,
        {
            if let Err(reason) = declarations[index].validate() {
                return Err(InconsistentBinding { index, reason });
            }
            index += 1;
        }
        Ok(BindingTable { bindings: declarations })
    }

    /// The bindings of the table, in declaration order. Each of them is
    /// consistent.
    pub fn bindings(&self) -> (bindings: &Vec<Binding>)
        ensures
            bindings@ == self@,
            all_consistent(self@),
    {
        proof {
            use_type_invariant(self);
        }
        &self.bindings
    }

    /// Finds the binding that decodes the front of `bytes`, and the number
    /// of bytes that it takes.
    ///
    /// Bindings are tried in declaration order and the first whose pattern
    /// matches wins. `None` means that no pattern matches.
    pub fn find_match(&self, bytes: &[u8]) -> (found: Option<(&Binding, usize)>)
        ensures
            match found {
                Some((binding, consumed)) => {
                    &&& first_match(self@, bytes@) matches Some(i)
                    &&& *binding == self@[i]
                    &&& consumed == binding.pattern@.len()
                    &&& consistent(*binding)
                },
                None => first_match(self@, bytes@) is None,
            },
    {
        proof {
            use_type_invariant(self);
        }
        let mut i: usize = 0;
        while i < self.bindings.len()
            invariant
                i <= self.bindings@.len(),
                all_consistent(self.bindings@),
                forall|k: int|
                    0 <= k < i ==> !pattern_matches((#[trigger] self.bindings@[k]).pattern@, bytes@),
            decreases self.bindings@.len() - i,
        {
            let binding = &self.bindings[i];
            if binding.matches(bytes) {
                proof {
                    lemma_first_match_is_least(self@, bytes@, i as int);
                }
                return Some((binding, binding.pattern.len()));
            }
            i += 1;
        }
        None
    }
}

/// Every binding of a valid table has as many operand types as its variant
/// has fields.
pub proof fn lemma_operand_count_is_field_count(bindings: Seq<Binding>, i: int)
    requires
        all_consistent(bindings),
        0 <= i < bindings.len(),
    ensures
        bindings[i].operand_types@.len() == bindings[i].fields@.len(),
{
}

/// A binding whose operand count differs from the field count of its
/// variant is inconsistent, and for that reason.
pub proof fn lemma_count_mismatch_is_inconsistent(binding: Binding)
    requires
        binding.operand_types@.len() != binding.fields@.len(),
    ensures
        !consistent(binding),
        forall|reason: Inconsistency|
            inconsistent_for(binding, reason) <==> reason == Inconsistency::OperandCount,
{
}

/// Where the pattern has every slot that the immediates read, the operand
/// count alone decides: the binding is consistent exactly when it has as
/// many operand types as its variant has fields, whatever the types of the
/// fields are.
pub proof fn lemma_count_alone_decides(binding: Binding)
    requires
        slots_present(binding),
    ensures
        consistent(binding) <==> binding.operand_types@.len() == binding.fields@.len(),
        forall|reason: Inconsistency|
            inconsistent_for(binding, reason) ==> reason == Inconsistency::OperandCount,
{
    assert forall|reason: Inconsistency| inconsistent_for(binding, reason) implies reason
        == Inconsistency::OperandCount by {
        if binding.operand_types@.len() == binding.fields@.len() {
            let i = choose|i: int|
                {
                    &&& 0 <= i < binding.operand_types@.len()
                    &&& #[trigger] operand_fault(binding, i) == Some(reason)
                    &&& forall|k: int| 0 <= k < i ==> #[trigger] operand_fault(binding, k) is None
                };
            assert(operand_fits(binding.operand_types@[i], i, binding.pattern@.len() as int));
        }
    }
}

/// A binding has at most one reason to be inconsistent, and it has one
/// exactly when it is not consistent.
pub proof fn lemma_reason_is_unique(binding: Binding, a: Inconsistency, b: Inconsistency)
    requires
        inconsistent_for(binding, a),
        inconsistent_for(binding, b),
    ensures
        a == b,
        !consistent(binding),
{
    if binding.operand_types@.len() == binding.fields@.len() {
        let i = choose|i: int|
            {
                &&& 0 <= i < binding.operand_types@.len()
                &&& #[trigger] operand_fault(binding, i) == Some(a)
                &&& forall|k: int| 0 <= k < i ==> #[trigger] operand_fault(binding, k) is None
            };
        let j = choose|j: int|
            {
                &&& 0 <= j < binding.operand_types@.len()
                &&& #[trigger] operand_fault(binding, j) == Some(b)
                &&& forall|k: int| 0 <= k < j ==> #[trigger] operand_fault(binding, k) is None
            };
        assert(i == j);
        assert(!operand_fits(binding.operand_types@[i], i, binding.pattern@.len() as int));
    }
}

/// The first match is the binding at `i` exactly when the binding at `i`
/// matches and none before it does.
pub proof fn lemma_first_match_is_least(bindings: Seq<Binding>, bytes: Seq<u8>, i: int)
    ensures
        first_match(bindings, bytes) == Some(i) <==> is_first_match(bindings, bytes, i),
{
    if is_first_match(bindings, bytes, i) {
        let c = choose|c: int| is_first_match(bindings, bytes, c);
        assert(is_first_match(bindings, bytes, c));
        if c < i {
            assert(!pattern_matches(bindings[c].pattern@, bytes));
        }
        if i < c {
            assert(!pattern_matches(bindings[i].pattern@, bytes));
        }
    }
}

/// Where some binding matches, there is a first match, and it is that
/// binding or an earlier one.
pub proof fn lemma_match_gives_first_match(bindings: Seq<Binding>, bytes: Seq<u8>, i: int)
    requires
        0 <= i < bindings.len(),
        pattern_matches(bindings[i].pattern@, bytes),
    ensures
        first_match(bindings, bytes) matches Some(k) && k <= i && is_first_match(
            bindings,
            bytes,
            k,
        ),
    decreases i,
{
    if exists|k: int| 0 <= k < i && pattern_matches((#[trigger] bindings[k]).pattern@, bytes) {
        let k = choose|k: int|
            0 <= k < i && pattern_matches((#[trigger] bindings[k]).pattern@, bytes);
        lemma_match_gives_first_match(bindings, bytes, k);
    } else {
        assert(is_first_match(bindings, bytes, i));
        lemma_first_match_is_least(bindings, bytes, i);
    }
}

/// Declaration order decides: of two bindings that both match the same
/// bytes, the later one never wins.
pub proof fn lemma_earlier_binding_wins(bindings: Seq<Binding>, bytes: Seq<u8>, i: int, j: int)
    requires
        0 <= i < j < bindings.len(),
        pattern_matches(bindings[i].pattern@, bytes),
        pattern_matches(bindings[j].pattern@, bytes),
    ensures
        first_match(bindings, bytes) matches Some(k) && k <= i,
        first_match(bindings, bytes) != Some(j),
{
    lemma_match_gives_first_match(bindings, bytes, i);
}

} // verus!
