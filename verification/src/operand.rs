//! Operands: how a binding describes them and how their values are taken
//! from the bytes that matched.

use vstd::prelude::*;

verus! {

/// The categories of operand that the extractor knows.
#[derive(Clone, Copy, Debug, PartialEq, Eq, Structural)]
pub enum OperandKind {
    /// A constant that the binding fixes. No byte is read.
    Literal,
    /// One byte, read as signed or unsigned as the target type says.
    Imm8,
    /// Two bytes in a row, the first one the high byte.
    Imm16,
    /// Any other operand type. Its text is handed through unchanged.
    Opaque,
}

/// The declared type of the variant field that receives an operand.
///
/// For the 8-bit and 16-bit integer types the extractor converts the value
/// itself. For any other type it hands the value on as it was read, and the
/// caller converts it.
#[derive(Clone, Copy, Debug, PartialEq, Eq, Structural)]
pub enum TargetType {
    U8,
    I8,
    U16,
    I16,
    /// Any other type, wider integers among them.
    Other,
}

/// What a binding says of one operand.
#[derive(Clone, Debug, PartialEq, Eq)]
pub enum OperandType {
    /// A type marker as it was written: `nn` for a 16-bit immediate, `n` or
    /// `d` for an 8-bit immediate, any other text for an opaque operand.
    Marker(String),
    /// A constant that the binding fixes.
    Constant(u16),
}

/// The value of one decoded operand.
#[derive(Clone, Debug, PartialEq, Eq)]
pub enum OperandValue {
    U8(u8),
    I8(i8),
    U16(u16),
    I16(i16),
    /// The text of an opaque operand, as the binding gave it.
    Opaque(String),
}

/// The kind that a marker stands for: `nn` is a 16-bit immediate, `n` and
/// `d` are 8-bit immediates, everything else is opaque.
pub open spec fn marker_kind(marker: Seq<char>) -> OperandKind {
    if marker == seq!['n', 'n'] {
        OperandKind::Imm16
    } else if marker == seq!['n'] || marker == seq!['d'] {
        OperandKind::Imm8
    } else {
        OperandKind::Opaque
    }
}

/// The target type that a type name stands for.
pub open spec fn target_of_name(name: Seq<char>) -> TargetType {
    if name == seq!['u', '8'] {
        TargetType::U8
    } else if name == seq!['i', '8'] {
        TargetType::I8
    } else if name == seq!['u', '1', '6'] {
        TargetType::U16
    } else if name == seq!['i', '1', '6'] {
        TargetType::I16
    } else {
        TargetType::Other
    }
}

/// The kind of an operand type.
pub open spec fn kind_of(ty: OperandType) -> OperandKind {
    match ty {
        OperandType::Marker(text) => marker_kind(text@),
        OperandType::Constant(_) => OperandKind::Literal,
    }
}

/// Two bytes put together, `high` first.
pub open spec fn composed(high: u8, low: u8) -> int {
    high * 256 + low
}

/// An integer between -128 and 127 that is `value` modulo 256.
pub open spec fn wrapped_i8(value: int) -> int {
    if value % 256 >= 128 {
        value % 256 - 256
    } else {
        value % 256
    }
}

/// An integer between -32768 and 32767 that is `value` modulo 65536.
pub open spec fn wrapped_i16(value: int) -> int {
    if value % 65536 >= 32768 {
        value % 65536 - 65536
    } else {
        value % 65536
    }
}

/// A 16-bit `value` as the target type holds it: cut to the target's width
/// and read with the target's sign. For any other target the value stays
/// as it is, 16 bits wide and unsigned.
pub open spec fn converted(value: int, target: TargetType) -> OperandValue {
    match target {
        TargetType::U8 => OperandValue::U8((value % 256) as u8),
        TargetType::I8 => OperandValue::I8(wrapped_i8(value) as i8),
        TargetType::U16 => OperandValue::U16((value % 65536) as u16),
        TargetType::I16 => OperandValue::I16(wrapped_i16(value) as i16),
        TargetType::Other => OperandValue::U16((value % 65536) as u16),
    }
}

/// A byte as the target type holds it: read with the target's sign and
/// widened to the target's width. For any other target the byte stays as
/// it is, 8 bits wide and unsigned.
pub open spec fn converted_byte(value: u8, target: TargetType) -> OperandValue {
    match target {
        TargetType::Other => OperandValue::U8(value),
        _ => converted(value as int, target),
    }
}

/// Whether the operand at position `index` can be extracted from `len`
/// matched bytes: an opaque operand and a constant always, an immediate
/// when the bytes at `index` (and `index + 1` for 16 bits) are there.
pub open spec fn operand_fits(ty: OperandType, index: int, len: int) -> bool {
    match kind_of(ty) {
        OperandKind::Opaque => true,
        OperandKind::Literal => true,
        OperandKind::Imm8 => index < len,
        OperandKind::Imm16 => index + 1 < len,
    }
}

/// The value of the operand at position `index`, given the matched bytes.
pub open spec fn operand_value(
    ty: OperandType,
    target: TargetType,
    bytes: Seq<u8>,
    index: int,
) -> OperandValue {
    match ty {
        OperandType::Constant(value) => converted(value as int, target),
        OperandType::Marker(text) => match marker_kind(text@) {
            OperandKind::Imm16 => converted(composed(bytes[index], bytes[index + 1]), target),
            OperandKind::Imm8 => converted_byte(bytes[index], target),
            _ => OperandValue::Opaque(text),
        },
    }
}

/// The values of all operands of a binding, in declared order.
pub open spec fn extracted(
    bytes: Seq<u8>,
    operand_types: Seq<OperandType>,
    targets: Seq<TargetType>,
) -> Seq<OperandValue> {
    Seq::new(
        operand_types.len(),
        |i: int| operand_value(operand_types[i], targets[i], bytes, i),
    )
}

fn is_one(text: &str, a: char) -> (r: bool)
    ensures
        r == (text@ == seq![a]),
{
    if text.unicode_len() != 1 {
        return false;
    }
    let r = text.get_char(0) == a;
    assert(r ==> text@ =~= seq![a]);
    r
}

fn is_two(text: &str, a: char, b: char) -> (r: bool)
    ensures
        r == (text@ == seq![a, b]),
{
    if text.unicode_len() != 2 {
        return false;
    }
    let r = text.get_char(0) == a && text.get_char(1) == b;
    assert(r ==> text@ =~= seq![a, b]);
    r
}

fn is_three(text: &str, a: char, b: char, c: char) -> (r: bool)
    ensures
        r == (text@ == seq![a, b, c]),
{
    if text.unicode_len() != 3 {
        return false;
    }
    let r = text.get_char(0) == a && text.get_char(1) == b && text.get_char(2) == c;
    assert(r ==> text@ =~= seq![a, b, c]);
    r
}

impl OperandKind {
    /// Reads a marker: `nn` is a 16-bit immediate, `n` and `d` are 8-bit
    /// immediates, anything else is opaque.
    pub fn of_marker(marker: &str) -> (kind: OperandKind)
        ensures
            kind == marker_kind(marker@),
    {
        if is_two(marker, 'n', 'n') {
            OperandKind::Imm16
        } else if is_one(marker, 'n') || is_one(marker, 'd') {
            OperandKind::Imm8
        } else {
            OperandKind::Opaque
        }
    }
}

impl TargetType {
    /// Reads a type name: `u8`, `i8`, `u16` and `i16` are the types that
    /// the extractor converts to, anything else is `Other`.
    pub fn of_name(name: &str) -> (target: TargetType)
        ensures
            target == target_of_name(name@),
    {
        if is_two(name, 'u', '8') {
            TargetType::U8
        } else if is_two(name, 'i', '8') {
            TargetType::I8
        } else if is_three(name, 'u', '1', '6') {
            TargetType::U16
        } else if is_three(name, 'i', '1', '6') {
            TargetType::I16
        } else {
            TargetType::Other
        }
    }
}

impl OperandType {
    /// The kind of this operand: `Literal` for a constant, else what the
    /// marker says.
    pub fn kind(&self) -> (kind: OperandKind)
        ensures
            kind == kind_of(*self),
    {
        match self {
            OperandType::Marker(text) => OperandKind::of_marker(text.as_str()),
            OperandType::Constant(_) => OperandKind::Literal,
        }
    }
}

/// Puts two bytes together, `high` first: `(high << 8) | low`.
pub fn compose(high: u8, low: u8) -> (value: u16)
    ensures
        value == composed(high, low),
{
    let h: u16 = high as u16;
    let l: u16 = low as u16;
    assert((h << 8) | l == h * 256 + l) by (bit_vector)
        requires
            h < 256,
            l < 256,
    ;
    (h << 8) | l
}

/// Converts a 16-bit `value` to the target type as a cast does: the value
/// is cut to the target's width and read with the target's sign. No value
/// is out of range. For a target that is none of the four integer types
/// the value is handed on unchanged.
pub fn convert(value: u16, target: TargetType) -> (result: OperandValue)
    ensures
        result == converted(value as int, target),
{
    match target {
        TargetType::U8 => {
            let v: u8 = #[verifier::truncate] (value as u8);
            assert(v == value % 256) by (bit_vector)
                requires
                    v == value as u8,
            ;
            OperandValue::U8(v)
        },
        TargetType::I8 => {
            let v: i8 = #[verifier::truncate] (value as i8);
            assert(v == if value % 256 >= 128 {
                value % 256 - 256
            } else {
                (value % 256) as int
            }) by (bit_vector)
                requires
                    v == value as i8,
            ;
            OperandValue::I8(v)
        },
        TargetType::U16 => OperandValue::U16(value),
        TargetType::I16 => {
            let v: i16 = #[verifier::truncate] (value as i16);
            assert(v == if value >= 32768 {
                value - 65536
            } else {
                value as int
            }) by (bit_vector)
                requires
                    v == value as i16,
            ;
            OperandValue::I16(v)
        },
        TargetType::Other => OperandValue::U16(value),
    }
}

/// Converts a byte to the target type as a cast does: the byte is read
/// with the target's sign, and widened where the target is wider. For a
/// target that is none of the four integer types the byte is handed on
/// unchanged.
pub fn convert_byte(value: u8, target: TargetType) -> (result: OperandValue)
    ensures
        result == converted_byte(value, target),
{
    match target {
        TargetType::Other => OperandValue::U8(value),
        _ => convert(value as u16, target),
    }
}

/// The value of the operand at position `index`.
fn extract_one(matched: &[u8], ty: &OperandType, target: TargetType, index: usize) -> (value:
    OperandValue)
    requires
        operand_fits(*ty, index as int, matched@.len() as int),
    ensures
        value == operand_value(*ty, target, matched@, index as int),
{
    match ty {
        OperandType::Constant(value) => convert(*value, target),
        OperandType::Marker(text) => match OperandKind::of_marker(text.as_str()) {
            OperandKind::Imm16 => convert(compose(matched[index], matched[index + 1]), target),
            OperandKind::Imm8 => convert_byte(matched[index], target),
            _ => OperandValue::Opaque(text.clone()),
        },
    }
}

/// Takes the operand values of a matched binding out of the bytes that
/// matched, one per operand type and in their order.
///
/// The operand at position `i` reads the byte at position `i`, and a 16-bit
/// immediate the byte after it too. Those bytes must be there: that is what
/// a binding table has made sure of for its bindings.
pub fn extract(matched: &[u8], operand_types: &[OperandType], targets: &[TargetType]) -> (values:
    Vec<OperandValue>)
    requires
        operand_types@.len() == targets@.len(),
        forall|i: int|
            0 <= i < operand_types@.len() ==> operand_fits(
                #[trigger] operand_types@[i],
                i,
                matched@.len() as int,
            ),
    ensures
        values@ == extracted(matched@, operand_types@, targets@),
{
    let mut values: Vec<OperandValue> = Vec::new();
    let mut i: usize = 0;
    while i < operand_types.len()
        invariant
            i <= operand_types@.len(),
            operand_types@.len() == targets@.len(),
            forall|k: int|
                0 <= k < operand_types@.len() ==> operand_fits(
                    #[trigger] operand_types@[k],
                    k,
                    matched@.len() as int,
                ),
            values@.len() == i,
            forall|k: int|
                0 <= k < i ==> values@[k] == operand_value(
                    operand_types@[k],
                    targets@[k],
                    matched@,
                    k,
                ),
        decreases operand_types@.len() - i,
    {
        let value = extract_one(matched, &operand_types[i], targets[i], i);
        values.push(value);
        i += 1;
    }
    assert(values@ =~= extracted(matched@, operand_types@, targets@));
    values
}

} // verus!
