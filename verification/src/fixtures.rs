//! Encoded circuit fixtures: one ACIR value each, in the fixed-width
//! little-endian encoding of `bincode`, and the names of the files that hold
//! them.
//!
//! The encodings are computed by `acir`'s serialisation and `bincode`; each
//! is known here by name, as a function of the numbers that the value is
//! built from.
use crate::encoding::output_record;
use vstd::prelude::*;
use vstd::string::*;

verus! {

/// The width, in bits, of one input of the Blake2s fixtures: the hash takes
/// bytes.
pub const BLAKE2S_INPUT_BITS: u32 = 8;

/// The width, in bits, of the witness of the function-input fixture.
pub const FUNCTION_INPUT_BITS: u32 = 32;

/// The encoding of an `AND` call between the witnesses `lhs` and `rhs`, both
/// `num_bits` wide, with its result in the witness `output`; `None` where the
/// encoder fails.
pub uninterp spec fn and_call_encoding(lhs: u32, rhs: u32, num_bits: u32, output: u32) -> Option<
    Seq<u8>,
>;

/// The encoding of a `Blake2s` call on the witnesses `inputs`, each
/// `input_bits` wide, with every one of its 32 outputs in the witness
/// `output`; `None` where the encoder fails.
pub uninterp spec fn blake2s_call_encoding(inputs: Seq<u32>, input_bits: u32, output: u32) -> Option<
    Seq<u8>,
>;

/// The encoding of a function input that names the witness `witness`,
/// `num_bits` wide; `None` where the encoder fails.
pub uninterp spec fn function_input_encoding(witness: u32, num_bits: u32) -> Option<Seq<u8>>;

/// The encoding of the field element `value`; `None` where the encoder
/// fails.
pub uninterp spec fn field_constant_encoding(value: u128) -> Option<Seq<u8>>;

/// The encoding of a memory operation on the block `block` whose operation,
/// index and value are the constants given, without a predicate; `None`
/// where the encoder fails.
pub uninterp spec fn memory_op_encoding(block: u32, operation: u128, index: u128, value: u128) -> Option<
    Seq<u8>,
>;

/// Calls `bincode::serde::encode_to_vec` on `acir`'s `BlackBoxFuncCall::AND`
/// built from the four numbers. The contract claims only that the bytes are
/// a function of those numbers, named by [`and_call_encoding`].
#[verifier::external_body]
pub(crate) fn encode_and_call(lhs: u32, rhs: u32, num_bits: u32, output: u32) -> (out: Option<
    Vec<u8>,
>)
    ensures
        output_record(out) == and_call_encoding(lhs, rhs, num_bits, output),
{
    let call = acir::circuit::opcodes::BlackBoxFuncCall::AND {
        lhs: acir::circuit::opcodes::FunctionInput {
            witness: acir::native_types::Witness(lhs),
            num_bits,
        },
        rhs: acir::circuit::opcodes::FunctionInput {
            witness: acir::native_types::Witness(rhs),
            num_bits,
        },
        output: acir::native_types::Witness(output),
    };
    let config = bincode::config::standard().with_fixed_int_encoding().with_little_endian();
    bincode::serde::encode_to_vec(&call, config).ok()
}

/// Calls `bincode::serde::encode_to_vec` on `acir`'s
/// `BlackBoxFuncCall::Blake2s` built from the input witnesses, their width
/// and the output witness. The contract claims only that the bytes are a
/// function of those values, named by [`blake2s_call_encoding`].
#[verifier::external_body]
pub(crate) fn encode_blake2s_call(inputs: &[u32], input_bits: u32, output: u32) -> (out: Option<
    Vec<u8>,
>)
    ensures
        output_record(out) == blake2s_call_encoding(inputs@, input_bits, output),
{
    let mut witnesses = Vec::with_capacity(inputs.len());
    for witness in inputs {
        witnesses.push(
            acir::circuit::opcodes::FunctionInput {
                witness: acir::native_types::Witness(*witness),
                num_bits: input_bits,
            },
        );
    }
    let call = acir::circuit::opcodes::BlackBoxFuncCall::Blake2s {
        inputs: witnesses,
        outputs: Box::new([acir::native_types::Witness(output);32]),
    };
    let config = bincode::config::standard().with_fixed_int_encoding().with_little_endian();
    bincode::serde::encode_to_vec(&call, config).ok()
}

/// Calls `bincode::serde::encode_to_vec` on `acir`'s `FunctionInput` built
/// from the two numbers. The contract claims only that the bytes are a
/// function of those numbers, named by [`function_input_encoding`].
#[verifier::external_body]
pub(crate) fn encode_function_input(witness: u32, num_bits: u32) -> (out: Option<Vec<u8>>)
    ensures
        output_record(out) == function_input_encoding(witness, num_bits),
{
    let input = acir::circuit::opcodes::FunctionInput {
        witness: acir::native_types::Witness(witness),
        num_bits,
    };
    let config = bincode::config::standard().with_fixed_int_encoding().with_little_endian();
    bincode::serde::encode_to_vec(&input, config).ok()
}

/// Calls `bincode::serde::encode_to_vec` on `acir`'s `FieldElement` made
/// from the number. The contract claims only that the bytes are a function
/// of that number, named by [`field_constant_encoding`].
#[verifier::external_body]
pub(crate) fn encode_field_constant(value: u128) -> (out: Option<Vec<u8>>)
    ensures
        output_record(out) == field_constant_encoding(value),
{
    let constant = acir::FieldElement::from(value);
    let config = bincode::config::standard().with_fixed_int_encoding().with_little_endian();
    bincode::serde::encode_to_vec(&constant, config).ok()
}

/// Calls `bincode::serde::encode_to_vec` on `acir`'s `Opcode::MemoryOp`
/// built from the block number and three constant expressions. The contract
/// claims only that the bytes are a function of those numbers, named by
/// [`memory_op_encoding`].
#[verifier::external_body]
pub(crate) fn encode_memory_op(block: u32, operation: u128, index: u128, value: u128) -> (out:
    Option<Vec<u8>>)
    ensures
        output_record(out) == memory_op_encoding(block, operation, index, value),
{
    let opcode = acir::circuit::Opcode::MemoryOp {
        block_id: acir::circuit::opcodes::BlockId(block),
        op: acir::circuit::opcodes::MemOp {
            operation: acir::FieldElement::from(operation).into(),
            index: acir::FieldElement::from(index).into(),
            value: acir::FieldElement::from(value).into(),
        },
        predicate: None,
    };
    let config = bincode::config::standard().with_fixed_int_encoding().with_little_endian();
    bincode::serde::encode_to_vec(&opcode, config).ok()
}

/// The fixture of the `AND` call: witnesses 1234 and 2345, 5678 bits wide,
/// into witness 3456.
pub fn and_fixture() -> (out: Option<Vec<u8>>)
    ensures
        output_record(out) == and_call_encoding(1234, 2345, 5678, 3456),
{
    encode_and_call(1234, 2345, 5678, 3456)
}

/// The fixture of the `Blake2s` call without inputs: every output in
/// witness 0.
pub fn blake2s_empty_fixture() -> (out: Option<Vec<u8>>)
    ensures
        output_record(out) == blake2s_call_encoding(Seq::empty(), BLAKE2S_INPUT_BITS, 0),
{
    let inputs: Vec<u32> = Vec::new();
    encode_blake2s_call(inputs.as_slice(), BLAKE2S_INPUT_BITS, 0)
}

/// The fixture of the `Blake2s` call on the witnesses 1234 and 5678: every
/// output in witness 1234.
pub fn blake2s_with_inputs_fixture() -> (out: Option<Vec<u8>>)
    ensures
        output_record(out) == blake2s_call_encoding(
            seq![1234u32, 5678u32],
            BLAKE2S_INPUT_BITS,
            1234,
        ),
{
    let inputs: Vec<u32> = vec![1234u32, 5678u32];
    encode_blake2s_call(inputs.as_slice(), BLAKE2S_INPUT_BITS, 1234)
}

/// The fixture of a constant function input: the field element 1234.
pub fn function_input_constant_fixture() -> (out: Option<Vec<u8>>)
    ensures
        output_record(out) == field_constant_encoding(1234),
{
    encode_field_constant(1234)
}

/// The fixture of a witness function input: witness 1234.
pub fn function_input_witness_fixture() -> (out: Option<Vec<u8>>)
    ensures
        output_record(out) == function_input_encoding(1234, FUNCTION_INPUT_BITS),
{
    encode_function_input(1234, FUNCTION_INPUT_BITS)
}

/// The first fixture of a memory operation: block 0 with the constants 1, 2
/// and 3.
pub fn memory_op_without_predicate_fixture() -> (out: Option<Vec<u8>>)
    ensures
        output_record(out) == memory_op_encoding(0, 1, 2, 3),
{
    encode_memory_op(0, 1, 2, 3)
}

/// The second fixture of a memory operation: block 1 with the constants 4,
/// 5 and 6.
pub fn memory_op_with_predicate_fixture() -> (out: Option<Vec<u8>>)
    ensures
        output_record(out) == memory_op_encoding(1, 4, 5, 6),
{
    encode_memory_op(1, 4, 5, 6)
}

/// The name of `file` in the directory `dir`: the two joined by a slash,
/// with nothing taken from or added to either.
pub fn fixture_file_name(dir: &str, file: &str) -> (r: String)
    ensures
        r@ == dir@ + seq!['/'] + file@,
{
    let mut r = String::from_str(dir);
    r.append("/");
    r.append(file);
    proof {
        reveal_strlit("/");
        assert("/"@ =~= seq!['/']);
    }
    r
}

/// The directory of the `AND` fixture below `root`.
pub fn and_directory(root: &str) -> (r: String)
    ensures
        r@ == root@ + seq!['/'] + "and"@,
{
    fixture_file_name(root, "and")
}

/// The file of the `AND` fixture in `directory`.
pub fn and_file_name(directory: &str) -> (r: String)
    ensures
        r@ == directory@ + seq!['/'] + "and_test.bin"@,
{
    fixture_file_name(directory, "and_test.bin")
}

/// The directory of the `Blake2s` fixtures below `root`.
pub fn blake2s_directory(root: &str) -> (r: String)
    ensures
        r@ == root@ + seq!['/'] + "blake2s"@,
{
    fixture_file_name(root, "blake2s")
}

/// The file of the `Blake2s` fixture without inputs in `directory`.
pub fn blake2s_empty_file_name(directory: &str) -> (r: String)
    ensures
        r@ == directory@ + seq!['/'] + "blake2s_test_empty.bin"@,
{
    fixture_file_name(directory, "blake2s_test_empty.bin")
}

/// The file of the `Blake2s` fixture with inputs in `directory`.
pub fn blake2s_with_inputs_file_name(directory: &str) -> (r: String)
    ensures
        r@ == directory@ + seq!['/'] + "blake2s_test_with_inputs.bin"@,
{
    fixture_file_name(directory, "blake2s_test_with_inputs.bin")
}

/// The directory of the function-input fixtures below `root`.
pub fn function_input_directory(root: &str) -> (r: String)
    ensures
        r@ == root@ + seq!['/'] + "function_input"@,
{
    fixture_file_name(root, "function_input")
}

/// The file of the constant function-input fixture in `directory`.
pub fn function_input_constant_file_name(directory: &str) -> (r: String)
    ensures
        r@ == directory@ + seq!['/'] + "function_input_constant.bin"@,
{
    fixture_file_name(directory, "function_input_constant.bin")
}

/// The file of the witness function-input fixture in `directory`.
pub fn function_input_witness_file_name(directory: &str) -> (r: String)
    ensures
        r@ == directory@ + seq!['/'] + "function_input_witness.bin"@,
{
    fixture_file_name(directory, "function_input_witness.bin")
}

/// The directory of the memory-operation fixtures below `root`; the name
/// ends with a slash.
pub fn memory_op_directory(root: &str) -> (r: String)
    ensures
        r@ == root@ + seq!['/'] + "memory_op/"@,
{
    fixture_file_name(root, "memory_op/")
}

/// The file of the first memory-operation fixture in `directory`.
pub fn memory_op_without_predicate_file_name(directory: &str) -> (r: String)
    ensures
        r@ == directory@ + seq!['/'] + "memory_op_without_predicate.bin"@,
{
    fixture_file_name(directory, "memory_op_without_predicate.bin")
}

/// The file of the second memory-operation fixture in `directory`.
pub fn memory_op_with_predicate_file_name(directory: &str) -> (r: String)
    ensures
        r@ == directory@ + seq!['/'] + "memory_op_with_predicate.bin"@,
{
    fixture_file_name(directory, "memory_op_with_predicate.bin")
}

/// The directory of the machine-opcode fixtures below `root`; the name ends
/// with a slash.
pub fn brillig_opcodes_directory(root: &str) -> (r: String)
    ensures
        r@ == root@ + seq!['/'] + "opcodes/"@,
{
    fixture_file_name(root, "opcodes/")
}

} // verus!
