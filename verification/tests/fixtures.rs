use verifier_lib::fixtures::{
    and_directory, and_file_name, and_fixture, blake2s_directory, blake2s_empty_file_name,
    blake2s_empty_fixture, blake2s_with_inputs_file_name, blake2s_with_inputs_fixture,
    brillig_opcodes_directory, fixture_file_name, function_input_constant_file_name,
    function_input_constant_fixture, function_input_directory,
    function_input_witness_file_name, function_input_witness_fixture, memory_op_directory,
    memory_op_with_predicate_file_name, memory_op_with_predicate_fixture,
    memory_op_without_predicate_file_name, memory_op_without_predicate_fixture,
};

fn word(n: u32) -> Vec<u8> {
    n.to_le_bytes().to_vec()
}

fn long_word(n: u64) -> Vec<u8> {
    n.to_le_bytes().to_vec()
}

/// A field element is written as a string: its length in eight bytes, then
/// the 64 hexadecimal digits of the value.
fn field(hex_tail: &str) -> Vec<u8> {
    let mut digits = "0".repeat(64 - hex_tail.len());
    digits.push_str(hex_tail);
    let mut out = long_word(64);
    out.extend_from_slice(digits.as_bytes());
    out
}

/// An expression that is a constant: no multiplication terms, no linear
/// terms, the constant.
fn constant(hex_tail: &str) -> Vec<u8> {
    let mut out = long_word(0);
    out.extend(long_word(0));
    out.extend(field(hex_tail));
    out
}

#[test]
fn and_call_is_encoded_field_by_field() {
    let mut expected = word(1);
    expected.extend(word(1234));
    expected.extend(word(5678));
    expected.extend(word(2345));
    expected.extend(word(5678));
    expected.extend(word(3456));
    assert_eq!(and_fixture(), Some(expected));
}

#[test]
fn blake2s_call_without_inputs() {
    let mut expected = word(5);
    expected.extend(long_word(0));
    for _ in 0..32 {
        expected.extend(word(0));
    }
    assert_eq!(expected.len(), 140);
    assert_eq!(blake2s_empty_fixture(), Some(expected));
}

#[test]
fn blake2s_call_with_two_inputs() {
    let mut expected = word(5);
    expected.extend(long_word(2));
    expected.extend(word(1234));
    expected.extend(word(8));
    expected.extend(word(5678));
    expected.extend(word(8));
    for _ in 0..32 {
        expected.extend(word(1234));
    }
    assert_eq!(blake2s_with_inputs_fixture(), Some(expected));
}

#[test]
fn function_inputs_are_encoded() {
    let mut witness = word(1234);
    witness.extend(word(32));
    assert_eq!(function_input_witness_fixture(), Some(witness));
    assert_eq!(function_input_constant_fixture(), Some(field("04d2")));
}

#[test]
fn memory_operations_are_encoded() {
    let mut first = word(3);
    first.extend(word(0));
    first.extend(constant("01"));
    first.extend(constant("02"));
    first.extend(constant("03"));
    first.push(0);
    assert_eq!(memory_op_without_predicate_fixture(), Some(first));
    let mut second = word(3);
    second.extend(word(1));
    second.extend(constant("04"));
    second.extend(constant("05"));
    second.extend(constant("06"));
    second.push(0);
    assert_eq!(memory_op_with_predicate_fixture(), Some(second));
}

#[test]
fn fixtures_are_the_same_on_every_call() {
    assert_eq!(and_fixture(), and_fixture());
    assert_ne!(blake2s_empty_fixture(), blake2s_with_inputs_fixture());
    assert_ne!(memory_op_without_predicate_fixture(), memory_op_with_predicate_fixture());
}

#[test]
fn paths_are_joined_by_one_slash() {
    assert_eq!(fixture_file_name("out", "a.bin"), "out/a.bin");
    assert_eq!(fixture_file_name("", "a.bin"), "/a.bin");
    assert_eq!(fixture_file_name("out/", "a.bin"), "out//a.bin");
    assert_eq!(fixture_file_name("out", ""), "out/");
}

#[test]
fn fixture_directories() {
    assert_eq!(and_directory("root"), "root/and");
    assert_eq!(blake2s_directory("root"), "root/blake2s");
    assert_eq!(function_input_directory("root"), "root/function_input");
    assert_eq!(memory_op_directory("root"), "root/memory_op/");
    assert_eq!(brillig_opcodes_directory("root"), "root/opcodes/");
}

#[test]
fn fixture_file_names() {
    assert_eq!(and_file_name("d"), "d/and_test.bin");
    assert_eq!(blake2s_empty_file_name("d"), "d/blake2s_test_empty.bin");
    assert_eq!(blake2s_with_inputs_file_name("d"), "d/blake2s_test_with_inputs.bin");
    assert_eq!(function_input_constant_file_name("d"), "d/function_input_constant.bin");
    assert_eq!(function_input_witness_file_name("d"), "d/function_input_witness.bin");
    assert_eq!(
        memory_op_without_predicate_file_name("root/memory_op/"),
        "root/memory_op//memory_op_without_predicate.bin"
    );
    assert_eq!(memory_op_with_predicate_file_name("d"), "d/memory_op_with_predicate.bin");
}
