use ytdl_lib::{decipher, ActionToken, OperationKind};

fn tok(kind: OperationKind, operand: usize) -> ActionToken {
    ActionToken { kind, operand }
}

#[test]
fn reverse_scenario() {
    let tokens = vec![tok(OperationKind::Reverse, 0)];
    assert_eq!(decipher(&tokens, "ABCDEF"), "FEDCBA");
}

#[test]
fn swap_first_scenario() {
    let tokens = vec![tok(OperationKind::SwapFirst, 3)];
    assert_eq!(decipher(&tokens, "ABCDEF"), "DBCAEF");
}

#[test]
fn remove_prefix_scenario() {
    let tokens = vec![tok(OperationKind::RemovePrefix, 2)];
    assert_eq!(decipher(&tokens, "ABCDEF"), "CDEF");
}

#[test]
fn slice_from_scenario() {
    let tokens = vec![tok(OperationKind::SliceFrom, 2)];
    assert_eq!(decipher(&tokens, "ABCDEF"), "CDEF");
}

#[test]
fn reverse_then_remove_prefix_scenario() {
    let tokens = vec![tok(OperationKind::Reverse, 0), tok(OperationKind::RemovePrefix, 1)];
    assert_eq!(decipher(&tokens, "ABCDEF"), "EDCBA");
}

#[test]
fn reverse_twice_restores_the_buffer() {
    let tokens = vec![tok(OperationKind::Reverse, 0), tok(OperationKind::Reverse, 7)];
    assert_eq!(decipher(&tokens, "obfuscated"), "obfuscated");
}

#[test]
fn swap_first_twice_restores_the_buffer() {
    let tokens = vec![tok(OperationKind::SwapFirst, 4), tok(OperationKind::SwapFirst, 4)];
    assert_eq!(decipher(&tokens, "obfuscated"), "obfuscated");
}

#[test]
fn slice_from_length_law_examples() {
    // Length max(0, L - n): in range, at the boundary, and past the end.
    assert_eq!(decipher(&vec![tok(OperationKind::SliceFrom, 0)], "ABC"), "ABC");
    assert_eq!(decipher(&vec![tok(OperationKind::SliceFrom, 3)], "ABC"), "");
    assert_eq!(decipher(&vec![tok(OperationKind::SliceFrom, 10)], "ABC"), "");
}

#[test]
fn remove_prefix_length_law_examples() {
    assert_eq!(decipher(&vec![tok(OperationKind::RemovePrefix, 1)], "ABC"), "BC");
    assert_eq!(decipher(&vec![tok(OperationKind::RemovePrefix, 3)], "ABC"), "");
    // Out of range is defined to clamp to the empty buffer.
    assert_eq!(decipher(&vec![tok(OperationKind::RemovePrefix, 10)], "ABC"), "");
}

#[test]
fn swap_first_out_of_range_leaves_the_buffer() {
    assert_eq!(decipher(&vec![tok(OperationKind::SwapFirst, 10)], "ABC"), "ABC");
    assert_eq!(decipher(&vec![tok(OperationKind::SwapFirst, 0)], "ABC"), "ABC");
}

#[test]
fn replay_is_deterministic() {
    let tokens = vec![
        tok(OperationKind::Reverse, 0),
        tok(OperationKind::SwapFirst, 2),
        tok(OperationKind::SliceFrom, 1),
        tok(OperationKind::RemovePrefix, 1),
    ];
    let first = decipher(&tokens, "0A1B2C3D4E");
    let second = decipher(&tokens, "0A1B2C3D4E");
    assert_eq!(first, second);
}

#[test]
fn empty_token_sequence_is_identity() {
    let tokens: Vec<ActionToken> = vec![];
    assert_eq!(decipher(&tokens, "ABCDEF"), "ABCDEF");
}

#[test]
fn reverse_ignores_its_operand() {
    assert_eq!(
        decipher(&vec![tok(OperationKind::Reverse, 99)], "xyz"),
        decipher(&vec![tok(OperationKind::Reverse, 0)], "xyz"),
    );
}
