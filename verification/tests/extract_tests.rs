use ytdl_lib::{extract_actions, extract_version_id, ActionToken, ExtractError, OperationKind};

fn tok(kind: OperationKind, operand: usize) -> ActionToken {
    ActionToken { kind, operand }
}

// A synthetic player script holding the four canonical shapes under
// arbitrary minified keys, and a decipher function calling them in a
// specific order with specific operands.
const SCRIPT: &str = "some leading noise;var Ab={xY:function(a){a.reverse()},\"z9\":function(a,b){return a.slice(b)},$w:function(a,b){a.splice(0,b)},'Qr':function(a,b){var c=a[0];a[0]=a[b%a.length];a[b%a.length]=c}};function deci(a){a=a.split(\"\");a=Ab.$w(a,2);Ab[\"Qr\"](a,3);a=Ab['z9'](a,1);Ab.xY(a,0);return a.join(\"\")}trailing noise";

#[test]
fn extraction_reproduces_call_order_and_operands() {
    let tokens = extract_actions(SCRIPT).unwrap();
    assert_eq!(
        tokens,
        vec![
            tok(OperationKind::RemovePrefix, 2),
            tok(OperationKind::SwapFirst, 3),
            tok(OperationKind::SliceFrom, 1),
            tok(OperationKind::Reverse, 0),
        ],
    );
}

#[test]
fn extracted_tokens_decipher_a_signature() {
    let tokens = extract_actions(SCRIPT).unwrap();
    // "abcdefg": remove 2 -> "cdefg", swap 0/3 -> "fdecg",
    // slice from 1 -> "decg", reverse -> "gced".
    assert_eq!(ytdl_lib::decipher(&tokens, "abcdefg"), "gced");
}

#[test]
fn swap_shape_without_modulo_matches() {
    let script = "var o={k:function(a,b){var c=a[0];a[0]=a[b];a[b]=c;return a}};function(a){a=a.split('');o.k(a,1);return a.join('')}";
    let tokens = extract_actions(script).unwrap();
    assert_eq!(tokens, vec![tok(OperationKind::SwapFirst, 1)]);
}

#[test]
fn reverse_shape_with_return_matches() {
    let script = "var o={r:function(a){return a.reverse()}};function(a){a=a.split('');a=o.r(a,0);return a.join('')}";
    let tokens = extract_actions(script).unwrap();
    assert_eq!(tokens, vec![tok(OperationKind::Reverse, 0)]);
}

#[test]
fn missing_object_yields_object_not_found() {
    // No recognizable operations object: never an empty token sequence.
    let script = "nothing that looks like an operations object";
    assert_eq!(extract_actions(script), Err(ExtractError::ObjectNotFound));
}

#[test]
fn missing_function_yields_function_not_found() {
    let script = "var o={r:function(a){a.reverse()}}; no decipher function here";
    assert_eq!(extract_actions(script), Err(ExtractError::FunctionNotFound));
}

#[test]
fn calls_on_another_object_yield_pattern_mismatch() {
    // Both shapes match, but no call targets the operations object, so no
    // token can be derived and no empty sequence is returned.
    let script = "var o={r:function(a){a.reverse()}};function(a){a=a.split('');Zz.r(a,1);return a.join('')}";
    assert_eq!(extract_actions(script), Err(ExtractError::PatternMismatch));
}

#[test]
fn calls_under_unresolved_keys_yield_pattern_mismatch() {
    let script = "var o={r:function(a){a.reverse()}};function(a){a=a.split('');o.unknown(a,1);return a.join('')}";
    assert_eq!(extract_actions(script), Err(ExtractError::PatternMismatch));
}

#[test]
fn oversized_operand_yields_operand_parse_failure() {
    let script = "var o={r:function(a){a.reverse()}};function(a){a=a.split('');o.r(a,99999999999999999999999);return a.join('')}";
    assert_eq!(extract_actions(script), Err(ExtractError::OperandParseFailure));
}

#[test]
fn version_id_from_script_url() {
    assert_eq!(
        extract_version_id("/yts/jsbin/player-vfl49f_g4/en_US/base.js"),
        Some("vfl49f_g4".to_string()),
    );
    assert_eq!(
        extract_version_id("https://host/player_abc-123.js"),
        Some("abc-123".to_string()),
    );
}

#[test]
fn version_id_missing_marker() {
    assert_eq!(extract_version_id("/yts/jsbin/base.js"), None);
    assert_eq!(extract_version_id("player"), None);
    assert_eq!(extract_version_id("player-"), None);
}
