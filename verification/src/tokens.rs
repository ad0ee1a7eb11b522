//! Reads the signature cipher out of the YouTube player script: finds the
//! object that holds the cipher's primitive operations, learns which method
//! name stands for which operation, and turns the calls in the cipher
//! function into a list of [`SigAction`]s.

use vstd::prelude::*;
use crate::pattern::{
    Group, GroupView, Pattern, escape, escape_spec, group_text, group_text_at, regex_accepts, regex_captures,
    regex_captures_all,
};
use crate::signature::SigAction;
use crate::text::{join, join_spec, parse_usize, parse_usize_spec};

verus! {

/// The object literal that holds the cipher's operations; group 1 is its
/// name, group 2 its body.
pub const ACTIONS_OBJECT_PATTERN: &'static str = r"var ([a-zA-Z_\$][a-zA-Z_0-9]*)=\{((?:(?:[a-zA-Z_\$][a-zA-Z_0-9]*:function\(a\)\{(?:return )?a\.reverse\(\)\}|[a-zA-Z_\$][a-zA-Z_0-9]*:function\(a,b\)\{return a\.slice\(b\)\}|[a-zA-Z_\$][a-zA-Z_0-9]*:function\(a,b\)\{a\.splice\(0,b\)\}|[a-zA-Z_\$][a-zA-Z_0-9]*:function\(a,b\)\{var c=a\[0\];a\[0\]=a\[b%a\.length\];a\[b\]=c(?:;return a)?\}),?\n?)+)\};";

/// The cipher function; group 1 is the run of calls in its body.
pub const ACTIONS_FUNCTION_PATTERN: &'static str = r#"function(?: [a-zA-Z_\$][a-zA-Z_0-9]*)?\(a\)\{a=a\.split\(""\);\s*((?:(?:a=)?[a-zA-Z_\$][a-zA-Z_0-9]*\.[a-zA-Z_\$][a-zA-Z_0-9]*\(a,\d+\);)+)return a\.join\(""\)\}"#;

/// The method of the object that reverses; group 1 is its name.
pub const REVERSE_KEY_PATTERN: &'static str = r"(?m)(?:^|,)([a-zA-Z_\$][a-zA-Z_0-9]*):function\(a\)\{(?:return )?a\.reverse\(\)\}";

/// The method of the object that slices; group 1 is its name.
pub const SLICE_KEY_PATTERN: &'static str = r"(?m)(?:^|,)([a-zA-Z_\$][a-zA-Z_0-9]*):function\(a,b\)\{return a\.slice\(b\)\}";

/// The method of the object that splices; group 1 is its name.
pub const SPLICE_KEY_PATTERN: &'static str = r"(?m)(?:^|,)([a-zA-Z_\$][a-zA-Z_0-9]*):function\(a,b\)\{a\.splice\(0,b\)\}";

/// The method of the object that swaps; group 1 is its name.
pub const SWAP_KEY_PATTERN: &'static str = r"(?m)(?:^|,)([a-zA-Z_\$][a-zA-Z_0-9]*):function\(a,b\)\{var c=a\[0\];a\[0\]=a\[b%a\.length\];a\[b\]=c(?:;return a)?\}";

/// Text before the object name in the pattern of a cipher call.
pub const CALL_PREFIX: &'static str = "(?:a=)?";

/// Text between the object name and the alternation of method names.
pub const CALL_METHOD_OPEN: &'static str = "\\.(";

/// Text after the alternation of method names; its group is the count.
pub const CALL_SUFFIX: &'static str = ")\\(a,(\\d+)\\)";

/// Separator of the alternation of method names.
pub const ALTERNATION: &'static str = "|";

/// The method names that the operations of the cipher object go by; a name
/// is empty when the object has no such operation.
pub struct MethodKeys {
    pub reverse: String,
    pub slice: String,
    pub splice: String,
    pub swap: String,
}

/// The mathematical value of [`MethodKeys`].
pub ghost struct MethodKeysView {
    pub reverse: Seq<char>,
    pub slice: Seq<char>,
    pub splice: Seq<char>,
    pub swap: Seq<char>,
}

impl DeepView for MethodKeys {
    type V = MethodKeysView;

    open spec fn deep_view(&self) -> MethodKeysView {
        MethodKeysView {
            reverse: self.reverse@,
            slice: self.slice@,
            splice: self.splice@,
            swap: self.swap@,
        }
    }
}

/// The count of a call, group 2, as `str::parse::<usize>` reads it.
pub open spec fn call_count(call: Seq<Option<GroupView>>) -> Option<usize> {
    match group_text(call, 2) {
        Some(t) => parse_usize_spec(t),
        None => None,
    }
}

/// The actions that one call of the cipher function stands for: the method
/// name (group 1) is compared with each key in the order swap, reverse,
/// slice, splice, and every key it equals contributes its action. `None`
/// when the call has no name, or when a counted action needs a count that
/// does not parse.
pub open spec fn call_actions(call: Seq<Option<GroupView>>, keys: MethodKeysView) -> Option<
    Seq<SigAction>,
> {
    match group_text(call, 1) {
        None => None,
        Some(name) => {
            let counted = name == keys.swap || name == keys.slice || name == keys.splice;
            match call_count(call) {
                None => if counted {
                    None
                } else {
                    Some(
                        if name == keys.reverse {
                            seq![SigAction::Reverse]
                        } else {
                            Seq::<SigAction>::empty()
                        },
                    )
                },
                Some(c) => Some(
                    (if name == keys.swap {
                        seq![SigAction::Swap(c)]
                    } else {
                        Seq::<SigAction>::empty()
                    }) + (if name == keys.reverse {
                        seq![SigAction::Reverse]
                    } else {
                        Seq::<SigAction>::empty()
                    }) + (if name == keys.slice {
                        seq![SigAction::Slice(c)]
                    } else {
                        Seq::<SigAction>::empty()
                    }) + (if name == keys.splice {
                        seq![SigAction::Splice(c)]
                    } else {
                        Seq::<SigAction>::empty()
                    }),
                ),
            }
        },
    }
}

/// The actions of all calls, in order; `None` when some call fails.
pub open spec fn calls_actions(calls: Seq<Seq<Option<GroupView>>>, keys: MethodKeysView) -> Option<
    Seq<SigAction>,
>
    decreases calls.len(),
{
    if calls.len() == 0 {
        Some(Seq::<SigAction>::empty())
    } else {
        match (calls_actions(calls.drop_last(), keys), call_actions(calls.last(), keys)) {
            (Some(a), Some(b)) => Some(a + b),
            _ => None,
        }
    }
}

/// Turns the matched calls of the cipher function into actions.
pub fn actions_of_calls(calls: &Vec<Vec<Option<Group>>>, keys: &MethodKeys) -> (r: Option<
    Vec<SigAction>,
>)
    ensures
        r is Some <==> calls_actions(calls.deep_view(), keys.deep_view()) is Some,
        r matches Some(a) ==> a@ == calls_actions(calls.deep_view(), keys.deep_view())->0,
{
    let ghost kv = keys.deep_view();
    let mut acc: Vec<SigAction> = Vec::new();
    let mut i: usize = 0;
    while i < calls.len()
        invariant
            i <= calls.len(),
            kv == keys.deep_view(),
            calls_actions(calls.deep_view().take(i as int), kv) == Some(acc@),
        decreases calls.len() - i,
    {
        let ghost cv = calls[i as int].deep_view();
        assert(calls.deep_view().take(i + 1).drop_last() =~= calls.deep_view().take(i as int));
        assert(calls.deep_view().take(i + 1).last() == cv);
        let name = match group_text_at(&calls[i], 1) {
            Some(t) => t,
            None => {
                proof {
                    lemma_calls_actions_prefix_none(calls.deep_view(), kv, i + 1);
                }
                return None;
            },
        };
        let is_swap = name == keys.swap;
        let is_reverse = name == keys.reverse;
        let is_slice = name == keys.slice;
        let is_splice = name == keys.splice;
        let mut count: usize = 0;
        if is_swap || is_slice || is_splice {
            let parsed = match group_text_at(&calls[i], 2) {
                Some(t) => parse_usize(t.as_str()),
                None => None,
            };
            match parsed {
                Some(c) => {
                    count = c;
                },
                None => {
                    proof {
                        lemma_calls_actions_prefix_none(calls.deep_view(), kv, i + 1);
                    }
                    return None;
                },
            }
            assert(call_count(cv) == Some(count));
        }
        let ghost before = acc@;
        if is_swap {
            acc.push(SigAction::Swap(count));
        }
        if is_reverse {
            acc.push(SigAction::Reverse);
        }
        if is_slice {
            acc.push(SigAction::Slice(count));
        }
        if is_splice {
            acc.push(SigAction::Splice(count));
        }
        proof {
            let added = acc@.subrange(before.len() as int, acc@.len() as int);
            assert(acc@ =~= before + added);
            assert(call_actions(cv, kv) == Some(added)) by {
                if is_swap || is_slice || is_splice {
                    assert(added =~= (if is_swap {
                        seq![SigAction::Swap(count)]
                    } else {
                        Seq::<SigAction>::empty()
                    }) + (if is_reverse {
                        seq![SigAction::Reverse]
                    } else {
                        Seq::<SigAction>::empty()
                    }) + (if is_slice {
                        seq![SigAction::Slice(count)]
                    } else {
                        Seq::<SigAction>::empty()
                    }) + (if is_splice {
                        seq![SigAction::Splice(count)]
                    } else {
                        Seq::<SigAction>::empty()
                    }));
                } else {
                    assert(added =~= (if is_reverse {
                        seq![SigAction::Reverse]
                    } else {
                        Seq::<SigAction>::empty()
                    }));
                }
            }
        }
        i = i + 1;
    }
    assert(calls.deep_view().take(calls.len() as int) =~= calls.deep_view());
    Some(acc)
}

/// Once a prefix of the calls fails, the whole list fails.
proof fn lemma_calls_actions_prefix_none(calls: Seq<Seq<Option<GroupView>>>, keys: MethodKeysView, k: int)
    requires
        0 <= k <= calls.len(),
        calls_actions(calls.take(k), keys) is None,
    ensures
        calls_actions(calls, keys) is None,
    decreases calls.len(),
{
    if k < calls.len() {
        assert(calls.drop_last().take(k) =~= calls.take(k));
        lemma_calls_actions_prefix_none(calls.drop_last(), keys, k);
    } else {
        assert(calls.take(k) =~= calls);
    }
}

/// The escaped non-empty keys, in the order given.
pub open spec fn escaped_keys(keys: Seq<Seq<char>>) -> Seq<Seq<char>>
    decreases keys.len(),
{
    if keys.len() == 0 {
        Seq::<Seq<char>>::empty()
    } else {
        let prev = escaped_keys(keys.drop_last());
        if keys.last().len() > 0 {
            prev.push(escape_spec(keys.last()))
        } else {
            prev
        }
    }
}

/// The keys in the order reverse, slice, splice, swap.
pub open spec fn key_list(keys: MethodKeysView) -> Seq<Seq<char>> {
    seq![keys.reverse, keys.slice, keys.splice, keys.swap]
}

/// The pattern of a call of one of the object's methods: the object's name,
/// a dot, one of the non-empty method names (escaped) as group 1, and the
/// count as group 2.
pub open spec fn call_pattern_spec(obj: Seq<char>, keys: MethodKeysView) -> Seq<char> {
    CALL_PREFIX@ + obj + CALL_METHOD_OPEN@ + join_spec(escaped_keys(key_list(keys)), ALTERNATION@)
        + CALL_SUFFIX@
}

/// Builds the pattern of a call of one of the object's methods.
pub fn call_pattern(obj: &str, keys: &MethodKeys) -> (r: String)
    ensures
        r@ == call_pattern_spec(obj@, keys.deep_view()),
{
    let ghost kl = key_list(keys.deep_view());
    let ordered: [&String; 4] = [&keys.reverse, &keys.slice, &keys.splice, &keys.swap];
    let mut pipes: Vec<String> = Vec::new();
    let mut i: usize = 0;
    while i < 4
        invariant
            i <= 4,
            kl == key_list(keys.deep_view()),
            forall|k: int| 0 <= k < 4 ==> (#[trigger] ordered[k])@ == kl[k],
            pipes.deep_view() == escaped_keys(kl.take(i as int)),
        decreases 4 - i,
    {
        assert(kl.take(i + 1).drop_last() =~= kl.take(i as int));
        let key: &String = ordered[i];
        if key.unicode_len() > 0 {
            pipes.push(escape(key.as_str()));
        }
        assert(pipes.deep_view() =~= escaped_keys(kl.take(i + 1)));
        i = i + 1;
    }
    assert(kl.take(4) =~= kl);
    let mut r = String::from_str(CALL_PREFIX);
    r.append(obj);
    r.append(CALL_METHOD_OPEN);
    let alternation = join(&pipes, ALTERNATION);
    r.append(alternation.as_str());
    r.append(CALL_SUFFIX);
    r
}

/// The name of a method read from the object's body: group 1 of the first
/// match, the empty text when there is no match, `None` when a match lacks
/// the group.
pub open spec fn method_key_spec(found: Option<Seq<Option<GroupView>>>) -> Option<Seq<char>> {
    match found {
        Some(g) => group_text(g, 1),
        None => Some(Seq::<char>::empty()),
    }
}

/// Reads a method name from the result of a search for its definition.
pub fn method_key(found: &Option<Vec<Option<Group>>>) -> (r: Option<String>)
    ensures
        r.deep_view() == method_key_spec(found.deep_view()),
{
    match found {
        Some(g) => group_text_at(g, 1),
        None => Some(String::new()),
    }
}

/// All six fixed patterns compile.
pub open spec fn fixed_patterns_accepted() -> bool {
    &&& regex_accepts(ACTIONS_OBJECT_PATTERN@)
    &&& regex_accepts(ACTIONS_FUNCTION_PATTERN@)
    &&& regex_accepts(REVERSE_KEY_PATTERN@)
    &&& regex_accepts(SLICE_KEY_PATTERN@)
    &&& regex_accepts(SPLICE_KEY_PATTERN@)
    &&& regex_accepts(SWAP_KEY_PATTERN@)
}

/// The actions of the signature cipher in the player script `body`: the
/// cipher object and function are located, the method names are read from
/// the object, and each call in the function becomes its actions. `None`
/// exactly where a step finds nothing to work with: a pattern that does not
/// compile, an object or function that is not found, a missing group, or a
/// count that does not parse.
pub open spec fn tokens_spec(body: Seq<char>) -> Option<Seq<SigAction>> {
    if !fixed_patterns_accepted() {
        None
    } else {
        match (
            regex_captures(ACTIONS_OBJECT_PATTERN@, body),
            regex_captures(ACTIONS_FUNCTION_PATTERN@, body),
        ) {
            (Some(o), Some(f)) => match (group_text(o, 1), group_text(o, 2), group_text(f, 1)) {
                (Some(obj), Some(obj_body), Some(func_body)) => match (
                    method_key_spec(regex_captures(REVERSE_KEY_PATTERN@, obj_body)),
                    method_key_spec(regex_captures(SLICE_KEY_PATTERN@, obj_body)),
                    method_key_spec(regex_captures(SPLICE_KEY_PATTERN@, obj_body)),
                    method_key_spec(regex_captures(SWAP_KEY_PATTERN@, obj_body)),
                ) {
                    (Some(reverse), Some(slice), Some(splice), Some(swap)) => {
                        let keys = MethodKeysView { reverse, slice, splice, swap };
                        let pattern = call_pattern_spec(obj, keys);
                        if regex_accepts(pattern) {
                            calls_actions(regex_captures_all(pattern, func_body), keys)
                        } else {
                            None
                        }
                    },
                    _ => None,
                },
                _ => None,
            },
            _ => None,
        }
    }
}

fn compile(source: &str) -> (r: Option<Pattern>)
    ensures
        r is Some <==> regex_accepts(source@),
        r matches Some(p) ==> p@ == source@,
{
    match Pattern::new(source) {
        Ok(p) => Some(p),
        Err(_) => None,
    }
}

fn read_tokens(body: &str) -> (r: Option<Vec<SigAction>>)
    ensures
        r is Some <==> tokens_spec(body@) is Some,
        r matches Some(a) ==> a@ == tokens_spec(body@)->0,
{
    let obj_re = compile(ACTIONS_OBJECT_PATTERN);
    let func_re = compile(ACTIONS_FUNCTION_PATTERN);
    let reverse_re = compile(REVERSE_KEY_PATTERN);
    let slice_re = compile(SLICE_KEY_PATTERN);
    let splice_re = compile(SPLICE_KEY_PATTERN);
    let swap_re = compile(SWAP_KEY_PATTERN);
    let (obj_re, func_re, reverse_re, slice_re, splice_re, swap_re) = match (
        obj_re,
        func_re,
        reverse_re,
        slice_re,
        splice_re,
        swap_re,
    ) {
        (Some(a), Some(b), Some(c), Some(d), Some(e), Some(f)) => (a, b, c, d, e, f),
        _ => {
            return None;
        },
    };
    let obj_caps = match obj_re.captures(body) {
        Some(c) => c,
        None => {
            return None;
        },
    };
    let func_caps = match func_re.captures(body) {
        Some(c) => c,
        None => {
            return None;
        },
    };
    let (obj, obj_body, func_body) = match (
        group_text_at(&obj_caps, 1),
        group_text_at(&obj_caps, 2),
        group_text_at(&func_caps, 1),
    ) {
        (Some(a), Some(b), Some(c)) => (a, b, c),
        _ => {
            return None;
        },
    };
    let reverse = method_key(&reverse_re.captures(obj_body.as_str()));
    let slice = method_key(&slice_re.captures(obj_body.as_str()));
    let splice = method_key(&splice_re.captures(obj_body.as_str()));
    let swap = method_key(&swap_re.captures(obj_body.as_str()));
    let keys = match (reverse, slice, splice, swap) {
        (Some(reverse), Some(slice), Some(splice), Some(swap)) => MethodKeys {
            reverse,
            slice,
            splice,
            swap,
        },
        _ => {
            return None;
        },
    };
    let pattern = call_pattern(obj.as_str(), &keys);
    let call_re = match compile(pattern.as_str()) {
        Some(p) => p,
        None => {
            return None;
        },
    };
    let calls = call_re.captures_all(func_body.as_str());
    actions_of_calls(&calls, &keys)
}

/// The actions of the signature cipher in the player script `body`.
pub fn extract_tokens(body: &str) -> (r: Vec<SigAction>)
    requires
        tokens_spec(body@) is Some,
    ensures
        r@ == tokens_spec(body@)->0,
{
    match read_tokens(body) {
        Some(a) => a,
        None => Vec::new(),
    }
}

/// The actions of the signature cipher in the player script `body`, or
/// `None` where `extract_tokens` could not run (see [`tokens_spec`]).
pub fn try_extract_tokens(body: &str) -> (r: Option<Vec<SigAction>>)
    ensures
        r is Some <==> tokens_spec(body@) is Some,
        r matches Some(a) ==> a@ == tokens_spec(body@)->0,
{
    if read_tokens(body).is_some() {
        Some(extract_tokens(body))
    } else {
        None
    }
}

/// The calls of two lists, one after the other, give the actions of the
/// first list followed by those of the second; the whole fails exactly when
/// one of the parts fails.
pub proof fn lemma_calls_actions_concat(
    first: Seq<Seq<Option<GroupView>>>,
    second: Seq<Seq<Option<GroupView>>>,
    keys: MethodKeysView,
)
    ensures
        calls_actions(first + second, keys) == match (
            calls_actions(first, keys),
            calls_actions(second, keys),
        ) {
            (Some(a), Some(b)) => Some(a + b),
            _ => None::<Seq<SigAction>>,
        },
    decreases second.len(),
{
    if second.len() == 0 {
        assert(first + second =~= first);
        if let Some(a) = calls_actions(first, keys) {
            assert(a + Seq::<SigAction>::empty() =~= a);
        }
    } else {
        assert((first + second).drop_last() =~= first + second.drop_last());
        assert((first + second).last() == second.last());
        lemma_calls_actions_concat(first, second.drop_last(), keys);
        match (
            calls_actions(first, keys),
            calls_actions(second.drop_last(), keys),
            call_actions(second.last(), keys),
        ) {
            (Some(a), Some(b), Some(c)) => {
                assert(a + b + c =~= a + (b + c));
            },
            _ => {},
        }
    }
}

/// A single call gives exactly its own actions.
pub proof fn lemma_calls_actions_single(call: Seq<Option<GroupView>>, keys: MethodKeysView)
    ensures
        calls_actions(seq![call], keys) == call_actions(call, keys),
{
    reveal_with_fuel(calls_actions, 2);
    assert(seq![call].drop_last() =~= Seq::<Seq<Option<GroupView>>>::empty());
    if let Some(b) = call_actions(call, keys) {
        assert(Seq::<SigAction>::empty() + b =~= b);
    }
}

/// Appending one call appends its actions: the number of actions is the
/// sum over the calls.
pub proof fn lemma_calls_actions_push(
    calls: Seq<Seq<Option<GroupView>>>,
    call: Seq<Option<GroupView>>,
    keys: MethodKeysView,
)
    ensures
        calls_actions(calls.push(call), keys) == match (
            calls_actions(calls, keys),
            call_actions(call, keys),
        ) {
            (Some(a), Some(b)) => Some(a + b),
            _ => None::<Seq<SigAction>>,
        },
{
    assert(calls.push(call) =~= calls + seq![call]);
    lemma_calls_actions_concat(calls, seq![call], keys);
    lemma_calls_actions_single(call, keys);
}

/// A call contributes one action per key its name equals: a name equal to
/// no key contributes nothing, a name equal to the reverse key alone
/// contributes one reversal, and a name equal to the swap, slice or splice
/// key alone contributes that action with the call's count.
pub proof fn lemma_call_actions_by_key(
    call: Seq<Option<GroupView>>,
    keys: MethodKeysView,
    name: Seq<char>,
)
    requires
        group_text(call, 1) == Some(name),
    ensures
        name != keys.swap && name != keys.reverse && name != keys.slice && name != keys.splice
            ==> call_actions(call, keys) == Some(Seq::<SigAction>::empty()),
        name == keys.reverse && name != keys.swap && name != keys.slice && name != keys.splice
            ==> call_actions(call, keys) == Some(seq![SigAction::Reverse]),
        name == keys.swap && name != keys.reverse && name != keys.slice && name != keys.splice
            ==> call_actions(call, keys) == match call_count(call) {
            Some(c) => Some(seq![SigAction::Swap(c)]),
            None => None::<Seq<SigAction>>,
        },
        name == keys.slice && name != keys.reverse && name != keys.swap && name != keys.splice
            ==> call_actions(call, keys) == match call_count(call) {
            Some(c) => Some(seq![SigAction::Slice(c)]),
            None => None::<Seq<SigAction>>,
        },
        name == keys.splice && name != keys.reverse && name != keys.swap && name != keys.slice
            ==> call_actions(call, keys) == match call_count(call) {
            Some(c) => Some(seq![SigAction::Splice(c)]),
            None => None::<Seq<SigAction>>,
        },
{
    let e = Seq::<SigAction>::empty();
    if let Some(c) = call_count(call) {
        assert(e + e + e + e =~= e);
        assert(seq![SigAction::Swap(c)] + e + e + e =~= seq![SigAction::Swap(c)]);
        assert(e + seq![SigAction::Reverse] + e + e =~= seq![SigAction::Reverse]);
        assert(e + e + seq![SigAction::Slice(c)] + e =~= seq![SigAction::Slice(c)]);
        assert(e + e + e + seq![SigAction::Splice(c)] =~= seq![SigAction::Splice(c)]);
    }
}

/// A call without a method name fails.
pub proof fn lemma_call_without_name(call: Seq<Option<GroupView>>, keys: MethodKeysView)
    requires
        group_text(call, 1) is None,
    ensures
        call_actions(call, keys) is None,
{
}

} // verus!
