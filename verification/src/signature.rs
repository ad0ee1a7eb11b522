//! The signature cipher of the YouTube player: a list of actions, each of
//! which reverses, swaps or cuts the characters of a signature.

use vstd::prelude::*;
use crate::text::{chars_of, string_of};

verus! {

/// One step of the signature cipher.
#[derive(Debug, Clone, Copy, PartialEq, Eq)]
pub enum SigAction {
    /// Reverse the characters.
    Reverse,
    /// Swap the first character with the one at index `n % len`.
    Swap(usize),
    /// Drop the first `n` characters.
    Slice(usize),
    /// Drop the first `n` characters (the player's `splice(0, n)`).
    Splice(usize),
}

/// The action can be carried out on `sig` without failing: a swap needs a
/// character to swap, a cut needs at least as many characters as it drops.
pub open spec fn action_applies(sig: Seq<char>, a: SigAction) -> bool {
    match a {
        SigAction::Reverse => true,
        SigAction::Swap(_) => sig.len() > 0,
        SigAction::Slice(n) => n <= sig.len(),
        SigAction::Splice(n) => n <= sig.len(),
    }
}

/// The result of one action on `sig`.
pub open spec fn apply_action(sig: Seq<char>, a: SigAction) -> Seq<char> {
    match a {
        SigAction::Reverse => sig.reverse(),
        SigAction::Swap(n) => {
            let j = (n as int) % (sig.len() as int);
            sig.update(0, sig[j]).update(j, sig[0])
        },
        SigAction::Slice(n) => sig.skip(n as int),
        SigAction::Splice(n) => sig.skip(n as int),
    }
}

/// The actions, taken in order, transform `sig`.
pub open spec fn apply_actions(sig: Seq<char>, actions: Seq<SigAction>) -> Seq<char>
    decreases actions.len(),
{
    if actions.len() == 0 {
        sig
    } else {
        apply_action(apply_actions(sig, actions.drop_last()), actions.last())
    }
}

/// Every action, taken in order, applies to the signature it is given.
pub open spec fn actions_apply(sig: Seq<char>, actions: Seq<SigAction>) -> bool
    decreases actions.len(),
{
    if actions.len() == 0 {
        true
    } else {
        actions_apply(sig, actions.drop_last()) && action_applies(
            apply_actions(sig, actions.drop_last()),
            actions.last(),
        )
    }
}

/// A prefix of applicable actions is applicable.
proof fn lemma_actions_apply_prefix(sig: Seq<char>, actions: Seq<SigAction>, k: int)
    requires
        0 <= k <= actions.len(),
        actions_apply(sig, actions),
    ensures
        actions_apply(sig, actions.take(k)),
    decreases actions.len(),
{
    if k < actions.len() {
        assert(actions.drop_last().take(k) =~= actions.take(k));
        lemma_actions_apply_prefix(sig, actions.drop_last(), k);
    } else {
        assert(actions.take(k) =~= actions);
    }
}

/// The characters of `v` in reverse order.
fn reversed(v: &Vec<char>) -> (r: Vec<char>)
    ensures
        r@ == v@.reverse(),
{
    let mut r: Vec<char> = Vec::new();
    let mut i: usize = v.len();
    while i > 0
        invariant
            i <= v.len(),
            r@ == v@.skip(i as int).reverse(),
        decreases i,
    {
        i = i - 1;
        r.push(v[i]);
        assert(r@ =~= v@.skip(i as int).reverse());
    }
    assert(v@.skip(0) =~= v@);
    r
}

/// The characters of `v` from index `n` on.
fn suffix(v: &Vec<char>, n: usize) -> (r: Vec<char>)
    requires
        n <= v.len(),
    ensures
        r@ == v@.skip(n as int),
{
    let mut r: Vec<char> = Vec::new();
    let mut i: usize = n;
    while i < v.len()
        invariant
            n <= i <= v.len(),
            r@ == v@.subrange(n as int, i as int),
        decreases v.len() - i,
    {
        r.push(v[i]);
        i = i + 1;
        assert(r@ =~= v@.subrange(n as int, i as int));
    }
    assert(v@.subrange(n as int, v.len() as int) =~= v@.skip(n as int));
    r
}

/// Carries out one action on the characters of a signature.
fn apply_one(sig: Vec<char>, a: SigAction) -> (r: Vec<char>)
    requires
        action_applies(sig@, a),
    ensures
        r@ == apply_action(sig@, a),
{
    match a {
        SigAction::Reverse => reversed(&sig),
        SigAction::Swap(n) => {
            let mut sig = sig;
            let ghost old_sig = sig@;
            let len = sig.len();
            let j = n % len;
            let first = sig[0];
            let other = sig[j];
            sig.set(0, other);
            sig.set(j, first);
            assert(sig@ =~= old_sig.update(0, old_sig[j as int]).update(j as int, old_sig[0]));
            sig
        },
        SigAction::Slice(n) => suffix(&sig, n),
        SigAction::Splice(n) => suffix(&sig, n),
    }
}

/// Whether every action, taken in order, applies to `input`; only then can
/// `apply_signature` run.
pub fn signature_applies(input: &str, actions: &Vec<SigAction>) -> (r: bool)
    ensures
        r == actions_apply(input@, actions@),
{
    let mut len = input.unicode_len();
    let mut i: usize = 0;
    while i < actions.len()
        invariant
            i <= actions.len(),
            actions_apply(input@, actions@.take(i as int)),
            len == apply_actions(input@, actions@.take(i as int)).len(),
        decreases actions.len() - i,
    {
        let a = actions[i];
        let ghost cur = apply_actions(input@, actions@.take(i as int));
        assert(actions@.take(i + 1).drop_last() =~= actions@.take(i as int));
        assert(actions@.take(i + 1).last() == a);
        match a {
            SigAction::Reverse => {},
            SigAction::Swap(_) => {
                if len == 0 {
                    proof {
                        if actions_apply(input@, actions@) {
                            lemma_actions_apply_prefix(input@, actions@, i + 1);
                        }
                    }
                    return false;
                }
            },
            SigAction::Slice(n) | SigAction::Splice(n) => {
                if n > len {
                    proof {
                        if actions_apply(input@, actions@) {
                            lemma_actions_apply_prefix(input@, actions@, i + 1);
                        }
                    }
                    return false;
                }
                len = len - n;
            },
        }
        i = i + 1;
    }
    assert(actions@.take(actions.len() as int) =~= actions@);
    true
}

/// Decodes a signature: carries out the actions, in order, on the
/// characters of `input`.
pub fn apply_signature(input: &str, actions: Vec<SigAction>) -> (r: String)
    requires
        actions_apply(input@, actions@),
    ensures
        r@ == apply_actions(input@, actions@),
{
    let mut sig = chars_of(input);
    let mut i: usize = 0;
    while i < actions.len()
        invariant
            i <= actions.len(),
            actions_apply(input@, actions@),
            sig@ == apply_actions(input@, actions@.take(i as int)),
        decreases actions.len() - i,
    {
        proof {
            lemma_actions_apply_prefix(input@, actions@, i + 1);
            assert(actions@.take(i + 1).drop_last() =~= actions@.take(i as int));
        }
        sig = apply_one(sig, actions[i]);
        i = i + 1;
    }
    assert(actions@.take(actions.len() as int) =~= actions@);
    string_of(&sig)
}

/// Carrying out `first` and then `second` is carrying out the actions of
/// `first + second`; the whole list applies exactly when `first` applies to
/// the signature and `second` applies to what `first` made of it.
pub proof fn lemma_apply_concat(sig: Seq<char>, first: Seq<SigAction>, second: Seq<SigAction>)
    ensures
        apply_actions(sig, first + second) == apply_actions(apply_actions(sig, first), second),
        actions_apply(sig, first + second) == (actions_apply(sig, first) && actions_apply(
            apply_actions(sig, first),
            second,
        )),
    decreases second.len(),
{
    if second.len() == 0 {
        assert(first + second =~= first);
    } else {
        assert((first + second).drop_last() =~= first + second.drop_last());
        assert((first + second).last() == second.last());
        lemma_apply_concat(sig, first, second.drop_last());
    }
}

/// Reversing twice gives back the signature.
pub proof fn lemma_reverse_twice(sig: Seq<char>)
    ensures
        actions_apply(sig, seq![SigAction::Reverse, SigAction::Reverse]),
        apply_actions(sig, seq![SigAction::Reverse, SigAction::Reverse]) == sig,
{
    let acts = seq![SigAction::Reverse, SigAction::Reverse];
    reveal_with_fuel(apply_actions, 3);
    reveal_with_fuel(actions_apply, 3);
    assert(acts.drop_last() =~= seq![SigAction::Reverse]);
    assert(acts.drop_last().drop_last() =~= Seq::<SigAction>::empty());
    assert(sig.reverse().reverse() =~= sig);
}

/// Swapping twice with the same operand gives back a non-empty signature.
pub proof fn lemma_swap_twice(sig: Seq<char>, n: usize)
    requires
        sig.len() > 0,
    ensures
        actions_apply(sig, seq![SigAction::Swap(n), SigAction::Swap(n)]),
        apply_actions(sig, seq![SigAction::Swap(n), SigAction::Swap(n)]) == sig,
{
    let acts = seq![SigAction::Swap(n), SigAction::Swap(n)];
    reveal_with_fuel(apply_actions, 3);
    reveal_with_fuel(actions_apply, 3);
    assert(acts.drop_last() =~= seq![SigAction::Swap(n)]);
    assert(acts.drop_last().drop_last() =~= Seq::<SigAction>::empty());
    let j = (n as int) % (sig.len() as int);
    let once = sig.update(0, sig[j]).update(j, sig[0]);
    assert(once.len() == sig.len());
    assert(once.update(0, once[j]).update(j, once[0]) =~= sig);
}

/// A slice and a splice by the same count do the same.
pub proof fn lemma_slice_is_splice(sig: Seq<char>, n: usize)
    ensures
        action_applies(sig, SigAction::Slice(n)) == action_applies(sig, SigAction::Splice(n)),
        apply_action(sig, SigAction::Slice(n)) == apply_action(sig, SigAction::Splice(n)),
{
}

/// Two slices in a row drop as many characters as one slice by their sum.
pub proof fn lemma_slices_add(sig: Seq<char>, n: usize, m: usize)
    requires
        n + m <= usize::MAX,
    ensures
        actions_apply(sig, seq![SigAction::Slice(n), SigAction::Slice(m)]) == actions_apply(
            sig,
            seq![SigAction::Slice((n + m) as usize)],
        ),
        actions_apply(sig, seq![SigAction::Slice(n), SigAction::Slice(m)]) ==> apply_actions(
            sig,
            seq![SigAction::Slice(n), SigAction::Slice(m)],
        ) == apply_actions(sig, seq![SigAction::Slice((n + m) as usize)]),
{
    let two = seq![SigAction::Slice(n), SigAction::Slice(m)];
    reveal_with_fuel(apply_actions, 3);
    reveal_with_fuel(actions_apply, 3);
    let one = seq![SigAction::Slice((n + m) as usize)];
    assert(two.drop_last() =~= seq![SigAction::Slice(n)]);
    assert(two.drop_last().drop_last() =~= Seq::<SigAction>::empty());
    assert(one.drop_last() =~= Seq::<SigAction>::empty());
    if n + m <= sig.len() {
        assert(sig.skip(n as int).skip(m as int) =~= sig.skip(n + m));
    }
}

/// Reversals and swaps keep the length; a cut by `n` shortens by `n`.
pub proof fn lemma_action_len(sig: Seq<char>, a: SigAction)
    requires
        action_applies(sig, a),
    ensures
        apply_action(sig, a).len() == match a {
            SigAction::Reverse => sig.len() as int,
            SigAction::Swap(_) => sig.len() as int,
            SigAction::Slice(n) => sig.len() - n,
            SigAction::Splice(n) => sig.len() - n,
        },
{
}

/// A reversal reads the signature backwards: same length, and character
/// `i` of the result is character `len - 1 - i` of the signature.
pub proof fn lemma_reverse_reads_backwards(sig: Seq<char>)
    ensures
        actions_apply(sig, seq![SigAction::Reverse]),
        apply_actions(sig, seq![SigAction::Reverse]).len() == sig.len(),
        forall|i: int|
            0 <= i < sig.len() ==> #[trigger] apply_actions(sig, seq![SigAction::Reverse])[i]
                == sig[sig.len() - 1 - i],
{
    reveal_with_fuel(apply_actions, 2);
    reveal_with_fuel(actions_apply, 2);
    assert(seq![SigAction::Reverse].drop_last() =~= Seq::<SigAction>::empty());
}

/// A swap by `n` exchanges the first character with the one at `n % len`
/// and leaves every other character in place.
pub proof fn lemma_swap_exchanges(sig: Seq<char>, n: usize)
    requires
        sig.len() > 0,
    ensures
        actions_apply(sig, seq![SigAction::Swap(n)]),
        ({
            let r = apply_actions(sig, seq![SigAction::Swap(n)]);
            let j = (n as int) % (sig.len() as int);
            &&& r.len() == sig.len()
            &&& r[0] == sig[j]
            &&& r[j] == sig[0]
            &&& forall|i: int| 0 <= i < sig.len() && i != 0 && i != j ==> #[trigger] r[i] == sig[i]
        }),
{
    reveal_with_fuel(apply_actions, 2);
    reveal_with_fuel(actions_apply, 2);
    assert(seq![SigAction::Swap(n)].drop_last() =~= Seq::<SigAction>::empty());
}

/// A cut by `n` keeps exactly the characters from index `n` on; it applies
/// exactly when the signature has at least `n` characters.
pub proof fn lemma_cut_keeps_tail(sig: Seq<char>, n: usize)
    ensures
        actions_apply(sig, seq![SigAction::Slice(n)]) == (n <= sig.len()),
        actions_apply(sig, seq![SigAction::Splice(n)]) == (n <= sig.len()),
        n <= sig.len() ==> apply_actions(sig, seq![SigAction::Slice(n)]).len() == sig.len() - n,
        n <= sig.len() ==> forall|i: int|
            0 <= i < sig.len() - n ==> #[trigger] apply_actions(sig, seq![SigAction::Slice(n)])[i]
                == sig[i + n],
        apply_actions(sig, seq![SigAction::Splice(n)]) == apply_actions(
            sig,
            seq![SigAction::Slice(n)],
        ),
{
    reveal_with_fuel(apply_actions, 2);
    reveal_with_fuel(actions_apply, 2);
    assert(seq![SigAction::Slice(n)].drop_last() =~= Seq::<SigAction>::empty());
    assert(seq![SigAction::Splice(n)].drop_last() =~= Seq::<SigAction>::empty());
}

} // verus!
