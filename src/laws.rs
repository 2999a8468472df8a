//! Properties of the language that follow from the evaluation rules.
use vstd::prelude::*;
use vstd::relations::sorted_by;

use crate::ast::Term;
use crate::builtins::{
    ascending, num_leq, number_vals, numbers_of, primitive_result,
};
use crate::env::{define_in, holder, lookup, Scopes};
use crate::error::Fault;
use crate::semantics::{eval_term, gakas_form, lemma_term_keeps_frames, State};
use crate::value::{primitive_arity, primitive_name, Arity, Primitive, Val};

verus! {

/// Whether `n` arguments violate an arity policy.
pub open spec fn violates(a: Arity, n: nat) -> bool {
    match a {
        Arity::Exact(k) => n != k,
        Arity::AtLeast(k) => n < k,
        Arity::Any => false,
    }
}

/// Every primitive rejects an argument count that violates the policy it
/// declares, with an arity failure that names the primitive.
pub proof fn lemma_primitive_arity(op: Primitive, args: Seq<Val>)
    requires
        violates(primitive_arity(op), args.len()),
    ensures
        primitive_result(op, args) matches Err(Fault::ArityMismatch { name, found, .. }) && name
            == primitive_name(op) && found == args.len(),
{
}

proof fn lemma_numbers_of_numbers(op: Primitive, ns: Seq<i64>)
    ensures
        numbers_of(op, number_vals(ns)) == Ok::<Seq<i64>, Fault>(ns),
    decreases ns.len(),
{
    let vs = number_vals(ns);
    if ns.len() > 0 {
        assert(vs.drop_last() =~= number_vals(ns.drop_last()));
        lemma_numbers_of_numbers(op, ns.drop_last());
        assert(vs.last() == Val::Number(ns.last()));
        assert(ns.drop_last().push(ns.last()) =~= ns);
        assert(numbers_of(op, vs) == Ok::<Seq<i64>, Fault>(ns.drop_last().push(ns.last())));
    } else {
        assert(vs =~= Seq::<Val>::empty());
        assert(ns =~= Seq::<i64>::empty());
    }
}

pub open spec fn number_le(a: Val, b: Val) -> bool {
    a matches Val::Number(x) && b matches Val::Number(y) && x <= y
}

/// Numbers in non-decreasing order.
pub open spec fn non_decreasing(vs: Seq<Val>) -> bool {
    forall|i: int, j: int| 0 <= i <= j < vs.len() ==> number_le(#[trigger] vs[i], #[trigger] vs[j])
}

/// Sorting gives its numbers in non-decreasing order, and sorting that
/// result again gives it back unchanged.
pub proof fn lemma_sort_idempotent(items: Seq<Val>)
    requires
        primitive_result(Primitive::Sort, seq![Val::List(items)]) is Ok,
    ensures
        primitive_result(Primitive::Sort, seq![Val::List(items)]) matches Ok(Val::List(sorted))
            && non_decreasing(sorted) && primitive_result(Primitive::Sort, seq![Val::List(sorted)])
            == primitive_result(Primitive::Sort, seq![Val::List(items)]),
{
    let ns = numbers_of(Primitive::Sort, items)->Ok_0;
    let asc = ascending(ns);
    let leq = num_leq();
    assert(vstd::relations::total_ordering(leq));
    ns.lemma_sort_by_ensures(leq);
    let sorted = number_vals(asc);
    lemma_numbers_of_numbers(Primitive::Sort, asc);
    asc.lemma_sort_by_ensures(leq);
    vstd::seq_lib::lemma_sorted_unique(asc, ascending(asc), leq);
    assert forall|i: int, j: int| 0 <= i <= j < sorted.len() implies number_le(
        #[trigger] sorted[i],
        #[trigger] sorted[j],
    ) by {
        assert(sorted_by(asc, leq));
        if i < j {
            assert(leq(asc[i], asc[j]));
        }
    }
}

/// Binding a name in a frame makes the frame see the new value, and leaves
/// every other frame, outer ones included, as it was.
pub proof fn lemma_define_shadows(s: Scopes, f: nat, name: Seq<char>, v: Val)
    requires
        f < s.frames.len(),
    ensures
        lookup(define_in(s, f, name, v).frames, f, name) == Some(v),
        forall|g: int| 0 <= g < s.frames.len() && g != f ==> #[trigger] define_in(s, f, name, v).frames[g] == s.frames[g],
        define_in(s, f, name, v).frames.len() == s.frames.len(),
{
}

/// Rebinding a name in the root frame is seen from every frame whose chain
/// reaches the root without another binding of that name on the way.
pub proof fn lemma_root_rebinding_visible(s: Scopes, g: nat, name: Seq<char>, v: Val)
    requires
        s.frames.len() > 0,
        holder(s.frames, g, name) == Some(0nat),
    ensures
        lookup(define_in(s, 0, name, v).frames, g, name) == Some(v),
    decreases g,
{
    let s2 = define_in(s, 0, name, v);
    if g != 0 {
        let p = s.frames[g as int].parent->Some_0;
        assert(s2.frames[g as int] == s.frames[g as int]);
        lemma_root_rebinding_visible(s, p, name, v);
    }
}

/// `gakas` in a frame binds the name there and nowhere else: the frame sees
/// the new value, and each other frame, whatever it binds under the same
/// name, is as the evaluation of the value left it.
pub proof fn lemma_gakas_local(name: Seq<char>, t: Term, f: nat, s: State, fuel: nat)
    requires
        fuel > 0,
        f < s.scopes.frames.len(),
        gakas_form(seq![Term::Symbol(name), t], f, s, fuel).0 is Ok,
    ensures
        ({
            let after_value = eval_term(t, f, s, (fuel - 1) as nat).1;
            let (r, s2) = gakas_form(seq![Term::Symbol(name), t], f, s, fuel);
            &&& lookup(s2.scopes.frames, f, name) == Some(r->Ok_0)
            &&& forall|g: int|
                0 <= g < after_value.scopes.frames.len() && g != f ==> #[trigger] s2.scopes.frames[g]
                    == after_value.scopes.frames[g]
        }),
{
    let args = seq![Term::Symbol(name), t];
    assert(args[0] == Term::Symbol(name));
    assert(args[1] == t);
    let s1 = eval_term(t, f, s, (fuel - 1) as nat).1;
    let v = eval_term(t, f, s, (fuel - 1) as nat).0->Ok_0;
    lemma_term_keeps_frames(t, f, s, (fuel - 1) as nat);
    lemma_define_shadows(s1.scopes, f, name, v);
}

/// `gakas` in the root frame is seen from every frame whose chain reaches the
/// root without another binding of the name on the way.
pub proof fn lemma_gakas_root_visible(name: Seq<char>, t: Term, g: nat, s: State, fuel: nat)
    requires
        fuel > 0,
        s.scopes.frames.len() > 0,
        gakas_form(seq![Term::Symbol(name), t], 0, s, fuel).0 is Ok,
        holder(eval_term(t, 0, s, (fuel - 1) as nat).1.scopes.frames, g, name) == Some(0nat),
    ensures
        ({
            let (r, s2) = gakas_form(seq![Term::Symbol(name), t], 0, s, fuel);
            lookup(s2.scopes.frames, g, name) == Some(r->Ok_0)
        }),
{
    let args = seq![Term::Symbol(name), t];
    assert(args[0] == Term::Symbol(name));
    assert(args[1] == t);
    let s1 = eval_term(t, 0, s, (fuel - 1) as nat).1;
    let v = eval_term(t, 0, s, (fuel - 1) as nat).0->Ok_0;
    lemma_term_keeps_frames(t, 0, s, (fuel - 1) as nat);
    lemma_root_rebinding_visible(s1.scopes, g, name, v);
}

} // verus!
