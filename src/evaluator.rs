//! The evaluator. Each function states its outcome and the state it leaves
//! through the evaluation rules in `semantics`. Nesting is bounded by a depth
//! budget: evaluation that would nest deeper fails with a reportable error
//! rather than exhausting the host stack.
use vstd::prelude::*;

use crate::ast::{copy_exprs, exprs_view, lemma_list_view, Expr, Term};
use crate::env::{Environment, FrameModel, Scopes};
use crate::error::{Fault, SatukitanError};
use crate::semantics::{
    apply_symbol, apply_value, holds_frame_from, items_hold_frame_from, bind_params, body_of, capacity_fault, depth_fault, call_form,
    eval_form, gakas_form, gakasdenu_form, nobu_form, eval_seq, eval_term, eval_terms, params_of,
    State,
};
use crate::text::concat;
use crate::value::{
    copy_value, lemma_list_value_view, result_view, strings_view, values_view,
    FunctionValue, Val, Value,
};

verus! {

/// How deeply evaluation may nest before it fails instead of exhausting the
/// host stack.
pub const MAX_DEPTH: usize = 1000;

/// The evaluation state held by a scope tree and an output log.
pub open spec fn state_of(env: Environment, out: Vec<String>) -> State {
    State { scopes: env@, out: strings_view(out@) }
}

fn depth_error() -> (r: SatukitanError)
    ensures
        r@ == depth_fault(),
{
    SatukitanError::Eval(String::from_str("evaluation depth limit exceeded"))
}

fn capacity_error() -> (r: SatukitanError)
    ensures
        r@ == capacity_fault(),
{
    SatukitanError::Eval(String::from_str("interpreter capacity exhausted"))
}

proof fn lemma_terms_prefix_err(items: Seq<Term>, f: nat, s: State, fuel: nat, k: int)
    requires
        0 <= k <= items.len(),
        eval_terms(items.subrange(0, k), f, s, fuel).0 is Err,
    ensures
        eval_terms(items, f, s, fuel) == eval_terms(items.subrange(0, k), f, s, fuel),
    decreases items.len() - k,
{
    if k < items.len() {
        assert(items.subrange(0, k + 1).drop_last() =~= items.subrange(0, k));
        lemma_terms_prefix_err(items, f, s, fuel, k + 1);
    } else {
        assert(items.subrange(0, k) =~= items);
    }
}

proof fn lemma_seq_prefix_err(items: Seq<Term>, f: nat, s: State, fuel: nat, k: int)
    requires
        0 <= k <= items.len(),
        eval_seq(items.subrange(0, k), f, s, fuel).0 is Err,
    ensures
        eval_seq(items, f, s, fuel) == eval_seq(items.subrange(0, k), f, s, fuel),
    decreases items.len() - k,
{
    if k < items.len() {
        assert(items.subrange(0, k + 1).drop_last() =~= items.subrange(0, k));
        lemma_seq_prefix_err(items, f, s, fuel, k + 1);
    } else {
        assert(items.subrange(0, k) =~= items);
    }
}

/// Evaluates the expressions `items[start..]` left to right in frame `frame`.
fn eval_arguments(
    items: &Vec<Expr>,
    start: usize,
    frame: usize,
    env: &mut Environment,
    out: &mut Vec<String>,
    fuel: usize,
) -> (r: Result<Vec<Value>, SatukitanError>)
    requires
        start <= items.len(),
        frame < old(env).frames.len(),
    ensures
        eval_terms(
            exprs_view(items@).subrange(start as int, items.len() as int),
            frame as nat,
            state_of(*old(env), *old(out)),
            fuel as nat,
        ) == (match r {
            Ok(vs) => Ok(values_view(vs@)),
            Err(e) => Err(e@),
        }, state_of(*final(env), *final(out))),
        final(env).frames.len() >= old(env).frames.len(),
    decreases fuel, 1nat,
{
    let ghost view = exprs_view(items@);
    let ghost s0 = state_of(*env, *out);
    let mut vs: Vec<Value> = Vec::new();
    let mut i: usize = start;
    proof {
        assert(view.subrange(start as int, start as int) =~= Seq::<Term>::empty());
        assert(values_view(vs@) =~= Seq::<Val>::empty());
    }
    while i < items.len()
        invariant
            start <= i <= items.len(),
            view == exprs_view(items@),
            frame < env.frames.len(),
            env.frames.len() >= old(env).frames.len(),
            s0 == state_of(*old(env), *old(out)),
            eval_terms(view.subrange(start as int, i as int), frame as nat, s0, fuel as nat) == (
                Ok::<Seq<Val>, Fault>(values_view(vs@)),
                state_of(*env, *out),
            ),
        decreases items.len() - i,
    {
        let ghost pre = view.subrange(start as int, i as int + 1);
        proof {
            assert(pre.drop_last() =~= view.subrange(start as int, i as int));
            assert(pre.last() == items@[i as int]@);
        }
        match eval_expr(&items[i], frame, env, out, fuel) {
            Ok(v) => {
                let ghost before = values_view(vs@);
                vs.push(v);
                proof {
                    assert(values_view(vs@) =~= before.push(v@));
                }
            },
            Err(e) => {
                proof {
                    let whole = view.subrange(start as int, items.len() as int);
                    assert(whole.subrange(0, i - start + 1) =~= pre);
                    lemma_terms_prefix_err(whole, frame as nat, s0, fuel as nat, i - start + 1);
                }
                return Err(e);
            },
        }
        i += 1;
    }
    proof {
        assert(view.subrange(start as int, i as int) =~= view.subrange(start as int, items.len() as int));
    }
    Ok(vs)
}

/// Evaluates statements in order in frame `frame`; the value is the last
/// one's, or nil when there are none.
pub fn eval_block(
    items: &Vec<Expr>,
    frame: usize,
    env: &mut Environment,
    out: &mut Vec<String>,
    fuel: usize,
) -> (r: Result<Value, SatukitanError>)
    requires
        frame < old(env).frames.len(),
    ensures
        eval_seq(exprs_view(items@), frame as nat, state_of(*old(env), *old(out)), fuel as nat) == (
            result_view(r),
            state_of(*final(env), *final(out)),
        ),
        final(env).frames.len() >= old(env).frames.len(),
    decreases fuel, 1nat,
{
    let ghost view = exprs_view(items@);
    let ghost s0 = state_of(*env, *out);
    let mut last = Value::Nil;
    let mut i: usize = 0;
    proof {
        assert(view.subrange(0, 0) =~= Seq::<Term>::empty());
    }
    while i < items.len()
        invariant
            i <= items.len(),
            view == exprs_view(items@),
            frame < env.frames.len(),
            env.frames.len() >= old(env).frames.len(),
            s0 == state_of(*old(env), *old(out)),
            eval_seq(view.subrange(0, i as int), frame as nat, s0, fuel as nat) == (
                Ok::<Val, Fault>(last@),
                state_of(*env, *out),
            ),
        decreases items.len() - i,
    {
        let ghost pre = view.subrange(0, i as int + 1);
        proof {
            assert(pre.drop_last() =~= view.subrange(0, i as int));
            assert(pre.last() == items@[i as int]@);
        }
        match eval_expr(&items[i], frame, env, out, fuel) {
            Ok(v) => {
                last = v;
            },
            Err(e) => {
                proof {
                    lemma_seq_prefix_err(view, frame as nat, s0, fuel as nat, i + 1);
                }
                return Err(e);
            },
        }
        i += 1;
    }
    proof {
        assert(view.subrange(0, i as int) =~= view);
    }
    Ok(last)
}

/// Evaluates a program: its expressions in order, in frame `frame`, within
/// the nesting budget. The value is the last expression's, or nil.
pub fn eval_program(
    program: &Vec<Expr>,
    frame: usize,
    env: &mut Environment,
    out: &mut Vec<String>,
) -> (r: Result<Value, SatukitanError>)
    requires
        frame < old(env).frames.len(),
    ensures
        eval_seq(exprs_view(program@), frame as nat, state_of(*old(env), *old(out)), MAX_DEPTH as nat)
            == (result_view(r), state_of(*final(env), *final(out))),
        final(env).frames.len() >= old(env).frames.len(),
{
    eval_block(program, frame, env, out, MAX_DEPTH)
}

/// Evaluates an expression in frame `frame`.
pub fn eval_expr(
    expr: &Expr,
    frame: usize,
    env: &mut Environment,
    out: &mut Vec<String>,
    fuel: usize,
) -> (r: Result<Value, SatukitanError>)
    requires
        frame < old(env).frames.len(),
    ensures
        eval_term(expr@, frame as nat, state_of(*old(env), *old(out)), fuel as nat) == (
            result_view(r),
            state_of(*final(env), *final(out)),
        ),
        final(env).frames.len() >= old(env).frames.len(),
    decreases fuel, 0nat,
{
    if fuel == 0 {
        return Err(depth_error());
    }
    proof {
        lemma_list_view(expr);
    }
    match expr {
        Expr::Number(n) => Ok(Value::Number(*n)),
        Expr::Bool(b) => Ok(Value::Bool(*b)),
        Expr::String(s) => Ok(Value::String(s.clone())),
        Expr::Symbol(name) => match env.get(frame, name) {
            Some(v) => Ok(v),
            None => Err(SatukitanError::UndefinedSymbol(name.clone())),
        },
        Expr::ListLiteral(items) => {
            proof {
                assert(exprs_view(items@).subrange(0, items.len() as int) =~= exprs_view(items@));
            }
            match eval_arguments(items, 0, frame, env, out, fuel - 1) {
                Ok(vs) => {
                    let r = Value::List(vs);
                    proof {
                        lemma_list_value_view(&r);
                    }
                    Ok(r)
                },
                Err(e) => Err(e),
            }
        },
        Expr::List(items) => eval_list(items, frame, env, out, fuel - 1),
        Expr::Call { func, args } => eval_call(func, args, frame, env, out, fuel - 1),
    }
}

/// Evaluates a parenthesized form.
fn eval_list(
    items: &Vec<Expr>,
    frame: usize,
    env: &mut Environment,
    out: &mut Vec<String>,
    fuel: usize,
) -> (r: Result<Value, SatukitanError>)
    requires
        frame < old(env).frames.len(),
    ensures
        eval_form(exprs_view(items@), frame as nat, state_of(*old(env), *old(out)), fuel as nat) == (
            result_view(r),
            state_of(*final(env), *final(out)),
        ),
        final(env).frames.len() >= old(env).frames.len(),
    decreases fuel, 0nat,
{
    if fuel == 0 {
        return Err(depth_error());
    }
    if items.len() == 0 {
        let r = Value::List(Vec::new());
        proof {
            lemma_list_value_view(&r);
            assert(values_view(Seq::<Value>::empty()) =~= Seq::<Val>::empty());
        }
        return Ok(r);
    }
    proof {
        assert(exprs_view(items@)[0] == items@[0]@);
    }
    match &items[0] {
        Expr::Symbol(name) => eval_symbolic_application(name, items, 1, frame, env, out, fuel - 1),
        _ => eval_block(items, frame, env, out, fuel - 1),
    }
}

/// Evaluates a juxtaposed call.
fn eval_call(
    func: &Expr,
    args: &Vec<Expr>,
    frame: usize,
    env: &mut Environment,
    out: &mut Vec<String>,
    fuel: usize,
) -> (r: Result<Value, SatukitanError>)
    requires
        frame < old(env).frames.len(),
    ensures
        call_form(func@, exprs_view(args@), frame as nat, state_of(*old(env), *old(out)), fuel as nat)
            == (result_view(r), state_of(*final(env), *final(out))),
        final(env).frames.len() >= old(env).frames.len(),
    decreases fuel, 0nat,
{
    if fuel == 0 {
        return Err(depth_error());
    }
    proof {
        assert(exprs_view(args@).subrange(0, args.len() as int) =~= exprs_view(args@));
    }
    match func {
        Expr::Symbol(name) => eval_symbolic_application(name, args, 0, frame, env, out, fuel - 1),
        _ => {
            let callee = match eval_expr(func, frame, env, out, fuel - 1) {
                Ok(c) => c,
                Err(e) => {
                    return Err(e);
                },
            };
            let vs = match eval_arguments(args, 0, frame, env, out, fuel - 1) {
                Ok(vs) => vs,
                Err(e) => {
                    return Err(e);
                },
            };
            apply_callable(callee, vs, env, out, fuel - 1)
        },
    }
}

/// Whether `name` spells the word `w`.
fn names(name: &String, w: &str) -> (r: bool)
    ensures
        r == (name@ == w@),
{
    let lit = String::from_str(w);
    name.eq(&lit)
}

/// Applies the operator `name` to the argument expressions `args[start..]`:
/// the special forms `nobu`, `gakas` and `gakasdenu` first, any other name by
/// lookup and application to the evaluated arguments.
fn eval_symbolic_application(
    name: &String,
    args: &Vec<Expr>,
    start: usize,
    frame: usize,
    env: &mut Environment,
    out: &mut Vec<String>,
    fuel: usize,
) -> (r: Result<Value, SatukitanError>)
    requires
        start <= args.len(),
        frame < old(env).frames.len(),
    ensures
        apply_symbol(
            name@,
            exprs_view(args@).subrange(start as int, args.len() as int),
            frame as nat,
            state_of(*old(env), *old(out)),
            fuel as nat,
        ) == (result_view(r), state_of(*final(env), *final(out))),
        final(env).frames.len() >= old(env).frames.len(),
    decreases fuel, 0nat,
{
    if fuel == 0 {
        return Err(depth_error());
    }
    if names(name, "nobu") {
        eval_nobu(args, start, frame, env, out, fuel - 1)
    } else if names(name, "gakas") {
        eval_gakas(args, start, frame, env, out, fuel - 1)
    } else if names(name, "gakasdenu") {
        eval_gakasdenu(args, start, frame, env)
    } else {
        let callee = match env.get(frame, name) {
            Some(c) => c,
            None => {
                return Err(SatukitanError::UndefinedSymbol(name.clone()));
            },
        };
        if start == args.len() && !matches!(callee, Value::Builtin(_) | Value::Function(_)) {
            return Ok(callee);
        }
        let vs = match eval_arguments(args, start, frame, env, out, fuel - 1) {
            Ok(vs) => vs,
            Err(e) => {
                return Err(e);
            },
        };
        apply_callable(callee, vs, env, out, fuel - 1)
    }
}

/// The conditional.
fn eval_nobu(
    args: &Vec<Expr>,
    start: usize,
    frame: usize,
    env: &mut Environment,
    out: &mut Vec<String>,
    fuel: usize,
) -> (r: Result<Value, SatukitanError>)
    requires
        start <= args.len(),
        frame < old(env).frames.len(),
    ensures
        nobu_form(
            exprs_view(args@).subrange(start as int, args.len() as int),
            frame as nat,
            state_of(*old(env), *old(out)),
            fuel as nat,
        ) == (result_view(r), state_of(*final(env), *final(out))),
        final(env).frames.len() >= old(env).frames.len(),
    decreases fuel, 0nat,
{
    if fuel == 0 {
        return Err(depth_error());
    }
    let n = args.len() - start;
    if n != 3 {
        proof {
            reveal_strlit("nobu");
        }
        return Err(SatukitanError::arity_exact("nobu", 3, n));
    }
    let ghost v = exprs_view(args@).subrange(start as int, args.len() as int);
    proof {
        assert(v[0] == args@[start as int]@);
        assert(v[1] == args@[start + 1]@);
        assert(v[2] == args@[start + 2]@);
    }
    match eval_expr(&args[start], frame, env, out, fuel - 1) {
        Ok(Value::Bool(true)) => eval_expr(&args[start + 1], frame, env, out, fuel - 1),
        Ok(Value::Bool(false)) => eval_expr(&args[start + 2], frame, env, out, fuel - 1),
        Ok(other) => Err(SatukitanError::type_mismatch("boolean", other.kind_name())),
        Err(e) => Err(e),
    }
}

/// Binding in the current frame.
fn eval_gakas(
    args: &Vec<Expr>,
    start: usize,
    frame: usize,
    env: &mut Environment,
    out: &mut Vec<String>,
    fuel: usize,
) -> (r: Result<Value, SatukitanError>)
    requires
        start <= args.len(),
        frame < old(env).frames.len(),
    ensures
        gakas_form(
            exprs_view(args@).subrange(start as int, args.len() as int),
            frame as nat,
            state_of(*old(env), *old(out)),
            fuel as nat,
        ) == (result_view(r), state_of(*final(env), *final(out))),
        final(env).frames.len() >= old(env).frames.len(),
    decreases fuel, 0nat,
{
    if fuel == 0 {
        return Err(depth_error());
    }
    let n = args.len() - start;
    if n != 2 {
        return Err(SatukitanError::arity_exact("gakas", 2, n));
    }
    let ghost v = exprs_view(args@).subrange(start as int, args.len() as int);
    proof {
        assert(v[0] == args@[start as int]@);
        assert(v[1] == args@[start + 1]@);
    }
    let name = match &args[start] {
        Expr::Symbol(name) => name.clone(),
        _ => {
            return Err(SatukitanError::Eval(String::from_str("gakas: first argument must be symbol")));
        },
    };
    match eval_expr(&args[start + 1], frame, env, out, fuel - 1) {
        Ok(value) => {
            let kept = copy_value(&value);
            env.define(frame, name, kept);
            Ok(value)
        },
        Err(e) => Err(e),
    }
}

/// The parameter names of a parameter-list expression.
pub fn extract_params(expr: &Expr) -> (r: Result<Vec<String>, SatukitanError>)
    ensures
        match r {
            Ok(ps) => params_of(expr@) == Ok::<Seq<Seq<char>>, Fault>(strings_view(ps@)),
            Err(e) => params_of(expr@) == Err::<Seq<Seq<char>>, Fault>(e@),
        },
{
    proof {
        lemma_list_view(expr);
    }
    match expr {
        Expr::List(items) => {
            let ghost view = exprs_view(items@);
            let mut params: Vec<String> = Vec::new();
            let mut i: usize = 0;
            while i < items.len()
                invariant
                    i <= items.len(),
                    view == exprs_view(items@),
                    expr@ == Term::List(view),
                    params.len() == i,
                    forall|j: int| 0 <= j < i ==> #[trigger] view[j] is Symbol,
                    forall|j: int| 0 <= j < i ==> #[trigger] params@[j]@ == view[j]->Symbol_0,
                decreases items.len() - i,
            {
                proof {
                    assert(view[i as int] == items@[i as int]@);
                }
                match &items[i] {
                    Expr::Symbol(name) => {
                        params.push(name.clone());
                    },
                    _ => {
                        proof {
                            assert(!(view[i as int] is Symbol));
                        }
                        return Err(
                            SatukitanError::Eval(
                                String::from_str("gakasdenu: parameter list must contain symbols only"),
                            ),
                        );
                    },
                }
                i += 1;
            }
            proof {
                assert(strings_view(params@) =~= Seq::new(view.len(), |j: int| view[j]->Symbol_0));
            }
            Ok(params)
        },
        _ => Err(SatukitanError::Eval(String::from_str("gakasdenu: second argument must be parameter list"))),
    }
}

/// The statements of a function-body expression.
pub fn extract_body(expr: &Expr) -> (r: Vec<Expr>)
    ensures
        exprs_view(r@) == body_of(expr@),
{
    proof {
        lemma_list_view(expr);
    }
    if let Expr::List(items) = expr {
        let ghost view = exprs_view(items@);
        let mut all_lists = true;
        let mut i: usize = 0;
        while i < items.len()
            invariant
                i <= items.len(),
                view == exprs_view(items@),
                expr@ == Term::List(view),
                all_lists == forall|j: int| 0 <= j < i ==> #[trigger] view[j] is List,
            decreases items.len() - i,
        {
            proof {
                assert(view[i as int] == items@[i as int]@);
            }
            if !matches!(items[i], Expr::List(_)) {
                all_lists = false;
            }
            i += 1;
        }
        if all_lists {
            return copy_exprs(items);
        }
    }
    let mut body: Vec<Expr> = Vec::new();
    body.push(crate::ast::copy_expr(expr));
    proof {
        assert(exprs_view(body@) =~= seq![expr@]);
    }
    body
}

/// Function definition.
fn eval_gakasdenu(args: &Vec<Expr>, start: usize, frame: usize, env: &mut Environment) -> (r: Result<
    Value,
    SatukitanError,
>)
    requires
        start <= args.len(),
        frame < old(env).frames.len(),
    ensures
        forall|o: Seq<Seq<char>>|
            #![trigger gakasdenu_form(exprs_view(args@).subrange(start as int, args.len() as int), frame as nat, State { scopes: old(env)@, out: o })]
            gakasdenu_form(
                exprs_view(args@).subrange(start as int, args.len() as int),
                frame as nat,
                State { scopes: old(env)@, out: o },
            ) == (result_view(r), State { scopes: final(env)@, out: o }),
        final(env).frames.len() == old(env).frames.len(),
{
    let n = args.len() - start;
    if n != 3 {
        return Err(SatukitanError::arity_exact("gakasdenu", 3, n));
    }
    let ghost v = exprs_view(args@).subrange(start as int, args.len() as int);
    proof {
        assert(v[0] == args@[start as int]@);
        assert(v[1] == args@[start + 1]@);
        assert(v[2] == args@[start + 2]@);
    }
    let name = match &args[start] {
        Expr::Symbol(name) => name.clone(),
        _ => {
            return Err(
                SatukitanError::Eval(String::from_str("gakasdenu: function name must be symbol")),
            );
        },
    };
    let params = match extract_params(&args[start + 1]) {
        Ok(ps) => ps,
        Err(e) => {
            return Err(e);
        },
    };
    let body = extract_body(&args[start + 2]);
    if env.next_id == usize::MAX {
        return Err(capacity_error());
    }
    let id = env.next_id;
    env.next_id = id + 1;
    let function = Value::Function(FunctionValue::new(id, params, body, frame));
    let kept = copy_value(&function);
    env.define(frame, name, kept);
    Ok(function)
}

/// Applies a value to evaluated arguments.
fn apply_callable(
    func: Value,
    args: Vec<Value>,
    env: &mut Environment,
    out: &mut Vec<String>,
    fuel: usize,
) -> (r: Result<Value, SatukitanError>)
    ensures
        apply_value(func@, values_view(args@), state_of(*old(env), *old(out)), fuel as nat) == (
            result_view(r),
            state_of(*final(env), *final(out)),
        ),
        final(env).frames.len() >= old(env).frames.len(),
    decreases fuel, 1nat,
{
    if fuel == 0 {
        return Err(depth_error());
    }
    match func {
        Value::Builtin(b) => b.call(&args, out),
        Value::Function(f) => apply_function(f, args, env, out, fuel),
        other => {
            let m = concat("attempted to call non-callable value of type ", other.kind_name());
            Err(SatukitanError::Eval(m))
        },
    }
}

/// Runs a closure: binds its parameters in a new frame whose parent is the
/// closure's frame, then evaluates its body there.
fn apply_function(
    function: FunctionValue,
    args: Vec<Value>,
    env: &mut Environment,
    out: &mut Vec<String>,
    fuel: usize,
) -> (r: Result<Value, SatukitanError>)
    requires
        fuel > 0,
    ensures
        apply_value(
            Val::Function(function@),
            values_view(args@),
            state_of(*old(env), *old(out)),
            fuel as nat,
        ) == (result_view(r), state_of(*final(env), *final(out))),
        final(env).frames.len() >= old(env).frames.len(),
    decreases fuel, 0nat,
{
    if function.params.len() != args.len() {
        return Err(SatukitanError::arity_exact("lambda", function.params.len(), args.len()));
    }
    if env.frames.len() == usize::MAX {
        return Err(capacity_error());
    }
    let ghost ps = strings_view(function.params@);
    let ghost avs = values_view(args@);
    let ghost s0 = env@;
    let child = env.with_parent(function.env);
    let mut i: usize = 0;
    proof {
        assert(ps.subrange(0, 0) =~= Seq::<Seq<char>>::empty());
        assert(avs.subrange(0, 0) =~= Seq::<Val>::empty());
    }
    while i < args.len()
        invariant
            i <= args.len(),
            args.len() == function.params.len(),
            child == s0.frames.len(),
            ps == strings_view(function.params@),
            avs == values_view(args@),
            env.frames.len() == child + 1,
            env@ == (Scopes {
                frames: s0.frames.push(
                    FrameModel {
                        vars: bind_params(ps.subrange(0, i as int), avs.subrange(0, i as int)),
                        parent: Some(function.env as nat),
                    },
                ),
                ..s0
            }),
        decreases args.len() - i,
    {
        let name = function.params[i].clone();
        let value = copy_value(&args[i]);
        env.define(child, name, value);
        proof {
            let pn = ps.subrange(0, i as int + 1);
            let an = avs.subrange(0, i as int + 1);
            assert(pn.drop_last() =~= ps.subrange(0, i as int));
            assert(an.drop_last() =~= avs.subrange(0, i as int));
            assert(pn.last() == ps[i as int]);
            assert(an.last() == avs[i as int]);
            assert(env@.frames =~= s0.frames.push(
                FrameModel { vars: bind_params(pn, an), parent: Some(function.env as nat) },
            ));
        }
        i += 1;
    }
    proof {
        assert(ps.subrange(0, i as int) =~= ps);
        assert(avs.subrange(0, i as int) =~= avs);
    }
    let r = eval_block(&function.body, child, env, out, fuel - 1);
    let keep = match &r {
        Ok(v) => captures_from(v, child),
        Err(_) => false,
    };
    if !keep {
        let ghost before = env@;
        env.frames.truncate(child);
        proof {
            assert(env@.frames =~= before.frames.take(child as int));
        }
    }
    r
}

/// Whether a value holds a closure over frame `mark` or a later one.
fn captures_from(v: &Value, mark: usize) -> (r: bool)
    ensures
        r == holds_frame_from(v@, mark as nat),
    decreases v,
{
    proof {
        lemma_list_value_view(v);
    }
    match v {
        Value::Function(f) => f.env >= mark,
        Value::List(items) => {
            let ghost vv = values_view(items@);
            let mut found = false;
            let mut i: usize = 0;
            proof {
                assert(vv.subrange(0, 0) =~= Seq::<Val>::empty());
            }
            while i < items.len()
                invariant
                    i <= items.len(),
                    vv == values_view(items@),
                    v@ == Val::List(vv),
                    decreases_to!(*v => *items),
                    found == items_hold_frame_from(vv.subrange(0, i as int), mark as nat),
                decreases items.len() - i,
            {
                proof {
                    assert(decreases_to!(*items => items[i as int]));
                    let pre = vv.subrange(0, i as int + 1);
                    assert(pre.subrange(0, pre.len() - 1) =~= vv.subrange(0, i as int));
                    assert(pre[pre.len() - 1] == items@[i as int]@);
                }
                if captures_from(&items[i], mark) {
                    found = true;
                }
                i += 1;
            }
            proof {
                assert(vv.subrange(0, i as int) =~= vv);
            }
            found
        },
        _ => false,
    }
}

} // verus!
