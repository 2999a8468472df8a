//! The evaluation rules, as spec functions from an expression, a frame, a
//! state and a depth budget to an outcome and the next state.
use vstd::prelude::*;

use crate::ast::Term;
use crate::builtins::{primitive_output, primitive_result};
use crate::env::{define_in, lookup, FrameModel, Scopes};
use crate::error::{arity_fault, exact_descriptor, Fault};
use crate::value::{type_name_of, Closure, Val};

verus! {

/// The state that evaluation reads and changes: the scope tree and the lines
/// printed so far.
pub struct State {
    pub scopes: Scopes,
    pub out: Seq<Seq<char>>,
}

/// The failure reported when evaluation nests deeper than its budget allows.
pub open spec fn depth_fault() -> Fault {
    Fault::Eval("evaluation depth limit exceeded"@)
}

/// The failure reported when no further scope or closure can be numbered.
pub open spec fn capacity_fault() -> Fault {
    Fault::Eval("interpreter capacity exhausted"@)
}

/// The statements of a function body: a parenthesized form whose every item
/// is itself parenthesized is a statement sequence; anything else is one
/// statement.
pub open spec fn body_of(t: Term) -> Seq<Term> {
    match t {
        Term::List(items) => if forall|i: int| 0 <= i < items.len() ==> #[trigger] items[i] is List {
            items
        } else {
            seq![t]
        },
        _ => seq![t],
    }
}

/// The parameter names of a parameter list: a parenthesized form holding
/// symbols only.
pub open spec fn params_of(t: Term) -> Result<Seq<Seq<char>>, Fault> {
    match t {
        Term::List(items) => if forall|i: int| 0 <= i < items.len() ==> #[trigger] items[i] is Symbol {
            Ok(Seq::new(items.len(), |i: int| items[i]->Symbol_0))
        } else {
            Err(Fault::Eval("gakasdenu: parameter list must contain symbols only"@))
        },
        _ => Err(Fault::Eval("gakasdenu: second argument must be parameter list"@)),
    }
}

/// The bindings of a call frame: each parameter to its argument, left to
/// right, so that a repeated name takes its last argument.
pub open spec fn bind_params(params: Seq<Seq<char>>, args: Seq<Val>) -> Map<Seq<char>, Val>
    decreases params.len(),
{
    if params.len() == 0 || args.len() == 0 {
        Map::empty()
    } else {
        bind_params(params.drop_last(), args.drop_last()).insert(params.last(), args.last())
    }
}

pub open spec fn with_scopes(s: State, scopes: Scopes) -> State {
    State { scopes, out: s.out }
}

/// Whether a value holds a closure over frame `mark` or a later one.
pub open spec fn holds_frame_from(v: Val, mark: nat) -> bool
    decreases v,
{
    match v {
        Val::Function(c) => c.env >= mark,
        Val::List(items) => items_hold_frame_from(items, mark),
        _ => false,
    }
}

/// Whether any of the values holds a closure over frame `mark` or a later one.
pub open spec fn items_hold_frame_from(items: Seq<Val>, mark: nat) -> bool
    decreases items,
{
    if items.len() == 0 {
        false
    } else {
        items_hold_frame_from(items.subrange(0, items.len() - 1), mark) || holds_frame_from(
            items[items.len() - 1],
            mark,
        )
    }
}

/// The state without the frames from `mark` on: those a finished call made,
/// when nothing that outlives the call can reach them.
pub open spec fn release_from(s: State, mark: nat) -> State {
    with_scopes(s, Scopes { frames: s.scopes.frames.take(mark as int), ..s.scopes })
}

/// Evaluates an expression in frame `f`.
pub open spec fn eval_term(t: Term, f: nat, s: State, fuel: nat) -> (Result<Val, Fault>, State)
    decreases fuel, 0nat,
{
    if fuel == 0 {
        (Err(depth_fault()), s)
    } else {
        match t {
            Term::Number(n) => (Ok(Val::Number(n)), s),
            Term::Bool(b) => (Ok(Val::Bool(b)), s),
            Term::Str(x) => (Ok(Val::Str(x)), s),
            Term::Symbol(name) => match lookup(s.scopes.frames, f, name) {
                Some(v) => (Ok(v), s),
                None => (Err(Fault::UndefinedSymbol(name)), s),
            },
            Term::ListLiteral(items) => match eval_terms(items, f, s, (fuel - 1) as nat) {
                (Ok(vs), s1) => (Ok(Val::List(vs)), s1),
                (Err(e), s1) => (Err(e), s1),
            },
            Term::List(items) => eval_form(items, f, s, (fuel - 1) as nat),
            Term::Call(func, args) => call_form(*func, args, f, s, (fuel - 1) as nat),
        }
    }
}

/// Evaluates expressions left to right, stopping at the first failure.
pub open spec fn eval_terms(items: Seq<Term>, f: nat, s: State, fuel: nat) -> (
    Result<Seq<Val>, Fault>,
    State,
)
    decreases fuel, items.len(),
{
    if items.len() == 0 {
        (Ok(Seq::empty()), s)
    } else {
        match eval_terms(items.drop_last(), f, s, fuel) {
            (Err(e), s1) => (Err(e), s1),
            (Ok(vs), s1) => match eval_term(items.last(), f, s1, fuel) {
                (Ok(v), s2) => (Ok(vs.push(v)), s2),
                (Err(e), s2) => (Err(e), s2),
            },
        }
    }
}

/// Evaluates statements in order; the value is that of the last one, or nil
/// when there are none.
pub open spec fn eval_seq(items: Seq<Term>, f: nat, s: State, fuel: nat) -> (
    Result<Val, Fault>,
    State,
)
    decreases fuel, items.len(),
{
    if items.len() == 0 {
        (Ok(Val::Nil), s)
    } else {
        match eval_seq(items.drop_last(), f, s, fuel) {
            (Err(e), s1) => (Err(e), s1),
            (Ok(_), s1) => eval_term(items.last(), f, s1, fuel),
        }
    }
}

/// Evaluates a parenthesized form: empty, it is the empty list; headed by a
/// symbol, it applies that symbol; otherwise it is a statement sequence.
pub open spec fn eval_form(items: Seq<Term>, f: nat, s: State, fuel: nat) -> (
    Result<Val, Fault>,
    State,
)
    decreases fuel, 0nat,
{
    if fuel == 0 {
        (Err(depth_fault()), s)
    } else if items.len() == 0 {
        (Ok(Val::List(Seq::empty())), s)
    } else if items[0] is Symbol {
        apply_symbol(items[0]->Symbol_0, items.subrange(1, items.len() as int), f, s, (fuel - 1) as nat)
    } else {
        eval_seq(items, f, s, (fuel - 1) as nat)
    }
}

/// Evaluates a juxtaposed call.
pub open spec fn call_form(func: Term, args: Seq<Term>, f: nat, s: State, fuel: nat) -> (
    Result<Val, Fault>,
    State,
)
    decreases fuel, 0nat,
{
    if fuel == 0 {
        (Err(depth_fault()), s)
    } else if func is Symbol {
        apply_symbol(func->Symbol_0, args, f, s, (fuel - 1) as nat)
    } else {
        match eval_term(func, f, s, (fuel - 1) as nat) {
            (Err(e), s1) => (Err(e), s1),
            (Ok(callee), s1) => match eval_terms(args, f, s1, (fuel - 1) as nat) {
                (Err(e), s2) => (Err(e), s2),
                (Ok(vs), s2) => apply_value(callee, vs, s2, (fuel - 1) as nat),
            },
        }
    }
}

/// Applies an operator named by a symbol: the three special forms first, any
/// other name by lookup and application to the evaluated arguments. A name
/// given no arguments whose value cannot be called stands for that value, so
/// that `(n)` groups `n`.
pub open spec fn apply_symbol(name: Seq<char>, args: Seq<Term>, f: nat, s: State, fuel: nat) -> (
    Result<Val, Fault>,
    State,
)
    decreases fuel, 0nat,
{
    if fuel == 0 {
        (Err(depth_fault()), s)
    } else if name == "nobu"@ {
        nobu_form(args, f, s, (fuel - 1) as nat)
    } else if name == "gakas"@ {
        gakas_form(args, f, s, (fuel - 1) as nat)
    } else if name == "gakasdenu"@ {
        gakasdenu_form(args, f, s)
    } else {
        match lookup(s.scopes.frames, f, name) {
            None => (Err(Fault::UndefinedSymbol(name)), s),
            Some(callee) => if args.len() == 0 && !(callee is Builtin || callee is Function) {
                (Ok(callee), s)
            } else {
                match eval_terms(args, f, s, (fuel - 1) as nat) {
                (Err(e), s1) => (Err(e), s1),
                (Ok(vs), s1) => apply_value(callee, vs, s1, (fuel - 1) as nat),
                }
            },
        }
    }
}

/// The conditional: evaluates the condition, then only the chosen branch.
pub open spec fn nobu_form(args: Seq<Term>, f: nat, s: State, fuel: nat) -> (
    Result<Val, Fault>,
    State,
)
    decreases fuel, 0nat,
{
    if fuel == 0 {
        (Err(depth_fault()), s)
    } else if args.len() != 3 {
        (Err(arity_fault("nobu"@, exact_descriptor(3), args.len())), s)
    } else {
        match eval_term(args[0], f, s, (fuel - 1) as nat) {
            (Err(e), s1) => (Err(e), s1),
            (Ok(Val::Bool(true)), s1) => eval_term(args[1], f, s1, (fuel - 1) as nat),
            (Ok(Val::Bool(false)), s1) => eval_term(args[2], f, s1, (fuel - 1) as nat),
            (Ok(v), s1) => (
                Err(Fault::TypeMismatch { expected: "boolean"@, found: type_name_of(v) }),
                s1,
            ),
        }
    }
}

/// Binding: evaluates the value and binds the name in the current frame.
pub open spec fn gakas_form(args: Seq<Term>, f: nat, s: State, fuel: nat) -> (
    Result<Val, Fault>,
    State,
)
    decreases fuel, 0nat,
{
    if fuel == 0 {
        (Err(depth_fault()), s)
    } else if args.len() != 2 {
        (Err(arity_fault("gakas"@, exact_descriptor(2), args.len())), s)
    } else if !(args[0] is Symbol) {
        (Err(Fault::Eval("gakas: first argument must be symbol"@)), s)
    } else {
        match eval_term(args[1], f, s, (fuel - 1) as nat) {
            (Err(e), s1) => (Err(e), s1),
            (Ok(v), s1) => (
                Ok(v),
                with_scopes(s1, define_in(s1.scopes, f, args[0]->Symbol_0, v)),
            ),
        }
    }
}

/// Function definition: makes a closure over the current frame and binds it
/// there under its name.
pub open spec fn gakasdenu_form(args: Seq<Term>, f: nat, s: State) -> (Result<Val, Fault>, State) {
    if args.len() != 3 {
        (Err(arity_fault("gakasdenu"@, exact_descriptor(3), args.len())), s)
    } else if !(args[0] is Symbol) {
        (Err(Fault::Eval("gakasdenu: function name must be symbol"@)), s)
    } else {
        match params_of(args[1]) {
            Err(e) => (Err(e), s),
            Ok(params) => if s.scopes.next_id >= usize::MAX {
                (Err(capacity_fault()), s)
            } else {
                let c = Closure { id: s.scopes.next_id, params, body: body_of(args[2]), env: f };
                let numbered = Scopes { next_id: s.scopes.next_id + 1, ..s.scopes };
                (
                    Ok(Val::Function(c)),
                    with_scopes(s, define_in(numbered, f, args[0]->Symbol_0, Val::Function(c))),
                )
            },
        }
    }
}

/// Applies a value to evaluated arguments: a primitive runs; a closure runs
/// its body in a new frame whose parent is the closure's frame. Bindings are
/// only ever made in the innermost frame, so once the body is done the frames
/// made for the call are released unless the result holds a closure over one
/// of them.
pub open spec fn apply_value(callee: Val, args: Seq<Val>, s: State, fuel: nat) -> (
    Result<Val, Fault>,
    State,
)
    decreases fuel, 0nat,
{
    if fuel == 0 {
        (Err(depth_fault()), s)
    } else {
        match callee {
            Val::Builtin(op) => (
                primitive_result(op, args),
                State { scopes: s.scopes, out: s.out + primitive_output(op, args) },
            ),
            Val::Function(c) => if c.params.len() != args.len() {
                (Err(arity_fault("lambda"@, exact_descriptor(c.params.len()), args.len())), s)
            } else if s.scopes.frames.len() >= usize::MAX {
                (Err(capacity_fault()), s)
            } else {
                let child = s.scopes.frames.len();
                let frame = FrameModel { vars: bind_params(c.params, args), parent: Some(c.env) };
                let s1 = with_scopes(s, Scopes { frames: s.scopes.frames.push(frame), ..s.scopes });
                let (r, s2) = eval_seq(c.body, child, s1, (fuel - 1) as nat);
                if r matches Ok(v) && holds_frame_from(v, child) {
                    (r, s2)
                } else {
                    (r, release_from(s2, child))
                }
            },
            v => (
                Err(Fault::Eval("attempted to call non-callable value of type "@ + type_name_of(v))),
                s,
            ),
        }
    }
}

/// The number of frames that a state holds.
pub open spec fn frame_count(s: State) -> nat {
    s.scopes.frames.len()
}

/// Evaluation never removes a frame.
pub proof fn lemma_term_keeps_frames(t: Term, f: nat, s: State, fuel: nat)
    requires
        f < frame_count(s),
    ensures
        frame_count(eval_term(t, f, s, fuel).1) >= frame_count(s),
    decreases fuel, 0nat,
{
    if fuel > 0 {
        match t {
            Term::ListLiteral(items) => lemma_terms_keep_frames(items, f, s, (fuel - 1) as nat),
            Term::List(items) => lemma_form_keeps_frames(items, f, s, (fuel - 1) as nat),
            Term::Call(func, args) => lemma_call_keeps_frames(*func, args, f, s, (fuel - 1) as nat),
            _ => {},
        }
    }
}

pub proof fn lemma_terms_keep_frames(items: Seq<Term>, f: nat, s: State, fuel: nat)
    requires
        f < frame_count(s),
    ensures
        frame_count(eval_terms(items, f, s, fuel).1) >= frame_count(s),
    decreases fuel, items.len(),
{
    if items.len() > 0 {
        lemma_terms_keep_frames(items.drop_last(), f, s, fuel);
        let s1 = eval_terms(items.drop_last(), f, s, fuel).1;
        lemma_term_keeps_frames(items.last(), f, s1, fuel);
    }
}

pub proof fn lemma_seq_keeps_frames(items: Seq<Term>, f: nat, s: State, fuel: nat)
    requires
        f < frame_count(s),
    ensures
        frame_count(eval_seq(items, f, s, fuel).1) >= frame_count(s),
    decreases fuel, items.len(),
{
    if items.len() > 0 {
        lemma_seq_keeps_frames(items.drop_last(), f, s, fuel);
        let s1 = eval_seq(items.drop_last(), f, s, fuel).1;
        lemma_term_keeps_frames(items.last(), f, s1, fuel);
    }
}

pub proof fn lemma_form_keeps_frames(items: Seq<Term>, f: nat, s: State, fuel: nat)
    requires
        f < frame_count(s),
    ensures
        frame_count(eval_form(items, f, s, fuel).1) >= frame_count(s),
    decreases fuel, 0nat,
{
    if fuel > 0 && items.len() > 0 {
        if items[0] is Symbol {
            lemma_symbol_keeps_frames(
                items[0]->Symbol_0,
                items.subrange(1, items.len() as int),
                f,
                s,
                (fuel - 1) as nat,
            );
        } else {
            lemma_seq_keeps_frames(items, f, s, (fuel - 1) as nat);
        }
    }
}

pub proof fn lemma_call_keeps_frames(func: Term, args: Seq<Term>, f: nat, s: State, fuel: nat)
    requires
        f < frame_count(s),
    ensures
        frame_count(call_form(func, args, f, s, fuel).1) >= frame_count(s),
    decreases fuel, 0nat,
{
    if fuel > 0 {
        if func is Symbol {
            lemma_symbol_keeps_frames(func->Symbol_0, args, f, s, (fuel - 1) as nat);
        } else {
            lemma_term_keeps_frames(func, f, s, (fuel - 1) as nat);
            let (c, s1) = eval_term(func, f, s, (fuel - 1) as nat);
            lemma_terms_keep_frames(args, f, s1, (fuel - 1) as nat);
            let (vs, s2) = eval_terms(args, f, s1, (fuel - 1) as nat);
            if c is Ok && vs is Ok {
                lemma_apply_keeps_frames(c->Ok_0, vs->Ok_0, s2, (fuel - 1) as nat);
            }
        }
    }
}

pub proof fn lemma_symbol_keeps_frames(name: Seq<char>, args: Seq<Term>, f: nat, s: State, fuel: nat)
    requires
        f < frame_count(s),
    ensures
        frame_count(apply_symbol(name, args, f, s, fuel).1) >= frame_count(s),
    decreases fuel, 0nat,
{
    if fuel > 0 {
        if name == "nobu"@ {
            lemma_nobu_keeps_frames(args, f, s, (fuel - 1) as nat);
        } else if name == "gakas"@ {
            lemma_gakas_keeps_frames(args, f, s, (fuel - 1) as nat);
        } else if name == "gakasdenu"@ {
        } else {
            lemma_terms_keep_frames(args, f, s, (fuel - 1) as nat);
            let (vs, s1) = eval_terms(args, f, s, (fuel - 1) as nat);
            if let (Some(callee), Ok(vals)) = (lookup(s.scopes.frames, f, name), vs) {
                lemma_apply_keeps_frames(callee, vals, s1, (fuel - 1) as nat);
            }
        }
    }
}

pub proof fn lemma_nobu_keeps_frames(args: Seq<Term>, f: nat, s: State, fuel: nat)
    requires
        f < frame_count(s),
    ensures
        frame_count(nobu_form(args, f, s, fuel).1) >= frame_count(s),
    decreases fuel, 0nat,
{
    if fuel > 0 && args.len() == 3 {
        lemma_term_keeps_frames(args[0], f, s, (fuel - 1) as nat);
        let s1 = eval_term(args[0], f, s, (fuel - 1) as nat).1;
        lemma_term_keeps_frames(args[1], f, s1, (fuel - 1) as nat);
        lemma_term_keeps_frames(args[2], f, s1, (fuel - 1) as nat);
    }
}

pub proof fn lemma_gakas_keeps_frames(args: Seq<Term>, f: nat, s: State, fuel: nat)
    requires
        f < frame_count(s),
    ensures
        frame_count(gakas_form(args, f, s, fuel).1) >= frame_count(s),
    decreases fuel, 0nat,
{
    if fuel > 0 && args.len() == 2 {
        lemma_term_keeps_frames(args[1], f, s, (fuel - 1) as nat);
    }
}

pub proof fn lemma_apply_keeps_frames(callee: Val, args: Seq<Val>, s: State, fuel: nat)
    ensures
        frame_count(apply_value(callee, args, s, fuel).1) >= frame_count(s),
    decreases fuel, 0nat,
{
    if fuel > 0 {
        if let Val::Function(c) = callee {
            if c.params.len() == args.len() && s.scopes.frames.len() < usize::MAX {
                let child = s.scopes.frames.len();
                let frame = FrameModel { vars: bind_params(c.params, args), parent: Some(c.env) };
                let s1 = with_scopes(s, Scopes { frames: s.scopes.frames.push(frame), ..s.scopes });
                lemma_seq_keeps_frames(c.body, child, s1, (fuel - 1) as nat);
                let s2 = eval_seq(c.body, child, s1, (fuel - 1) as nat).1;
                assert(release_from(s2, child).scopes.frames.len() == child);
            }
        }
    }
}

} // verus!
