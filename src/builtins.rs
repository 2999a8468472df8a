//! The primitive operations. Each one checks its own argument count and the
//! kind of each argument before it computes; the arity recorded with a
//! primitive's value describes that check and is not enforced a second time by
//! the evaluator. Integer arithmetic is checked: a result outside the 64-bit
//! range is a failure, never a wrapped value.
use vstd::prelude::*;
use vstd::relations::{sorted_by, total_ordering};

use crate::env::{define_in, Environment, Scopes};
use crate::error::{
    arity_fault, at_least_descriptor, exact_descriptor, Fault, SatukitanError,
};
use crate::text::concat;
use crate::value::{
    display_items, lemma_list_value_view, primitive_name, strings_view, type_name_of, val_eq,
    values_view, result_view, BuiltinFunction, Primitive, Val, Value, displays,
    lemma_display_list, join_strings,
};

verus! {

/// The failure of a primitive handed an argument of the wrong kind.
pub open spec fn kind_fault(name: Seq<char>, expected: Seq<char>, v: Val) -> Fault {
    Fault::Eval(name + ": expected "@ + expected + ", found "@ + type_name_of(v))
}

/// The failure of a primitive whose result leaves the 64-bit range.
pub open spec fn overflow_fault(name: Seq<char>) -> Fault {
    Fault::Eval(name + ": integer overflow"@)
}

pub open spec fn in_i64(x: int) -> bool {
    i64::MIN <= x <= i64::MAX
}

/// Folds `add`, `sub` or `mul` over numeric arguments from the left, checking
/// each argument's kind and each intermediate result's range in turn. `sub`
/// starts from its first argument, `add` from 0 and `mul` from 1.
pub open spec fn arith_fold(op: Primitive, args: Seq<Val>) -> Result<i64, Fault>
    decreases args.len(),
{
    if args.len() == 0 {
        Ok(if op == Primitive::Mul { 1 } else { 0 })
    } else {
        match arith_fold(op, args.drop_last()) {
            Err(e) => Err(e),
            Ok(acc) => match args.last() {
                Val::Number(n) => {
                    let x: int = if op == Primitive::Sub && args.len() == 1 {
                        n as int
                    } else if op == Primitive::Sub {
                        acc - n
                    } else if op == Primitive::Mul {
                        acc * n
                    } else {
                        acc + n
                    };
                    if in_i64(x) {
                        Ok(x as i64)
                    } else {
                        Err(overflow_fault(primitive_name(op)))
                    }
                },
                v => Err(kind_fault(primitive_name(op), "number"@, v)),
            },
        }
    }
}

/// Folds `and` or `or` over boolean arguments from the left; every argument
/// is checked.
pub open spec fn logic_fold(op: Primitive, args: Seq<Val>) -> Result<bool, Fault>
    decreases args.len(),
{
    if args.len() == 0 {
        Ok(op == Primitive::And)
    } else {
        match logic_fold(op, args.drop_last()) {
            Err(e) => Err(e),
            Ok(acc) => match args.last() {
                Val::Bool(b) => Ok(if op == Primitive::And { acc && b } else { acc || b }),
                v => Err(kind_fault(primitive_name(op), "boolean"@, v)),
            },
        }
    }
}

/// The numbers of a list, or the failure for its first item that is not one.
pub open spec fn numbers_of(op: Primitive, items: Seq<Val>) -> Result<Seq<i64>, Fault>
    decreases items.len(),
{
    if items.len() == 0 {
        Ok(Seq::empty())
    } else {
        match numbers_of(op, items.drop_last()) {
            Err(e) => Err(e),
            Ok(ns) => match items.last() {
                Val::Number(n) => Ok(ns.push(n)),
                v => Err(kind_fault(primitive_name(op), "number"@, v)),
            },
        }
    }
}

pub open spec fn num_leq() -> spec_fn(i64, i64) -> bool {
    |a: i64, b: i64| a <= b
}

/// The numbers in ascending order.
pub open spec fn ascending(ns: Seq<i64>) -> Seq<i64> {
    ns.sort_by(num_leq())
}

/// Integers as number values.
pub open spec fn number_vals(ns: Seq<i64>) -> Seq<Val> {
    ns.map_values(|n: i64| Val::Number(n))
}

pub open spec fn numbers_val(ns: Seq<i64>) -> Val {
    Val::List(number_vals(ns))
}

/// Whether the argument count meets the policy that `op` declares; when it
/// does not, the failure it reports.
pub open spec fn arity_check(op: Primitive, n: nat) -> Option<Fault> {
    match op {
        Primitive::Add | Primitive::Sub | Primitive::Mul | Primitive::And | Primitive::Or
        | Primitive::Eq => if n >= 2 {
            None
        } else {
            Some(arity_fault(primitive_name(op), at_least_descriptor(2), n))
        },
        Primitive::Lt | Primitive::Gt | Primitive::Le | Primitive::Ge => if n == 2 {
            None
        } else {
            Some(arity_fault(primitive_name(op), exact_descriptor(2), n))
        },
        Primitive::Sort | Primitive::Length => if n == 1 {
            None
        } else {
            Some(arity_fault(primitive_name(op), exact_descriptor(1), n))
        },
        Primitive::Print => None,
    }
}

pub open spec fn compare(op: Primitive, a: i64, b: i64) -> bool {
    match op {
        Primitive::Lt => a < b,
        Primitive::Gt => a > b,
        Primitive::Le => a <= b,
        _ => a >= b,
    }
}

/// What a primitive operation returns on evaluated arguments.
pub open spec fn primitive_result(op: Primitive, args: Seq<Val>) -> Result<Val, Fault> {
    if let Some(e) = arity_check(op, args.len()) {
        Err(e)
    } else {
        match op {
            Primitive::Add | Primitive::Sub | Primitive::Mul => match arith_fold(op, args) {
                Ok(n) => Ok(Val::Number(n)),
                Err(e) => Err(e),
            },
            Primitive::And | Primitive::Or => match logic_fold(op, args) {
                Ok(b) => Ok(Val::Bool(b)),
                Err(e) => Err(e),
            },
            Primitive::Lt | Primitive::Gt | Primitive::Le | Primitive::Ge => match args[0] {
                Val::Number(a) => match args[1] {
                    Val::Number(b) => Ok(Val::Bool(compare(op, a, b))),
                    v => Err(kind_fault(primitive_name(op), "number"@, v)),
                },
                v => Err(kind_fault(primitive_name(op), "number"@, v)),
            },
            Primitive::Eq => Ok(
                Val::Bool(forall|i: int| 0 <= i < args.len() ==> val_eq(args[0], #[trigger] args[i])),
            ),
            Primitive::Sort => match args[0] {
                Val::List(items) => match numbers_of(op, items) {
                    Ok(ns) => Ok(numbers_val(ascending(ns))),
                    Err(e) => Err(e),
                },
                v => Err(kind_fault(primitive_name(op), "list"@, v)),
            },
            Primitive::Length => match args[0] {
                Val::List(items) => Ok(Val::Number(items.len() as i64)),
                v => Err(kind_fault(primitive_name(op), "list"@, v)),
            },
            Primitive::Print => Ok(Val::Nil),
        }
    }
}

/// The lines a primitive operation prints: `print` one line, the others none.
pub open spec fn primitive_output(op: Primitive, args: Seq<Val>) -> Seq<Seq<char>> {
    if op == Primitive::Print {
        seq![display_items(args)]
    } else {
        Seq::empty()
    }
}

fn kind_error(name: &str, expected: &str, v: &Value) -> (r: SatukitanError)
    ensures
        r@ == kind_fault(name@, expected@, v@),
{
    let mut m = concat(name, ": expected ");
    m.append(expected);
    m.append(", found ");
    m.append(v.kind_name());
    proof {
        assert(m@ =~= name@ + ": expected "@ + expected@ + ", found "@ + type_name_of(v@));
    }
    SatukitanError::Eval(m)
}

fn overflow_error(name: &str) -> (r: SatukitanError)
    ensures
        r@ == overflow_fault(name@),
{
    SatukitanError::Eval(concat(name, ": integer overflow"))
}

/// Fails unless exactly `expected` arguments were given.
pub fn ensure_exact(name: &str, args: &Vec<Value>, expected: usize) -> (r: Result<(), SatukitanError>)
    ensures
        r is Ok <==> args.len() == expected,
        r matches Err(e) ==> e@ == arity_fault(name@, exact_descriptor(expected as nat), args.len() as nat),
{
    if args.len() == expected {
        Ok(())
    } else {
        Err(SatukitanError::arity_exact(name, expected, args.len()))
    }
}

/// Fails unless at least `expected` arguments were given.
pub fn ensure_at_least(name: &str, args: &Vec<Value>, expected: usize) -> (r: Result<(), SatukitanError>)
    ensures
        r is Ok <==> args.len() >= expected,
        r matches Err(e) ==> e@ == arity_fault(name@, at_least_descriptor(expected as nat), args.len() as nat),
{
    if args.len() >= expected {
        Ok(())
    } else {
        Err(SatukitanError::arity_at_least(name, expected, args.len()))
    }
}

/// The number that `v` holds, or the failure that `name` reports.
pub fn expect_number(name: &str, v: &Value) -> (r: Result<i64, SatukitanError>)
    ensures
        v@ matches Val::Number(n) ==> r == Ok::<i64, SatukitanError>(n),
        !(v@ is Number) ==> (r matches Err(e) && e@ == kind_fault(name@, "number"@, v@)),
{
    match v {
        Value::Number(n) => Ok(*n),
        other => Err(kind_error(name, "number", other)),
    }
}

/// The boolean that `v` holds, or the failure that `name` reports.
pub fn expect_bool(name: &str, v: &Value) -> (r: Result<bool, SatukitanError>)
    ensures
        v@ matches Val::Bool(b) ==> r == Ok::<bool, SatukitanError>(b),
        !(v@ is Bool) ==> (r matches Err(e) && e@ == kind_fault(name@, "boolean"@, v@)),
{
    match v {
        Value::Bool(b) => Ok(*b),
        other => Err(kind_error(name, "boolean", other)),
    }
}

/// The items of the list `v`, or the failure that `name` reports.
pub fn expect_list<'a>(name: &str, v: &'a Value) -> (r: Result<&'a Vec<Value>, SatukitanError>)
    ensures
        r is Ok <==> v@ is List,
        r matches Ok(items) ==> v@ == Val::List(values_view(items@)),
        !(v@ is List) ==> (r matches Err(e) && e@ == kind_fault(name@, "list"@, v@)),
{
    proof {
        lemma_list_value_view(v);
    }
    match v {
        Value::List(items) => Ok(items),
        other => Err(kind_error(name, "list", other)),
    }
}

fn arith(op: Primitive, args: &Vec<Value>) -> (r: Result<i64, SatukitanError>)
    requires
        op == Primitive::Add || op == Primitive::Sub || op == Primitive::Mul,
    ensures
        match r {
            Ok(n) => arith_fold(op, values_view(args@)) == Ok::<i64, Fault>(n),
            Err(e) => arith_fold(op, values_view(args@)) == Err::<i64, Fault>(e@),
        },
{
    let ghost vv = values_view(args@);
    let name = op.name();
    let mut acc: i64 = if op == Primitive::Mul { 1 } else { 0 };
    let mut i: usize = 0;
    proof {
        assert(vv.subrange(0, 0) =~= Seq::<Val>::empty());
    }
    while i < args.len()
        invariant
            i <= args.len(),
            vv == values_view(args@),
            name@ == primitive_name(op),
            op == Primitive::Add || op == Primitive::Sub || op == Primitive::Mul,
            arith_fold(op, vv.subrange(0, i as int)) == Ok::<i64, Fault>(acc),
        decreases args.len() - i,
    {
        let ghost pre = vv.subrange(0, i as int + 1);
        proof {
            assert(pre.drop_last() =~= vv.subrange(0, i as int));
            assert(pre.last() == args@[i as int]@);
        }
        let n = match expect_number(name, &args[i]) {
            Ok(n) => n,
            Err(e) => {
                proof {
                    lemma_fold_prefix_err(op, vv, i as int + 1);
                }
                return Err(e);
            },
        };
        let x: i128 = if op == Primitive::Sub && i == 0 {
            n as i128
        } else if op == Primitive::Sub {
            acc as i128 - n as i128
        } else if op == Primitive::Mul {
            proof {
                let (a, b) = (acc as int, n as int);
                assert(-0x4000_0000_0000_0000_0000_0000_0000_0000 <= a * b
                    <= 0x4000_0000_0000_0000_0000_0000_0000_0000) by (nonlinear_arith)
                    requires
                        -0x8000_0000_0000_0000 <= a <= 0x8000_0000_0000_0000,
                        -0x8000_0000_0000_0000 <= b <= 0x8000_0000_0000_0000,
                {}
            }
            acc as i128 * n as i128
        } else {
            acc as i128 + n as i128
        };
        if x < i64::MIN as i128 || x > i64::MAX as i128 {
            proof {
                lemma_fold_prefix_err(op, vv, i as int + 1);
            }
            return Err(overflow_error(name));
        }
        acc = x as i64;
        i += 1;
    }
    proof {
        assert(vv.subrange(0, args.len() as int) =~= vv);
    }
    Ok(acc)
}

/// A failure in a prefix of the arguments is the failure of the whole fold.
proof fn lemma_fold_prefix_err(op: Primitive, args: Seq<Val>, k: int)
    requires
        0 <= k <= args.len(),
        arith_fold(op, args.subrange(0, k)) is Err,
    ensures
        arith_fold(op, args) == arith_fold(op, args.subrange(0, k)),
    decreases args.len() - k,
{
    if k < args.len() {
        let next = args.subrange(0, k + 1);
        assert(next.drop_last() =~= args.subrange(0, k));
        lemma_fold_prefix_err(op, args, k + 1);
    } else {
        assert(args.subrange(0, k) =~= args);
    }
}

proof fn lemma_logic_prefix_err(op: Primitive, args: Seq<Val>, k: int)
    requires
        0 <= k <= args.len(),
        logic_fold(op, args.subrange(0, k)) is Err,
    ensures
        logic_fold(op, args) == logic_fold(op, args.subrange(0, k)),
    decreases args.len() - k,
{
    if k < args.len() {
        let next = args.subrange(0, k + 1);
        assert(next.drop_last() =~= args.subrange(0, k));
        lemma_logic_prefix_err(op, args, k + 1);
    } else {
        assert(args.subrange(0, k) =~= args);
    }
}

proof fn lemma_numbers_prefix_err(op: Primitive, items: Seq<Val>, k: int)
    requires
        0 <= k <= items.len(),
        numbers_of(op, items.subrange(0, k)) is Err,
    ensures
        numbers_of(op, items) == numbers_of(op, items.subrange(0, k)),
    decreases items.len() - k,
{
    if k < items.len() {
        let next = items.subrange(0, k + 1);
        assert(next.drop_last() =~= items.subrange(0, k));
        lemma_numbers_prefix_err(op, items, k + 1);
    } else {
        assert(items.subrange(0, k) =~= items);
    }
}

fn logic(op: Primitive, args: &Vec<Value>) -> (r: Result<bool, SatukitanError>)
    requires
        op == Primitive::And || op == Primitive::Or,
    ensures
        match r {
            Ok(b) => logic_fold(op, values_view(args@)) == Ok::<bool, Fault>(b),
            Err(e) => logic_fold(op, values_view(args@)) == Err::<bool, Fault>(e@),
        },
{
    let ghost vv = values_view(args@);
    let name = op.name();
    let mut acc: bool = op == Primitive::And;
    let mut i: usize = 0;
    proof {
        assert(vv.subrange(0, 0) =~= Seq::<Val>::empty());
    }
    while i < args.len()
        invariant
            i <= args.len(),
            vv == values_view(args@),
            name@ == primitive_name(op),
            logic_fold(op, vv.subrange(0, i as int)) == Ok::<bool, Fault>(acc),
        decreases args.len() - i,
    {
        let ghost pre = vv.subrange(0, i as int + 1);
        proof {
            assert(pre.drop_last() =~= vv.subrange(0, i as int));
            assert(pre.last() == args@[i as int]@);
        }
        let b = match expect_bool(name, &args[i]) {
            Ok(b) => b,
            Err(e) => {
                proof {
                    lemma_logic_prefix_err(op, vv, i as int + 1);
                }
                return Err(e);
            },
        };
        acc = if op == Primitive::And { acc && b } else { acc || b };
        i += 1;
    }
    proof {
        assert(vv.subrange(0, args.len() as int) =~= vv);
    }
    Ok(acc)
}

fn collect_numbers(op: Primitive, items: &Vec<Value>) -> (r: Result<Vec<i64>, SatukitanError>)
    ensures
        match r {
            Ok(ns) => numbers_of(op, values_view(items@)) == Ok::<Seq<i64>, Fault>(ns@),
            Err(e) => numbers_of(op, values_view(items@)) == Err::<Seq<i64>, Fault>(e@),
        },
{
    let ghost vv = values_view(items@);
    let name = op.name();
    let mut ns: Vec<i64> = Vec::new();
    let mut i: usize = 0;
    proof {
        assert(vv.subrange(0, 0) =~= Seq::<Val>::empty());
    }
    while i < items.len()
        invariant
            i <= items.len(),
            vv == values_view(items@),
            name@ == primitive_name(op),
            numbers_of(op, vv.subrange(0, i as int)) == Ok::<Seq<i64>, Fault>(ns@),
        decreases items.len() - i,
    {
        let ghost pre = vv.subrange(0, i as int + 1);
        proof {
            assert(pre.drop_last() =~= vv.subrange(0, i as int));
            assert(pre.last() == items@[i as int]@);
        }
        let n = match expect_number(name, &items[i]) {
            Ok(n) => n,
            Err(e) => {
                proof {
                    lemma_numbers_prefix_err(op, vv, i as int + 1);
                }
                return Err(e);
            },
        };
        ns.push(n);
        i += 1;
    }
    proof {
        assert(vv.subrange(0, items.len() as int) =~= vv);
    }
    Ok(ns)
}

/// Relies on `slice::sort_unstable`: afterwards the integers are in ascending
/// order, and they are the same integers as before.
#[verifier::external_body]
fn sort_numbers(ns: &mut Vec<i64>)
    ensures
        sorted_by(final(ns)@, num_leq()),
        final(ns)@.to_multiset() == old(ns)@.to_multiset(),
{
    ns.sort_unstable();
}

proof fn lemma_num_leq_total()
    ensures
        total_ordering(num_leq()),
{
}

/// A sorted rearrangement of integers is their ascending order.
proof fn lemma_sorted_is_ascending(ns: Seq<i64>, s: Seq<i64>)
    requires
        sorted_by(s, num_leq()),
        s.to_multiset() == ns.to_multiset(),
    ensures
        s == ascending(ns),
{
    lemma_num_leq_total();
    ns.lemma_sort_by_ensures(num_leq());
    vstd::seq_lib::lemma_sorted_unique(s, ascending(ns), num_leq());
}

fn numbers_value(ns: Vec<i64>) -> (r: Value)
    ensures
        r@ == numbers_val(ns@),
{
    let mut out: Vec<Value> = Vec::new();
    let mut i: usize = 0;
    while i < ns.len()
        invariant
            i <= ns.len(),
            out.len() == i,
            forall|j: int| 0 <= j < i ==> #[trigger] out@[j]@ == Val::Number(ns@[j]),
        decreases ns.len() - i,
    {
        out.push(Value::Number(ns[i]));
        i += 1;
    }
    let r = Value::List(out);
    proof {
        lemma_list_value_view(&r);
        assert(values_view(out@) =~= number_vals(ns@));
    }
    r
}

pub fn builtin_add(args: &Vec<Value>) -> (r: Result<Value, SatukitanError>)
    ensures
        result_view(r) == primitive_result(Primitive::Add, values_view(args@)),
{
    if let Err(e) = ensure_at_least("ritas", args, 2) {
        return Err(e);
    }
    match arith(Primitive::Add, args) {
        Ok(n) => Ok(Value::Number(n)),
        Err(e) => Err(e),
    }
}

pub fn builtin_sub(args: &Vec<Value>) -> (r: Result<Value, SatukitanError>)
    ensures
        result_view(r) == primitive_result(Primitive::Sub, values_view(args@)),
{
    if let Err(e) = ensure_at_least("matyes", args, 2) {
        return Err(e);
    }
    match arith(Primitive::Sub, args) {
        Ok(n) => Ok(Value::Number(n)),
        Err(e) => Err(e),
    }
}

pub fn builtin_mul(args: &Vec<Value>) -> (r: Result<Value, SatukitanError>)
    ensures
        result_view(r) == primitive_result(Primitive::Mul, values_view(args@)),
{
    if let Err(e) = ensure_at_least("nitas", args, 2) {
        return Err(e);
    }
    match arith(Primitive::Mul, args) {
        Ok(n) => Ok(Value::Number(n)),
        Err(e) => Err(e),
    }
}

pub fn builtin_and(args: &Vec<Value>) -> (r: Result<Value, SatukitanError>)
    ensures
        result_view(r) == primitive_result(Primitive::And, values_view(args@)),
{
    if let Err(e) = ensure_at_least("teses", args, 2) {
        return Err(e);
    }
    match logic(Primitive::And, args) {
        Ok(b) => Ok(Value::Bool(b)),
        Err(e) => Err(e),
    }
}

pub fn builtin_or(args: &Vec<Value>) -> (r: Result<Value, SatukitanError>)
    ensures
        result_view(r) == primitive_result(Primitive::Or, values_view(args@)),
{
    if let Err(e) = ensure_at_least("kenus", args, 2) {
        return Err(e);
    }
    match logic(Primitive::Or, args) {
        Ok(b) => Ok(Value::Bool(b)),
        Err(e) => Err(e),
    }
}

pub fn builtin_lt(args: &Vec<Value>) -> (r: Result<Value, SatukitanError>)
    ensures
        result_view(r) == primitive_result(Primitive::Lt, values_view(args@)),
{
    if let Err(e) = ensure_exact("ditas", args, 2) {
        return Err(e);
    }
    proof {
        assert(values_view(args@)[0] == args@[0]@);
        assert(values_view(args@)[1] == args@[1]@);
    }
    let a = match expect_number("ditas", &args[0]) {
        Ok(a) => a,
        Err(e) => {
            return Err(e);
        },
    };
    let b = match expect_number("ditas", &args[1]) {
        Ok(b) => b,
        Err(e) => {
            return Err(e);
        },
    };
    Ok(Value::Bool(a < b))
}

pub fn builtin_gt(args: &Vec<Value>) -> (r: Result<Value, SatukitanError>)
    ensures
        result_view(r) == primitive_result(Primitive::Gt, values_view(args@)),
{
    if let Err(e) = ensure_exact("fityes", args, 2) {
        return Err(e);
    }
    proof {
        assert(values_view(args@)[0] == args@[0]@);
        assert(values_view(args@)[1] == args@[1]@);
    }
    let a = match expect_number("fityes", &args[0]) {
        Ok(a) => a,
        Err(e) => {
            return Err(e);
        },
    };
    let b = match expect_number("fityes", &args[1]) {
        Ok(b) => b,
        Err(e) => {
            return Err(e);
        },
    };
    Ok(Value::Bool(a > b))
}

pub fn builtin_le(args: &Vec<Value>) -> (r: Result<Value, SatukitanError>)
    ensures
        result_view(r) == primitive_result(Primitive::Le, values_view(args@)),
{
    if let Err(e) = ensure_exact("ditasgata", args, 2) {
        return Err(e);
    }
    proof {
        assert(values_view(args@)[0] == args@[0]@);
        assert(values_view(args@)[1] == args@[1]@);
    }
    let a = match expect_number("ditasgata", &args[0]) {
        Ok(a) => a,
        Err(e) => {
            return Err(e);
        },
    };
    let b = match expect_number("ditasgata", &args[1]) {
        Ok(b) => b,
        Err(e) => {
            return Err(e);
        },
    };
    Ok(Value::Bool(a <= b))
}

pub fn builtin_ge(args: &Vec<Value>) -> (r: Result<Value, SatukitanError>)
    ensures
        result_view(r) == primitive_result(Primitive::Ge, values_view(args@)),
{
    if let Err(e) = ensure_exact("fityesgata", args, 2) {
        return Err(e);
    }
    proof {
        assert(values_view(args@)[0] == args@[0]@);
        assert(values_view(args@)[1] == args@[1]@);
    }
    let a = match expect_number("fityesgata", &args[0]) {
        Ok(a) => a,
        Err(e) => {
            return Err(e);
        },
    };
    let b = match expect_number("fityesgata", &args[1]) {
        Ok(b) => b,
        Err(e) => {
            return Err(e);
        },
    };
    Ok(Value::Bool(a >= b))
}

pub fn builtin_eq(args: &Vec<Value>) -> (r: Result<Value, SatukitanError>)
    ensures
        result_view(r) == primitive_result(Primitive::Eq, values_view(args@)),
{
    if let Err(e) = ensure_at_least("gatas", args, 2) {
        return Err(e);
    }
    let ghost vv = values_view(args@);
    let first = &args[0];
    let mut i: usize = 0;
    while i < args.len()
        invariant
            i <= args.len(),
            args.len() >= 2,
            vv == values_view(args@),
            *first == args@[0],
            forall|j: int| 0 <= j < i ==> val_eq(vv[0], #[trigger] vv[j]),
        decreases args.len() - i,
    {
        if !first.structural_eq(&args[i]) {
            proof {
                assert(!val_eq(vv[0], vv[i as int]));
            }
            return Ok(Value::Bool(false));
        }
        i += 1;
    }
    Ok(Value::Bool(true))
}

pub fn builtin_sort(args: &Vec<Value>) -> (r: Result<Value, SatukitanError>)
    ensures
        result_view(r) == primitive_result(Primitive::Sort, values_view(args@)),
{
    if let Err(e) = ensure_exact("fanitas", args, 1) {
        return Err(e);
    }
    proof {
        assert(values_view(args@)[0] == args@[0]@);
    }
    let items = match expect_list("fanitas", &args[0]) {
        Ok(items) => items,
        Err(e) => {
            return Err(e);
        },
    };
    let mut ns = match collect_numbers(Primitive::Sort, items) {
        Ok(ns) => ns,
        Err(e) => {
            return Err(e);
        },
    };
    let ghost before = ns@;
    sort_numbers(&mut ns);
    proof {
        lemma_sorted_is_ascending(before, ns@);
    }
    Ok(numbers_value(ns))
}

pub fn builtin_length(args: &Vec<Value>) -> (r: Result<Value, SatukitanError>)
    ensures
        result_view(r) == primitive_result(Primitive::Length, values_view(args@)),
{
    if let Err(e) = ensure_exact("rakas", args, 1) {
        return Err(e);
    }
    proof {
        assert(values_view(args@)[0] == args@[0]@);
    }
    match expect_list("rakas", &args[0]) {
        Ok(items) => Ok(Value::Number(items.len() as i64)),
        Err(e) => Err(e),
    }
}

/// Returns nil, and appends to `out` the line that printing the arguments
/// shows: their displays separated by single spaces.
pub fn builtin_print(args: &Vec<Value>, out: &mut Vec<String>) -> (r: Result<Value, SatukitanError>)
    ensures
        result_view(r) == primitive_result(Primitive::Print, values_view(args@)),
        strings_view(final(out)@) == strings_view(old(out)@) + primitive_output(
            Primitive::Print,
            values_view(args@),
        ),
{
    let mut parts: Vec<String> = Vec::new();
    let mut i: usize = 0;
    while i < args.len()
        invariant
            i <= args.len(),
            parts.len() == i,
            forall|j: int| 0 <= j < i ==> #[trigger] parts@[j]@ == crate::value::display(args@[j]@),
        decreases args.len() - i,
    {
        parts.push(args[i].render());
        i += 1;
    }
    proof {
        lemma_display_list(values_view(args@));
        assert(strings_view(parts@) =~= displays(values_view(args@)));
    }
    let line = join_strings(&parts);
    out.push(line);
    proof {
        assert(strings_view(out@) =~= strings_view(old(out)@) + seq![line@]);
    }
    Ok(Value::Nil)
}

/// Runs a primitive operation on evaluated arguments. Each operation checks
/// its own argument count and argument kinds.
pub fn call_primitive(op: Primitive, args: &Vec<Value>, out: &mut Vec<String>) -> (r: Result<Value, SatukitanError>)
    ensures
        result_view(r) == primitive_result(op, values_view(args@)),
        strings_view(final(out)@) == strings_view(old(out)@) + primitive_output(op, values_view(args@)),
{
    proof {
        assert(strings_view(old(out)@) + Seq::<Seq<char>>::empty() =~= strings_view(old(out)@));
    }
    match op {
        Primitive::Add => builtin_add(args),
        Primitive::Sub => builtin_sub(args),
        Primitive::Mul => builtin_mul(args),
        Primitive::And => builtin_and(args),
        Primitive::Or => builtin_or(args),
        Primitive::Lt => builtin_lt(args),
        Primitive::Gt => builtin_gt(args),
        Primitive::Le => builtin_le(args),
        Primitive::Ge => builtin_ge(args),
        Primitive::Eq => builtin_eq(args),
        Primitive::Sort => builtin_sort(args),
        Primitive::Length => builtin_length(args),
        Primitive::Print => builtin_print(args, out),
    }
}

impl BuiltinFunction {
    /// Runs this primitive on evaluated arguments.
    pub fn call(&self, args: &Vec<Value>, out: &mut Vec<String>) -> (r: Result<Value, SatukitanError>)
        ensures
            result_view(r) == primitive_result(self.op, values_view(args@)),
            strings_view(final(out)@) == strings_view(old(out)@) + primitive_output(self.op, values_view(args@)),
    {
        call_primitive(self.op, args, out)
    }
}

/// The root frame's bindings after installing every primitive operation.
pub open spec fn installed(s: Scopes) -> Scopes {
    define_in(define_in(define_in(define_in(define_in(define_in(define_in(define_in(define_in(
        define_in(define_in(define_in(define_in(s,
        0, primitive_name(Primitive::Add), Val::Builtin(Primitive::Add)),
        0, primitive_name(Primitive::Sub), Val::Builtin(Primitive::Sub)),
        0, primitive_name(Primitive::Mul), Val::Builtin(Primitive::Mul)),
        0, primitive_name(Primitive::And), Val::Builtin(Primitive::And)),
        0, primitive_name(Primitive::Or), Val::Builtin(Primitive::Or)),
        0, primitive_name(Primitive::Lt), Val::Builtin(Primitive::Lt)),
        0, primitive_name(Primitive::Gt), Val::Builtin(Primitive::Gt)),
        0, primitive_name(Primitive::Eq), Val::Builtin(Primitive::Eq)),
        0, primitive_name(Primitive::Le), Val::Builtin(Primitive::Le)),
        0, primitive_name(Primitive::Ge), Val::Builtin(Primitive::Ge)),
        0, primitive_name(Primitive::Sort), Val::Builtin(Primitive::Sort)),
        0, primitive_name(Primitive::Length), Val::Builtin(Primitive::Length)),
        0, primitive_name(Primitive::Print), Val::Builtin(Primitive::Print))
}

/// Installs every primitive operation in the root frame.
pub fn install(env: &mut Environment)
    requires
        old(env).frames.len() > 0,
    ensures
        final(env)@ == installed(old(env)@),
        final(env).frames.len() == old(env).frames.len(),
{
    env.define_builtin(Primitive::Add);
    env.define_builtin(Primitive::Sub);
    env.define_builtin(Primitive::Mul);
    env.define_builtin(Primitive::And);
    env.define_builtin(Primitive::Or);
    env.define_builtin(Primitive::Lt);
    env.define_builtin(Primitive::Gt);
    env.define_builtin(Primitive::Eq);
    env.define_builtin(Primitive::Le);
    env.define_builtin(Primitive::Ge);
    env.define_builtin(Primitive::Sort);
    env.define_builtin(Primitive::Length);
    env.define_builtin(Primitive::Print);
}

} // verus!
