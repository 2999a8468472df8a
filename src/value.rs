//! Runtime values, their model, display, and structural equality; the
//! numeral and boolean words.
use vstd::prelude::*;

use crate::ast::{copy_exprs, exprs_view, Expr, Term};
use crate::error::{Fault, SatukitanError};
use crate::text::{
    chars_of, decimal, decimal_string, digits, is_word, join_spaced, lemma_join_step,
};

verus! {

/// How many arguments a primitive operation accepts.
#[derive(Clone, Copy, Debug, PartialEq, Eq, Structural)]
pub enum Arity {
    Exact(usize),
    AtLeast(usize),
    Any,
}

/// The fixed catalog of primitive operations.
#[derive(Clone, Copy, Debug, PartialEq, Eq, Structural)]
pub enum Primitive {
    Add,
    Sub,
    Mul,
    And,
    Or,
    Lt,
    Gt,
    Le,
    Ge,
    Eq,
    Sort,
    Length,
    Print,
}

/// A primitive operation as a runtime value: the operation and its declared arity.
#[derive(Clone, Copy, Debug)]
pub struct BuiltinFunction {
    pub op: Primitive,
    pub arity: Arity,
}

/// A closure: parameter names, the statements of its body, and the handle of
/// the environment frame it was defined in. `id` is unique per closure
/// created, and is what closure equality compares.
#[derive(Debug)]
pub struct FunctionValue {
    pub id: usize,
    pub params: Vec<String>,
    pub body: Vec<Expr>,
    pub env: usize,
}

/// A runtime value.
#[derive(Debug)]
pub enum Value {
    Number(i64),
    Bool(bool),
    String(String),
    List(Vec<Value>),
    Function(FunctionValue),
    Builtin(BuiltinFunction),
    Nil,
}

/// The mathematical model of a closure.
pub struct Closure {
    pub id: nat,
    pub params: Seq<Seq<char>>,
    pub body: Seq<Term>,
    pub env: nat,
}

/// The mathematical model of a runtime value.
pub enum Val {
    Number(i64),
    Bool(bool),
    Str(Seq<char>),
    List(Seq<Val>),
    Function(Closure),
    Builtin(Primitive),
    Nil,
}

pub open spec fn strings_view(s: Seq<String>) -> Seq<Seq<char>> {
    s.map_values(|x: String| x@)
}

impl FunctionValue {
    pub open spec fn view(&self) -> Closure {
        Closure {
            id: self.id as nat,
            params: strings_view(self.params@),
            body: exprs_view(self.body@),
            env: self.env as nat,
        }
    }
}

impl Value {
    pub open spec fn view(&self) -> Val
        decreases self,
    {
        match self {
            Value::Number(n) => Val::Number(*n),
            Value::Bool(b) => Val::Bool(*b),
            Value::String(s) => Val::Str(s@),
            Value::List(items) => Val::List(
                Seq::new(
                    items.len() as nat,
                    |i: int|
                        if 0 <= i < items.len() {
                            items[i].view()
                        } else {
                            Val::Nil
                        },
                ),
            ),
            Value::Function(f) => Val::Function(f.view()),
            Value::Builtin(b) => Val::Builtin(b.op),
            Value::Nil => Val::Nil,
        }
    }
}

pub open spec fn values_view(s: Seq<Value>) -> Seq<Val> {
    Seq::new(s.len(), |i: int| s[i].view())
}

/// The model of an outcome.
pub open spec fn result_view(r: Result<Value, SatukitanError>) -> Result<Val, Fault> {
    match r {
        Ok(v) => Ok(v@),
        Err(e) => Err(e@),
    }
}

/// The model of a list value is the model of its items.
pub proof fn lemma_list_value_view(v: &Value)
    ensures
        v matches Value::List(items) ==> v@ == Val::List(values_view(items@)),
{
    if let Value::List(items) = v {
        assert(v@->List_0 =~= values_view(items@));
    }
}

/// The name under which each primitive operation is installed.
pub open spec fn primitive_name(op: Primitive) -> Seq<char> {
    match op {
        Primitive::Add => "ritas"@,
        Primitive::Sub => "matyes"@,
        Primitive::Mul => "nitas"@,
        Primitive::And => "teses"@,
        Primitive::Or => "kenus"@,
        Primitive::Lt => "ditas"@,
        Primitive::Gt => "fityes"@,
        Primitive::Le => "ditasgata"@,
        Primitive::Ge => "fityesgata"@,
        Primitive::Eq => "gatas"@,
        Primitive::Sort => "fanitas"@,
        Primitive::Length => "rakas"@,
        Primitive::Print => "sipus"@,
    }
}

/// The arity policy that each primitive operation declares.
pub open spec fn primitive_arity(op: Primitive) -> Arity {
    match op {
        Primitive::Add | Primitive::Sub | Primitive::Mul | Primitive::And | Primitive::Or
        | Primitive::Eq => Arity::AtLeast(2),
        Primitive::Lt | Primitive::Gt | Primitive::Le | Primitive::Ge => Arity::Exact(2),
        Primitive::Sort | Primitive::Length => Arity::Exact(1),
        Primitive::Print => Arity::Any,
    }
}

impl Primitive {
    pub fn name(&self) -> (r: &'static str)
        ensures
            r@ == primitive_name(*self),
    {
        match self {
            Primitive::Add => "ritas",
            Primitive::Sub => "matyes",
            Primitive::Mul => "nitas",
            Primitive::And => "teses",
            Primitive::Or => "kenus",
            Primitive::Lt => "ditas",
            Primitive::Gt => "fityes",
            Primitive::Le => "ditasgata",
            Primitive::Ge => "fityesgata",
            Primitive::Eq => "gatas",
            Primitive::Sort => "fanitas",
            Primitive::Length => "rakas",
            Primitive::Print => "sipus",
        }
    }
}

impl BuiltinFunction {
    pub fn new(op: Primitive) -> (r: Self)
        ensures
            r.op == op,
            r.arity == primitive_arity(op),
    {
        let arity = match op {
            Primitive::Add | Primitive::Sub | Primitive::Mul | Primitive::And | Primitive::Or
            | Primitive::Eq => Arity::AtLeast(2),
            Primitive::Lt | Primitive::Gt | Primitive::Le | Primitive::Ge => Arity::Exact(2),
            Primitive::Sort | Primitive::Length => Arity::Exact(1),
            Primitive::Print => Arity::Any,
        };
        BuiltinFunction { op, arity }
    }

    pub fn arity(&self) -> (r: Arity)
        ensures
            r == self.arity,
    {
        self.arity
    }

    pub fn name(&self) -> (r: &'static str)
        ensures
            r@ == primitive_name(self.op),
    {
        self.op.name()
    }
}

impl FunctionValue {
    pub fn new(id: usize, params: Vec<String>, body: Vec<Expr>, env: usize) -> (r: Self)
        ensures
            r.id == id,
            r.params == params,
            r.body == body,
            r.env == env,
    {
        FunctionValue { id, params, body, env }
    }
}

/// The runtime type name of a value, as failures report it.
pub open spec fn type_name_of(v: Val) -> Seq<char> {
    match v {
        Val::Number(_) => "number"@,
        Val::Bool(_) => "boolean"@,
        Val::Str(_) => "string"@,
        Val::List(_) => "list"@,
        Val::Function(_) => "function"@,
        Val::Builtin(_) => "builtin"@,
        Val::Nil => "nil"@,
    }
}

/// Structural equality: by value, element-wise for lists, by identity for
/// closures and by operation (and so by registered name) for primitives.
pub open spec fn val_eq(a: Val, b: Val) -> bool
    decreases a,
{
    match (a, b) {
        (Val::Number(x), Val::Number(y)) => x == y,
        (Val::Bool(x), Val::Bool(y)) => x == y,
        (Val::Str(x), Val::Str(y)) => x == y,
        (Val::Nil, Val::Nil) => true,
        (Val::List(xs), Val::List(ys)) => xs.len() == ys.len() && forall|i: int|
            0 <= i < xs.len() ==> val_eq(#[trigger] xs[i], ys[i]),
        (Val::Function(f), Val::Function(g)) => f.id == g.id,
        (Val::Builtin(p), Val::Builtin(q)) => p == q,
        _ => false,
    }
}

/// Structural equality is reflexive.
pub proof fn lemma_val_eq_reflexive(a: Val)
    ensures
        val_eq(a, a),
    decreases a,
{
    if let Val::List(xs) = a {
        assert forall|i: int| 0 <= i < xs.len() implies val_eq(#[trigger] xs[i], xs[i]) by {
            lemma_val_eq_reflexive(xs[i]);
        }
    }
}

/// Structural equality is symmetric.
pub proof fn lemma_val_eq_symmetric(a: Val, b: Val)
    ensures
        val_eq(a, b) == val_eq(b, a),
    decreases a,
{
    if let (Val::List(xs), Val::List(ys)) = (a, b) {
        if xs.len() == ys.len() {
            assert forall|i: int| 0 <= i < xs.len() implies val_eq(#[trigger] xs[i], ys[i])
                == val_eq(ys[i], xs[i]) by {
                lemma_val_eq_symmetric(xs[i], ys[i]);
            }
        }
    }
}

/// Two lists are structurally equal exactly when they have the same length
/// and their items are structurally equal position by position, at every
/// depth of nesting.
pub proof fn lemma_val_eq_lists(xs: Seq<Val>, ys: Seq<Val>)
    ensures
        val_eq(Val::List(xs), Val::List(ys)) <==> (xs.len() == ys.len() && forall|i: int|
            0 <= i < xs.len() ==> val_eq(#[trigger] xs[i], ys[i])),
{
}

/// Two closures are equal exactly when they are the same closure: equal
/// parameters and bodies do not make distinct closures equal.
pub proof fn lemma_closure_identity(f: Closure, g: Closure)
    ensures
        val_eq(Val::Function(f), Val::Function(g)) <==> f.id == g.id,
{
}

/// The integer that a numeral word denotes.
pub open spec fn numeral_value(w: Seq<char>) -> Option<i64> {
    if w == "rv"@ {
        Some(0)
    } else if w == "ru"@ {
        Some(1)
    } else if w == "ra"@ {
        Some(2)
    } else if w == "ro"@ {
        Some(3)
    } else if w == "re"@ {
        Some(4)
    } else if w == "ri"@ {
        Some(5)
    } else if w == "rya"@ {
        Some(6)
    } else if w == "ryu"@ {
        Some(7)
    } else if w == "ryo"@ {
        Some(8)
    } else if w == "rye"@ {
        Some(9)
    } else if w == "#ta"@ {
        Some(10)
    } else {
        None
    }
}

/// How a number is displayed: 0 to 10 by their numeral words, any other
/// integer in decimal digits.
pub open spec fn number_text(n: i64) -> Seq<char> {
    if n == 0 {
        "rv"@
    } else if n == 1 {
        "ru"@
    } else if n == 2 {
        "ra"@
    } else if n == 3 {
        "ro"@
    } else if n == 4 {
        "re"@
    } else if n == 5 {
        "ri"@
    } else if n == 6 {
        "rya"@
    } else if n == 7 {
        "ryu"@
    } else if n == 8 {
        "ryo"@
    } else if n == 9 {
        "rye"@
    } else if n == 10 {
        "#ta"@
    } else {
        decimal(n as int)
    }
}

/// The truth value that a boolean word denotes.
pub open spec fn boolean_value(w: Seq<char>) -> Option<bool> {
    if w == "ga"@ {
        Some(false)
    } else if w == "me"@ {
        Some(true)
    } else {
        None
    }
}

proof fn lemma_digits_start(n: nat)
    ensures
        digits(n).len() > 0,
        '0' <= digits(n)[0] <= '9',
    decreases n,
{
    if n >= 10 {
        lemma_digits_start(n / 10);
    }
}

/// Numerals round-trip: the display of each number from 0 to 10 is a numeral
/// word that reads back as that number, and the display of any other number
/// is no numeral word.
pub proof fn lemma_numeral_round_trip(n: i64)
    ensures
        0 <= n <= 10 ==> numeral_value(number_text(n)) == Some(n),
        0 <= n <= 10 ==> number_text(numeral_value(number_text(n))->Some_0) == number_text(n),
        !(0 <= n <= 10) ==> numeral_value(number_text(n)) is None,
{
    reveal_strlit("rv");
    reveal_strlit("ru");
    reveal_strlit("ra");
    reveal_strlit("ro");
    reveal_strlit("re");
    reveal_strlit("ri");
    reveal_strlit("rya");
    reveal_strlit("ryu");
    reveal_strlit("ryo");
    reveal_strlit("rye");
    reveal_strlit("#ta");
    assert("rv"@[1] == 'v' && "ru"@[1] == 'u' && "ra"@[1] == 'a' && "ro"@[1] == 'o');
    assert("re"@[1] == 'e' && "ri"@[1] == 'i' && "#ta"@[0] == '#');
    assert("rya"@[2] == 'a' && "ryu"@[2] == 'u' && "ryo"@[2] == 'o' && "rye"@[2] == 'e');
    if !(0 <= n <= 10) {
        let t = number_text(n);
        if n < 0 {
            assert(t[0] == '-');
        } else {
            lemma_digits_start(n as nat);
            assert('0' <= t[0] <= '9');
        }
        assert(t != "rv"@ && t != "ru"@ && t != "ra"@ && t != "ro"@ && t != "re"@ && t != "ri"@);
        assert(t != "rya"@ && t != "ryu"@ && t != "ryo"@ && t != "rye"@ && t != "#ta"@);
    }
}

/// The numeral word for `token`, if it is one.
pub fn parse_number_token(token: &str) -> (r: Option<i64>)
    ensures
        r == numeral_value(token@),
{
    let t = chars_of(token);
    numeral_of(&t)
}

/// The numeral word spelled by `t`, if it is one.
pub fn numeral_of(t: &Vec<char>) -> (r: Option<i64>)
    ensures
        r == numeral_value(t@),
{
    if is_word(t, "rv") {
        Some(0)
    } else if is_word(t, "ru") {
        Some(1)
    } else if is_word(t, "ra") {
        Some(2)
    } else if is_word(t, "ro") {
        Some(3)
    } else if is_word(t, "re") {
        Some(4)
    } else if is_word(t, "ri") {
        Some(5)
    } else if is_word(t, "rya") {
        Some(6)
    } else if is_word(t, "ryu") {
        Some(7)
    } else if is_word(t, "ryo") {
        Some(8)
    } else if is_word(t, "rye") {
        Some(9)
    } else if is_word(t, "#ta") {
        Some(10)
    } else {
        None
    }
}

/// The boolean word for `token`, if it is one.
pub fn bool_token(token: &str) -> (r: Option<bool>)
    ensures
        r == boolean_value(token@),
{
    let t = chars_of(token);
    boolean_of(&t)
}

/// The boolean word spelled by `t`, if it is one.
pub fn boolean_of(t: &Vec<char>) -> (r: Option<bool>)
    ensures
        r == boolean_value(t@),
{
    if is_word(t, "ga") {
        Some(false)
    } else if is_word(t, "me") {
        Some(true)
    } else {
        None
    }
}

/// The display of a number.
pub fn lexeme_for_number(n: i64) -> (r: String)
    ensures
        r@ == number_text(n),
{
    if n == 0 {
        String::from_str("rv")
    } else if n == 1 {
        String::from_str("ru")
    } else if n == 2 {
        String::from_str("ra")
    } else if n == 3 {
        String::from_str("ro")
    } else if n == 4 {
        String::from_str("re")
    } else if n == 5 {
        String::from_str("ri")
    } else if n == 6 {
        String::from_str("rya")
    } else if n == 7 {
        String::from_str("ryu")
    } else if n == 8 {
        String::from_str("ryo")
    } else if n == 9 {
        String::from_str("rye")
    } else if n == 10 {
        String::from_str("#ta")
    } else {
        decimal_string(n)
    }
}

/// The display of a value: numbers as by `number_text`, booleans as their
/// words, strings unquoted, lists bracketed and space-separated, closures by
/// their parameters, primitives by their names.
pub open spec fn display(v: Val) -> Seq<char>
    decreases v,
{
    match v {
        Val::Number(n) => number_text(n),
        Val::Bool(b) => if b {
            "me"@
        } else {
            "ga"@
        },
        Val::Str(s) => s,
        Val::List(items) => "["@ + display_items(items) + "]"@,
        Val::Function(f) => "<lambda ("@ + join_spaced(f.params) + ")>"@,
        Val::Builtin(op) => "<builtin "@ + primitive_name(op) + ">"@,
        Val::Nil => "nil"@,
    }
}

/// The displays of several values, joined with single spaces.
pub open spec fn display_items(items: Seq<Val>) -> Seq<char>
    decreases items,
{
    if items.len() == 0 {
        Seq::empty()
    } else if items.len() == 1 {
        display(items[0])
    } else {
        display_items(items.subrange(0, items.len() - 1)) + seq![' '] + display(
            items[items.len() - 1],
        )
    }
}

/// The displays of several values.
pub open spec fn displays(items: Seq<Val>) -> Seq<Seq<char>> {
    Seq::new(items.len(), |i: int| display(items[i]))
}

pub proof fn lemma_display_list(items: Seq<Val>)
    ensures
        display_items(items) == join_spaced(displays(items)),
    decreases items.len(),
{
    if items.len() > 1 {
        let init = items.subrange(0, items.len() - 1);
        lemma_display_list(init);
        assert(displays(items).drop_last() =~= displays(init));
    }
}

impl Value {
    /// The text of this value as printed.
    pub fn render(&self) -> (r: String)
        ensures
            r@ == display(self@),
        decreases self,
    {
        proof {
            lemma_list_value_view(self);
        }
        match self {
            Value::Number(n) => lexeme_for_number(*n),
            Value::Bool(b) => if *b {
                String::from_str("me")
            } else {
                String::from_str("ga")
            },
            Value::String(s) => s.clone(),
            Value::List(items) => {
                let mut parts: Vec<String> = Vec::new();
                let mut i: usize = 0;
                while i < items.len()
                    invariant
                        i <= items.len(),
                        parts.len() == i,
                        forall|j: int| 0 <= j < i ==> #[trigger] parts@[j]@ == display(items@[j]@),
                        decreases_to!(*self => *items),
                    decreases items.len() - i,
                {
                    proof {
                        assert(decreases_to!(*items => items[i as int]));
                    }
                    parts.push(items[i].render());
                    i += 1;
                }
                proof {
                    lemma_display_list(values_view(items@));
                    assert(strings_view(parts@) =~= displays(values_view(items@)));
                }
                let inner = join_strings(&parts);
                let mut out = String::from_str("[");
                out.append(inner.as_str());
                out.append("]");
                proof {
                    reveal_strlit("[");
                    reveal_strlit("]");
                }
                out
            },
            Value::Function(f) => {
                let inner = join_strings(&f.params);
                let mut out = String::from_str("<lambda (");
                out.append(inner.as_str());
                out.append(")>");
                out
            },
            Value::Builtin(b) => {
                let mut out = String::from_str("<builtin ");
                out.append(b.name());
                out.append(">");
                out
            },
            Value::Nil => String::from_str("nil"),
        }
    }
}

/// The parts joined with single spaces.
pub fn join_strings(parts: &Vec<String>) -> (r: String)
    ensures
        r@ == join_spaced(strings_view(parts@)),
{
    let ghost ps = strings_view(parts@);
    let mut out = String::new();
    let mut i: usize = 0;
    proof {
        assert(ps.subrange(0, 0) =~= Seq::<Seq<char>>::empty());
    }
    while i < parts.len()
        invariant
            i <= parts.len(),
            ps == strings_view(parts@),
            out@ == join_spaced(ps.subrange(0, i as int)),
        decreases parts.len() - i,
    {
        proof {
            lemma_join_step(ps, i as int);
        }
        if i > 0 {
            out.append(" ");
            proof {
                reveal_strlit(" ");
            }
        }
        out.append(parts[i].as_str());
        i += 1;
    }
    proof {
        assert(ps.subrange(0, parts.len() as int) =~= ps);
    }
    out
}

impl Value {
    pub fn kind_name(&self) -> (r: &'static str)
        ensures
            r@ == type_name_of(self@),
    {
        match self {
            Value::Number(_) => "number",
            Value::Bool(_) => "boolean",
            Value::String(_) => "string",
            Value::List(_) => "list",
            Value::Function(_) => "function",
            Value::Builtin(_) => "builtin",
            Value::Nil => "nil",
        }
    }

    pub fn is_nil(&self) -> (r: bool)
        ensures
            r == (self@ is Nil),
    {
        matches!(self, Value::Nil)
    }

    pub fn as_number(&self) -> (r: Result<i64, SatukitanError>)
        ensures
            self@ matches Val::Number(n) ==> r == Ok::<i64, SatukitanError>(n),
            !(self@ is Number) ==> (r matches Err(e) && e@ == (Fault::TypeMismatch {
                expected: "number"@,
                found: type_name_of(self@),
            })),
    {
        match self {
            Value::Number(n) => Ok(*n),
            other => Err(SatukitanError::type_mismatch("number", other.kind_name())),
        }
    }

    pub fn as_bool(&self) -> (r: Result<bool, SatukitanError>)
        ensures
            self@ matches Val::Bool(b) ==> r == Ok::<bool, SatukitanError>(b),
            !(self@ is Bool) ==> (r matches Err(e) && e@ == (Fault::TypeMismatch {
                expected: "boolean"@,
                found: type_name_of(self@),
            })),
    {
        match self {
            Value::Bool(b) => Ok(*b),
            other => Err(SatukitanError::type_mismatch("boolean", other.kind_name())),
        }
    }

    pub fn into_list(self) -> (r: Result<Vec<Value>, SatukitanError>)
        ensures
            r matches Ok(items) ==> self@ == Val::List(values_view(items@)),
            r is Ok <==> self@ is List,
            !(self@ is List) ==> (r matches Err(e) && e@ == (Fault::TypeMismatch {
                expected: "list"@,
                found: type_name_of(self@),
            })),
    {
        proof {
            lemma_list_value_view(&self);
        }
        match self {
            Value::List(items) => Ok(items),
            other => Err(SatukitanError::type_mismatch("list", other.kind_name())),
        }
    }

    pub fn structural_eq(&self, other: &Value) -> (r: bool)
        ensures
            r == val_eq(self@, other@),
        decreases self,
    {
        proof {
            lemma_list_value_view(self);
            lemma_list_value_view(other);
        }
        match (self, other) {
            (Value::Number(a), Value::Number(b)) => *a == *b,
            (Value::Bool(a), Value::Bool(b)) => *a == *b,
            (Value::String(a), Value::String(b)) => a.eq(b),
            (Value::Nil, Value::Nil) => true,
            (Value::List(a), Value::List(b)) => {
                if a.len() != b.len() {
                    return false;
                }
                let mut i: usize = 0;
                while i < a.len()
                    invariant
                        a.len() == b.len(),
                        i <= a.len(),
                        self@ == Val::List(values_view(a@)),
                        other@ == Val::List(values_view(b@)),
                        decreases_to!(*self => *a),
                        forall|j: int| 0 <= j < i ==> val_eq(#[trigger] a@[j]@, b@[j]@),
                    decreases a.len() - i,
                {
                    proof {
                        assert(decreases_to!(*a => a[i as int]));
                    }
                    if !a[i].structural_eq(&b[i]) {
                        proof {
                            assert(values_view(a@)[i as int] == a@[i as int]@);
                            assert(values_view(b@)[i as int] == b@[i as int]@);
                            assert(!val_eq(values_view(a@)[i as int], values_view(b@)[i as int]));
                        }
                        return false;
                    }
                    i += 1;
                }
                proof {
                    assert forall|j: int| 0 <= j < a.len() implies val_eq(
                        #[trigger] values_view(a@)[j],
                        values_view(b@)[j],
                    ) by {
                        assert(values_view(a@)[j] == a@[j]@);
                    }
                }
                true
            },
            (Value::Function(a), Value::Function(b)) => a.id == b.id,
            (Value::Builtin(a), Value::Builtin(b)) => a.op == b.op,
            _ => false,
        }
    }
}


} // verus!

verus! {

/// A copy of a list of names.
pub fn copy_strings(s: &Vec<String>) -> (r: Vec<String>)
    ensures
        strings_view(r@) == strings_view(s@),
{
    let mut out: Vec<String> = Vec::new();
    let mut i: usize = 0;
    while i < s.len()
        invariant
            i <= s.len(),
            out.len() == i,
            forall|j: int| 0 <= j < i ==> #[trigger] out@[j]@ == s@[j]@,
        decreases s.len() - i,
    {
        out.push(s[i].clone());
        i += 1;
    }
    proof {
        assert(strings_view(out@) =~= strings_view(s@));
    }
    out
}

/// A deep copy of a value.
pub fn copy_value(v: &Value) -> (r: Value)
    ensures
        r@ == v@,
    decreases v,
{
    proof {
        lemma_list_value_view(v);
    }
    match v {
        Value::Number(n) => Value::Number(*n),
        Value::Bool(b) => Value::Bool(*b),
        Value::String(s) => Value::String(s.clone()),
        Value::List(items) => {
            let mut out: Vec<Value> = Vec::new();
            let mut i: usize = 0;
            while i < items.len()
                invariant
                    i <= items.len(),
                    out.len() == i,
                    forall|j: int| 0 <= j < i ==> #[trigger] out@[j]@ == items@[j]@,
                    decreases_to!(*v => *items),
                decreases items.len() - i,
            {
                proof {
                    assert(decreases_to!(*items => items[i as int]));
                }
                out.push(copy_value(&items[i]));
                i += 1;
            }
            let r = Value::List(out);
            proof {
                lemma_list_value_view(&r);
                assert(values_view(out@) =~= values_view(items@));
            }
            r
        },
        Value::Function(f) => Value::Function(FunctionValue {
            id: f.id,
            params: copy_strings(&f.params),
            body: copy_exprs(&f.body),
            env: f.env,
        }),
        Value::Builtin(b) => Value::Builtin(*b),
        Value::Nil => Value::Nil,
    }
}

} // verus!
