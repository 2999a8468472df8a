//! The expression tree that the parser produces, and its mathematical model.
use vstd::prelude::*;

verus! {

/// The expression tree produced by the parser.
#[derive(Debug)]
pub enum Expr {
    Number(i64),
    Bool(bool),
    String(String),
    Symbol(String),
    /// A parenthesized form.
    List(Vec<Expr>),
    /// A bracketed form.
    ListLiteral(Vec<Expr>),
    Call { func: Box<Expr>, args: Vec<Expr> },
}

/// The mathematical model of an expression.
pub enum Term {
    Number(i64),
    Bool(bool),
    Str(Seq<char>),
    Symbol(Seq<char>),
    List(Seq<Term>),
    ListLiteral(Seq<Term>),
    Call(Box<Term>, Seq<Term>),
}

pub open spec fn exprs_view(items: Seq<Expr>) -> Seq<Term> {
    Seq::new(items.len(), |i: int| items[i].view())
}

impl Expr {
    pub open spec fn view(&self) -> Term
        decreases self,
    {
        match self {
            Expr::Number(n) => Term::Number(*n),
            Expr::Bool(b) => Term::Bool(*b),
            Expr::String(s) => Term::Str(s@),
            Expr::Symbol(s) => Term::Symbol(s@),
            Expr::List(items) => Term::List(
                Seq::new(items.len() as nat, |i: int| if 0 <= i < items.len() { items[i].view() } else { Term::Bool(false) }),
            ),
            Expr::ListLiteral(items) => Term::ListLiteral(
                Seq::new(items.len() as nat, |i: int| if 0 <= i < items.len() { items[i].view() } else { Term::Bool(false) }),
            ),
            Expr::Call { func, args } => Term::Call(
                Box::new(func.view()),
                Seq::new(args.len() as nat, |i: int| if 0 <= i < args.len() { args[i].view() } else { Term::Bool(false) }),
            ),
        }
    }

    pub fn as_symbol(&self) -> (r: Option<&String>)
        ensures
            r is Some <==> self@ is Symbol,
            r matches Some(name) ==> self@ == Term::Symbol(name@),
    {
        match self {
            Expr::Symbol(name) => Some(name),
            _ => None,
        }
    }

    pub fn list_items(&self) -> (r: Option<&Vec<Expr>>)
        ensures
            r is Some <==> (self@ is List || self@ is ListLiteral),
            r matches Some(items) ==> (self@ == Term::List(exprs_view(items@)) || self@
                == Term::ListLiteral(exprs_view(items@))),
    {
        match self {
            Expr::List(items) => {
                proof {
                    lemma_list_view(self);
                }
                Some(items)
            },
            Expr::ListLiteral(items) => {
                proof {
                    lemma_list_view(self);
                }
                Some(items)
            },
            _ => None,
        }
    }
}

/// The model of a list form is the model of its items, and so is that of
/// the arguments of a call.
pub proof fn lemma_list_view(e: &Expr)
    ensures
        e matches Expr::List(items) ==> e@ == Term::List(exprs_view(items@)),
        e matches Expr::ListLiteral(items) ==> e@ == Term::ListLiteral(exprs_view(items@)),
        e matches Expr::Call { func, args } ==> e@ == Term::Call(
            Box::new(func@),
            exprs_view(args@),
        ),
{
    match e {
        Expr::List(items) => {
            assert(e@->List_0 =~= exprs_view(items@));
        },
        Expr::ListLiteral(items) => {
            assert(e@->ListLiteral_0 =~= exprs_view(items@));
        },
        Expr::Call { func, args } => {
            assert(e@->Call_1 =~= exprs_view(args@));
        },
        _ => {},
    }
}

/// A deep copy of an expression.
pub fn copy_expr(e: &Expr) -> (r: Expr)
    ensures
        r@ == e@,
    decreases e,
{
    proof {
        lemma_list_view(e);
    }
    let r = match e {
        Expr::Number(n) => Expr::Number(*n),
        Expr::Bool(b) => Expr::Bool(*b),
        Expr::String(s) => Expr::String(s.clone()),
        Expr::Symbol(s) => Expr::Symbol(s.clone()),
        Expr::List(items) => Expr::List(copy_exprs(items)),
        Expr::ListLiteral(items) => Expr::ListLiteral(copy_exprs(items)),
        Expr::Call { func, args } => {
            let f = copy_expr(func);
            Expr::Call { func: Box::new(f), args: copy_exprs(args) }
        },
    };
    proof {
        lemma_list_view(&r);
    }
    r
}

/// A deep copy of a sequence of expressions.
pub fn copy_exprs(items: &Vec<Expr>) -> (r: Vec<Expr>)
    ensures
        exprs_view(r@) == exprs_view(items@),
    decreases items,
{
    let mut out: Vec<Expr> = Vec::new();
    let mut i: usize = 0;
    while i < items.len()
        invariant
            i <= items.len(),
            out.len() == i,
            forall|j: int| 0 <= j < i ==> #[trigger] out@[j]@ == items@[j]@,
        decreases items.len() - i,
    {
        proof {
            assert(decreases_to!(items => items[i as int]));
        }
        let c = copy_expr(&items[i]);
        out.push(c);
        i += 1;
    }
    proof {
        assert(exprs_view(out@) =~= exprs_view(items@));
    }
    out
}

} // verus!
