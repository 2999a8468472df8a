//! An interpreter session, and the check on script file names.
use vstd::prelude::*;

use crate::ast::{exprs_view, Expr};
use crate::builtins::{install, installed};
use crate::env::{root_scopes, Environment};
use crate::error::{Fault, SatukitanError};
use crate::lexer::{is_unicode_space, unicode_space};
use crate::parser::trim_end;
use crate::text::{chars_of, concat, copy_range, same_chars, string_of_chars};
use crate::evaluator::{eval_program, MAX_DEPTH};
use crate::parser::{parse_program, parse_text};
use crate::semantics::{eval_seq, State};
use crate::value::{result_view, strings_view, Value};

verus! {

/// An interpreter session: the root environment with every primitive
/// installed, which keeps its bindings from one evaluation to the next, and
/// the lines printed and not yet taken.
pub struct Interpreter {
    env: Environment,
    output: Vec<String>,
}

/// The state of a fresh session.
pub open spec fn initial_state() -> State {
    State { scopes: installed(root_scopes()), out: Seq::empty() }
}

impl Interpreter {
    /// The root frame exists.
    pub closed spec fn wf(&self) -> bool {
        self.env.frames.len() > 0
    }

    /// The session's evaluation state.
    pub closed spec fn state(&self) -> State {
        State { scopes: self.env@, out: strings_view(self.output@) }
    }

    pub fn new() -> (r: Self)
        ensures
            r.state() == initial_state(),
            r.wf(),
    {
        let mut env = Environment::new();
        install(&mut env);
        let r = Interpreter { env, output: Vec::new() };
        proof {
            assert(strings_view(r.output@) =~= Seq::<Seq<char>>::empty());
        }
        r
    }

    /// Parses and evaluates source text in the root frame. A parse failure
    /// leaves the session as it was.
    pub fn eval_str(&mut self, source: &str) -> (r: Result<Value, SatukitanError>)
        requires
            old(self).wf(),
        ensures
            final(self).wf(),
            match parse_text(source@) {
                Err(f) => (r matches Err(e) && e@ == f) && final(self).state() == old(self).state(),
                Ok(program) => (result_view(r), final(self).state()) == eval_seq(
                    program,
                    0,
                    old(self).state(),
                    MAX_DEPTH as nat,
                ),
            },
    {
        match parse_program(source) {
            Ok(program) => self.eval_program(&program),
            Err(e) => Err(e),
        }
    }

    /// Evaluates a parsed program in the root frame.
    pub fn eval_program(&mut self, program: &Vec<Expr>) -> (r: Result<Value, SatukitanError>)
        requires
            old(self).wf(),
        ensures
            final(self).wf(),
            (result_view(r), final(self).state()) == eval_seq(
                exprs_view(program@),
                0,
                old(self).state(),
                MAX_DEPTH as nat,
            ),
    {
        eval_program(program, 0, &mut self.env, &mut self.output)
    }

    /// The session's scope tree.
    pub fn environment(&self) -> (r: &Environment)
        ensures
            r@ == self.state().scopes,
    {
        &self.env
    }

    /// The lines printed since they were last taken, oldest first; the
    /// session keeps none of them.
    pub fn take_output(&mut self) -> (r: Vec<String>)
        ensures
            final(self).wf() == old(self).wf(),
            strings_view(r@) == old(self).state().out,
            final(self).state() == (State { out: Seq::empty(), ..old(self).state() }),
    {
        let mut taken: Vec<String> = Vec::new();
        std::mem::swap(&mut taken, &mut self.output);
        proof {
            assert(strings_view(self.output@) =~= Seq::<Seq<char>>::empty());
        }
        taken
    }
}

impl Default for Interpreter {
    fn default() -> (r: Self)
        ensures
            r.state() == initial_state(),
            r.wf(),
    {
        Interpreter::new()
    }
}

/// The suffix that names a script file.
pub open spec fn script_suffix() -> Seq<char> {
    ".st"@
}

/// Accepts a script file name that ends in `.st`; otherwise fails, naming
/// the file as `shown`.
pub fn validate_extension(file_name: &str, shown: &str) -> (r: Result<(), SatukitanError>)
    ensures
        r is Ok <==> script_suffix().is_suffix_of(file_name@),
        r matches Err(e) ==> e@ == Fault::Eval("expected a .st file, got "@ + shown@),
{
    let name = chars_of(file_name);
    let suffix = chars_of(".st");
    let mut ok = suffix.len() <= name.len();
    if ok {
        let off = name.len() - suffix.len();
        let mut j: usize = 0;
        while j < suffix.len()
            invariant
                j <= suffix.len(),
                off + suffix.len() == name.len(),
                ok == forall|k: int| 0 <= k < j ==> suffix@[k] == name@[off + k],
            decreases suffix.len() - j,
        {
            if suffix[j] != name[off + j] {
                ok = false;
            }
            j += 1;
        }
        proof {
            if ok {
                assert(name@.subrange(off as int, name.len() as int) =~= suffix@);
            } else {
                let k = choose|k: int| 0 <= k < suffix.len() && suffix@[k] != name@[off + k];
                assert(name@.subrange(off as int, name.len() as int)[k] != suffix@[k]);
            }
        }
    }
    if ok {
        Ok(())
    } else {
        Err(SatukitanError::Eval(concat("expected a .st file, got ", shown)))
    }
}

/// The text without leading white space.
pub open spec fn trim_start(l: Seq<char>) -> Seq<char>
    decreases l.len(),
{
    if l.len() > 0 && unicode_space(l[0]) {
        trim_start(l.subrange(1, l.len() as int))
    } else {
        l
    }
}

/// What the interactive session does with a line read.
#[derive(Debug)]
pub enum LineAction {
    /// Nothing: the line is blank.
    Skip,
    /// End the session.
    Stop,
    /// Evaluate this text.
    Evaluate(String),
}

/// The words that end an interactive session.
pub open spec fn stop_word(t: Seq<char>) -> bool {
    t == "exit"@ || t == "quit"@
}

/// Decides what to do with a line read by the interactive session: its text
/// without surrounding white space is skipped when empty, ends the session
/// when it is `exit` or `quit`, and is evaluated otherwise.
pub fn classify_line(line: &str) -> (r: LineAction)
    ensures
        ({
            let t = trim_start(trim_end(line@));
            &&& (r is Skip <==> t.len() == 0)
            &&& (r is Stop <==> (t.len() > 0 && stop_word(t)))
            &&& (r matches LineAction::Evaluate(x) ==> x@ == t && !stop_word(t) && t.len() > 0)
        }),
{
    let c = chars_of(line);
    let mut end = c.len();
    proof {
        assert(c@.subrange(0, end as int) =~= c@);
    }
    while end > 0 && is_unicode_space(c[end - 1])
        invariant
            end <= c.len(),
            trim_end(c@.subrange(0, end as int)) == trim_end(c@),
        decreases end,
    {
        proof {
            assert(c@.subrange(0, end as int).drop_last() =~= c@.subrange(0, end - 1));
        }
        end -= 1;
    }
    proof {
        if end == c.len() {
            assert(c@.subrange(0, end as int) =~= c@);
        }
        if end > 0 {
            assert(!unicode_space(c@.subrange(0, end as int).last()));
        }
        assert(trim_end(c@.subrange(0, end as int)) == c@.subrange(0, end as int));
    }
    let mut start: usize = 0;
    while start < end && is_unicode_space(c[start])
        invariant
            start <= end <= c.len(),
            trim_start(c@.subrange(start as int, end as int)) == trim_start(c@.subrange(0, end as int)),
        decreases end - start,
    {
        proof {
            assert(c@.subrange(start as int, end as int).subrange(1, (end - start) as int) =~= c@.subrange(start + 1, end as int));
        }
        start += 1;
    }
    let t = copy_range(&c, start, end);
    proof {
        if start < end {
            assert(c@.subrange(start as int, end as int)[0] == c@[start as int]);
        }
        assert(trim_start(t@) == t@);
        assert(t@ == trim_start(trim_end(line@)));
    }
    if t.len() == 0 {
        return LineAction::Skip;
    }
    if same_chars(&t, &chars_of("exit")) || same_chars(&t, &chars_of("quit")) {
        return LineAction::Stop;
    }
    LineAction::Evaluate(string_of_chars(&t))
}

} // verus!
