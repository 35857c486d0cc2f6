//! The statement executor, and the pipeline from source text to a finished run.
use crate::environment::Environment;
use crate::errors::{message, message_settled, Error, Fault};
use crate::expressions::{eval, settled};
use crate::float::{follows, ready, silent, Answer, FloatAnswer, FloatQuery, Query};
use crate::parser::{parse_program, parsed, Parser};
use crate::scanner::{scan, scan_settled, scanned, toks, Scanner};
use crate::statements::{stmts, Statement, Stmt};
use crate::token::{render, Val};
use vstd::prelude::*;
use vstd::utf8::encode_utf8;

verus! {

/// What a run produced: the text printed, how it ended, and the variables bound.
pub struct Run {
    pub output: Seq<char>,
    pub result: Result<(), Seq<char>>,
    pub vars: Map<Seq<char>, Val>,
}

/// The messages of the collected errors, each followed by a newline.
pub open spec fn joined(errs: Seq<Fault>, m: spec_fn(Query) -> Answer) -> Seq<char>
    decreases errs.len(),
{
    if errs.len() == 0 {
        Seq::empty()
    } else {
        joined(errs.drop_last(), m) + message(errs.last(), m) + "\n"@
    }
}

/// Executes the statements from `i` on, having printed `out`, collected the
/// print errors `errs` and bound `vars`. An expression statement or a
/// declaration whose evaluation fails ends the run with that error at once; a
/// print statement whose evaluation fails has its error collected, and the run
/// goes on; at the end the collected errors, if any, fail the run together.
pub open spec fn exec_from(
    ss: Seq<Stmt>,
    i: int,
    out: Seq<char>,
    errs: Seq<Fault>,
    vars: Map<Seq<char>, Val>,
    m: spec_fn(Query) -> Answer,
) -> Run
    decreases ss.len() - i,
{
    if i < 0 || i >= ss.len() {
        Run {
            output: out,
            result: if errs.len() == 0 {
                Ok(())
            } else {
                Err(joined(errs, m))
            },
            vars,
        }
    } else {
        match ss[i] {
            Stmt::Expression(e) => match eval(e, m) {
                Ok(_) => exec_from(ss, i + 1, out, errs, vars, m),
                Err(f) => Run { output: out, result: Err(message(f, m)), vars },
            },
            Stmt::Print(e) => match eval(e, m) {
                Ok(v) => exec_from(ss, i + 1, out + render(v, m), errs, vars, m),
                Err(f) => exec_from(ss, i + 1, out, errs.push(f), vars, m),
            },
            Stmt::Variable(name, e) => match eval(e, m) {
                Ok(v) => exec_from(ss, i + 1, out, errs, vars.insert(name.lexeme, v), m),
                Err(f) => Run { output: out, result: Err(message(f, m)), vars },
            },
        }
    }
}

/// Executes a sequence of statements with the variables `vars` bound.
pub open spec fn execute(ss: Seq<Stmt>, vars: Map<Seq<char>, Val>, m: spec_fn(Query) -> Answer) -> Run {
    exec_from(ss, 0, Seq::empty(), Seq::empty(), vars, m)
}

/// The model of what a run returns: the printed text and how it ended.
pub open spec fn ran(r: (String, Result<(), String>)) -> (Seq<char>, Result<(), Seq<char>>) {
    (
        r.0@,
        match r.1 {
            Ok(()) => Ok(()),
            Err(s) => Err(s@),
        },
    )
}

/// Scanning, parsing and executing a source: the printed text and how it ended.
/// Variable references are not resolved: a variable's value is bound, but an
/// expression naming it fails as undefined.
pub open spec fn run_source(src: Seq<u8>, m: spec_fn(Query) -> Answer) -> (
    Seq<char>,
    Result<(), Seq<char>>,
) {
    match scan(src, m) {
        Err(f) => (Seq::empty(), Err(message(f, m))),
        Ok(ts) => match parse_program(ts) {
            Err(f) => (Seq::empty(), Err(message(f, m))),
            Ok(ss) => {
                let r = execute(ss, Map::empty(), m);
                (r.output, r.result)
            },
        },
    }
}

/// The collected messages, when writing them never asks the floating-point unit.
pub open spec fn joined_settled(errs: Seq<Fault>) -> Option<Seq<char>>
    decreases errs.len(),
{
    if errs.len() == 0 {
        Some(Seq::empty())
    } else {
        match (joined_settled(errs.drop_last()), message_settled(errs.last())) {
            (Some(a), Some(b)) => Some(a + b + "\n"@),
            _ => None,
        }
    }
}

/// The text of a value, when writing it never asks the floating-point unit.
pub open spec fn render_settled(v: Val) -> Option<Seq<char>> {
    if v is Float {
        None
    } else {
        Some(render(v, silent()))
    }
}

/// A run from statement `i` on, as `exec_from` gives it, when it never asks
/// the floating-point unit; `None` when it would ask.
pub open spec fn exec_settled(
    ss: Seq<Stmt>,
    i: int,
    out: Seq<char>,
    errs: Seq<Fault>,
    vars: Map<Seq<char>, Val>,
) -> Option<Run>
    decreases ss.len() - i,
{
    if i < 0 || i >= ss.len() {
        if errs.len() == 0 {
            Some(Run { output: out, result: Ok(()), vars })
        } else {
            match joined_settled(errs) {
                None => None,
                Some(t) => Some(Run { output: out, result: Err(t), vars }),
            }
        }
    } else {
        match ss[i] {
            Stmt::Expression(e) => match settled(e) {
                None => None,
                Some(Ok(_)) => exec_settled(ss, i + 1, out, errs, vars),
                Some(Err(f)) => match message_settled(f) {
                    None => None,
                    Some(t) => Some(Run { output: out, result: Err(t), vars }),
                },
            },
            Stmt::Print(e) => match settled(e) {
                None => None,
                Some(Ok(v)) => match render_settled(v) {
                    None => None,
                    Some(t) => exec_settled(ss, i + 1, out + t, errs, vars),
                },
                Some(Err(f)) => exec_settled(ss, i + 1, out, errs.push(f), vars),
            },
            Stmt::Variable(name, e) => match settled(e) {
                None => None,
                Some(Ok(v)) => exec_settled(ss, i + 1, out, errs, vars.insert(name.lexeme, v)),
                Some(Err(f)) => match message_settled(f) {
                    None => None,
                    Some(t) => Some(Run { output: out, result: Err(t), vars }),
                },
            },
        }
    }
}

/// What `run_source` gives, when the whole run never asks the floating-point
/// unit; `None` when it would ask.
pub open spec fn run_settled(src: Seq<u8>) -> Option<(Seq<char>, Result<(), Seq<char>>)> {
    match scan_settled(src, 0, 1) {
        None => None,
        Some(Err(f)) => match message_settled(f) {
            None => None,
            Some(t) => Some((Seq::empty(), Err(t))),
        },
        Some(Ok(ts)) => match parse_program(ts) {
            Err(f) => match message_settled(f) {
                None => None,
                Some(t) => Some((Seq::empty(), Err(t))),
            },
            Ok(ss) => match exec_settled(ss, 0, Seq::empty(), Seq::empty(), Map::empty()) {
                None => None,
                Some(r) => Some((r.output, r.result)),
            },
        },
    }
}

/// The models of a sequence of errors.
pub open spec fn faults(v: Seq<Error>) -> Seq<Fault> {
    v.map_values(|e: Error| e@)
}

/// Executes statements, holding the variables that declarations bind.
pub struct Interpreter {
    environment: Environment,
}

impl Interpreter {
    /// The variables bound so far.
    pub closed spec fn variables(&self) -> Map<Seq<char>, Val> {
        self.environment@
    }

    pub fn new() -> (r: Interpreter)
        ensures
            r.variables() == Map::<Seq<char>, Val>::empty(),
    {
        Interpreter { environment: Environment::new() }
    }

    /// Executes the statements in order: the text that print statements
    /// wrote, and how the run ended.
    pub fn interpret<F: Fn(FloatQuery) -> FloatAnswer>(
        &mut self,
        sts: Vec<Statement>,
        unit: &F,
    ) -> (r: (String, Result<(), String>))
        requires
            ready(*unit),
        ensures
            forall|m: spec_fn(Query) -> Answer|
                follows(*unit, m) ==> {
                    let run = execute(stmts(sts@), old(self).variables(), m);
                    ran(r) == (run.output, run.result) && final(self).variables() == run.vars
                },
            exec_settled(stmts(sts@), 0, Seq::empty(), Seq::empty(), old(self).variables()) matches Some(
                run,
            ) ==> ran(r) == (run.output, run.result) && final(self).variables() == run.vars,
    {
        let ghost ss = stmts(sts@);
        let mut output = String::new();
        let mut errors: Vec<Error> = Vec::new();
        let mut i: usize = 0;
        assert(faults(errors@) =~= Seq::<Fault>::empty());
        while i < sts.len()
            invariant
                ready(*unit),
                ss == stmts(sts@),
                i <= sts@.len(),
                forall|m: spec_fn(Query) -> Answer|
                    follows(*unit, m) ==> execute(ss, old(self).variables(), m) == exec_from(
                        ss,
                        i as int,
                        output@,
                        faults(errors@),
                        self.variables(),
                        m,
                    ),
                exec_settled(ss, 0, Seq::empty(), Seq::empty(), old(self).variables()) is Some
                    ==> exec_settled(ss, 0, Seq::empty(), Seq::empty(), old(self).variables())
                    == exec_settled(ss, i as int, output@, faults(errors@), self.variables()),
            decreases sts@.len() - i,
        {
            match &sts[i] {
                Statement::ExpressionStatement(e) => match e.evaluate(unit) {
                    Ok(_) => {},
                    Err(err) => {
                        return (output, Err(err.to_string(unit)));
                    },
                },
                Statement::PrintStatement(e) => match e.evaluate(unit) {
                    Ok(v) => {
                        output.append(v.to_string(unit).as_str());
                    },
                    Err(err) => {
                        let ghost before = faults(errors@);
                        errors.push(err);
                        assert(faults(errors@) =~= before.push(err@));
                    },
                },
                Statement::Variable(name, e) => match e.evaluate(unit) {
                    Ok(v) => {
                        self.environment.define(name.lexeme.clone(), v);
                    },
                    Err(err) => {
                        return (output, Err(err.to_string(unit)));
                    },
                },
            }
            i = i + 1;
        }
        if errors.len() == 0 {
            return (output, Ok(()));
        }
        let ghost fs = faults(errors@);
        let mut text = String::new();
        let mut k: usize = 0;
        while k < errors.len()
            invariant
                ready(*unit),
                fs == faults(errors@),
                k <= errors@.len(),
                forall|m: spec_fn(Query) -> Answer|
                    follows(*unit, m) ==> text@ == joined(fs.take(k as int), m),
                joined_settled(fs.take(k as int)) matches Some(t) ==> text@ == t,
            decreases errors@.len() - k,
        {
            assert(fs.take(k + 1).drop_last() =~= fs.take(k as int));
            text.append(errors[k].to_string(unit).as_str());
            text.append("\n");
            k = k + 1;
        }
        assert(fs.take(k as int) =~= fs);
        (output, Err(text))
    }
}

/// Scans, parses and executes a source text: the text that print statements
/// wrote, and how the run ended, with the error's message on failure.
pub fn run<F: Fn(FloatQuery) -> FloatAnswer>(contents: String, unit: &F) -> (r: (
    String,
    Result<(), String>,
))
    requires
        ready(*unit),
        encode_utf8(contents@).len() < usize::MAX,
    ensures
        forall|m: spec_fn(Query) -> Answer|
            follows(*unit, m) ==> ran(r) == run_source(encode_utf8(contents@), m),
        run_settled(encode_utf8(contents@)) matches Some(o) ==> ran(r) == o,
{
    let bytes = contents.as_str().as_bytes();
    let mut scanner = Scanner::new(bytes);
    let tokens = match scanner.scan_tokens(unit) {
        Ok(tokens) => tokens,
        Err(e) => {
            return (String::new(), Err(e.to_string(unit)));
        },
    };
    let _ = tokens.len();
    assert(toks(tokens@).last() == tokens@.last()@);
    let mut parser = Parser::new(tokens);
    let statements = match parser.parse() {
        Ok(statements) => statements,
        Err(e) => {
            return (String::new(), Err(e.to_string(unit)));
        },
    };
    let mut interpreter = Interpreter::new();
    interpreter.interpret(statements, unit)
}

} // verus!
