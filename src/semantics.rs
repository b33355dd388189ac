//! The meaning of a program, stated over the state model: what each
//! keyword does, and how invocations, skipped branches, subroutine bodies
//! and whole token sequences are evaluated.
//!
//! The few branches that guard against a position that does not move
//! forward keep the recursion well-founded; the executable functions are
//! proved to move forward, so they never reach them.

use vstd::prelude::*;
use crate::value::{Val, line_text};
use crate::token::{Token, Keyword, is_keyword};
use crate::expression::{StateModel, ScopeModel, ErrorModel, NestingState, Builtin, truthy, bool_number};
use crate::keywords::{all_numbers, fold_numbers, fold_fits, less_spec};
use crate::control_flow::{must_skip, toggled, is_opener};
use crate::interpreter::min_arguments;

verus! {

/// The value bound to `name` in the innermost saved scope that binds it.
pub open spec fn outer_value(scopes: Seq<ScopeModel>, name: Val) -> Option<Val>
    decreases scopes.len(),
{
    if scopes.len() == 0 {
        None
    } else if scopes.last().variables.contains_key(name) {
        Some(scopes.last().variables[name])
    } else {
        outer_value(scopes.drop_last(), name)
    }
}

pub open spec fn fold_outcome(m: StateModel, args: Seq<Val>, subtract: bool) -> (StateModel, Result<(), ErrorModel>) {
    let keyword = if subtract {
        "-"@
    } else {
        "+"@
    };
    if !all_numbers(args) {
        (m, Err(ErrorModel::TypeError { keyword, line: m.line_number }))
    } else if !fold_fits(args, subtract) {
        (m, Err(ErrorModel::NumberOutOfRange { keyword, line: m.line_number }))
    } else {
        (StateModel { ret: Some(Val::Num(fold_numbers(args, subtract))), ..m }, Ok(()))
    }
}

/// What a built-in other than `run` does to the state, given its resolved
/// arguments (at least as many as it takes).
pub open spec fn keyword_model(b: Builtin, m: StateModel, args: Seq<Val>) -> (StateModel, Result<(), ErrorModel>) {
    match b {
        Builtin::Println => (StateModel { output: m.output.push(line_text(args)), ..m }, Ok(())),
        Builtin::Add => fold_outcome(m, args, false),
        Builtin::Subtract => fold_outcome(m, args, true),
        Builtin::If => (
            StateModel {
                nesting: m.nesting.push(
                    if truthy(args[0]) {
                        NestingState::If
                    } else {
                        NestingState::Else
                    },
                ),
                ..m
            },
            Ok(()),
        ),
        Builtin::Else => if m.nesting.len() == 0 {
            (m, Err(ErrorModel::UnbalancedControlFlow { line: m.line_number }))
        } else {
            (StateModel { nesting: m.nesting.drop_last().push(toggled(m.nesting.last())), ..m }, Ok(()))
        },
        Builtin::End => if m.nesting.len() == 0 {
            (m, Err(ErrorModel::UnbalancedControlFlow { line: m.line_number }))
        } else {
            (StateModel { nesting: m.nesting.drop_last(), ..m }, Ok(()))
        },
        Builtin::Let => (StateModel { variables: m.variables.insert(args[0], args[1]), ..m }, Ok(())),
        Builtin::Tel => if m.variables.contains_key(args[0]) {
            (StateModel { ret: Some(m.variables[args[0]]), ..m }, Ok(()))
        } else {
            (m, Err(ErrorModel::VariableNotFound { name: args[0], line: m.line_number }))
        },
        Builtin::Equal => (StateModel { ret: Some(Val::Num(bool_number(args[0] == args[1]))), ..m }, Ok(())),
        Builtin::LessThan => (
            StateModel { ret: Some(Val::Num(bool_number(less_spec(args[0], args[1])))), ..m },
            Ok(()),
        ),
        Builtin::Not => (StateModel { ret: Some(Val::Num(bool_number(!truthy(args[0])))), ..m }, Ok(())),
        Builtin::True => (StateModel { ret: Some(Val::Num(bool_number(true))), ..m }, Ok(())),
        Builtin::False => (StateModel { ret: Some(Val::Num(bool_number(false))), ..m }, Ok(())),
        Builtin::ScopePush => (
            StateModel {
                scopes: m.scopes.push(
                    ScopeModel { variables: m.variables, ret: m.ret, line_number: m.line_number },
                ),
                variables: Map::empty(),
                ..m
            },
            Ok(()),
        ),
        Builtin::ScopePop => if m.scopes.len() == 0 {
            (m, Err(ErrorModel::NoScopeToPop { line: m.line_number }))
        } else {
            (
                StateModel {
                    variables: m.scopes.last().variables,
                    line_number: m.scopes.last().line_number,
                    scopes: m.scopes.drop_last(),
                    ..m
                },
                Ok(()),
            )
        },
        Builtin::ScopeOuterLet => if m.scopes.len() == 0 {
            (StateModel { variables: m.variables.insert(args[0], args[1]), ..m }, Ok(()))
        } else {
            let last = m.scopes.last();
            (
                StateModel {
                    scopes: m.scopes.drop_last().push(
                        ScopeModel { variables: last.variables.insert(args[0], args[1]), ..last },
                    ),
                    ..m
                },
                Ok(()),
            )
        },
        Builtin::ScopeOuterTel => match outer_value(m.scopes, args[0]) {
            Some(v) => (StateModel { ret: Some(v), ..m }, Ok(())),
            None => (m, Err(ErrorModel::VariableNotFound { name: args[0], line: m.line_number })),
        },
        Builtin::Return => (StateModel { ret: Some(args[0]), ..m }, Ok(())),
        Builtin::Subroutine => if m.nesting.contains(NestingState::SubroutineDefinition) {
            (m, Err(ErrorModel::NestedSubroutine { line: m.line_number }))
        } else {
            (
                StateModel {
                    nesting: m.nesting.push(NestingState::SubroutineDefinition),
                    subroutine_name: Some(args[0]),
                    ..m
                },
                Ok(()),
            )
        },
        Builtin::Run => (m, Ok(())),
    }
}


/// Passing over the expression at `pos` without evaluating it: the frame
/// stack afterwards (an `Ignore` pushed for each `if` or `subroutine`
/// passed), and where the expression ends.
pub open spec fn skip_model(
    ts: Seq<Token>,
    pos: int,
    keywords: Map<Seq<char>, crate::expression::KeywordImplementation>,
    nesting: Seq<NestingState>,
) -> (Seq<NestingState>, Result<int, ErrorModel>)
    decreases ts.len() - pos, 0int,
{
    if pos < 0 || pos >= ts.len() {
        (nesting, Err(ErrorModel::UnexpectedToken { line: 0 }))
    } else {
        match ts[pos] {
            Token::Keyword(k) => if !keywords.contains_key(k.lexem@) {
                (nesting, Err(ErrorModel::UnknownKeyword { name: k.lexem@, line: k.line_number }))
            } else {
                let pushed = if is_opener(ts[pos]) {
                    nesting.push(NestingState::Ignore)
                } else {
                    nesting
                };
                skip_args_model(ts, pos + 1, keywords, pushed, keywords[k.lexem@].number_of_arguments as nat, k)
            },
            _ => (nesting, Ok(pos + 1)),
        }
    }
}

/// Passing over `remaining` argument expressions from `p`.
pub open spec fn skip_args_model(
    ts: Seq<Token>,
    p: int,
    keywords: Map<Seq<char>, crate::expression::KeywordImplementation>,
    nesting: Seq<NestingState>,
    remaining: nat,
    k: Keyword,
) -> (Seq<NestingState>, Result<int, ErrorModel>)
    decreases ts.len() - p, 1int,
{
    if remaining == 0 {
        (nesting, Ok(p))
    } else if p < 0 || p >= ts.len() {
        (nesting, Err(ErrorModel::InsufficientArguments { keyword: k.lexem@, line: k.line_number }))
    } else {
        let (next_nesting, r) = skip_model(ts, p, keywords, nesting);
        match r {
            Err(e) => (next_nesting, Err(e)),
            Ok(q) => if q <= p || q > ts.len() {
                (next_nesting, Ok(q))
            } else {
                skip_args_model(ts, q, keywords, next_nesting, (remaining - 1) as nat, k)
            },
        }
    }
}

/// How the recording of a subroutine body changes the frame stack for one token.
pub open spec fn capture_step(nesting: Seq<NestingState>, t: Token) -> Seq<NestingState> {
    if is_keyword(t, "if"@) {
        nesting.push(NestingState::Ignore)
    } else if is_keyword(t, "end"@) {
        if nesting.len() > 0 {
            nesting.drop_last()
        } else {
            nesting
        }
    } else {
        nesting
    }
}

/// Recording a subroutine body from `p`: the frame stack once the frame
/// of the definition is closed, and the position after the closing `end`
/// (`None` when the tokens run out first).
pub open spec fn capture_model(ts: Seq<Token>, p: int, nesting: Seq<NestingState>) -> (Seq<NestingState>, Option<int>)
    decreases ts.len() - p,
{
    if !nesting.contains(NestingState::SubroutineDefinition) {
        (nesting, Some(p))
    } else if p < 0 || p >= ts.len() {
        (nesting, None)
    } else {
        capture_model(ts, p + 1, capture_step(nesting, ts[p]))
    }
}

/// Evaluating the invocation at `pos`: the state afterwards, and the
/// position after the invocation.
pub open spec fn eval_model(ts: Seq<Token>, pos: int, m: StateModel, depth: nat) -> (StateModel, Result<int, ErrorModel>)
    decreases depth, ts.len() - pos, 0int,
{
    if pos < 0 || pos >= ts.len() {
        (m, Err(ErrorModel::UnexpectedToken { line: 0 }))
    } else {
        match ts[pos] {
            Token::Keyword(k) => if !m.keywords.contains_key(k.lexem@) {
                (m, Err(ErrorModel::UnknownKeyword { name: k.lexem@, line: k.line_number }))
            } else {
                let ki = m.keywords[k.lexem@];
                let m1 = StateModel { line_number: k.line_number, ..m };
                let (m2, ar) = args_model(ts, pos + 1, m1, depth, ki.number_of_arguments as nat, k, seq![]);
                match ar {
                    Err(e) => (m2, Err(e)),
                    Ok((args, p)) => {
                        let (m3, r) = apply_model(ki.implementation, m2, args, depth, k);
                        match r {
                            Err(e) => (m3, Err(e)),
                            Ok(_) => (m3, Ok(p)),
                        }
                    },
                }
            },
            other => (m, Err(ErrorModel::UnexpectedToken { line: other.line_spec() })),
        }
    }
}

/// Resolving `remaining` more arguments from `p`, after the values `acc`.
pub open spec fn args_model(
    ts: Seq<Token>,
    p: int,
    m: StateModel,
    depth: nat,
    remaining: nat,
    k: Keyword,
    acc: Seq<Val>,
) -> (StateModel, Result<(Seq<Val>, int), ErrorModel>)
    decreases depth, ts.len() - p, 1int,
{
    if remaining == 0 {
        (m, Ok((acc, p)))
    } else if p < 0 || p >= ts.len() {
        (m, Err(ErrorModel::InsufficientArguments { keyword: k.lexem@, line: k.line_number }))
    } else {
        match ts[p] {
            Token::Keyword(_) => {
                let (m1, r) = eval_model(ts, p, m, depth);
                match r {
                    Err(e) => (m1, Err(e)),
                    Ok(q) => if q <= p || q > ts.len() {
                        (m1, Ok((acc, q)))
                    } else {
                        match m1.ret {
                            None => (m1, Err(ErrorModel::MissingReturnValue { line: m1.line_number })),
                            Some(v) => args_model(ts, q, m1, depth, (remaining - 1) as nat, k, acc.push(v)),
                        }
                    },
                }
            },
            Token::KfkString(s) => args_model(
                ts,
                p + 1,
                StateModel { line_number: s.line_number, ..m },
                depth,
                (remaining - 1) as nat,
                k,
                acc.push(Val::Str(s.lexem@)),
            ),
            Token::Number(n) => args_model(
                ts,
                p + 1,
                StateModel { line_number: n.line_number, ..m },
                depth,
                (remaining - 1) as nat,
                k,
                acc.push(Val::Num(n.number as int)),
            ),
        }
    }
}

/// Applying a built-in, `run` included, to its resolved arguments.
pub open spec fn apply_model(b: Builtin, m: StateModel, args: Seq<Val>, depth: nat, k: Keyword) -> (StateModel, Result<(), ErrorModel>)
    decreases depth, 0int, 1int,
{
    if args.len() < min_arguments(b) {
        (m, Err(ErrorModel::InsufficientArguments { keyword: k.lexem@, line: k.line_number }))
    } else if b == Builtin::Run {
        run_model(m, args[0], depth)
    } else {
        keyword_model(b, m, args)
    }
}

/// `run name`: the stored body evaluated against the current state, with
/// one level of call depth used up.
pub open spec fn run_model(m: StateModel, name: Val, depth: nat) -> (StateModel, Result<(), ErrorModel>)
    decreases depth, 0int, 0int,
{
    if !m.subroutines.contains_key(name) {
        (m, Err(ErrorModel::SubroutineNotFound { name, line: m.line_number }))
    } else if depth == 0 {
        (m, Err(ErrorModel::CallDepthExceeded { line: m.line_number }))
    } else {
        loop_model(m.subroutines[name], 0, m, (depth - 1) as nat, m.nesting.len())
    }
}

/// Evaluating a token sequence from `pos` to its end, which began with
/// `base` frames on the stack: ending with any other number of frames is
/// an unbalanced block.
pub open spec fn loop_model(ts: Seq<Token>, pos: int, m: StateModel, depth: nat, base: nat) -> (StateModel, Result<(), ErrorModel>)
    decreases depth, ts.len() + 1 - pos, 0int,
{
    if pos < 0 || pos >= ts.len() {
        if m.nesting.len() != base {
            (m, Err(ErrorModel::UnbalancedControlFlow { line: m.line_number }))
        } else {
            (m, Ok(()))
        }
    } else if must_skip(m.nesting, ts[pos]) {
        let (nesting, r) = skip_model(ts, pos, m.keywords, m.nesting);
        let m1 = StateModel { nesting, ..m };
        match r {
            Err(e) => (m1, Err(e)),
            Ok(q) => if q <= pos || q > ts.len() {
                (m1, Ok(()))
            } else {
                loop_model(ts, q, m1, depth, base)
            },
        }
    } else {
        let (m1, r) = eval_model(ts, pos, m, depth);
        match r {
            Err(e) => (m1, Err(e)),
            Ok(q) => if q <= pos || q > ts.len() {
                (m1, Ok(()))
            } else {
                match m1.subroutine_name {
                    None => loop_model(ts, q, m1, depth, base),
                    Some(name) => if m1.nesting.contains(NestingState::SubroutineDefinition) {
                        let (nesting, end) = capture_model(ts, q, m1.nesting);
                        match end {
                            None => (
                                StateModel { nesting, ..m1 },
                                Err(ErrorModel::UnterminatedSubroutine { line: m1.line_number }),
                            ),
                            Some(e) => if e <= q || e > ts.len() {
                                (m1, Ok(()))
                            } else {
                                loop_model(
                                    ts,
                                    e,
                                    StateModel {
                                        nesting,
                                        subroutines: m1.subroutines.insert(name, ts.subrange(q, e - 1)),
                                        subroutine_name: None,
                                        ..m1
                                    },
                                    depth,
                                    base,
                                )
                            },
                        }
                    } else {
                        loop_model(
                            ts,
                            q,
                            StateModel {
                                subroutines: m1.subroutines.insert(name, seq![]),
                                subroutine_name: None,
                                ..m1
                            },
                            depth,
                            base,
                        )
                    },
                }
            },
        }
    }
}

/// Evaluating a whole program with subroutine calls nested at most
/// `max_depth` deep: a block still open at its end is an error.
pub open spec fn program_model(ts: Seq<Token>, m: StateModel, max_depth: nat) -> (StateModel, Result<(), ErrorModel>) {
    let (m1, r) = loop_model(ts, 0, m, max_depth, m.nesting.len());
    match r {
        Err(e) => (m1, Err(e)),
        Ok(_) => if m1.nesting.len() > 0 {
            (m1, Err(ErrorModel::UnbalancedControlFlow { line: m1.line_number }))
        } else {
            (m1, Ok(()))
        },
    }
}

} // verus!
