use vstd::prelude::*;
use crate::value::{Argument, Val, views};
use crate::token::{Token, Keyword, copy_tokens};
use crate::expression::{
    GlobalState, EvalError, ErrorModel, NestingState, Builtin, lookup_keyword, register_keyword,
    unit_result, pos_result,
};
use crate::keywords;
use crate::keywords::contains_frame;
use crate::control_flow;
use crate::control_flow::skip_tokens;
use crate::semantics::{
    capture_model, apply_model, run_model, args_model, eval_model, loop_model, program_model,
};

verus! {

/// How deeply `run` may nest subroutine calls before `run_program` stops;
/// `run_program_limited` takes the bound from its caller.
pub const MAX_CALL_DEPTH: u32 = 1000;

/// The old output lines are kept, and new ones may follow them.
pub open spec fn output_extends(before: Seq<String>, after: Seq<String>) -> bool {
    &&& before.len() <= after.len()
    &&& forall|i: int| 0 <= i < before.len() ==> #[trigger] after[i] == before[i]
}

pub proof fn lemma_output_extends_trans(a: Seq<String>, b: Seq<String>, c: Seq<String>)
    requires
        output_extends(a, b),
        output_extends(b, c),
    ensures
        output_extends(a, c),
{
}

/// What every evaluation step keeps: the keyword registry, and the output
/// printed before it.
pub open spec fn step_frame(before: GlobalState, after: GlobalState) -> bool {
    &&& after.keywords == before.keywords
    &&& output_extends(before.output@, after.output@)
}

/// The fewest arguments a built-in works on.
pub open spec fn min_arguments(b: Builtin) -> nat {
    match b {
        Builtin::Println | Builtin::Else | Builtin::End | Builtin::True | Builtin::False
        | Builtin::ScopePush | Builtin::ScopePop => 0,
        Builtin::Let | Builtin::Equal | Builtin::LessThan | Builtin::ScopeOuterLet => 2,
        _ => 1,
    }
}

fn required_arguments(b: Builtin) -> (r: usize)
    ensures
        r == min_arguments(b),
{
    match b {
        Builtin::Println | Builtin::Else | Builtin::End | Builtin::True | Builtin::False
        | Builtin::ScopePush | Builtin::ScopePop => 0,
        Builtin::Let | Builtin::Equal | Builtin::LessThan | Builtin::ScopeOuterLet => 2,
        _ => 1,
    }
}

/// Applies a built-in to its resolved arguments.
fn apply_keyword(
    implementation: Builtin,
    global_state: &mut GlobalState,
    args: &Vec<Argument>,
    depth: u32,
    name: &Keyword,
) -> (r: Result<(), EvalError>)
    ensures
        step_frame(*old(global_state), *final(global_state)),
        (final(global_state)@, unit_result(r)) == apply_model(
            implementation,
            old(global_state)@,
            views(args@),
            depth as nat,
            *name,
        ),
    decreases depth, 0nat, 1nat,
{
    if args.len() < required_arguments(implementation) {
        return Err(EvalError::InsufficientArguments { keyword: name.lexem.clone(), line: name.line_number });
    }
    let ghost before = *global_state;
    let r = match implementation {
        Builtin::Println => {
            keywords::println(global_state, args);
            assert(forall|i: int| 0 <= i < before.output@.len() ==> global_state.output@.drop_last()[i] == global_state.output@[i]);
            Ok(())
        },
        Builtin::Add => keywords::add(global_state, args),
        Builtin::Subtract => keywords::subtract(global_state, args),
        Builtin::If => {
            control_flow::if_(global_state, args);
            Ok(())
        },
        Builtin::Else => control_flow::else_(global_state, args),
        Builtin::End => control_flow::end(global_state, args),
        Builtin::Let => {
            keywords::let_(global_state, args);
            Ok(())
        },
        Builtin::Tel => keywords::tel(global_state, args),
        Builtin::Equal => {
            keywords::eq(global_state, args);
            Ok(())
        },
        Builtin::LessThan => {
            keywords::less_than(global_state, args);
            Ok(())
        },
        Builtin::Not => {
            keywords::not(global_state, args);
            Ok(())
        },
        Builtin::True => {
            keywords::true_(global_state, args);
            Ok(())
        },
        Builtin::False => {
            keywords::false_(global_state, args);
            Ok(())
        },
        Builtin::ScopePush => {
            keywords::scope_push(global_state, args);
            Ok(())
        },
        Builtin::ScopePop => keywords::scope_pop(global_state, args),
        Builtin::ScopeOuterLet => {
            keywords::scope_outer_let(global_state, args);
            Ok(())
        },
        Builtin::ScopeOuterTel => keywords::scope_outer_tel(global_state, args),
        Builtin::Return => {
            keywords::return_(global_state, args);
            Ok(())
        },
        Builtin::Subroutine => keywords::subroutine(global_state, args),
        Builtin::Run => run(global_state, args, depth),
    };
    r
}

/// `run name`: evaluates the stored body of the subroutine against the
/// current state; the body sees and changes the caller's bindings.
pub fn run(global_state: &mut GlobalState, args: &Vec<Argument>, depth: u32) -> (r: Result<
    (),
    EvalError,
>)
    requires
        args@.len() >= 1,
    ensures
        !old(global_state).subroutines@.contains_key(args@[0]@) ==> (r matches Err(
            EvalError::SubroutineNotFound { name, .. }) && name@ == args@[0]@)
            && *final(global_state) == *old(global_state),
        old(global_state).subroutines@.contains_key(args@[0]@) && depth == 0 ==> r matches Err(
            EvalError::CallDepthExceeded { .. },
        ),
        step_frame(*old(global_state), *final(global_state)),
        (final(global_state)@, unit_result(r)) == run_model(old(global_state)@, args@[0]@, depth as nat),
    decreases depth, 0nat, 0nat,
{
    let body = match global_state.subroutines.get(&args[0]) {
        Some(b) => copy_tokens(b),
        None => {
            return Err(EvalError::SubroutineNotFound { name: args[0].duplicate(), line: global_state.line_number });
        },
    };
    if depth == 0 {
        return Err(EvalError::CallDepthExceeded { line: global_state.line_number });
    }
    main_loop(&body, global_state, depth - 1)
}

/// The mathematical content of resolved arguments and where they end.
pub open spec fn args_result(r: Result<(Vec<Argument>, usize), EvalError>) -> Result<(Seq<Val>, int), ErrorModel> {
    match r {
        Ok((args, p)) => Ok((views(args@), p as int)),
        Err(e) => Err(e@),
    }
}

/// Resolves `arity` argument values from `pos`, left to right: a literal
/// gives its value, a keyword is evaluated and gives the last value it left.
fn retrieve_arguments(
    arity: u32,
    keyword: &Keyword,
    tokens: &Vec<Token>,
    pos: usize,
    global_state: &mut GlobalState,
    depth: u32,
) -> (r: Result<(Vec<Argument>, usize), EvalError>)
    requires
        pos <= tokens@.len(),
    ensures
        r matches Ok((args, p)) ==> args@.len() == arity && pos <= p <= tokens@.len(),
        step_frame(*old(global_state), *final(global_state)),
        (final(global_state)@, args_result(r)) == args_model(
            tokens@,
            pos as int,
            old(global_state)@,
            depth as nat,
            arity as nat,
            *keyword,
            seq![],
        ),
    decreases depth, tokens@.len() - pos, 1nat,
{
    let len = tokens.len();
    let mut args: Vec<Argument> = Vec::new();
    let mut p: usize = pos;
    let mut k: u32 = 0;
    assert(views(args@) =~= Seq::<Val>::empty());
    while k < arity
        invariant
            len == tokens@.len(),
            pos <= p <= len,
            args@.len() == k,
            k <= arity,
            step_frame(*old(global_state), *global_state),
            args_model(tokens@, p as int, global_state@, depth as nat, (arity - k) as nat, *keyword, views(args@))
                == args_model(tokens@, pos as int, old(global_state)@, depth as nat, arity as nat, *keyword, seq![]),
        decreases arity - k,
    {
        if p >= len {
            return Err(EvalError::InsufficientArguments { keyword: keyword.lexem.clone(), line: keyword.line_number });
        }
        match &tokens[p] {
            Token::Keyword(_) => {
                let ghost mid = *global_state;
                p = run_next_expression(tokens, p, global_state, depth)?;
                proof {
                    lemma_output_extends_trans(old(global_state).output@, mid.output@, global_state.output@);
                }
                match &global_state.ret {
                    Some(v) => {
                        let ghost before = views(args@);
                        args.push(v.duplicate());
                        assert(views(args@) =~= before.push(v@));
                    },
                    None => {
                        return Err(EvalError::MissingReturnValue { line: global_state.line_number });
                    },
                }
            },
            Token::KfkString(s) => {
                global_state.line_number = s.line_number;
                let ghost before = views(args@);
                args.push(Argument::KfkString(s.lexem.clone()));
                assert(views(args@) =~= before.push(Val::Str(s.lexem@)));
                p = p + 1;
            },
            Token::Number(n) => {
                global_state.line_number = n.line_number;
                let ghost before = views(args@);
                args.push(Argument::Number(n.number));
                assert(views(args@) =~= before.push(Val::Num(n.number as int)));
                p = p + 1;
            },
        }
        k = k + 1;
    }
    Ok((args, p))
}

/// Evaluates the one invocation that starts at `pos`: its keyword, then
/// its arguments (nested invocations first), then the keyword's work.
/// Returns the position after the invocation.
pub fn run_next_expression(
    tokens: &Vec<Token>,
    pos: usize,
    global_state: &mut GlobalState,
    depth: u32,
) -> (r: Result<usize, EvalError>)
    requires
        pos < tokens@.len(),
    ensures
        r matches Ok(p) ==> pos < p <= tokens@.len(),
        !(tokens@[pos as int] is Keyword) ==> r == Err::<usize, EvalError>(
            EvalError::UnexpectedToken { line: tokens@[pos as int].line_spec() },
        ) && *final(global_state) == *old(global_state),
        tokens@[pos as int] is Keyword && !old(global_state).keyword_map().contains_key(
            tokens@[pos as int]->Keyword_0.lexem@,
        ) ==> (r matches Err(EvalError::UnknownKeyword { name, line }) && name@
            == tokens@[pos as int]->Keyword_0.lexem@ && line == tokens@[pos as int]->Keyword_0.line_number)
            && *final(global_state) == *old(global_state),
        step_frame(*old(global_state), *final(global_state)),
        (final(global_state)@, pos_result(r)) == eval_model(tokens@, pos as int, old(global_state)@, depth as nat),
    decreases depth, tokens@.len() - pos, 0nat,
{
    let len = tokens.len();
    let keyword = match &tokens[pos] {
        Token::Keyword(k) => k,
        other => {
            return Err(EvalError::UnexpectedToken { line: other.line_number() });
        },
    };
    let (implementation, arity) = match lookup_keyword(&global_state.keywords, keyword.lexem.as_str()) {
        Some(k) => (k.implementation, k.number_of_arguments),
        None => {
            return Err(EvalError::UnknownKeyword { name: keyword.lexem.clone(), line: keyword.line_number });
        },
    };
    global_state.line_number = keyword.line_number;
    let ghost first = *global_state;
    let (args, p) = retrieve_arguments(arity, keyword, tokens, pos + 1, global_state, depth)?;
    let ghost second = *global_state;
    apply_keyword(implementation, global_state, &args, depth, keyword)?;
    proof {
        lemma_output_extends_trans(first.output@, second.output@, global_state.output@);
    }
    Ok(p)
}

/// Records a subroutine body: takes tokens from `pos` until the frame of
/// the definition is closed, keeping nested `if`/`end` balanced. Returns the
/// body (the closing `end` left out) and the position after that `end`.
pub fn get_subroutine_tokens(tokens: &Vec<Token>, pos: usize, global_state: &mut GlobalState) -> (r:
    Result<(Vec<Token>, usize), EvalError>)
    requires
        pos <= tokens@.len(),
        old(global_state).nesting@.contains(NestingState::SubroutineDefinition),
    ensures
        final(global_state).nesting@ == capture_model(tokens@, pos as int, old(global_state).nesting@).0,
        r matches Ok((body, p)) ==> {
            &&& capture_model(tokens@, pos as int, old(global_state).nesting@).1 == Some(p as int)
            &&& pos < p <= tokens@.len()
            &&& body@ == tokens@.subrange(pos as int, p - 1)
        },
        r is Err <==> capture_model(tokens@, pos as int, old(global_state).nesting@).1 is None,
        r matches Err(e) ==> e@ == (ErrorModel::UnterminatedSubroutine { line: old(global_state).line_number }),
        *final(global_state) == (GlobalState { nesting: final(global_state).nesting, ..*old(global_state) }),
{
    let len = tokens.len();
    let mut body: Vec<Token> = Vec::new();
    let mut p: usize = pos;
    assert(tokens@.subrange(pos as int, pos as int) =~= Seq::<Token>::empty());
    while contains_frame(&global_state.nesting, NestingState::SubroutineDefinition)
        invariant
            len == tokens@.len(),
            pos <= p <= len,
            body@ == tokens@.subrange(pos as int, p as int),
            capture_model(tokens@, p as int, global_state.nesting@) == capture_model(
                tokens@,
                pos as int,
                old(global_state).nesting@,
            ),
            p == pos ==> global_state.nesting@ == old(global_state).nesting@,
            *global_state == (GlobalState { nesting: global_state.nesting, ..*old(global_state) }),
        decreases len - p,
    {
        if p >= len {
            return Err(EvalError::UnterminatedSubroutine { line: global_state.line_number });
        }
        if tokens[p].is_keyword_named("if") {
            global_state.nesting.push(NestingState::Ignore);
        } else if tokens[p].is_keyword_named("end") {
            if global_state.nesting.len() > 0 {
                global_state.nesting.pop();
            }
        }
        body.push(tokens[p].duplicate());
        p = p + 1;
        assert(body@ =~= tokens@.subrange(pos as int, p as int));
    }
    // the definition's frame was open at `pos`, so at least one token was taken
    assert(p > pos);
    body.pop();
    assert(body@ =~= tokens@.subrange(pos as int, p - 1));
    Ok((body, p))
}

/// Evaluates a token sequence to its end: before each step the skipper may
/// pass over an invocation of a skipped branch; after a `subroutine`
/// invocation the body that follows is recorded instead of evaluated.
pub fn main_loop(tokens: &Vec<Token>, global_state: &mut GlobalState, depth: u32) -> (r: Result<
    (),
    EvalError,
>)
    ensures
        step_frame(*old(global_state), *final(global_state)),
        (final(global_state)@, unit_result(r)) == loop_model(
            tokens@,
            0,
            old(global_state)@,
            depth as nat,
            old(global_state).nesting@.len(),
        ),
        r is Ok ==> final(global_state).nesting@.len() == old(global_state).nesting@.len(),
    decreases depth, tokens@.len() + 1, 0nat,
{
    let len = tokens.len();
    let base = global_state.nesting.len();
    let mut pos: usize = 0;
    while pos < len
        invariant
            len == tokens@.len(),
            pos <= len,
            base == old(global_state).nesting@.len(),
            step_frame(*old(global_state), *global_state),
            loop_model(tokens@, pos as int, global_state@, depth as nat, base as nat) == loop_model(
                tokens@,
                0,
                old(global_state)@,
                depth as nat,
                base as nat,
            ),
        decreases len - pos,
    {
        let ghost before = *global_state;
        let next = skip_tokens(tokens, pos, global_state)?;
        if next > pos {
            pos = next;
        } else {
            let ghost mid = *global_state;
            pos = run_next_expression(tokens, pos, global_state, depth)?;
            proof {
                lemma_output_extends_trans(old(global_state).output@, mid.output@, global_state.output@);
            }
            let pending = match &global_state.subroutine_name {
                Some(name) => Some(name.duplicate()),
                None => None,
            };
            if let Some(name) = pending {
                let body = if contains_frame(&global_state.nesting, NestingState::SubroutineDefinition) {
                    let (body, p) = get_subroutine_tokens(tokens, pos, global_state)?;
                    pos = p;
                    body
                } else {
                    Vec::new()
                };
                global_state.subroutines.insert(name, body);
                global_state.subroutine_name = None;
            }
        }
    }
    if global_state.nesting.len() != base {
        return Err(EvalError::UnbalancedControlFlow { line: global_state.line_number });
    }
    Ok(())
}

/// Evaluates a whole program from the given state, with subroutine calls
/// nested at most `max_call_depth` deep; a block left open at the end of
/// the program is an error.
pub fn run_program_limited(tokens: &Vec<Token>, global_state: &mut GlobalState, max_call_depth: u32) -> (r:
    Result<(), EvalError>)
    ensures
        r is Ok ==> final(global_state).nesting@.len() == 0,
        (final(global_state)@, unit_result(r)) == program_model(
            tokens@,
            old(global_state)@,
            max_call_depth as nat,
        ),
        step_frame(*old(global_state), *final(global_state)),
{
    main_loop(tokens, global_state, max_call_depth)?;
    if global_state.nesting.len() > 0 {
        return Err(EvalError::UnbalancedControlFlow { line: global_state.line_number });
    }
    Ok(())
}

/// Evaluates a whole program from the given state, with subroutine calls
/// nested at most `MAX_CALL_DEPTH` deep.
pub fn run_program(tokens: &Vec<Token>, global_state: &mut GlobalState) -> (r: Result<
    (),
    EvalError,
>)
    ensures
        r is Ok ==> final(global_state).nesting@.len() == 0,
        (final(global_state)@, unit_result(r)) == program_model(
            tokens@,
            old(global_state)@,
            MAX_CALL_DEPTH as nat,
        ),
        step_frame(*old(global_state), *final(global_state)),
{
    run_program_limited(tokens, global_state, MAX_CALL_DEPTH)
}

/// The name under which a built-in is registered.
pub open spec fn builtin_name(b: Builtin) -> Seq<char> {
    match b {
        Builtin::Println => "println"@,
        Builtin::Add => "+"@,
        Builtin::Subtract => "-"@,
        Builtin::If => "if"@,
        Builtin::Else => "else"@,
        Builtin::End => "end"@,
        Builtin::Let => "let"@,
        Builtin::Tel => "tel"@,
        Builtin::Equal => "=="@,
        Builtin::LessThan => "<"@,
        Builtin::Not => "!"@,
        Builtin::True => "true"@,
        Builtin::False => "false"@,
        Builtin::ScopePush => "scope::push"@,
        Builtin::ScopePop => "scope::pop"@,
        Builtin::ScopeOuterLet => "scope::outer::let"@,
        Builtin::ScopeOuterTel => "scope::outer::tel"@,
        Builtin::Return => "return"@,
        Builtin::Subroutine => "subroutine"@,
        Builtin::Run => "run"@,
    }
}

/// How many argument expressions a built-in is registered to take.
pub open spec fn builtin_arity(b: Builtin) -> u32 {
    match b {
        Builtin::Println => 1,
        Builtin::Add => 2,
        Builtin::Subtract => 2,
        Builtin::If => 1,
        Builtin::Else => 0,
        Builtin::End => 0,
        Builtin::Let => 2,
        Builtin::Tel => 1,
        Builtin::Equal => 2,
        Builtin::LessThan => 2,
        Builtin::Not => 1,
        Builtin::True => 0,
        Builtin::False => 0,
        Builtin::ScopePush => 0,
        Builtin::ScopePop => 0,
        Builtin::ScopeOuterLet => 2,
        Builtin::ScopeOuterTel => 1,
        Builtin::Return => 1,
        Builtin::Subroutine => 1,
        Builtin::Run => 1,
    }
}

fn register_builtin(global_state: &mut GlobalState, name: &str, implementation: Builtin, number_of_arguments: u32)
    requires
        !old(global_state).keyword_map().contains_key(name@),
    ensures
        final(global_state).keyword_map() == old(global_state).keyword_map().insert(
            name@,
            final(global_state).keyword_map()[name@],
        ),
        final(global_state).keyword_map()[name@].name@ == name@,
        final(global_state).keyword_map()[name@].implementation == implementation,
        final(global_state).keyword_map()[name@].number_of_arguments == number_of_arguments,
        *final(global_state) == (GlobalState { keywords: final(global_state).keywords, ..*old(global_state) }),
{
    let r = register_keyword(global_state, name, implementation, number_of_arguments);
}

impl GlobalState {
    /// A fresh state (as `new`) with every built-in keyword registered.
    pub fn with_builtins() -> (r: GlobalState)
        ensures
            forall|b: Builtin| #[trigger] r.keyword_map().contains_key(builtin_name(b)),
            forall|b: Builtin| {
                let k = #[trigger] r.keyword_map()[builtin_name(b)];
                &&& k.name@ == builtin_name(b)
                &&& k.implementation == b
                &&& k.number_of_arguments == builtin_arity(b)
            },
            r.variables@ == Map::<Val, Val>::empty(),
            r.subroutines@ == Map::<Val, Seq<Token>>::empty(),
            r.line_number == 0,
            r.nesting@ == Seq::<NestingState>::empty(),
            r.subroutine_name is None,
            r.ret_view() == Some(Val::Num(0)),
            r.scopes@.len() == 0,
            r.output@.len() == 0,
    {
        proof {
            reveal_strlit("println");
            reveal_strlit("+");
            reveal_strlit("-");
            reveal_strlit("if");
            reveal_strlit("else");
            reveal_strlit("end");
            reveal_strlit("let");
            reveal_strlit("tel");
            reveal_strlit("==");
            reveal_strlit("<");
            reveal_strlit("!");
            reveal_strlit("true");
            reveal_strlit("false");
            reveal_strlit("scope::push");
            reveal_strlit("scope::pop");
            reveal_strlit("scope::outer::let");
            reveal_strlit("scope::outer::tel");
            reveal_strlit("return");
            reveal_strlit("subroutine");
            reveal_strlit("run");
            // the names are pairwise distinct
            assert("println"@.len() == 7);
            assert("+"@.len() == 1);
            assert("-"@.len() == 1);
            assert("if"@.len() == 2);
            assert("else"@.len() == 4);
            assert("end"@.len() == 3);
            assert("let"@.len() == 3);
            assert("tel"@.len() == 3);
            assert("=="@.len() == 2);
            assert("<"@.len() == 1);
            assert("!"@.len() == 1);
            assert("true"@.len() == 4);
            assert("false"@.len() == 5);
            assert("scope::push"@.len() == 11);
            assert("scope::pop"@.len() == 10);
            assert("scope::outer::let"@.len() == 17);
            assert("scope::outer::tel"@.len() == 17);
            assert("return"@.len() == 6);
            assert("subroutine"@.len() == 10);
            assert("run"@.len() == 3);
            assert("+"@[0] != "-"@[0]);
            assert("+"@[0] != "<"@[0]);
            assert("+"@[0] != "!"@[0]);
            assert("-"@[0] != "<"@[0]);
            assert("-"@[0] != "!"@[0]);
            assert("if"@[0] != "=="@[0]);
            assert("else"@[0] != "true"@[0]);
            assert("end"@[0] != "let"@[0]);
            assert("end"@[0] != "tel"@[0]);
            assert("end"@[0] != "run"@[0]);
            assert("let"@[0] != "tel"@[0]);
            assert("let"@[0] != "run"@[0]);
            assert("tel"@[0] != "run"@[0]);
            assert("<"@[0] != "!"@[0]);
            assert("scope::pop"@[1] != "subroutine"@[1]);
            assert("scope::outer::let"@[14] != "scope::outer::tel"@[14]);
        }
        let mut global_state = GlobalState::new();
    register_builtin(&mut global_state, "println", Builtin::Println, 1);
    register_builtin(&mut global_state, "+", Builtin::Add, 2);
    register_builtin(&mut global_state, "-", Builtin::Subtract, 2);
    register_builtin(&mut global_state, "if", Builtin::If, 1);
    register_builtin(&mut global_state, "else", Builtin::Else, 0);
    register_builtin(&mut global_state, "end", Builtin::End, 0);
    register_builtin(&mut global_state, "let", Builtin::Let, 2);
    register_builtin(&mut global_state, "tel", Builtin::Tel, 1);
    register_builtin(&mut global_state, "==", Builtin::Equal, 2);
    register_builtin(&mut global_state, "<", Builtin::LessThan, 2);
    register_builtin(&mut global_state, "!", Builtin::Not, 1);
    register_builtin(&mut global_state, "true", Builtin::True, 0);
    register_builtin(&mut global_state, "false", Builtin::False, 0);
    register_builtin(&mut global_state, "scope::push", Builtin::ScopePush, 0);
    register_builtin(&mut global_state, "scope::pop", Builtin::ScopePop, 0);
    register_builtin(&mut global_state, "scope::outer::let", Builtin::ScopeOuterLet, 2);
    register_builtin(&mut global_state, "scope::outer::tel", Builtin::ScopeOuterTel, 1);
    register_builtin(&mut global_state, "return", Builtin::Return, 1);
    register_builtin(&mut global_state, "subroutine", Builtin::Subroutine, 1);
    register_builtin(&mut global_state, "run", Builtin::Run, 1);
        global_state
    }
}

} // verus!
