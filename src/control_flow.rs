use vstd::prelude::*;
use crate::value::{Argument, views};
use crate::token::{Token, is_keyword};
use crate::expression::{
    GlobalState, EvalError, NestingState, Builtin, lookup_keyword, truthy, pos_result, unit_result,
};
use crate::semantics::{skip_model, skip_args_model, keyword_model};

verus! {

/// `if cond`: opens a block whose branch runs when the condition is true,
/// and is skipped otherwise.
pub fn if_(global_state: &mut GlobalState, args: &Vec<Argument>)
    requires
        args@.len() >= 1,
    ensures
        final(global_state)@ == keyword_model(Builtin::If, old(global_state)@, views(args@)).0,
        keyword_model(Builtin::If, old(global_state)@, views(args@)).1 is Ok,
        final(global_state).nesting@ == old(global_state).nesting@.push(
            if truthy(args@[0]@) {
                NestingState::If
            } else {
                NestingState::Else
            },
        ),
        *final(global_state) == (GlobalState { nesting: final(global_state).nesting, ..*old(global_state) }),
{
    let taken = match &args[0] {
        Argument::Number(n) => *n != 0,
        Argument::KfkString(s) => s.as_str().unicode_len() != 0,
    };
    if taken {
        global_state.nesting.push(NestingState::If);
    } else {
        global_state.nesting.push(NestingState::Else);
    }
}

/// The frame that `else` leaves on top in place of `top`.
pub open spec fn toggled(top: NestingState) -> NestingState {
    match top {
        NestingState::If => NestingState::Else,
        NestingState::Else => NestingState::If,
        other => other,
    }
}

/// `else`: switches the innermost block between running and skipped.
pub fn else_(global_state: &mut GlobalState, args: &Vec<Argument>) -> (r: Result<(), EvalError>)
    ensures
        (final(global_state)@, unit_result(r)) == keyword_model(Builtin::Else, old(global_state)@, views(args@)),
        r is Err <==> old(global_state).nesting@.len() == 0,
        r is Err ==> r matches Err(EvalError::UnbalancedControlFlow { .. }),
        r is Ok ==> final(global_state).nesting@ == old(global_state).nesting@.drop_last().push(
            toggled(old(global_state).nesting@.last()),
        ),
        r is Err ==> *final(global_state) == *old(global_state),
        *final(global_state) == (GlobalState { nesting: final(global_state).nesting, ..*old(global_state) }),
{
    let n = global_state.nesting.len();
    if n == 0 {
        return Err(EvalError::UnbalancedControlFlow { line: global_state.line_number });
    }
    let top = global_state.nesting[n - 1];
    let next = match top {
        NestingState::If => NestingState::Else,
        NestingState::Else => NestingState::If,
        other => other,
    };
    global_state.nesting.pop();
    global_state.nesting.push(next);
    Ok(())
}

/// `end`: closes the innermost block.
pub fn end(global_state: &mut GlobalState, args: &Vec<Argument>) -> (r: Result<(), EvalError>)
    ensures
        (final(global_state)@, unit_result(r)) == keyword_model(Builtin::End, old(global_state)@, views(args@)),
        r is Err <==> old(global_state).nesting@.len() == 0,
        r is Err ==> r matches Err(EvalError::UnbalancedControlFlow { .. }),
        r is Ok ==> final(global_state).nesting@ == old(global_state).nesting@.drop_last(),
        r is Err ==> *final(global_state) == *old(global_state),
        *final(global_state) == (GlobalState { nesting: final(global_state).nesting, ..*old(global_state) }),
{
    if global_state.nesting.len() == 0 {
        return Err(EvalError::UnbalancedControlFlow { line: global_state.line_number });
    }
    global_state.nesting.pop();
    Ok(())
}

/// A keyword that opens a block closed by `end`.
pub open spec fn is_opener(t: Token) -> bool {
    is_keyword(t, "if"@) || is_keyword(t, "subroutine"@)
}

/// How many block-opening keywords the tokens hold.
pub open spec fn count_openers(ts: Seq<Token>) -> nat
    decreases ts.len(),
{
    if ts.len() == 0 {
        0
    } else {
        count_openers(ts.drop_last()) + if is_opener(ts.last()) {
            1nat
        } else {
            0nat
        }
    }
}

pub proof fn lemma_count_openers_split(s: Seq<Token>, a: int, b: int, c: int)
    requires
        0 <= a <= b <= c <= s.len(),
    ensures
        count_openers(s.subrange(a, c)) == count_openers(s.subrange(a, b)) + count_openers(
            s.subrange(b, c),
        ),
    decreases c - b,
{
    if c > b {
        lemma_count_openers_split(s, a, b, c - 1);
        assert(s.subrange(a, c).drop_last() =~= s.subrange(a, c - 1));
        assert(s.subrange(b, c).drop_last() =~= s.subrange(b, c - 1));
    } else {
        assert(s.subrange(b, c) =~= Seq::<Token>::empty());
    }
}

/// The frames on top of `before` are `n` frames of `Ignore`.
pub open spec fn pushed_ignores(before: Seq<NestingState>, after: Seq<NestingState>, n: nat) -> bool {
    after == before + Seq::new(n, |i: int| NestingState::Ignore)
}

fn is_opener_token(t: &Token) -> (r: bool)
    ensures
        r == is_opener(*t),
{
    t.is_keyword_named("if") || t.is_keyword_named("subroutine")
}

/// Passes over one expression from `pos` without evaluating it: a literal
/// is one token, a keyword is followed by as many expressions as it takes.
/// Each `if` or `subroutine` passed pushes an `Ignore` frame, so that its
/// `end` stays balanced. Returns the position after the expression.
pub fn skip_expression(tokens: &Vec<Token>, pos: usize, global_state: &mut GlobalState) -> (r: Result<
    usize,
    EvalError,
>)
    requires
        pos < tokens@.len(),
    ensures
        r matches Ok(p) ==> pos < p <= tokens@.len() && pushed_ignores(
            old(global_state).nesting@,
            final(global_state).nesting@,
            count_openers(tokens@.subrange(pos as int, p as int)),
        ),
        r matches Err(e) ==> e matches EvalError::UnknownKeyword { .. } || e matches EvalError::InsufficientArguments { .. },
        (final(global_state).nesting@, pos_result(r)) == skip_model(
            tokens@,
            pos as int,
            old(global_state).keyword_map(),
            old(global_state).nesting@,
        ),
        *final(global_state) == (GlobalState { nesting: final(global_state).nesting, ..*old(global_state) }),
    decreases tokens@.len() - pos,
{
    let len = tokens.len();
    let keyword = match &tokens[pos] {
        Token::Keyword(k) => k,
        _ => {
            proof {
                let s = tokens@.subrange(pos as int, pos + 1);
                assert(s.drop_last() =~= Seq::<Token>::empty());
                assert(s.last() == tokens@[pos as int]);
                assert(count_openers(s.drop_last()) == 0);
                assert(count_openers(s) == 0);
                assert(global_state.nesting@ =~= old(global_state).nesting@ + Seq::new(0, |i: int| NestingState::Ignore));
            }
            return Ok(pos + 1);
        },
    };
    let arity = match lookup_keyword(&global_state.keywords, keyword.lexem.as_str()) {
        Some(k) => k.number_of_arguments,
        None => {
            return Err(EvalError::UnknownKeyword { name: keyword.lexem.clone(), line: keyword.line_number });
        },
    };
    let opener = is_opener_token(&tokens[pos]);
    if opener {
        global_state.nesting.push(NestingState::Ignore);
    }
    proof {
        let s = tokens@.subrange(pos as int, pos + 1);
        assert(s.drop_last() =~= Seq::<Token>::empty());
        assert(s.last() == tokens@[pos as int]);
        assert(count_openers(s.drop_last()) == 0);
        assert(count_openers(s) == if opener { 1nat } else { 0nat });
        assert(global_state.nesting@ =~= old(global_state).nesting@ + Seq::new(
            count_openers(s),
            |i: int| NestingState::Ignore,
        ));
    }
    let mut p: usize = pos + 1;
    let mut k: u32 = 0;
    let ghost kmap = old(global_state).keyword_map();
    while k < arity
        invariant
            pos < p <= tokens@.len(),
            k <= arity,
            tokens@[pos as int] == Token::Keyword(*keyword),
            kmap == global_state.keyword_map(),
            skip_args_model(tokens@, p as int, kmap, global_state.nesting@, (arity - k) as nat, *keyword)
                == skip_model(tokens@, pos as int, kmap, old(global_state).nesting@),
            pushed_ignores(
                old(global_state).nesting@,
                global_state.nesting@,
                count_openers(tokens@.subrange(pos as int, p as int)),
            ),
            *global_state == (GlobalState { nesting: global_state.nesting, ..*old(global_state) }),
        decreases arity - k,
    {
        if p >= tokens.len() {
            return Err(EvalError::InsufficientArguments { keyword: keyword.lexem.clone(), line: keyword.line_number });
        }
        let ghost mid = global_state.nesting@;
        let next = skip_expression(tokens, p, global_state)?;
        proof {
            lemma_count_openers_split(tokens@, pos as int, p as int, next as int);
            assert(global_state.nesting@ =~= old(global_state).nesting@ + Seq::new(
                count_openers(tokens@.subrange(pos as int, next as int)),
                |i: int| NestingState::Ignore,
            ));
        }
        p = next;
        k = k + 1;
    }
    Ok(p)
}

/// Whether the upcoming token must be passed over: the innermost block is
/// skipped, and the token is not the `end` or `else` that manages it.
pub open spec fn must_skip(nesting: Seq<NestingState>, t: Token) -> bool {
    &&& nesting.len() > 0
    &&& (nesting.last() == NestingState::Else || nesting.last() == NestingState::Ignore)
    &&& !is_keyword(t, "end"@)
    &&& !is_keyword(t, "else"@)
}

/// Whether the upcoming token must be passed over, given the frame stack.
pub fn determine_tokens_to_skip(nesting: &Vec<NestingState>, next_token: &Token) -> (r: bool)
    ensures
        r == must_skip(nesting@, *next_token),
{
    let n = nesting.len();
    if n == 0 {
        return false;
    }
    let top = nesting[n - 1];
    if top != NestingState::Else && top != NestingState::Ignore {
        return false;
    }
    !(next_token.is_keyword_named("end") || next_token.is_keyword_named("else"))
}

/// Before a step of the main loop: passes over the upcoming invocation when
/// the innermost block is skipped, and returns the position to go on from.
/// An `end` or `else` is never passed over: it is left in place (`pos`
/// itself comes back, with the state unchanged) for the main loop to
/// evaluate, as it is when nothing is skipped.
pub fn skip_tokens(tokens: &Vec<Token>, pos: usize, global_state: &mut GlobalState) -> (r: Result<
    usize,
    EvalError,
>)
    requires
        pos < tokens@.len(),
    ensures
        !must_skip(old(global_state).nesting@, tokens@[pos as int]) ==> r == Ok::<usize, EvalError>(pos)
            && *final(global_state) == *old(global_state),
        must_skip(old(global_state).nesting@, tokens@[pos as int]) ==> (r matches Ok(p) ==> pos < p
            <= tokens@.len() && pushed_ignores(
            old(global_state).nesting@,
            final(global_state).nesting@,
            count_openers(tokens@.subrange(pos as int, p as int)),
        )),
        r matches Err(e) ==> e matches EvalError::UnknownKeyword { .. } || e matches EvalError::InsufficientArguments { .. },
        must_skip(old(global_state).nesting@, tokens@[pos as int]) ==> (
        final(global_state).nesting@,
        pos_result(r),
        ) == skip_model(tokens@, pos as int, old(global_state).keyword_map(), old(global_state).nesting@),
        *final(global_state) == (GlobalState { nesting: final(global_state).nesting, ..*old(global_state) }),
{
    if !determine_tokens_to_skip(&global_state.nesting, &tokens[pos]) {
        return Ok(pos);
    }
    skip_expression(tokens, pos, global_state)
}

} // verus!
