use vstd::prelude::*;
use crate::value::Val;
use crate::expression::GlobalState;
use crate::keywords::{let_step, tel_value, scope_push_step, scope_pop_step};
use crate::expression::{StateModel, Builtin, ErrorModel, NestingState, truthy};
use crate::semantics::{
    keyword_model, loop_model, skip_model, skip_args_model, eval_model, args_model, apply_model,
};
use crate::control_flow::{must_skip, is_opener};
use crate::interpreter::min_arguments;
use crate::token::{Token, is_keyword};

verus! {

/// Reading a name right after binding it gives back exactly the bound
/// value, string or number.
pub proof fn let_then_tel(before: GlobalState, after: GlobalState, name: Val, value: Val)
    requires
        let_step(before, after, name, value),
    ensures
        tel_value(after, name) == Some(value),
{
}

/// A binding made between `scope::push` and `scope::pop` is gone after the
/// pop, which brings back the bindings, scopes and line from before the
/// push; the last value produced inside the scope survives the pop.
pub proof fn scope_isolates_bindings(
    s0: GlobalState,
    s1: GlobalState,
    s2: GlobalState,
    s3: GlobalState,
    name: Val,
    value: Val,
)
    requires
        scope_push_step(s0, s1),
        let_step(s1, s2, name, value),
        scope_pop_step(s2, s3),
    ensures
        s3.variables == s0.variables,
        tel_value(s3, name) == tel_value(s0, name),
        s3.scopes@ == s0.scopes@,
        s3.line_number == s0.line_number,
        s3.ret == s2.ret,
{
}


/// An `if`, whatever its condition, and the `end` that closes it leave the
/// frame stack as it was: every push of a block is matched by one pop.
pub proof fn if_then_end_balanced(m: StateModel, condition: Seq<Val>, none: Seq<Val>)
    requires
        condition.len() >= 1,
    ensures
        keyword_model(Builtin::End, keyword_model(Builtin::If, m, condition).0, none).1 is Ok,
        keyword_model(Builtin::End, keyword_model(Builtin::If, m, condition).0, none).0.nesting == m.nesting,
{
    let opened = keyword_model(Builtin::If, m, condition).0;
    assert(opened.nesting.drop_last() =~= m.nesting);
}


/// While a branch is skipped, an invocation in it is passed over without
/// being evaluated: evaluation goes on after it with only `Ignore` frames
/// added, so nothing is bound, printed or returned by it.
pub proof fn skipped_invocation_has_no_effect(ts: Seq<Token>, pos: int, m: StateModel, depth: nat, base: nat)
    requires
        0 <= pos < ts.len(),
        must_skip(m.nesting, ts[pos]),
        skip_model(ts, pos, m.keywords, m.nesting).1 matches Ok(q) && pos < q <= ts.len(),
    ensures
        loop_model(ts, pos, m, depth, base) == loop_model(
            ts,
            skip_model(ts, pos, m.keywords, m.nesting).1->Ok_0,
            StateModel { nesting: skip_model(ts, pos, m.keywords, m.nesting).0, ..m },
            depth,
            base,
        ),
{
}


/// An `end` or `else` met with no block open is an unbalanced block,
/// reported at its own line, and the evaluation stops there.
pub proof fn stray_end_or_else_is_unbalanced(ts: Seq<Token>, pos: int, m: StateModel, depth: nat, base: nat)
    requires
        0 <= pos < ts.len(),
        ts[pos] is Keyword,
        m.keywords.contains_key(ts[pos]->Keyword_0.lexem@),
        m.keywords[ts[pos]->Keyword_0.lexem@].implementation == Builtin::End
            || m.keywords[ts[pos]->Keyword_0.lexem@].implementation == Builtin::Else,
        m.keywords[ts[pos]->Keyword_0.lexem@].number_of_arguments == 0,
        m.nesting.len() == 0,
    ensures
        loop_model(ts, pos, m, depth, base).1 == Err::<(), ErrorModel>(
            ErrorModel::UnbalancedControlFlow { line: ts[pos]->Keyword_0.line_number },
        ),
{
    let k = ts[pos]->Keyword_0;
    let b = m.keywords[k.lexem@].implementation;
    assert(ts[pos] == Token::Keyword(k));
    assert(!must_skip(m.nesting, ts[pos]));
    let m1 = StateModel { line_number: k.line_number, ..m };
    assert(args_model(ts, pos + 1, m1, depth, 0, k, seq![]) == (m1, Ok::<(Seq<Val>, int), ErrorModel>((seq![], pos + 1))));
    assert(min_arguments(b) == 0);
    assert(apply_model(b, m1, seq![], depth, k) == keyword_model(b, m1, seq![]));
    assert(keyword_model(b, m1, seq![]).1 == Err::<(), ErrorModel>(
        ErrorModel::UnbalancedControlFlow { line: k.line_number },
    ));
    assert(eval_model(ts, pos, m, depth).1 == Err::<int, ErrorModel>(
        ErrorModel::UnbalancedControlFlow { line: k.line_number },
    ));
}

/// Under a skipped branch, an `if` whose condition is a literal is passed
/// over together with its condition, and pushes exactly one `Ignore` frame.
pub proof fn skipped_if_pushes_one_frame(
    ts: Seq<Token>,
    pos: int,
    keywords: Map<Seq<char>, crate::expression::KeywordImplementation>,
    nesting: Seq<NestingState>,
)
    requires
        0 <= pos,
        pos + 1 < ts.len(),
        is_keyword(ts[pos], "if"@),
        keywords.contains_key("if"@),
        keywords["if"@].number_of_arguments == 1,
        !(ts[pos + 1] is Keyword),
    ensures
        skip_model(ts, pos, keywords, nesting) == (nesting.push(NestingState::Ignore), Ok::<int, ErrorModel>(pos + 2)),
{
    let k = ts[pos]->Keyword_0;
    assert(k.lexem@ == "if"@);
    assert(is_opener(ts[pos]));
    let pushed = nesting.push(NestingState::Ignore);
    assert(skip_model(ts, pos + 1, keywords, pushed) == (pushed, Ok::<int, ErrorModel>(pos + 2)));
    assert(skip_args_model(ts, pos + 2, keywords, pushed, 0, k) == (pushed, Ok::<int, ErrorModel>(pos + 2)));
    assert(skip_args_model(ts, pos + 1, keywords, pushed, 1, k) == (pushed, Ok::<int, ErrorModel>(pos + 2)));
}

/// After `if` with a false condition, every invocation but `end` and
/// `else` is skipped; after the `else` that follows, none is. With a true
/// condition it is the other way round.
pub proof fn if_else_branches(m: StateModel, condition: Seq<Val>, none: Seq<Val>, t: Token)
    requires
        condition.len() >= 1,
        !is_keyword(t, "end"@),
        !is_keyword(t, "else"@),
    ensures
        must_skip(keyword_model(Builtin::If, m, condition).0.nesting, t) == !truthy(condition[0]),
        must_skip(
            keyword_model(Builtin::Else, keyword_model(Builtin::If, m, condition).0, none).0.nesting,
            t,
        ) == truthy(condition[0]),
{
    let opened = keyword_model(Builtin::If, m, condition).0;
    assert(opened.nesting.drop_last() =~= m.nesting);
}

} // verus!
