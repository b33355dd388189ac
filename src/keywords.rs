use vstd::prelude::*;
use crate::value::{Argument, Val, UNITS_PER_ONE, views, line_text, join_texts};
use crate::table::Bindings;
use crate::expression::{
    GlobalState, Scope, EvalError, NestingState, Builtin, texts, opt_view, truthy, bool_number,
    unit_result, scope_views,
};
use crate::semantics::{keyword_model, fold_outcome};

verus! {

pub open spec fn all_numbers(vs: Seq<Val>) -> bool {
    forall|i: int| 0 <= i < vs.len() ==> vs[i] is Num
}

pub open spec fn num_of(v: Val) -> int {
    match v {
        Val::Num(n) => n,
        Val::Str(_) => 0,
    }
}

/// The left fold of the numbers by addition, or by subtraction.
pub open spec fn fold_numbers(vs: Seq<Val>, subtract: bool) -> int
    decreases vs.len(),
{
    if vs.len() <= 1 {
        num_of(vs[0])
    } else if subtract {
        fold_numbers(vs.drop_last(), subtract) - num_of(vs.last())
    } else {
        fold_numbers(vs.drop_last(), subtract) + num_of(vs.last())
    }
}

pub open spec fn in_range(n: int) -> bool {
    i128::MIN <= n <= i128::MAX
}

/// Every partial result of the fold fits the number representation.
pub open spec fn fold_fits(vs: Seq<Val>, subtract: bool) -> bool {
    forall|k: int| 1 <= k <= vs.len() ==> #[trigger] in_range(fold_numbers(vs.take(k), subtract))
}

/// Lexicographic order of strings by character code.
pub open spec fn str_less(a: Seq<char>, b: Seq<char>) -> bool
    decreases a.len(),
{
    if a.len() == 0 {
        b.len() > 0
    } else if b.len() == 0 {
        false
    } else if a[0] != b[0] {
        (a[0] as u32) < (b[0] as u32)
    } else {
        str_less(a.drop_first(), b.drop_first())
    }
}

/// `<` on values: strings by text, numbers by value; mixed kinds are never less.
pub open spec fn less_spec(a: Val, b: Val) -> bool {
    match (a, b) {
        (Val::Str(x), Val::Str(y)) => str_less(x, y),
        (Val::Num(x), Val::Num(y)) => x < y,
        _ => false,
    }
}

/// The state after `let name value`: the name is bound in the current
/// bindings, and nothing else changes.
pub open spec fn let_step(before: GlobalState, after: GlobalState, name: Val, value: Val) -> bool {
    &&& after.variables@ == before.variables@.insert(name, value)
    &&& after == (GlobalState { variables: after.variables, ..before })
}

/// What `tel name` gives in a state: the value bound to the name, if any.
pub open spec fn tel_value(s: GlobalState, name: Val) -> Option<Val> {
    if s.variables@.contains_key(name) {
        Some(s.variables@[name])
    } else {
        None
    }
}

/// The state after `scope::push`: the bindings, last value and line are
/// saved as a new innermost scope, and the current bindings are empty.
pub open spec fn scope_push_step(before: GlobalState, after: GlobalState) -> bool {
    &&& after.scopes@.len() == before.scopes@.len() + 1
    &&& after.scopes@.drop_last() == before.scopes@
    &&& after.scopes@.last().variables == before.variables
    &&& after.scopes@.last().ret == before.ret
    &&& after.scopes@.last().line_number == before.line_number
    &&& after.variables@ == Map::<Val, Val>::empty()
    &&& after == (GlobalState { variables: after.variables, scopes: after.scopes, ..before })
}

/// The state after a successful `scope::pop`: the innermost scope is
/// removed and its bindings and line restored; the last value stays.
pub open spec fn scope_pop_step(before: GlobalState, after: GlobalState) -> bool {
    &&& before.scopes@.len() > 0
    &&& after.scopes@ == before.scopes@.drop_last()
    &&& after.variables == before.scopes@.last().variables
    &&& after.line_number == before.scopes@.last().line_number
    &&& after == (GlobalState {
        variables: after.variables,
        scopes: after.scopes,
        line_number: after.line_number,
        ..before
    })
}

/// Appends the arguments' texts, joined by spaces, as one output line.
pub fn println(global_state: &mut GlobalState, args: &Vec<Argument>)
    ensures
        final(global_state)@ == keyword_model(Builtin::Println, old(global_state)@, views(args@)).0,
        keyword_model(Builtin::Println, old(global_state)@, views(args@)).1 is Ok,
        final(global_state).output_texts() == old(global_state).output_texts().push(
            line_text(views(args@)),
        ),
        final(global_state).output@.len() == old(global_state).output@.len() + 1,
        final(global_state).output@.drop_last() == old(global_state).output@,
        *final(global_state) == (GlobalState { output: final(global_state).output, ..*old(global_state) }),
{
    let line = join_texts(args);
    let ghost old_output = global_state.output@;
    global_state.output.push(line);
    assert(texts(global_state.output@) =~= texts(old_output).push(line_text(views(args@))));
    assert(global_state.output@.drop_last() =~= old_output);
}

fn fold_arguments(global_state: &mut GlobalState, args: &Vec<Argument>, subtract: bool) -> (r: Result<
    (),
    EvalError,
>)
    requires
        args@.len() >= 1,
    ensures
        r matches Err(EvalError::TypeError { .. }) <==> !all_numbers(views(args@)),
        r matches Err(EvalError::NumberOutOfRange { .. }) <==> all_numbers(views(args@))
            && !fold_fits(views(args@), subtract),
        r is Err ==> r matches Err(EvalError::TypeError { .. }) || r matches Err(
            EvalError::NumberOutOfRange { .. },
        ),
        r is Ok ==> final(global_state).ret_view() == Some(
            Val::Num(fold_numbers(views(args@), subtract)),
        ),
        (final(global_state)@, unit_result(r)) == fold_outcome(old(global_state)@, views(args@), subtract),
        r is Err ==> *final(global_state) == *old(global_state),
        *final(global_state) == (GlobalState { ret: final(global_state).ret, ..*old(global_state) }),
{
    let ghost vs = views(args@);
    let mut i: usize = 0;
    while i < args.len()
        invariant
            i <= args@.len(),
            vs == views(args@),
            forall|j: int| 0 <= j < i ==> vs[j] is Num,
        decreases args@.len() - i,
    {
        if let Argument::KfkString(_) = &args[i] {
            assert(!(vs[i as int] is Num));
            let keyword = if subtract {
                "-".to_owned()
            } else {
                "+".to_owned()
            };
            return Err(EvalError::TypeError { keyword, line: global_state.line_number });
        }
        i = i + 1;
    }
    let mut acc: i128 = match &args[0] {
        Argument::Number(n) => *n,
        Argument::KfkString(_) => 0,
    };
    assert(vs.take(1).len() == 1);
    let mut i: usize = 1;
    while i < args.len()
        invariant
            1 <= i <= args@.len(),
            vs == views(args@),
            all_numbers(vs),
            acc == fold_numbers(vs.take(i as int), subtract),
            forall|k: int| 1 <= k <= i ==> #[trigger] in_range(fold_numbers(vs.take(k), subtract)),
        decreases args@.len() - i,
    {
        let x: i128 = match &args[i] {
            Argument::Number(n) => *n,
            Argument::KfkString(_) => 0,
        };
        assert(vs.take(i as int + 1).drop_last() =~= vs.take(i as int));
        let next = if subtract {
            acc.checked_sub(x)
        } else {
            acc.checked_add(x)
        };
        match next {
            Some(v) => {
                acc = v;
            },
            None => {
                assert(!in_range(fold_numbers(vs.take(i as int + 1), subtract)));
                let keyword = if subtract {
                    "-".to_owned()
                } else {
                    "+".to_owned()
                };
                return Err(EvalError::NumberOutOfRange { keyword, line: global_state.line_number });
            },
        }
        i = i + 1;
    }
    assert(vs.take(args@.len() as int) =~= vs);
    global_state.ret = Some(Argument::Number(acc));
    Ok(())
}

/// `+`: the sum of the number arguments, left to right.
pub fn add(global_state: &mut GlobalState, args: &Vec<Argument>) -> (r: Result<(), EvalError>)
    requires
        args@.len() >= 1,
    ensures
        (final(global_state)@, unit_result(r)) == keyword_model(Builtin::Add, old(global_state)@, views(args@)),
        r matches Err(EvalError::TypeError { .. }) <==> !all_numbers(views(args@)),
        r matches Err(EvalError::NumberOutOfRange { .. }) <==> all_numbers(views(args@))
            && !fold_fits(views(args@), false),
        r is Err ==> r matches Err(EvalError::TypeError { .. }) || r matches Err(
            EvalError::NumberOutOfRange { .. },
        ),
        r is Ok ==> final(global_state).ret_view() == Some(Val::Num(fold_numbers(views(args@), false))),
        r is Err ==> *final(global_state) == *old(global_state),
        *final(global_state) == (GlobalState { ret: final(global_state).ret, ..*old(global_state) }),
{
    fold_arguments(global_state, args, false)
}

/// `-`: the first number argument minus the others, left to right.
pub fn subtract(global_state: &mut GlobalState, args: &Vec<Argument>) -> (r: Result<(), EvalError>)
    requires
        args@.len() >= 1,
    ensures
        (final(global_state)@, unit_result(r)) == keyword_model(Builtin::Subtract, old(global_state)@, views(args@)),
        r matches Err(EvalError::TypeError { .. }) <==> !all_numbers(views(args@)),
        r matches Err(EvalError::NumberOutOfRange { .. }) <==> all_numbers(views(args@))
            && !fold_fits(views(args@), true),
        r is Err ==> r matches Err(EvalError::TypeError { .. }) || r matches Err(
            EvalError::NumberOutOfRange { .. },
        ),
        r is Ok ==> final(global_state).ret_view() == Some(Val::Num(fold_numbers(views(args@), true))),
        r is Err ==> *final(global_state) == *old(global_state),
        *final(global_state) == (GlobalState { ret: final(global_state).ret, ..*old(global_state) }),
{
    fold_arguments(global_state, args, true)
}

/// `let name value`: binds the name in the current bindings.
pub fn let_(global_state: &mut GlobalState, args: &Vec<Argument>)
    requires
        args@.len() >= 2,
    ensures
        final(global_state)@ == keyword_model(Builtin::Let, old(global_state)@, views(args@)).0,
        keyword_model(Builtin::Let, old(global_state)@, views(args@)).1 is Ok,
        let_step(*old(global_state), *final(global_state), args@[0]@, args@[1]@),
{
    global_state.variables.insert(args[0].duplicate(), args[1].duplicate());
}

/// `tel name`: the value bound to the name becomes the last value.
pub fn tel(global_state: &mut GlobalState, args: &Vec<Argument>) -> (r: Result<(), EvalError>)
    requires
        args@.len() >= 1,
    ensures
        (final(global_state)@, unit_result(r)) == keyword_model(Builtin::Tel, old(global_state)@, views(args@)),
        r is Ok <==> tel_value(*old(global_state), args@[0]@) is Some,
        r matches Err(e) ==> e matches EvalError::VariableNotFound { name, .. } && name@ == args@[0]@,
        r is Ok ==> final(global_state).ret_view() == tel_value(*old(global_state), args@[0]@),
        r is Err ==> *final(global_state) == *old(global_state),
        *final(global_state) == (GlobalState { ret: final(global_state).ret, ..*old(global_state) }),
{
    match global_state.variables.get(&args[0]) {
        Some(v) => {
            let v = v.duplicate();
            global_state.ret = Some(v);
            Ok(())
        },
        None => Err(EvalError::VariableNotFound { name: args[0].duplicate(), line: global_state.line_number }),
    }
}

/// `== a b`: one when the values are equal (same kind and same content), else zero.
pub fn eq(global_state: &mut GlobalState, args: &Vec<Argument>)
    requires
        args@.len() >= 2,
    ensures
        final(global_state)@ == keyword_model(Builtin::Equal, old(global_state)@, views(args@)).0,
        keyword_model(Builtin::Equal, old(global_state)@, views(args@)).1 is Ok,
        final(global_state).ret_view() == Some(Val::Num(bool_number(args@[0]@ == args@[1]@))),
        *final(global_state) == (GlobalState { ret: final(global_state).ret, ..*old(global_state) }),
{
    let same = args[0] == args[1];
    global_state.ret = Some(Argument::Number(if same { UNITS_PER_ONE } else { 0 }));
}

/// Lexicographic comparison of two strings by character code.
pub fn string_less(a: &str, b: &str) -> (r: bool)
    ensures
        r == str_less(a@, b@),
{
    let n = a.unicode_len();
    let m = b.unicode_len();
    let mut i: usize = 0;
    assert(a@.skip(0) =~= a@);
    assert(b@.skip(0) =~= b@);
    while i < n && i < m
        invariant
            n == a@.len(),
            m == b@.len(),
            i <= n,
            i <= m,
            str_less(a@, b@) == str_less(a@.skip(i as int), b@.skip(i as int)),
        decreases n - i,
    {
        let ca = a.get_char(i);
        let cb = b.get_char(i);
        assert(a@.skip(i as int)[0] == ca);
        assert(b@.skip(i as int)[0] == cb);
        if ca != cb {
            return (ca as u32) < (cb as u32);
        }
        assert(a@.skip(i as int).drop_first() =~= a@.skip(i as int + 1));
        assert(b@.skip(i as int).drop_first() =~= b@.skip(i as int + 1));
        i = i + 1;
    }
    i < m
}

/// `< a b`: one when `a` is less than `b`, else zero.
pub fn less_than(global_state: &mut GlobalState, args: &Vec<Argument>)
    requires
        args@.len() >= 2,
    ensures
        final(global_state)@ == keyword_model(Builtin::LessThan, old(global_state)@, views(args@)).0,
        keyword_model(Builtin::LessThan, old(global_state)@, views(args@)).1 is Ok,
        final(global_state).ret_view() == Some(Val::Num(bool_number(less_spec(args@[0]@, args@[1]@)))),
        *final(global_state) == (GlobalState { ret: final(global_state).ret, ..*old(global_state) }),
{
    let less = match (&args[0], &args[1]) {
        (Argument::KfkString(a), Argument::KfkString(b)) => string_less(a.as_str(), b.as_str()),
        (Argument::Number(a), Argument::Number(b)) => *a < *b,
        _ => false,
    };
    global_state.ret = Some(Argument::Number(if less { UNITS_PER_ONE } else { 0 }));
}

/// `! a`: one when `a` is false (empty or zero), else zero.
pub fn not(global_state: &mut GlobalState, args: &Vec<Argument>)
    requires
        args@.len() >= 1,
    ensures
        final(global_state)@ == keyword_model(Builtin::Not, old(global_state)@, views(args@)).0,
        keyword_model(Builtin::Not, old(global_state)@, views(args@)).1 is Ok,
        final(global_state).ret_view() == Some(Val::Num(bool_number(!truthy(args@[0]@)))),
        *final(global_state) == (GlobalState { ret: final(global_state).ret, ..*old(global_state) }),
{
    let falsy = match &args[0] {
        Argument::KfkString(s) => s.as_str().unicode_len() == 0,
        Argument::Number(n) => *n == 0,
    };
    global_state.ret = Some(Argument::Number(if falsy { UNITS_PER_ONE } else { 0 }));
}

/// `true`: the last value becomes one.
pub fn true_(global_state: &mut GlobalState, args: &Vec<Argument>)
    ensures
        final(global_state)@ == keyword_model(Builtin::True, old(global_state)@, views(args@)).0,
        keyword_model(Builtin::True, old(global_state)@, views(args@)).1 is Ok,
        final(global_state).ret_view() == Some(Val::Num(bool_number(true))),
        *final(global_state) == (GlobalState { ret: final(global_state).ret, ..*old(global_state) }),
{
    global_state.ret = Some(Argument::Number(UNITS_PER_ONE));
}

/// `false`: the last value becomes zero.
pub fn false_(global_state: &mut GlobalState, args: &Vec<Argument>)
    ensures
        final(global_state)@ == keyword_model(Builtin::False, old(global_state)@, views(args@)).0,
        keyword_model(Builtin::False, old(global_state)@, views(args@)).1 is Ok,
        final(global_state).ret_view() == Some(Val::Num(bool_number(false))),
        *final(global_state) == (GlobalState { ret: final(global_state).ret, ..*old(global_state) }),
{
    global_state.ret = Some(Argument::Number(0));
}

/// `scope::push`: saves the bindings, last value and line, and starts with no bindings.
pub fn scope_push(global_state: &mut GlobalState, args: &Vec<Argument>)
    ensures
        final(global_state)@ == keyword_model(Builtin::ScopePush, old(global_state)@, views(args@)).0,
        keyword_model(Builtin::ScopePush, old(global_state)@, views(args@)).1 is Ok,
        scope_push_step(*old(global_state), *final(global_state)),
{
    let mut saved = Bindings::new();
    std::mem::swap(&mut saved, &mut global_state.variables);
    let ret = match &global_state.ret {
        Some(a) => Some(a.duplicate()),
        None => None,
    };
    global_state.scopes.push(Scope { variables: saved, ret, line_number: global_state.line_number });
    assert(global_state.scopes@.drop_last() =~= old(global_state).scopes@);
    assert(scope_views(global_state.scopes@) =~= scope_views(old(global_state).scopes@).push(
        crate::expression::ScopeModel {
            variables: old(global_state).variables@,
            ret: opt_view(old(global_state).ret),
            line_number: old(global_state).line_number,
        },
    ));
}

/// `scope::pop`: restores the bindings and line of the last saved scope; the
/// last value is kept.
pub fn scope_pop(global_state: &mut GlobalState, args: &Vec<Argument>) -> (r: Result<(), EvalError>)
    ensures
        (final(global_state)@, unit_result(r)) == keyword_model(Builtin::ScopePop, old(global_state)@, views(args@)),
        r is Err <==> old(global_state).scopes@.len() == 0,
        r is Err ==> r matches Err(EvalError::NoScopeToPop { .. }),
        r is Err ==> *final(global_state) == *old(global_state),
        r is Ok ==> scope_pop_step(*old(global_state), *final(global_state)),
{
    if global_state.scopes.len() == 0 {
        return Err(EvalError::NoScopeToPop { line: global_state.line_number });
    }
    let ghost before = global_state.scopes@;
    match global_state.scopes.pop() {
        Some(scope) => {
            global_state.variables = scope.variables;
            global_state.line_number = scope.line_number;
            assert(scope_views(before).last() == before.last()@);
            assert(scope_views(global_state.scopes@) =~= scope_views(before).drop_last());
            Ok(())
        },
        None => Err(EvalError::NoScopeToPop { line: global_state.line_number }),
    }
}

/// The value bound to `name` in the innermost saved scope that binds it.
pub open spec fn outer_lookup(scopes: Seq<Scope>, name: Val) -> Option<Val>
    decreases scopes.len(),
{
    if scopes.len() == 0 {
        None
    } else if scopes.last().variables@.contains_key(name) {
        Some(scopes.last().variables@[name])
    } else {
        outer_lookup(scopes.drop_last(), name)
    }
}

proof fn lemma_outer_value(scopes: Seq<Scope>, name: Val)
    ensures
        crate::semantics::outer_value(scope_views(scopes), name) == outer_lookup(scopes, name),
    decreases scopes.len(),
{
    if scopes.len() > 0 {
        assert(scope_views(scopes).drop_last() =~= scope_views(scopes.drop_last()));
        assert(scope_views(scopes).last() == scopes.last()@);
        lemma_outer_value(scopes.drop_last(), name);
    }
}

/// `scope::outer::tel name`: the value bound to the name in the innermost
/// saved scope that binds it becomes the last value.
pub fn scope_outer_tel(global_state: &mut GlobalState, args: &Vec<Argument>) -> (r: Result<
    (),
    EvalError,
>)
    requires
        args@.len() >= 1,
    ensures
        (final(global_state)@, unit_result(r)) == keyword_model(Builtin::ScopeOuterTel, old(global_state)@, views(args@)),
        r is Err <==> outer_lookup(old(global_state).scopes@, args@[0]@) is None,
        r matches Err(e) ==> e matches EvalError::VariableNotFound { name, .. } && name@ == args@[0]@,
        r is Ok ==> final(global_state).ret_view() == outer_lookup(old(global_state).scopes@, args@[0]@),
        r is Err ==> *final(global_state) == *old(global_state),
        *final(global_state) == (GlobalState { ret: final(global_state).ret, ..*old(global_state) }),
{
    proof {
        lemma_outer_value(global_state.scopes@, args@[0]@);
    }
    let mut i: usize = global_state.scopes.len();
    assert(global_state.scopes@.take(i as int) =~= global_state.scopes@);
    while i > 0
        invariant
            args@.len() >= 1,
            *global_state == *old(global_state),
            crate::semantics::outer_value(scope_views(global_state.scopes@), args@[0]@) == outer_lookup(
                global_state.scopes@,
                args@[0]@,
            ),
            i <= global_state.scopes@.len(),
            outer_lookup(global_state.scopes@, args@[0]@) == outer_lookup(
                global_state.scopes@.take(i as int),
                args@[0]@,
            ),
        decreases i,
    {
        let ghost prefix = global_state.scopes@.take(i as int);
        assert(prefix.drop_last() =~= global_state.scopes@.take(i - 1));
        assert(prefix.last() == global_state.scopes@[i - 1]);
        match global_state.scopes[i - 1].variables.get(&args[0]) {
            Some(v) => {
                let v = v.duplicate();
                global_state.ret = Some(v);
                return Ok(());
            },
            None => {},
        }
        i = i - 1;
    }
    assert(global_state.scopes@.take(0) =~= Seq::<Scope>::empty());
    Err(EvalError::VariableNotFound { name: args[0].duplicate(), line: global_state.line_number })
}

/// `scope::outer::let name value`: binds the name in the innermost saved
/// scope, or in the current bindings when no scope is saved.
pub fn scope_outer_let(global_state: &mut GlobalState, args: &Vec<Argument>)
    requires
        args@.len() >= 2,
    ensures
        final(global_state)@ == keyword_model(Builtin::ScopeOuterLet, old(global_state)@, views(args@)).0,
        keyword_model(Builtin::ScopeOuterLet, old(global_state)@, views(args@)).1 is Ok,
        old(global_state).scopes@.len() == 0 ==> final(global_state).variables@ == old(
            global_state,
        ).variables@.insert(args@[0]@, args@[1]@),
        old(global_state).scopes@.len() == 0 ==> final(global_state).scopes == old(global_state).scopes,
        old(global_state).scopes@.len() > 0 ==> {
            let n = old(global_state).scopes@.len() - 1;
            &&& final(global_state).variables == old(global_state).variables
            &&& final(global_state).scopes@.len() == old(global_state).scopes@.len()
            &&& final(global_state).scopes@.drop_last() == old(global_state).scopes@.drop_last()
            &&& final(global_state).scopes@[n].variables@ == old(global_state).scopes@[n].variables@.insert(args@[0]@, args@[1]@)
            &&& final(global_state).scopes@[n].ret == old(global_state).scopes@[n].ret
            &&& final(global_state).scopes@[n].line_number == old(global_state).scopes@[n].line_number
        },
        *final(global_state) == (GlobalState {
            variables: final(global_state).variables,
            scopes: final(global_state).scopes,
            ..*old(global_state)
        }),
{
    let name = args[0].duplicate();
    let value = args[1].duplicate();
    if global_state.scopes.len() == 0 {
        global_state.variables.insert(name, value);
        return;
    }
    match global_state.scopes.pop() {
        Some(scope) => {
            let mut scope = scope;
            let ghost last = scope@;
            scope.variables.insert(name, value);
            global_state.scopes.push(scope);
            proof {
                assert(global_state.scopes@.drop_last() =~= old(global_state).scopes@.drop_last());
                assert(scope_views(old(global_state).scopes@).last() == last);
                assert(scope_views(global_state.scopes@) =~= scope_views(old(global_state).scopes@).drop_last().push(
                    crate::expression::ScopeModel { variables: last.variables.insert(args@[0]@, args@[1]@), ..last },
                ));
            }
        },
        None => {
            global_state.variables.insert(name, value);
        },
    }
}

/// `return value`: the value becomes the last value.
pub fn return_(global_state: &mut GlobalState, args: &Vec<Argument>)
    requires
        args@.len() >= 1,
    ensures
        final(global_state)@ == keyword_model(Builtin::Return, old(global_state)@, views(args@)).0,
        keyword_model(Builtin::Return, old(global_state)@, views(args@)).1 is Ok,
        final(global_state).ret == Some(args@[0]),
        *final(global_state) == (GlobalState { ret: final(global_state).ret, ..*old(global_state) }),
{
    global_state.ret = Some(args[0].duplicate());
}

/// `subroutine name`: opens the recording of a subroutine body; definitions
/// cannot nest.
pub fn subroutine(global_state: &mut GlobalState, args: &Vec<Argument>) -> (r: Result<
    (),
    EvalError,
>)
    requires
        args@.len() >= 1,
    ensures
        (final(global_state)@, unit_result(r)) == keyword_model(Builtin::Subroutine, old(global_state)@, views(args@)),
        r is Err <==> old(global_state).nesting@.contains(NestingState::SubroutineDefinition),
        r is Err ==> r matches Err(EvalError::NestedSubroutine { .. }),
        r is Err ==> *final(global_state) == *old(global_state),
        r is Ok ==> final(global_state).nesting@ == old(global_state).nesting@.push(
            NestingState::SubroutineDefinition,
        ),
        r is Ok ==> final(global_state).subroutine_name == Some(args@[0]),
        *final(global_state) == (GlobalState {
            nesting: final(global_state).nesting,
            subroutine_name: final(global_state).subroutine_name,
            ..*old(global_state)
        }),
{
    if contains_frame(&global_state.nesting, NestingState::SubroutineDefinition) {
        return Err(EvalError::NestedSubroutine { line: global_state.line_number });
    }
    global_state.nesting.push(NestingState::SubroutineDefinition);
    global_state.subroutine_name = Some(args[0].duplicate());
    Ok(())
}

/// Whether the stack holds the frame.
pub fn contains_frame(nesting: &Vec<NestingState>, frame: NestingState) -> (r: bool)
    ensures
        r == nesting@.contains(frame),
{
    let mut i: usize = 0;
    while i < nesting.len()
        invariant
            i <= nesting@.len(),
            forall|j: int| 0 <= j < i ==> nesting@[j] != frame,
        decreases nesting@.len() - i,
    {
        if nesting[i] == frame {
            return true;
        }
        i = i + 1;
    }
    false
}

} // verus!
