use vstd::prelude::*;
use crate::value::{Argument, Val, UNITS_PER_ONE};
use crate::table::{map_of, lemma_map_of_found, lemma_map_of_absent, Bindings, SubroutineTable};

verus! {

/// One frame of the control-flow stack.
#[derive(PartialEq, Eq, Structural, Clone, Copy, Debug)]
pub enum NestingState {
    /// An `if` whose branch runs.
    If,
    /// A branch that is skipped.
    Else,
    /// An `if` met inside a skipped branch; kept only to balance its `end`.
    Ignore,
    /// A subroutine body being recorded.
    SubroutineDefinition,
}

/// The built-in keyword implementations.
#[derive(PartialEq, Eq, Structural, Clone, Copy, Debug)]
pub enum Builtin {
    Println,
    Add,
    Subtract,
    If,
    Else,
    End,
    Let,
    Tel,
    Equal,
    LessThan,
    Not,
    True,
    False,
    ScopePush,
    ScopePop,
    ScopeOuterLet,
    ScopeOuterTel,
    Return,
    Subroutine,
    Run,
}

/// A registered keyword: its name, what it does, and how many argument
/// expressions it takes.
#[derive(Debug)]
pub struct KeywordImplementation {
    pub name: String,
    pub implementation: Builtin,
    pub number_of_arguments: u32,
}

/// A saved frame of variable bindings.
#[derive(Debug)]
pub struct Scope {
    pub variables: Bindings,
    pub ret: Option<Argument>,
    pub line_number: u32,
}

/// The errors that end an evaluation.
#[derive(Debug)]
pub enum EvalError {
    UnknownKeyword { name: String, line: u32 },
    InsufficientArguments { keyword: String, line: u32 },
    UnexpectedToken { line: u32 },
    MissingReturnValue { line: u32 },
    TypeError { keyword: String, line: u32 },
    VariableNotFound { name: Argument, line: u32 },
    UnbalancedControlFlow { line: u32 },
    UnterminatedSubroutine { line: u32 },
    SubroutineNotFound { name: Argument, line: u32 },
    DuplicateKeywordRegistration { name: String },
    NoScopeToPop { line: u32 },
    NestedSubroutine { line: u32 },
    NumberOutOfRange { keyword: String, line: u32 },
    CallDepthExceeded { line: u32 },
}

/// The interpreter state threaded through every step.
#[derive(Debug)]
pub struct GlobalState {
    pub variables: Bindings,
    pub keywords: Vec<KeywordImplementation>,
    pub subroutines: SubroutineTable,
    pub line_number: u32,
    pub nesting: Vec<NestingState>,
    pub subroutine_name: Option<Argument>,
    pub ret: Option<Argument>,
    pub scopes: Vec<Scope>,
    /// The lines printed so far, oldest first.
    pub output: Vec<String>,
}

pub open spec fn keyword_entries(ks: Seq<KeywordImplementation>) -> Seq<(Seq<char>, KeywordImplementation)> {
    ks.map_values(|k: KeywordImplementation| (k.name@, k))
}

/// The keyword registry as a map from name.
pub open spec fn keyword_map(ks: Seq<KeywordImplementation>) -> Map<Seq<char>, KeywordImplementation> {
    map_of(keyword_entries(ks))
}

pub open spec fn opt_view(o: Option<Argument>) -> Option<Val> {
    match o {
        Some(a) => Some(a@),
        None => None,
    }
}

pub open spec fn texts(lines: Seq<String>) -> Seq<Seq<char>> {
    lines.map_values(|s: String| s@)
}

/// The mathematical content of a saved scope.
pub struct ScopeModel {
    pub variables: Map<Val, Val>,
    pub ret: Option<Val>,
    pub line_number: u32,
}

impl View for Scope {
    type V = ScopeModel;

    open spec fn view(&self) -> ScopeModel {
        ScopeModel { variables: self.variables@, ret: opt_view(self.ret), line_number: self.line_number }
    }
}

pub open spec fn scope_views(s: Seq<Scope>) -> Seq<ScopeModel> {
    s.map_values(|sc: Scope| sc@)
}

/// The mathematical content of the interpreter state.
pub struct StateModel {
    pub variables: Map<Val, Val>,
    pub keywords: Map<Seq<char>, KeywordImplementation>,
    pub subroutines: Map<Val, Seq<crate::token::Token>>,
    pub line_number: u32,
    pub nesting: Seq<NestingState>,
    pub subroutine_name: Option<Val>,
    pub ret: Option<Val>,
    pub scopes: Seq<ScopeModel>,
    pub output: Seq<Seq<char>>,
}

impl View for GlobalState {
    type V = StateModel;

    open spec fn view(&self) -> StateModel {
        StateModel {
            variables: self.variables@,
            keywords: keyword_map(self.keywords@),
            subroutines: self.subroutines@,
            line_number: self.line_number,
            nesting: self.nesting@,
            subroutine_name: opt_view(self.subroutine_name),
            ret: opt_view(self.ret),
            scopes: scope_views(self.scopes@),
            output: texts(self.output@),
        }
    }
}

/// The mathematical content of an evaluation error.
pub enum ErrorModel {
    UnknownKeyword { name: Seq<char>, line: u32 },
    InsufficientArguments { keyword: Seq<char>, line: u32 },
    UnexpectedToken { line: u32 },
    MissingReturnValue { line: u32 },
    TypeError { keyword: Seq<char>, line: u32 },
    VariableNotFound { name: Val, line: u32 },
    UnbalancedControlFlow { line: u32 },
    UnterminatedSubroutine { line: u32 },
    SubroutineNotFound { name: Val, line: u32 },
    DuplicateKeywordRegistration { name: Seq<char> },
    NoScopeToPop { line: u32 },
    NestedSubroutine { line: u32 },
    NumberOutOfRange { keyword: Seq<char>, line: u32 },
    CallDepthExceeded { line: u32 },
}

impl View for EvalError {
    type V = ErrorModel;

    open spec fn view(&self) -> ErrorModel {
        match self {
            EvalError::UnknownKeyword { name, line } => ErrorModel::UnknownKeyword { name: name@, line: *line },
            EvalError::InsufficientArguments { keyword, line } => ErrorModel::InsufficientArguments {
                keyword: keyword@,
                line: *line,
            },
            EvalError::UnexpectedToken { line } => ErrorModel::UnexpectedToken { line: *line },
            EvalError::MissingReturnValue { line } => ErrorModel::MissingReturnValue { line: *line },
            EvalError::TypeError { keyword, line } => ErrorModel::TypeError { keyword: keyword@, line: *line },
            EvalError::VariableNotFound { name, line } => ErrorModel::VariableNotFound { name: name@, line: *line },
            EvalError::UnbalancedControlFlow { line } => ErrorModel::UnbalancedControlFlow { line: *line },
            EvalError::UnterminatedSubroutine { line } => ErrorModel::UnterminatedSubroutine { line: *line },
            EvalError::SubroutineNotFound { name, line } => ErrorModel::SubroutineNotFound { name: name@, line: *line },
            EvalError::DuplicateKeywordRegistration { name } => ErrorModel::DuplicateKeywordRegistration { name: name@ },
            EvalError::NoScopeToPop { line } => ErrorModel::NoScopeToPop { line: *line },
            EvalError::NestedSubroutine { line } => ErrorModel::NestedSubroutine { line: *line },
            EvalError::NumberOutOfRange { keyword, line } => ErrorModel::NumberOutOfRange { keyword: keyword@, line: *line },
            EvalError::CallDepthExceeded { line } => ErrorModel::CallDepthExceeded { line: *line },
        }
    }
}

/// The mathematical content of the outcome of a step.
pub open spec fn unit_result(r: Result<(), EvalError>) -> Result<(), ErrorModel> {
    match r {
        Ok(()) => Ok(()),
        Err(e) => Err(e@),
    }
}

/// The mathematical content of a step that ends at a position.
pub open spec fn pos_result(r: Result<usize, EvalError>) -> Result<int, ErrorModel> {
    match r {
        Ok(p) => Ok(p as int),
        Err(e) => Err(e@),
    }
}

impl GlobalState {
    pub open spec fn keyword_map(&self) -> Map<Seq<char>, KeywordImplementation> {
        keyword_map(self.keywords@)
    }

    pub open spec fn output_texts(&self) -> Seq<Seq<char>> {
        texts(self.output@)
    }

    pub open spec fn ret_view(&self) -> Option<Val> {
        opt_view(self.ret)
    }

    /// A state with no keywords, bindings, frames or output, whose last
    /// value is the number zero.
    pub fn new() -> (r: GlobalState)
        ensures
            r.variables@ == Map::<Val, Val>::empty(),
            r.keyword_map() == Map::<Seq<char>, KeywordImplementation>::empty(),
            r.subroutines@ == Map::<Val, Seq<crate::token::Token>>::empty(),
            r.line_number == 0,
            r.nesting@ == Seq::<NestingState>::empty(),
            r.subroutine_name is None,
            r.ret_view() == Some(Val::Num(0)),
            r.scopes@ == Seq::<Scope>::empty(),
            r.output@ == Seq::<String>::empty(),
    {
        let r = GlobalState {
            variables: Bindings::new(),
            keywords: Vec::new(),
            subroutines: SubroutineTable::new(),
            line_number: 0,
            nesting: Vec::new(),
            subroutine_name: None,
            ret: Some(Argument::Number(0)),
            scopes: Vec::new(),
            output: Vec::new(),
        };
        assert(keyword_entries(r.keywords@) =~= Seq::<(Seq<char>, KeywordImplementation)>::empty());
        r
    }
}

/// The registered keyword called `name`, if any.
pub fn lookup_keyword<'a>(keywords: &'a Vec<KeywordImplementation>, name: &str) -> (r: Option<
    &'a KeywordImplementation,
>)
    ensures
        r is None <==> !keyword_map(keywords@).contains_key(name@),
        r matches Some(k) ==> keyword_map(keywords@)[name@] == *k && k.name@ == name@,
{
    let mut i: usize = keywords.len();
    while i > 0
        invariant
            i <= keywords@.len(),
            forall|j: int| i <= j < keywords@.len() ==> keywords@[j].name@ != name@,
        decreases i,
    {
        if crate::token::str_equal(keywords[i - 1].name.as_str(), name) {
            proof {
                lemma_map_of_found(keyword_entries(keywords@), name@, i - 1);
            }
            return Some(&keywords[i - 1]);
        }
        i = i - 1;
    }
    proof {
        lemma_map_of_absent(keyword_entries(keywords@), name@);
    }
    None
}

/// Adds a keyword to the registry; a name can be registered once only.
pub fn register_keyword(
    global_state: &mut GlobalState,
    name: &str,
    implementation: Builtin,
    number_of_arguments: u32,
) -> (r: Result<(), EvalError>)
    ensures
        r is Err <==> old(global_state).keyword_map().contains_key(name@),
        r matches Err(e) ==> e matches EvalError::DuplicateKeywordRegistration { name: n } && n@
            == name@,
        r is Err ==> *final(global_state) == *old(global_state),
        r is Ok ==> final(global_state).keyword_map() == old(global_state).keyword_map().insert(
            name@,
            final(global_state).keyword_map()[name@],
        ),
        r is Ok ==> {
            let k = final(global_state).keyword_map()[name@];
            &&& k.name@ == name@
            &&& k.implementation == implementation
            &&& k.number_of_arguments == number_of_arguments
        },
        *final(global_state) == (GlobalState { keywords: final(global_state).keywords, ..*old(global_state) }),
{
    if lookup_keyword(&global_state.keywords, name).is_some() {
        return Err(EvalError::DuplicateKeywordRegistration { name: name.to_owned() });
    }
    let ghost old_keywords = global_state.keywords@;
    global_state.keywords.push(
        KeywordImplementation { name: name.to_owned(), implementation, number_of_arguments },
    );
    assert(keyword_entries(global_state.keywords@).drop_last() =~= keyword_entries(old_keywords));
    Ok(())
}

/// Whether a value counts as true: a non-empty string, a non-zero number.
pub open spec fn truthy(v: Val) -> bool {
    match v {
        Val::Str(s) => s.len() > 0,
        Val::Num(n) => n != 0,
    }
}

/// The number that encodes a truth value: one or zero.
pub open spec fn bool_number(b: bool) -> int {
    if b {
        UNITS_PER_ONE as int
    } else {
        0
    }
}

} // verus!
