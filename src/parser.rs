use vstd::prelude::*;
use vstd::std_specs::iter::IteratorSpec;
use crate::token::{Token, TokenType, TokenModel, Keyword, KfkString, Number, token_views};

verus! {

broadcast use vstd::string::axiom_spec_iter, vstd::string::next_postcondition;

/// The characters of a string, in order.
pub fn chars_of(s: &str) -> (r: Vec<char>)
    ensures
        r@ == s@,
{
    let mut it = s.chars();
    let mut out: Vec<char> = Vec::new();
    loop
        invariant
            out@ + it.remaining() == s@,
            it.decrease() is Some,
        ensures
            out@ == s@,
        decreases it.decrease()->0,
    {
        match it.next() {
            Some(c) => {
                out.push(c);
            },
            None => {
                assert(out@ =~= s@);
                break;
            },
        }
    }
    out
}


pub open spec fn is_digit(c: char) -> bool {
    '0' <= c && c <= '9'
}

pub open spec fn all_digits(s: Seq<char>) -> bool {
    forall|i: int| 0 <= i < s.len() ==> is_digit(#[trigger] s[i])
}

/// The value of a run of decimal digits.
pub open spec fn digits_value(s: Seq<char>) -> int
    decreases s.len(),
{
    if s.len() == 0 {
        0
    } else {
        digits_value(s.drop_last()) * 10 + ((s.last() as int) - ('0' as int))
    }
}

pub open spec fn pow10(n: nat) -> int
    decreases n,
{
    if n == 0 {
        1
    } else {
        10 * pow10((n - 1) as nat)
    }
}

/// The index of the first `.` in `s`, or its length when it has none.
pub open spec fn dot_index(s: Seq<char>) -> int
    decreases s.len(),
{
    if s.len() == 0 {
        0
    } else if s[0] == '.' {
        0
    } else {
        1 + dot_index(s.drop_first())
    }
}

/// The digits after the `.`, if any.
pub open spec fn fraction_part(s: Seq<char>) -> Seq<char> {
    if dot_index(s) < s.len() {
        s.skip(dot_index(s) + 1)
    } else {
        seq![]
    }
}

/// The number of billionths that unsigned decimal text (`12`, `0.5`, `3.`)
/// denotes: at least one whole digit, at most nine decimal places.
pub open spec fn magnitude(s: Seq<char>) -> Option<int> {
    let whole = s.take(dot_index(s));
    let frac = fraction_part(s);
    if whole.len() >= 1 && all_digits(whole) && all_digits(frac) && frac.len() <= 9 {
        Some(digits_value(whole) * 1000000000 + digits_value(frac) * pow10((9 - frac.len()) as nat))
    } else {
        None
    }
}

/// The number of billionths that a number literal denotes, when it is a
/// well-formed decimal (with an optional leading `-`) that fits.
pub open spec fn number_value(s: Seq<char>) -> Option<int> {
    let neg = s.len() > 0 && s[0] == '-';
    let body = if neg {
        s.drop_first()
    } else {
        s
    };
    match magnitude(body) {
        Some(m) => if m <= i128::MAX {
            Some(if neg {
                -m
            } else {
                m
            })
        } else {
            None
        },
        None => None,
    }
}

proof fn lemma_digits_bound(s: Seq<char>)
    requires
        all_digits(s),
    ensures
        0 <= digits_value(s) < pow10(s.len()),
    decreases s.len(),
{
    if s.len() > 0 {
        assert(all_digits(s.drop_last()));
        assert(is_digit(s[s.len() - 1]));
        lemma_digits_bound(s.drop_last());
    }
}

proof fn lemma_digits_monotone(s: Seq<char>, k: int)
    requires
        all_digits(s),
        0 <= k <= s.len(),
    ensures
        digits_value(s.take(k)) <= digits_value(s),
    decreases s.len(),
{
    if k < s.len() {
        assert(all_digits(s.drop_last()));
        assert(is_digit(s[s.len() - 1]));
        lemma_digits_monotone(s.drop_last(), k);
        assert(s.drop_last().take(k) =~= s.take(k));
        lemma_digits_bound(s.drop_last());
    } else {
        assert(s.take(k) =~= s);
    }
}

proof fn lemma_dot_index(s: Seq<char>, d: int)
    requires
        0 <= d <= s.len(),
        forall|j: int| 0 <= j < d ==> s[j] != '.',
        d == s.len() || s[d] == '.',
    ensures
        dot_index(s) == d,
    decreases s.len(),
{
    if s.len() > 0 && d > 0 {
        lemma_dot_index(s.drop_first(), d - 1);
    }
}

proof fn lemma_pow10_mono(a: nat, b: nat)
    requires
        a <= b,
    ensures
        1 <= pow10(a) <= pow10(b),
    decreases b,
{
    if b > 0 {
        if a < b {
            lemma_pow10_mono(a, (b - 1) as nat);
        } else {
            lemma_pow10_mono(0, (b - 1) as nat);
        }
    }
}

proof fn lemma_pow10_nine()
    ensures
        pow10(9) == 1000000000,
{
    reveal_with_fuel(pow10, 10);
}

/// A magnitude whose whole digits exceed the largest number is out of range.
proof fn lemma_whole_too_large(body: Seq<char>, k: int)
    requires
        0 <= k <= dot_index(body) <= body.len(),
        digits_value(body.take(dot_index(body)).take(k)) * 1000000000 > i128::MAX,
    ensures
        magnitude(body) matches Some(m) ==> m > i128::MAX,
{
    let whole = body.take(dot_index(body));
    let frac = fraction_part(body);
    if all_digits(whole) && all_digits(frac) && whole.len() >= 1 && frac.len() <= 9 {
        lemma_digits_monotone(whole, k);
        lemma_digits_bound(frac);
        lemma_pow10_mono(0, (9 - frac.len()) as nat);
        let a = digits_value(whole);
        let b = digits_value(frac);
        let p = pow10((9 - frac.len()) as nat);
        assert(b * p >= 0) by (nonlinear_arith)
            requires
                b >= 0,
                p >= 1,
        ;
    }
}

/// Reads a number literal: `Some` of its billionths exactly when it is a
/// well-formed decimal that fits.
#[verifier::rlimit(40)]
pub fn parse_number(text: &Vec<char>) -> (r: Option<i128>)
    ensures
        r matches Some(v) ==> number_value(text@) == Some(v as int),
        r is None ==> number_value(text@) is None,
{
    let n = text.len();
    let neg = n > 0 && text[0] == '-';
    let start: usize = if neg { 1 } else { 0 };
    let ghost body = text@.skip(start as int);
    assert(body =~= if neg { text@.drop_first() } else { text@ });
    assert(number_value(text@) == match magnitude(body) {
        Some(m) => if m <= i128::MAX {
            Some(if neg {
                -m
            } else {
                m
            })
        } else {
            None
        },
        None => None,
    });
    // where the whole part ends
    let mut d: usize = start;
    while d < n && text[d] != '.'
        invariant
            start <= d <= n,
            n == text@.len(),
            forall|j: int| start <= j < d ==> text@[j] != '.',
        decreases n - d,
    {
        d = d + 1;
    }
    proof {
        lemma_dot_index(body, d - start);
    }
    let ghost whole = body.take(d - start);
    let ghost frac = fraction_part(body);
    if d == start {
        assert(magnitude(body) is None);
        return None;
    }
    // the whole digits
    let mut w: i128 = 0;
    let mut i: usize = start;
    assert(whole.take(0) =~= Seq::<char>::empty());
    while i < d
        invariant
            start <= i <= d <= n,
            n == text@.len(),
            dot_index(body) == d - start,
            whole == body.take(d - start),
            body == text@.skip(start as int),
            magnitude(body) is None ==> number_value(text@) is None,
            (magnitude(body) matches Some(m) && m > i128::MAX) ==> number_value(text@) is None,
            all_digits(whole.take(i - start)),
            w == digits_value(whole.take(i - start)),
            w >= 0,
        decreases d - i,
    {
        let c = text[i];
        assert(whole[i - start] == c);
        if !('0' <= c && c <= '9') {
            assert(!all_digits(whole));
            assert(magnitude(body) is None);
            return None;
        }
        assert(whole.take(i - start + 1).drop_last() =~= whole.take(i - start));
        let dv = (c as u32 - '0' as u32) as i128;
        let next = match w.checked_mul(10) {
            Some(x) => x.checked_add(dv),
            None => None,
        };
        match next {
            Some(x) => {
                w = x;
            },
            None => {
                proof {
                    let v = digits_value(whole.take(i - start + 1));
                    assert(v > i128::MAX);
                    lemma_whole_too_large(body, i - start + 1);
                }
                return None;
            },
        }
        i = i + 1;
    }
    assert(whole.take(d - start) =~= whole);
    let scaled = match w.checked_mul(1000000000) {
        Some(x) => x,
        None => {
            proof {
                lemma_whole_too_large(body, d - start);
            }
            return None;
        },
    };
    // the fraction digits
    let mut f: i128 = 0;
    let mut k: usize = 0;
    if d < n {
        let fstart = d + 1;
        assert(frac =~= text@.subrange(fstart as int, n as int));
        if n - fstart > 9 {
            assert(magnitude(body) is None);
            return None;
        }
        let flen = n - fstart;
        assert(frac.take(0) =~= Seq::<char>::empty());
        while k < flen
            invariant
                fstart + flen == n,
                flen <= 9,
                k <= flen,
                n == text@.len(),
                frac == text@.subrange(fstart as int, n as int),
                frac == fraction_part(body),
                magnitude(body) is None ==> number_value(text@) is None,
                (magnitude(body) matches Some(m) && m > i128::MAX) ==> number_value(text@) is None,
                all_digits(frac.take(k as int)),
                f == digits_value(frac.take(k as int)),
                0 <= f < pow10(k as nat),
            decreases flen - k,
        {
            let c = text[fstart + k];
            assert(frac[k as int] == c);
            if !('0' <= c && c <= '9') {
                assert(!all_digits(frac));
                assert(magnitude(body) is None);
                return None;
            }
            assert(frac.take(k + 1).drop_last() =~= frac.take(k as int));
            proof {
                lemma_pow10_mono(k as nat, 9);
                lemma_pow10_nine();
            }
            f = f * 10 + (c as u32 - '0' as u32) as i128;
            k = k + 1;
        }
        assert(frac.take(k as int) =~= frac);
    } else {
        assert(frac =~= Seq::<char>::empty());
    }
    // scale the fraction to billionths
    let ghost fv = f as int;
    assert(pow10((k - k) as nat) == 1);
    let mut j: usize = k;
    while j < 9
        invariant
            k <= j <= 9,
            fv >= 0,
            f >= 0,
            f == fv * pow10((j - k) as nat),
            f < pow10(j as nat),
        decreases 9 - j,
    {
        proof {
            lemma_pow10_mono(j as nat, 9);
            lemma_pow10_nine();
            assert(fv * pow10((j - k) as nat) * 10 == fv * pow10((j + 1 - k) as nat)) by (nonlinear_arith)
                requires
                    pow10((j + 1 - k) as nat) == 10 * pow10((j - k) as nat),
            ;
        }
        f = f * 10;
        j = j + 1;
    }
    proof {
        lemma_pow10_nine();
    }
    match scaled.checked_add(f) {
        Some(m) => {
            if neg {
                Some(-m)
            } else {
                Some(m)
            }
        },
        None => None,
    }
}


/// Whether a character has the Unicode `White_Space` property: tab, line
/// feed, vertical tab, form feed, carriage return, space, next line,
/// no-break space, ogham space mark, the spaces U+2000 to U+200A, line and
/// paragraph separators, narrow no-break space, medium mathematical space
/// and ideographic space.
pub open spec fn whitespace_char(c: char) -> bool {
    let u = c as u32;
    (0x09 <= u && u <= 0x0D) || u == 0x20 || u == 0x85 || u == 0xA0 || u == 0x1680 || (0x2000 <= u
        && u <= 0x200A) || u == 0x2028 || u == 0x2029 || u == 0x202F || u == 0x205F || u == 0x3000
}

/// Whether a character has the Unicode `White_Space` property, as
/// `char::is_whitespace` decides it.
pub fn is_whitespace(c: char) -> (r: bool)
    ensures
        r == whitespace_char(c),
{
    let u = c as u32;
    (0x09 <= u && u <= 0x0D) || u == 0x20 || u == 0x85 || u == 0xA0 || u == 0x1680 || (0x2000 <= u
        && u <= 0x200A) || u == 0x2028 || u == 0x2029 || u == 0x202F || u == 0x205F || u == 0x3000
}

/// Relies on `String::push`: appends the character.
#[verifier::external_body]
fn push_char(s: &mut String, c: char)
    ensures
        final(s)@ == old(s)@.push(c),
{
    s.push(c)
}

/// Why source text could not be split into tokens.
#[derive(Debug)]
pub enum ParseError {
    InvalidNumber { text: String, line: u32 },
    UnterminatedString { line: u32 },
}

/// The mathematical content of a split error.
pub enum ParseErrorModel {
    InvalidNumber { text: Seq<char>, line: u32 },
    UnterminatedString { line: u32 },
}

impl View for ParseError {
    type V = ParseErrorModel;

    open spec fn view(&self) -> ParseErrorModel {
        match self {
            ParseError::InvalidNumber { text, line } => ParseErrorModel::InvalidNumber { text: text@, line: *line },
            ParseError::UnterminatedString { line } => ParseErrorModel::UnterminatedString { line: *line },
        }
    }
}

/// The token that the text read so far makes, if any, when it ends.
pub open spec fn finished(kind: TokenType, text: Seq<char>, line: u32) -> Result<Seq<TokenModel>, ParseErrorModel> {
    match kind {
        TokenType::Keyword => Ok(seq![TokenModel::Keyword { lexem: text, line }]),
        TokenType::Number => match number_value(text) {
            Some(value) => Ok(seq![TokenModel::Num { lexem: text, value, line }]),
            None => Err(ParseErrorModel::InvalidNumber { text, line }),
        },
        TokenType::KfkApostropheString | TokenType::KfkDollarString => Ok(
            seq![TokenModel::Str { lexem: text, line }],
        ),
        TokenType::Whitespace => Ok(seq![]),
    }
}

pub open spec fn line_after(line: u32, c: char) -> u32 {
    if c == '\n' && line < u32::MAX {
        (line + 1) as u32
    } else {
        line
    }
}

/// Splitting the characters from `i` on, in the middle of a token of kind
/// `kind` whose text so far is `text` (or of a comment), on line `line`,
/// after the tokens `done`.
pub open spec fn lex_from(
    cs: Seq<char>,
    i: int,
    kind: TokenType,
    text: Seq<char>,
    line: u32,
    comment: bool,
    done: Seq<TokenModel>,
) -> Result<Seq<TokenModel>, ParseErrorModel>
    decreases cs.len() - i,
{
    if i < 0 || i >= cs.len() {
        if kind == TokenType::KfkApostropheString {
            Err(ParseErrorModel::UnterminatedString { line })
        } else {
            match finished(kind, text, line) {
                Ok(t) => Ok(done + t),
                Err(e) => Err(e),
            }
        }
    } else {
        let c = cs[i];
        let next = if i + 1 < cs.len() {
            Some(cs[i + 1])
        } else {
            None
        };
        let line2 = line_after(line, c);
        if kind == TokenType::Whitespace {
            if !comment && c != '#' {
                let start = if c == '$' || c == '\'' {
                    Seq::<char>::empty()
                } else {
                    seq![c]
                };
                lex_from(cs, i + 1, next_token_type(c, next), start, line2, false, done)
            } else {
                lex_from(cs, i + 1, kind, text, line2, c != '\n', done)
            }
        } else {
            let ends = if kind == TokenType::KfkApostropheString {
                c == '"'
            } else if kind == TokenType::KfkDollarString {
                c == ' ' || c == '\n'
            } else {
                whitespace_char(c) || c == '#'
            };
            let comment2 = if kind == TokenType::Keyword || kind == TokenType::Number {
                c == '#'
            } else {
                comment
            };
            if ends {
                match finished(kind, text, line) {
                    Ok(t) => lex_from(cs, i + 1, TokenType::Whitespace, seq![], line2, comment2, done + t),
                    Err(e) => Err(e),
                }
            } else {
                lex_from(cs, i + 1, kind, text.push(c), line2, comment, done)
            }
        }
    }
}

/// The tokens that source text splits into.
pub open spec fn lex(source: Seq<char>) -> Result<Seq<TokenModel>, ParseErrorModel> {
    lex_from(source, 0, TokenType::Whitespace, seq![], 1, false, seq![])
}

/// The mathematical content of a split.
pub open spec fn parse_result(r: Result<Vec<Token>, ParseError>) -> Result<Seq<TokenModel>, ParseErrorModel> {
    match r {
        Ok(ts) => Ok(token_views(ts@)),
        Err(e) => Err(e@),
    }
}

/// The kind of token that a character starts, given the character after it.
pub open spec fn next_token_type(c: char, next: Option<char>) -> TokenType {
    if c == '-' {
        if next matches Some(d) && is_digit(d) {
            TokenType::Number
        } else {
            TokenType::Keyword
        }
    } else if is_digit(c) {
        TokenType::Number
    } else if c == '$' {
        TokenType::KfkDollarString
    } else if c == '\'' {
        TokenType::KfkApostropheString
    } else if whitespace_char(c) {
        TokenType::Whitespace
    } else {
        TokenType::Keyword
    }
}

/// The kind of token that `current_char` starts, and the text the token
/// begins with: the character itself, or nothing for the opening mark of a
/// string.
pub fn determine_next_token_type(current_char: char, next_char: Option<char>) -> (r: (TokenType, String))
    ensures
        r.0 == next_token_type(current_char, next_char),
        r.1@ == if current_char == '$' || current_char == '\'' {
            Seq::<char>::empty()
        } else {
            seq![current_char]
        },
        r.0 == TokenType::Keyword ==> !whitespace_char(current_char),
{
    let blank = is_whitespace(current_char);
    let mut text = String::new();
    if current_char == '$' {
        return (TokenType::KfkDollarString, text);
    }
    if current_char == '\'' {
        return (TokenType::KfkApostropheString, text);
    }
    push_char(&mut text, current_char);
    assert(text@ =~= seq![current_char]);
    let kind = if current_char == '-' {
        match next_char {
            Some(d) => if '0' <= d && d <= '9' {
                TokenType::Number
            } else {
                TokenType::Keyword
            },
            None => TokenType::Keyword,
        }
    } else if '0' <= current_char && current_char <= '9' {
        TokenType::Number
    } else if blank {
        TokenType::Whitespace
    } else {
        TokenType::Keyword
    };
    (kind, text)
}

/// What every token of a split holds: a line from one on; a keyword is a
/// non-empty run of characters that are neither white space nor `#`; a
/// number's value is the one its text denotes.
pub open spec fn well_lexed(t: Token) -> bool {
    &&& t.line_spec() >= 1
    &&& match t {
        Token::Keyword(k) => k.lexem@.len() > 0 && forall|j: int|
            0 <= j < k.lexem@.len() ==> !whitespace_char(#[trigger] k.lexem@[j]) && k.lexem@[j] != '#',
        Token::Number(n) => number_value(n.lexem@) == Some(n.number as int),
        Token::KfkString(_) => true,
    }
}

pub open spec fn keyword_text(s: Seq<char>) -> bool {
    s.len() > 0 && forall|j: int| 0 <= j < s.len() ==> !whitespace_char(#[trigger] s[j]) && s[j] != '#'
}

fn next_line(line: u32) -> (r: u32)
    requires
        line >= 1,
    ensures
        r >= 1,
        r == line_after(line, '\n'),
{
    if line < u32::MAX {
        line + 1
    } else {
        line
    }
}

/// Ends the pending token of the given kind and adds it to `tokens`.
fn finish_token(
    tokens: &mut Vec<Token>,
    token_type: TokenType,
    prelim: String,
    line_number: u32,
) -> (r: Result<(), ParseError>)
    requires
        line_number >= 1,
        token_type == TokenType::Keyword ==> keyword_text(prelim@),
        forall|i: int| 0 <= i < old(tokens)@.len() ==> well_lexed(#[trigger] old(tokens)@[i]),
    ensures
        forall|i: int| 0 <= i < final(tokens)@.len() ==> well_lexed(#[trigger] final(tokens)@[i]),
        r matches Err(e) ==> e matches ParseError::InvalidNumber { text, .. } && number_value(text@) is None,
        r matches Err(e) ==> finished(token_type, prelim@, line_number) == Err::<Seq<TokenModel>, _>(e@),
        r is Ok ==> (finished(token_type, prelim@, line_number) matches Ok(t) && token_views(final(tokens)@)
            == token_views(old(tokens)@) + t),
{
    let ghost before = tokens@;
    let ghost prelim_view = prelim@;
    match token_type {
        TokenType::Keyword => {
            tokens.push(Token::Keyword(Keyword { lexem: prelim, line_number }));
        },
        TokenType::Number => {
            let cs = chars_of(prelim.as_str());
            match parse_number(&cs) {
                Some(number) => {
                    tokens.push(Token::Number(Number { lexem: prelim, number, line_number }));
                },
                None => {
                    return Err(ParseError::InvalidNumber { text: prelim, line: line_number });
                },
            }
        },
        TokenType::KfkApostropheString | TokenType::KfkDollarString => {
            tokens.push(Token::KfkString(KfkString { lexem: prelim, line_number }));
        },
        TokenType::Whitespace => {},
    }
    assert(forall|i: int| 0 <= i < before.len() ==> tokens@[i] == before[i]);
    assert(token_views(tokens@) =~= token_views(before) + finished(token_type, prelim_view, line_number)->Ok_0);
    Ok(())
}

/// Splits source text into tokens. A keyword or number runs to the next
/// white space or `#`; `$text` runs to the next space or line break;
/// `'text"` runs to the closing `"`; `#` outside a token starts a comment
/// that runs to the end of the line. Each token carries its line, counted
/// from one.
pub fn parse(source_code: &str) -> (r: Result<Vec<Token>, ParseError>)
    ensures
        r matches Ok(tokens) ==> forall|i: int| 0 <= i < tokens@.len() ==> well_lexed(#[trigger] tokens@[i]),
        r matches Err(ParseError::InvalidNumber { text, .. }) ==> number_value(text@) is None,
        parse_result(r) == lex(source_code@),
{
    let cs = chars_of(source_code);
    let n = cs.len();
    let mut tokens: Vec<Token> = Vec::new();
    let mut line_number: u32 = 1;
    let mut prelim = String::new();
    let mut token_type = TokenType::Whitespace;
    let mut is_comment = false;
    let mut i: usize = 0;
    while i < n
        invariant
            n == cs@.len(),
            i <= n,
            line_number >= 1,
            token_type == TokenType::Keyword ==> keyword_text(prelim@),
            forall|j: int| 0 <= j < tokens@.len() ==> well_lexed(#[trigger] tokens@[j]),
            lex_from(cs@, i as int, token_type, prelim@, line_number, is_comment, token_views(tokens@))
                == lex(source_code@),
        decreases n - i,
    {
        let current_char = cs[i];
        let next_char = if i + 1 < n {
            Some(cs[i + 1])
        } else {
            None
        };
        let newline = current_char == '\n';
        if token_type == TokenType::Whitespace {
            if !is_comment {
                is_comment = current_char == '#';
            }
            if !is_comment {
                let (kind, text) = determine_next_token_type(current_char, next_char);
                token_type = kind;
                prelim = text;
                proof {
                    if kind == TokenType::Keyword {
                        assert(prelim@ == seq![current_char]);
                        assert(!whitespace_char(current_char));
                    }
                }
            } else if newline {
                is_comment = false;
            }
            if newline {
                line_number = next_line(line_number);
            }
            i = i + 1;
            continue;
        }
        match token_type {
            TokenType::KfkApostropheString => {
                if current_char == '"' {
                    let mut text = String::new();
                    std::mem::swap(&mut text, &mut prelim);
                    finish_token(&mut tokens, token_type, text, line_number)?;
                    token_type = TokenType::Whitespace;
                } else {
                    push_char(&mut prelim, current_char);
                }
            },
            TokenType::KfkDollarString => {
                if current_char == ' ' || current_char == '\n' {
                    let mut text = String::new();
                    std::mem::swap(&mut text, &mut prelim);
                    finish_token(&mut tokens, token_type, text, line_number)?;
                    token_type = TokenType::Whitespace;
                } else {
                    push_char(&mut prelim, current_char);
                }
            },
            _ => {
                if is_whitespace(current_char) || current_char == '#' {
                    is_comment = current_char == '#';
                    let mut text = String::new();
                    std::mem::swap(&mut text, &mut prelim);
                    finish_token(&mut tokens, token_type, text, line_number)?;
                    token_type = TokenType::Whitespace;
                } else {
                    let ghost before = prelim@;
                    push_char(&mut prelim, current_char);
                    proof {
                        if token_type == TokenType::Keyword {
                            assert forall|j: int| 0 <= j < prelim@.len() implies !whitespace_char(
                                #[trigger] prelim@[j],
                            ) && prelim@[j] != '#' by {
                                if j < before.len() {
                                    assert(prelim@[j] == before[j]);
                                }
                            }
                        }
                    }
                }
            },
        }
        if newline {
            line_number = next_line(line_number);
        }
        i = i + 1;
    }
    if token_type == TokenType::KfkApostropheString {
        return Err(ParseError::UnterminatedString { line: line_number });
    }
    finish_token(&mut tokens, token_type, prelim, line_number)?;
    Ok(tokens)
}


/// How a token is shown in a listing: a string between `'` and `"`,
/// anything else as its source text.
pub open spec fn token_display(t: Token) -> Seq<char> {
    match t {
        Token::Keyword(k) => k.lexem@,
        Token::KfkString(s) => seq!['\''] + s.lexem@ + seq!['"'],
        Token::Number(n) => n.lexem@,
    }
}

/// A listing of tokens laid out on their source lines, starting at line
/// `current`: each token is followed by a space, a token on a later line
/// is preceded by one line break per line passed, and a line break ends it.
pub open spec fn listing(ts: Seq<Token>, current: int) -> Seq<char>
    decreases ts.len(),
{
    if ts.len() == 0 {
        seq!['\n']
    } else {
        let l = ts[0].line_spec() as int;
        let gap: nat = if l > current {
            (l - current) as nat
        } else {
            0
        };
        Seq::new(gap, |i: int| '\n') + token_display(ts[0]) + seq![' '] + listing(
            ts.drop_first(),
            if l > current {
                l
            } else {
                current
            },
        )
    }
}

/// The tokens laid out on their source lines, for a debugging dump.
pub fn format_tokens(tokens: &Vec<Token>) -> (r: String)
    ensures
        r@ == listing(tokens@, 1),
{
    proof {
        reveal_strlit("\n");
        reveal_strlit(" ");
        reveal_strlit("'");
        reveal_strlit("\"");
    }
    let mut out = String::new();
    let mut current: u32 = 1;
    let mut i: usize = 0;
    assert(tokens@.skip(0) =~= tokens@);
    while i < tokens.len()
        invariant
            i <= tokens@.len(),
            out@ + listing(tokens@.skip(i as int), current as int) == listing(tokens@, 1),
        decreases tokens@.len() - i,
    {
        proof {
            reveal_strlit(" ");
            reveal_strlit("'");
            reveal_strlit("\"");
        }
        let ghost rest = tokens@.skip(i as int);
        let ghost start = out@;
        assert(rest[0] == tokens@[i as int]);
        assert(rest.drop_first() =~= tokens@.skip(i + 1));
        let t = &tokens[i];
        let l = t.line_number();
        let ghost gap: nat = if l > current { (l - current) as nat } else { 0 };
        if l > current {
            let mut k: u32 = current;
            while k < l
                invariant
                    current <= k <= l,
                    out@ == start + Seq::new((k - current) as nat, |j: int| '\n'),
                decreases l - k,
            {
                proof {
                    reveal_strlit("\n");
                }
                out.append("\n");
                k = k + 1;
                assert(out@ =~= start + Seq::new((k - current) as nat, |j: int| '\n'));
            }
            current = l;
        } else {
            assert(out@ =~= start + Seq::new(0, |j: int| '\n'));
        }
        match t {
            Token::Keyword(k) => {
                out.append(k.lexem.as_str());
            },
            Token::KfkString(s) => {
                out.append("'");
                out.append(s.lexem.as_str());
                out.append("\"");
            },
            Token::Number(n) => {
                out.append(n.lexem.as_str());
            },
        }
        out.append(" ");
        i = i + 1;
        assert(out@ =~= start + Seq::new(gap, |j: int| '\n') + token_display(rest[0]) + seq![' ']);
    }
    out.append("\n");
    assert(out@ =~= listing(tokens@, 1));
    out
}

} // verus!
