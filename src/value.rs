use vstd::prelude::*;

verus! {

/// Numbers are held as exact counts of billionths: nine decimal places.
pub const UNITS_PER_ONE: i128 = 1000000000;

/// The mathematical content of a runtime value.
pub enum Val {
    Str(Seq<char>),
    Num(int),
}

/// A runtime value: a string, or a number counted in billionths.
#[derive(Debug)]
pub enum Argument {
    KfkString(String),
    Number(i128),
}

impl View for Argument {
    type V = Val;

    open spec fn view(&self) -> Val {
        match self {
            Argument::KfkString(s) => Val::Str(s@),
            Argument::Number(n) => Val::Num(*n as int),
        }
    }
}

impl PartialEq for Argument {
    fn eq(&self, other: &Argument) -> (r: bool) {
        match (self, other) {
            (Argument::KfkString(a), Argument::KfkString(b)) => *a == *b,
            (Argument::Number(a), Argument::Number(b)) => *a == *b,
            _ => false,
        }
    }
}

impl vstd::std_specs::cmp::PartialEqSpecImpl for Argument {
    open spec fn obeys_eq_spec() -> bool {
        true
    }

    open spec fn eq_spec(&self, other: &Argument) -> bool {
        self@ == other@
    }
}

impl Argument {
    /// A copy of the value.
    pub fn duplicate(&self) -> (r: Argument)
        ensures
            r == *self,
    {
        match self {
            Argument::KfkString(s) => Argument::KfkString(s.clone()),
            Argument::Number(n) => Argument::Number(*n),
        }
    }

    /// The canonical text of the value: a string verbatim, a number in decimal.
    pub fn to_text(&self) -> (r: String)
        ensures
            r@ == value_text(self@),
    {
        match self {
            Argument::KfkString(s) => s.clone(),
            Argument::Number(n) => number_to_text(*n),
        }
    }
}

pub open spec fn digit_char(d: nat) -> char {
    if d == 0 {
        '0'
    } else if d == 1 {
        '1'
    } else if d == 2 {
        '2'
    } else if d == 3 {
        '3'
    } else if d == 4 {
        '4'
    } else if d == 5 {
        '5'
    } else if d == 6 {
        '6'
    } else if d == 7 {
        '7'
    } else if d == 8 {
        '8'
    } else {
        '9'
    }
}

/// The decimal digits of `n`, without leading zeros ("0" for zero).
pub open spec fn nat_text(n: nat) -> Seq<char>
    decreases n,
{
    if n < 10 {
        seq![digit_char(n)]
    } else {
        nat_text(n / 10).push(digit_char(n % 10))
    }
}

/// The last `width` decimal digits of `n`, padded with leading zeros.
pub open spec fn padded_text(n: nat, width: nat) -> Seq<char>
    decreases width,
{
    if width == 0 {
        seq![]
    } else {
        padded_text(n / 10, (width - 1) as nat).push(digit_char(n % 10))
    }
}

/// The `width` digits of a fraction `n`, with its trailing zeros dropped.
pub open spec fn fraction_text(n: nat, width: nat) -> Seq<char>
    decreases width,
{
    if width > 0 && n % 10 == 0 {
        fraction_text(n / 10, (width - 1) as nat)
    } else {
        padded_text(n, width)
    }
}

/// The canonical decimal text of a number of billionths: a minus sign when
/// negative, the whole part, and the fraction without trailing zeros when
/// there is one (`6`, `-0.25`).
pub open spec fn number_text(n: int) -> Seq<char> {
    let m = vstd::math::abs(n);
    let sign = if n < 0 {
        seq!['-']
    } else {
        Seq::<char>::empty()
    };
    let whole = sign + nat_text(m / (UNITS_PER_ONE as nat));
    if m % (UNITS_PER_ONE as nat) == 0 {
        whole
    } else {
        whole + seq!['.'] + fraction_text(m % (UNITS_PER_ONE as nat), 9)
    }
}

pub open spec fn value_text(v: Val) -> Seq<char> {
    match v {
        Val::Str(s) => s,
        Val::Num(n) => number_text(n),
    }
}

/// The values' texts joined by single spaces.
pub open spec fn line_text(vs: Seq<Val>) -> Seq<char>
    decreases vs.len(),
{
    if vs.len() == 0 {
        seq![]
    } else if vs.len() == 1 {
        value_text(vs[0])
    } else {
        line_text(vs.drop_last()) + seq![' '] + value_text(vs.last())
    }
}

pub open spec fn views(args: Seq<Argument>) -> Seq<Val> {
    args.map_values(|a: Argument| a@)
}

fn digit_str(d: u128) -> (r: &'static str)
    requires
        d < 10,
    ensures
        r@ == seq![digit_char(d as nat)],
{
    proof {
        reveal_strlit("0");
        reveal_strlit("1");
        reveal_strlit("2");
        reveal_strlit("3");
        reveal_strlit("4");
        reveal_strlit("5");
        reveal_strlit("6");
        reveal_strlit("7");
        reveal_strlit("8");
        reveal_strlit("9");
    }
    if d == 0 {
        "0"
    } else if d == 1 {
        "1"
    } else if d == 2 {
        "2"
    } else if d == 3 {
        "3"
    } else if d == 4 {
        "4"
    } else if d == 5 {
        "5"
    } else if d == 6 {
        "6"
    } else if d == 7 {
        "7"
    } else if d == 8 {
        "8"
    } else {
        "9"
    }
}

fn push_nat_text(out: &mut String, n: u128)
    ensures
        final(out)@ == old(out)@ + nat_text(n as nat),
    decreases n,
{
    let ghost start = out@;
    if n >= 10 {
        push_nat_text(out, n / 10);
    }
    out.append(digit_str(n % 10));
    assert(out@ =~= start + nat_text(n as nat));
}

fn push_padded_text(out: &mut String, n: u128, width: u32)
    ensures
        final(out)@ == old(out)@ + padded_text(n as nat, width as nat),
    decreases width,
{
    let ghost start = out@;
    if width > 0 {
        push_padded_text(out, n / 10, width - 1);
        out.append(digit_str(n % 10));
    }
    assert(out@ =~= start + padded_text(n as nat, width as nat));
}

/// The canonical decimal text of a number of billionths.
pub fn number_to_text(n: i128) -> (r: String)
    ensures
        r@ == number_text(n as int),
{
    let m: u128 = if n < 0 {
        ((-(n + 1)) as u128) + 1
    } else {
        n as u128
    };
    assert(m as int == vstd::math::abs(n as int));
    let mut out = String::new();
    if n < 0 {
        proof {
            reveal_strlit("-");
        }
        out.append("-");
    }
    push_nat_text(&mut out, m / 1000000000);
    let frac = m % 1000000000;
    if frac != 0 {
        proof {
            reveal_strlit(".");
        }
        out.append(".");
        let mut f: u128 = frac;
        let mut w: u32 = 9;
        while w > 0 && f % 10 == 0
            invariant
                w <= 9,
                fraction_text(frac as nat, 9) == fraction_text(f as nat, w as nat),
            decreases w,
        {
            f = f / 10;
            w = w - 1;
        }
        push_padded_text(&mut out, f, w);
    }
    assert(out@ =~= number_text(n as int));
    out
}

/// The texts of `args` joined by single spaces.
pub fn join_texts(args: &Vec<Argument>) -> (r: String)
    ensures
        r@ == line_text(views(args@)),
{
    let mut out = String::new();
    let mut i: usize = 0;
    while i < args.len()
        invariant
            i <= args@.len(),
            out@ == line_text(views(args@.take(i as int))),
        decreases args@.len() - i,
    {
        let ghost before = args@.take(i as int);
        let ghost after = args@.take(i as int + 1);
        assert(views(after).drop_last() =~= views(before));
        if i > 0 {
            proof {
                reveal_strlit(" ");
            }
            out.append(" ");
        }
        let t = args[i].to_text();
        out.append(t.as_str());
        i = i + 1;
        assert(out@ =~= line_text(views(after)));
    }
    assert(args@.take(args@.len() as int) =~= args@);
    out
}

} // verus!
