//! The leap-year rule language.
//!
//! A custom calendar decides which years are leap years with a small boolean
//! expression over one integer variable, written `#`: integer literals, `%`,
//! the comparisons `==` `!=` `<` `<=` `>` `>=`, the boolean operators `&&`
//! `||` `!`, the literals `true` and `false`, and parentheses.  Precedence,
//! from strongest to weakest: `!`, `%`, comparisons, `&&`, `||`.
//!
//! Evaluation is fail-soft: any lexical, grammatical or type error makes the
//! expression evaluate to `false` for every year, so a broken rule means "no
//! leap years" rather than a crash.
//!
//! The whole pipeline is mirrored by specification functions
//! ([`spec_tokenize`], [`spec_parse`], [`spec_eval`], [`spec_evaluate`]), and
//! the executable functions are proved to agree with them exactly.

use vstd::prelude::*;

verus! {

/// One lexical token of the leap-year expression language.
#[derive(Clone, Copy, Debug)]
pub enum Token {
    /// An integer literal, possibly negative.
    IntLit(i64),
    /// The year placeholder `#`.
    YearMark,
    /// The literal `true`.
    TrueLit,
    /// The literal `false`.
    FalseLit,
    /// `%`
    Percent,
    /// `==`
    EqEq,
    /// `!=`
    NotEq,
    /// `<`
    LessThan,
    /// `<=`
    LessEq,
    /// `>`
    GreaterThan,
    /// `>=`
    GreaterEq,
    /// `&&`
    AndAnd,
    /// `||`
    OrOr,
    /// `!`
    Bang,
    /// `(`
    OpenParen,
    /// `)`
    CloseParen,
}

/// The digit value of a character, or `-1` if it is not a decimal digit.
pub open spec fn spec_digit_val(c: char) -> int {
    if c == '0' {
        0
    } else if c == '1' {
        1
    } else if c == '2' {
        2
    } else if c == '3' {
        3
    } else if c == '4' {
        4
    } else if c == '5' {
        5
    } else if c == '6' {
        6
    } else if c == '7' {
        7
    } else if c == '8' {
        8
    } else if c == '9' {
        9
    } else {
        -1
    }
}

pub open spec fn is_digit(c: char) -> bool {
    spec_digit_val(c) >= 0
}

pub open spec fn is_space(c: char) -> bool {
    c == ' ' || c == '\t' || c == '\n' || c == '\r'
}

/// Consumes leading digits, accumulating the decimal value; fails if the
/// value would exceed `cap`.  Returns the value and the unconsumed suffix.
pub open spec fn spec_lex_num(s: Seq<char>, acc: int, cap: int) -> Option<(int, Seq<char>)>
    decreases s.len(),
{
    if s.len() > 0 && is_digit(s[0]) {
        let acc2 = acc * 10 + spec_digit_val(s[0]);
        if acc2 > cap {
            None
        } else {
            spec_lex_num(s.skip(1), acc2, cap)
        }
    } else {
        Some((acc, s))
    }
}

/// What `spec_lex_num` leaves unconsumed is a suffix: never longer than its
/// input.
pub proof fn lemma_lex_num_rest_len(s: Seq<char>, acc: int, cap: int)
    ensures
        match spec_lex_num(s, acc, cap) {
            Some(r) => r.1.len() <= s.len(),
            None => true,
        },
    decreases s.len(),
{
    if s.len() > 0 && is_digit(s[0]) {
        let acc2 = acc * 10 + spec_digit_val(s[0]);
        if acc2 <= cap {
            lemma_lex_num_rest_len(s.skip(1), acc2, cap);
        }
    }
}

/// Prepends a token to a tokenization result, propagating failure.
pub open spec fn cons_token(t: Token, r: Option<Seq<Token>>) -> Option<Seq<Token>> {
    match r {
        Some(ts) => Some(seq![t] + ts),
        None => None,
    }
}

/// The greatest magnitude a negative literal may have: `-(2^63)` is `i64::MIN`.
pub open spec fn neg_literal_cap() -> int {
    0x8000_0000_0000_0000
}

/// Turns the expression text into tokens.  Whitespace separates tokens; a
/// `-` immediately followed by a digit starts a negative literal (the form
/// in which a negative year is substituted for `#`).  Any other character,
/// or a literal too large for a 64-bit integer, makes the whole text
/// ill-formed.
pub open spec fn spec_tokenize(s: Seq<char>) -> Option<Seq<Token>>
    decreases s.len(),
{
    if s.len() == 0 {
        Some(Seq::empty())
    } else {
        let c = s[0];
        if is_space(c) {
            spec_tokenize(s.skip(1))
        } else if c == '#' {
            cons_token(Token::YearMark, spec_tokenize(s.skip(1)))
        } else if c == '%' {
            cons_token(Token::Percent, spec_tokenize(s.skip(1)))
        } else if c == '(' {
            cons_token(Token::OpenParen, spec_tokenize(s.skip(1)))
        } else if c == ')' {
            cons_token(Token::CloseParen, spec_tokenize(s.skip(1)))
        } else if c == '!' {
            if s.len() >= 2 && s[1] == '=' {
                cons_token(Token::NotEq, spec_tokenize(s.skip(2)))
            } else {
                cons_token(Token::Bang, spec_tokenize(s.skip(1)))
            }
        } else if c == '=' {
            if s.len() >= 2 && s[1] == '=' {
                cons_token(Token::EqEq, spec_tokenize(s.skip(2)))
            } else {
                None
            }
        } else if c == '<' {
            if s.len() >= 2 && s[1] == '=' {
                cons_token(Token::LessEq, spec_tokenize(s.skip(2)))
            } else {
                cons_token(Token::LessThan, spec_tokenize(s.skip(1)))
            }
        } else if c == '>' {
            if s.len() >= 2 && s[1] == '=' {
                cons_token(Token::GreaterEq, spec_tokenize(s.skip(2)))
            } else {
                cons_token(Token::GreaterThan, spec_tokenize(s.skip(1)))
            }
        } else if c == '&' {
            if s.len() >= 2 && s[1] == '&' {
                cons_token(Token::AndAnd, spec_tokenize(s.skip(2)))
            } else {
                None
            }
        } else if c == '|' {
            if s.len() >= 2 && s[1] == '|' {
                cons_token(Token::OrOr, spec_tokenize(s.skip(2)))
            } else {
                None
            }
        } else if is_digit(c) {
            proof {
                lemma_lex_num_rest_len(s.skip(1), spec_digit_val(c), i64::MAX as int);
            }
            match spec_lex_num(s.skip(1), spec_digit_val(c), i64::MAX as int) {
                Some(r) => cons_token(Token::IntLit(r.0 as i64), spec_tokenize(r.1)),
                None => None,
            }
        } else if c == '-' && s.len() >= 2 && is_digit(s[1]) {
            proof {
                lemma_lex_num_rest_len(s.skip(2), spec_digit_val(s[1]), neg_literal_cap());
            }
            match spec_lex_num(s.skip(2), spec_digit_val(s[1]), neg_literal_cap()) {
                Some(r) => cons_token(Token::IntLit((-r.0) as i64), spec_tokenize(r.1)),
                None => None,
            }
        } else if c == 't' {
            if s.len() >= 4 && s[1] == 'r' && s[2] == 'u' && s[3] == 'e' {
                cons_token(Token::TrueLit, spec_tokenize(s.skip(4)))
            } else {
                None
            }
        } else if c == 'f' {
            if s.len() >= 5 && s[1] == 'a' && s[2] == 'l' && s[3] == 's' && s[4] == 'e' {
                cons_token(Token::FalseLit, spec_tokenize(s.skip(5)))
            } else {
                None
            }
        } else {
            None
        }
    }
}

/// The digit value of `c`, if it is a decimal digit.
fn try_digit(c: char) -> (r: Option<u8>)
    ensures
        match r {
            Some(d) => d < 10 && spec_digit_val(c) == d as int,
            None => !is_digit(c),
        },
{
    if c == '0' {
        Some(0)
    } else if c == '1' {
        Some(1)
    } else if c == '2' {
        Some(2)
    } else if c == '3' {
        Some(3)
    } else if c == '4' {
        Some(4)
    } else if c == '5' {
        Some(5)
    } else if c == '6' {
        Some(6)
    } else if c == '7' {
        Some(7)
    } else if c == '8' {
        Some(8)
    } else if c == '9' {
        Some(9)
    } else {
        None
    }
}

/// Executable twin of `spec_lex_num`, scanning `s` from position `i`.
fn lex_num(s: &str, i: usize, n: usize, acc: u64, cap: u64) -> (r: Option<(u64, usize)>)
    requires
        n == s@.len(),
        i <= n,
        cap <= 0x8000_0000_0000_0000u64,
        acc <= cap,
    ensures
        match r {
            Some(p) => {
                &&& i <= p.1 <= n
                &&& p.0 <= cap
                &&& spec_lex_num(s@.skip(i as int), acc as int, cap as int) == Some(
                    (p.0 as int, s@.skip(p.1 as int)),
                )
            },
            None => spec_lex_num(s@.skip(i as int), acc as int, cap as int) is None,
        },
    decreases n - i,
{
    proof {
        assert(s@.skip(i as int).len() == n - i);
    }
    if i == n {
        Some((acc, i))
    } else {
        let c = s.get_char(i);
        proof {
            assert(s@.skip(i as int)[0] == s@[i as int]);
        }
        match try_digit(c) {
            Some(d) => {
                let acc2: u128 = acc as u128 * 10 + d as u128;
                if acc2 > cap as u128 {
                    None
                } else {
                    proof {
                        assert(s@.skip(i as int).skip(1) =~= s@.skip(i as int + 1));
                    }
                    lex_num(s, i + 1, n, acc2 as u64, cap)
                }
            },
            None => Some((acc, i)),
        }
    }
}

/// Executable twin of `spec_tokenize`, scanning `s` from position `i`.
fn tokenize_from(s: &str, i: usize, n: usize) -> (r: Option<Vec<Token>>)
    requires
        n == s@.len(),
        i <= n,
    ensures
        match r {
            Some(v) => spec_tokenize(s@.skip(i as int)) == Some(v@),
            None => spec_tokenize(s@.skip(i as int)) is None,
        },
    decreases n - i, 2int,
{
    proof {
        assert(s@.skip(i as int).len() == n - i);
    }
    if i == n {
        proof {
            assert(s@.skip(i as int) =~= Seq::<char>::empty());
        }
        Some(Vec::new())
    } else {
        let c = s.get_char(i);
        proof {
            assert(s@.skip(i as int)[0] == s@[i as int]);
            if i + 1 < n {
                assert(s@.skip(i as int)[1] == s@[i as int + 1]);
            }
            assert(s@.skip(i as int).skip(1) =~= s@.skip(i as int + 1));
            if i + 2 <= n {
                assert(s@.skip(i as int).skip(2) =~= s@.skip(i as int + 2));
            }
        }
        if c == ' ' || c == '\t' || c == '\n' || c == '\r' {
            tokenize_from(s, i + 1, n)
        } else if c == '#' {
            prepend(Token::YearMark, tokenize_from(s, i + 1, n))
        } else if c == '%' {
            prepend(Token::Percent, tokenize_from(s, i + 1, n))
        } else if c == '(' {
            prepend(Token::OpenParen, tokenize_from(s, i + 1, n))
        } else if c == ')' {
            prepend(Token::CloseParen, tokenize_from(s, i + 1, n))
        } else if c == '!' {
            if i + 1 < n && s.get_char(i + 1) == '=' {
                prepend(Token::NotEq, tokenize_from(s, i + 2, n))
            } else {
                prepend(Token::Bang, tokenize_from(s, i + 1, n))
            }
        } else if c == '=' {
            if i + 1 < n && s.get_char(i + 1) == '=' {
                prepend(Token::EqEq, tokenize_from(s, i + 2, n))
            } else {
                None
            }
        } else if c == '<' {
            if i + 1 < n && s.get_char(i + 1) == '=' {
                prepend(Token::LessEq, tokenize_from(s, i + 2, n))
            } else {
                prepend(Token::LessThan, tokenize_from(s, i + 1, n))
            }
        } else if c == '>' {
            if i + 1 < n && s.get_char(i + 1) == '=' {
                prepend(Token::GreaterEq, tokenize_from(s, i + 2, n))
            } else {
                prepend(Token::GreaterThan, tokenize_from(s, i + 1, n))
            }
        } else if c == '&' {
            if i + 1 < n && s.get_char(i + 1) == '&' {
                prepend(Token::AndAnd, tokenize_from(s, i + 2, n))
            } else {
                None
            }
        } else if c == '|' {
            if i + 1 < n && s.get_char(i + 1) == '|' {
                prepend(Token::OrOr, tokenize_from(s, i + 2, n))
            } else {
                None
            }
        } else {
            tokenize_other(s, i, n, c)
        }
    }
}

/// The remaining `tokenize_from` cases: numbers and the word literals.
fn tokenize_other(s: &str, i: usize, n: usize, c: char) -> (r: Option<Vec<Token>>)
    requires
        n == s@.len(),
        i < n,
        c == s@[i as int],
        !is_space(c),
        c != '#' && c != '%' && c != '(' && c != ')' && c != '!' && c != '=' && c != '<' && c
            != '>' && c != '&' && c != '|',
    ensures
        match r {
            Some(v) => spec_tokenize(s@.skip(i as int)) == Some(v@),
            None => spec_tokenize(s@.skip(i as int)) is None,
        },
    decreases n - i, 1int,
{
    proof {
        assert(s@.skip(i as int).len() == n - i);
        assert(s@.skip(i as int)[0] == s@[i as int]);
        if i + 1 < n {
            assert(s@.skip(i as int)[1] == s@[i as int + 1]);
        }
        if i + 2 < n {
            assert(s@.skip(i as int)[2] == s@[i as int + 2]);
        }
        if i + 3 < n {
            assert(s@.skip(i as int)[3] == s@[i as int + 3]);
        }
        if i + 4 < n {
            assert(s@.skip(i as int)[4] == s@[i as int + 4]);
        }
        assert(s@.skip(i as int).skip(1) =~= s@.skip(i as int + 1));
        if i + 2 <= n {
            assert(s@.skip(i as int).skip(2) =~= s@.skip(i as int + 2));
        }
        if i + 4 <= n {
            assert(s@.skip(i as int).skip(4) =~= s@.skip(i as int + 4));
        }
        if i + 5 <= n {
            assert(s@.skip(i as int).skip(5) =~= s@.skip(i as int + 5));
        }
    }
    match try_digit(c) {
        Some(d) => {
            match lex_num(s, i + 1, n, d as u64, i64::MAX as u64) {
                Some(p) => {
                    let lit: i64 = p.0 as i64;
                    prepend(Token::IntLit(lit), tokenize_from(s, p.1, n))
                },
                None => None,
            }
        },
        None => {
            if c == '-' && i + 1 < n {
                match try_digit(s.get_char(i + 1)) {
                    Some(d) => {
                        match lex_num(s, i + 2, n, d as u64, 0x8000_0000_0000_0000u64) {
                            Some(p) => {
                                let lit: i64 = if p.0 == 0x8000_0000_0000_0000u64 {
                                    i64::MIN
                                } else {
                                    -(p.0 as i64)
                                };
                                prepend(Token::IntLit(lit), tokenize_from(s, p.1, n))
                            },
                            None => None,
                        }
                    },
                    None => None,
                }
            } else if c == 't' {
                if n - i >= 4 && s.get_char(i + 1) == 'r' && s.get_char(i + 2) == 'u'
                    && s.get_char(i + 3) == 'e' {
                    prepend(Token::TrueLit, tokenize_from(s, i + 4, n))
                } else {
                    None
                }
            } else if c == 'f' {
                if n - i >= 5 && s.get_char(i + 1) == 'a' && s.get_char(i + 2) == 'l'
                    && s.get_char(i + 3) == 's' && s.get_char(i + 4) == 'e' {
                    prepend(Token::FalseLit, tokenize_from(s, i + 5, n))
                } else {
                    None
                }
            } else {
                None
            }
        },
    }
}

/// Prepends a token to a tokenization result, mirroring `cons_token`.
fn prepend(t: Token, r: Option<Vec<Token>>) -> (res: Option<Vec<Token>>)
    ensures
        match res {
            Some(v) => {
                &&& r is Some
                &&& v@ == cons_token(t, Some(r.unwrap()@)).unwrap()
            },
            None => r is None,
        },
{
    match r {
        Some(mut v) => {
            let ghost before = v@;
            v.insert(0, t);
            proof {
                assert(v@ =~= seq![t] + before);
            }
            Some(v)
        },
        None => None,
    }
}

/// Tokenizes a whole expression string.
pub fn tokenize(s: &str) -> (r: Option<Vec<Token>>)
    ensures
        match r {
            Some(v) => spec_tokenize(s@) == Some(v@),
            None => spec_tokenize(s@) is None,
        },
{
    let n = s.unicode_len();
    proof {
        assert(s@.skip(0) =~= s@);
    }
    tokenize_from(s, 0, n)
}


/// A comparison operator.
#[derive(Clone, Copy, Debug)]
pub enum CmpOp {
    /// `==`
    EqOp,
    /// `!=`
    NeOp,
    /// `<`
    LtOp,
    /// `<=`
    LeOp,
    /// `>`
    GtOp,
    /// `>=`
    GeOp,
}

/// The abstract syntax of a leap-year expression.
#[derive(Debug)]
pub enum Expr {
    /// An integer literal.
    IntLit(i64),
    /// A boolean literal.
    BoolLit(bool),
    /// The year placeholder `#`.
    YearVar,
    /// `a % b`, with Rust's truncating remainder semantics.
    Modulo(Box<Expr>, Box<Expr>),
    /// `a OP b` for a comparison operator.
    Compare(CmpOp, Box<Expr>, Box<Expr>),
    /// `a && b`.
    AndExpr(Box<Expr>, Box<Expr>),
    /// `a || b`.
    OrExpr(Box<Expr>, Box<Expr>),
    /// `!a`.
    NotExpr(Box<Expr>),
}

/// A run-time value of the expression language: an integer or a boolean.
#[derive(Clone, Copy, Debug)]
pub enum Val {
    /// An integer value.
    VInt(i64),
    /// A boolean value.
    VBool(bool),
}

/// Applies a comparison operator.  Ordering comparisons need two integers;
/// `==` and `!=` also accept two booleans; anything else is a type error.
pub open spec fn spec_compare(op: CmpOp, a: Val, b: Val) -> Option<Val> {
    match a {
        Val::VInt(x) => match b {
            Val::VInt(y) => Some(
                Val::VBool(
                    match op {
                        CmpOp::EqOp => x == y,
                        CmpOp::NeOp => x != y,
                        CmpOp::LtOp => x < y,
                        CmpOp::LeOp => x <= y,
                        CmpOp::GtOp => x > y,
                        CmpOp::GeOp => x >= y,
                    },
                ),
            ),
            Val::VBool(_) => None,
        },
        Val::VBool(x) => match b {
            Val::VBool(y) => match op {
                CmpOp::EqOp => Some(Val::VBool(x == y)),
                CmpOp::NeOp => Some(Val::VBool(x != y)),
                _ => None,
            },
            Val::VInt(_) => None,
        },
    }
}

/// Evaluates an expression for a given year.  `%` follows Rust's truncating
/// remainder; a remainder by zero, a remainder that would overflow, or an
/// operand of the wrong type makes the whole evaluation fail.
pub open spec fn spec_eval(e: Expr, year: i64) -> Option<Val>
    decreases e,
{
    match e {
        Expr::IntLit(n) => Some(Val::VInt(n)),
        Expr::BoolLit(b) => Some(Val::VBool(b)),
        Expr::YearVar => Some(Val::VInt(year)),
        Expr::Modulo(a, b) => match spec_eval(*a, year) {
            Some(Val::VInt(x)) => match spec_eval(*b, year) {
                Some(Val::VInt(y)) => match x.checked_rem(y) {
                    Some(m) => Some(Val::VInt(m)),
                    None => None,
                },
                _ => None,
            },
            _ => None,
        },
        Expr::Compare(op, a, b) => match spec_eval(*a, year) {
            Some(va) => match spec_eval(*b, year) {
                Some(vb) => spec_compare(op, va, vb),
                None => None,
            },
            None => None,
        },
        Expr::AndExpr(a, b) => match spec_eval(*a, year) {
            Some(Val::VBool(x)) => match spec_eval(*b, year) {
                Some(Val::VBool(y)) => Some(Val::VBool(x && y)),
                _ => None,
            },
            _ => None,
        },
        Expr::OrExpr(a, b) => match spec_eval(*a, year) {
            Some(Val::VBool(x)) => match spec_eval(*b, year) {
                Some(Val::VBool(y)) => Some(Val::VBool(x || y)),
                _ => None,
            },
            _ => None,
        },
        Expr::NotExpr(a) => match spec_eval(*a, year) {
            Some(Val::VBool(x)) => Some(Val::VBool(!x)),
            _ => None,
        },
    }
}

/// Accepts a sub-parse only if it consumed at least one token.  Every
/// successful parse of this grammar does, so this only shapes the recursion.
pub open spec fn progressed(ts: Seq<Token>, r: Option<(Expr, Seq<Token>)>) -> Option<
    (Expr, Seq<Token>),
> {
    match r {
        Some(p) => if p.1.len() < ts.len() {
            Some(p)
        } else {
            None
        },
        None => None,
    }
}

pub open spec fn is_cmp_token(t: Token) -> bool {
    t is EqEq || t is NotEq || t is LessThan || t is LessEq || t is GreaterThan || t is GreaterEq
}

pub open spec fn cmp_op_of(t: Token) -> CmpOp {
    match t {
        Token::EqEq => CmpOp::EqOp,
        Token::NotEq => CmpOp::NeOp,
        Token::LessThan => CmpOp::LtOp,
        Token::LessEq => CmpOp::LeOp,
        Token::GreaterThan => CmpOp::GtOp,
        _ => CmpOp::GeOp,
    }
}

/// Parses a `||`-level expression: `and ('||' or)?`, right-nested.
pub open spec fn spec_parse_or(ts: Seq<Token>) -> Option<(Expr, Seq<Token>)>
    decreases ts.len(), 6int,
{
    match progressed(ts, spec_parse_and(ts)) {
        Some(p) => if p.1.len() > 0 && p.1[0] is OrOr {
            match spec_parse_or(p.1.skip(1)) {
                Some(q) => Some((Expr::OrExpr(Box::new(p.0), Box::new(q.0)), q.1)),
                None => None,
            }
        } else {
            Some(p)
        },
        None => None,
    }
}

/// Parses a `&&`-level expression: `cmp ('&&' and)?`, right-nested.
pub open spec fn spec_parse_and(ts: Seq<Token>) -> Option<(Expr, Seq<Token>)>
    decreases ts.len(), 5int,
{
    match progressed(ts, spec_parse_cmp(ts)) {
        Some(p) => if p.1.len() > 0 && p.1[0] is AndAnd {
            match spec_parse_and(p.1.skip(1)) {
                Some(q) => Some((Expr::AndExpr(Box::new(p.0), Box::new(q.0)), q.1)),
                None => None,
            }
        } else {
            Some(p)
        },
        None => None,
    }
}

/// Parses a comparison: `mod (CMPOP mod)?`; comparisons do not chain.
pub open spec fn spec_parse_cmp(ts: Seq<Token>) -> Option<(Expr, Seq<Token>)>
    decreases ts.len(), 4int,
{
    match progressed(ts, spec_parse_mod(ts)) {
        Some(p) => if p.1.len() > 0 && is_cmp_token(p.1[0]) {
            match spec_parse_mod(p.1.skip(1)) {
                Some(q) => Some(
                    (Expr::Compare(cmp_op_of(p.1[0]), Box::new(p.0), Box::new(q.0)), q.1),
                ),
                None => None,
            }
        } else {
            Some(p)
        },
        None => None,
    }
}

/// Parses a `%`-level expression: `unary ('%' unary)*`, left-nested.
pub open spec fn spec_parse_mod(ts: Seq<Token>) -> Option<(Expr, Seq<Token>)>
    decreases ts.len(), 3int,
{
    match progressed(ts, spec_parse_unary(ts)) {
        Some(p) => spec_parse_mod_rest(p.0, p.1),
        None => None,
    }
}

/// Folds further `'%' unary` steps onto `lhs`, left-associatively.
pub open spec fn spec_parse_mod_rest(lhs: Expr, ts: Seq<Token>) -> Option<(Expr, Seq<Token>)>
    decreases ts.len(), 2int,
{
    if ts.len() > 0 && ts[0] is Percent {
        match progressed(ts.skip(1), spec_parse_unary(ts.skip(1))) {
            Some(p) => spec_parse_mod_rest(Expr::Modulo(Box::new(lhs), Box::new(p.0)), p.1),
            None => None,
        }
    } else {
        Some((lhs, ts))
    }
}

/// Parses a unary-level expression: a literal, the year placeholder, `!`
/// applied to a unary expression, or a parenthesized expression.
pub open spec fn spec_parse_unary(ts: Seq<Token>) -> Option<(Expr, Seq<Token>)>
    decreases ts.len(), 1int,
{
    if ts.len() == 0 {
        None
    } else {
        match ts[0] {
            Token::IntLit(n) => Some((Expr::IntLit(n), ts.skip(1))),
            Token::TrueLit => Some((Expr::BoolLit(true), ts.skip(1))),
            Token::FalseLit => Some((Expr::BoolLit(false), ts.skip(1))),
            Token::YearMark => Some((Expr::YearVar, ts.skip(1))),
            Token::Bang => match spec_parse_unary(ts.skip(1)) {
                Some(p) => Some((Expr::NotExpr(Box::new(p.0)), p.1)),
                None => None,
            },
            Token::OpenParen => match progressed(ts.skip(1), spec_parse_or(ts.skip(1))) {
                Some(p) => if p.1.len() > 0 && p.1[0] is CloseParen {
                    Some((p.0, p.1.skip(1)))
                } else {
                    None
                },
                None => None,
            },
            _ => None,
        }
    }
}

/// Parses a whole token sequence; fails if tokens are left over.
pub open spec fn spec_parse(ts: Seq<Token>) -> Option<Expr> {
    match spec_parse_or(ts) {
        Some(p) => if p.1.len() == 0 {
            Some(p.0)
        } else {
            None
        },
        None => None,
    }
}

/// What evaluating an expression text for a year yields: `false` unless the
/// text tokenizes, parses, and evaluates to a boolean.
pub open spec fn spec_evaluate(s: Seq<char>, year: i64) -> bool {
    match spec_tokenize(s) {
        Some(ts) => match spec_parse(ts) {
            Some(e) => match spec_eval(e, year) {
                Some(Val::VBool(b)) => b,
                _ => false,
            },
            None => false,
        },
        None => false,
    }
}


/// Maps a comparison token to its operator, if it is one.
fn try_cmp_op(t: Token) -> (r: Option<CmpOp>)
    ensures
        match r {
            Some(op) => is_cmp_token(t) && op == cmp_op_of(t),
            None => !is_cmp_token(t),
        },
{
    match t {
        Token::EqEq => Some(CmpOp::EqOp),
        Token::NotEq => Some(CmpOp::NeOp),
        Token::LessThan => Some(CmpOp::LtOp),
        Token::LessEq => Some(CmpOp::LeOp),
        Token::GreaterThan => Some(CmpOp::GtOp),
        Token::GreaterEq => Some(CmpOp::GeOp),
        _ => None,
    }
}

/// Executable twin of `spec_parse_or`, reading `ts` from position `pos`.
fn parse_or(ts: &Vec<Token>, pos: usize) -> (r: Option<(Expr, usize)>)
    requires
        pos <= ts@.len(),
    ensures
        match r {
            Some(p) => pos < p.1 <= ts@.len() && spec_parse_or(ts@.skip(pos as int)) == Some(
                (p.0, ts@.skip(p.1 as int)),
            ),
            None => spec_parse_or(ts@.skip(pos as int)) is None,
        },
    decreases ts@.len() - pos, 6int,
{
    proof {
        assert(ts@.skip(pos as int).len() == ts@.len() - pos);
    }
    match parse_and(ts, pos) {
        Some(p) => {
            proof {
                assert(ts@.skip(p.1 as int).len() == ts@.len() - p.1);
                if p.1 < ts@.len() {
                    assert(ts@.skip(p.1 as int)[0] == ts@[p.1 as int]);
                    assert(ts@.skip(p.1 as int).skip(1) =~= ts@.skip(p.1 as int + 1));
                }
            }
            if p.1 < ts.len() && matches!(ts[p.1], Token::OrOr) {
                match parse_or(ts, p.1 + 1) {
                    Some(q) => Some((Expr::OrExpr(Box::new(p.0), Box::new(q.0)), q.1)),
                    None => None,
                }
            } else {
                Some(p)
            }
        },
        None => None,
    }
}

/// Executable twin of `spec_parse_and`.
fn parse_and(ts: &Vec<Token>, pos: usize) -> (r: Option<(Expr, usize)>)
    requires
        pos <= ts@.len(),
    ensures
        match r {
            Some(p) => pos < p.1 <= ts@.len() && spec_parse_and(ts@.skip(pos as int)) == Some(
                (p.0, ts@.skip(p.1 as int)),
            ),
            None => spec_parse_and(ts@.skip(pos as int)) is None,
        },
    decreases ts@.len() - pos, 5int,
{
    proof {
        assert(ts@.skip(pos as int).len() == ts@.len() - pos);
    }
    match parse_cmp(ts, pos) {
        Some(p) => {
            proof {
                assert(ts@.skip(p.1 as int).len() == ts@.len() - p.1);
                if p.1 < ts@.len() {
                    assert(ts@.skip(p.1 as int)[0] == ts@[p.1 as int]);
                    assert(ts@.skip(p.1 as int).skip(1) =~= ts@.skip(p.1 as int + 1));
                }
            }
            if p.1 < ts.len() && matches!(ts[p.1], Token::AndAnd) {
                match parse_and(ts, p.1 + 1) {
                    Some(q) => Some((Expr::AndExpr(Box::new(p.0), Box::new(q.0)), q.1)),
                    None => None,
                }
            } else {
                Some(p)
            }
        },
        None => None,
    }
}

/// Executable twin of `spec_parse_cmp`.
fn parse_cmp(ts: &Vec<Token>, pos: usize) -> (r: Option<(Expr, usize)>)
    requires
        pos <= ts@.len(),
    ensures
        match r {
            Some(p) => pos < p.1 <= ts@.len() && spec_parse_cmp(ts@.skip(pos as int)) == Some(
                (p.0, ts@.skip(p.1 as int)),
            ),
            None => spec_parse_cmp(ts@.skip(pos as int)) is None,
        },
    decreases ts@.len() - pos, 4int,
{
    proof {
        assert(ts@.skip(pos as int).len() == ts@.len() - pos);
    }
    match parse_mod(ts, pos) {
        Some(p) => {
            proof {
                assert(ts@.skip(p.1 as int).len() == ts@.len() - p.1);
                if p.1 < ts@.len() {
                    assert(ts@.skip(p.1 as int)[0] == ts@[p.1 as int]);
                    assert(ts@.skip(p.1 as int).skip(1) =~= ts@.skip(p.1 as int + 1));
                }
            }
            if p.1 < ts.len() {
                match try_cmp_op(ts[p.1]) {
                    Some(op) => {
                        match parse_mod(ts, p.1 + 1) {
                            Some(q) => Some(
                                (Expr::Compare(op, Box::new(p.0), Box::new(q.0)), q.1),
                            ),
                            None => None,
                        }
                    },
                    None => Some(p),
                }
            } else {
                Some(p)
            }
        },
        None => None,
    }
}

/// Executable twin of `spec_parse_mod`.
fn parse_mod(ts: &Vec<Token>, pos: usize) -> (r: Option<(Expr, usize)>)
    requires
        pos <= ts@.len(),
    ensures
        match r {
            Some(p) => pos < p.1 <= ts@.len() && spec_parse_mod(ts@.skip(pos as int)) == Some(
                (p.0, ts@.skip(p.1 as int)),
            ),
            None => spec_parse_mod(ts@.skip(pos as int)) is None,
        },
    decreases ts@.len() - pos, 3int,
{
    proof {
        assert(ts@.skip(pos as int).len() == ts@.len() - pos);
    }
    match parse_unary(ts, pos) {
        Some(p) => {
            proof {
                assert(ts@.skip(p.1 as int).len() == ts@.len() - p.1);
            }
            parse_mod_rest(ts, p.0, p.1)
        },
        None => None,
    }
}

/// Executable twin of `spec_parse_mod_rest`.
fn parse_mod_rest(ts: &Vec<Token>, lhs: Expr, pos: usize) -> (r: Option<(Expr, usize)>)
    requires
        pos <= ts@.len(),
    ensures
        match r {
            Some(p) => pos <= p.1 <= ts@.len() && spec_parse_mod_rest(
                lhs,
                ts@.skip(pos as int),
            ) == Some((p.0, ts@.skip(p.1 as int))),
            None => spec_parse_mod_rest(lhs, ts@.skip(pos as int)) is None,
        },
    decreases ts@.len() - pos, 2int,
{
    proof {
        assert(ts@.skip(pos as int).len() == ts@.len() - pos);
        if pos < ts@.len() {
            assert(ts@.skip(pos as int)[0] == ts@[pos as int]);
            assert(ts@.skip(pos as int).skip(1) =~= ts@.skip(pos as int + 1));
        }
    }
    if pos < ts.len() && matches!(ts[pos], Token::Percent) {
        match parse_unary(ts, pos + 1) {
            Some(p) => {
                proof {
                    assert(ts@.skip(p.1 as int).len() == ts@.len() - p.1);
                }
                parse_mod_rest(ts, Expr::Modulo(Box::new(lhs), Box::new(p.0)), p.1)
            },
            None => None,
        }
    } else {
        Some((lhs, pos))
    }
}

/// Executable twin of `spec_parse_unary`.
fn parse_unary(ts: &Vec<Token>, pos: usize) -> (r: Option<(Expr, usize)>)
    requires
        pos <= ts@.len(),
    ensures
        match r {
            Some(p) => pos < p.1 <= ts@.len() && spec_parse_unary(ts@.skip(pos as int)) == Some(
                (p.0, ts@.skip(p.1 as int)),
            ),
            None => spec_parse_unary(ts@.skip(pos as int)) is None,
        },
    decreases ts@.len() - pos, 1int,
{
    proof {
        assert(ts@.skip(pos as int).len() == ts@.len() - pos);
        if pos < ts@.len() {
            assert(ts@.skip(pos as int)[0] == ts@[pos as int]);
            assert(ts@.skip(pos as int).skip(1) =~= ts@.skip(pos as int + 1));
        }
    }
    if pos == ts.len() {
        None
    } else {
        match ts[pos] {
            Token::IntLit(n) => Some((Expr::IntLit(n), pos + 1)),
            Token::TrueLit => Some((Expr::BoolLit(true), pos + 1)),
            Token::FalseLit => Some((Expr::BoolLit(false), pos + 1)),
            Token::YearMark => Some((Expr::YearVar, pos + 1)),
            Token::Bang => {
                match parse_unary(ts, pos + 1) {
                    Some(p) => Some((Expr::NotExpr(Box::new(p.0)), p.1)),
                    None => None,
                }
            },
            Token::OpenParen => {
                match parse_or(ts, pos + 1) {
                    Some(p) => {
                        proof {
                            assert(ts@.skip(p.1 as int).len() == ts@.len() - p.1);
                            if p.1 < ts@.len() {
                                assert(ts@.skip(p.1 as int)[0] == ts@[p.1 as int]);
                                assert(ts@.skip(p.1 as int).skip(1) =~= ts@.skip(
                                    p.1 as int + 1,
                                ));
                            }
                        }
                        if p.1 < ts.len() && matches!(ts[p.1], Token::CloseParen) {
                            Some((p.0, p.1 + 1))
                        } else {
                            None
                        }
                    },
                    None => None,
                }
            },
            _ => None,
        }
    }
}

/// Executable twin of `spec_compare`.
fn compare_vals(op: CmpOp, a: Val, b: Val) -> (r: Option<Val>)
    ensures
        r == spec_compare(op, a, b),
{
    match a {
        Val::VInt(x) => match b {
            Val::VInt(y) => Some(
                Val::VBool(
                    match op {
                        CmpOp::EqOp => x == y,
                        CmpOp::NeOp => x != y,
                        CmpOp::LtOp => x < y,
                        CmpOp::LeOp => x <= y,
                        CmpOp::GtOp => x > y,
                        CmpOp::GeOp => x >= y,
                    },
                ),
            ),
            Val::VBool(_) => None,
        },
        Val::VBool(x) => match b {
            Val::VBool(y) => match op {
                CmpOp::EqOp => Some(Val::VBool(x == y)),
                CmpOp::NeOp => Some(Val::VBool(x != y)),
                _ => None,
            },
            Val::VInt(_) => None,
        },
    }
}

/// Executable twin of `spec_eval`.
fn eval_expr(e: &Expr, year: i64) -> (r: Option<Val>)
    ensures
        r == spec_eval(*e, year),
    decreases *e,
{
    match e {
        Expr::IntLit(n) => Some(Val::VInt(*n)),
        Expr::BoolLit(b) => Some(Val::VBool(*b)),
        Expr::YearVar => Some(Val::VInt(year)),
        Expr::Modulo(a, b) => {
            match eval_expr(a, year) {
                Some(Val::VInt(x)) => match eval_expr(b, year) {
                    Some(Val::VInt(y)) => match x.checked_rem(y) {
                        Some(m) => Some(Val::VInt(m)),
                        None => None,
                    },
                    _ => None,
                },
                _ => None,
            }
        },
        Expr::Compare(op, a, b) => {
            match eval_expr(a, year) {
                Some(va) => match eval_expr(b, year) {
                    Some(vb) => compare_vals(*op, va, vb),
                    None => None,
                },
                None => None,
            }
        },
        Expr::AndExpr(a, b) => {
            match eval_expr(a, year) {
                Some(Val::VBool(x)) => match eval_expr(b, year) {
                    Some(Val::VBool(y)) => Some(Val::VBool(x && y)),
                    _ => None,
                },
                _ => None,
            }
        },
        Expr::OrExpr(a, b) => {
            match eval_expr(a, year) {
                Some(Val::VBool(x)) => match eval_expr(b, year) {
                    Some(Val::VBool(y)) => Some(Val::VBool(x || y)),
                    _ => None,
                },
                _ => None,
            }
        },
        Expr::NotExpr(a) => {
            match eval_expr(a, year) {
                Some(Val::VBool(x)) => Some(Val::VBool(!x)),
                _ => None,
            }
        },
    }
}

/// Evaluates a leap-year expression for a year.
///
/// Returns `false` on any lexical, grammatical or type error, never an
/// error: a broken rule means "not a leap year".
pub fn evaluate(expression: &str, year: i64) -> (r: bool)
    ensures
        r == spec_evaluate(expression@, year),
{
    match tokenize(expression) {
        Some(toks) => {
            proof {
                assert(toks@.skip(0) =~= toks@);
            }
            match parse_or(&toks, 0) {
                Some(p) => {
                    if p.1 == toks.len() {
                        proof {
                            assert(toks@.skip(p.1 as int) =~= Seq::<Token>::empty());
                        }
                        match eval_expr(&p.0, year) {
                            Some(v) => match v {
                                Val::VBool(b) => b,
                                Val::VInt(_) => false,
                            },
                            None => false,
                        }
                    } else {
                        false
                    }
                },
                None => false,
            }
        },
        None => false,
    }
}


/// For a positive divisor, the truncating remainder exists and is zero
/// exactly when the Euclidean remainder is zero: divisibility does not
/// depend on which remainder convention is used.
proof fn lemma_checked_rem_zero(x: i64, d: i64)
    requires
        d > 0,
    ensures
        x.checked_rem(d) is Some,
        (x.checked_rem(d)->0 == 0) <==> (x as int % d as int == 0),
{
    let xi = x as int;
    let di = d as int;
    if xi < 0 {
        lemma_neg_mod_zero(xi, di);
        let m = (xi * -1) % di;
        assert(xi * -1 == -xi);
        assert(m == (-xi) % di);
        assert(0 <= m < di);
        assert(-di < m * -1 <= 0);
        assert((m * -1) as i64 == m * -1);
        assert(x.checked_rem(d)->0 == m * -1);
        assert((m * -1 == 0) <==> (m == 0));
    } else if xi > 0 {
        let m = xi % di;
        assert(0 <= m < di);
        assert(m as i64 == m);
        assert(x.checked_rem(d)->0 == m);
    } else {
        assert(xi % di == 0) by (nonlinear_arith)
            requires
                xi == 0,
                di > 0,
        ;
    }
}

/// For a positive divisor, a number and its negation are divisible together.
proof fn lemma_neg_mod_zero(a: int, d: int)
    requires
        d > 0,
    ensures
        ((-a) % d == 0) <==> (a % d == 0),
{
    if a % d == 0 {
        vstd::arithmetic::div_mod::lemma_fundamental_div_mod(a, d);
        assert(a == d * (a / d) + (a % d));
        assert(-a == (-(a / d)) * d) by (nonlinear_arith)
            requires
                a == d * (a / d) + (a % d),
                a % d == 0,
        ;
        vstd::arithmetic::div_mod::lemma_mod_multiples_basic(-(a / d), d);
    }
    if (-a) % d == 0 {
        vstd::arithmetic::div_mod::lemma_fundamental_div_mod(-a, d);
        assert(-a == d * ((-a) / d) + ((-a) % d));
        assert(a == (-((-a) / d)) * d) by (nonlinear_arith)
            requires
                -a == d * ((-a) / d) + ((-a) % d),
                (-a) % d == 0,
        ;
        vstd::arithmetic::div_mod::lemma_mod_multiples_basic(-((-a) / d), d);
    }
}


/// The constant expression `false` names no leap year: it evaluates to
/// `false` for every year.
pub proof fn lemma_false_literal_never_leap(year: i64)
    ensures
        spec_evaluate("false"@, year) == false,
{
    reveal_strlit("false");
    let s = "false"@;
    assert(spec_tokenize(s) == Some(seq![Token::FalseLit])) by {
        reveal_with_fuel(spec_tokenize, 3);
        assert(s.skip(5) =~= Seq::<char>::empty());
        assert(spec_tokenize(s)->0 =~= seq![Token::FalseLit]);
    }
    let ts = seq![Token::FalseLit];
    assert(ts.skip(1).len() == 0);
    assert(spec_parse_unary(ts) == Some((Expr::BoolLit(false), ts.skip(1)))) by {
        reveal_with_fuel(spec_parse_unary, 2);
    }
    assert(spec_parse_mod(ts) == Some((Expr::BoolLit(false), ts.skip(1)))) by {
        reveal_with_fuel(spec_parse_mod, 2);
        reveal_with_fuel(spec_parse_mod_rest, 2);
    }
    assert(spec_parse_cmp(ts) == Some((Expr::BoolLit(false), ts.skip(1)))) by {
        reveal_with_fuel(spec_parse_cmp, 2);
    }
    assert(spec_parse_and(ts) == Some((Expr::BoolLit(false), ts.skip(1)))) by {
        reveal_with_fuel(spec_parse_and, 2);
    }
    assert(spec_parse_or(ts) == Some((Expr::BoolLit(false), ts.skip(1)))) by {
        reveal_with_fuel(spec_parse_or, 2);
    }
    assert(spec_parse(ts) == Some(Expr::BoolLit(false)));
    assert(spec_eval(Expr::BoolLit(false), year) == Some(Val::VBool(false)));
}


/// An expression that does not parse evaluates to `false` for every year:
/// a broken leap-year rule means "no leap years", never an error.
pub proof fn lemma_malformed_evaluates_false(s: Seq<char>, year: i64)
    requires
        match spec_tokenize(s) {
            Some(ts) => spec_parse(ts) is None,
            None => true,
        },
    ensures
        spec_evaluate(s, year) == false,
{
}

/// The token sequence of the conventional Gregorian leap-year rule text.
spec fn gregorian_tokens() -> Seq<Token> {
    seq![
        Token::YearMark,
        Token::Percent,
        Token::IntLit(4),
        Token::EqEq,
        Token::IntLit(0),
        Token::AndAnd,
        Token::OpenParen,
        Token::YearMark,
        Token::Percent,
        Token::IntLit(100),
        Token::NotEq,
        Token::IntLit(0),
        Token::OrOr,
        Token::YearMark,
        Token::Percent,
        Token::IntLit(400),
        Token::EqEq,
        Token::IntLit(0),
        Token::CloseParen,
    ]
}

/// The syntax tree of the conventional Gregorian leap-year rule.
spec fn gregorian_ast() -> Expr {
    Expr::AndExpr(
        Box::new(
            Expr::Compare(
                CmpOp::EqOp,
                Box::new(Expr::Modulo(Box::new(Expr::YearVar), Box::new(Expr::IntLit(4)))),
                Box::new(Expr::IntLit(0)),
            ),
        ),
        Box::new(
            Expr::OrExpr(
                Box::new(
                    Expr::Compare(
                        CmpOp::NeOp,
                        Box::new(
                            Expr::Modulo(Box::new(Expr::YearVar), Box::new(Expr::IntLit(100))),
                        ),
                        Box::new(Expr::IntLit(0)),
                    ),
                ),
                Box::new(
                    Expr::Compare(
                        CmpOp::EqOp,
                        Box::new(
                            Expr::Modulo(Box::new(Expr::YearVar), Box::new(Expr::IntLit(400))),
                        ),
                        Box::new(Expr::IntLit(0)),
                    ),
                ),
            ),
        ),
    )
}


#[verifier::rlimit(100)]
proof fn lemma_gregorian_tokenize()
    ensures
        spec_tokenize("# % 4 == 0 && (# % 100 != 0 || # % 400 == 0)"@) == Some(gregorian_tokens()),
{
    reveal_strlit("# % 4 == 0 && (# % 100 != 0 || # % 400 == 0)");
    let s = "# % 4 == 0 && (# % 100 != 0 || # % 400 == 0)"@;
    assert(s.len() == 44);
    assert(s.skip(44) =~= Seq::<char>::empty());
    assert(spec_tokenize(s.skip(44)) == Some(Seq::<Token>::empty()));
    assert(s.skip(43).skip(1) =~= s.skip(44));
    assert(spec_tokenize(s.skip(43)) is Some && spec_tokenize(s.skip(43))->0 =~= seq![
        Token::CloseParen,
    ]);
    assert(s.skip(42).skip(1) =~= s.skip(43));
    assert(spec_tokenize(s.skip(42)) is Some && spec_tokenize(s.skip(42))->0 =~= seq![
        Token::IntLit(0),
        Token::CloseParen,
    ]) by {
        reveal_with_fuel(spec_lex_num, 2);
    }
    assert(s.skip(41).skip(1) =~= s.skip(42));
    assert(spec_tokenize(s.skip(41)) is Some && spec_tokenize(s.skip(41))->0 =~= seq![
        Token::IntLit(0),
        Token::CloseParen,
    ]);
    assert(s.skip(39).skip(2) =~= s.skip(41));
    assert(spec_tokenize(s.skip(39)) is Some && spec_tokenize(s.skip(39))->0 =~= seq![
        Token::EqEq,
        Token::IntLit(0),
        Token::CloseParen,
    ]);
    assert(s.skip(38).skip(1) =~= s.skip(39));
    assert(spec_tokenize(s.skip(38)) is Some && spec_tokenize(s.skip(38))->0 =~= seq![
        Token::EqEq,
        Token::IntLit(0),
        Token::CloseParen,
    ]);
    assert(s.skip(35).skip(1) =~= s.skip(36));
    assert(s.skip(36).skip(1) =~= s.skip(37));
    assert(s.skip(37).skip(1) =~= s.skip(38));
    assert(spec_tokenize(s.skip(35)) is Some && spec_tokenize(s.skip(35))->0 =~= seq![
        Token::IntLit(400),
        Token::EqEq,
        Token::IntLit(0),
        Token::CloseParen,
    ]) by {
        reveal_with_fuel(spec_lex_num, 4);
    }
    assert(s.skip(34).skip(1) =~= s.skip(35));
    assert(spec_tokenize(s.skip(34)) is Some && spec_tokenize(s.skip(34))->0 =~= seq![
        Token::IntLit(400),
        Token::EqEq,
        Token::IntLit(0),
        Token::CloseParen,
    ]);
    assert(s.skip(33).skip(1) =~= s.skip(34));
    assert(spec_tokenize(s.skip(33)) is Some && spec_tokenize(s.skip(33))->0 =~= seq![
        Token::Percent,
        Token::IntLit(400),
        Token::EqEq,
        Token::IntLit(0),
        Token::CloseParen,
    ]);
    assert(s.skip(32).skip(1) =~= s.skip(33));
    assert(spec_tokenize(s.skip(32)) is Some && spec_tokenize(s.skip(32))->0 =~= seq![
        Token::Percent,
        Token::IntLit(400),
        Token::EqEq,
        Token::IntLit(0),
        Token::CloseParen,
    ]);
    assert(s.skip(31).skip(1) =~= s.skip(32));
    assert(spec_tokenize(s.skip(31)) is Some && spec_tokenize(s.skip(31))->0 =~= seq![
        Token::YearMark,
        Token::Percent,
        Token::IntLit(400),
        Token::EqEq,
        Token::IntLit(0),
        Token::CloseParen,
    ]);
    assert(s.skip(30).skip(1) =~= s.skip(31));
    assert(spec_tokenize(s.skip(30)) is Some && spec_tokenize(s.skip(30))->0 =~= seq![
        Token::YearMark,
        Token::Percent,
        Token::IntLit(400),
        Token::EqEq,
        Token::IntLit(0),
        Token::CloseParen,
    ]);
    assert(s.skip(28).skip(2) =~= s.skip(30));
    assert(spec_tokenize(s.skip(28)) is Some && spec_tokenize(s.skip(28))->0 =~= seq![
        Token::OrOr,
        Token::YearMark,
        Token::Percent,
        Token::IntLit(400),
        Token::EqEq,
        Token::IntLit(0),
        Token::CloseParen,
    ]);
    assert(s.skip(27).skip(1) =~= s.skip(28));
    assert(spec_tokenize(s.skip(27)) is Some && spec_tokenize(s.skip(27))->0 =~= seq![
        Token::OrOr,
        Token::YearMark,
        Token::Percent,
        Token::IntLit(400),
        Token::EqEq,
        Token::IntLit(0),
        Token::CloseParen,
    ]);
    assert(s.skip(26).skip(1) =~= s.skip(27));
    assert(spec_tokenize(s.skip(26)) is Some && spec_tokenize(s.skip(26))->0 =~= seq![
        Token::IntLit(0),
        Token::OrOr,
        Token::YearMark,
        Token::Percent,
        Token::IntLit(400),
        Token::EqEq,
        Token::IntLit(0),
        Token::CloseParen,
    ]) by {
        reveal_with_fuel(spec_lex_num, 2);
    }
    assert(s.skip(25).skip(1) =~= s.skip(26));
    assert(spec_tokenize(s.skip(25)) is Some && spec_tokenize(s.skip(25))->0 =~= seq![
        Token::IntLit(0),
        Token::OrOr,
        Token::YearMark,
        Token::Percent,
        Token::IntLit(400),
        Token::EqEq,
        Token::IntLit(0),
        Token::CloseParen,
    ]);
    assert(s.skip(23).skip(2) =~= s.skip(25));
    assert(spec_tokenize(s.skip(23)) is Some && spec_tokenize(s.skip(23))->0 =~= seq![
        Token::NotEq,
        Token::IntLit(0),
        Token::OrOr,
        Token::YearMark,
        Token::Percent,
        Token::IntLit(400),
        Token::EqEq,
        Token::IntLit(0),
        Token::CloseParen,
    ]);
    assert(s.skip(22).skip(1) =~= s.skip(23));
    assert(spec_tokenize(s.skip(22)) is Some && spec_tokenize(s.skip(22))->0 =~= seq![
        Token::NotEq,
        Token::IntLit(0),
        Token::OrOr,
        Token::YearMark,
        Token::Percent,
        Token::IntLit(400),
        Token::EqEq,
        Token::IntLit(0),
        Token::CloseParen,
    ]);
    assert(s.skip(19).skip(1) =~= s.skip(20));
    assert(s.skip(20).skip(1) =~= s.skip(21));
    assert(s.skip(21).skip(1) =~= s.skip(22));
    assert(spec_tokenize(s.skip(19)) is Some && spec_tokenize(s.skip(19))->0 =~= seq![
        Token::IntLit(100),
        Token::NotEq,
        Token::IntLit(0),
        Token::OrOr,
        Token::YearMark,
        Token::Percent,
        Token::IntLit(400),
        Token::EqEq,
        Token::IntLit(0),
        Token::CloseParen,
    ]) by {
        reveal_with_fuel(spec_lex_num, 4);
    }
    assert(s.skip(18).skip(1) =~= s.skip(19));
    assert(spec_tokenize(s.skip(18)) is Some && spec_tokenize(s.skip(18))->0 =~= seq![
        Token::IntLit(100),
        Token::NotEq,
        Token::IntLit(0),
        Token::OrOr,
        Token::YearMark,
        Token::Percent,
        Token::IntLit(400),
        Token::EqEq,
        Token::IntLit(0),
        Token::CloseParen,
    ]);
    assert(s.skip(17).skip(1) =~= s.skip(18));
    assert(spec_tokenize(s.skip(17)) is Some && spec_tokenize(s.skip(17))->0 =~= seq![
        Token::Percent,
        Token::IntLit(100),
        Token::NotEq,
        Token::IntLit(0),
        Token::OrOr,
        Token::YearMark,
        Token::Percent,
        Token::IntLit(400),
        Token::EqEq,
        Token::IntLit(0),
        Token::CloseParen,
    ]);
    assert(s.skip(16).skip(1) =~= s.skip(17));
    assert(spec_tokenize(s.skip(16)) is Some && spec_tokenize(s.skip(16))->0 =~= seq![
        Token::Percent,
        Token::IntLit(100),
        Token::NotEq,
        Token::IntLit(0),
        Token::OrOr,
        Token::YearMark,
        Token::Percent,
        Token::IntLit(400),
        Token::EqEq,
        Token::IntLit(0),
        Token::CloseParen,
    ]);
    assert(s.skip(15).skip(1) =~= s.skip(16));
    assert(spec_tokenize(s.skip(15)) is Some && spec_tokenize(s.skip(15))->0 =~= seq![
        Token::YearMark,
        Token::Percent,
        Token::IntLit(100),
        Token::NotEq,
        Token::IntLit(0),
        Token::OrOr,
        Token::YearMark,
        Token::Percent,
        Token::IntLit(400),
        Token::EqEq,
        Token::IntLit(0),
        Token::CloseParen,
    ]);
    assert(s.skip(14).skip(1) =~= s.skip(15));
    assert(spec_tokenize(s.skip(14)) is Some && spec_tokenize(s.skip(14))->0 =~= seq![
        Token::OpenParen,
        Token::YearMark,
        Token::Percent,
        Token::IntLit(100),
        Token::NotEq,
        Token::IntLit(0),
        Token::OrOr,
        Token::YearMark,
        Token::Percent,
        Token::IntLit(400),
        Token::EqEq,
        Token::IntLit(0),
        Token::CloseParen,
    ]);
    assert(s.skip(13).skip(1) =~= s.skip(14));
    assert(spec_tokenize(s.skip(13)) is Some && spec_tokenize(s.skip(13))->0 =~= seq![
        Token::OpenParen,
        Token::YearMark,
        Token::Percent,
        Token::IntLit(100),
        Token::NotEq,
        Token::IntLit(0),
        Token::OrOr,
        Token::YearMark,
        Token::Percent,
        Token::IntLit(400),
        Token::EqEq,
        Token::IntLit(0),
        Token::CloseParen,
    ]);
    assert(s.skip(11).skip(2) =~= s.skip(13));
    assert(spec_tokenize(s.skip(11)) is Some && spec_tokenize(s.skip(11))->0 =~= seq![
        Token::AndAnd,
        Token::OpenParen,
        Token::YearMark,
        Token::Percent,
        Token::IntLit(100),
        Token::NotEq,
        Token::IntLit(0),
        Token::OrOr,
        Token::YearMark,
        Token::Percent,
        Token::IntLit(400),
        Token::EqEq,
        Token::IntLit(0),
        Token::CloseParen,
    ]);
    assert(s.skip(10).skip(1) =~= s.skip(11));
    assert(spec_tokenize(s.skip(10)) is Some && spec_tokenize(s.skip(10))->0 =~= seq![
        Token::AndAnd,
        Token::OpenParen,
        Token::YearMark,
        Token::Percent,
        Token::IntLit(100),
        Token::NotEq,
        Token::IntLit(0),
        Token::OrOr,
        Token::YearMark,
        Token::Percent,
        Token::IntLit(400),
        Token::EqEq,
        Token::IntLit(0),
        Token::CloseParen,
    ]);
    assert(s.skip(9).skip(1) =~= s.skip(10));
    assert(spec_tokenize(s.skip(9)) is Some && spec_tokenize(s.skip(9))->0 =~= seq![
        Token::IntLit(0),
        Token::AndAnd,
        Token::OpenParen,
        Token::YearMark,
        Token::Percent,
        Token::IntLit(100),
        Token::NotEq,
        Token::IntLit(0),
        Token::OrOr,
        Token::YearMark,
        Token::Percent,
        Token::IntLit(400),
        Token::EqEq,
        Token::IntLit(0),
        Token::CloseParen,
    ]) by {
        reveal_with_fuel(spec_lex_num, 2);
    }
    assert(s.skip(8).skip(1) =~= s.skip(9));
    assert(spec_tokenize(s.skip(8)) is Some && spec_tokenize(s.skip(8))->0 =~= seq![
        Token::IntLit(0),
        Token::AndAnd,
        Token::OpenParen,
        Token::YearMark,
        Token::Percent,
        Token::IntLit(100),
        Token::NotEq,
        Token::IntLit(0),
        Token::OrOr,
        Token::YearMark,
        Token::Percent,
        Token::IntLit(400),
        Token::EqEq,
        Token::IntLit(0),
        Token::CloseParen,
    ]);
    assert(s.skip(6).skip(2) =~= s.skip(8));
    assert(spec_tokenize(s.skip(6)) is Some && spec_tokenize(s.skip(6))->0 =~= seq![
        Token::EqEq,
        Token::IntLit(0),
        Token::AndAnd,
        Token::OpenParen,
        Token::YearMark,
        Token::Percent,
        Token::IntLit(100),
        Token::NotEq,
        Token::IntLit(0),
        Token::OrOr,
        Token::YearMark,
        Token::Percent,
        Token::IntLit(400),
        Token::EqEq,
        Token::IntLit(0),
        Token::CloseParen,
    ]);
    assert(s.skip(5).skip(1) =~= s.skip(6));
    assert(spec_tokenize(s.skip(5)) is Some && spec_tokenize(s.skip(5))->0 =~= seq![
        Token::EqEq,
        Token::IntLit(0),
        Token::AndAnd,
        Token::OpenParen,
        Token::YearMark,
        Token::Percent,
        Token::IntLit(100),
        Token::NotEq,
        Token::IntLit(0),
        Token::OrOr,
        Token::YearMark,
        Token::Percent,
        Token::IntLit(400),
        Token::EqEq,
        Token::IntLit(0),
        Token::CloseParen,
    ]);
    assert(s.skip(4).skip(1) =~= s.skip(5));
    assert(spec_tokenize(s.skip(4)) is Some && spec_tokenize(s.skip(4))->0 =~= seq![
        Token::IntLit(4),
        Token::EqEq,
        Token::IntLit(0),
        Token::AndAnd,
        Token::OpenParen,
        Token::YearMark,
        Token::Percent,
        Token::IntLit(100),
        Token::NotEq,
        Token::IntLit(0),
        Token::OrOr,
        Token::YearMark,
        Token::Percent,
        Token::IntLit(400),
        Token::EqEq,
        Token::IntLit(0),
        Token::CloseParen,
    ]) by {
        reveal_with_fuel(spec_lex_num, 2);
    }
    assert(s.skip(3).skip(1) =~= s.skip(4));
    assert(spec_tokenize(s.skip(3)) is Some && spec_tokenize(s.skip(3))->0 =~= seq![
        Token::IntLit(4),
        Token::EqEq,
        Token::IntLit(0),
        Token::AndAnd,
        Token::OpenParen,
        Token::YearMark,
        Token::Percent,
        Token::IntLit(100),
        Token::NotEq,
        Token::IntLit(0),
        Token::OrOr,
        Token::YearMark,
        Token::Percent,
        Token::IntLit(400),
        Token::EqEq,
        Token::IntLit(0),
        Token::CloseParen,
    ]);
    assert(s.skip(2).skip(1) =~= s.skip(3));
    assert(spec_tokenize(s.skip(2)) is Some && spec_tokenize(s.skip(2))->0 =~= seq![
        Token::Percent,
        Token::IntLit(4),
        Token::EqEq,
        Token::IntLit(0),
        Token::AndAnd,
        Token::OpenParen,
        Token::YearMark,
        Token::Percent,
        Token::IntLit(100),
        Token::NotEq,
        Token::IntLit(0),
        Token::OrOr,
        Token::YearMark,
        Token::Percent,
        Token::IntLit(400),
        Token::EqEq,
        Token::IntLit(0),
        Token::CloseParen,
    ]);
    assert(s.skip(1).skip(1) =~= s.skip(2));
    assert(spec_tokenize(s.skip(1)) is Some && spec_tokenize(s.skip(1))->0 =~= seq![
        Token::Percent,
        Token::IntLit(4),
        Token::EqEq,
        Token::IntLit(0),
        Token::AndAnd,
        Token::OpenParen,
        Token::YearMark,
        Token::Percent,
        Token::IntLit(100),
        Token::NotEq,
        Token::IntLit(0),
        Token::OrOr,
        Token::YearMark,
        Token::Percent,
        Token::IntLit(400),
        Token::EqEq,
        Token::IntLit(0),
        Token::CloseParen,
    ]);
    assert(s.skip(0).skip(1) =~= s.skip(1));
    assert(spec_tokenize(s.skip(0)) is Some && spec_tokenize(s.skip(0))->0 =~= seq![
        Token::YearMark,
        Token::Percent,
        Token::IntLit(4),
        Token::EqEq,
        Token::IntLit(0),
        Token::AndAnd,
        Token::OpenParen,
        Token::YearMark,
        Token::Percent,
        Token::IntLit(100),
        Token::NotEq,
        Token::IntLit(0),
        Token::OrOr,
        Token::YearMark,
        Token::Percent,
        Token::IntLit(400),
        Token::EqEq,
        Token::IntLit(0),
        Token::CloseParen,
    ]);
    assert(s.skip(0) =~= s);
    assert(spec_tokenize(s) is Some && spec_tokenize(s)->0 =~= gregorian_tokens());
}


#[verifier::rlimit(100)]
proof fn lemma_gregorian_parse()
    ensures
        spec_parse(gregorian_tokens()) == Some(gregorian_ast()),
{
    let t = gregorian_tokens();
    assert(t.len() == 19);
    assert(t.skip(1).skip(1) =~= t.skip(2));
    assert(t.skip(2).skip(1) =~= t.skip(3));
    assert(t.skip(3).skip(1) =~= t.skip(4));
    assert(t.skip(4).skip(1) =~= t.skip(5));
    assert(t.skip(5).skip(1) =~= t.skip(6));
    assert(t.skip(6).skip(1) =~= t.skip(7));
    assert(t.skip(7).skip(1) =~= t.skip(8));
    assert(t.skip(8).skip(1) =~= t.skip(9));
    assert(t.skip(9).skip(1) =~= t.skip(10));
    assert(t.skip(10).skip(1) =~= t.skip(11));
    assert(t.skip(11).skip(1) =~= t.skip(12));
    assert(t.skip(12).skip(1) =~= t.skip(13));
    assert(t.skip(13).skip(1) =~= t.skip(14));
    assert(t.skip(14).skip(1) =~= t.skip(15));
    assert(t.skip(15).skip(1) =~= t.skip(16));
    assert(t.skip(16).skip(1) =~= t.skip(17));
    assert(t.skip(17).skip(1) =~= t.skip(18));
    assert(t.skip(18).skip(1) =~= t.skip(19));
    let yv = Expr::YearVar;
    let mod4 = Expr::Modulo(Box::new(Expr::YearVar), Box::new(Expr::IntLit(4)));
    let mod100 = Expr::Modulo(Box::new(Expr::YearVar), Box::new(Expr::IntLit(100)));
    let mod400 = Expr::Modulo(Box::new(Expr::YearVar), Box::new(Expr::IntLit(400)));
    let cmp4 = Expr::Compare(CmpOp::EqOp, Box::new(mod4), Box::new(Expr::IntLit(0)));
    let cmp100 = Expr::Compare(CmpOp::NeOp, Box::new(mod100), Box::new(Expr::IntLit(0)));
    let cmp400 = Expr::Compare(CmpOp::EqOp, Box::new(mod400), Box::new(Expr::IntLit(0)));
    let inner = Expr::OrExpr(Box::new(cmp100), Box::new(cmp400));
    // year % 4 == 0, tokens 0 .. 5
    assert(spec_parse_unary(t) == Some((yv, t.skip(1))));
    assert(spec_parse_unary(t.skip(2)) == Some((Expr::IntLit(4i64), t.skip(3))));
    assert(spec_parse_mod_rest(mod4, t.skip(3)) == Some((mod4, t.skip(3))));
    assert(spec_parse_mod_rest(yv, t.skip(1)) == Some((mod4, t.skip(3))));
    assert(spec_parse_mod(t) == Some((mod4, t.skip(3))));
    assert(spec_parse_unary(t.skip(4)) == Some((Expr::IntLit(0i64), t.skip(5))));
    assert(spec_parse_mod_rest(Expr::IntLit(0i64), t.skip(5)) == Some(
        (Expr::IntLit(0i64), t.skip(5)),
    ));
    assert(spec_parse_mod(t.skip(4)) == Some((Expr::IntLit(0i64), t.skip(5))));
    assert(spec_parse_cmp(t) == Some((cmp4, t.skip(5))));
    // year % 100 != 0, tokens 7 .. 12
    assert(spec_parse_unary(t.skip(7)) == Some((yv, t.skip(8))));
    assert(spec_parse_unary(t.skip(9)) == Some((Expr::IntLit(100i64), t.skip(10))));
    assert(spec_parse_mod_rest(mod100, t.skip(10)) == Some((mod100, t.skip(10))));
    assert(spec_parse_mod_rest(yv, t.skip(8)) == Some((mod100, t.skip(10))));
    assert(spec_parse_mod(t.skip(7)) == Some((mod100, t.skip(10))));
    assert(spec_parse_unary(t.skip(11)) == Some((Expr::IntLit(0i64), t.skip(12))));
    assert(spec_parse_mod_rest(Expr::IntLit(0i64), t.skip(12)) == Some(
        (Expr::IntLit(0i64), t.skip(12)),
    ));
    assert(spec_parse_mod(t.skip(11)) == Some((Expr::IntLit(0i64), t.skip(12))));
    assert(spec_parse_cmp(t.skip(7)) == Some((cmp100, t.skip(12))));
    assert(spec_parse_and(t.skip(7)) == Some((cmp100, t.skip(12))));
    // year % 400 == 0, tokens 13 .. 18
    assert(spec_parse_unary(t.skip(13)) == Some((yv, t.skip(14))));
    assert(spec_parse_unary(t.skip(15)) == Some((Expr::IntLit(400i64), t.skip(16))));
    assert(spec_parse_mod_rest(mod400, t.skip(16)) == Some((mod400, t.skip(16))));
    assert(spec_parse_mod_rest(yv, t.skip(14)) == Some((mod400, t.skip(16))));
    assert(spec_parse_mod(t.skip(13)) == Some((mod400, t.skip(16))));
    assert(spec_parse_unary(t.skip(17)) == Some((Expr::IntLit(0i64), t.skip(18))));
    assert(spec_parse_mod_rest(Expr::IntLit(0i64), t.skip(18)) == Some(
        (Expr::IntLit(0i64), t.skip(18)),
    ));
    assert(spec_parse_mod(t.skip(17)) == Some((Expr::IntLit(0i64), t.skip(18))));
    assert(spec_parse_cmp(t.skip(13)) == Some((cmp400, t.skip(18))));
    assert(spec_parse_and(t.skip(13)) == Some((cmp400, t.skip(18))));
    assert(spec_parse_or(t.skip(13)) == Some((cmp400, t.skip(18))));
    // the parenthesized alternative, tokens 6 .. 19
    assert(spec_parse_or(t.skip(7)) == Some((inner, t.skip(18))));
    assert(spec_parse_unary(t.skip(6)) == Some((inner, t.skip(19))));
    assert(t.skip(19).len() == 0);
    assert(spec_parse_mod_rest(inner, t.skip(19)) == Some((inner, t.skip(19))));
    assert(spec_parse_mod(t.skip(6)) == Some((inner, t.skip(19))));
    assert(spec_parse_cmp(t.skip(6)) == Some((inner, t.skip(19))));
    assert(spec_parse_and(t.skip(6)) == Some((inner, t.skip(19))));
    // the conjunction of both halves
    assert(spec_parse_and(t) == Some((gregorian_ast(), t.skip(19))));
    assert(spec_parse_or(t) == Some((gregorian_ast(), t.skip(19))));
    assert(spec_parse(t) == Some(gregorian_ast()));
}


proof fn lemma_gregorian_eval(year: i64)
    ensures
        spec_eval(gregorian_ast(), year) == Some(
            Val::VBool(
                year as int % 4 == 0 && (year as int % 100 != 0 || year as int % 400 == 0),
            ),
        ),
{
    lemma_checked_rem_zero(year, 4);
    lemma_checked_rem_zero(year, 100);
    lemma_checked_rem_zero(year, 400);
    reveal_with_fuel(spec_eval, 5);
}

/// The textual Gregorian rule means exactly the conventional Gregorian
/// leap-year condition, for every year: divisible by four and, unless
/// divisible by four hundred, not divisible by one hundred.
pub proof fn lemma_gregorian_leap_rule(year: i64)
    ensures
        spec_evaluate("# % 4 == 0 && (# % 100 != 0 || # % 400 == 0)"@, year) == (year as int % 4
            == 0 && (year as int % 100 != 0 || year as int % 400 == 0)),
{
    lemma_gregorian_tokenize();
    lemma_gregorian_parse();
    lemma_gregorian_eval(year);
}

} // verus!
