//! The lexer and the recursive-descent parser.
use vstd::prelude::*;
use crate::ast::{Expr, SpecExpr, Type};
use vstd::std_specs::iter::IteratorSpec;

verus! {

/// The tokens of the language.
#[derive(Debug, Clone, PartialEq)]
pub enum Token {
    Ident(String),
    Int(i64),
    Lambda,
    Colon,
    Dot,
    Plus,
    Minus,
    LParen,
    RParen,
    Arrow,
    EqualGreater,
    Pipe,
    Comma,
    IntKw,
    PairKw,
    EitherKw,
    ArrayKw,
    MkPair,
    Unpack,
    IntoKw,
    InKw,
    Left,
    Right,
    Match,
    With,
    ArrayAlloc,
    ArraySwap,
    Split,
    Merge,
    And,
    LinKw,
}

/// The model of a token: an identifier is a character sequence.
pub enum SpecToken {
    Ident(Seq<char>),
    Int(i64),
    Lambda,
    Colon,
    Dot,
    Plus,
    Minus,
    LParen,
    RParen,
    Arrow,
    EqualGreater,
    Pipe,
    Comma,
    IntKw,
    PairKw,
    EitherKw,
    ArrayKw,
    MkPair,
    Unpack,
    IntoKw,
    InKw,
    Left,
    Right,
    Match,
    With,
    ArrayAlloc,
    ArraySwap,
    Split,
    Merge,
    And,
    LinKw,
}

impl View for Token {
    type V = SpecToken;

    open spec fn view(&self) -> SpecToken {
        match self {
            Token::Ident(s) => SpecToken::Ident(s@),
            Token::Int(n) => SpecToken::Int(*n),
            Token::Lambda => SpecToken::Lambda,
            Token::Colon => SpecToken::Colon,
            Token::Dot => SpecToken::Dot,
            Token::Plus => SpecToken::Plus,
            Token::Minus => SpecToken::Minus,
            Token::LParen => SpecToken::LParen,
            Token::RParen => SpecToken::RParen,
            Token::Arrow => SpecToken::Arrow,
            Token::EqualGreater => SpecToken::EqualGreater,
            Token::Pipe => SpecToken::Pipe,
            Token::Comma => SpecToken::Comma,
            Token::IntKw => SpecToken::IntKw,
            Token::PairKw => SpecToken::PairKw,
            Token::EitherKw => SpecToken::EitherKw,
            Token::ArrayKw => SpecToken::ArrayKw,
            Token::MkPair => SpecToken::MkPair,
            Token::Unpack => SpecToken::Unpack,
            Token::IntoKw => SpecToken::IntoKw,
            Token::InKw => SpecToken::InKw,
            Token::Left => SpecToken::Left,
            Token::Right => SpecToken::Right,
            Token::Match => SpecToken::Match,
            Token::With => SpecToken::With,
            Token::ArrayAlloc => SpecToken::ArrayAlloc,
            Token::ArraySwap => SpecToken::ArraySwap,
            Token::Split => SpecToken::Split,
            Token::Merge => SpecToken::Merge,
            Token::And => SpecToken::And,
            Token::LinKw => SpecToken::LinKw,
        }
    }
}

/// The models of a sequence of tokens.
pub open spec fn tokens_view(ts: Seq<Token>) -> Seq<SpecToken> {
    ts.map_values(|t: Token| t@)
}

/// Whether `c` has the Unicode `Alphabetic` property, as `char::is_alphabetic` decides it.
pub uninterp spec fn unicode_alphabetic(c: char) -> bool;

/// Whether `c` is alphabetic or numeric in Unicode, as `char::is_alphanumeric` decides it.
pub uninterp spec fn unicode_alphanumeric(c: char) -> bool;

/// `char::is_alphabetic` of the standard library: whether `c` has the Unicode
/// `Alphabetic` property. The contract names the result; of the table it states
/// only the ASCII range, where the alphabetic characters are the letters
/// `a`-`z` and `A`-`Z`.
#[verifier::external_body]
fn is_alphabetic(c: char) -> (r: bool)
    ensures
        r == unicode_alphabetic(c),
        c <= '\x7f' ==> (r <==> (('a' <= c && c <= 'z') || ('A' <= c && c <= 'Z'))),
{
    c.is_alphabetic()
}

/// `char::is_alphanumeric` of the standard library: whether `c` is alphabetic or
/// numeric in Unicode. The contract names the result; of the table it states
/// only the ASCII range, where the alphanumeric characters are the letters and
/// the decimal digits.
#[verifier::external_body]
fn is_alphanumeric(c: char) -> (r: bool)
    ensures
        r == unicode_alphanumeric(c),
        c <= '\x7f' ==> (r <==> (('a' <= c && c <= 'z') || ('A' <= c && c <= 'Z') || ('0' <= c
            && c <= '9'))),
{
    c.is_alphanumeric()
}

/// `String::push` of the standard library: appends the character `c` to `s`.
#[verifier::external_body]
fn push_char(s: &mut String, c: char)
    ensures
        final(s)@ == old(s)@.push(c),
{
    s.push(c)
}

pub open spec fn is_space(c: char) -> bool {
    c == ' ' || c == '\n' || c == '\t' || c == '\r'
}

pub open spec fn is_digit(c: char) -> bool {
    '0' <= c && c <= '9'
}

/// Whether `c` is alphabetic: in the ASCII range the letters `a`-`z` and
/// `A`-`Z`, beyond it the characters with the Unicode `Alphabetic` property.
pub open spec fn alphabetic(c: char) -> bool {
    if c <= '\x7f' {
        ('a' <= c && c <= 'z') || ('A' <= c && c <= 'Z')
    } else {
        unicode_alphabetic(c)
    }
}

/// Whether `c` is alphanumeric: in the ASCII range the letters and the
/// decimal digits, beyond it the characters that are alphabetic or numeric in
/// Unicode.
pub open spec fn alphanumeric(c: char) -> bool {
    if c <= '\x7f' {
        ('a' <= c && c <= 'z') || ('A' <= c && c <= 'Z') || ('0' <= c && c <= '9')
    } else {
        unicode_alphanumeric(c)
    }
}

/// A character that may start an identifier.
pub open spec fn starts_ident(c: char) -> bool {
    alphabetic(c) || c == '_'
}

/// A character that may continue an identifier.
pub open spec fn continues_ident(c: char) -> bool {
    alphanumeric(c) || c == '_'
}

/// The end of the run of decimal digits that starts at `i`.
pub open spec fn digit_end(s: Seq<char>, i: int) -> int
    decreases s.len() - i,
{
    if 0 <= i < s.len() && is_digit(s[i]) {
        digit_end(s, i + 1)
    } else {
        i
    }
}

/// The end of the run of identifier characters that starts at `i`.
pub open spec fn ident_end(s: Seq<char>, i: int) -> int
    decreases s.len() - i,
{
    if 0 <= i < s.len() && continues_ident(s[i]) {
        ident_end(s, i + 1)
    } else {
        i
    }
}

/// The value of a sequence of decimal digits.
pub open spec fn digits_value(ds: Seq<char>) -> int
    decreases ds.len(),
{
    if ds.len() == 0 {
        0
    } else {
        digits_value(ds.drop_last()) * 10 + (ds.last() as int - '0' as int)
    }
}

/// The token for a word: a keyword, or else an identifier.
pub open spec fn word_token(w: Seq<char>) -> SpecToken {
    if w == "Int"@ {
        SpecToken::IntKw
    } else if w == "Pair"@ {
        SpecToken::PairKw
    } else if w == "Either"@ {
        SpecToken::EitherKw
    } else if w == "Array"@ {
        SpecToken::ArrayKw
    } else if w == "mkpair"@ {
        SpecToken::MkPair
    } else if w == "unpack"@ {
        SpecToken::Unpack
    } else if w == "into"@ {
        SpecToken::IntoKw
    } else if w == "in"@ {
        SpecToken::InKw
    } else if w == "Left"@ {
        SpecToken::Left
    } else if w == "Right"@ {
        SpecToken::Right
    } else if w == "match"@ {
        SpecToken::Match
    } else if w == "with"@ {
        SpecToken::With
    } else if w == "array_alloc"@ {
        SpecToken::ArrayAlloc
    } else if w == "array_swap"@ {
        SpecToken::ArraySwap
    } else if w == "split"@ {
        SpecToken::Split
    } else if w == "merge"@ {
        SpecToken::Merge
    } else if w == "and"@ {
        SpecToken::And
    } else if w == "Lin"@ {
        SpecToken::LinKw
    } else {
        SpecToken::Ident(w)
    }
}

/// `t` in front of the tokens of `rest`, if `rest` has any.
pub open spec fn cons_token(t: SpecToken, rest: Option<Seq<SpecToken>>) -> Option<Seq<SpecToken>> {
    match rest {
        Some(ts) => Some(seq![t] + ts),
        None => None,
    }
}

pub proof fn lemma_digit_end(s: Seq<char>, i: int)
    requires
        0 <= i <= s.len(),
    ensures
        i <= digit_end(s, i) <= s.len(),
        forall|j: int| i <= j < digit_end(s, i) ==> is_digit(#[trigger] s[j]),
        digit_end(s, i) < s.len() ==> !is_digit(s[digit_end(s, i)]),
    decreases s.len() - i,
{
    if i < s.len() && is_digit(s[i]) {
        lemma_digit_end(s, i + 1);
    }
}

pub proof fn lemma_ident_end(s: Seq<char>, i: int)
    requires
        0 <= i <= s.len(),
    ensures
        i <= ident_end(s, i) <= s.len(),
        forall|j: int| i <= j < ident_end(s, i) ==> continues_ident(#[trigger] s[j]),
        ident_end(s, i) < s.len() ==> !continues_ident(s[ident_end(s, i)]),
    decreases s.len() - i,
{
    if i < s.len() && continues_ident(s[i]) {
        lemma_ident_end(s, i + 1);
    }
}

/// The tokens of the characters from position `i` on; `None` where an integer
/// literal does not fit in `i64`.
pub open spec fn lex_from(s: Seq<char>, i: int) -> Option<Seq<SpecToken>>
    decreases s.len() - i,
{
    if i < 0 || i >= s.len() {
        Some(seq![])
    } else {
        let c = s[i];
        if is_space(c) {
            lex_from(s, i + 1)
        } else if c == '\\' {
            cons_token(SpecToken::Lambda, lex_from(s, i + 1))
        } else if c == ':' {
            cons_token(SpecToken::Colon, lex_from(s, i + 1))
        } else if c == '.' {
            cons_token(SpecToken::Dot, lex_from(s, i + 1))
        } else if c == '+' {
            cons_token(SpecToken::Plus, lex_from(s, i + 1))
        } else if c == '-' {
            if i + 1 < s.len() && s[i + 1] == '>' {
                cons_token(SpecToken::Arrow, lex_from(s, i + 2))
            } else {
                cons_token(SpecToken::Minus, lex_from(s, i + 1))
            }
        } else if c == '(' {
            cons_token(SpecToken::LParen, lex_from(s, i + 1))
        } else if c == ')' {
            cons_token(SpecToken::RParen, lex_from(s, i + 1))
        } else if c == '=' {
            if i + 1 < s.len() && s[i + 1] == '>' {
                cons_token(SpecToken::EqualGreater, lex_from(s, i + 2))
            } else {
                lex_from(s, i + 1)
            }
        } else if c == '|' {
            cons_token(SpecToken::Pipe, lex_from(s, i + 1))
        } else if c == ',' {
            cons_token(SpecToken::Comma, lex_from(s, i + 1))
        } else if is_digit(c) {
            let j = digit_end(s, i);
            proof {
                lemma_digit_end(s, i);
            }
            let v = digits_value(s.subrange(i, j));
            if v > i64::MAX {
                None
            } else {
                cons_token(SpecToken::Int(v as i64), lex_from(s, j))
            }
        } else if starts_ident(c) {
            let j = ident_end(s, i + 1);
            proof {
                lemma_ident_end(s, i + 1);
            }
            cons_token(word_token(s.subrange(i, j)), lex_from(s, j))
        } else {
            lex_from(s, i + 1)
        }
    }
}

/// The tokens of a source text; `None` where an integer literal does not fit in `i64`.
pub open spec fn lex_spec(s: Seq<char>) -> Option<Seq<SpecToken>> {
    lex_from(s, 0)
}

/// The tokens of `prefix` in front of those of `rest`, if `rest` has any.
pub open spec fn prepend_tokens(prefix: Seq<SpecToken>, rest: Option<Seq<SpecToken>>) -> Option<
    Seq<SpecToken>,
> {
    match rest {
        Some(ts) => Some(prefix + ts),
        None => None,
    }
}

proof fn lemma_prepend_cons(prefix: Seq<SpecToken>, t: SpecToken, rest: Option<Seq<SpecToken>>)
    ensures
        prepend_tokens(prefix, cons_token(t, rest)) == prepend_tokens(prefix.push(t), rest),
{
    if let Some(ts) = rest {
        assert(prefix + (seq![t] + ts) =~= prefix.push(t) + ts);
    }
}

proof fn lemma_tokens_view_push(ts: Seq<Token>, t: Token)
    ensures
        tokens_view(ts.push(t)) == tokens_view(ts).push(t@),
{
    assert(tokens_view(ts.push(t)) =~= tokens_view(ts).push(t@));
}

/// A digit sequence grows in value as it is extended.
proof fn lemma_digits_monotone(s: Seq<char>, i: int, a: int, b: int)
    requires
        0 <= i <= a <= b <= s.len(),
        forall|j: int| i <= j < b ==> is_digit(#[trigger] s[j]),
    ensures
        digits_value(s.subrange(i, a)) <= digits_value(s.subrange(i, b)),
        0 <= digits_value(s.subrange(i, a)),
    decreases b - a,
{
    if a < b {
        lemma_digits_monotone(s, i, a, b - 1);
        let t = s.subrange(i, b);
        assert(t.drop_last() =~= s.subrange(i, b - 1));
    } else {
        lemma_digits_nonneg(s, i, a);
    }
}

proof fn lemma_digits_nonneg(s: Seq<char>, i: int, a: int)
    requires
        0 <= i <= a <= s.len(),
        forall|j: int| i <= j < a ==> is_digit(#[trigger] s[j]),
    ensures
        0 <= digits_value(s.subrange(i, a)),
    decreases a - i,
{
    if i < a {
        lemma_digits_nonneg(s, i, a - 1);
        assert(s.subrange(i, a).drop_last() =~= s.subrange(i, a - 1));
    }
}

/// A run of digits ends where the run from any position inside it ends.
proof fn lemma_digit_end_inside(s: Seq<char>, i: int, k: int)
    requires
        0 <= i <= k <= s.len(),
        forall|j: int| i <= j < k ==> is_digit(#[trigger] s[j]),
    ensures
        digit_end(s, i) == digit_end(s, k),
    decreases k - i,
{
    if i < k {
        lemma_digit_end_inside(s, i + 1, k);
    }
}

proof fn lemma_ident_end_inside(s: Seq<char>, i: int, k: int)
    requires
        0 <= i <= k <= s.len(),
        forall|j: int| i <= j < k ==> continues_ident(#[trigger] s[j]),
    ensures
        ident_end(s, i) == ident_end(s, k),
    decreases k - i,
{
    if i < k {
        lemma_ident_end_inside(s, i + 1, k);
    }
}

/// The token for a word.
fn word_to_token(word: String) -> (t: Token)
    ensures
        t@ == word_token(word@),
{
    if word == String::from_str("Int") {
        Token::IntKw
    } else if word == String::from_str("Pair") {
        Token::PairKw
    } else if word == String::from_str("Either") {
        Token::EitherKw
    } else if word == String::from_str("Array") {
        Token::ArrayKw
    } else if word == String::from_str("mkpair") {
        Token::MkPair
    } else if word == String::from_str("unpack") {
        Token::Unpack
    } else if word == String::from_str("into") {
        Token::IntoKw
    } else if word == String::from_str("in") {
        Token::InKw
    } else if word == String::from_str("Left") {
        Token::Left
    } else if word == String::from_str("Right") {
        Token::Right
    } else if word == String::from_str("match") {
        Token::Match
    } else if word == String::from_str("with") {
        Token::With
    } else if word == String::from_str("array_alloc") {
        Token::ArrayAlloc
    } else if word == String::from_str("array_swap") {
        Token::ArraySwap
    } else if word == String::from_str("split") {
        Token::Split
    } else if word == String::from_str("merge") {
        Token::Merge
    } else if word == String::from_str("and") {
        Token::And
    } else if word == String::from_str("Lin") {
        Token::LinKw
    } else {
        Token::Ident(word)
    }
}

/// A prefix of a run of digits is worth no more than the whole run.
proof fn lemma_digits_tail_bound(w: Seq<char>, j: int, n: int)
    requires
        5 <= j < n,
        n == w.len(),
    ensures
        (forall|k: int| 5 <= k < n ==> is_digit(#[trigger] w[k])) ==> digits_value(
            w.subrange(5, j + 1),
        ) <= digits_value(w.subrange(5, n)),
{
    if forall|k: int| 5 <= k < n ==> is_digit(#[trigger] w[k]) {
        lemma_digits_monotone(w, 5, j + 1, n);
    }
}

/// The level of a universe name `Type_n`, where the word has that form and the
/// level fits in `usize`.
fn universe_level_of(word: &String) -> (r: Option<usize>)
    ensures
        r == match universe_level(word@) {
            Some(n) => if n <= usize::MAX {
                Some(n as usize)
            } else {
                None
            },
            None => None,
        },
{
    let cs = chars_of(word.as_str());
    let ghost w = cs@;
    let n = cs.len();
    proof {
        reveal_strlit("Type_");
    }
    if n <= 5 {
        return None;
    }
    if !(cs[0] == 'T' && cs[1] == 'y' && cs[2] == 'p' && cs[3] == 'e' && cs[4] == '_') {
        proof {
            let p = w.subrange(0, 5);
            assert(p[0] == w[0] && p[1] == w[1] && p[2] == w[2] && p[3] == w[3] && p[4] == w[4]);
            assert(p != "Type_"@);
        }
        return None;
    }
    assert(w.subrange(0, 5) =~= "Type_"@);
    let mut value: usize = 0;
    let mut j: usize = 5;
    while j < n
        invariant
            n == w.len(),
            n > 5,
            5 <= j <= n,
            cs@ == w,
            w == word@,
            w.subrange(0, 5) == "Type_"@,
            forall|k: int| 5 <= k < j ==> is_digit(#[trigger] w[k]),
            value == digits_value(w.subrange(5, j as int)),
        decreases n - j,
    {
        let c = cs[j];
        if !('0' <= c && c <= '9') {
            proof {
                assert(!is_digit(w[j as int]));
            }
            return None;
        }
        let ghost t = w.subrange(5, j + 1);
        proof {
            assert(t.drop_last() =~= w.subrange(5, j as int));
            assert(t.last() == c);
            lemma_digits_tail_bound(w, j as int, n as int);
            lemma_digits_nonneg(w, 5, j as int);
        }
        let d = (c as u32 - '0' as u32) as usize;
        assert(digits_value(t) == value * 10 + d);
        let v10 = match value.checked_mul(10) {
            Some(x) => x,
            None => {
                return None;
            },
        };
        value = match v10.checked_add(d) {
            Some(x) => x,
            None => {
                return None;
            },
        };
        j = j + 1;
    }
    assert(w.subrange(5, n as int) == w.subrange(5, w.len() as int));
    Some(value)
}

/// The characters of a text.
fn chars_of(text: &str) -> (r: Vec<char>)
    ensures
        r@ == text@,
{
    broadcast use vstd::string::group_string_axioms;

    let mut out: Vec<char> = Vec::new();
    let n = text.unicode_len();
    let mut it = text.chars();
    let mut i: usize = 0;
    while i < n
        invariant
            n == text@.len(),
            i <= n,
            out@ == text@.subrange(0, i as int),
            it.remaining() == text@.skip(i as int),
            it.obeys_prophetic_iter_laws(),
        decreases n - i,
    {
        match it.next() {
            Some(c) => {
                out.push(c);
            },
            None => {
                proof {
                    assert(false);
                }
            },
        }
        assert(out@ =~= text@.subrange(0, i + 1));
        i = i + 1;
    }
    assert(out@ =~= text@);
    out
}

/// The tokens of a character sequence; `None` where an integer literal does not fit in `i64`.
fn lex_chars(cs: &Vec<char>) -> (r: Option<Vec<Token>>)
    ensures
        match r {
            Some(ts) => lex_spec(cs@) == Some(tokens_view(ts@)),
            None => lex_spec(cs@) is None,
        },
{
    let mut tokens: Vec<Token> = Vec::new();
    let n = cs.len();
    let mut i: usize = 0;
    while i < n
        invariant
            n == cs@.len(),
            i <= n,
            lex_spec(cs@) == prepend_tokens(tokens_view(tokens@), lex_from(cs@, i as int)),
        decreases n - i,
    {
        let ghost s = cs@;
        let ghost prefix = tokens_view(tokens@);
        let c = cs[i];
        let single: Option<Token> = if c == '\\' {
            Some(Token::Lambda)
        } else if c == ':' {
            Some(Token::Colon)
        } else if c == '.' {
            Some(Token::Dot)
        } else if c == '+' {
            Some(Token::Plus)
        } else if c == '(' {
            Some(Token::LParen)
        } else if c == ')' {
            Some(Token::RParen)
        } else if c == '|' {
            Some(Token::Pipe)
        } else if c == ',' {
            Some(Token::Comma)
        } else {
            None
        };
        if c == ' ' || c == '\n' || c == '\t' || c == '\r' {
            i = i + 1;
        } else if let Some(t) = single {
            proof {
                lemma_prepend_cons(prefix, t@, lex_from(s, i + 1));
                lemma_tokens_view_push(tokens@, t);
            }
            tokens.push(t);
            i = i + 1;
        } else if c == '-' {
            if i + 1 < n && cs[i + 1] == '>' {
                proof {
                    lemma_prepend_cons(prefix, SpecToken::Arrow, lex_from(s, i + 2));
                    lemma_tokens_view_push(tokens@, Token::Arrow);
                }
                tokens.push(Token::Arrow);
                i = i + 2;
            } else {
                proof {
                    lemma_prepend_cons(prefix, SpecToken::Minus, lex_from(s, i + 1));
                    lemma_tokens_view_push(tokens@, Token::Minus);
                }
                tokens.push(Token::Minus);
                i = i + 1;
            }
        } else if c == '=' {
            if i + 1 < n && cs[i + 1] == '>' {
                proof {
                    lemma_prepend_cons(prefix, SpecToken::EqualGreater, lex_from(s, i + 2));
                    lemma_tokens_view_push(tokens@, Token::EqualGreater);
                }
                tokens.push(Token::EqualGreater);
                i = i + 2;
            } else {
                i = i + 1;
            }
        } else if '0' <= c && c <= '9' {
            let start = i;
            let mut v: i64 = 0;
            proof {
                lemma_digit_end(s, start as int);
            }
            while i < n && '0' <= cs[i] && cs[i] <= '9'
                invariant
                    n == s.len(),
                    s == cs@,
                    start < n,
                    is_digit(s[start as int]),
                    start <= i <= n,
                    forall|j: int| start <= j < i ==> is_digit(#[trigger] s[j]),
                    v == digits_value(s.subrange(start as int, i as int)),
                    0 <= v,
                    prefix == tokens_view(tokens@),
                    lex_spec(s) == prepend_tokens(prefix, lex_from(s, start as int)),
                decreases n - i,
            {
                let d = (cs[i] as u32 - '0' as u32) as i64;
                if v > 922337203685477580 || (v == 922337203685477580 && d > 7) {
                    proof {
                        let e = digit_end(s, start as int);
                        lemma_digit_end(s, start as int);
                        lemma_digit_end_inside(s, start as int, i as int);
                        lemma_digit_end(s, i as int);
                        lemma_digit_end(s, i + 1);
                        assert(s.subrange(start as int, i + 1).drop_last() =~= s.subrange(
                            start as int,
                            i as int,
                        ));
                        lemma_digits_monotone(s, start as int, i + 1, e);
                    }
                    return None;
                }
                proof {
                    assert(s.subrange(start as int, i + 1).drop_last() =~= s.subrange(
                        start as int,
                        i as int,
                    ));
                }
                v = v * 10 + d;
                i = i + 1;
            }
            proof {
                lemma_digit_end_inside(s, start as int, i as int);
                lemma_digits_nonneg(s, start as int, i as int);
                lemma_prepend_cons(prefix, SpecToken::Int(v), lex_from(s, i as int));
                lemma_tokens_view_push(tokens@, Token::Int(v));
            }
            tokens.push(Token::Int(v));
        } else if is_alphabetic(c) || c == '_' {
            let start = i;
            let mut word = String::new();
            push_char(&mut word, c);
            i = i + 1;
            proof {
                lemma_ident_end(s, start + 1);
            }
            while i < n && (is_alphanumeric(cs[i]) || cs[i] == '_')
                invariant
                    n == s.len(),
                    s == cs@,
                    start < i <= n,
                    forall|j: int| start + 1 <= j < i ==> continues_ident(#[trigger] s[j]),
                    word@ == s.subrange(start as int, i as int),
                    prefix == tokens_view(tokens@),
                    lex_spec(s) == prepend_tokens(prefix, lex_from(s, start as int)),
                decreases n - i,
            {
                push_char(&mut word, cs[i]);
                assert(word@ =~= s.subrange(start as int, i + 1));
                i = i + 1;
            }
            proof {
                lemma_ident_end_inside(s, start + 1, i as int);
            }
            let t = word_to_token(word);
            proof {
                lemma_prepend_cons(prefix, t@, lex_from(s, i as int));
                lemma_tokens_view_push(tokens@, t);
            }
            tokens.push(t);
        } else {
            i = i + 1;
        }
    }
    assert(tokens_view(tokens@) + seq![] =~= tokens_view(tokens@));
    Some(tokens)
}

/// The parse errors.
pub enum ParseError {
    EmptyFile,
    BadFunctionType,
    InvalidType,
    ExpectedIdentifier,
    ExpectedColon,
    ExpectedDot,
    ExpectedInto,
    ExpectedVar1,
    ExpectedComma,
    ExpectedVar2,
    ExpectedIn,
    ExpectedWith,
    ExpectedLeft,
    ExpectedLeftVar,
    ExpectedFatArrow,
    ExpectedPipe,
    ExpectedRight,
    ExpectedRightVar,
    ExpectedRParen,
    UnexpectedToken,
    ExpectedAnd,
}

impl ParseError {
    /// The text of the error.
    pub open spec fn message(self) -> Seq<char> {
        match self {
            ParseError::EmptyFile => "Empty file"@,
            ParseError::BadFunctionType => "Expected function type format: (Type -> Type)"@,
            ParseError::InvalidType => "Invalid Type"@,
            ParseError::ExpectedIdentifier => "Expected identifier"@,
            ParseError::ExpectedColon => "Expected ':'"@,
            ParseError::ExpectedDot => "Expected '.'"@,
            ParseError::ExpectedInto => "Expected 'into'"@,
            ParseError::ExpectedVar1 => "Expected var1"@,
            ParseError::ExpectedComma => "Expected ','"@,
            ParseError::ExpectedVar2 => "Expected var2"@,
            ParseError::ExpectedIn => "Expected 'in'"@,
            ParseError::ExpectedWith => "Expected 'with'"@,
            ParseError::ExpectedLeft => "Expected 'Left'"@,
            ParseError::ExpectedLeftVar => "Expected left var"@,
            ParseError::ExpectedFatArrow => "Expected '=>'"@,
            ParseError::ExpectedPipe => "Expected '|'"@,
            ParseError::ExpectedRight => "Expected 'Right'"@,
            ParseError::ExpectedRightVar => "Expected right var"@,
            ParseError::ExpectedRParen => "Expected ')'"@,
            ParseError::UnexpectedToken => "Unexpected token in primary expression"@,
            ParseError::ExpectedAnd => "Expected 'and'"@,
        }
    }
}

/// Whether the token at `pos` exists and is `t`.
pub open spec fn token_is(ts: Seq<SpecToken>, pos: int, t: SpecToken) -> bool {
    0 <= pos < ts.len() && ts[pos] == t
}

/// A position reached by a successful parse from `pos`: past `pos`, within the tokens.
/// (Every successful parse consumes a token, so the guards below that test this
/// always hold; they only make the definitions' termination evident.)
pub open spec fn advances(ts: Seq<SpecToken>, pos: int, p: int) -> bool {
    pos < p <= ts.len()
}

/// A type parsed from position `pos`, and the position after it.
pub open spec fn parse_type_spec(ts: Seq<SpecToken>, pos: int) -> Result<(Type, int), ParseError>
    decreases ts.len() - pos,
{
    if pos < 0 || pos >= ts.len() {
        Err(ParseError::InvalidType)
    } else {
        match ts[pos] {
            SpecToken::IntKw => Ok((Type::Int, pos + 1)),
            SpecToken::PairKw => match parse_type_spec(ts, pos + 1) {
                Ok((a, p1)) => if advances(ts, pos, p1) {
                    match parse_type_spec(ts, p1) {
                        Ok((b, p2)) => Ok((Type::Pair(Box::new(a), Box::new(b)), p2)),
                        Err(e) => Err(e),
                    }
                } else {
                    Err(ParseError::InvalidType)
                },
                Err(e) => Err(e),
            },
            SpecToken::EitherKw => match parse_type_spec(ts, pos + 1) {
                Ok((a, p1)) => if advances(ts, pos, p1) {
                    match parse_type_spec(ts, p1) {
                        Ok((b, p2)) => Ok((Type::Either(Box::new(a), Box::new(b)), p2)),
                        Err(e) => Err(e),
                    }
                } else {
                    Err(ParseError::InvalidType)
                },
                Err(e) => Err(e),
            },
            SpecToken::ArrayKw => match parse_type_spec(ts, pos + 1) {
                Ok((a, p1)) => Ok((Type::Array(Box::new(a)), p1)),
                Err(e) => Err(e),
            },
            SpecToken::LinKw => match parse_type_spec(ts, pos + 1) {
                Ok((a, p1)) => Ok((Type::Lin(Box::new(a)), p1)),
                Err(e) => Err(e),
            },
            SpecToken::Ident(w) => match universe_level(w) {
                Some(n) => if n <= usize::MAX {
                    Ok((Type::Universe(n as usize), pos + 1))
                } else {
                    Err(ParseError::InvalidType)
                },
                None => Err(ParseError::InvalidType),
            },
            SpecToken::LParen => match parse_type_spec(ts, pos + 1) {
                Ok((t1, p1)) => if advances(ts, pos, p1) && token_is(ts, p1, SpecToken::Arrow) {
                    match parse_type_spec(ts, p1 + 1) {
                        Ok((t2, p2)) => if token_is(ts, p2, SpecToken::RParen) {
                            Ok((Type::Func(Box::new(t1), Box::new(t2)), p2 + 1))
                        } else {
                            Err(ParseError::BadFunctionType)
                        },
                        Err(e) => Err(e),
                    }
                } else {
                    Err(ParseError::BadFunctionType)
                },
                Err(e) => Err(e),
            },
            _ => Err(ParseError::InvalidType),
        }
    }
}

/// The level of a universe name `Type_n`: the value of the decimal digits
/// after `Type_`, where the word has that form.
pub open spec fn universe_level(w: Seq<char>) -> Option<nat> {
    if w.len() > 5 && w.subrange(0, 5) == "Type_"@ && forall|i: int|
        5 <= i < w.len() ==> is_digit(#[trigger] w[i]) {
        Some(digits_value(w.subrange(5, w.len() as int)) as nat)
    } else {
        None
    }
}

/// The tokens that can begin a primary expression, and so an argument of an application.
pub open spec fn starts_primary(t: SpecToken) -> bool {
    t is Int || t is Ident || t is LParen || t is MkPair || t is Left || t is Right
        || t is ArrayAlloc || t is ArraySwap
}

/// An expression: a lambda, an `unpack`, a `match`, or a sum of applications.
pub open spec fn parse_expr_spec(ts: Seq<SpecToken>, pos: int) -> Result<(SpecExpr, int), ParseError>
    decreases ts.len() - pos, 4nat,
{
    if 0 <= pos < ts.len() && ts[pos] is Lambda {
        if !(0 <= pos + 1 < ts.len() && ts[pos + 1] is Ident) {
            Err(ParseError::ExpectedIdentifier)
        } else if !token_is(ts, pos + 2, SpecToken::Colon) {
            Err(ParseError::ExpectedColon)
        } else {
            match parse_type_spec(ts, pos + 3) {
                Ok((pt, p1)) => if !token_is(ts, p1, SpecToken::Dot) {
                    Err(ParseError::ExpectedDot)
                } else if p1 < pos {
                    Err(ParseError::ExpectedDot)
                } else {
                    match parse_expr_spec(ts, p1 + 1) {
                        Ok((body, p2)) => Ok(
                            (
                                SpecExpr::Lambda {
                                    param: ts[pos + 1]->Ident_0,
                                    param_type: pt,
                                    body: Box::new(body),
                                },
                                p2,
                            ),
                        ),
                        Err(e) => Err(e),
                    }
                },
                Err(e) => Err(e),
            }
        }
    } else if 0 <= pos < ts.len() && ts[pos] is Unpack {
        match parse_expr_spec(ts, pos + 1) {
            Ok((pair, p1)) => if !token_is(ts, p1, SpecToken::IntoKw) {
                Err(ParseError::ExpectedInto)
            } else if !(p1 + 1 < ts.len() && ts[p1 + 1] is Ident) {
                Err(ParseError::ExpectedVar1)
            } else if !token_is(ts, p1 + 2, SpecToken::Comma) {
                Err(ParseError::ExpectedComma)
            } else if !(p1 + 3 < ts.len() && ts[p1 + 3] is Ident) {
                Err(ParseError::ExpectedVar2)
            } else if !token_is(ts, p1 + 4, SpecToken::InKw) {
                Err(ParseError::ExpectedIn)
            } else if p1 < pos {
                Err(ParseError::ExpectedIn)
            } else {
                match parse_expr_spec(ts, p1 + 5) {
                    Ok((body, p2)) => Ok(
                        (
                            SpecExpr::Unpack {
                                pair: Box::new(pair),
                                var1: ts[p1 + 1]->Ident_0,
                                var2: ts[p1 + 3]->Ident_0,
                                body: Box::new(body),
                            },
                            p2,
                        ),
                    ),
                    Err(e) => Err(e),
                }
            },
            Err(e) => Err(e),
        }
    } else if 0 <= pos < ts.len() && ts[pos] is Split {
        match parse_expr_spec(ts, pos + 1) {
            Ok((pair, p1)) => if !token_is(ts, p1, SpecToken::IntoKw) {
                Err(ParseError::ExpectedInto)
            } else if !(p1 + 1 < ts.len() && ts[p1 + 1] is Ident) {
                Err(ParseError::ExpectedVar1)
            } else if !token_is(ts, p1 + 2, SpecToken::Comma) {
                Err(ParseError::ExpectedComma)
            } else if !(p1 + 3 < ts.len() && ts[p1 + 3] is Ident) {
                Err(ParseError::ExpectedVar2)
            } else if !token_is(ts, p1 + 4, SpecToken::InKw) {
                Err(ParseError::ExpectedIn)
            } else if p1 < pos {
                Err(ParseError::ExpectedIn)
            } else {
                match parse_expr_spec(ts, p1 + 5) {
                    Ok((body, p2)) => Ok(
                        (
                            SpecExpr::Split {
                                value: Box::new(pair),
                                var1: ts[p1 + 1]->Ident_0,
                                var2: ts[p1 + 3]->Ident_0,
                                body: Box::new(body),
                            },
                            p2,
                        ),
                    ),
                    Err(e) => Err(e),
                }
            },
            Err(e) => Err(e),
        }
    } else if 0 <= pos < ts.len() && ts[pos] is Merge {
        if !(pos + 1 < ts.len() && ts[pos + 1] is Ident) {
            Err(ParseError::ExpectedIdentifier)
        } else if !token_is(ts, pos + 2, SpecToken::And) {
            Err(ParseError::ExpectedAnd)
        } else if !(pos + 3 < ts.len() && ts[pos + 3] is Ident) {
            Err(ParseError::ExpectedIdentifier)
        } else if !token_is(ts, pos + 4, SpecToken::IntoKw) {
            Err(ParseError::ExpectedInto)
        } else if !(pos + 5 < ts.len() && ts[pos + 5] is Ident) {
            Err(ParseError::ExpectedIdentifier)
        } else if !token_is(ts, pos + 6, SpecToken::InKw) {
            Err(ParseError::ExpectedIn)
        } else {
            match parse_expr_spec(ts, pos + 7) {
                Ok((body, p1)) => Ok(
                    (
                        SpecExpr::Merge {
                            left: ts[pos + 1]->Ident_0,
                            right: ts[pos + 3]->Ident_0,
                            var: ts[pos + 5]->Ident_0,
                            body: Box::new(body),
                        },
                        p1,
                    ),
                ),
                Err(e) => Err(e),
            }
        }
    } else if 0 <= pos < ts.len() && ts[pos] is Match {
        match parse_expr_spec(ts, pos + 1) {
            Ok((scrutinee, p1)) => if !token_is(ts, p1, SpecToken::With) {
                Err(ParseError::ExpectedWith)
            } else if !token_is(ts, p1 + 1, SpecToken::Left) {
                Err(ParseError::ExpectedLeft)
            } else if !(p1 + 2 < ts.len() && ts[p1 + 2] is Ident) {
                Err(ParseError::ExpectedLeftVar)
            } else if !token_is(ts, p1 + 3, SpecToken::EqualGreater) {
                Err(ParseError::ExpectedFatArrow)
            } else if p1 < pos {
                Err(ParseError::ExpectedFatArrow)
            } else {
                match parse_expr_spec(ts, p1 + 4) {
                    Ok((left_body, p2)) => if !token_is(ts, p2, SpecToken::Pipe) {
                        Err(ParseError::ExpectedPipe)
                    } else if !token_is(ts, p2 + 1, SpecToken::Right) {
                        Err(ParseError::ExpectedRight)
                    } else if !(p2 + 2 < ts.len() && ts[p2 + 2] is Ident) {
                        Err(ParseError::ExpectedRightVar)
                    } else if !token_is(ts, p2 + 3, SpecToken::EqualGreater) {
                        Err(ParseError::ExpectedFatArrow)
                    } else if p2 < pos {
                        Err(ParseError::ExpectedFatArrow)
                    } else {
                        match parse_expr_spec(ts, p2 + 4) {
                            Ok((right_body, p3)) => Ok(
                                (
                                    SpecExpr::Match {
                                        expr: Box::new(scrutinee),
                                        left_var: ts[p1 + 2]->Ident_0,
                                        left_body: Box::new(left_body),
                                        right_var: ts[p2 + 2]->Ident_0,
                                        right_body: Box::new(right_body),
                                    },
                                    p3,
                                ),
                            ),
                            Err(e) => Err(e),
                        }
                    },
                    Err(e) => Err(e),
                }
            },
            Err(e) => Err(e),
        }
    } else {
        parse_add_sub_spec(ts, pos)
    }
}

/// Applications joined by `+` and `-`, grouped to the left.
pub open spec fn parse_add_sub_spec(ts: Seq<SpecToken>, pos: int) -> Result<(SpecExpr, int), ParseError>
    decreases ts.len() - pos, 3nat,
{
    match parse_app_spec(ts, pos) {
        Ok((left, p1)) => if advances(ts, pos, p1) {
            add_sub_rest(ts, p1, left)
        } else {
            Err(ParseError::UnexpectedToken)
        },
        Err(e) => Err(e),
    }
}

/// The rest of a sum from `pos`, with `left` parsed before it.
pub open spec fn add_sub_rest(ts: Seq<SpecToken>, pos: int, left: SpecExpr) -> Result<
    (SpecExpr, int),
    ParseError,
>
    decreases ts.len() - pos, 1nat,
{
    if token_is(ts, pos, SpecToken::Plus) || token_is(ts, pos, SpecToken::Minus) {
        match parse_app_spec(ts, pos + 1) {
            Ok((right, p1)) => if advances(ts, pos, p1) {
                let combined = if ts[pos] is Plus {
                    SpecExpr::Add(Box::new(left), Box::new(right))
                } else {
                    SpecExpr::Sub(Box::new(left), Box::new(right))
                };
                add_sub_rest(ts, p1, combined)
            } else {
                Err(ParseError::UnexpectedToken)
            },
            Err(e) => Err(e),
        }
    } else {
        Ok((left, pos))
    }
}

/// Primary expressions applied in sequence, grouped to the left.
pub open spec fn parse_app_spec(ts: Seq<SpecToken>, pos: int) -> Result<(SpecExpr, int), ParseError>
    decreases ts.len() - pos, 2nat,
{
    match parse_primary_spec(ts, pos) {
        Ok((left, p1)) => if advances(ts, pos, p1) {
            app_rest(ts, p1, left)
        } else {
            Err(ParseError::UnexpectedToken)
        },
        Err(e) => Err(e),
    }
}

/// The rest of an application from `pos`, with the function part `left` parsed before it.
pub open spec fn app_rest(ts: Seq<SpecToken>, pos: int, left: SpecExpr) -> Result<
    (SpecExpr, int),
    ParseError,
>
    decreases ts.len() - pos, 1nat,
{
    if 0 <= pos < ts.len() && starts_primary(ts[pos]) {
        match parse_primary_spec(ts, pos) {
            Ok((right, p1)) => if advances(ts, pos, p1) {
                app_rest(ts, p1, SpecExpr::App { func: Box::new(left), arg: Box::new(right) })
            } else {
                Err(ParseError::UnexpectedToken)
            },
            Err(e) => Err(e),
        }
    } else {
        Ok((left, pos))
    }
}

/// A literal, a variable, a parenthesized expression, or a construct with a
/// keyword in front: `mkpair`, `Left`, `Right`, `array_alloc`, `array_swap`.
pub open spec fn parse_primary_spec(ts: Seq<SpecToken>, pos: int) -> Result<(SpecExpr, int), ParseError>
    decreases ts.len() - pos, 0nat,
{
    if pos < 0 || pos >= ts.len() {
        Err(ParseError::UnexpectedToken)
    } else {
        match ts[pos] {
            SpecToken::Int(n) => Ok((SpecExpr::IntLiteral(n), pos + 1)),
            SpecToken::Ident(x) => Ok((SpecExpr::Variable(x), pos + 1)),
            SpecToken::LParen => match parse_expr_spec(ts, pos + 1) {
                Ok((e, p1)) => if token_is(ts, p1, SpecToken::RParen) {
                    Ok((e, p1 + 1))
                } else {
                    Err(ParseError::ExpectedRParen)
                },
                Err(e) => Err(e),
            },
            SpecToken::MkPair => match parse_primary_spec(ts, pos + 1) {
                Ok((a, p1)) => if advances(ts, pos, p1) {
                    match parse_primary_spec(ts, p1) {
                        Ok((b, p2)) => Ok((SpecExpr::MkPair(Box::new(a), Box::new(b)), p2)),
                        Err(e) => Err(e),
                    }
                } else {
                    Err(ParseError::UnexpectedToken)
                },
                Err(e) => Err(e),
            },
            SpecToken::Left => match parse_type_spec(ts, pos + 1) {
                Ok((ty, p1)) => if advances(ts, pos, p1) {
                    match parse_primary_spec(ts, p1) {
                        Ok((e, p2)) => Ok((SpecExpr::Left(Box::new(e), ty), p2)),
                        Err(e) => Err(e),
                    }
                } else {
                    Err(ParseError::UnexpectedToken)
                },
                Err(e) => Err(e),
            },
            SpecToken::Right => match parse_type_spec(ts, pos + 1) {
                Ok((ty, p1)) => if advances(ts, pos, p1) {
                    match parse_primary_spec(ts, p1) {
                        Ok((e, p2)) => Ok((SpecExpr::Right(Box::new(e), ty), p2)),
                        Err(e) => Err(e),
                    }
                } else {
                    Err(ParseError::UnexpectedToken)
                },
                Err(e) => Err(e),
            },
            SpecToken::ArrayAlloc => match parse_primary_spec(ts, pos + 1) {
                Ok((size, p1)) => if advances(ts, pos, p1) {
                    match parse_primary_spec(ts, p1) {
                        Ok((init, p2)) => Ok(
                            (
                                SpecExpr::ArrayAlloc {
                                    size: Box::new(size),
                                    init_val: Box::new(init),
                                },
                                p2,
                            ),
                        ),
                        Err(e) => Err(e),
                    }
                } else {
                    Err(ParseError::UnexpectedToken)
                },
                Err(e) => Err(e),
            },
            SpecToken::ArraySwap => match parse_primary_spec(ts, pos + 1) {
                Ok((array, p1)) => if advances(ts, pos, p1) {
                    match parse_primary_spec(ts, p1) {
                        Ok((index, p2)) => if advances(ts, pos, p2) {
                            match parse_primary_spec(ts, p2) {
                                Ok((new_val, p3)) => Ok(
                                    (
                                        SpecExpr::ArraySwap {
                                            array: Box::new(array),
                                            index: Box::new(index),
                                            new_val: Box::new(new_val),
                                        },
                                        p3,
                                    ),
                                ),
                                Err(e) => Err(e),
                            }
                        } else {
                            Err(ParseError::UnexpectedToken)
                        },
                        Err(e) => Err(e),
                    }
                } else {
                    Err(ParseError::UnexpectedToken)
                },
                Err(e) => Err(e),
            },
            _ => Err(ParseError::UnexpectedToken),
        }
    }
}

/// Every primary expression after a function part is an argument: where a
/// primary parses at `pos` (ending within the tokens), the application goes on
/// with it applied to what was parsed before.
pub proof fn lemma_primary_continues_app(ts: Seq<SpecToken>, pos: int, left: SpecExpr)
    requires
        parse_primary_spec(ts, pos) matches Ok((arg, p1)) && pos < p1 <= ts.len(),
    ensures
        app_rest(ts, pos, left) == app_rest(
            ts,
            parse_primary_spec(ts, pos)->Ok_0.1,
            SpecExpr::App {
                func: Box::new(left),
                arg: Box::new(parse_primary_spec(ts, pos)->Ok_0.0),
            },
        ),
{
    assert(0 <= pos < ts.len());
    assert(starts_primary(ts[pos])) by {
        match ts[pos] {
            SpecToken::Int(_) | SpecToken::Ident(_) | SpecToken::LParen | SpecToken::MkPair
            | SpecToken::Left | SpecToken::Right | SpecToken::ArrayAlloc | SpecToken::ArraySwap => {},
            _ => {
                assert(parse_primary_spec(ts, pos) is Err);
            },
        }
    }
}

/// Sums and differences group to the left: after `left`, a `+` or a `-`
/// followed by an application makes the sum or the difference of `left` and
/// it, which is then the left side of what follows; any other token ends the
/// sum.
pub proof fn lemma_operator_continues_sum(ts: Seq<SpecToken>, pos: int, left: SpecExpr)
    ensures
        0 <= pos < ts.len() && (ts[pos] is Plus || ts[pos] is Minus) && (parse_app_spec(ts, pos + 1) matches Ok(
            (right, p1),
        ) && pos < p1 <= ts.len()) ==> add_sub_rest(ts, pos, left) == add_sub_rest(
            ts,
            parse_app_spec(ts, pos + 1)->Ok_0.1,
            if ts[pos] is Plus {
                SpecExpr::Add(Box::new(left), Box::new(parse_app_spec(ts, pos + 1)->Ok_0.0))
            } else {
                SpecExpr::Sub(Box::new(left), Box::new(parse_app_spec(ts, pos + 1)->Ok_0.0))
            },
        ),
        !(0 <= pos < ts.len() && (ts[pos] is Plus || ts[pos] is Minus)) ==> add_sub_rest(ts, pos, left)
            == Ok::<(SpecExpr, int), ParseError>((left, pos)),
{
}

/// A name followed by a primary expression is the application of the name to
/// it: parsing an application at a name whose next tokens parse as a primary
/// applies the name to that primary, then goes on.
pub proof fn lemma_name_applied(ts: Seq<SpecToken>, pos: int)
    requires
        0 <= pos < ts.len(),
        ts[pos] is Ident,
        parse_primary_spec(ts, pos + 1) matches Ok((arg, p1)) && pos + 1 < p1 <= ts.len(),
    ensures
        parse_app_spec(ts, pos) == app_rest(
            ts,
            parse_primary_spec(ts, pos + 1)->Ok_0.1,
            SpecExpr::App {
                func: Box::new(SpecExpr::Variable(ts[pos]->Ident_0)),
                arg: Box::new(parse_primary_spec(ts, pos + 1)->Ok_0.0),
            },
        ),
{
    lemma_primary_continues_app(ts, pos + 1, SpecExpr::Variable(ts[pos]->Ident_0));
}

/// The expression a token sequence parses to: the leading expression, with
/// any tokens after it left unread.
pub open spec fn parse_tokens_spec(ts: Seq<SpecToken>) -> Result<SpecExpr, ParseError> {
    if ts.len() == 0 {
        Err(ParseError::EmptyFile)
    } else {
        match parse_expr_spec(ts, 0) {
            Ok((e, _)) => Ok(e),
            Err(e) => Err(e),
        }
    }
}

/// An executable result of parsing a type stands for the specified one.
pub open spec fn type_parse_matches(
    r: Result<(Type, usize), String>,
    s: Result<(Type, int), ParseError>,
) -> bool {
    match (r, s) {
        (Ok((t, p)), Ok((st, sp))) => t == st && p == sp,
        (Err(m), Err(e)) => m@ == e.message(),
        _ => false,
    }
}

/// An executable result of parsing an expression stands for the specified one.
pub open spec fn expr_parse_matches(
    r: Result<(Expr, usize), String>,
    s: Result<(SpecExpr, int), ParseError>,
) -> bool {
    match (r, s) {
        (Ok((e, p)), Ok((se, sp))) => e@ == se && p == sp,
        (Err(m), Err(e)) => m@ == e.message(),
        _ => false,
    }
}

/// The source text and the parser over it.
pub struct Parser<'a> {
    input: &'a str,
}

impl<'a> Parser<'a> {
    /// The text being parsed.
    pub closed spec fn source(&self) -> Seq<char> {
        self.input@
    }

    pub fn new(input: &'a str) -> (r: Self)
        ensures
            r.source() == input@,
    {
        Parser { input }
    }

    /// Whether every integer literal of the source fits in `i64`. Parsing
    /// a source with a literal that does not is outside what `parse` accepts.
    pub fn literals_fit(&self) -> (r: bool)
        ensures
            r == (lex_spec(self.source()) is Some),
    {
        let cs = chars_of(self.input);
        lex_chars(&cs).is_some()
    }

    /// The tokens of the source.
    fn lex(&self) -> (r: Vec<Token>)
        requires
            lex_spec(self.source()) is Some,
        ensures
            lex_spec(self.source()) == Some(tokens_view(r@)),
    {
        let cs = chars_of(self.input);
        match lex_chars(&cs) {
            Some(ts) => ts,
            None => {
                proof {
                    assert(false);
                }
                Vec::new()
            },
        }
    }

    /// Parses the source: the leading expression of its tokens, or the message
    /// of the first error met.
    pub fn parse(&mut self) -> (r: Result<Expr, String>)
        requires
            lex_spec(old(self).source()) is Some,
        ensures
            final(self).source() == old(self).source(),
            match (r, parse_tokens_spec(lex_spec(old(self).source())->Some_0)) {
                (Ok(e), Ok(se)) => e@ == se,
                (Err(m), Err(err)) => m@ == err.message(),
                _ => false,
            },
    {
        let tokens = self.lex();
        self.parse_tokens(&tokens)
    }

    /// Parses a sequence of tokens: the leading expression, or the message of
    /// the first error met.
    pub fn parse_tokens(&self, tokens: &Vec<Token>) -> (r: Result<Expr, String>)
        ensures
            match (r, parse_tokens_spec(tokens_view(tokens@))) {
                (Ok(e), Ok(se)) => e@ == se,
                (Err(m), Err(err)) => m@ == err.message(),
                _ => false,
            },
    {
        if tokens.len() == 0 {
            return Err(String::from_str("Empty file"));
        }
        match self.parse_expr(tokens, 0) {
            Ok((e, _)) => Ok(e),
            Err(m) => Err(m),
        }
    }

    /// Parses the source where every integer literal fits in `i64`: `None`
    /// where one does not, else what `parse` gives.
    pub fn parse_checked(&mut self) -> (r: Option<Result<Expr, String>>)
        ensures
            final(self).source() == old(self).source(),
            r is None <==> lex_spec(old(self).source()) is None,
            match (r, lex_spec(old(self).source())) {
                (Some(Ok(e)), Some(ts)) => parse_tokens_spec(ts) matches Ok(se) && e@ == se,
                (Some(Err(m)), Some(ts)) => parse_tokens_spec(ts) matches Err(err) && m@
                    == err.message(),
                _ => true,
            },
    {
        if self.literals_fit() {
            Some(self.parse())
        } else {
            None
        }
    }

    fn parse_type(&self, toks: &Vec<Token>, pos: usize) -> (r: Result<(Type, usize), String>)
        requires
            pos <= toks@.len(),
        ensures
            type_parse_matches(r, parse_type_spec(tokens_view(toks@), pos as int)),
            r matches Ok((_, p)) ==> pos < p <= toks@.len(),
        decreases toks@.len() - pos,
    {
        if pos >= toks.len() {
            return Err(String::from_str("Invalid Type"));
        }
        match &toks[pos] {
            Token::IntKw => Ok((Type::Int, pos + 1)),
            Token::PairKw => {
                let (a, p1) = match self.parse_type(toks, pos + 1) {
                    Ok(x) => x,
                    Err(e) => return Err(e),
                };
                let (b, p2) = match self.parse_type(toks, p1) {
                    Ok(x) => x,
                    Err(e) => return Err(e),
                };
                Ok((Type::Pair(Box::new(a), Box::new(b)), p2))
            },
            Token::EitherKw => {
                let (a, p1) = match self.parse_type(toks, pos + 1) {
                    Ok(x) => x,
                    Err(e) => return Err(e),
                };
                let (b, p2) = match self.parse_type(toks, p1) {
                    Ok(x) => x,
                    Err(e) => return Err(e),
                };
                Ok((Type::Either(Box::new(a), Box::new(b)), p2))
            },
            Token::ArrayKw => {
                let (a, p1) = match self.parse_type(toks, pos + 1) {
                    Ok(x) => x,
                    Err(e) => return Err(e),
                };
                Ok((Type::Array(Box::new(a)), p1))
            },
            Token::LinKw => {
                let (a, p1) = match self.parse_type(toks, pos + 1) {
                    Ok(x) => x,
                    Err(e) => return Err(e),
                };
                Ok((Type::Lin(Box::new(a)), p1))
            },
            Token::Ident(w) => match universe_level_of(w) {
                Some(n) => Ok((Type::Universe(n), pos + 1)),
                None => Err(String::from_str("Invalid Type")),
            },
            Token::LParen => {
                let (t1, p1) = match self.parse_type(toks, pos + 1) {
                    Ok(x) => x,
                    Err(e) => return Err(e),
                };
                if p1 < toks.len() && matches!(toks[p1], Token::Arrow) {
                    let (t2, p2) = match self.parse_type(toks, p1 + 1) {
                        Ok(x) => x,
                        Err(e) => return Err(e),
                    };
                    if p2 < toks.len() && matches!(toks[p2], Token::RParen) {
                        return Ok((Type::Func(Box::new(t1), Box::new(t2)), p2 + 1));
                    }
                }
                Err(String::from_str("Expected function type format: (Type -> Type)"))
            },
            _ => Err(String::from_str("Invalid Type")),
        }
    }

    fn parse_expr(&self, toks: &Vec<Token>, pos: usize) -> (r: Result<(Expr, usize), String>)
        requires
            pos <= toks@.len(),
        ensures
            expr_parse_matches(r, parse_expr_spec(tokens_view(toks@), pos as int)),
            r matches Ok((_, p)) ==> pos < p <= toks@.len(),
        decreases toks@.len() - pos, 4nat,
    {
        if pos < toks.len() {
            match &toks[pos] {
                Token::Lambda => return self.parse_lambda(toks, pos),
                Token::Unpack => return self.parse_unpack(toks, pos),
                Token::Split => return self.parse_split(toks, pos),
                Token::Merge => return self.parse_merge(toks, pos),
                Token::Match => return self.parse_match(toks, pos),
                _ => {},
            }
        }
        self.parse_add_sub(toks, pos)
    }

    /// `\x : T . body`
    fn parse_lambda(&self, toks: &Vec<Token>, pos: usize) -> (r: Result<(Expr, usize), String>)
        requires
            pos < toks@.len(),
            toks@[pos as int] is Lambda,
        ensures
            expr_parse_matches(r, parse_expr_spec(tokens_view(toks@), pos as int)),
            r matches Ok((_, p)) ==> pos < p <= toks@.len(),
        decreases toks@.len() - pos, 3nat,
    {
        let n = toks.len();
        let param = if pos + 1 < toks.len() {
            match &toks[pos + 1] {
                Token::Ident(name) => name.clone(),
                _ => return Err(String::from_str("Expected identifier")),
            }
        } else {
            return Err(String::from_str("Expected identifier"));
        };
        if !(pos + 2 < toks.len() && matches!(toks[pos + 2], Token::Colon)) {
            return Err(String::from_str("Expected ':'"));
        }
        let (param_type, p1) = match self.parse_type(toks, pos + 3) {
            Ok(x) => x,
            Err(e) => return Err(e),
        };
        if !(p1 < toks.len() && matches!(toks[p1], Token::Dot)) {
            return Err(String::from_str("Expected '.'"));
        }
        let (body, p2) = match self.parse_expr(toks, p1 + 1) {
            Ok(x) => x,
            Err(e) => return Err(e),
        };
        Ok((Expr::Lambda { param, param_type, body: Box::new(body) }, p2))
    }

    /// `unpack pair into x, y in body`
    fn parse_unpack(&self, toks: &Vec<Token>, pos: usize) -> (r: Result<(Expr, usize), String>)
        requires
            pos < toks@.len(),
            toks@[pos as int] is Unpack,
        ensures
            expr_parse_matches(r, parse_expr_spec(tokens_view(toks@), pos as int)),
            r matches Ok((_, p)) ==> pos < p <= toks@.len(),
        decreases toks@.len() - pos, 3nat,
    {
        let n = toks.len();
        let (pair, p1) = match self.parse_expr(toks, pos + 1) {
            Ok(x) => x,
            Err(e) => return Err(e),
        };
        if !(p1 < toks.len() && matches!(toks[p1], Token::IntoKw)) {
            return Err(String::from_str("Expected 'into'"));
        }
        let var1 = if p1 + 1 < toks.len() {
            match &toks[p1 + 1] {
                Token::Ident(n) => n.clone(),
                _ => return Err(String::from_str("Expected var1")),
            }
        } else {
            return Err(String::from_str("Expected var1"));
        };
        if !(p1 + 2 < toks.len() && matches!(toks[p1 + 2], Token::Comma)) {
            return Err(String::from_str("Expected ','"));
        }
        let var2 = if p1 + 3 < toks.len() {
            match &toks[p1 + 3] {
                Token::Ident(n) => n.clone(),
                _ => return Err(String::from_str("Expected var2")),
            }
        } else {
            return Err(String::from_str("Expected var2"));
        };
        if !(p1 + 4 < toks.len() && matches!(toks[p1 + 4], Token::InKw)) {
            return Err(String::from_str("Expected 'in'"));
        }
        let (body, p2) = match self.parse_expr(toks, p1 + 5) {
            Ok(x) => x,
            Err(e) => return Err(e),
        };
        Ok((Expr::Unpack { pair: Box::new(pair), var1, var2, body: Box::new(body) }, p2))
    }

    /// `split x into a, b in body`
    fn parse_split(&self, toks: &Vec<Token>, pos: usize) -> (r: Result<(Expr, usize), String>)
        requires
            pos < toks@.len(),
            toks@[pos as int] is Split,
        ensures
            expr_parse_matches(r, parse_expr_spec(tokens_view(toks@), pos as int)),
            r matches Ok((_, p)) ==> pos < p <= toks@.len(),
        decreases toks@.len() - pos, 3nat,
    {
        let n = toks.len();
        let (pair, p1) = match self.parse_expr(toks, pos + 1) {
            Ok(x) => x,
            Err(e) => return Err(e),
        };
        if !(p1 < toks.len() && matches!(toks[p1], Token::IntoKw)) {
            return Err(String::from_str("Expected 'into'"));
        }
        let var1 = if p1 + 1 < toks.len() {
            match &toks[p1 + 1] {
                Token::Ident(n) => n.clone(),
                _ => return Err(String::from_str("Expected var1")),
            }
        } else {
            return Err(String::from_str("Expected var1"));
        };
        if !(p1 + 2 < toks.len() && matches!(toks[p1 + 2], Token::Comma)) {
            return Err(String::from_str("Expected ','"));
        }
        let var2 = if p1 + 3 < toks.len() {
            match &toks[p1 + 3] {
                Token::Ident(n) => n.clone(),
                _ => return Err(String::from_str("Expected var2")),
            }
        } else {
            return Err(String::from_str("Expected var2"));
        };
        if !(p1 + 4 < toks.len() && matches!(toks[p1 + 4], Token::InKw)) {
            return Err(String::from_str("Expected 'in'"));
        }
        let (body, p2) = match self.parse_expr(toks, p1 + 5) {
            Ok(x) => x,
            Err(e) => return Err(e),
        };
        Ok((Expr::Split { value: Box::new(pair), var1, var2, body: Box::new(body) }, p2))
    }

    /// `merge a and b into c in body`
    fn parse_merge(&self, toks: &Vec<Token>, pos: usize) -> (r: Result<(Expr, usize), String>)
        requires
            pos < toks@.len(),
            toks@[pos as int] is Merge,
        ensures
            expr_parse_matches(r, parse_expr_spec(tokens_view(toks@), pos as int)),
            r matches Ok((_, p)) ==> pos < p <= toks@.len(),
        decreases toks@.len() - pos, 3nat,
    {
        let n = toks.len();
        let left = if pos + 1 < n {
            match &toks[pos + 1] {
                Token::Ident(n) => n.clone(),
                _ => return Err(String::from_str("Expected identifier")),
            }
        } else {
            return Err(String::from_str("Expected identifier"));
        };
        if !(pos + 2 < toks.len() && matches!(toks[pos + 2], Token::And)) {
            return Err(String::from_str("Expected 'and'"));
        }
        let right = if pos + 3 < toks.len() {
            match &toks[pos + 3] {
                Token::Ident(n) => n.clone(),
                _ => return Err(String::from_str("Expected identifier")),
            }
        } else {
            return Err(String::from_str("Expected identifier"));
        };
        if !(pos + 4 < toks.len() && matches!(toks[pos + 4], Token::IntoKw)) {
            return Err(String::from_str("Expected 'into'"));
        }
        let var = if pos + 5 < toks.len() {
            match &toks[pos + 5] {
                Token::Ident(n) => n.clone(),
                _ => return Err(String::from_str("Expected identifier")),
            }
        } else {
            return Err(String::from_str("Expected identifier"));
        };
        if !(pos + 6 < toks.len() && matches!(toks[pos + 6], Token::InKw)) {
            return Err(String::from_str("Expected 'in'"));
        }
        let (body, p1) = match self.parse_expr(toks, pos + 7) {
            Ok(x) => x,
            Err(e) => return Err(e),
        };
        Ok((Expr::Merge { left, right, var, body: Box::new(body) }, p1))
    }

    /// `match e with Left x => a | Right y => b`
    fn parse_match(&self, toks: &Vec<Token>, pos: usize) -> (r: Result<(Expr, usize), String>)
        requires
            pos < toks@.len(),
            toks@[pos as int] is Match,
        ensures
            expr_parse_matches(r, parse_expr_spec(tokens_view(toks@), pos as int)),
            r matches Ok((_, p)) ==> pos < p <= toks@.len(),
        decreases toks@.len() - pos, 3nat,
    {
        let n = toks.len();
        let (scrutinee, p1) = match self.parse_expr(toks, pos + 1) {
            Ok(x) => x,
            Err(e) => return Err(e),
        };
        if !(p1 < toks.len() && matches!(toks[p1], Token::With)) {
            return Err(String::from_str("Expected 'with'"));
        }
        if !(p1 + 1 < toks.len() && matches!(toks[p1 + 1], Token::Left)) {
            return Err(String::from_str("Expected 'Left'"));
        }
        let left_var = if p1 + 2 < toks.len() {
            match &toks[p1 + 2] {
                Token::Ident(n) => n.clone(),
                _ => return Err(String::from_str("Expected left var")),
            }
        } else {
            return Err(String::from_str("Expected left var"));
        };
        if !(p1 + 3 < toks.len() && matches!(toks[p1 + 3], Token::EqualGreater)) {
            return Err(String::from_str("Expected '=>'"));
        }
        let (left_body, p2) = match self.parse_expr(toks, p1 + 4) {
            Ok(x) => x,
            Err(e) => return Err(e),
        };
        if !(p2 < toks.len() && matches!(toks[p2], Token::Pipe)) {
            return Err(String::from_str("Expected '|'"));
        }
        if !(p2 + 1 < toks.len() && matches!(toks[p2 + 1], Token::Right)) {
            return Err(String::from_str("Expected 'Right'"));
        }
        let right_var = if p2 + 2 < toks.len() {
            match &toks[p2 + 2] {
                Token::Ident(n) => n.clone(),
                _ => return Err(String::from_str("Expected right var")),
            }
        } else {
            return Err(String::from_str("Expected right var"));
        };
        if !(p2 + 3 < toks.len() && matches!(toks[p2 + 3], Token::EqualGreater)) {
            return Err(String::from_str("Expected '=>'"));
        }
        let (right_body, p3) = match self.parse_expr(toks, p2 + 4) {
            Ok(x) => x,
            Err(e) => return Err(e),
        };
        Ok(
            (
                Expr::Match {
                    expr: Box::new(scrutinee),
                    left_var,
                    left_body: Box::new(left_body),
                    right_var,
                    right_body: Box::new(right_body),
                },
                p3,
            ),
        )
    }

    #[verifier::rlimit(50)]
    fn parse_add_sub(&self, toks: &Vec<Token>, pos: usize) -> (r: Result<(Expr, usize), String>)
        requires
            pos <= toks@.len(),
        ensures
            expr_parse_matches(r, parse_add_sub_spec(tokens_view(toks@), pos as int)),
            r matches Ok((_, p)) ==> pos < p <= toks@.len(),
        decreases toks@.len() - pos, 3nat,
    {
        let ghost ts = tokens_view(toks@);
        let (mut left, mut p) = match self.parse_app(toks, pos) {
            Ok(x) => x,
            Err(e) => return Err(e),
        };
        while p < toks.len() && (matches!(toks[p], Token::Plus) || matches!(toks[p], Token::Minus))
            invariant
                ts == tokens_view(toks@),
                pos < p <= toks@.len(),
                parse_add_sub_spec(ts, pos as int) == add_sub_rest(ts, p as int, left@),
            decreases toks@.len() - p,
        {
            let is_plus = matches!(toks[p], Token::Plus);
            let ghost old_left = left@;
            let (right, p1) = match self.parse_app(toks, p + 1) {
                Ok(x) => x,
                Err(e) => {
                    assert(add_sub_rest(ts, p as int, old_left) == Err::<(SpecExpr, int), ParseError>(
                        parse_app_spec(ts, p + 1)->Err_0,
                    ));
                    return Err(e);
                },
            };
            left = if is_plus {
                Expr::Add(Box::new(left), Box::new(right))
            } else {
                Expr::Sub(Box::new(left), Box::new(right))
            };
            assert(add_sub_rest(ts, p as int, old_left) == add_sub_rest(ts, p1 as int, left@));
            p = p1;
        }
        Ok((left, p))
    }

    #[verifier::rlimit(80)]
    fn parse_app(&self, toks: &Vec<Token>, pos: usize) -> (r: Result<(Expr, usize), String>)
        requires
            pos <= toks@.len(),
        ensures
            expr_parse_matches(r, parse_app_spec(tokens_view(toks@), pos as int)),
            r matches Ok((_, p)) ==> pos < p <= toks@.len(),
        decreases toks@.len() - pos, 2nat,
    {
        let ghost ts = tokens_view(toks@);
        let (mut left, mut p) = match self.parse_primary(toks, pos) {
            Ok(x) => x,
            Err(e) => return Err(e),
        };
        // A token that can begin a primary expression makes an application.
        while p < toks.len() && (matches!(toks[p], Token::Int(_)) || matches!(toks[p], Token::Ident(_))
            || matches!(toks[p], Token::LParen) || matches!(toks[p], Token::MkPair)
            || matches!(toks[p], Token::Left) || matches!(toks[p], Token::Right)
            || matches!(toks[p], Token::ArrayAlloc) || matches!(toks[p], Token::ArraySwap))
            invariant
                ts == tokens_view(toks@),
                pos < p <= toks@.len(),
                parse_app_spec(ts, pos as int) == app_rest(ts, p as int, left@),
            decreases toks@.len() - p,
        {
            let (right, p1) = match self.parse_primary(toks, p) {
                Ok(x) => x,
                Err(e) => return Err(e),
            };
            left = Expr::App { func: Box::new(left), arg: Box::new(right) };
            p = p1;
        }
        Ok((left, p))
    }

    #[verifier::rlimit(80)]
    fn parse_primary(&self, toks: &Vec<Token>, pos: usize) -> (r: Result<(Expr, usize), String>)
        requires
            pos <= toks@.len(),
        ensures
            expr_parse_matches(r, parse_primary_spec(tokens_view(toks@), pos as int)),
            r matches Ok((_, p)) ==> pos < p <= toks@.len(),
        decreases toks@.len() - pos, 1nat,
    {
        if pos >= toks.len() {
            return Err(String::from_str("Unexpected token in primary expression"));
        }
        match &toks[pos] {
            Token::Int(n) => Ok((Expr::IntLiteral(*n), pos + 1)),
            Token::Ident(name) => Ok((Expr::Variable(name.clone()), pos + 1)),
            Token::LParen => {
                let (e, p1) = match self.parse_expr(toks, pos + 1) {
                    Ok(x) => x,
                    Err(e) => return Err(e),
                };
                if !(p1 < toks.len() && matches!(toks[p1], Token::RParen)) {
                    return Err(String::from_str("Expected ')'"));
                }
                Ok((e, p1 + 1))
            },
            Token::MkPair | Token::ArrayAlloc | Token::ArraySwap => self.parse_compound(toks, pos),
            Token::Left => {
                let (ty, p1) = match self.parse_type(toks, pos + 1) {
                    Ok(x) => x,
                    Err(e) => return Err(e),
                };
                let (e, p2) = match self.parse_primary(toks, p1) {
                    Ok(x) => x,
                    Err(e) => return Err(e),
                };
                Ok((Expr::Left(Box::new(e), ty), p2))
            },
            Token::Right => {
                let (ty, p1) = match self.parse_type(toks, pos + 1) {
                    Ok(x) => x,
                    Err(e) => return Err(e),
                };
                let (e, p2) = match self.parse_primary(toks, p1) {
                    Ok(x) => x,
                    Err(e) => return Err(e),
                };
                Ok((Expr::Right(Box::new(e), ty), p2))
            },
            _ => Err(String::from_str("Unexpected token in primary expression")),
        }
    }

    /// A pair, an allocation or a swap: a keyword and its primary operands.
    fn parse_compound(&self, toks: &Vec<Token>, pos: usize) -> (r: Result<(Expr, usize), String>)
        requires
            pos < toks@.len(),
            toks@[pos as int] is MkPair || toks@[pos as int] is ArrayAlloc || toks@[pos as int] is ArraySwap,
        ensures
            expr_parse_matches(r, parse_primary_spec(tokens_view(toks@), pos as int)),
            r matches Ok((_, p)) ==> pos < p <= toks@.len(),
        decreases toks@.len() - pos, 0nat,
    {
        let n = toks.len();
        match &toks[pos] {
            Token::MkPair => {
                let (a, p1) = match self.parse_primary(toks, pos + 1) {
                    Ok(x) => x,
                    Err(e) => return Err(e),
                };
                let (b, p2) = match self.parse_primary(toks, p1) {
                    Ok(x) => x,
                    Err(e) => return Err(e),
                };
                Ok((Expr::MkPair(Box::new(a), Box::new(b)), p2))
            },
            Token::ArrayAlloc => {
                let (size, p1) = match self.parse_primary(toks, pos + 1) {
                    Ok(x) => x,
                    Err(e) => return Err(e),
                };
                let (init_val, p2) = match self.parse_primary(toks, p1) {
                    Ok(x) => x,
                    Err(e) => return Err(e),
                };
                Ok((Expr::ArrayAlloc { size: Box::new(size), init_val: Box::new(init_val) }, p2))
            },
            Token::ArraySwap => {
                let (array, p1) = match self.parse_primary(toks, pos + 1) {
                    Ok(x) => x,
                    Err(e) => return Err(e),
                };
                let (index, p2) = match self.parse_primary(toks, p1) {
                    Ok(x) => x,
                    Err(e) => return Err(e),
                };
                let (new_val, p3) = match self.parse_primary(toks, p2) {
                    Ok(x) => x,
                    Err(e) => return Err(e),
                };
                Ok(
                    (
                        Expr::ArraySwap {
                            array: Box::new(array),
                            index: Box::new(index),
                            new_val: Box::new(new_val),
                        },
                        p3,
                    ),
                )
            },
            _ => Err(String::new()),
        }
    }
}

} // verus!
