//! The text of single tokens.
use vstd::prelude::*;
use vstd::string::*;

use crate::token::{is_word, token_is_word, SerializeError, TokenValue};
use pp_rs::token::Punct;

verus! {

/// The text of a punctuation kind. The spacing is part of the text, so that
/// the output reads back unambiguously whatever stands around it.
pub open spec fn punct_text(p: Punct) -> Seq<char> {
    match p {
        Punct::AddAssign => " += "@,
        Punct::SubAssign => " -= "@,
        Punct::MulAssign => " *= "@,
        Punct::DivAssign => " /= "@,
        Punct::ModAssign => " %= "@,
        Punct::LeftShiftAssign => " <<= "@,
        Punct::RightShiftAssign => " >>= "@,
        Punct::AndAssign => " &= "@,
        Punct::XorAssign => " ^= "@,
        Punct::OrAssign => " |= "@,
        Punct::Increment => " ++ "@,
        Punct::Decrement => " -- "@,
        Punct::LogicalAnd => " && "@,
        Punct::LogicalOr => " || "@,
        Punct::LogicalXor => " ^^ "@,
        Punct::LessEqual => " <= "@,
        Punct::GreaterEqual => " >= "@,
        Punct::EqualEqual => " == "@,
        Punct::NotEqual => " != "@,
        Punct::LeftShift => " << "@,
        Punct::RightShift => " >> "@,
        Punct::LeftBrace => "{"@,
        Punct::RightBrace => "}"@,
        Punct::LeftParen => "("@,
        Punct::RightParen => ")"@,
        Punct::LeftBracket => "["@,
        Punct::RightBracket => "]"@,
        Punct::LeftAngle => " < "@,
        Punct::RightAngle => " > "@,
        Punct::Semicolon => ";"@,
        Punct::Comma => ", "@,
        Punct::Colon => " : "@,
        Punct::Dot => "."@,
        Punct::Equal => " = "@,
        Punct::Bang => " !"@,
        Punct::Minus => " - "@,
        Punct::Tilde => " ~"@,
        Punct::Plus => " + "@,
        Punct::Star => " * "@,
        Punct::Slash => " / "@,
        Punct::Percent => " % "@,
        Punct::Pipe => " | "@,
        Punct::Caret => " ^ "@,
        Punct::Ampersand => " & "@,
        Punct::Question => " ? "@,
    }
}

/// The text of a punctuation kind, as `punct_text` gives it.
pub fn punct_str(p: &Punct) -> (r: &'static str)
    ensures
        r@ == punct_text(*p),
{
    match p {
        Punct::AddAssign => " += ",
        Punct::SubAssign => " -= ",
        Punct::MulAssign => " *= ",
        Punct::DivAssign => " /= ",
        Punct::ModAssign => " %= ",
        Punct::LeftShiftAssign => " <<= ",
        Punct::RightShiftAssign => " >>= ",
        Punct::AndAssign => " &= ",
        Punct::XorAssign => " ^= ",
        Punct::OrAssign => " |= ",
        Punct::Increment => " ++ ",
        Punct::Decrement => " -- ",
        Punct::LogicalAnd => " && ",
        Punct::LogicalOr => " || ",
        Punct::LogicalXor => " ^^ ",
        Punct::LessEqual => " <= ",
        Punct::GreaterEqual => " >= ",
        Punct::EqualEqual => " == ",
        Punct::NotEqual => " != ",
        Punct::LeftShift => " << ",
        Punct::RightShift => " >> ",
        Punct::LeftBrace => "{",
        Punct::RightBrace => "}",
        Punct::LeftParen => "(",
        Punct::RightParen => ")",
        Punct::LeftBracket => "[",
        Punct::RightBracket => "]",
        Punct::LeftAngle => " < ",
        Punct::RightAngle => " > ",
        Punct::Semicolon => ";",
        Punct::Comma => ", ",
        Punct::Colon => " : ",
        Punct::Dot => ".",
        Punct::Equal => " = ",
        Punct::Bang => " !",
        Punct::Minus => " - ",
        Punct::Tilde => " ~",
        Punct::Plus => " + ",
        Punct::Star => " * ",
        Punct::Slash => " / ",
        Punct::Percent => " % ",
        Punct::Pipe => " | ",
        Punct::Caret => " ^ ",
        Punct::Ampersand => " & ",
        Punct::Question => " ? ",
    }
}

/// The character of a decimal digit.
pub open spec fn digit_char(d: nat) -> char {
    if d < 10 {
        (d + 48) as char
    } else {
        '?'
    }
}

/// The decimal text of a natural number, without leading zeros.
pub open spec fn decimal(n: nat) -> Seq<char>
    decreases n,
{
    if n < 10 {
        seq![digit_char(n)]
    } else {
        decimal(n / 10).push(digit_char(n % 10))
    }
}

fn digit_str(d: u64) -> (r: &'static str)
    requires
        d < 10,
    ensures
        r@ == seq![digit_char(d as nat)],
{
    proof {
        reveal_strlit("0");
        reveal_strlit("1");
        reveal_strlit("2");
        reveal_strlit("3");
        reveal_strlit("4");
        reveal_strlit("5");
        reveal_strlit("6");
        reveal_strlit("7");
        reveal_strlit("8");
        reveal_strlit("9");
    }
    let r = match d {
        0 => "0",
        1 => "1",
        2 => "2",
        3 => "3",
        4 => "4",
        5 => "5",
        6 => "6",
        7 => "7",
        8 => "8",
        _ => "9",
    };
    assert(r@ =~= seq![digit_char(d as nat)]);
    r
}

/// Appends the decimal text of `n`.
pub fn push_decimal(out: &mut String, n: u64)
    ensures
        final(out)@ == old(out)@ + decimal(n as nat),
    decreases n,
{
    if n >= 10 {
        push_decimal(out, n / 10);
    }
    out.append(digit_str(n % 10));
    proof {
        if n >= 10 {
            assert(old(out)@ + decimal(n as nat) =~= old(out)@ + decimal((n / 10) as nat) + seq![
                digit_char((n % 10) as nat),
            ]);
        } else {
            assert(old(out)@ + decimal(n as nat) =~= old(out)@ + seq![digit_char(n as nat)]);
        }
    }
}

pub open spec fn is_digit(c: char) -> bool {
    '0' <= c && c <= '9'
}

/// The text after an optional leading minus sign.
pub open spec fn unsigned_part(s: Seq<char>) -> Seq<char> {
    if s.len() > 0 && s[0] == '-' {
        s.drop_first()
    } else {
        s
    }
}

/// Float text with no fractional part: an optional minus sign and at least one digit.
pub open spec fn is_integral_text(s: Seq<char>) -> bool {
    &&& unsigned_part(s).len() > 0
    &&& forall|i: int| 0 <= i < unsigned_part(s).len() ==> is_digit(#[trigger] unsigned_part(s)[i])
}

/// The canonical text of a float given as its shortest decimal text: a value
/// with no fractional part gets a `.0` suffix, so it never reads as an integer.
pub open spec fn float_text(s: Seq<char>) -> Seq<char> {
    if is_integral_text(s) {
        s + seq!['.', '0']
    } else {
        s
    }
}

pub fn integral_text(s: &str) -> (r: bool)
    ensures
        r == is_integral_text(s@),
{
    let n = s.unicode_len();
    let start: usize = if n > 0 && s.get_char(0) == '-' {
        1
    } else {
        0
    };
    let ghost body = unsigned_part(s@);
    assert(body =~= s@.subrange(start as int, n as int));
    if start >= n {
        return false;
    }
    let mut i: usize = start;
    while i < n
        invariant
            start <= i <= n,
            n == s@.len(),
            body == s@.subrange(start as int, n as int),
            body == unsigned_part(s@),
            forall|j: int| start <= j < i ==> is_digit(#[trigger] s@[j]),
        decreases n - i,
    {
        let c = s.get_char(i);
        if !('0' <= c && c <= '9') {
            assert(!is_digit(body[i - start]));
            return false;
        }
        i = i + 1;
    }
    assert forall|j: int| 0 <= j < body.len() implies is_digit(#[trigger] body[j]) by {
        assert(body[j] == s@[j + start]);
    }
    true
}

/// Appends the canonical text of a float given as its shortest decimal text.
pub fn push_float(out: &mut String, s: &str)
    ensures
        final(out)@ == old(out)@ + float_text(s@),
{
    out.append(s);
    if integral_text(s) {
        out.append(".0");
        proof {
            reveal_strlit(".0");
        }
        assert(out@ =~= old(out)@ + float_text(s@));
    }
}

/// The `#version` line for its sub-tokens: a version number, optionally followed by `es`.
pub open spec fn version_text(ts: Seq<TokenValue>) -> Option<Seq<char>> {
    if ts.len() == 1 {
        match ts[0] {
            TokenValue::Integer(n) => Some("#version "@ + decimal(n as nat) + "\n"@),
            _ => None,
        }
    } else if ts.len() == 2 {
        match (ts[0], ts[1]) {
            (TokenValue::Integer(n), TokenValue::Ident(profile)) => if profile@ == "es"@ {
                Some("#version "@ + decimal(n as nat) + " es"@ + "\n"@)
            } else {
                None
            },
            _ => None,
        }
    } else {
        None
    }
}

/// The `#extension` line for its sub-tokens: a name, a colon and a behaviour.
pub open spec fn extension_text(ts: Seq<TokenValue>) -> Option<Seq<char>> {
    if ts.len() == 3 {
        match (ts[0], ts[1], ts[2]) {
            (
                TokenValue::Ident(name),
                TokenValue::Punctuation(Punct::Colon),
                TokenValue::Ident(behavior),
            ) => Some("#extension "@ + name@ + " : "@ + behavior@ + "\n"@),
            _ => None,
        }
    } else {
        None
    }
}

/// The text of a token on its own, before any adjacency space.
pub open spec fn bare_text(t: TokenValue) -> Result<Seq<char>, SerializeError> {
    match t {
        TokenValue::Ident(s) => Ok(s@),
        TokenValue::Integer(n) => Ok(decimal(n as nat)),
        TokenValue::Float(s) => Ok(float_text(s@)),
        TokenValue::Punctuation(p) => Ok(punct_text(p)),
        TokenValue::Version(ts) => match version_text(ts@) {
            Some(x) => Ok(x),
            None => Err(SerializeError::MalformedDirective),
        },
        TokenValue::Extension(ts) => match extension_text(ts@) {
            Some(x) => Ok(x),
            None => Err(SerializeError::MalformedDirective),
        },
        TokenValue::Pragma => Err(SerializeError::UnsupportedDirective),
    }
}

/// The text of a token that follows a word (`after_word`) or not: a word
/// after a word is set off by one space.
pub open spec fn token_text(t: TokenValue, after_word: bool) -> Result<Seq<char>, SerializeError> {
    if after_word && is_word(t) {
        match bare_text(t) {
            Ok(x) => Ok(seq![' '] + x),
            Err(e) => Err(e),
        }
    } else {
        bare_text(t)
    }
}

/// `r` is `Ok` with text `x` where `expected` is `Ok(x)`, and the same error where it is `Err`.
pub open spec fn text_result_matches(
    r: Result<String, SerializeError>,
    expected: Result<Seq<char>, SerializeError>,
) -> bool {
    match expected {
        Ok(x) => r matches Ok(s) && s@ == x,
        Err(e) => r == Err::<String, SerializeError>(e),
    }
}

fn is_es(s: &String) -> (r: bool)
    ensures
        r == (s@ == "es"@),
{
    let es = String::from_str("es");
    *s == es
}

/// Renders a `#version` line, or `None` where the sub-tokens have the wrong shape.
pub fn render_version(ts: &Vec<TokenValue>) -> (r: Option<String>)
    ensures
        match version_text(ts@) {
            Some(x) => r matches Some(s) && s@ == x,
            None => r is None,
        },
{
    if ts.len() != 1 && ts.len() != 2 {
        return None;
    }
    let n = match &ts[0] {
        TokenValue::Integer(n) => *n,
        _ => {
            return None;
        },
    };
    let mut out = String::from_str("#version ");
    push_decimal(&mut out, n);
    if ts.len() == 2 {
        match &ts[1] {
            TokenValue::Ident(profile) => {
                if !is_es(profile) {
                    return None;
                }
            },
            _ => {
                return None;
            },
        }
        out.append(" es");
    }
    out.append("\n");
    Some(out)
}

/// Renders an `#extension` line, or `None` where the sub-tokens have the wrong shape.
pub fn render_extension(ts: &Vec<TokenValue>) -> (r: Option<String>)
    ensures
        match extension_text(ts@) {
            Some(x) => r matches Some(s) && s@ == x,
            None => r is None,
        },
{
    if ts.len() != 3 {
        return None;
    }
    match (&ts[0], &ts[1], &ts[2]) {
        (TokenValue::Ident(name), TokenValue::Punctuation(Punct::Colon), TokenValue::Ident(behavior)) => {
            let mut out = String::from_str("#extension ");
            out.append(name.as_str());
            out.append(" : ");
            out.append(behavior.as_str());
            out.append("\n");
            Some(out)
        },
        _ => None,
    }
}

/// Renders one token, with a leading space where a word follows a word.
pub fn render_token(t: &TokenValue, after_word: bool) -> (r: Result<String, SerializeError>)
    ensures
        text_result_matches(r, token_text(*t, after_word)),
{
    let mut out = String::new();
    proof {
        reveal_strlit(" ");
    }
    if after_word && token_is_word(t) {
        out.append(" ");
    }
    let ghost lead = out@;
    assert(lead =~= if after_word && is_word(*t) { seq![' '] } else { Seq::empty() });
    match t {
        TokenValue::Ident(s) => out.append(s.as_str()),
        TokenValue::Integer(n) => push_decimal(&mut out, *n),
        TokenValue::Float(s) => push_float(&mut out, s.as_str()),
        TokenValue::Punctuation(p) => out.append(punct_str(p)),
        TokenValue::Version(ts) => match render_version(ts) {
            Some(line) => out.append(line.as_str()),
            None => {
                return Err(SerializeError::MalformedDirective);
            },
        },
        TokenValue::Extension(ts) => match render_extension(ts) {
            Some(line) => out.append(line.as_str()),
            None => {
                return Err(SerializeError::MalformedDirective);
            },
        },
        TokenValue::Pragma => {
            return Err(SerializeError::UnsupportedDirective);
        },
    }
    assert(bare_text(*t) is Ok);
    assert(out@ =~= lead + bare_text(*t)->Ok_0);
    Ok(out)
}

} // verus!
