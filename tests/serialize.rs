use glsl_reserialize::render::{punct_str, push_decimal, push_float, render_token};
use glsl_reserialize::serializer::{serialize, Serializer, SourceItem};
use glsl_reserialize::token::{SerializeError, TokenValue};
use pp_rs::token::{Location, PreprocessorError, Punct};

fn ident(s: &str) -> TokenValue {
    TokenValue::Ident(s.to_string())
}

fn float(s: &str) -> TokenValue {
    TokenValue::Float(s.to_string())
}

fn ok_all(tokens: Vec<TokenValue>) -> Vec<SourceItem> {
    tokens.into_iter().map(Ok).collect()
}

fn run(tokens: Vec<TokenValue>) -> Result<String, SerializeError> {
    serialize(ok_all(tokens))
}

#[test]
fn empty_stream_gives_empty_text() {
    assert_eq!(run(vec![]), Ok(String::new()));
}

#[test]
fn adjacent_words_get_one_space() {
    let out = run(vec![
        ident("uniform"),
        ident("float"),
        TokenValue::Integer(3),
        float("2.5"),
        ident("x"),
    ]);
    assert_eq!(out, Ok("uniform float 3 2.5 x".to_string()));
}

#[test]
fn words_next_to_punctuation_get_no_extra_space() {
    let out = run(vec![
        ident("f"),
        TokenValue::Punctuation(Punct::LeftParen),
        ident("x"),
        TokenValue::Punctuation(Punct::RightParen),
        TokenValue::Punctuation(Punct::Semicolon),
    ]);
    assert_eq!(out, Ok("f(x);".to_string()));
}

#[test]
fn punctuation_resets_adjacency() {
    let out = run(vec![
        ident("a"),
        TokenValue::Punctuation(Punct::Dot),
        ident("b"),
        ident("c"),
    ]);
    assert_eq!(out, Ok("a.b c".to_string()));
}

#[test]
fn float_with_zero_fraction_gets_suffix() {
    assert_eq!(run(vec![float(&format!("{}", 2.0f32))]), Ok("2.0".to_string()));
}

#[test]
fn float_with_fraction_is_kept() {
    assert_eq!(run(vec![float(&format!("{}", 2.5f32))]), Ok("2.5".to_string()));
}

#[test]
fn float_edge_texts() {
    let mut out = String::new();
    push_float(&mut out, "-0");
    assert_eq!(out, "-0.0");
    let mut out = String::new();
    push_float(&mut out, "inf");
    assert_eq!(out, "inf");
    let mut out = String::new();
    push_float(&mut out, "NaN");
    assert_eq!(out, "NaN");
    let mut out = String::new();
    push_float(&mut out, "-");
    assert_eq!(out, "-");
    let mut out = String::new();
    push_float(&mut out, "100000000000000000000");
    assert_eq!(out, "100000000000000000000.0");
}

#[test]
fn integers_in_decimal() {
    let mut out = String::new();
    push_decimal(&mut out, 0);
    assert_eq!(out, "0");
    let mut out = String::from("x=");
    push_decimal(&mut out, 1234567890);
    assert_eq!(out, "x=1234567890");
    let mut out = String::new();
    push_decimal(&mut out, u64::MAX);
    assert_eq!(out, "18446744073709551615");
}

#[test]
fn version_without_profile() {
    let out = run(vec![TokenValue::Version(vec![TokenValue::Integer(450)])]);
    assert_eq!(out, Ok("#version 450\n".to_string()));
}

#[test]
fn version_with_es_profile() {
    let out = run(vec![TokenValue::Version(vec![TokenValue::Integer(300), ident("es")])]);
    assert_eq!(out, Ok("#version 300 es\n".to_string()));
}

#[test]
fn extension_line() {
    let out = run(vec![TokenValue::Extension(vec![
        ident("GL_OES_standard_derivatives"),
        TokenValue::Punctuation(Punct::Colon),
        ident("enable"),
    ])]);
    assert_eq!(out, Ok("#extension GL_OES_standard_derivatives : enable\n".to_string()));
}

#[test]
fn compound_assignment_spacing() {
    let out = run(vec![ident("a"), TokenValue::Punctuation(Punct::AddAssign), ident("b")]);
    assert_eq!(out, Ok("a += b".to_string()));
}

#[test]
fn directive_resets_adjacency() {
    let out = run(vec![
        TokenValue::Version(vec![TokenValue::Integer(450)]),
        ident("void"),
        ident("main"),
    ]);
    assert_eq!(out, Ok("#version 450\nvoid main".to_string()));
}

#[test]
fn source_error_is_passed_on() {
    let items: Vec<SourceItem> = vec![
        Ok(ident("a")),
        Ok(ident("b")),
        Err((PreprocessorError::UnexpectedHash, Location::default())),
        Ok(ident("c")),
    ];
    assert_eq!(
        serialize(items),
        Err(SerializeError::Source(PreprocessorError::UnexpectedHash, Location::default()))
    );
}

#[test]
fn first_error_wins() {
    let items: Vec<SourceItem> = vec![
        Ok(TokenValue::Pragma),
        Err((PreprocessorError::UnexpectedHash, Location::default())),
    ];
    assert_eq!(serialize(items), Err(SerializeError::UnsupportedDirective));
}

#[test]
fn version_without_number_is_malformed() {
    let out = run(vec![TokenValue::Version(vec![ident("foo")])]);
    assert_eq!(out, Err(SerializeError::MalformedDirective));
}

#[test]
fn version_shapes_that_are_malformed() {
    let bad = vec![
        vec![],
        vec![ident("es")],
        vec![TokenValue::Integer(300), ident("core")],
        vec![TokenValue::Integer(300), TokenValue::Integer(1)],
        vec![TokenValue::Integer(300), ident("es"), ident("es")],
        vec![float("4.5")],
    ];
    for ts in bad {
        assert_eq!(run(vec![TokenValue::Version(ts)]), Err(SerializeError::MalformedDirective));
    }
}

#[test]
fn extension_shapes_that_are_malformed() {
    let bad = vec![
        vec![ident("GL_x"), TokenValue::Punctuation(Punct::Colon)],
        vec![ident("GL_x"), TokenValue::Punctuation(Punct::Semicolon), ident("enable")],
        vec![TokenValue::Integer(1), TokenValue::Punctuation(Punct::Colon), ident("enable")],
        vec![
            ident("GL_x"),
            TokenValue::Punctuation(Punct::Colon),
            ident("enable"),
            ident("extra"),
        ],
    ];
    for ts in bad {
        assert_eq!(run(vec![TokenValue::Extension(ts)]), Err(SerializeError::MalformedDirective));
    }
}

#[test]
fn pragma_is_unsupported() {
    let out = run(vec![ident("a"), TokenValue::Pragma]);
    assert_eq!(out, Err(SerializeError::UnsupportedDirective));
}

#[test]
fn punctuation_table() {
    let table = [
        (Punct::AddAssign, " += "),
        (Punct::SubAssign, " -= "),
        (Punct::MulAssign, " *= "),
        (Punct::DivAssign, " /= "),
        (Punct::ModAssign, " %= "),
        (Punct::LeftShiftAssign, " <<= "),
        (Punct::RightShiftAssign, " >>= "),
        (Punct::AndAssign, " &= "),
        (Punct::XorAssign, " ^= "),
        (Punct::OrAssign, " |= "),
        (Punct::Increment, " ++ "),
        (Punct::Decrement, " -- "),
        (Punct::LogicalAnd, " && "),
        (Punct::LogicalOr, " || "),
        (Punct::LogicalXor, " ^^ "),
        (Punct::LessEqual, " <= "),
        (Punct::GreaterEqual, " >= "),
        (Punct::EqualEqual, " == "),
        (Punct::NotEqual, " != "),
        (Punct::LeftShift, " << "),
        (Punct::RightShift, " >> "),
        (Punct::LeftBrace, "{"),
        (Punct::RightBrace, "}"),
        (Punct::LeftParen, "("),
        (Punct::RightParen, ")"),
        (Punct::LeftBracket, "["),
        (Punct::RightBracket, "]"),
        (Punct::LeftAngle, " < "),
        (Punct::RightAngle, " > "),
        (Punct::Semicolon, ";"),
        (Punct::Comma, ", "),
        (Punct::Colon, " : "),
        (Punct::Dot, "."),
        (Punct::Equal, " = "),
        (Punct::Bang, " !"),
        (Punct::Minus, " - "),
        (Punct::Tilde, " ~"),
        (Punct::Plus, " + "),
        (Punct::Star, " * "),
        (Punct::Slash, " / "),
        (Punct::Percent, " % "),
        (Punct::Pipe, " | "),
        (Punct::Caret, " ^ "),
        (Punct::Ampersand, " & "),
        (Punct::Question, " ? "),
    ];
    for (p, text) in table.iter() {
        assert_eq!(punct_str(p), *text);
    }
}

#[test]
fn render_token_after_word() {
    assert_eq!(render_token(&ident("x"), true), Ok(" x".to_string()));
    assert_eq!(render_token(&ident("x"), false), Ok("x".to_string()));
    assert_eq!(render_token(&TokenValue::Punctuation(Punct::Minus), true), Ok(" - ".to_string()));
}

#[test]
fn streaming_serializer() {
    let mut s = Serializer::new();
    assert_eq!(s.feed(Ok(ident("vec4"))), Ok(()));
    assert_eq!(s.feed(Ok(ident("c"))), Ok(()));
    assert_eq!(s.feed(Ok(TokenValue::Version(vec![ident("foo")]))), Err(SerializeError::MalformedDirective));
    assert_eq!(s.feed(Ok(TokenValue::Punctuation(Punct::Semicolon))), Ok(()));
    assert_eq!(s.finish(), "vec4 c;");
}
