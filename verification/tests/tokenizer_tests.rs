use drakkar_vfx::expr::tokenizer::{
    CompletionKind,
    FunctionKind,
    SyntaxHighlight,
    TokenKind,
    Tokenizer,
    get_completions,
};
use drakkar_vfx::expr::xop::{XBinaryOp, XBuiltInOp};

#[test]
fn test_tokenize_simple() {
    let tokens = Tokenizer::new("1 + 2").tokenize();
    assert_eq!(tokens.len(), 5);

    let non_whitespace: Vec<_> =
        tokens.into_iter().filter(|t| t.kind != TokenKind::Whitespace).collect();

    assert_eq!(non_whitespace.len(), 3);
    assert_eq!(non_whitespace[0].kind, TokenKind::Integer);
    assert_eq!(non_whitespace[1].kind, TokenKind::BinaryOp(XBinaryOp::Add));
    assert_eq!(non_whitespace[2].kind, TokenKind::Integer);
}

#[test]
fn test_tokenize_function() {
    let tokens = Tokenizer::new("sin(time)").tokenize();
    let non_whitespace: Vec<_> =
        tokens.into_iter().filter(|t| t.kind != TokenKind::Whitespace).collect();

    assert_eq!(non_whitespace.len(), 4);
    assert_eq!(non_whitespace[0].kind, TokenKind::Function(FunctionKind::Sin));
    assert_eq!(non_whitespace[1].kind, TokenKind::LeftParen);
    assert_eq!(non_whitespace[2].kind, TokenKind::BuiltIn(XBuiltInOp::Time));
    assert_eq!(non_whitespace[3].kind, TokenKind::RightParen);
}

#[test]
fn test_tokenize_string() {
    let tokens = Tokenizer::new("attr(\"position\")").tokenize();
    let non_whitespace: Vec<_> =
        tokens.into_iter().filter(|t| t.kind != TokenKind::Whitespace).collect();

    assert_eq!(non_whitespace.len(), 4);
    assert_eq!(non_whitespace[0].kind, TokenKind::Function(FunctionKind::Attr));
    assert_eq!(non_whitespace[1].kind, TokenKind::LeftParen);
    assert_eq!(non_whitespace[2].kind, TokenKind::String);
    assert_eq!(non_whitespace[2].text, "\"position\"");
    assert_eq!(non_whitespace[3].kind, TokenKind::RightParen);
}

#[test]
fn test_completions() {
    let completions = get_completions("si", 2);
    assert_eq!(completions.len(), 2);
    assert!(completions.iter().any(|c| c.label == "sin"));
    assert!(completions.iter().any(|c| c.label == "size"));

    let completions = get_completions("vec", 3);
    assert_eq!(completions.len(), 2);
    assert!(completions.iter().any(|c| c.label == "vec2"));
    assert!(completions.iter().any(|c| c.label == "vec3"));
}

#[test]
fn tokens_cover_the_input() {
    let input = "vec2( 1.5, -x_1) >= .5 != \"ab";
    let tokens = Tokenizer::new(input).tokenize();
    let joined: String = tokens.iter().map(|t| t.text.clone()).collect();
    assert_eq!(joined, input);
    let mut at = 0;
    for t in &tokens {
        assert_eq!(t.start, at);
        assert!(t.end > t.start);
        at = t.end;
    }
    assert_eq!(at, input.chars().count());
    assert!(Tokenizer::new("").tokenize().is_empty());
}

#[test]
fn tokenize_operators_and_errors() {
    let kinds: Vec<TokenKind> = Tokenizer::new("<= < >= > == != = @")
        .tokenize()
        .into_iter()
        .map(|t| t.kind)
        .filter(|k| *k != TokenKind::Whitespace)
        .collect();
    assert_eq!(
        kinds,
        vec![
            TokenKind::BinaryOp(XBinaryOp::Lte),
            TokenKind::BinaryOp(XBinaryOp::Lt),
            TokenKind::BinaryOp(XBinaryOp::Gte),
            TokenKind::BinaryOp(XBinaryOp::Ge),
            TokenKind::BinaryOp(XBinaryOp::Eq),
            TokenKind::BinaryOp(XBinaryOp::Neq),
            TokenKind::Error,
            TokenKind::Error,
        ]
    );
    let tokens = Tokenizer::new("!a").tokenize();
    assert_eq!(tokens[0].kind, TokenKind::Error);
    assert_eq!(tokens[0].text, "!");
    let tokens = Tokenizer::new("\"open").tokenize();
    assert_eq!(tokens.len(), 1);
    assert_eq!(tokens[0].kind, TokenKind::Error);
    assert_eq!(tokens[0].text, "\"open");
}

#[test]
fn tokenize_numbers() {
    let tokens = Tokenizer::new("1.5.2 7. .25").tokenize();
    let kinds: Vec<(TokenKind, String)> = tokens.into_iter().map(|t| (t.kind, t.text)).collect();
    assert_eq!(
        kinds,
        vec![
            (TokenKind::Float, "1.5".to_string()),
            (TokenKind::Float, ".2".to_string()),
            (TokenKind::Whitespace, " ".to_string()),
            (TokenKind::Integer, "7".to_string()),
            (TokenKind::Dot, ".".to_string()),
            (TokenKind::Whitespace, " ".to_string()),
            (TokenKind::Float, ".25".to_string()),
        ]
    );
}

#[test]
fn highlight_categories() {
    let tokens = Tokenizer::new("max(a, 1) # ").tokenize();
    let hl: Vec<Option<SyntaxHighlight>> = tokens.iter().map(|t| t.syntax_highlight()).collect();
    assert_eq!(
        hl,
        vec![
            Some(SyntaxHighlight::Function),
            Some(SyntaxHighlight::Punctuation),
            Some(SyntaxHighlight::Identifier),
            Some(SyntaxHighlight::Punctuation),
            None,
            Some(SyntaxHighlight::Number),
            Some(SyntaxHighlight::Punctuation),
            None,
            Some(SyntaxHighlight::Error),
            None,
        ]
    );
}

#[test]
fn function_kinds() {
    assert_eq!(FunctionKind::from_str("cross"), Some(FunctionKind::Cross));
    assert_eq!(FunctionKind::from_str("crosss"), None);
    assert_eq!(FunctionKind::Vec3.arity(), 3);
    assert_eq!(FunctionKind::Min.arity(), 2);
    assert_eq!(FunctionKind::Prop.arity(), 1);
    assert_eq!("delta_time".parse::<XBuiltInOp>(), Ok(XBuiltInOp::DeltaTime));
    assert!("delta".parse::<XBuiltInOp>().is_err());
}

#[test]
fn completion_details() {
    let all = get_completions("", 0);
    assert_eq!(all.len(), 25);
    let c = get_completions("alp", 3);
    assert_eq!(c.len(), 1);
    assert_eq!(c[0].label, "alpha_cutoff");
    assert_eq!(c[0].kind, CompletionKind::BuiltIn);
    assert_eq!(c[0].detail.as_deref(), Some("Alpha mask threshold"));
    assert_eq!(c[0].insert_text, "alpha_cutoff");
    let c = get_completions("at", 2);
    assert_eq!(c.len(), 1);
    assert_eq!(c[0].insert_text, "attr(\"name\")");
    assert!(get_completions("zz", 2).is_empty());
}

#[test]
fn whitespace_class_matches_std() {
    for c in (0u32..=0x10FFFF).filter_map(char::from_u32) {
        assert_eq!(drakkar_vfx::text::is_whitespace(c), c.is_whitespace(), "{:?}", c);
    }
}

#[test]
fn completions_filter_the_name_table() {
    let all = get_completions("", 0);
    assert_eq!(all.len(), 25);
    let mut labels: Vec<String> = all.iter().map(|c| c.label.clone()).collect();
    labels.sort();
    labels.dedup();
    assert_eq!(labels.len(), 25);
    assert!(get_completions("xyz", 3).is_empty());
    assert_eq!(
        get_completions("a", 0).iter().map(|c| c.label.as_str()).collect::<Vec<_>>(),
        vec!["abs", "all", "any", "attr", "alpha_cutoff", "age"]
    );
    assert_eq!(get_completions("po", 0).len(), get_completions("po", 99).len());
    for c in &all {
        assert!(c.detail.is_some());
        if c.kind != CompletionKind::Function {
            assert_eq!(c.insert_text, c.label);
        }
    }
}

#[test]
fn token_texts_fit_their_kinds() {
    let tokens = Tokenizer::new("  12 + 3.5*sin(_x)  ").tokenize();
    for (a, b) in tokens.iter().zip(tokens.iter().skip(1)) {
        assert!(!(a.kind == TokenKind::Whitespace && b.kind == TokenKind::Whitespace));
    }
    assert!(tokens.iter().any(|t| t.kind == TokenKind::Integer && t.text == "12"));
    assert!(tokens.iter().any(|t| t.kind == TokenKind::Float && t.text == "3.5"));
    assert!(tokens.iter().any(|t| t.kind == TokenKind::Identifier && t.text == "_x"));
}

#[test]
fn ascii_name_characters_match_std() {
    for b in 0u8..128 {
        let c = b as char;
        if c == '"' {
            continue;
        }
        let text = format!("x{}", c);
        let tokens = Tokenizer::new(&text).tokenize();
        assert_eq!(tokens[0].kind, TokenKind::Identifier, "{:?}", c);
        if c.is_alphanumeric() || c == '_' {
            assert_eq!(tokens.len(), 1, "{:?}", c);
            assert_eq!(tokens[0].text, text);
        } else {
            assert_eq!(tokens[0].text, "x", "{:?}", c);
        }
        if c.is_alphabetic() {
            let single = Tokenizer::new(&c.to_string()).tokenize();
            assert_eq!(single.len(), 1);
            assert_eq!(single[0].kind, TokenKind::Identifier, "{:?}", c);
        }
    }
}

#[test]
fn names_starting_with_a_letter_are_classed_by_text() {
    let tokens = Tokenizer::new("time sin speed _x").tokenize();
    let names: Vec<_> = tokens.into_iter().filter(|t| t.kind != TokenKind::Whitespace).collect();
    assert_eq!(names[0].kind, TokenKind::BuiltIn(XBuiltInOp::Time));
    assert_eq!(names[1].kind, TokenKind::Function(FunctionKind::Sin));
    assert_eq!(names[2].kind, TokenKind::Identifier);
    assert_eq!(names[3].kind, TokenKind::Identifier);
}
