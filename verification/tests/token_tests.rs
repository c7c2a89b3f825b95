use pawn_front::lexer::Lexer;
use pawn_front::token::{lookup_keyword, TokenType, TokenValue};

fn keyword_kinds() -> Vec<TokenType> {
    vec![
        TokenType::Const,
        TokenType::New,
        TokenType::Static,
        TokenType::Stock,
        TokenType::Forward,
        TokenType::Public,
        TokenType::Native,
        TokenType::Operator,
        TokenType::Char,
        TokenType::Enum,
        TokenType::State,
        TokenType::If,
        TokenType::Else,
        TokenType::Switch,
        TokenType::Case,
        TokenType::Default,
        TokenType::For,
        TokenType::While,
        TokenType::Do,
        TokenType::Break,
        TokenType::Continue,
        TokenType::Goto,
        TokenType::Return,
        TokenType::Sizeof,
        TokenType::Tagof,
        TokenType::Emit,
    ]
}

fn operator_kinds() -> Vec<TokenType> {
    vec![
        TokenType::Equal,
        TokenType::Assign,
        TokenType::Plus,
        TokenType::PlusPlus,
        TokenType::PlusAssign,
        TokenType::Minus,
        TokenType::MinusMinus,
        TokenType::MinusAssign,
        TokenType::Asterisk,
        TokenType::AsteriskAssign,
        TokenType::Slash,
        TokenType::SlashAssign,
        TokenType::Percent,
        TokenType::PercentAssign,
        TokenType::And,
        TokenType::BitAnd,
        TokenType::BitAndAssign,
        TokenType::Or,
        TokenType::BitOr,
        TokenType::BitOrAssign,
        TokenType::BitXor,
        TokenType::BitXorAssign,
        TokenType::LowerThan,
        TokenType::LowerThanEqual,
        TokenType::BitLeft,
        TokenType::BitLeftAssign,
        TokenType::GreaterThan,
        TokenType::GreaterThanEqual,
        TokenType::BitRight,
        TokenType::BitRightAssign,
        TokenType::NotEqual,
        TokenType::Bang,
        TokenType::Colon,
        TokenType::Semicolon,
        TokenType::Comma,
        TokenType::LeftBrace,
        TokenType::RightBrace,
        TokenType::LeftBracket,
        TokenType::RightBracket,
        TokenType::LeftSquare,
        TokenType::RightSquare,
        TokenType::Elipsis,
        TokenType::Range,
        TokenType::Directive,
    ]
}

#[test]
fn canonical_spellings_are_exact() {
    assert_eq!(TokenType::Equal.to_string(), "==");
    assert_eq!(TokenType::Assign.to_string(), "=");
    assert_eq!(TokenType::BitLeftAssign.to_string(), "<<=");
    assert_eq!(TokenType::Elipsis.to_string(), "...");
    assert_eq!(TokenType::New.to_string(), "new");
    assert_eq!(TokenType::Emit.to_string(), "__emit");
    assert_eq!(TokenType::Comment.to_string(), "Comment");
    assert_eq!(TokenType::Illegal.to_string(), "Illegal");
}

#[test]
fn keyword_table_round_trip() {
    for kind in keyword_kinds() {
        let spelling = kind.to_string();
        assert_eq!(lookup_keyword(spelling.as_str()), Some(kind));
    }
    assert_eq!(lookup_keyword("notakeyword"), None);
    assert_eq!(lookup_keyword("New"), None);
    assert_eq!(lookup_keyword(""), None);
}

#[test]
fn spellings_retokenize_to_their_kinds() {
    let mut kinds = keyword_kinds();
    kinds.extend(operator_kinds());
    let mut source = String::new();
    for kind in &kinds {
        source.push_str(kind.to_string().as_str());
        source.push(' ');
    }
    let tokens = Lexer::new(source.as_str()).lex();
    let lexed: Vec<TokenType> = tokens.iter().map(|t| t.token_type).collect();
    assert_eq!(lexed, kinds);
}

#[test]
fn default_token_type_is_illegal() {
    assert_eq!(TokenType::default(), TokenType::Illegal);
}

#[test]
fn token_value_lengths() {
    assert_eq!(TokenValue::String("abc".into()).len(), 3);
    assert_eq!(TokenValue::String("".into()).len(), 0);
    assert_eq!(TokenValue::Integer(0).len(), 1);
    assert_eq!(TokenValue::Integer(12345).len(), 5);
    assert_eq!(TokenValue::Integer(-123).len(), 4);
    assert_eq!(TokenValue::Integer(i32::MAX).len(), 10);
    assert_eq!(TokenValue::Integer(i32::MIN).len(), 11);
    assert_eq!(TokenValue::Float("5.5".into()).len(), 3);
    assert_eq!(TokenValue::String("\u{e9}".into()).len(), 2);
}

#[test]
fn keywords_lex_without_payload() {
    let tokens = Lexer::new("new").lex();
    assert_eq!(tokens.len(), 1);
    assert_eq!(tokens[0].token_type, TokenType::New);
    assert_eq!(tokens[0].value, None);
}
