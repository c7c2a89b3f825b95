//! Token model: the closed set of token kinds, the optional literal payload,
//! the source span a token occupies, and the static keyword table.

use vstd::prelude::*;
use vstd::string::StringExecFns;
use vstd::string::StringSliceAdditionalSpecFns;

verus! {

/// Spec-level payload of a token: the text of an identifier or comment, the
/// value of an integer literal, or the scanned digits of a floating literal.
pub ghost enum ValueModel {
    Text(Seq<char>),
    Int(int),
    Float(Seq<char>),
}

/// Spec-level picture of a whole token: kind, optional payload, and the
/// 1-based, end-exclusive source span it occupies.
pub ghost struct TokenModel {
    pub kind: TokenType,
    pub value: Option<ValueModel>,
    pub line_start: int,
    pub line_end: int,
    pub column_start: int,
    pub column_end: int,
}

/// Literal payload carried by a token.  A floating literal keeps the scanned
/// digit text (digit separators removed); turning that text into a machine
/// float is left to unverified callers.
#[derive(Debug)]
pub enum TokenValue {
    String(String),
    Integer(i32),
    Float(String),
}

impl View for TokenValue {
    type V = ValueModel;

    open spec fn view(&self) -> ValueModel {
        match self {
            TokenValue::String(s) => ValueModel::Text(s@),
            TokenValue::Integer(i) => ValueModel::Int(*i as int),
            TokenValue::Float(s) => ValueModel::Float(s@),
        }
    }
}

impl PartialEq for TokenValue {
    fn eq(&self, other: &TokenValue) -> (r: bool) {
        match (self, other) {
            (TokenValue::String(a), TokenValue::String(b)) => a.eq(b),
            (TokenValue::Integer(a), TokenValue::Integer(b)) => *a == *b,
            (TokenValue::Float(a), TokenValue::Float(b)) => a.eq(b),
            _ => false,
        }
    }
}

impl vstd::std_specs::cmp::PartialEqSpecImpl for TokenValue {
    open spec fn obeys_eq_spec() -> bool {
        true
    }

    open spec fn eq_spec(&self, other: &TokenValue) -> bool {
        self@ == other@
    }
}

/// A token: its kind, optional literal payload, and the source span
/// `{line_start, line_end, column_start, column_end}` (1-based, end-exclusive
/// on the consumed range).
#[derive(Debug)]
pub struct Token {
    pub token_type: TokenType,
    pub value: Option<TokenValue>,
    pub line_start: i32,
    pub line_end: i32,
    pub column_start: i32,
    pub column_end: i32,
}

impl View for Token {
    type V = TokenModel;

    open spec fn view(&self) -> TokenModel {
        TokenModel {
            kind: self.token_type,
            value: match self.value {
                Some(v) => Some(v@),
                None => None,
            },
            line_start: self.line_start as int,
            line_end: self.line_end as int,
            column_start: self.column_start as int,
            column_end: self.column_end as int,
        }
    }
}

/// A token's span never runs backwards: the end line is at or after the start
/// line, and on a single line the end column is at or after the start column.
pub open spec fn span_wf(t: TokenModel) -> bool {
    t.line_start <= t.line_end && (t.line_start == t.line_end ==> t.column_start
        <= t.column_end)
}

impl PartialEq for Token {
    fn eq(&self, other: &Token) -> (r: bool) {
        let values_equal = match (&self.value, &other.value) {
            (None, None) => true,
            (Some(a), Some(b)) => a == b,
            _ => false,
        };
        values_equal && self.token_type == other.token_type && self.line_start
            == other.line_start && self.line_end == other.line_end && self.column_start
            == other.column_start && self.column_end == other.column_end
    }
}

impl vstd::std_specs::cmp::PartialEqSpecImpl for Token {
    open spec fn obeys_eq_spec() -> bool {
        true
    }

    open spec fn eq_spec(&self, other: &Token) -> bool {
        self@ == other@
    }
}

/// The closed enumeration of token kinds.
#[derive(Debug, PartialEq, Eq, Structural, Clone, Copy)]
pub enum TokenType {
    Illegal,
    End,
    // Symbols
    Equal,            // ==
    Assign,           // =
    Plus,             // +
    PlusPlus,         // ++
    PlusAssign,       // +=
    Minus,            // -
    MinusMinus,       // --
    MinusAssign,      // -=
    Asterisk,         // *
    AsteriskAssign,   // *=
    Slash,            // /
    SlashAssign,      // /=
    Percent,          // %
    PercentAssign,    // %=
    And,              // &&
    BitAnd,           // &
    BitAndAssign,     // &=
    Or,               // ||
    BitOr,            // |
    BitOrAssign,      // |=
    BitXor,           // ^
    BitXorAssign,     // ^=
    LowerThan,        // <
    LowerThanEqual,   // <=
    BitLeft,          // <<
    BitLeftAssign,    // <<=
    GreaterThan,      // >
    GreaterThanEqual, // >=
    BitRight,         // >>
    BitRightAssign,   // >>=
    NotEqual,         // !=
    Bang,             // !
    Colon,            // :
    Semicolon,        // ;
    Comma,            // ,
    LeftBrace,        // {
    RightBrace,       // }
    LeftBracket,      // (
    RightBracket,     // )
    LeftSquare,       // [
    RightSquare,      // ]
    Elipsis,          // ...
    Range,            // ..
    Directive,        // #
    // Keywords - declaration/definition
    Const,
    New,
    Static,
    Stock,
    Forward,
    Public,
    Native,
    Operator,
    Char,
    Enum,
    State,
    // Keywords - control flow
    If,
    Else,
    Switch,
    Case,
    Default,
    For,
    While,
    Do,
    Break,
    Continue,
    Goto,
    Return,
    Sizeof,
    Tagof,
    Emit,
    // Patterns
    Integer,
    Float,
    Symbol,
    Label,
    Literal,
    Comment,
}

impl Default for TokenType {
    fn default() -> (r: TokenType)
        ensures
            r == TokenType::Illegal,
    {
        TokenType::Illegal
    }
}

/// The canonical textual spelling of each token kind, used in diagnostics:
/// the exact source spelling for operators and keywords, and the kind's name
/// for the pattern kinds.
pub open spec fn spec_spelling(t: TokenType) -> Seq<char> {
    match t {
        TokenType::Illegal => "Illegal"@,
        TokenType::End => "End"@,
        TokenType::Equal => "=="@,
        TokenType::Assign => "="@,
        TokenType::Plus => "+"@,
        TokenType::PlusPlus => "++"@,
        TokenType::PlusAssign => "+="@,
        TokenType::Minus => "-"@,
        TokenType::MinusMinus => "--"@,
        TokenType::MinusAssign => "-="@,
        TokenType::Asterisk => "*"@,
        TokenType::AsteriskAssign => "*="@,
        TokenType::Slash => "/"@,
        TokenType::SlashAssign => "/="@,
        TokenType::Percent => "%"@,
        TokenType::PercentAssign => "%="@,
        TokenType::And => "&&"@,
        TokenType::BitAnd => "&"@,
        TokenType::BitAndAssign => "&="@,
        TokenType::Or => "||"@,
        TokenType::BitOr => "|"@,
        TokenType::BitOrAssign => "|="@,
        TokenType::BitXor => "^"@,
        TokenType::BitXorAssign => "^="@,
        TokenType::LowerThan => "<"@,
        TokenType::LowerThanEqual => "<="@,
        TokenType::BitLeft => "<<"@,
        TokenType::BitLeftAssign => "<<="@,
        TokenType::GreaterThan => ">"@,
        TokenType::GreaterThanEqual => ">="@,
        TokenType::BitRight => ">>"@,
        TokenType::BitRightAssign => ">>="@,
        TokenType::NotEqual => "!="@,
        TokenType::Bang => "!"@,
        TokenType::Colon => ":"@,
        TokenType::Semicolon => ";"@,
        TokenType::Comma => ","@,
        TokenType::LeftBrace => "{"@,
        TokenType::RightBrace => "}"@,
        TokenType::LeftBracket => "("@,
        TokenType::RightBracket => ")"@,
        TokenType::LeftSquare => "["@,
        TokenType::RightSquare => "]"@,
        TokenType::Elipsis => "..."@,
        TokenType::Range => ".."@,
        TokenType::Directive => "#"@,
        TokenType::Const => "const"@,
        TokenType::New => "new"@,
        TokenType::Static => "static"@,
        TokenType::Stock => "stock"@,
        TokenType::Forward => "forward"@,
        TokenType::Public => "public"@,
        TokenType::Native => "native"@,
        TokenType::Operator => "operator"@,
        TokenType::Char => "char"@,
        TokenType::Enum => "enum"@,
        TokenType::State => "state"@,
        TokenType::If => "if"@,
        TokenType::Else => "else"@,
        TokenType::Switch => "switch"@,
        TokenType::Case => "case"@,
        TokenType::Default => "default"@,
        TokenType::For => "for"@,
        TokenType::While => "while"@,
        TokenType::Do => "do"@,
        TokenType::Break => "break"@,
        TokenType::Continue => "continue"@,
        TokenType::Goto => "goto"@,
        TokenType::Return => "return"@,
        TokenType::Sizeof => "sizeof"@,
        TokenType::Tagof => "tagof"@,
        TokenType::Emit => "__emit"@,
        TokenType::Integer => "Integer"@,
        TokenType::Float => "Float"@,
        TokenType::Symbol => "Symbol"@,
        TokenType::Label => "Label"@,
        TokenType::Literal => "Literal"@,
        TokenType::Comment => "Comment"@,
    }
}

impl TokenType {
    /// The canonical spelling of this kind as an owned string.
    pub fn to_string(&self) -> (r: String)
        ensures
            r@ == spec_spelling(*self),
    {
        match self {
            TokenType::Illegal => String::from_str("Illegal"),
            TokenType::End => String::from_str("End"),
            TokenType::Equal => String::from_str("=="),
            TokenType::Assign => String::from_str("="),
            TokenType::Plus => String::from_str("+"),
            TokenType::PlusPlus => String::from_str("++"),
            TokenType::PlusAssign => String::from_str("+="),
            TokenType::Minus => String::from_str("-"),
            TokenType::MinusMinus => String::from_str("--"),
            TokenType::MinusAssign => String::from_str("-="),
            TokenType::Asterisk => String::from_str("*"),
            TokenType::AsteriskAssign => String::from_str("*="),
            TokenType::Slash => String::from_str("/"),
            TokenType::SlashAssign => String::from_str("/="),
            TokenType::Percent => String::from_str("%"),
            TokenType::PercentAssign => String::from_str("%="),
            TokenType::And => String::from_str("&&"),
            TokenType::BitAnd => String::from_str("&"),
            TokenType::BitAndAssign => String::from_str("&="),
            TokenType::Or => String::from_str("||"),
            TokenType::BitOr => String::from_str("|"),
            TokenType::BitOrAssign => String::from_str("|="),
            TokenType::BitXor => String::from_str("^"),
            TokenType::BitXorAssign => String::from_str("^="),
            TokenType::LowerThan => String::from_str("<"),
            TokenType::LowerThanEqual => String::from_str("<="),
            TokenType::BitLeft => String::from_str("<<"),
            TokenType::BitLeftAssign => String::from_str("<<="),
            TokenType::GreaterThan => String::from_str(">"),
            TokenType::GreaterThanEqual => String::from_str(">="),
            TokenType::BitRight => String::from_str(">>"),
            TokenType::BitRightAssign => String::from_str(">>="),
            TokenType::NotEqual => String::from_str("!="),
            TokenType::Bang => String::from_str("!"),
            TokenType::Colon => String::from_str(":"),
            TokenType::Semicolon => String::from_str(";"),
            TokenType::Comma => String::from_str(","),
            TokenType::LeftBrace => String::from_str("{"),
            TokenType::RightBrace => String::from_str("}"),
            TokenType::LeftBracket => String::from_str("("),
            TokenType::RightBracket => String::from_str(")"),
            TokenType::LeftSquare => String::from_str("["),
            TokenType::RightSquare => String::from_str("]"),
            TokenType::Elipsis => String::from_str("..."),
            TokenType::Range => String::from_str(".."),
            TokenType::Directive => String::from_str("#"),
            TokenType::Const => String::from_str("const"),
            TokenType::New => String::from_str("new"),
            TokenType::Static => String::from_str("static"),
            TokenType::Stock => String::from_str("stock"),
            TokenType::Forward => String::from_str("forward"),
            TokenType::Public => String::from_str("public"),
            TokenType::Native => String::from_str("native"),
            TokenType::Operator => String::from_str("operator"),
            TokenType::Char => String::from_str("char"),
            TokenType::Enum => String::from_str("enum"),
            TokenType::State => String::from_str("state"),
            TokenType::If => String::from_str("if"),
            TokenType::Else => String::from_str("else"),
            TokenType::Switch => String::from_str("switch"),
            TokenType::Case => String::from_str("case"),
            TokenType::Default => String::from_str("default"),
            TokenType::For => String::from_str("for"),
            TokenType::While => String::from_str("while"),
            TokenType::Do => String::from_str("do"),
            TokenType::Break => String::from_str("break"),
            TokenType::Continue => String::from_str("continue"),
            TokenType::Goto => String::from_str("goto"),
            TokenType::Return => String::from_str("return"),
            TokenType::Sizeof => String::from_str("sizeof"),
            TokenType::Tagof => String::from_str("tagof"),
            TokenType::Emit => String::from_str("__emit"),
            TokenType::Integer => String::from_str("Integer"),
            TokenType::Float => String::from_str("Float"),
            TokenType::Symbol => String::from_str("Symbol"),
            TokenType::Label => String::from_str("Label"),
            TokenType::Literal => String::from_str("Literal"),
            TokenType::Comment => String::from_str("Comment"),
        }
    }
}

/// The kinds that the keyword table maps a reserved spelling to.
pub open spec fn is_keyword_kind(t: TokenType) -> bool {
    ||| t == TokenType::Const
    ||| t == TokenType::New
    ||| t == TokenType::Static
    ||| t == TokenType::Stock
    ||| t == TokenType::Forward
    ||| t == TokenType::Public
    ||| t == TokenType::Native
    ||| t == TokenType::Operator
    ||| t == TokenType::Char
    ||| t == TokenType::Enum
    ||| t == TokenType::State
    ||| t == TokenType::If
    ||| t == TokenType::Else
    ||| t == TokenType::Switch
    ||| t == TokenType::Case
    ||| t == TokenType::Default
    ||| t == TokenType::For
    ||| t == TokenType::While
    ||| t == TokenType::Do
    ||| t == TokenType::Break
    ||| t == TokenType::Continue
    ||| t == TokenType::Goto
    ||| t == TokenType::Return
    ||| t == TokenType::Sizeof
    ||| t == TokenType::Tagof
    ||| t == TokenType::Emit
}

/// The static keyword table: reserved spelling to token kind, case-sensitive.
pub open spec fn spec_lookup_keyword(s: Seq<char>) -> Option<TokenType> {
    if s == "const"@ {
        Some(TokenType::Const)
    } else if s == "new"@ {
        Some(TokenType::New)
    } else if s == "static"@ {
        Some(TokenType::Static)
    } else if s == "stock"@ {
        Some(TokenType::Stock)
    } else if s == "forward"@ {
        Some(TokenType::Forward)
    } else if s == "public"@ {
        Some(TokenType::Public)
    } else if s == "native"@ {
        Some(TokenType::Native)
    } else if s == "operator"@ {
        Some(TokenType::Operator)
    } else if s == "char"@ {
        Some(TokenType::Char)
    } else if s == "enum"@ {
        Some(TokenType::Enum)
    } else if s == "state"@ {
        Some(TokenType::State)
    } else if s == "if"@ {
        Some(TokenType::If)
    } else if s == "else"@ {
        Some(TokenType::Else)
    } else if s == "switch"@ {
        Some(TokenType::Switch)
    } else if s == "case"@ {
        Some(TokenType::Case)
    } else if s == "default"@ {
        Some(TokenType::Default)
    } else if s == "for"@ {
        Some(TokenType::For)
    } else if s == "while"@ {
        Some(TokenType::While)
    } else if s == "do"@ {
        Some(TokenType::Do)
    } else if s == "break"@ {
        Some(TokenType::Break)
    } else if s == "continue"@ {
        Some(TokenType::Continue)
    } else if s == "goto"@ {
        Some(TokenType::Goto)
    } else if s == "return"@ {
        Some(TokenType::Return)
    } else if s == "sizeof"@ {
        Some(TokenType::Sizeof)
    } else if s == "tagof"@ {
        Some(TokenType::Tagof)
    } else if s == "__emit"@ {
        Some(TokenType::Emit)
    } else {
        None
    }
}

/// Whether two string slices spell the same sequence of characters.
fn text_eq(a: &str, b: &str) -> (r: bool)
    ensures
        r == (a@ == b@),
{
    let sa = String::from_str(a);
    let sb = String::from_str(b);
    sa == sb
}

/// Look a spelling up in the static keyword table: a reserved spelling maps
/// to its keyword kind, anything else to `None`.
pub fn lookup_keyword(kw: &str) -> (r: Option<TokenType>)
    ensures
        r == spec_lookup_keyword(kw@),
{
    if text_eq(kw, "const") {
        Some(TokenType::Const)
    } else if text_eq(kw, "new") {
        Some(TokenType::New)
    } else if text_eq(kw, "static") {
        Some(TokenType::Static)
    } else if text_eq(kw, "stock") {
        Some(TokenType::Stock)
    } else if text_eq(kw, "forward") {
        Some(TokenType::Forward)
    } else if text_eq(kw, "public") {
        Some(TokenType::Public)
    } else if text_eq(kw, "native") {
        Some(TokenType::Native)
    } else if text_eq(kw, "operator") {
        Some(TokenType::Operator)
    } else if text_eq(kw, "char") {
        Some(TokenType::Char)
    } else if text_eq(kw, "enum") {
        Some(TokenType::Enum)
    } else if text_eq(kw, "state") {
        Some(TokenType::State)
    } else if text_eq(kw, "if") {
        Some(TokenType::If)
    } else if text_eq(kw, "else") {
        Some(TokenType::Else)
    } else if text_eq(kw, "switch") {
        Some(TokenType::Switch)
    } else if text_eq(kw, "case") {
        Some(TokenType::Case)
    } else if text_eq(kw, "default") {
        Some(TokenType::Default)
    } else if text_eq(kw, "for") {
        Some(TokenType::For)
    } else if text_eq(kw, "while") {
        Some(TokenType::While)
    } else if text_eq(kw, "do") {
        Some(TokenType::Do)
    } else if text_eq(kw, "break") {
        Some(TokenType::Break)
    } else if text_eq(kw, "continue") {
        Some(TokenType::Continue)
    } else if text_eq(kw, "goto") {
        Some(TokenType::Goto)
    } else if text_eq(kw, "return") {
        Some(TokenType::Return)
    } else if text_eq(kw, "sizeof") {
        Some(TokenType::Sizeof)
    } else if text_eq(kw, "tagof") {
        Some(TokenType::Tagof)
    } else if text_eq(kw, "__emit") {
        Some(TokenType::Emit)
    } else {
        None
    }
}

/// Number of decimal digits of a non-negative value.
pub open spec fn spec_udigits(n: int) -> int
    decreases n,
{
    if n < 10 {
        1
    } else {
        1 + spec_udigits(n / 10)
    }
}

/// Length of the canonical decimal rendering of an integer, sign included.
pub open spec fn spec_int_len(v: int) -> int {
    if v < 0 {
        1 + spec_udigits(-v)
    } else {
        spec_udigits(v)
    }
}

/// Decimal digit count of a 32-bit magnitude.
fn udigits_u32(m: u32) -> (r: usize)
    ensures
        r == spec_udigits(m as int),
        1 <= r <= 10,
{
    proof {
        reveal_with_fuel(spec_udigits, 12);
    }
    if m >= 1000000000 {
        10
    } else if m >= 100000000 {
        9
    } else if m >= 10000000 {
        8
    } else if m >= 1000000 {
        7
    } else if m >= 100000 {
        6
    } else if m >= 10000 {
        5
    } else if m >= 1000 {
        4
    } else if m >= 100 {
        3
    } else if m >= 10 {
        2
    } else {
        1
    }
}

impl TokenValue {
    /// Length of the payload: the UTF-8 byte count of a text payload, and
    /// the length of the canonical decimal rendering of an integer payload,
    /// sign included.
    pub fn len(&self) -> (r: usize)
        ensures
            self@ matches ValueModel::Text(s) ==> r == vstd::utf8::encode_utf8(s).len() as usize,
            self@ matches ValueModel::Int(n) ==> r as int == spec_int_len(n),
            self@ matches ValueModel::Float(s) ==> r == vstd::utf8::encode_utf8(s).len() as usize,
    {
        match self {
            TokenValue::String(v) => {
                let s = v.as_str();
                let n = s.len();
                proof {
                    assert(s.spec_bytes() == vstd::utf8::encode_utf8(s@));
                }
                n
            },
            TokenValue::Integer(v) => {
                let value = *v;
                if value >= 0 {
                    udigits_u32(value as u32)
                } else {
                    let m: u32 = (-(value as i64)) as u32;
                    1 + udigits_u32(m)
                }
            },
            TokenValue::Float(v) => {
                let s = v.as_str();
                let n = s.len();
                proof {
                    assert(s.spec_bytes() == vstd::utf8::encode_utf8(s@));
                }
                n
            },
        }
    }
}

/// Law of the keyword table: looking a canonical spelling up in the keyword
/// table gives back exactly the keyword kinds; the spelling of any other
/// kind is not a reserved word.
#[verifier::rlimit(100)]
pub proof fn lemma_keyword_spelling_roundtrip(t: TokenType)
    ensures
        spec_lookup_keyword(spec_spelling(t)) == (if is_keyword_kind(t) {
            Some(t)
        } else {
            None::<TokenType>
        }),
{
    reveal_strlit("const");
    assert(("const"@).len() == 5);
    assert(("const"@)[0] == 'c');
    assert(("const"@)[1] == 'o');
    assert(("const"@)[2] == 'n');
    reveal_strlit("new");
    assert(("new"@).len() == 3);
    assert(("new"@)[0] == 'n');
    assert(("new"@)[1] == 'e');
    assert(("new"@)[2] == 'w');
    reveal_strlit("static");
    assert(("static"@).len() == 6);
    assert(("static"@)[0] == 's');
    assert(("static"@)[1] == 't');
    assert(("static"@)[2] == 'a');
    reveal_strlit("stock");
    assert(("stock"@).len() == 5);
    assert(("stock"@)[0] == 's');
    assert(("stock"@)[1] == 't');
    assert(("stock"@)[2] == 'o');
    reveal_strlit("forward");
    assert(("forward"@).len() == 7);
    assert(("forward"@)[0] == 'f');
    assert(("forward"@)[1] == 'o');
    assert(("forward"@)[2] == 'r');
    reveal_strlit("public");
    assert(("public"@).len() == 6);
    assert(("public"@)[0] == 'p');
    assert(("public"@)[1] == 'u');
    assert(("public"@)[2] == 'b');
    reveal_strlit("native");
    assert(("native"@).len() == 6);
    assert(("native"@)[0] == 'n');
    assert(("native"@)[1] == 'a');
    assert(("native"@)[2] == 't');
    reveal_strlit("operator");
    assert(("operator"@).len() == 8);
    assert(("operator"@)[0] == 'o');
    assert(("operator"@)[1] == 'p');
    assert(("operator"@)[2] == 'e');
    reveal_strlit("char");
    assert(("char"@).len() == 4);
    assert(("char"@)[0] == 'c');
    assert(("char"@)[1] == 'h');
    assert(("char"@)[2] == 'a');
    reveal_strlit("enum");
    assert(("enum"@).len() == 4);
    assert(("enum"@)[0] == 'e');
    assert(("enum"@)[1] == 'n');
    assert(("enum"@)[2] == 'u');
    reveal_strlit("state");
    assert(("state"@).len() == 5);
    assert(("state"@)[0] == 's');
    assert(("state"@)[1] == 't');
    assert(("state"@)[2] == 'a');
    reveal_strlit("if");
    assert(("if"@).len() == 2);
    assert(("if"@)[0] == 'i');
    assert(("if"@)[1] == 'f');
    reveal_strlit("else");
    assert(("else"@).len() == 4);
    assert(("else"@)[0] == 'e');
    assert(("else"@)[1] == 'l');
    assert(("else"@)[2] == 's');
    reveal_strlit("switch");
    assert(("switch"@).len() == 6);
    assert(("switch"@)[0] == 's');
    assert(("switch"@)[1] == 'w');
    assert(("switch"@)[2] == 'i');
    reveal_strlit("case");
    assert(("case"@).len() == 4);
    assert(("case"@)[0] == 'c');
    assert(("case"@)[1] == 'a');
    assert(("case"@)[2] == 's');
    reveal_strlit("default");
    assert(("default"@).len() == 7);
    assert(("default"@)[0] == 'd');
    assert(("default"@)[1] == 'e');
    assert(("default"@)[2] == 'f');
    reveal_strlit("for");
    assert(("for"@).len() == 3);
    assert(("for"@)[0] == 'f');
    assert(("for"@)[1] == 'o');
    assert(("for"@)[2] == 'r');
    reveal_strlit("while");
    assert(("while"@).len() == 5);
    assert(("while"@)[0] == 'w');
    assert(("while"@)[1] == 'h');
    assert(("while"@)[2] == 'i');
    reveal_strlit("do");
    assert(("do"@).len() == 2);
    assert(("do"@)[0] == 'd');
    assert(("do"@)[1] == 'o');
    reveal_strlit("break");
    assert(("break"@).len() == 5);
    assert(("break"@)[0] == 'b');
    assert(("break"@)[1] == 'r');
    assert(("break"@)[2] == 'e');
    reveal_strlit("continue");
    assert(("continue"@).len() == 8);
    assert(("continue"@)[0] == 'c');
    assert(("continue"@)[1] == 'o');
    assert(("continue"@)[2] == 'n');
    reveal_strlit("goto");
    assert(("goto"@).len() == 4);
    assert(("goto"@)[0] == 'g');
    assert(("goto"@)[1] == 'o');
    assert(("goto"@)[2] == 't');
    reveal_strlit("return");
    assert(("return"@).len() == 6);
    assert(("return"@)[0] == 'r');
    assert(("return"@)[1] == 'e');
    assert(("return"@)[2] == 't');
    reveal_strlit("sizeof");
    assert(("sizeof"@).len() == 6);
    assert(("sizeof"@)[0] == 's');
    assert(("sizeof"@)[1] == 'i');
    assert(("sizeof"@)[2] == 'z');
    reveal_strlit("tagof");
    assert(("tagof"@).len() == 5);
    assert(("tagof"@)[0] == 't');
    assert(("tagof"@)[1] == 'a');
    assert(("tagof"@)[2] == 'g');
    reveal_strlit("__emit");
    assert(("__emit"@).len() == 6);
    assert(("__emit"@)[0] == '_');
    assert(("__emit"@)[1] == '_');
    assert(("__emit"@)[2] == 'e');
    match t {
        TokenType::Const => {
            assert(spec_lookup_keyword("const"@) == Some(TokenType::Const));
        },
        TokenType::New => {
            assert(spec_lookup_keyword("new"@) == Some(TokenType::New));
        },
        TokenType::Static => {
            assert(spec_lookup_keyword("static"@) == Some(TokenType::Static));
        },
        TokenType::Stock => {
            assert(spec_lookup_keyword("stock"@) == Some(TokenType::Stock));
        },
        TokenType::Forward => {
            assert(spec_lookup_keyword("forward"@) == Some(TokenType::Forward));
        },
        TokenType::Public => {
            assert(spec_lookup_keyword("public"@) == Some(TokenType::Public));
        },
        TokenType::Native => {
            assert(spec_lookup_keyword("native"@) == Some(TokenType::Native));
        },
        TokenType::Operator => {
            assert(spec_lookup_keyword("operator"@) == Some(TokenType::Operator));
        },
        TokenType::Char => {
            assert(spec_lookup_keyword("char"@) == Some(TokenType::Char));
        },
        TokenType::Enum => {
            assert(spec_lookup_keyword("enum"@) == Some(TokenType::Enum));
        },
        TokenType::State => {
            assert(spec_lookup_keyword("state"@) == Some(TokenType::State));
        },
        TokenType::If => {
            assert(spec_lookup_keyword("if"@) == Some(TokenType::If));
        },
        TokenType::Else => {
            assert(spec_lookup_keyword("else"@) == Some(TokenType::Else));
        },
        TokenType::Switch => {
            assert(spec_lookup_keyword("switch"@) == Some(TokenType::Switch));
        },
        TokenType::Case => {
            assert(spec_lookup_keyword("case"@) == Some(TokenType::Case));
        },
        TokenType::Default => {
            assert(spec_lookup_keyword("default"@) == Some(TokenType::Default));
        },
        TokenType::For => {
            assert(spec_lookup_keyword("for"@) == Some(TokenType::For));
        },
        TokenType::While => {
            assert(spec_lookup_keyword("while"@) == Some(TokenType::While));
        },
        TokenType::Do => {
            assert(spec_lookup_keyword("do"@) == Some(TokenType::Do));
        },
        TokenType::Break => {
            assert(spec_lookup_keyword("break"@) == Some(TokenType::Break));
        },
        TokenType::Continue => {
            assert(spec_lookup_keyword("continue"@) == Some(TokenType::Continue));
        },
        TokenType::Goto => {
            assert(spec_lookup_keyword("goto"@) == Some(TokenType::Goto));
        },
        TokenType::Return => {
            assert(spec_lookup_keyword("return"@) == Some(TokenType::Return));
        },
        TokenType::Sizeof => {
            assert(spec_lookup_keyword("sizeof"@) == Some(TokenType::Sizeof));
        },
        TokenType::Tagof => {
            assert(spec_lookup_keyword("tagof"@) == Some(TokenType::Tagof));
        },
        TokenType::Emit => {
            assert(spec_lookup_keyword("__emit"@) == Some(TokenType::Emit));
        },
        TokenType::Illegal => {
            reveal_strlit("Illegal");
            assert(("Illegal"@).len() == 7);
            assert(("Illegal"@)[0] == 'I');
            assert(spec_lookup_keyword("Illegal"@) is None);
        },
        TokenType::End => {
            reveal_strlit("End");
            assert(("End"@).len() == 3);
            assert(("End"@)[0] == 'E');
            assert(spec_lookup_keyword("End"@) is None);
        },
        TokenType::Equal => {
            reveal_strlit("==");
            assert(("=="@).len() == 2);
            assert(("=="@)[0] == '=');
            assert(spec_lookup_keyword("=="@) is None);
        },
        TokenType::Assign => {
            reveal_strlit("=");
            assert(("="@).len() == 1);
            assert(("="@)[0] == '=');
            assert(spec_lookup_keyword("="@) is None);
        },
        TokenType::Plus => {
            reveal_strlit("+");
            assert(("+"@).len() == 1);
            assert(("+"@)[0] == '+');
            assert(spec_lookup_keyword("+"@) is None);
        },
        TokenType::PlusPlus => {
            reveal_strlit("++");
            assert(("++"@).len() == 2);
            assert(("++"@)[0] == '+');
            assert(spec_lookup_keyword("++"@) is None);
        },
        TokenType::PlusAssign => {
            reveal_strlit("+=");
            assert(("+="@).len() == 2);
            assert(("+="@)[0] == '+');
            assert(spec_lookup_keyword("+="@) is None);
        },
        TokenType::Minus => {
            reveal_strlit("-");
            assert(("-"@).len() == 1);
            assert(("-"@)[0] == '-');
            assert(spec_lookup_keyword("-"@) is None);
        },
        TokenType::MinusMinus => {
            reveal_strlit("--");
            assert(("--"@).len() == 2);
            assert(("--"@)[0] == '-');
            assert(spec_lookup_keyword("--"@) is None);
        },
        TokenType::MinusAssign => {
            reveal_strlit("-=");
            assert(("-="@).len() == 2);
            assert(("-="@)[0] == '-');
            assert(spec_lookup_keyword("-="@) is None);
        },
        TokenType::Asterisk => {
            reveal_strlit("*");
            assert(("*"@).len() == 1);
            assert(("*"@)[0] == '*');
            assert(spec_lookup_keyword("*"@) is None);
        },
        TokenType::AsteriskAssign => {
            reveal_strlit("*=");
            assert(("*="@).len() == 2);
            assert(("*="@)[0] == '*');
            assert(spec_lookup_keyword("*="@) is None);
        },
        TokenType::Slash => {
            reveal_strlit("/");
            assert(("/"@).len() == 1);
            assert(("/"@)[0] == '/');
            assert(spec_lookup_keyword("/"@) is None);
        },
        TokenType::SlashAssign => {
            reveal_strlit("/=");
            assert(("/="@).len() == 2);
            assert(("/="@)[0] == '/');
            assert(spec_lookup_keyword("/="@) is None);
        },
        TokenType::Percent => {
            reveal_strlit("%");
            assert(("%"@).len() == 1);
            assert(("%"@)[0] == '%');
            assert(spec_lookup_keyword("%"@) is None);
        },
        TokenType::PercentAssign => {
            reveal_strlit("%=");
            assert(("%="@).len() == 2);
            assert(("%="@)[0] == '%');
            assert(spec_lookup_keyword("%="@) is None);
        },
        TokenType::And => {
            reveal_strlit("&&");
            assert(("&&"@).len() == 2);
            assert(("&&"@)[0] == '&');
            assert(spec_lookup_keyword("&&"@) is None);
        },
        TokenType::BitAnd => {
            reveal_strlit("&");
            assert(("&"@).len() == 1);
            assert(("&"@)[0] == '&');
            assert(spec_lookup_keyword("&"@) is None);
        },
        TokenType::BitAndAssign => {
            reveal_strlit("&=");
            assert(("&="@).len() == 2);
            assert(("&="@)[0] == '&');
            assert(spec_lookup_keyword("&="@) is None);
        },
        TokenType::Or => {
            reveal_strlit("||");
            assert(("||"@).len() == 2);
            assert(("||"@)[0] == '|');
            assert(spec_lookup_keyword("||"@) is None);
        },
        TokenType::BitOr => {
            reveal_strlit("|");
            assert(("|"@).len() == 1);
            assert(("|"@)[0] == '|');
            assert(spec_lookup_keyword("|"@) is None);
        },
        TokenType::BitOrAssign => {
            reveal_strlit("|=");
            assert(("|="@).len() == 2);
            assert(("|="@)[0] == '|');
            assert(spec_lookup_keyword("|="@) is None);
        },
        TokenType::BitXor => {
            reveal_strlit("^");
            assert(("^"@).len() == 1);
            assert(("^"@)[0] == '^');
            assert(spec_lookup_keyword("^"@) is None);
        },
        TokenType::BitXorAssign => {
            reveal_strlit("^=");
            assert(("^="@).len() == 2);
            assert(("^="@)[0] == '^');
            assert(spec_lookup_keyword("^="@) is None);
        },
        TokenType::LowerThan => {
            reveal_strlit("<");
            assert(("<"@).len() == 1);
            assert(("<"@)[0] == '<');
            assert(spec_lookup_keyword("<"@) is None);
        },
        TokenType::LowerThanEqual => {
            reveal_strlit("<=");
            assert(("<="@).len() == 2);
            assert(("<="@)[0] == '<');
            assert(spec_lookup_keyword("<="@) is None);
        },
        TokenType::BitLeft => {
            reveal_strlit("<<");
            assert(("<<"@).len() == 2);
            assert(("<<"@)[0] == '<');
            assert(spec_lookup_keyword("<<"@) is None);
        },
        TokenType::BitLeftAssign => {
            reveal_strlit("<<=");
            assert(("<<="@).len() == 3);
            assert(("<<="@)[0] == '<');
            assert(spec_lookup_keyword("<<="@) is None);
        },
        TokenType::GreaterThan => {
            reveal_strlit(">");
            assert((">"@).len() == 1);
            assert((">"@)[0] == '>');
            assert(spec_lookup_keyword(">"@) is None);
        },
        TokenType::GreaterThanEqual => {
            reveal_strlit(">=");
            assert((">="@).len() == 2);
            assert((">="@)[0] == '>');
            assert(spec_lookup_keyword(">="@) is None);
        },
        TokenType::BitRight => {
            reveal_strlit(">>");
            assert((">>"@).len() == 2);
            assert((">>"@)[0] == '>');
            assert(spec_lookup_keyword(">>"@) is None);
        },
        TokenType::BitRightAssign => {
            reveal_strlit(">>=");
            assert((">>="@).len() == 3);
            assert((">>="@)[0] == '>');
            assert(spec_lookup_keyword(">>="@) is None);
        },
        TokenType::NotEqual => {
            reveal_strlit("!=");
            assert(("!="@).len() == 2);
            assert(("!="@)[0] == '!');
            assert(spec_lookup_keyword("!="@) is None);
        },
        TokenType::Bang => {
            reveal_strlit("!");
            assert(("!"@).len() == 1);
            assert(("!"@)[0] == '!');
            assert(spec_lookup_keyword("!"@) is None);
        },
        TokenType::Colon => {
            reveal_strlit(":");
            assert((":"@).len() == 1);
            assert((":"@)[0] == ':');
            assert(spec_lookup_keyword(":"@) is None);
        },
        TokenType::Semicolon => {
            reveal_strlit(";");
            assert((";"@).len() == 1);
            assert((";"@)[0] == ';');
            assert(spec_lookup_keyword(";"@) is None);
        },
        TokenType::Comma => {
            reveal_strlit(",");
            assert((","@).len() == 1);
            assert((","@)[0] == ',');
            assert(spec_lookup_keyword(","@) is None);
        },
        TokenType::LeftBrace => {
            reveal_strlit("{");
            assert(("{"@).len() == 1);
            assert(("{"@)[0] == '{');
            assert(spec_lookup_keyword("{"@) is None);
        },
        TokenType::RightBrace => {
            reveal_strlit("}");
            assert(("}"@).len() == 1);
            assert(("}"@)[0] == '}');
            assert(spec_lookup_keyword("}"@) is None);
        },
        TokenType::LeftBracket => {
            reveal_strlit("(");
            assert(("("@).len() == 1);
            assert(("("@)[0] == '(');
            assert(spec_lookup_keyword("("@) is None);
        },
        TokenType::RightBracket => {
            reveal_strlit(")");
            assert((")"@).len() == 1);
            assert((")"@)[0] == ')');
            assert(spec_lookup_keyword(")"@) is None);
        },
        TokenType::LeftSquare => {
            reveal_strlit("[");
            assert(("["@).len() == 1);
            assert(("["@)[0] == '[');
            assert(spec_lookup_keyword("["@) is None);
        },
        TokenType::RightSquare => {
            reveal_strlit("]");
            assert(("]"@).len() == 1);
            assert(("]"@)[0] == ']');
            assert(spec_lookup_keyword("]"@) is None);
        },
        TokenType::Elipsis => {
            reveal_strlit("...");
            assert(("..."@).len() == 3);
            assert(("..."@)[0] == '.');
            assert(spec_lookup_keyword("..."@) is None);
        },
        TokenType::Range => {
            reveal_strlit("..");
            assert((".."@).len() == 2);
            assert((".."@)[0] == '.');
            assert(spec_lookup_keyword(".."@) is None);
        },
        TokenType::Directive => {
            reveal_strlit("#");
            assert(("#"@).len() == 1);
            assert(("#"@)[0] == '#');
            assert(spec_lookup_keyword("#"@) is None);
        },
        TokenType::Integer => {
            reveal_strlit("Integer");
            assert(("Integer"@).len() == 7);
            assert(("Integer"@)[0] == 'I');
            assert(spec_lookup_keyword("Integer"@) is None);
        },
        TokenType::Float => {
            reveal_strlit("Float");
            assert(("Float"@).len() == 5);
            assert(("Float"@)[0] == 'F');
            assert(spec_lookup_keyword("Float"@) is None);
        },
        TokenType::Symbol => {
            reveal_strlit("Symbol");
            assert(("Symbol"@).len() == 6);
            assert(("Symbol"@)[0] == 'S');
            assert(spec_lookup_keyword("Symbol"@) is None);
        },
        TokenType::Label => {
            reveal_strlit("Label");
            assert(("Label"@).len() == 5);
            assert(("Label"@)[0] == 'L');
            assert(spec_lookup_keyword("Label"@) is None);
        },
        TokenType::Literal => {
            reveal_strlit("Literal");
            assert(("Literal"@).len() == 7);
            assert(("Literal"@)[0] == 'L');
            assert(spec_lookup_keyword("Literal"@) is None);
        },
        TokenType::Comment => {
            reveal_strlit("Comment");
            assert(("Comment"@).len() == 7);
            assert(("Comment"@)[0] == 'C');
            assert(spec_lookup_keyword("Comment"@) is None);
        },
    }
}

} // verus!
