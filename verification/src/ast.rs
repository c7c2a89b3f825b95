//! Syntax tree model and recursive-descent parser: consumes the token
//! sequence produced by the tokenizer and builds a tree whose root carries
//! one child per recognized top-level declaration.

use vstd::prelude::*;
use vstd::string::StringExecFns;
use crate::token::{Token, TokenModel, TokenType, TokenValue, ValueModel};

verus! {

/// An expression: the synthetic tree root marker, a tagged variable
/// reference, a binary operation over two exclusively owned sub-expressions,
/// or a tagged literal scalar.
#[derive(Debug)]
pub enum Expression {
    GlobalScope,
    Variable(Box<Variable>),
    BinaryOperation(Box<BinaryOperation>),
    UnaryOperation(Box<UnaryOperation>),
    LiteralScalar(Box<LiteralScalar>),
    ArrayLiteral(Box<ArrayLiteral>),
}

/// A declared identifier together with its type tag; the sentinel tag `"_"`
/// means "no explicit tag".
#[derive(Debug)]
pub struct Variable {
    pub name: String,
    pub tag: String,
}

/// A binary operation: the operator token and the two sub-expressions it
/// combines.
#[derive(Debug)]
pub struct BinaryOperation {
    pub operator: Token,
    pub left: Box<Expression>,
    pub right: Box<Expression>,
}

/// A unary operation: the operator token, the sub-expression it applies to,
/// and whether it stood before (prefix) or after (postfix) that expression.
#[derive(Debug)]
pub struct UnaryOperation {
    pub operator: Token,
    pub operand: Box<Expression>,
    pub prefix: bool,
}

/// A literal scalar with an optional type tag and an optional leading minus
/// sign; the payload is the literal token's payload.
#[derive(Debug)]
pub struct LiteralScalar {
    pub tag: String,
    pub negative: bool,
    pub value: Option<TokenValue>,
}

/// A brace-delimited array literal: a comma-separated sequence of
/// expressions, in source order.
#[derive(Debug)]
pub struct ArrayLiteral {
    pub elements: Vec<Expression>,
}

/// Spec-level picture of an expression tree.
pub ghost enum ExprModel {
    GlobalScope,
    Var { name: Seq<char>, tag: Seq<char> },
    Bin { op: TokenModel, left: Box<ExprModel>, right: Box<ExprModel> },
    Una { op: TokenModel, operand: Box<ExprModel>, prefix: bool },
    Lit { tag: Seq<char>, negative: bool, value: Option<ValueModel> },
    Arr { elements: Seq<ExprModel> },
}

/// The spec-level picture of an expression.
pub open spec fn expr_model(e: Expression) -> ExprModel
    decreases e,
{
    match e {
        Expression::GlobalScope => ExprModel::GlobalScope,
        Expression::Variable(v) => ExprModel::Var { name: v.name@, tag: v.tag@ },
        Expression::BinaryOperation(b) => ExprModel::Bin {
            op: b.operator@,
            left: Box::new(expr_model(*b.left)),
            right: Box::new(expr_model(*b.right)),
        },
        Expression::UnaryOperation(u) => ExprModel::Una {
            op: u.operator@,
            operand: Box::new(expr_model(*u.operand)),
            prefix: u.prefix,
        },
        Expression::LiteralScalar(l) => ExprModel::Lit {
            tag: l.tag@,
            negative: l.negative,
            value: match l.value {
                Some(v) => Some(v@),
                None => None,
            },
        },
        Expression::ArrayLiteral(a) => ExprModel::Arr {
            elements: Seq::new(
                a.elements@.len(),
                |i: int|
                    if 0 <= i < a.elements@.len() {
                        expr_model(a.elements@[i])
                    } else {
                        ExprModel::GlobalScope
                    },
            ),
        },
    }
}

/// The spec-level pictures of a sequence of expressions.
pub open spec fn expr_models(v: Seq<Expression>) -> Seq<ExprModel> {
    v.map_values(|e: Expression| expr_model(e))
}

/// A node of the syntax tree: exactly one expression, the raw tokens it was
/// parsed from, and an ordered list of exclusively owned children.
#[derive(Debug)]
pub struct Node {
    pub expr: Expression,
    pub tokens: Vec<Token>,
    pub children: Vec<Node>,
}

/// The source span of the token a diagnosis points at.  The all-zero span
/// stands for the end of the token sequence, where no token remains.
#[derive(Debug, PartialEq, Eq, Structural, Clone, Copy)]
pub struct Span {
    pub line_start: i32,
    pub line_end: i32,
    pub column_start: i32,
    pub column_end: i32,
}

/// A parse error: the construct that was expected, and the kind and span of
/// the token actually found there (`End` and the zero span when the tokens
/// ran out).
#[derive(Debug, PartialEq, Eq, Structural, Clone, Copy)]
pub enum ParseError {
    ExpectedSymbol { found: TokenType, span: Span },
    ExpectedSemicolon { found: TokenType, span: Span },
    ExpectedExpression { found: TokenType, span: Span },
    ExpectedRightBracket { found: TokenType, span: Span },
    ExpectedRightBrace { found: TokenType, span: Span },
}

/// The kind of the token at position `k`, or `End` past the last token.
pub open spec fn tok_kind(toks: Seq<Token>, k: int) -> TokenType {
    if 0 <= k < toks.len() {
        toks[k].token_type
    } else {
        TokenType::End
    }
}

/// The span of the token at position `k`, or the zero span past the last
/// token.
pub open spec fn tok_span(toks: Seq<Token>, k: int) -> Span {
    if 0 <= k < toks.len() {
        Span {
            line_start: toks[k].line_start,
            line_end: toks[k].line_end,
            column_start: toks[k].column_start,
            column_end: toks[k].column_end,
        }
    } else {
        Span { line_start: 0, line_end: 0, column_start: 0, column_end: 0 }
    }
}

/// The text payload of the token at `k`, or the empty text if it carries
/// none.
pub open spec fn sym_text(toks: Seq<Token>, k: int) -> Seq<char> {
    if 0 <= k < toks.len() {
        match toks[k].value {
            Some(TokenValue::String(s)) => s@,
            _ => Seq::<char>::empty(),
        }
    } else {
        Seq::<char>::empty()
    }
}

/// The payload of the literal token at `k`.
pub open spec fn lit_value(toks: Seq<Token>, k: int) -> Option<ValueModel> {
    if 0 <= k < toks.len() {
        match toks[k].value {
            Some(v) => Some(v@),
            None => None,
        }
    } else {
        None
    }
}

/// Binding level of a binary operator, lowest binding first: the
/// assignment family, then logical or and and, the bitwise operators,
/// equality, relational, shift, additive, and multiplicative operators.
pub open spec fn spec_level_of(t: TokenType) -> Option<u32> {
    match t {
        TokenType::Assign => Some(0u32),
        TokenType::PlusAssign => Some(0u32),
        TokenType::MinusAssign => Some(0u32),
        TokenType::AsteriskAssign => Some(0u32),
        TokenType::SlashAssign => Some(0u32),
        TokenType::PercentAssign => Some(0u32),
        TokenType::BitAndAssign => Some(0u32),
        TokenType::BitOrAssign => Some(0u32),
        TokenType::BitXorAssign => Some(0u32),
        TokenType::BitLeftAssign => Some(0u32),
        TokenType::BitRightAssign => Some(0u32),
        TokenType::Or => Some(1u32),
        TokenType::And => Some(2u32),
        TokenType::BitOr => Some(3u32),
        TokenType::BitXor => Some(4u32),
        TokenType::BitAnd => Some(5u32),
        TokenType::Equal => Some(6u32),
        TokenType::NotEqual => Some(6u32),
        TokenType::LowerThan => Some(7u32),
        TokenType::LowerThanEqual => Some(7u32),
        TokenType::GreaterThan => Some(7u32),
        TokenType::GreaterThanEqual => Some(7u32),
        TokenType::BitLeft => Some(8u32),
        TokenType::BitRight => Some(8u32),
        TokenType::Plus => Some(9u32),
        TokenType::Minus => Some(9u32),
        TokenType::Asterisk => Some(10u32),
        TokenType::Slash => Some(10u32),
        TokenType::Percent => Some(10u32),
        _ => None,
    }
}

/// Executable mirror of `spec_level_of`.
fn binary_level(t: TokenType) -> (r: Option<u32>)
    ensures
        r == spec_level_of(t),
{
    match t {
        TokenType::Assign => Some(0u32),
        TokenType::PlusAssign => Some(0u32),
        TokenType::MinusAssign => Some(0u32),
        TokenType::AsteriskAssign => Some(0u32),
        TokenType::SlashAssign => Some(0u32),
        TokenType::PercentAssign => Some(0u32),
        TokenType::BitAndAssign => Some(0u32),
        TokenType::BitOrAssign => Some(0u32),
        TokenType::BitXorAssign => Some(0u32),
        TokenType::BitLeftAssign => Some(0u32),
        TokenType::BitRightAssign => Some(0u32),
        TokenType::Or => Some(1u32),
        TokenType::And => Some(2u32),
        TokenType::BitOr => Some(3u32),
        TokenType::BitXor => Some(4u32),
        TokenType::BitAnd => Some(5u32),
        TokenType::Equal => Some(6u32),
        TokenType::NotEqual => Some(6u32),
        TokenType::LowerThan => Some(7u32),
        TokenType::LowerThanEqual => Some(7u32),
        TokenType::GreaterThan => Some(7u32),
        TokenType::GreaterThanEqual => Some(7u32),
        TokenType::BitLeft => Some(8u32),
        TokenType::BitRight => Some(8u32),
        TokenType::Plus => Some(9u32),
        TokenType::Minus => Some(9u32),
        TokenType::Asterisk => Some(10u32),
        TokenType::Slash => Some(10u32),
        TokenType::Percent => Some(10u32),
        _ => None,
    }
}

/// A literal scalar at `k` with the given tag: an optional sign followed by
/// an integer or floating literal token.
pub open spec fn sp_literal(toks: Seq<Token>, k: int, tag: Seq<char>) -> Result<
    (ExprModel, int),
    ParseError,
> {
    let neg = tok_kind(toks, k) == TokenType::Minus;
    let k1 = if tok_kind(toks, k) == TokenType::Plus || tok_kind(toks, k) == TokenType::Minus {
        k + 1
    } else {
        k
    };
    let t = tok_kind(toks, k1);
    if t == TokenType::Integer || t == TokenType::Float {
        Ok(
            (
                ExprModel::Lit { tag: tag, negative: neg, value: lit_value(toks, k1) },
                k1 + 1,
            ),
        )
    } else {
        Err(ParseError::ExpectedExpression { found: t, span: tok_span(toks, k1) })
    }
}

/// A unary-level expression at `k`: a sign directly before a numeric literal
/// reads as a signed literal scalar; any other prefix operator (`+ - ! ++
/// --`) applies right-to-left to the unary expression after it; otherwise a
/// primary expression followed by its postfix operators.
pub open spec fn sp_unary(toks: Seq<Token>, k: int) -> Result<(ExprModel, int), ParseError>
    decreases toks.len() - k, 8int, 0int,
{
    let t = tok_kind(toks, k);
    if (t == TokenType::Plus || t == TokenType::Minus) && (tok_kind(toks, k + 1)
        == TokenType::Integer || tok_kind(toks, k + 1) == TokenType::Float) {
        sp_literal(toks, k, "_"@)
    } else if t == TokenType::Plus || t == TokenType::Minus || t == TokenType::Bang || t
        == TokenType::PlusPlus || t == TokenType::MinusMinus {
        match sp_unary(toks, k + 1) {
            Err(e) => Err(e),
            Ok((e, k2)) => Ok(
                (
                    ExprModel::Una { op: toks[k]@, operand: Box::new(e), prefix: true },
                    k2,
                ),
            ),
        }
    } else {
        match sp_primary(toks, k) {
            Err(e) => Err(e),
            Ok((e, k2)) => {
                if k2 <= k || k2 > toks.len() {
                    Ok((e, k2))
                } else {
                    sp_postfix_rest(toks, k2, e)
                }
            },
        }
    }
}

/// Absorb postfix `++`/`--` operators after an already-parsed expression.
pub open spec fn sp_postfix_rest(toks: Seq<Token>, k: int, e: ExprModel) -> Result<
    (ExprModel, int),
    ParseError,
>
    decreases toks.len() - k, 6int, 0int,
{
    let t = tok_kind(toks, k);
    if t == TokenType::PlusPlus || t == TokenType::MinusMinus {
        sp_postfix_rest(
            toks,
            k + 1,
            ExprModel::Una { op: toks[k]@, operand: Box::new(e), prefix: false },
        )
    } else {
        Ok((e, k))
    }
}

/// The elements of a brace-delimited array literal, after its `{`: a
/// comma-separated sequence of expressions closed by `}`.
pub open spec fn sp_array_elems(toks: Seq<Token>, k: int, acc: Seq<ExprModel>) -> Result<
    (Seq<ExprModel>, int),
    ParseError,
>
    decreases toks.len() - k, 21int, 0int,
{
    if tok_kind(toks, k) == TokenType::RightBrace {
        Ok((acc, k + 1))
    } else {
        match sp_expr(toks, k, 0u32) {
            Err(e) => Err(e),
            Ok((e, k2)) => {
                if k2 <= k || k2 > toks.len() {
                    Ok((acc.push(e), k2))
                } else if tok_kind(toks, k2) == TokenType::Comma {
                    sp_array_elems(toks, k2 + 1, acc.push(e))
                } else if tok_kind(toks, k2) == TokenType::RightBrace {
                    Ok((acc.push(e), k2 + 1))
                } else {
                    Err(
                        ParseError::ExpectedRightBrace {
                            found: tok_kind(toks, k2),
                            span: tok_span(toks, k2),
                        },
                    )
                }
            },
        }
    }
}

/// A primary expression at `k`: an identifier with an optional tag prefix, a
/// literal scalar with an optional tag prefix and sign, or a parenthesized
/// sub-expression.
pub open spec fn sp_primary(toks: Seq<Token>, k: int) -> Result<(ExprModel, int), ParseError>
    decreases toks.len() - k, 0int, 0int,
{
    let t = tok_kind(toks, k);
    if t == TokenType::Symbol {
        if tok_kind(toks, k + 1) == TokenType::Colon {
            if tok_kind(toks, k + 2) == TokenType::Symbol {
                Ok(
                    (
                        ExprModel::Var { name: sym_text(toks, k + 2), tag: sym_text(toks, k) },
                        k + 3,
                    ),
                )
            } else {
                sp_literal(toks, k + 2, sym_text(toks, k))
            }
        } else {
            Ok((ExprModel::Var { name: sym_text(toks, k), tag: "_"@ }, k + 1))
        }
    } else if t == TokenType::Integer || t == TokenType::Float {
        sp_literal(toks, k, "_"@)
    } else if t == TokenType::LeftBrace {
        match sp_array_elems(toks, k + 1, Seq::<ExprModel>::empty()) {
            Err(e) => Err(e),
            Ok((es, k2)) => Ok((ExprModel::Arr { elements: es }, k2)),
        }
    } else if t == TokenType::LeftBracket {
        match sp_expr(toks, k + 1, 0u32) {
            Err(e) => Err(e),
            Ok((e, k2)) => {
                if tok_kind(toks, k2) == TokenType::RightBracket {
                    Ok((e, k2 + 1))
                } else {
                    Err(
                        ParseError::ExpectedRightBracket {
                            found: tok_kind(toks, k2),
                            span: tok_span(toks, k2),
                        },
                    )
                }
            },
        }
    } else {
        Err(ParseError::ExpectedExpression { found: t, span: tok_span(toks, k) })
    }
}

/// An expression at `k` for the given binding level: each level parses the
/// next-higher level and then absorbs operators of its own level
/// left-associatively; level 11 is a primary expression.
pub open spec fn sp_expr(toks: Seq<Token>, k: int, level: u32) -> Result<
    (ExprModel, int),
    ParseError,
>
    decreases toks.len() - k, (if level <= 11 { 20int - level } else { 9int }), 1int,
{
    if level >= 11 {
        sp_unary(toks, k)
    } else {
        match sp_expr(toks, k, (level + 1) as u32) {
            Err(e) => Err(e),
            Ok((lhs, k2)) => {
                if k2 <= k || k2 > toks.len() {
                    Ok((lhs, k2))
                } else {
                    sp_rest(toks, k2, level, lhs)
                }
            },
        }
    }
}

/// Absorb operators of exactly `level` after an already-parsed left subtree,
/// building left-associative binary operation nodes.
pub open spec fn sp_rest(toks: Seq<Token>, k: int, level: u32, lhs: ExprModel) -> Result<
    (ExprModel, int),
    ParseError,
>
    decreases toks.len() - k, (if level <= 11 { 20int - level } else { 9int }), 2int,
{
    if spec_level_of(tok_kind(toks, k)) == Some(level) && level < 11 {
        match sp_expr(toks, k + 1, (level + 1) as u32) {
            Err(e) => Err(e),
            Ok((rhs, k2)) => {
                let bin = ExprModel::Bin {
                    op: toks[k]@,
                    left: Box::new(lhs),
                    right: Box::new(rhs),
                };
                if k2 <= k || k2 > toks.len() {
                    Ok((bin, k2))
                } else {
                    sp_rest(toks, k2, level, bin)
                }
            },
        }
    } else {
        Ok((lhs, k))
    }
}

/// The resolved name and tag of a declared symbol.
pub ghost struct SymModel {
    pub name: Seq<char>,
    pub tag: Seq<char>,
}

/// Tag-versus-name disambiguation at `k`: one identifier; if a `:` follows,
/// the first identifier is the tag and a second identifier, the real name,
/// is required; otherwise the identifier is the name and the tag is the
/// sentinel `"_"`.
pub open spec fn sp_symbol(toks: Seq<Token>, k: int) -> Result<(SymModel, int), ParseError> {
    if tok_kind(toks, k) != TokenType::Symbol {
        Err(ParseError::ExpectedSymbol { found: tok_kind(toks, k), span: tok_span(toks, k) })
    } else if tok_kind(toks, k + 1) == TokenType::Colon {
        if tok_kind(toks, k + 2) == TokenType::Symbol {
            Ok((SymModel { name: sym_text(toks, k + 2), tag: sym_text(toks, k) }, k + 3))
        } else {
            Err(
                ParseError::ExpectedSymbol {
                    found: tok_kind(toks, k + 2),
                    span: tok_span(toks, k + 2),
                },
            )
        }
    } else {
        Ok((SymModel { name: sym_text(toks, k), tag: "_"@ }, k + 1))
    }
}

/// One resolved top-level declaration: its name, its tag, and its optional
/// initializer expression.
pub ghost struct DeclModel {
    pub name: Seq<char>,
    pub tag: Seq<char>,
    pub init: Option<ExprModel>,
}

/// A declaration whose `new` keyword sits at `k`: the declared symbol, an
/// optional `=` initializer expression, and the terminating `;`.
pub open spec fn sp_decl(toks: Seq<Token>, k: int) -> Result<(DeclModel, int), ParseError> {
    match sp_symbol(toks, k + 1) {
        Err(e) => Err(e),
        Ok((sym, k2)) => {
            if tok_kind(toks, k2) == TokenType::Assign {
                match sp_expr(toks, k2 + 1, 0u32) {
                    Err(e) => Err(e),
                    Ok((e, k3)) => {
                        if tok_kind(toks, k3) == TokenType::Semicolon {
                            Ok(
                                (
                                    DeclModel { name: sym.name, tag: sym.tag, init: Some(e) },
                                    k3 + 1,
                                ),
                            )
                        } else {
                            Err(
                                ParseError::ExpectedSemicolon {
                                    found: tok_kind(toks, k3),
                                    span: tok_span(toks, k3),
                                },
                            )
                        }
                    },
                }
            } else {
                if tok_kind(toks, k2) == TokenType::Semicolon {
                    Ok((DeclModel { name: sym.name, tag: sym.tag, init: None }, k2 + 1))
                } else {
                    Err(
                        ParseError::ExpectedSemicolon {
                            found: tok_kind(toks, k2),
                            span: tok_span(toks, k2),
                        },
                    )
                }
            }
        },
    }
}

/// What a whole parse produces: the declarations recognized before the first
/// error, and the error itself if one stopped the parse.
pub ghost struct ParseOut {
    pub decls: Seq<DeclModel>,
    pub err: Option<ParseError>,
}

/// Scan the top-level tokens from `k`: a `new` keyword starts a declaration;
/// any other token is skipped; the first error aborts the parse, keeping the
/// declarations already recognized.
pub open spec fn sp_toplevel(toks: Seq<Token>, k: int) -> ParseOut
    decreases toks.len() - k,
{
    if k < 0 || k >= toks.len() {
        ParseOut { decls: Seq::<DeclModel>::empty(), err: None }
    } else if toks[k].token_type == TokenType::New {
        match sp_decl(toks, k) {
            Err(e) => ParseOut { decls: Seq::<DeclModel>::empty(), err: Some(e) },
            Ok((d, k2)) => {
                if k2 <= k || k2 > toks.len() {
                    ParseOut { decls: seq![d], err: None }
                } else {
                    let rest = sp_toplevel(toks, k2);
                    ParseOut { decls: seq![d] + rest.decls, err: rest.err }
                }
            },
        }
    } else {
        sp_toplevel(toks, k + 1)
    }
}

/// Prefix a run of already-recognized declarations onto a later parse
/// result.
pub open spec fn out_prepend(ds: Seq<DeclModel>, o: ParseOut) -> ParseOut {
    ParseOut { decls: ds + o.decls, err: o.err }
}

/// Whether tree node `n` renders declaration `d`: a `Variable` expression
/// with the declared name and tag, no raw tokens, and the initializer, if
/// any, as its only child.
pub open spec fn decl_node_matches(n: Node, d: DeclModel) -> bool {
    &&& (n.expr matches Expression::Variable(v) && v.name@ == d.name && v.tag@ == d.tag)
    &&& n.tokens@.len() == 0
    &&& match d.init {
        None => n.children@.len() == 0,
        Some(e) => n.children@.len() == 1 && expr_model(n.children@[0].expr) == e
            && n.children@[0].tokens@.len() == 0 && n.children@[0].children@.len() == 0,
    }
}

/// Recursive-descent parser: owns the full token sequence, a cursor index,
/// and the tree root it grows one declaration at a time.
pub struct Parser {
    tokens: Vec<Token>,
    current: usize,
    pub root: Node,
}

impl Parser {
    /// The token sequence being parsed.
    pub closed spec fn toks(&self) -> Seq<Token> {
        self.tokens@
    }

    /// The cursor index.
    pub closed spec fn spec_current(&self) -> int {
        self.current as int
    }

    /// The tree root, for contracts.
    pub closed spec fn spec_root(&self) -> Node {
        self.root
    }

    /// The cursor never passes the end of the token sequence.
    pub closed spec fn wf(&self) -> bool {
        self.current <= self.tokens@.len()
    }

    /// A fresh parser over the given tokens, with an empty `GlobalScope`
    /// root.
    pub fn new(tokens: Vec<Token>) -> (r: Parser)
        ensures
            r.wf(),
            r.toks() == tokens@,
            r.spec_current() == 0,
            r.spec_root().expr is GlobalScope,
            r.spec_root().tokens@.len() == 0,
            r.spec_root().children@.len() == 0,
    {
        Parser {
            tokens,
            current: 0,
            root: Node { expr: Expression::GlobalScope, tokens: Vec::new(), children: Vec::new() },
        }
    }

    /// The kind of the token at `k`, or `End` past the last token.
    fn kind_at(&self, k: usize) -> (r: TokenType)
        ensures
            r == tok_kind(self.toks(), k as int),
    {
        if k < self.tokens.len() {
            self.tokens[k].token_type
        } else {
            TokenType::End
        }
    }

    /// The span of the token at `k`, or the zero span past the last token.
    fn span_at(&self, k: usize) -> (r: Span)
        ensures
            r == tok_span(self.toks(), k as int),
    {
        if k < self.tokens.len() {
            let tk = &self.tokens[k];
            Span {
                line_start: tk.line_start,
                line_end: tk.line_end,
                column_start: tk.column_start,
                column_end: tk.column_end,
            }
        } else {
            Span { line_start: 0, line_end: 0, column_start: 0, column_end: 0 }
        }
    }

    /// The text payload of the token at `k`, or the empty string.
    fn text_at(&self, k: usize) -> (r: String)
        ensures
            r@ == sym_text(self.toks(), k as int),
    {
        if k < self.tokens.len() {
            match &self.tokens[k].value {
                Some(TokenValue::String(s)) => s.clone(),
                _ => String::new(),
            }
        } else {
            String::new()
        }
    }

    /// A copy of the payload of the token at `k`.
    fn value_at(&self, k: usize) -> (r: Option<TokenValue>)
        ensures
            (match r {
                Some(v) => Some(v@),
                None => None,
            }) == lit_value(self.toks(), k as int),
    {
        if k < self.tokens.len() {
            match &self.tokens[k].value {
                Some(TokenValue::String(s)) => Some(TokenValue::String(s.clone())),
                Some(TokenValue::Integer(i)) => Some(TokenValue::Integer(*i)),
                Some(TokenValue::Float(s)) => Some(TokenValue::Float(s.clone())),
                None => None,
            }
        } else {
            None
        }
    }

    /// A copy of the whole token at `k`; used for the operator slot of a
    /// binary operation node.
    fn token_at(&self, k: usize) -> (r: Token)
        requires
            0 <= k < self.toks().len(),
        ensures
            r@ == self.toks()[k as int]@,
    {
        let t = &self.tokens[k];
        Token {
            token_type: t.token_type,
            value: match &t.value {
                Some(TokenValue::String(s)) => Some(TokenValue::String(s.clone())),
                Some(TokenValue::Integer(i)) => Some(TokenValue::Integer(*i)),
                Some(TokenValue::Float(s)) => Some(TokenValue::Float(s.clone())),
                None => None,
            },
            line_start: t.line_start,
            line_end: t.line_end,
            column_start: t.column_start,
            column_end: t.column_end,
        }
    }

    /// Require an identifier at the cursor and consume it, handing back its
    /// text; otherwise report what was found instead.
    fn expect_symbol(&mut self) -> (r: Result<String, ParseError>)
        requires
            old(self).wf(),
        ensures
            final(self).wf(),
            final(self).toks() == old(self).toks(),
            final(self).spec_root() == old(self).spec_root(),
            tok_kind(old(self).toks(), old(self).spec_current()) == TokenType::Symbol ==> {
                &&& (r matches Ok(s) && s@ == sym_text(old(self).toks(), old(self).spec_current()))
                &&& final(self).spec_current() == old(self).spec_current() + 1
            },
            tok_kind(old(self).toks(), old(self).spec_current()) != TokenType::Symbol ==> {
                &&& r == Err::<String, ParseError>(
                    ParseError::ExpectedSymbol {
                        found: tok_kind(old(self).toks(), old(self).spec_current()),
                        span: tok_span(old(self).toks(), old(self).spec_current()),
                    },
                )
                &&& final(self).spec_current() == old(self).spec_current()
            },
    {
        let t = self.kind_at(self.current);
        if t == TokenType::Symbol {
            let n = self.tokens.len();
            proof {
                assert(self.current < n);
            }
            let s = self.text_at(self.current);
            self.current = self.current + 1;
            Ok(s)
        } else {
            Err(ParseError::ExpectedSymbol { found: t, span: self.span_at(self.current) })
        }
    }

    /// Require a semicolon at the cursor and consume it; otherwise report
    /// what was found instead.
    fn expect_semicolon(&mut self) -> (r: Result<TokenType, ParseError>)
        requires
            old(self).wf(),
        ensures
            final(self).wf(),
            final(self).toks() == old(self).toks(),
            final(self).spec_root() == old(self).spec_root(),
            tok_kind(old(self).toks(), old(self).spec_current()) == TokenType::Semicolon ==> {
                &&& r == Ok::<TokenType, ParseError>(TokenType::Semicolon)
                &&& final(self).spec_current() == old(self).spec_current() + 1
            },
            tok_kind(old(self).toks(), old(self).spec_current()) != TokenType::Semicolon ==> {
                &&& r == Err::<TokenType, ParseError>(
                    ParseError::ExpectedSemicolon {
                        found: tok_kind(old(self).toks(), old(self).spec_current()),
                        span: tok_span(old(self).toks(), old(self).spec_current()),
                    },
                )
                &&& final(self).spec_current() == old(self).spec_current()
            },
    {
        let t = self.kind_at(self.current);
        if t == TokenType::Semicolon {
            let n = self.tokens.len();
            proof {
                assert(self.current < n);
            }
            self.current = self.current + 1;
            Ok(TokenType::Semicolon)
        } else {
            Err(ParseError::ExpectedSemicolon { found: t, span: self.span_at(self.current) })
        }
    }

    /// Parse a declared symbol at the cursor, resolving the tag-versus-name
    /// ambiguity: `tag:name` yields both, a lone identifier gets the
    /// sentinel tag `"_"`.
    fn parse_symbol(&mut self) -> (r: Result<Node, ParseError>)
        requires
            old(self).wf(),
        ensures
            final(self).wf(),
            final(self).toks() == old(self).toks(),
            final(self).spec_root() == old(self).spec_root(),
            (match sp_symbol(old(self).toks(), old(self).spec_current()) {
                Ok(p) => {
                    &&& (r matches Ok(n) && (n.expr matches Expression::Variable(v)
                        && v.name@ == p.0.name && v.tag@ == p.0.tag) && n.tokens@.len() == 0
                        && n.children@.len() == 0)
                    &&& final(self).spec_current() == p.1
                    &&& old(self).spec_current() < p.1 <= old(self).toks().len()
                },
                Err(e) => r matches Err(e2) && e2 == e,
            }),
    {
        let first = match self.expect_symbol() {
            Ok(s) => s,
            Err(e) => {
                return Err(e);
            },
        };
        if self.kind_at(self.current) == TokenType::Colon {
            let n = self.tokens.len();
            proof {
                assert(self.current < n);
            }
            self.current = self.current + 1;
            let name = match self.expect_symbol() {
                Ok(s) => s,
                Err(e) => {
                    return Err(e);
                },
            };
            Ok(
                Node {
                    expr: Expression::Variable(Box::new(Variable { name: name, tag: first })),
                    tokens: Vec::new(),
                    children: Vec::new(),
                },
            )
        } else {
            Ok(
                Node {
                    expr: Expression::Variable(
                        Box::new(Variable { name: first, tag: String::from_str("_") }),
                    ),
                    tokens: Vec::new(),
                    children: Vec::new(),
                },
            )
        }
    }

    /// Parse a literal scalar at the cursor, with the already-parsed tag:
    /// an optional sign, then an integer or floating literal token.
    fn parse_literal_scalar(&mut self, tag: String) -> (r: Result<Expression, ParseError>)
        requires
            old(self).wf(),
        ensures
            final(self).wf(),
            final(self).toks() == old(self).toks(),
            final(self).spec_root() == old(self).spec_root(),
            (match sp_literal(old(self).toks(), old(self).spec_current(), tag@) {
                Ok(p) => {
                    &&& (r matches Ok(x) && expr_model(x) == p.0)
                    &&& final(self).spec_current() == p.1
                    &&& old(self).spec_current() < p.1 <= old(self).toks().len()
                },
                Err(e) => r matches Err(e2) && e2 == e,
            }),
    {
        let t = self.kind_at(self.current);
        let neg = t == TokenType::Minus;
        if t == TokenType::Plus || t == TokenType::Minus {
            let n = self.tokens.len();
            proof {
                assert(self.current < n);
            }
            self.current = self.current + 1;
        }
        let t1 = self.kind_at(self.current);
        if t1 == TokenType::Integer || t1 == TokenType::Float {
            let value = self.value_at(self.current);
            let n = self.tokens.len();
            proof {
                assert(self.current < n);
            }
            self.current = self.current + 1;
            Ok(
                Expression::LiteralScalar(
                    Box::new(LiteralScalar { tag: tag, negative: neg, value: value }),
                ),
            )
        } else {
            Err(
                ParseError::ExpectedExpression {
                    found: t1,
                    span: self.span_at(self.current),
                },
            )
        }
    }

    /// Parse a primary expression at the cursor: an identifier with an
    /// optional tag prefix, a literal scalar, or a parenthesized
    /// sub-expression.
    fn parse_primary(&mut self) -> (r: Result<Expression, ParseError>)
        requires
            old(self).wf(),
        ensures
            final(self).wf(),
            final(self).toks() == old(self).toks(),
            final(self).spec_root() == old(self).spec_root(),
            (match sp_primary(old(self).toks(), old(self).spec_current()) {
                Ok(p) => {
                    &&& (r matches Ok(x) && expr_model(x) == p.0)
                    &&& final(self).spec_current() == p.1
                    &&& old(self).spec_current() < p.1 <= old(self).toks().len()
                },
                Err(e) => r matches Err(e2) && e2 == e,
            }),
        decreases self.tokens@.len() - self.current, 0int, 0int,
    {
        let t = self.kind_at(self.current);
        if t == TokenType::Symbol {
            let n = self.tokens.len();
            proof {
                assert(self.current < n);
            }
            if self.kind_at(self.current + 1) == TokenType::Colon {
                let tag = self.text_at(self.current);
                proof {
                    assert(self.current + 1 < n);
                }
                self.current = self.current + 2;
                let t2 = self.kind_at(self.current);
                if t2 == TokenType::Symbol {
                    let name = self.text_at(self.current);
                    self.current = self.current + 1;
                    Ok(Expression::Variable(Box::new(Variable { name: name, tag: tag })))
                } else {
                    self.parse_literal_scalar(tag)
                }
            } else {
                let name = self.text_at(self.current);
                let n = self.tokens.len();
                proof {
                    assert(self.current < n);
                }
                self.current = self.current + 1;
                Ok(
                    Expression::Variable(
                        Box::new(Variable { name: name, tag: String::from_str("_") }),
                    ),
                )
            }
        } else if t == TokenType::Integer || t == TokenType::Float {
            self.parse_literal_scalar(String::from_str("_"))
        } else if t == TokenType::LeftBrace {
            let n = self.tokens.len();
            proof {
                assert(self.current < n);
                assert(expr_models(Seq::<Expression>::empty()) =~= Seq::<ExprModel>::empty());
            }
            self.current = self.current + 1;
            let elems = match self.parse_array_rest(Vec::new()) {
                Ok(v) => v,
                Err(e) => {
                    return Err(e);
                },
            };
            let arr = Expression::ArrayLiteral(Box::new(ArrayLiteral { elements: elems }));
            proof {
                assert(expr_model(arr)->Arr_elements =~= expr_models(
                    (arr->ArrayLiteral_0).elements@,
                ));
            }
            Ok(arr)
        } else if t == TokenType::LeftBracket {
            let n = self.tokens.len();
            proof {
                assert(self.current < n);
            }
            self.current = self.current + 1;
            let inner = match self.parse_level(0) {
                Ok(x) => x,
                Err(e) => {
                    return Err(e);
                },
            };
            let tc = self.kind_at(self.current);
            if tc == TokenType::RightBracket {
                let n2 = self.tokens.len();
                proof {
                    assert(self.current < n2);
                }
                self.current = self.current + 1;
                Ok(inner)
            } else {
                Err(
                    ParseError::ExpectedRightBracket {
                        found: tc,
                        span: self.span_at(self.current),
                    },
                )
            }
        } else {
            Err(
                ParseError::ExpectedExpression {
                    found: t,
                    span: self.span_at(self.current),
                },
            )
        }
    }

    /// Parse a unary-level expression at the cursor: a sign directly before
    /// a numeric literal reads as a signed literal scalar; other prefix
    /// operators apply right-to-left; otherwise a primary expression with its
    /// postfix operators.
    fn parse_unary(&mut self) -> (r: Result<Expression, ParseError>)
        requires
            old(self).wf(),
        ensures
            final(self).wf(),
            final(self).toks() == old(self).toks(),
            final(self).spec_root() == old(self).spec_root(),
            (match sp_unary(old(self).toks(), old(self).spec_current()) {
                Ok(p) => {
                    &&& (r matches Ok(x) && expr_model(x) == p.0)
                    &&& final(self).spec_current() == p.1
                    &&& old(self).spec_current() < p.1 <= old(self).toks().len()
                },
                Err(e) => r matches Err(e2) && e2 == e,
            }),
        decreases self.tokens@.len() - self.current, 8int, 0int,
    {
        let t = self.kind_at(self.current);
        if t == TokenType::Plus || t == TokenType::Minus {
            let n = self.tokens.len();
            proof {
                assert(self.current < n);
            }
            let t1 = self.kind_at(self.current + 1);
            if t1 == TokenType::Integer || t1 == TokenType::Float {
                return self.parse_literal_scalar(String::from_str("_"));
            }
            let op = self.token_at(self.current);
            self.current = self.current + 1;
            let inner = match self.parse_unary() {
                Ok(x) => x,
                Err(e) => {
                    return Err(e);
                },
            };
            return Ok(
                Expression::UnaryOperation(
                    Box::new(
                        UnaryOperation { operator: op, operand: Box::new(inner), prefix: true },
                    ),
                ),
            );
        }
        if t == TokenType::Bang || t == TokenType::PlusPlus || t == TokenType::MinusMinus {
            let n = self.tokens.len();
            proof {
                assert(self.current < n);
            }
            let op = self.token_at(self.current);
            self.current = self.current + 1;
            let inner = match self.parse_unary() {
                Ok(x) => x,
                Err(e) => {
                    return Err(e);
                },
            };
            return Ok(
                Expression::UnaryOperation(
                    Box::new(
                        UnaryOperation { operator: op, operand: Box::new(inner), prefix: true },
                    ),
                ),
            );
        }
        let prim = match self.parse_primary() {
            Ok(x) => x,
            Err(e) => {
                return Err(e);
            },
        };
        self.parse_postfix_rest(prim)
    }

    /// Absorb postfix `++`/`--` operators after an already-parsed expression.
    fn parse_postfix_rest(&mut self, e: Expression) -> (r: Result<Expression, ParseError>)
        requires
            old(self).wf(),
        ensures
            final(self).wf(),
            final(self).toks() == old(self).toks(),
            final(self).spec_root() == old(self).spec_root(),
            (match sp_postfix_rest(old(self).toks(), old(self).spec_current(), expr_model(e)) {
                Ok(p) => {
                    &&& (r matches Ok(x) && expr_model(x) == p.0)
                    &&& final(self).spec_current() == p.1
                    &&& old(self).spec_current() <= p.1 <= old(self).toks().len()
                },
                Err(e2) => r matches Err(e3) && e3 == e2,
            }),
        decreases self.tokens@.len() - self.current, 6int, 0int,
    {
        let t = self.kind_at(self.current);
        if t == TokenType::PlusPlus || t == TokenType::MinusMinus {
            let n = self.tokens.len();
            proof {
                assert(self.current < n);
            }
            let op = self.token_at(self.current);
            self.current = self.current + 1;
            let u = Expression::UnaryOperation(
                Box::new(UnaryOperation { operator: op, operand: Box::new(e), prefix: false }),
            );
            self.parse_postfix_rest(u)
        } else {
            Ok(e)
        }
    }

    /// Parse the elements of a brace-delimited array literal, the `{`
    /// already consumed, appending onto the elements gathered so far.
    fn parse_array_rest(&mut self, elems: Vec<Expression>) -> (r: Result<
        Vec<Expression>,
        ParseError,
    >)
        requires
            old(self).wf(),
        ensures
            final(self).wf(),
            final(self).toks() == old(self).toks(),
            final(self).spec_root() == old(self).spec_root(),
            (match sp_array_elems(
                old(self).toks(),
                old(self).spec_current(),
                expr_models(elems@),
            ) {
                Ok(p) => {
                    &&& (r matches Ok(v) && expr_models(v@) == p.0)
                    &&& final(self).spec_current() == p.1
                    &&& old(self).spec_current() < p.1 <= old(self).toks().len()
                },
                Err(e) => r matches Err(e2) && e2 == e,
            }),
        decreases self.tokens@.len() - self.current, 21int, 0int,
    {
        let t = self.kind_at(self.current);
        if t == TokenType::RightBrace {
            let n = self.tokens.len();
            proof {
                assert(self.current < n);
            }
            self.current = self.current + 1;
            return Ok(elems);
        }
        let e = match self.parse_level(0) {
            Ok(x) => x,
            Err(er) => {
                return Err(er);
            },
        };
        let ghost m0 = expr_models(elems@);
        let ghost me = expr_model(e);
        let mut elems = elems;
        elems.push(e);
        proof {
            assert(expr_models(elems@) =~= m0.push(me));
        }
        let t2 = self.kind_at(self.current);
        if t2 == TokenType::Comma {
            let n = self.tokens.len();
            proof {
                assert(self.current < n);
            }
            self.current = self.current + 1;
            self.parse_array_rest(elems)
        } else if t2 == TokenType::RightBrace {
            let n = self.tokens.len();
            proof {
                assert(self.current < n);
            }
            self.current = self.current + 1;
            Ok(elems)
        } else {
            Err(
                ParseError::ExpectedRightBrace {
                    found: t2,
                    span: self.span_at(self.current),
                },
            )
        }
    }

    /// Parse an expression of the given binding level at the cursor: parse
    /// the next-higher level, then absorb operators of this level
    /// left-associatively.
    fn parse_level(&mut self, level: u32) -> (r: Result<Expression, ParseError>)
        requires
            old(self).wf(),
            level <= 11,
        ensures
            final(self).wf(),
            final(self).toks() == old(self).toks(),
            final(self).spec_root() == old(self).spec_root(),
            (match sp_expr(old(self).toks(), old(self).spec_current(), level) {
                Ok(p) => {
                    &&& (r matches Ok(x) && expr_model(x) == p.0)
                    &&& final(self).spec_current() == p.1
                    &&& old(self).spec_current() < p.1 <= old(self).toks().len()
                },
                Err(e) => r matches Err(e2) && e2 == e,
            }),
        decreases self.tokens@.len() - self.current, (if level <= 11 {
            20int - level
        } else {
            9int
        }), 1int,
    {
        if level >= 11 {
            return self.parse_unary();
        }
        let lhs = match self.parse_level(level + 1) {
            Ok(x) => x,
            Err(e) => {
                return Err(e);
            },
        };
        self.parse_level_rest(level, lhs)
    }

    /// Absorb operators of exactly `level` after an already-parsed left
    /// subtree, building left-associative binary operation nodes.
    fn parse_level_rest(&mut self, level: u32, lhs: Expression) -> (r: Result<
        Expression,
        ParseError,
    >)
        requires
            old(self).wf(),
            level < 11,
        ensures
            final(self).wf(),
            final(self).toks() == old(self).toks(),
            final(self).spec_root() == old(self).spec_root(),
            (match sp_rest(old(self).toks(), old(self).spec_current(), level, expr_model(lhs)) {
                Ok(p) => {
                    &&& (r matches Ok(x) && expr_model(x) == p.0)
                    &&& final(self).spec_current() == p.1
                    &&& old(self).spec_current() <= p.1 <= old(self).toks().len()
                },
                Err(e) => r matches Err(e2) && e2 == e,
            }),
        decreases self.tokens@.len() - self.current, (if level <= 11 {
            20int - level
        } else {
            9int
        }), 2int,
    {
        let t = self.kind_at(self.current);
        let matches_level = match binary_level(t) {
            Some(l) => l == level,
            None => false,
        };
        if !matches_level {
            return Ok(lhs);
        }
        let op_tok = self.token_at(self.current);
        let n = self.tokens.len();
        proof {
            assert(self.current < n);
        }
        self.current = self.current + 1;
        let rhs = match self.parse_level(level + 1) {
            Ok(x) => x,
            Err(e) => {
                return Err(e);
            },
        };
        let bin = Expression::BinaryOperation(
            Box::new(BinaryOperation { operator: op_tok, left: Box::new(lhs), right: Box::new(rhs) }),
        );
        self.parse_level_rest(level, bin)
    }

    /// Parse one initializer expression at the cursor into a childless node.
    fn parse_expression(&mut self) -> (r: Result<Node, ParseError>)
        requires
            old(self).wf(),
        ensures
            final(self).wf(),
            final(self).toks() == old(self).toks(),
            final(self).spec_root() == old(self).spec_root(),
            (match sp_expr(old(self).toks(), old(self).spec_current(), 0u32) {
                Ok(p) => {
                    &&& (r matches Ok(n) && expr_model(n.expr) == p.0 && n.tokens@.len() == 0
                        && n.children@.len() == 0)
                    &&& final(self).spec_current() == p.1
                    &&& old(self).spec_current() < p.1 <= old(self).toks().len()
                },
                Err(e) => r matches Err(e2) && e2 == e,
            }),
    {
        match self.parse_level(0) {
            Ok(x) => Ok(Node { expr: x, tokens: Vec::new(), children: Vec::new() }),
            Err(e) => Err(e),
        }
    }

    /// Parse one declaration whose `new` keyword sits at the cursor: the
    /// declared symbol, an optional `=` initializer attached as the node's
    /// only child, and the terminating `;`.
    fn parse_declaration(&mut self) -> (r: Result<Node, ParseError>)
        requires
            old(self).wf(),
            tok_kind(old(self).toks(), old(self).spec_current()) != TokenType::End,
        ensures
            final(self).wf(),
            final(self).toks() == old(self).toks(),
            final(self).spec_root() == old(self).spec_root(),
            (match sp_decl(old(self).toks(), old(self).spec_current()) {
                Ok(p) => {
                    &&& (r matches Ok(n) && decl_node_matches(n, p.0))
                    &&& final(self).spec_current() == p.1
                    &&& old(self).spec_current() < p.1 <= old(self).toks().len()
                },
                Err(e) => r matches Err(e2) && e2 == e,
            }),
    {
        let n = self.tokens.len();
        proof {
            assert(self.current < n);
        }
        self.current = self.current + 1;
        let mut node = match self.parse_symbol() {
            Ok(nd) => nd,
            Err(e) => {
                return Err(e);
            },
        };
        if self.kind_at(self.current) == TokenType::Assign {
            let n2 = self.tokens.len();
            proof {
                assert(self.current < n2);
            }
            self.current = self.current + 1;
            let child = match self.parse_expression() {
                Ok(c) => c,
                Err(e) => {
                    return Err(e);
                },
            };
            node.children.push(child);
        }
        match self.expect_semicolon() {
            Ok(_) => {},
            Err(e) => {
                return Err(e);
            },
        }
        Ok(node)
    }

    /// Scan the top-level tokens: each `new` keyword starts a declaration
    /// whose node is appended to the root's children; any other top-level
    /// token is skipped; the first error aborts the parse, keeping the
    /// declarations already committed.
    pub fn parse(&mut self) -> (r: Result<(), ParseError>)
        requires
            old(self).wf(),
        ensures
            final(self).wf(),
            final(self).toks() == old(self).toks(),
            final(self).spec_root().expr == old(self).spec_root().expr,
            final(self).spec_root().tokens == old(self).spec_root().tokens,
            ({
                let out = sp_toplevel(old(self).toks(), old(self).spec_current());
                &&& r == (match out.err {
                    None => Ok::<(), ParseError>(()),
                    Some(e) => Err::<(), ParseError>(e),
                })
                &&& final(self).spec_root().children@.len() == old(self).spec_root().children@.len() + out.decls.len()
                &&& (forall|i: int|
                    0 <= i < old(self).spec_root().children@.len() ==> final(self).spec_root().children@[i] == old(self).spec_root().children@[i])
                &&& (forall|i: int|
                    0 <= i < out.decls.len() ==> decl_node_matches(
                        final(self).spec_root().children@[old(self).spec_root().children@.len()
                            + i],
                        #[trigger] out.decls[i],
                    ))
            }),
    {
        let ghost toks = self.toks();
        let ghost k0 = self.spec_current();
        let ghost base = self.spec_root().children@.len();
        let ghost mut done: Seq<DeclModel> = Seq::<DeclModel>::empty();
        proof {
            assert(done + sp_toplevel(toks, k0).decls =~= sp_toplevel(toks, k0).decls);
        }
        loop
            invariant_except_break
                self.wf(),
                self.toks() == toks,
                toks == old(self).toks(),
                k0 == old(self).spec_current(),
                self.spec_root().expr == old(self).spec_root().expr,
                self.spec_root().tokens == old(self).spec_root().tokens,
                base == old(self).spec_root().children@.len(),
                0 <= self.spec_current() <= toks.len(),
                self.spec_root().children@.len() == base + done.len(),
                forall|i: int|
                    0 <= i < base ==> self.spec_root().children@[i] == old(self).spec_root().children@[i],
                forall|i: int|
                    0 <= i < done.len() ==> decl_node_matches(
                        self.spec_root().children@[base + i],
                        #[trigger] done[i],
                    ),
                sp_toplevel(toks, k0) == out_prepend(
                    done,
                    sp_toplevel(toks, self.spec_current()),
                ),
            ensures
                self.wf(),
                self.toks() == toks,
                toks == old(self).toks(),
                k0 == old(self).spec_current(),
                self.spec_root().expr == old(self).spec_root().expr,
                self.spec_root().tokens == old(self).spec_root().tokens,
                self.spec_root().children@.len() == base + done.len(),
                forall|i: int|
                    0 <= i < base ==> self.spec_root().children@[i] == old(self).spec_root().children@[i],
                forall|i: int|
                    0 <= i < done.len() ==> decl_node_matches(
                        self.spec_root().children@[base + i],
                        #[trigger] done[i],
                    ),
                sp_toplevel(toks, k0) == (ParseOut { decls: done, err: None }),
            decreases toks.len() - self.spec_current(),
        {
            if self.current >= self.tokens.len() {
                proof {
                    assert(sp_toplevel(toks, self.spec_current()) == (ParseOut {
                        decls: Seq::<DeclModel>::empty(),
                        err: None::<ParseError>,
                    }));
                    assert(done + Seq::<DeclModel>::empty() =~= done);
                }
                break ;
            }
            let t = self.tokens[self.current].token_type;
            if t == TokenType::New {
                let ghost pre = self.spec_current();
                let node = match self.parse_declaration() {
                    Ok(nd) => nd,
                    Err(e) => {
                        proof {
                            assert(sp_toplevel(toks, pre).err == Some(e));
                            assert(sp_toplevel(toks, pre).decls
                                =~= Seq::<DeclModel>::empty());
                            assert(done + Seq::<DeclModel>::empty() =~= done);
                        }
                        return Err(e);
                    },
                };
                let ghost done0 = done;
                self.root.children.push(node);
                proof {
                    let p = match sp_decl(toks, pre) {
                        Ok(p) => p,
                        Err(_) => arbitrary(),
                    };
                    done = done0.push(p.0);
                    assert(sp_toplevel(toks, pre) == out_prepend(
                        seq![p.0],
                        sp_toplevel(toks, self.spec_current()),
                    ));
                    assert(done0 + (seq![p.0] + sp_toplevel(
                        toks,
                        self.spec_current(),
                    ).decls) =~= done + sp_toplevel(toks, self.spec_current()).decls);
                }
            } else {
                proof {
                    assert(sp_toplevel(toks, self.spec_current()) == sp_toplevel(
                        toks,
                        self.spec_current() + 1,
                    ));
                }
                self.current = self.current + 1;
            }
        }
        Ok(())
    }
}

} // verus!
