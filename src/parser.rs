use vstd::prelude::*;

use crate::lexer::{
    chars_of, lemma_scan_advances, scan, LazyTokenStream, ScanStep, Token, TokenError,
    TokenErrorKind, TokenView,
};

verus! {

/// A node of the syntax tree.
#[derive(Debug)]
pub enum ASTNode {
    /// A literal: an integer or a string token.
    Terminal { token: Token },
    /// A bare name.
    Identifier { name: String },
    /// A call: the first child is the operator, the rest are operands.
    SExpr { children: Vec<ASTNode> },
    /// The top-level statements, in order.
    Program { statements: Vec<ASTNode> },
    /// A `defun` definition form.
    Defun { name: String, params: Vec<String>, body: Vec<ASTNode> },
}

/// The mathematical model of a syntax tree.
pub enum AstView {
    Terminal(TokenView),
    Identifier(Seq<char>),
    SExpr(Seq<AstView>),
    Program(Seq<AstView>),
    Defun(Seq<char>, Seq<Seq<char>>, Seq<AstView>),
}

pub open spec fn names_view(v: Seq<String>) -> Seq<Seq<char>> {
    Seq::new(v.len(), |i: int| v[i]@)
}

pub open spec fn ast_view(n: ASTNode) -> AstView
    decreases n,
{
    match n {
        ASTNode::Terminal { token } => AstView::Terminal(token@),
        ASTNode::Identifier { name } => AstView::Identifier(name@),
        ASTNode::SExpr { children } => AstView::SExpr(
            Seq::new(
                children@.len(),
                |i: int|
                    if 0 <= i < children@.len() {
                        ast_view(children@[i])
                    } else {
                        AstView::SExpr(seq![])
                    },
            ),
        ),
        ASTNode::Program { statements } => AstView::Program(
            Seq::new(
                statements@.len(),
                |i: int|
                    if 0 <= i < statements@.len() {
                        ast_view(statements@[i])
                    } else {
                        AstView::SExpr(seq![])
                    },
            ),
        ),
        ASTNode::Defun { name, params, body } => AstView::Defun(
            name@,
            names_view(params@),
            Seq::new(
                body@.len(),
                |i: int|
                    if 0 <= i < body@.len() {
                        ast_view(body@[i])
                    } else {
                        AstView::SExpr(seq![])
                    },
            ),
        ),
    }
}

impl View for ASTNode {
    type V = AstView;

    open spec fn view(&self) -> AstView {
        ast_view(*self)
    }
}

/// The models of a sequence of nodes.
pub open spec fn nodes_view(v: Seq<ASTNode>) -> Seq<AstView> {
    Seq::new(v.len(), |i: int| v[i]@)
}

/// The model of a call is built from the models of its children.
pub proof fn lemma_sexpr_view(v: Vec<ASTNode>)
    ensures
        ast_view(ASTNode::SExpr { children: v }) == AstView::SExpr(nodes_view(v@)),
{
    assert(ast_view(ASTNode::SExpr { children: v })->SExpr_0 =~= nodes_view(v@));
}

/// The model of a program is built from the models of its statements.
pub proof fn lemma_program_view(v: Vec<ASTNode>)
    ensures
        ast_view(ASTNode::Program { statements: v }) == AstView::Program(nodes_view(v@)),
{
    assert(ast_view(ASTNode::Program { statements: v })->Program_0 =~= nodes_view(v@));
}

/// The model of a definition is built from the models of its parts.
pub proof fn lemma_defun_view(name: String, params: Vec<String>, v: Vec<ASTNode>)
    ensures
        ast_view(ASTNode::Defun { name, params, body: v }) == AstView::Defun(
            name@,
            names_view(params@),
            nodes_view(v@),
        ),
{
    assert(ast_view(ASTNode::Defun { name, params, body: v })->Defun_2 =~= nodes_view(v@));
}

/// A copy of the names, with the same models.
pub fn copy_names(v: &[String]) -> (r: Vec<String>)
    ensures
        names_view(r@) == names_view(v@),
{
    let mut out: Vec<String> = Vec::new();
    let mut i: usize = 0;
    while i < v.len()
        invariant
            i <= v@.len(),
            out@.len() == i,
            forall|k: int| 0 <= k < i ==> (#[trigger] out@[k])@ == v@[k]@,
        decreases v@.len() - i,
    {
        out.push(v[i].clone());
        i = i + 1;
    }
    assert(names_view(out@) =~= names_view(v@));
    out
}

impl ASTNode {
    /// A deep copy of the node, with the same model.
    pub fn copy_node(&self) -> (r: ASTNode)
        ensures
            r@ == self@,
        decreases self,
    {
        match self {
            ASTNode::Terminal { token } => ASTNode::Terminal { token: token.duplicate() },
            ASTNode::Identifier { name } => ASTNode::Identifier { name: name.clone() },
            ASTNode::SExpr { children } => {
                let c = copy_children(self, children.as_slice());
                let r = ASTNode::SExpr { children: c };
                proof {
                    lemma_sexpr_view(c);
                    lemma_sexpr_view(*children);
                }
                r
            },
            ASTNode::Program { statements } => {
                let c = copy_children(self, statements.as_slice());
                let r = ASTNode::Program { statements: c };
                proof {
                    lemma_program_view(c);
                    lemma_program_view(*statements);
                }
                r
            },
            ASTNode::Defun { name, params, body } => {
                let c = copy_children(self, body.as_slice());
                let p = copy_names(params.as_slice());
                let n = name.clone();
                proof {
                    lemma_defun_view(n, p, c);
                    lemma_defun_view(*name, *params, *body);
                }
                let r = ASTNode::Defun { name: n, params: p, body: c };
                r
            },
        }
    }
}

/// A deep copy of a sequence of nodes, with the same models.
pub fn copy_nodes(v: &[ASTNode]) -> (r: Vec<ASTNode>)
    ensures
        nodes_view(r@) == nodes_view(v@),
{
    let mut out: Vec<ASTNode> = Vec::new();
    let mut i: usize = 0;
    while i < v.len()
        invariant
            i <= v@.len(),
            out@.len() == i,
            forall|k: int| 0 <= k < i ==> (#[trigger] out@[k])@ == v@[k]@,
        decreases v@.len() - i,
    {
        out.push(v[i].copy_node());
        i = i + 1;
    }
    assert(nodes_view(out@) =~= nodes_view(v@));
    out
}

/// A deep copy of nodes that are the children of `parent`.
fn copy_children(parent: &ASTNode, v: &[ASTNode]) -> (r: Vec<ASTNode>)
    requires
        forall|i: int| 0 <= i < v@.len() ==> decreases_to!(*parent => v@[i]),
    ensures
        nodes_view(r@) == nodes_view(v@),
    decreases parent, 0nat,
{
    let mut out: Vec<ASTNode> = Vec::new();
    let mut i: usize = 0;
    while i < v.len()
        invariant
            i <= v@.len(),
            out@.len() == i,
            forall|k: int| 0 <= k < i ==> (#[trigger] out@[k])@ == v@[k]@,
            forall|i: int| 0 <= i < v@.len() ==> decreases_to!(*parent => v@[i]),
        decreases v@.len() - i,
    {
        out.push(v[i].copy_node());
        i = i + 1;
    }
    assert(nodes_view(out@) =~= nodes_view(v@));
    out
}

/// Why the text could not be read as a program.
#[derive(Debug, Clone, Copy, PartialEq, Eq, Structural)]
pub enum ParseErrorKind {
    /// A string literal has no closing quote.
    UnterminatedString,
    /// An integer literal does not fit in 64 signed bits.
    IntegerOverflow,
    /// The text ended where more was needed.
    UnexpectedEnd,
    /// A `)` stands where an expression was expected.
    UnmatchedCloseParen,
    /// A `defun` form lacks its name or its parameter list.
    MalformedDefinition,
}

#[derive(Debug)]
pub struct ParseError {
    pub kind: ParseErrorKind,
    pub message: String,
}

pub open spec fn token_error_kind(k: TokenErrorKind) -> ParseErrorKind {
    match k {
        TokenErrorKind::UnterminatedString => ParseErrorKind::UnterminatedString,
        TokenErrorKind::IntegerOverflow => ParseErrorKind::IntegerOverflow,
    }
}

impl ParseError {
    pub fn new(kind: ParseErrorKind, message: &str) -> (r: ParseError)
        ensures
            r.kind == kind,
            r.message@ == message@,
    {
        ParseError { kind, message: message.to_owned() }
    }

    pub fn from_token_error(e: TokenError) -> (r: ParseError)
        ensures
            r.kind == token_error_kind(e.kind),
            r.message@ == e.message@,
    {
        let kind = match e.kind {
            TokenErrorKind::UnterminatedString => ParseErrorKind::UnterminatedString,
            TokenErrorKind::IntegerOverflow => ParseErrorKind::IntegerOverflow,
        };
        ParseError { kind, message: e.message }
    }
}

/// The word that introduces a definition form.
pub open spec fn defun_word() -> Seq<char> {
    seq!['d', 'e', 'f', 'u', 'n']
}

/// The result of reading a list from position `pos`: the items and the position after them.
pub type ListResult<T> = Result<(Seq<T>, int), ParseErrorKind>;

/// Puts `prefix` in front of the items of a successful result.
pub open spec fn prepend<T>(prefix: Seq<T>, r: ListResult<T>) -> ListResult<T> {
    match r {
        Ok((items, e)) => Ok((prefix + items, e)),
        Err(k) => Err(k),
    }
}

pub proof fn lemma_prepend_twice<T>(a: Seq<T>, b: Seq<T>, r: ListResult<T>)
    ensures
        prepend(a, prepend(b, r)) == prepend(a + b, r),
{
    if let Ok((items, e)) = r {
        assert(a + (b + items) =~= (a + b) + items);
    }
}

/// The expression that starts at `pos`, and the position after it.
pub open spec fn parse_expr_at(s: Seq<char>, pos: int) -> Result<(AstView, int), ParseErrorKind>
    decreases s.len() - pos, 0nat,
{
    match scan(s, pos) {
        ScanStep::End => Err(ParseErrorKind::UnexpectedEnd),
        ScanStep::Error(k) => Err(token_error_kind(k)),
        ScanStep::Token(t, e) => {
            if !(pos < e <= s.len()) {
                Err(ParseErrorKind::UnexpectedEnd)
            } else {
                match t {
                    TokenView::CloseParen => Err(ParseErrorKind::UnmatchedCloseParen),
                    TokenView::Id(n) => Ok((AstView::Identifier(n), e)),
                    TokenView::OpenParen => match scan(s, e) {
                        ScanStep::End => Err(ParseErrorKind::UnexpectedEnd),
                        ScanStep::Token(TokenView::Id(n), e2) if n == defun_word() && e < e2
                            <= s.len() => parse_defun_at(s, e2),
                        _ => match parse_items_at(s, e) {
                            Ok((items, e3)) => Ok((AstView::SExpr(items), e3)),
                            Err(k) => Err(k),
                        },
                    },
                    _ => Ok((AstView::Terminal(t), e)),
                }
            }
        },
    }
}

/// The expressions from `pos` up to a closing parenthesis, and the position after it.
pub open spec fn parse_items_at(s: Seq<char>, pos: int) -> ListResult<AstView>
    decreases s.len() - pos, 1nat,
{
    match scan(s, pos) {
        ScanStep::End => Err(ParseErrorKind::UnexpectedEnd),
        ScanStep::Error(k) => Err(token_error_kind(k)),
        ScanStep::Token(TokenView::CloseParen, e) => Ok((seq![], e)),
        ScanStep::Token(_, _) => match parse_expr_at(s, pos) {
            Ok((n, e)) => if pos < e <= s.len() {
                prepend(seq![n], parse_items_at(s, e))
            } else {
                Err(ParseErrorKind::UnexpectedEnd)
            },
            Err(k) => Err(k),
        },
    }
}

/// The identifiers from `pos` up to a closing parenthesis, and the position after it.
pub open spec fn parse_params_at(s: Seq<char>, pos: int) -> ListResult<Seq<char>>
    decreases s.len() - pos,
{
    match scan(s, pos) {
        ScanStep::End => Err(ParseErrorKind::UnexpectedEnd),
        ScanStep::Error(k) => Err(token_error_kind(k)),
        ScanStep::Token(TokenView::CloseParen, e) => Ok((seq![], e)),
        ScanStep::Token(TokenView::Id(n), e) => if pos < e <= s.len() {
            prepend(seq![n], parse_params_at(s, e))
        } else {
            Err(ParseErrorKind::UnexpectedEnd)
        },
        ScanStep::Token(_, _) => Err(ParseErrorKind::MalformedDefinition),
    }
}

/// A definition whose `defun` word ends at `pos`: its name, its parameters, its body.
pub open spec fn parse_defun_at(s: Seq<char>, pos: int) -> Result<(AstView, int), ParseErrorKind>
    decreases s.len() - pos, 2nat,
{
    match scan(s, pos) {
        ScanStep::End => Err(ParseErrorKind::UnexpectedEnd),
        ScanStep::Error(k) => Err(token_error_kind(k)),
        ScanStep::Token(TokenView::Id(name), e1) => match scan(s, e1) {
            ScanStep::End => Err(ParseErrorKind::UnexpectedEnd),
            ScanStep::Error(k) => Err(token_error_kind(k)),
            ScanStep::Token(TokenView::OpenParen, e2) => match parse_params_at(s, e2) {
                Ok((params, e3)) => if pos < e3 <= s.len() {
                    match parse_items_at(s, e3) {
                        Ok((body, e4)) => Ok((AstView::Defun(name, params, body), e4)),
                        Err(k) => Err(k),
                    }
                } else {
                    Err(ParseErrorKind::UnexpectedEnd)
                },
                Err(k) => Err(k),
            },
            ScanStep::Token(_, _) => Err(ParseErrorKind::MalformedDefinition),
        },
        ScanStep::Token(_, _) => Err(ParseErrorKind::MalformedDefinition),
    }
}

/// The top-level statements from `pos` to the end of the text.
pub open spec fn parse_statements_at(s: Seq<char>, pos: int) -> ListResult<AstView>
    decreases s.len() - pos,
{
    match scan(s, pos) {
        ScanStep::End => Ok((seq![], s.len() as int)),
        ScanStep::Error(k) => Err(token_error_kind(k)),
        ScanStep::Token(_, _) => match parse_expr_at(s, pos) {
            Ok((n, e)) => if pos < e <= s.len() {
                prepend(seq![n], parse_statements_at(s, e))
            } else {
                Err(ParseErrorKind::UnexpectedEnd)
            },
            Err(k) => Err(k),
        },
    }
}

/// The program that the whole text `s` denotes.
pub open spec fn parse_program(s: Seq<char>) -> Result<AstView, ParseErrorKind> {
    match parse_statements_at(s, 0) {
        Ok((statements, _)) => Ok(AstView::Program(statements)),
        Err(k) => Err(k),
    }
}

/// An expression read from the text ends after it starts, within the text.
pub proof fn lemma_parse_expr_advances(s: Seq<char>, pos: int)
    requires
        0 <= pos <= s.len(),
    ensures
        parse_expr_at(s, pos) matches Ok((_, e)) ==> pos < e <= s.len(),
    decreases s.len() - pos, 0nat,
{
    lemma_scan_advances(s, pos);
    if let ScanStep::Token(TokenView::OpenParen, e) = scan(s, pos) {
        lemma_scan_advances(s, e);
        match scan(s, e) {
            ScanStep::Token(TokenView::Id(n), e2) => {
                if n == defun_word() {
                    lemma_parse_defun_advances(s, e2);
                } else {
                    lemma_parse_items_advances(s, e);
                }
            },
            _ => {
                lemma_parse_items_advances(s, e);
            },
        }
    }
}

pub proof fn lemma_parse_items_advances(s: Seq<char>, pos: int)
    requires
        0 <= pos <= s.len(),
    ensures
        parse_items_at(s, pos) matches Ok((_, e)) ==> pos < e <= s.len(),
    decreases s.len() - pos, 1nat,
{
    lemma_scan_advances(s, pos);
    match scan(s, pos) {
        ScanStep::Token(TokenView::CloseParen, _) => {},
        ScanStep::Token(_, _) => {
            lemma_parse_expr_advances(s, pos);
            if let Ok((_, e)) = parse_expr_at(s, pos) {
                lemma_parse_items_advances(s, e);
            }
        },
        _ => {},
    }
}

pub proof fn lemma_parse_params_advances(s: Seq<char>, pos: int)
    requires
        0 <= pos <= s.len(),
    ensures
        parse_params_at(s, pos) matches Ok((_, e)) ==> pos < e <= s.len(),
    decreases s.len() - pos,
{
    lemma_scan_advances(s, pos);
    if let ScanStep::Token(TokenView::Id(_), e) = scan(s, pos) {
        lemma_parse_params_advances(s, e);
    }
}

pub proof fn lemma_parse_defun_advances(s: Seq<char>, pos: int)
    requires
        0 <= pos <= s.len(),
    ensures
        parse_defun_at(s, pos) matches Ok((_, e)) ==> pos < e <= s.len(),
    decreases s.len() - pos, 2nat,
{
    lemma_scan_advances(s, pos);
    if let ScanStep::Token(TokenView::Id(_), e1) = scan(s, pos) {
        lemma_scan_advances(s, e1);
        if let ScanStep::Token(TokenView::OpenParen, e2) = scan(s, e1) {
            lemma_parse_params_advances(s, e2);
            if let Ok((_, e3)) = parse_params_at(s, e2) {
                lemma_parse_items_advances(s, e3);
            }
        }
    }
}

fn is_defun_word(n: &String) -> (r: bool)
    ensures
        r == (n@ == defun_word()),
{
    let cs = chars_of(n.as_str());
    let r = cs.len() == 5 && cs[0] == 'd' && cs[1] == 'e' && cs[2] == 'f' && cs[3] == 'u' && cs[4]
        == 'n';
    proof {
        if r {
            assert(cs@ =~= defun_word());
        }
    }
    r
}

/// Takes the next token, failing where the text has ended.
fn read_token_or_fail(tokens: &mut LazyTokenStream) -> (r: Result<Token, ParseError>)
    requires
        old(tokens).wf(),
    ensures
        final(tokens).wf(),
        final(tokens).source() == old(tokens).source(),
        match scan(old(tokens).source(), old(tokens).pos()) {
            ScanStep::End => r matches Err(err) && err.kind == ParseErrorKind::UnexpectedEnd,
            ScanStep::Error(k) => r matches Err(err) && err.kind == token_error_kind(k),
            ScanStep::Token(t, e) => r matches Ok(tok) && tok@ == t && final(tokens).pos() == e,
        },
{
    match tokens.advance() {
        Ok(Some(t)) => Ok(t),
        Ok(None) => Err(
            ParseError::new(
                ParseErrorKind::UnexpectedEnd,
                "Attempted to read the next token, but there are none left.",
            ),
        ),
        Err(e) => Err(ParseError::from_token_error(e)),
    }
}

/// Reads one expression.
pub fn parse_expr(tokens: &mut LazyTokenStream) -> (r: Result<ASTNode, ParseError>)
    requires
        old(tokens).wf(),
    ensures
        final(tokens).wf(),
        final(tokens).source() == old(tokens).source(),
        match parse_expr_at(old(tokens).source(), old(tokens).pos()) {
            Ok((n, e)) => r matches Ok(node) && node@ == n && final(tokens).pos() == e,
            Err(k) => r matches Err(err) && err.kind == k,
        },
    decreases old(tokens).source().len() - old(tokens).pos(), 0nat,
{
    let ghost s = tokens.source();
    let ghost p0 = tokens.pos();
    proof {
        lemma_scan_advances(s, p0);
    }
    let tok = read_token_or_fail(tokens)?;
    match tok {
        Token::CloseParen => Err(
            ParseError::new(
                ParseErrorKind::UnmatchedCloseParen,
                "Found ')' where an expression was expected.",
            ),
        ),
        Token::Id(name) => Ok(ASTNode::Identifier { name }),
        Token::OpenParen => {
            let ghost e = tokens.pos();
            proof {
                lemma_scan_advances(s, e);
            }
            let next = match tokens.peek() {
                Ok(n) => n,
                Err(err) => {
                    return Err(ParseError::from_token_error(err));
                },
            };
            match next {
                None => Err(
                    ParseError::new(
                        ParseErrorKind::UnexpectedEnd,
                        "The text ended inside an expression.",
                    ),
                ),
                Some(Token::Id(n)) => {
                    if is_defun_word(&n) {
                        let _ = tokens.advance();
                        parse_defun(tokens)
                    } else {
                        let children = parse_items(tokens)?;
                        proof {
                            lemma_sexpr_view(children);
                        }
                        Ok(ASTNode::SExpr { children })
                    }
                },
                Some(_) => {
                    let children = parse_items(tokens)?;
                    proof {
                        lemma_sexpr_view(children);
                    }
                    Ok(ASTNode::SExpr { children })
                },
            }
        },
        other => Ok(ASTNode::Terminal { token: other }),
    }
}

/// Reads expressions up to a closing parenthesis, and takes that parenthesis.
fn parse_items(tokens: &mut LazyTokenStream) -> (r: Result<Vec<ASTNode>, ParseError>)
    requires
        old(tokens).wf(),
    ensures
        final(tokens).wf(),
        final(tokens).source() == old(tokens).source(),
        match parse_items_at(old(tokens).source(), old(tokens).pos()) {
            Ok((items, e)) => r matches Ok(v) && nodes_view(v@) == items && final(tokens).pos()
                == e,
            Err(k) => r matches Err(err) && err.kind == k,
        },
    decreases old(tokens).source().len() - old(tokens).pos(), 1nat,
{
    let ghost s = tokens.source();
    let ghost p0 = tokens.pos();
    let mut nodes: Vec<ASTNode> = Vec::new();
    assert(parse_items_at(s, p0) == prepend(nodes_view(nodes@), parse_items_at(s, p0))) by {
        if let Ok((items, e)) = parse_items_at(s, p0) {
            assert(nodes_view(nodes@) + items =~= items);
        }
    }
    loop
        invariant
            tokens.wf(),
            tokens.source() == s,
            s == old(tokens).source(),
            p0 == old(tokens).pos(),
            p0 <= tokens.pos() <= s.len(),
            parse_items_at(s, p0) == prepend(nodes_view(nodes@), parse_items_at(s, tokens.pos())),
        decreases s.len() - tokens.pos(),
    {
        let ghost p = tokens.pos();
        proof {
            lemma_scan_advances(s, p);
            lemma_parse_expr_advances(s, p);
        }
        let next = match tokens.peek() {
            Ok(n) => n,
            Err(err) => {
                return Err(ParseError::from_token_error(err));
            },
        };
        match next {
            None => {
                return Err(
                    ParseError::new(
                        ParseErrorKind::UnexpectedEnd,
                        "Expected ')', but the text ended.",
                    ),
                );
            },
            Some(Token::CloseParen) => {
                let _ = tokens.advance();
                assert(nodes_view(nodes@) + seq![] =~= nodes_view(nodes@));
                return Ok(nodes);
            },
            Some(_) => {
                let node = parse_expr(tokens)?;
                proof {
                    lemma_prepend_twice(
                        nodes_view(nodes@),
                        seq![node@],
                        parse_items_at(s, tokens.pos()),
                    );
                }
                let ghost before = nodes@;
                nodes.push(node);
                assert(nodes_view(nodes@) =~= nodes_view(before) + seq![node@]);
            },
        }
    }
}

/// Reads identifiers up to a closing parenthesis, and takes that parenthesis.
fn parse_params(tokens: &mut LazyTokenStream) -> (r: Result<Vec<String>, ParseError>)
    requires
        old(tokens).wf(),
    ensures
        final(tokens).wf(),
        final(tokens).source() == old(tokens).source(),
        match parse_params_at(old(tokens).source(), old(tokens).pos()) {
            Ok((ps, e)) => r matches Ok(v) && names_view(v@) == ps && final(tokens).pos() == e,
            Err(k) => r matches Err(err) && err.kind == k,
        },
{
    let ghost s = tokens.source();
    let ghost p0 = tokens.pos();
    let mut ids: Vec<String> = Vec::new();
    assert(parse_params_at(s, p0) == prepend(names_view(ids@), parse_params_at(s, p0))) by {
        if let Ok((items, e)) = parse_params_at(s, p0) {
            assert(names_view(ids@) + items =~= items);
        }
    }
    loop
        invariant
            tokens.wf(),
            tokens.source() == s,
            s == old(tokens).source(),
            p0 == old(tokens).pos(),
            p0 <= tokens.pos() <= s.len(),
            parse_params_at(s, p0) == prepend(names_view(ids@), parse_params_at(s, tokens.pos())),
        decreases s.len() - tokens.pos(),
    {
        let ghost p = tokens.pos();
        proof {
            lemma_scan_advances(s, p);
        }
        let tok = read_token_or_fail(tokens)?;
        match tok {
            Token::CloseParen => {
                assert(names_view(ids@) + seq![] =~= names_view(ids@));
                return Ok(ids);
            },
            Token::Id(n) => {
                proof {
                    lemma_prepend_twice(
                        names_view(ids@),
                        seq![n@],
                        parse_params_at(s, tokens.pos()),
                    );
                }
                let ghost before = ids@;
                ids.push(n);
                assert(names_view(ids@) =~= names_view(before) + seq![n@]);
            },
            _ => {
                return Err(
                    ParseError::new(
                        ParseErrorKind::MalformedDefinition,
                        "Found a parameter that is not an identifier.",
                    ),
                );
            },
        }
    }
}

/// Reads the rest of a definition form, after its `defun` word.
fn parse_defun(tokens: &mut LazyTokenStream) -> (r: Result<ASTNode, ParseError>)
    requires
        old(tokens).wf(),
    ensures
        final(tokens).wf(),
        final(tokens).source() == old(tokens).source(),
        match parse_defun_at(old(tokens).source(), old(tokens).pos()) {
            Ok((n, e)) => r matches Ok(node) && node@ == n && final(tokens).pos() == e,
            Err(k) => r matches Err(err) && err.kind == k,
        },
    decreases old(tokens).source().len() - old(tokens).pos(), 2nat,
{
    let ghost s = tokens.source();
    let ghost p0 = tokens.pos();
    proof {
        lemma_scan_advances(s, p0);
    }
    let name = match read_token_or_fail(tokens)? {
        Token::Id(n) => n,
        _ => {
            return Err(
                ParseError::new(
                    ParseErrorKind::MalformedDefinition,
                    "Expected the name of the definition.",
                ),
            );
        },
    };
    proof {
        lemma_scan_advances(s, tokens.pos());
    }
    match read_token_or_fail(tokens)? {
        Token::OpenParen => {},
        _ => {
            return Err(
                ParseError::new(
                    ParseErrorKind::MalformedDefinition,
                    "Expected the parameter list of the definition.",
                ),
            );
        },
    }
    proof {
        lemma_parse_params_advances(s, tokens.pos());
    }
    let params = parse_params(tokens)?;
    let body = parse_items(tokens)?;
    proof {
        lemma_defun_view(name, params, body);
    }
    Ok(ASTNode::Defun { name, params, body })
}

/// Reads all the statements of a program.
pub fn parse(tokens: &mut LazyTokenStream) -> (r: Result<ASTNode, ParseError>)
    requires
        old(tokens).wf(),
    ensures
        final(tokens).wf(),
        match parse_statements_at(old(tokens).source(), old(tokens).pos()) {
            Ok((statements, _)) => r matches Ok(node) && node@ == AstView::Program(statements),
            Err(k) => r matches Err(err) && err.kind == k,
        },
{
    let ghost s = tokens.source();
    let ghost p0 = tokens.pos();
    let mut statements: Vec<ASTNode> = Vec::new();
    assert(parse_statements_at(s, p0) == prepend(
        nodes_view(statements@),
        parse_statements_at(s, p0),
    )) by {
        if let Ok((items, e)) = parse_statements_at(s, p0) {
            assert(nodes_view(statements@) + items =~= items);
        }
    }
    loop
        invariant
            tokens.wf(),
            tokens.source() == s,
            s == old(tokens).source(),
            p0 == old(tokens).pos(),
            p0 <= tokens.pos() <= s.len(),
            parse_statements_at(s, p0) == prepend(
                nodes_view(statements@),
                parse_statements_at(s, tokens.pos()),
            ),
        decreases s.len() - tokens.pos(),
    {
        let ghost p = tokens.pos();
        proof {
            lemma_scan_advances(s, p);
            lemma_parse_expr_advances(s, p);
        }
        let next = match tokens.peek() {
            Ok(n) => n,
            Err(err) => {
                return Err(ParseError::from_token_error(err));
            },
        };
        if next.is_none() {
            assert(nodes_view(statements@) + seq![] =~= nodes_view(statements@));
            proof {
                lemma_program_view(statements);
            }
            return Ok(ASTNode::Program { statements });
        }
        let node = parse_expr(tokens)?;
        proof {
            lemma_prepend_twice(
                nodes_view(statements@),
                seq![node@],
                parse_statements_at(s, tokens.pos()),
            );
        }
        let ghost before = statements@;
        statements.push(node);
        assert(nodes_view(statements@) =~= nodes_view(before) + seq![node@]);
    }
}

} // verus!
