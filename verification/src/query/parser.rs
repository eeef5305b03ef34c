//! The parser: from tokens to the tree of a filter expression, by recursive
//! descent. No input is refused: where the grammar is not met, the tree is
//! what could be read, and a missing operand is the empty string literal.

use crate::query::tokenizer::{
    is_lexical, lemma_lexed_tokens_are_lexical, lex, Lexer, Token, TokenView,
};
use crate::text::same_text;
use vstd::prelude::*;

verus! {

/// A node of the tree of a filter expression.
#[derive(Debug)]
pub enum AstNode {
    /// Two operands and what joins them: `AND`, `OR`, or a comparison
    /// operator as it was written.
    Binary { left: Box<AstNode>, op: String, right: Box<AstNode> },
    /// A field reference as it was written.
    Field(String),
    StringLiteral(String),
    /// A number, kept as the text that was written.
    NumberLiteral(String),
    FunctionCall { name: String, args: Vec<AstNode> },
    /// An expression in parentheses.
    Grouping(Box<AstNode>),
}

/// What an [`AstNode`] holds, with each string as its sequence of characters.
pub enum AstView {
    Binary { left: Box<AstView>, op: Seq<char>, right: Box<AstView> },
    Field(Seq<char>),
    StringLiteral(Seq<char>),
    NumberLiteral(Seq<char>),
    FunctionCall { name: Seq<char>, args: Seq<AstView> },
    Grouping(Box<AstView>),
}

impl AstNode {
    /// The tree as a value of [`AstView`].
    pub open spec fn tree(&self) -> AstView
        decreases self,
    {
        match self {
            AstNode::Binary { left, op, right } => AstView::Binary {
                left: Box::new(left.tree()),
                op: op@,
                right: Box::new(right.tree()),
            },
            AstNode::Field(name) => AstView::Field(name@),
            AstNode::StringLiteral(value) => AstView::StringLiteral(value@),
            AstNode::NumberLiteral(value) => AstView::NumberLiteral(value@),
            AstNode::FunctionCall { name, args } => AstView::FunctionCall {
                name: name@,
                args: Seq::new(
                    args@.len(),
                    |i: int|
                        if 0 <= i < args@.len() {
                            args@[i].tree()
                        } else {
                            AstView::StringLiteral(Seq::empty())
                        },
                ),
            },
            AstNode::Grouping(inner) => AstView::Grouping(Box::new(inner.tree())),
        }
    }
}

impl View for AstNode {
    type V = AstView;

    open spec fn view(&self) -> AstView {
        self.tree()
    }
}

impl Clone for AstNode {
    fn clone(&self) -> (copy: Self)
        ensures
            copy@ == self@,
        decreases self,
    {
        match self {
            AstNode::Binary { left, op, right } => AstNode::Binary {
                left: Box::new((&**left).clone()),
                op: op.clone(),
                right: Box::new((&**right).clone()),
            },
            AstNode::Field(name) => AstNode::Field(name.clone()),
            AstNode::StringLiteral(value) => AstNode::StringLiteral(value.clone()),
            AstNode::NumberLiteral(value) => AstNode::NumberLiteral(value.clone()),
            AstNode::FunctionCall { name, args } => {
                let mut copies: Vec<AstNode> = Vec::new();
                let mut i: usize = 0;
                while i < args.len()
                    invariant
                        self is FunctionCall,
                        args@ == self->FunctionCall_args@,
                        i <= args.len(),
                        copies.len() == i,
                        forall|j: int| 0 <= j < i ==> copies@[j]@ == args@[j]@,
                    decreases args.len() - i,
                {
                    copies.push(args[i].clone());
                    i += 1;
                }
                let copy = AstNode::FunctionCall { name: name.clone(), args: copies };
                assert(copy@->FunctionCall_args =~= self@->FunctionCall_args);
                copy
            },
            AstNode::Grouping(inner) => AstNode::Grouping(Box::new((&**inner).clone())),
        }
    }
}

/// The token at index `pos`; behind the last token stands the end of input.
pub open spec fn peek(ts: Seq<TokenView>, pos: nat) -> TokenView {
    if pos < ts.len() {
        ts[pos as int]
    } else {
        TokenView::EOF
    }
}

/// How many tokens are taken by moving on from `pos`: one, or none at the
/// end of the tokens.
pub open spec fn step(ts: Seq<TokenView>, pos: nat) -> nat {
    if pos < ts.len() {
        1
    } else {
        0
    }
}

/// How many tokens stand at or behind `pos`.
pub open spec fn tokens_left(ts: Seq<TokenView>, pos: nat) -> nat {
    if pos < ts.len() {
        (ts.len() - pos) as nat
    } else {
        0
    }
}

/// Whether `op` is one of the comparison operators `==`, `!=`, `>`, `<`,
/// `>=`, `<=` and `=~`.
pub open spec fn is_comparison(op: Seq<char>) -> bool {
    op == "=="@ || op == "!="@ || op == ">"@ || op == "<"@ || op == ">="@ || op == "<="@ || op
        == "=~"@
}

/// The node that joins two operands.
pub open spec fn binary(left: AstView, op: Seq<char>, right: AstView) -> AstView {
    AstView::Binary { left: Box::new(left), op, right: Box::new(right) }
}

/// The leaf that stands for a missing operand.
pub open spec fn missing() -> AstView {
    AstView::StringLiteral(Seq::empty())
}

/// `primary := "(" expr ")" | Function "(" arguments ")" | Field | String | Number`
///
/// The primary that starts at `pos`, and how many tokens it takes. Behind a
/// group and behind the arguments of a call one more token is taken, whatever
/// it is. A function name that no parenthesis follows is a call without
/// arguments. A token that starts no primary gives [`missing`] and is left
/// where it is.
pub open spec fn primary(ts: Seq<TokenView>, pos: nat) -> (AstView, nat)
    decreases tokens_left(ts, pos), 0nat,
{
    match peek(ts, pos) {
        TokenView::LParen => {
            let (inner, n) = or_expr(ts, pos + 1);
            (AstView::Grouping(Box::new(inner)), 1 + n + step(ts, pos + 1 + n))
        },
        TokenView::Function(name) => {
            if peek(ts, pos + 1) is LParen {
                let (args, n) = arguments(ts, pos + 2);
                (AstView::FunctionCall { name, args }, 2 + n + step(ts, pos + 2 + n))
            } else {
                (AstView::FunctionCall { name, args: Seq::empty() }, 1)
            }
        },
        TokenView::Field(name) => (AstView::Field(name), 1),
        TokenView::StringLiteral(value) => (AstView::StringLiteral(value), 1),
        TokenView::NumberLiteral(value) => (AstView::NumberLiteral(value), 1),
        _ => (missing(), 0),
    }
}

/// `arguments := ( primary ","? )*`
///
/// The arguments of a call from `pos` on, and how many tokens they take, the
/// closing parenthesis not counted. The list ends before a closing
/// parenthesis, at the end of the input, and where neither a primary nor a
/// comma can be read. A comma behind an argument is passed over; one that
/// stands where an argument is due leaves [`missing`] in its place.
pub open spec fn arguments(ts: Seq<TokenView>, pos: nat) -> (Seq<AstView>, nat)
    decreases tokens_left(ts, pos), 1nat,
{
    if peek(ts, pos) is RParen || peek(ts, pos) is EOF {
        (Seq::empty(), 0)
    } else {
        let (arg, n) = primary(ts, pos);
        if peek(ts, pos + n) is RParen {
            (seq![arg], n)
        } else {
            let comma: nat = if peek(ts, pos + n) is Comma {
                1
            } else {
                0
            };
            if n + comma == 0 {
                (Seq::empty(), 0)
            } else {
                let (rest, m) = arguments(ts, pos + n + comma);
                (seq![arg] + rest, n + comma + m)
            }
        }
    }
}

/// `comparison := primary ( compare_op primary )?`
///
/// One comparison at most: a second operator behind it is left where it is.
pub open spec fn comparison(ts: Seq<TokenView>, pos: nat) -> (AstView, nat)
    decreases tokens_left(ts, pos), 1nat,
{
    let (left, n) = primary(ts, pos);
    match peek(ts, pos + n) {
        TokenView::Operator(op) => {
            if is_comparison(op) {
                let (right, m) = primary(ts, pos + n + 1);
                (binary(left, op, right), n + 1 + m)
            } else {
                (left, n)
            }
        },
        _ => (left, n),
    }
}

/// The comparisons that `and` joins to `left` from `pos` on, folded to the
/// left, and how many tokens they take.
pub open spec fn and_tail(ts: Seq<TokenView>, pos: nat, left: AstView) -> (AstView, nat)
    decreases tokens_left(ts, pos), 2nat,
{
    if peek(ts, pos) is And {
        let (right, n) = comparison(ts, pos + 1);
        let (node, m) = and_tail(ts, pos + 1 + n, binary(left, "AND"@, right));
        (node, 1 + n + m)
    } else {
        (left, 0)
    }
}

/// `and_expr := comparison ( "and" comparison )*`, left-associative.
pub open spec fn and_expr(ts: Seq<TokenView>, pos: nat) -> (AstView, nat)
    decreases tokens_left(ts, pos), 3nat,
{
    let (first, n) = comparison(ts, pos);
    let (node, m) = and_tail(ts, pos + n, first);
    (node, n + m)
}

/// The conjunctions that `or` joins to `left` from `pos` on, folded to the
/// left, and how many tokens they take.
pub open spec fn or_tail(ts: Seq<TokenView>, pos: nat, left: AstView) -> (AstView, nat)
    decreases tokens_left(ts, pos), 4nat,
{
    if peek(ts, pos) is Or {
        let (right, n) = and_expr(ts, pos + 1);
        let (node, m) = or_tail(ts, pos + 1 + n, binary(left, "OR"@, right));
        (node, 1 + n + m)
    } else {
        (left, 0)
    }
}

/// `or_expr := and_expr ( "or" and_expr )*`, left-associative; `and` binds
/// tighter than `or`.
pub open spec fn or_expr(ts: Seq<TokenView>, pos: nat) -> (AstView, nat)
    decreases tokens_left(ts, pos), 5nat,
{
    let (first, n) = and_expr(ts, pos);
    let (node, m) = or_tail(ts, pos + n, first);
    (node, n + m)
}

/// The tree of the expression that the tokens `ts` start with. Tokens behind
/// it are not looked at.
pub open spec fn parse_tokens(ts: Seq<TokenView>) -> AstView {
    or_expr(ts, 0).0
}

/// The tree of the filter expression `text`.
pub open spec fn parse_text(text: Seq<char>) -> AstView {
    parse_tokens(lex(text))
}

/// Whether a primary can start with `token`.
pub open spec fn starts_primary(token: TokenView) -> bool {
    token is LParen || token is Function || token is Field || token is StringLiteral
        || token is NumberLiteral
}

/// A primary takes at least one token where one can start, and else takes
/// none and is the leaf for a missing operand.
pub proof fn lemma_primary_takes_its_first_token(ts: Seq<TokenView>, pos: nat)
    ensures
        starts_primary(peek(ts, pos)) ==> primary(ts, pos).1 >= 1,
        !starts_primary(peek(ts, pos)) ==> primary(ts, pos) == (missing(), 0nat),
{
}

/// The arguments of a call end without taking a token exactly before a
/// closing parenthesis, the end of the input, a connective and an operator.
pub proof fn lemma_arguments_end(ts: Seq<TokenView>, pos: nat)
    ensures
        arguments(ts, pos).1 == 0 <==> (peek(ts, pos) is RParen || peek(ts, pos) is EOF || peek(
            ts,
            pos,
        ) is And || peek(ts, pos) is Or || peek(ts, pos) is Operator),
        arguments(ts, pos).1 == 0 ==> arguments(ts, pos).0.len() == 0,
{
    lemma_primary_takes_its_first_token(ts, pos);
}

proof fn lemma_primary_in_bounds(ts: Seq<TokenView>, pos: nat)
    requires
        pos <= ts.len(),
    ensures
        pos + primary(ts, pos).1 <= ts.len(),
    decreases tokens_left(ts, pos), 0nat,
{
    match peek(ts, pos) {
        TokenView::LParen => {
            lemma_or_expr_in_bounds(ts, pos + 1);
        },
        TokenView::Function(name) => {
            if peek(ts, pos + 1) is LParen {
                lemma_arguments_in_bounds(ts, pos + 2);
            }
        },
        _ => {},
    }
}

proof fn lemma_arguments_in_bounds(ts: Seq<TokenView>, pos: nat)
    requires
        pos <= ts.len(),
    ensures
        pos + arguments(ts, pos).1 <= ts.len(),
    decreases tokens_left(ts, pos), 1nat,
{
    if !(peek(ts, pos) is RParen || peek(ts, pos) is EOF) {
        lemma_primary_in_bounds(ts, pos);
        let n = primary(ts, pos).1;
        if !(peek(ts, pos + n) is RParen) {
            let comma: nat = if peek(ts, pos + n) is Comma {
                1
            } else {
                0
            };
            if n + comma != 0 {
                lemma_arguments_in_bounds(ts, pos + n + comma);
            }
        }
    }
}

proof fn lemma_comparison_in_bounds(ts: Seq<TokenView>, pos: nat)
    requires
        pos <= ts.len(),
    ensures
        pos + comparison(ts, pos).1 <= ts.len(),
    decreases tokens_left(ts, pos), 1nat,
{
    lemma_primary_in_bounds(ts, pos);
    let n = primary(ts, pos).1;
    match peek(ts, pos + n) {
        TokenView::Operator(op) => {
            if is_comparison(op) {
                lemma_primary_in_bounds(ts, pos + n + 1);
            }
        },
        _ => {},
    }
}

proof fn lemma_and_tail_in_bounds(ts: Seq<TokenView>, pos: nat, left: AstView)
    requires
        pos <= ts.len(),
    ensures
        pos + and_tail(ts, pos, left).1 <= ts.len(),
    decreases tokens_left(ts, pos), 2nat,
{
    if peek(ts, pos) is And {
        lemma_comparison_in_bounds(ts, pos + 1);
        let (right, n) = comparison(ts, pos + 1);
        lemma_and_tail_in_bounds(ts, pos + 1 + n, binary(left, "AND"@, right));
    }
}

proof fn lemma_and_expr_in_bounds(ts: Seq<TokenView>, pos: nat)
    requires
        pos <= ts.len(),
    ensures
        pos + and_expr(ts, pos).1 <= ts.len(),
    decreases tokens_left(ts, pos), 3nat,
{
    lemma_comparison_in_bounds(ts, pos);
    let (first, n) = comparison(ts, pos);
    lemma_and_tail_in_bounds(ts, pos + n, first);
}

proof fn lemma_or_tail_in_bounds(ts: Seq<TokenView>, pos: nat, left: AstView)
    requires
        pos <= ts.len(),
    ensures
        pos + or_tail(ts, pos, left).1 <= ts.len(),
    decreases tokens_left(ts, pos), 4nat,
{
    if peek(ts, pos) is Or {
        lemma_and_expr_in_bounds(ts, pos + 1);
        let (right, n) = and_expr(ts, pos + 1);
        lemma_or_tail_in_bounds(ts, pos + 1 + n, binary(left, "OR"@, right));
    }
}

proof fn lemma_or_expr_in_bounds(ts: Seq<TokenView>, pos: nat)
    requires
        pos <= ts.len(),
    ensures
        pos + or_expr(ts, pos).1 <= ts.len(),
    decreases tokens_left(ts, pos), 5nat,
{
    lemma_and_expr_in_bounds(ts, pos);
    let (first, n) = and_expr(ts, pos);
    lemma_or_tail_in_bounds(ts, pos + n, first);
}

/// Parsing never fails and never reads behind the tokens: an expression that
/// starts inside them ends inside them.
pub proof fn lemma_parse_stays_in_bounds(ts: Seq<TokenView>, pos: nat)
    requires
        pos <= ts.len(),
    ensures
        pos + or_expr(ts, pos).1 <= ts.len(),
{
    lemma_or_expr_in_bounds(ts, pos);
}

/// Whether `op` can join two operands: `AND`, `OR` or a comparison operator.
pub open spec fn is_operator(op: Seq<char>) -> bool {
    op == "AND"@ || op == "OR"@ || is_comparison(op)
}

/// Whether every node of the tree that joins two operands does so by an
/// operator of the language.
pub open spec fn well_formed(node: AstView) -> bool
    decreases node,
{
    match node {
        AstView::Binary { left, op, right } => is_operator(op) && well_formed(*left)
            && well_formed(*right),
        AstView::FunctionCall { name, args } => forall|i: int|
            0 <= i < args.len() ==> well_formed(#[trigger] args[i]),
        AstView::Grouping(inner) => well_formed(*inner),
        _ => true,
    }
}

proof fn lemma_primary_well_formed(ts: Seq<TokenView>, pos: nat)
    ensures
        well_formed(primary(ts, pos).0),
    decreases tokens_left(ts, pos), 0nat,
{
    match peek(ts, pos) {
        TokenView::LParen => {
            lemma_or_expr_well_formed(ts, pos + 1);
            let inner = or_expr(ts, pos + 1).0;
            assert(primary(ts, pos).0 == AstView::Grouping(Box::new(inner)));
        },
        TokenView::Function(name) => {
            if peek(ts, pos + 1) is LParen {
                lemma_arguments_well_formed(ts, pos + 2);
                let args = arguments(ts, pos + 2).0;
                assert(primary(ts, pos).0 == AstView::FunctionCall { name, args });
            } else {
                assert(primary(ts, pos).0 == AstView::FunctionCall {
                    name,
                    args: Seq::<AstView>::empty(),
                });
            }
        },
        _ => {},
    }
}

proof fn lemma_arguments_well_formed(ts: Seq<TokenView>, pos: nat)
    ensures
        forall|i: int|
            0 <= i < arguments(ts, pos).0.len() ==> well_formed(#[trigger] arguments(ts, pos).0[i]),
    decreases tokens_left(ts, pos), 1nat,
{
    if !(peek(ts, pos) is RParen || peek(ts, pos) is EOF) {
        lemma_primary_well_formed(ts, pos);
        let n = primary(ts, pos).1;
        if !(peek(ts, pos + n) is RParen) {
            let comma: nat = if peek(ts, pos + n) is Comma {
                1
            } else {
                0
            };
            if n + comma != 0 {
                lemma_arguments_well_formed(ts, pos + n + comma);
                let arg = primary(ts, pos).0;
                let rest = arguments(ts, pos + n + comma).0;
                assert(arguments(ts, pos).0 == seq![arg] + rest);
                assert forall|i: int| 0 <= i < (seq![arg] + rest).len() implies well_formed(
                    #[trigger] (seq![arg] + rest)[i],
                ) by {
                    if i > 0 {
                        assert((seq![arg] + rest)[i] == rest[i - 1]);
                    }
                }
            }
        } else {
            assert(arguments(ts, pos).0 == seq![primary(ts, pos).0]);
        }
    }
}

proof fn lemma_comparison_well_formed(ts: Seq<TokenView>, pos: nat)
    ensures
        well_formed(comparison(ts, pos).0),
    decreases tokens_left(ts, pos), 1nat,
{
    lemma_primary_well_formed(ts, pos);
    let n = primary(ts, pos).1;
    match peek(ts, pos + n) {
        TokenView::Operator(op) => {
            if is_comparison(op) {
                lemma_primary_well_formed(ts, pos + n + 1);
            }
        },
        _ => {},
    }
}

proof fn lemma_and_tail_well_formed(ts: Seq<TokenView>, pos: nat, left: AstView)
    requires
        well_formed(left),
    ensures
        well_formed(and_tail(ts, pos, left).0),
    decreases tokens_left(ts, pos), 2nat,
{
    if peek(ts, pos) is And {
        lemma_comparison_well_formed(ts, pos + 1);
        let (right, n) = comparison(ts, pos + 1);
        lemma_and_tail_well_formed(ts, pos + 1 + n, binary(left, "AND"@, right));
    }
}

proof fn lemma_and_expr_well_formed(ts: Seq<TokenView>, pos: nat)
    ensures
        well_formed(and_expr(ts, pos).0),
    decreases tokens_left(ts, pos), 3nat,
{
    lemma_comparison_well_formed(ts, pos);
    let (first, n) = comparison(ts, pos);
    lemma_and_tail_well_formed(ts, pos + n, first);
}

proof fn lemma_or_tail_well_formed(ts: Seq<TokenView>, pos: nat, left: AstView)
    requires
        well_formed(left),
    ensures
        well_formed(or_tail(ts, pos, left).0),
    decreases tokens_left(ts, pos), 4nat,
{
    if peek(ts, pos) is Or {
        lemma_and_expr_well_formed(ts, pos + 1);
        let (right, n) = and_expr(ts, pos + 1);
        lemma_or_tail_well_formed(ts, pos + 1 + n, binary(left, "OR"@, right));
    }
}

proof fn lemma_or_expr_well_formed(ts: Seq<TokenView>, pos: nat)
    ensures
        well_formed(or_expr(ts, pos).0),
    decreases tokens_left(ts, pos), 5nat,
{
    lemma_and_expr_well_formed(ts, pos);
    let (first, n) = and_expr(ts, pos);
    lemma_or_tail_well_formed(ts, pos + n, first);
}

/// Whatever the tokens are, the tree that is parsed from them joins operands
/// by `AND`, by `OR` and by the seven comparison operators only.
pub proof fn lemma_parsed_tree_is_well_formed(ts: Seq<TokenView>, pos: nat)
    ensures
        well_formed(or_expr(ts, pos).0),
{
    lemma_or_expr_well_formed(ts, pos);
}

/// Whether every call in the tree is a call of `has`.
pub open spec fn calls_has_only(node: AstView) -> bool
    decreases node,
{
    match node {
        AstView::Binary { left, op, right } => calls_has_only(*left) && calls_has_only(*right),
        AstView::FunctionCall { name, args } => name == "has"@ && forall|i: int|
            0 <= i < args.len() ==> calls_has_only(#[trigger] args[i]),
        AstView::Grouping(inner) => calls_has_only(*inner),
        _ => true,
    }
}

/// Whether every token of `ts` is one that the scanner can give.
pub open spec fn all_lexical(ts: Seq<TokenView>) -> bool {
    forall|i: int| 0 <= i < ts.len() ==> is_lexical(#[trigger] ts[i])
}

proof fn lemma_primary_calls_has(ts: Seq<TokenView>, pos: nat)
    requires
        all_lexical(ts),
    ensures
        calls_has_only(primary(ts, pos).0),
    decreases tokens_left(ts, pos), 0nat,
{
    match peek(ts, pos) {
        TokenView::LParen => {
            lemma_or_expr_calls_has(ts, pos + 1);
            let inner = or_expr(ts, pos + 1).0;
            assert(primary(ts, pos).0 == AstView::Grouping(Box::new(inner)));
        },
        TokenView::Function(name) => {
            assert(is_lexical(ts[pos as int]));
            if peek(ts, pos + 1) is LParen {
                lemma_arguments_call_has(ts, pos + 2);
                let args = arguments(ts, pos + 2).0;
                assert(primary(ts, pos).0 == AstView::FunctionCall { name, args });
            } else {
                assert(primary(ts, pos).0 == AstView::FunctionCall {
                    name,
                    args: Seq::<AstView>::empty(),
                });
            }
        },
        _ => {},
    }
}

proof fn lemma_arguments_call_has(ts: Seq<TokenView>, pos: nat)
    requires
        all_lexical(ts),
    ensures
        forall|i: int|
            0 <= i < arguments(ts, pos).0.len() ==> calls_has_only(
                #[trigger] arguments(ts, pos).0[i],
            ),
    decreases tokens_left(ts, pos), 1nat,
{
    if !(peek(ts, pos) is RParen || peek(ts, pos) is EOF) {
        lemma_primary_calls_has(ts, pos);
        let n = primary(ts, pos).1;
        if !(peek(ts, pos + n) is RParen) {
            let comma: nat = if peek(ts, pos + n) is Comma {
                1
            } else {
                0
            };
            if n + comma != 0 {
                lemma_arguments_call_has(ts, pos + n + comma);
                let arg = primary(ts, pos).0;
                let rest = arguments(ts, pos + n + comma).0;
                assert(arguments(ts, pos).0 == seq![arg] + rest);
                assert forall|i: int| 0 <= i < (seq![arg] + rest).len() implies calls_has_only(
                    #[trigger] (seq![arg] + rest)[i],
                ) by {
                    if i > 0 {
                        assert((seq![arg] + rest)[i] == rest[i - 1]);
                    }
                }
            }
        } else {
            assert(arguments(ts, pos).0 == seq![primary(ts, pos).0]);
        }
    }
}

proof fn lemma_comparison_calls_has(ts: Seq<TokenView>, pos: nat)
    requires
        all_lexical(ts),
    ensures
        calls_has_only(comparison(ts, pos).0),
    decreases tokens_left(ts, pos), 1nat,
{
    lemma_primary_calls_has(ts, pos);
    let n = primary(ts, pos).1;
    match peek(ts, pos + n) {
        TokenView::Operator(op) => {
            if is_comparison(op) {
                lemma_primary_calls_has(ts, pos + n + 1);
            }
        },
        _ => {},
    }
}

proof fn lemma_and_tail_calls_has(ts: Seq<TokenView>, pos: nat, left: AstView)
    requires
        all_lexical(ts),
        calls_has_only(left),
    ensures
        calls_has_only(and_tail(ts, pos, left).0),
    decreases tokens_left(ts, pos), 2nat,
{
    if peek(ts, pos) is And {
        lemma_comparison_calls_has(ts, pos + 1);
        let (right, n) = comparison(ts, pos + 1);
        lemma_and_tail_calls_has(ts, pos + 1 + n, binary(left, "AND"@, right));
    }
}

proof fn lemma_and_expr_calls_has(ts: Seq<TokenView>, pos: nat)
    requires
        all_lexical(ts),
    ensures
        calls_has_only(and_expr(ts, pos).0),
    decreases tokens_left(ts, pos), 3nat,
{
    lemma_comparison_calls_has(ts, pos);
    let (first, n) = comparison(ts, pos);
    lemma_and_tail_calls_has(ts, pos + n, first);
}

proof fn lemma_or_tail_calls_has(ts: Seq<TokenView>, pos: nat, left: AstView)
    requires
        all_lexical(ts),
        calls_has_only(left),
    ensures
        calls_has_only(or_tail(ts, pos, left).0),
    decreases tokens_left(ts, pos), 4nat,
{
    if peek(ts, pos) is Or {
        lemma_and_expr_calls_has(ts, pos + 1);
        let (right, n) = and_expr(ts, pos + 1);
        lemma_or_tail_calls_has(ts, pos + 1 + n, binary(left, "OR"@, right));
    }
}

proof fn lemma_or_expr_calls_has(ts: Seq<TokenView>, pos: nat)
    requires
        all_lexical(ts),
    ensures
        calls_has_only(or_expr(ts, pos).0),
    decreases tokens_left(ts, pos), 5nat,
{
    lemma_and_expr_calls_has(ts, pos);
    let (first, n) = and_expr(ts, pos);
    lemma_or_tail_calls_has(ts, pos + n, first);
}

/// In the tree of a text every call is a call of `has`: the scanner knows no
/// other function.
pub proof fn lemma_parsed_text_calls_has_only(text: Seq<char>)
    ensures
        calls_has_only(parse_text(text)),
{
    lemma_lexed_tokens_are_lexical(text, 0);
    lemma_or_expr_calls_has(lex(text), 0);
}

/// The trees of `nodes`, one for one.
pub open spec fn trees(nodes: Seq<AstNode>) -> Seq<AstView> {
    Seq::new(nodes.len(), |i: int| nodes[i]@)
}

/// A parser over the tokens of a filter expression.
pub struct Parser {
    tokens: Vec<Token>,
    pos: usize,
}

impl Parser {
    #[verifier::type_invariant]
    spec fn in_bounds(&self) -> bool {
        self.pos <= self.tokens.len()
    }

    /// The tokens that the parser was made for.
    pub closed spec fn stream(&self) -> Seq<TokenView> {
        self.tokens.deep_view()
    }

    /// The index of the next token to read.
    pub closed spec fn position(&self) -> nat {
        self.pos as nat
    }

    /// A parser at the first of `tokens`.
    pub fn new(tokens: Vec<Token>) -> (parser: Self)
        ensures
            parser.stream() == tokens.deep_view(),
            parser.position() == 0,
    {
        Parser { tokens, pos: 0 }
    }

    /// Parses one expression from the current token on and stops behind it.
    /// The tree joins operands by operators of the language only.
    pub fn parse(&mut self) -> (node: AstNode)
        ensures
            node@ == or_expr(old(self).stream(), old(self).position()).0,
            well_formed(node@),
            final(self).stream() == old(self).stream(),
            final(self).position() == old(self).position() + or_expr(
                old(self).stream(),
                old(self).position(),
            ).1,
    {
        proof {
            lemma_parsed_tree_is_well_formed(self.stream(), self.position());
        }
        self.parse_or()
    }

    /// The current token; behind the last token it is the end of input.
    fn current(&self) -> (token: &Token)
        ensures
            token@ == peek(self.tokens.deep_view(), self.pos as nat),
    {
        if self.pos < self.tokens.len() {
            &self.tokens[self.pos]
        } else {
            &Token::EOF
        }
    }

    /// Gives the current token and moves behind it, unless it is the end of
    /// the tokens.
    fn advance(&mut self) -> (token: Token)
        ensures
            final(self).tokens == old(self).tokens,
            token@ == peek(old(self).tokens.deep_view(), old(self).pos as nat),
            final(self).pos == old(self).pos + step(
                old(self).tokens.deep_view(),
                old(self).pos as nat,
            ),
    {
        let token = self.current().clone();
        if self.pos < self.tokens.len() {
            self.pos += 1;
        }
        token
    }

    /// Parses conjunctions joined by `or`.
    fn parse_or(&mut self) -> (node: AstNode)
        ensures
            final(self).tokens == old(self).tokens,
            node@ == or_expr(old(self).tokens.deep_view(), old(self).pos as nat).0,
            final(self).pos == old(self).pos + or_expr(
                old(self).tokens.deep_view(),
                old(self).pos as nat,
            ).1,
        decreases old(self).tokens.len() - old(self).pos, 5nat,
    {
        proof {
            use_type_invariant(&*self);
        }
        let ghost ts = self.tokens.deep_view();
        let ghost start = self.pos as nat;
        let ghost all = self.tokens;
        let mut left = self.parse_and();
        proof {
            use_type_invariant(&*self);
        }
        while matches!(self.current(), Token::Or)
            invariant
                all == old(self).tokens,
                start == old(self).pos,
                self.tokens == all,
                ts == all.deep_view(),
                start <= self.pos <= self.tokens.len(),
                or_tail(ts, self.pos as nat, left@).0 == or_expr(ts, start).0,
                self.pos + or_tail(ts, self.pos as nat, left@).1 == start + or_expr(ts, start).1,
            decreases self.tokens.len() - self.pos,
        {
            self.advance();
            let right = self.parse_and();
            proof {
                use_type_invariant(&*self);
            }
            left = AstNode::Binary {
                left: Box::new(left),
                op: "OR".to_owned(),
                right: Box::new(right),
            };
        }
        left
    }

    /// Parses comparisons joined by `and`.
    fn parse_and(&mut self) -> (node: AstNode)
        ensures
            final(self).tokens == old(self).tokens,
            node@ == and_expr(old(self).tokens.deep_view(), old(self).pos as nat).0,
            final(self).pos == old(self).pos + and_expr(
                old(self).tokens.deep_view(),
                old(self).pos as nat,
            ).1,
        decreases old(self).tokens.len() - old(self).pos, 3nat,
    {
        proof {
            use_type_invariant(&*self);
        }
        let ghost ts = self.tokens.deep_view();
        let ghost start = self.pos as nat;
        let ghost all = self.tokens;
        let mut left = self.parse_comparison();
        proof {
            use_type_invariant(&*self);
        }
        while matches!(self.current(), Token::And)
            invariant
                all == old(self).tokens,
                start == old(self).pos,
                self.tokens == all,
                ts == all.deep_view(),
                start <= self.pos <= self.tokens.len(),
                and_tail(ts, self.pos as nat, left@).0 == and_expr(ts, start).0,
                self.pos + and_tail(ts, self.pos as nat, left@).1 == start + and_expr(ts, start).1,
            decreases self.tokens.len() - self.pos,
        {
            self.advance();
            let right = self.parse_comparison();
            proof {
                use_type_invariant(&*self);
            }
            left = AstNode::Binary {
                left: Box::new(left),
                op: "AND".to_owned(),
                right: Box::new(right),
            };
        }
        left
    }

    /// Parses a primary and, if a comparison operator follows, one more.
    fn parse_comparison(&mut self) -> (node: AstNode)
        ensures
            final(self).tokens == old(self).tokens,
            node@ == comparison(old(self).tokens.deep_view(), old(self).pos as nat).0,
            final(self).pos == old(self).pos + comparison(
                old(self).tokens.deep_view(),
                old(self).pos as nat,
            ).1,
        decreases old(self).tokens.len() - old(self).pos, 1nat,
    {
        proof {
            use_type_invariant(&*self);
        }
        let left = self.parse_primary();
        proof {
            use_type_invariant(&*self);
        }
        let found = match self.current() {
            Token::Operator(op) => {
                if is_comparison_operator(op.as_str()) {
                    Some(op.clone())
                } else {
                    None
                }
            },
            _ => None,
        };
        match found {
            Some(op) => {
                self.advance();
                let right = self.parse_primary();
                AstNode::Binary { left: Box::new(left), op, right: Box::new(right) }
            },
            None => left,
        }
    }

    /// Parses a group, a call, a field or a literal.
    fn parse_primary(&mut self) -> (node: AstNode)
        ensures
            final(self).tokens == old(self).tokens,
            node@ == primary(old(self).tokens.deep_view(), old(self).pos as nat).0,
            final(self).pos == old(self).pos + primary(
                old(self).tokens.deep_view(),
                old(self).pos as nat,
            ).1,
        decreases old(self).tokens.len() - old(self).pos, 0nat,
    {
        proof {
            use_type_invariant(&*self);
        }
        let ghost ts = self.tokens.deep_view();
        let ghost start = self.pos as nat;
        let ghost all = self.tokens;
        match self.current().clone() {
            Token::LParen => {
                self.advance();
                let expr = self.parse_or();
                self.advance();
                AstNode::Grouping(Box::new(expr))
            },
            Token::Function(name) => {
                self.advance();
                if matches!(self.current(), Token::LParen) {
                    self.advance();
                    let ghost first = self.pos as nat;
                    let mut args: Vec<AstNode> = Vec::new();
                    loop
                        invariant
                            all == old(self).tokens,
                            start == old(self).pos,
                            self.tokens == all,
                            ts == all.deep_view(),
                            start + 2 == first,
                            first <= self.pos <= self.tokens.len(),
                            trees(args@) + arguments(ts, self.pos as nat).0 == arguments(
                                ts,
                                first,
                            ).0,
                            self.pos + arguments(ts, self.pos as nat).1 == first + arguments(
                                ts,
                                first,
                            ).1,
                        ensures
                            arguments(ts, self.pos as nat).0.len() == 0,
                            arguments(ts, self.pos as nat).1 == 0,
                        decreases self.tokens.len() - self.pos,
                    {
                        if matches!(self.current(), Token::RParen) || matches!(
                            self.current(),
                            Token::EOF
                        ) {
                            break ;
                        }
                        let before = self.pos;
                        let arg = self.parse_primary();
                        proof {
                            use_type_invariant(&*self);
                        }
                        if matches!(self.current(), Token::RParen) {
                            args.push(arg);
                            break ;
                        }
                        if matches!(self.current(), Token::Comma) {
                            self.advance();
                        }
                        if self.pos == before {
                            break ;
                        }
                        args.push(arg);
                    }
                    self.advance();
                    let node = AstNode::FunctionCall { name, args };
                    proof {
                        assert(node@->FunctionCall_args =~= trees(args@));
                    }
                    node
                } else {
                    let node = AstNode::FunctionCall { name, args: Vec::new() };
                    proof {
                        assert(node@->FunctionCall_args =~= Seq::<AstView>::empty());
                    }
                    node
                }
            },
            Token::Field(name) => {
                self.advance();
                AstNode::Field(name)
            },
            Token::StringLiteral(value) => {
                self.advance();
                AstNode::StringLiteral(value)
            },
            Token::NumberLiteral(value) => {
                self.advance();
                AstNode::NumberLiteral(value)
            },
            _ => AstNode::StringLiteral(String::new()),
        }
    }
}

/// Tests whether `op` is one of the seven comparison operators.
pub fn is_comparison_operator(op: &str) -> (b: bool)
    ensures
        b == is_comparison(op@),
{
    same_text(op, "==") || same_text(op, "!=") || same_text(op, ">") || same_text(op, "<")
        || same_text(op, ">=") || same_text(op, "<=") || same_text(op, "=~")
}

/// Scans and parses the filter expression `query`. No text is refused. The
/// tree joins operands by operators of the language only, and every call in
/// it is a call of `has`.
pub fn parse(query: &str) -> (node: AstNode)
    ensures
        node@ == parse_text(query@),
        well_formed(node@),
        calls_has_only(node@),
{
    proof {
        lemma_parsed_text_calls_has_only(query@);
    }
    let mut lexer = Lexer::new(query);
    let tokens = lexer.tokenize();
    let mut parser = Parser::new(tokens);
    parser.parse()
}

} // verus!
