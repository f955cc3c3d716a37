//! Parser failures: internal invariant violations and syntax errors, each
//! carrying the source span the lexer was at.

use vstd::prelude::*;

use crate::token::Span;

verus! {

/// An invariant violation inside the parser: a bug, not a property of the
/// input.
#[derive(Debug, Clone, Copy, PartialEq, Eq, Structural)]
pub enum InternalError {
    MissingScope,
    FunctionParseFailure,
    UnexpectedIdInExpression,
    MissingContinuedExpressionLhs,
    MissingAssignmentTarget,
    NumberParseFailure,
    RangeParseFailure,
    ForParseFailure,
    IdParseFailure,
    UnexpectedToken,
    ExpectedIdInImportItem,
    ArgumentsParseFailure,
    AstCapacityOverflow,
    ConstantPoolCapacityOverflow,
    FuelExhausted,
    AstConsistencyFailure,
}

/// A syntax error in the input.
#[derive(Debug, Clone, Copy, PartialEq, Eq, Structural)]
pub enum SyntaxError {
    ExpectedExpressionInMainBlock,
    ExpectedFunctionArgsEnd,
    ExpectedFunctionBody,
    UnexpectedIndentation,
    ExpectedRhsExpression,
    ExpectedAssignmentTarget,
    ExpectedIndexExpression,
    ExpectedIndexEnd,
    ExpectedMapKey,
    ExpectedArgsEnd,
    ExpectedNegatableExpression,
    ExpectedExportExpression,
    UnexpectedTokenAfterExportId,
    ExpectedExpression,
    TooManyNum2Terms,
    TooManyNum4Terms,
    LexerError,
    ExpectedListEnd,
    ExpectedMapValue,
    ExpectedMapEnd,
    ExpectedForInKeyword,
    ExpectedForArgs,
    ExpectedForRanges,
    ExpectedForCondition,
    ExpectedForBody,
    ExpectedLoopBody,
    ExpectedWhileCondition,
    ExpectedWhileBody,
    ExpectedUntilCondition,
    ExpectedUntilBody,
    ExpectedIfCondition,
    ExpectedThenExpression,
    ExpectedElseExpression,
    ExpectedElseIfBlock,
    ExpectedElseIfCondition,
    ExpectedElseBlock,
    ExpectedThenKeywordOrBlock,
    ExpectedMatchExpression,
    ExpectedMatchArm,
    ExpectedMatchPattern,
    ExpectedMatchCondition,
    ExpectedMatchArmExpressionAfterThen,
    ExpectedMatchArmExpression,
    ImportFromExpressionHasTooManyItems,
    ExpectedImportKeywordAfterFrom,
    ExpectedImportModuleId,
    ExpectedIdInImportExpression,
    ExpectedTryBody,
    ExpectedCatchBlock,
    ExpectedCatchArgument,
    ExpectedCatchBody,
    ExpectedFinallyBody,
    ExpectedCloseParen,
}

/// The kind of a parser failure.
#[derive(Debug, Clone, Copy, PartialEq, Eq, Structural)]
pub enum ParserErrorKind {
    Internal(InternalError),
    Syntax(SyntaxError),
}

/// A parser failure with the source span it arose at.
#[derive(Debug, Clone, Copy, PartialEq, Eq, Structural)]
pub struct ParserError {
    pub error: ParserErrorKind,
    pub span: Span,
}

impl ParserError {
    /// Wraps an error kind with its span.
    pub fn new(error: ParserErrorKind, span: Span) -> (r: ParserError)
        ensures
            r.error == error && r.span == span,
    {
        ParserError { error, span }
    }
}

} // verus!
