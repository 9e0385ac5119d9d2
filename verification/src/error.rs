//! Errors of the four phases, with their models.

use crate::ast::{BinaryOp, SpecType, Type};
use crate::lexer::{SpecToken, Token};
use vstd::prelude::*;

verus! {

/// The source holds a character at which no token begins.
#[derive(Debug, Clone, Copy, PartialEq, Eq, Structural)]
pub struct LexicalError {
    /// Byte offset of the first character that starts no token.
    pub position: usize,
}

/// Why a declaration or a function body is ill-typed.
#[derive(Debug, Clone, PartialEq, Eq)]
pub enum TypeError {
    /// A variable that is neither a parameter nor bound by an earlier `let`.
    UndefinedSymbol(String),
    /// A call of a name that is neither built in nor declared.
    UndefinedFunction(String),
    /// A call with the wrong number of arguments; `expected` is the exact
    /// count, or the least count for a built-in that takes any number above it.
    ArgumentCountMismatch { function: String, expected: usize, found: usize },
    /// Argument `index` of a call is not compatible with the parameter's type.
    ArgumentTypeMismatch { function: String, index: usize, expected: Type, actual: Type },
    /// A `let` with a declared type and a value of an incompatible type.
    LetTypeMismatch { name: String, expected: Type, actual: Type },
    /// An assignment whose value is not compatible with its target.
    AssignmentTypeMismatch { expected: Type, actual: Type },
    /// The condition of an `if` (or of a `while`, when `in_loop`) is not `bool`.
    ConditionNotBool { in_loop: bool, actual: Type },
    /// An arithmetic operator with an operand that is not numeric.
    NonNumericOperands { op: BinaryOp, left: Type, right: Type },
    /// A logical operator with an operand that is not `bool`.
    NonBoolOperands { op: BinaryOp, left: Type, right: Type },
    /// Unary minus on a value that is not numeric.
    NegationNotNumeric(Type),
    /// Logical not on a value that is not `bool`.
    NotOperandNotBool(Type),
    /// Indexing into a value that is not an array.
    IndexNotArray(Type),
    /// A field of a structure-of-arrays declaration that is not an array;
    /// `component` tells a component declaration from a mesh declaration.
    NonArrayField { declaration: String, field: String, component: bool },
    /// A shader declaration with an empty path.
    EmptyShaderPath(String),
}

/// Model of [`TypeError`].
pub enum SpecTypeError {
    UndefinedSymbol(Seq<char>),
    UndefinedFunction(Seq<char>),
    ArgumentCountMismatch { function: Seq<char>, expected: usize, found: usize },
    ArgumentTypeMismatch { function: Seq<char>, index: usize, expected: SpecType, actual: SpecType },
    LetTypeMismatch { name: Seq<char>, expected: SpecType, actual: SpecType },
    AssignmentTypeMismatch { expected: SpecType, actual: SpecType },
    ConditionNotBool { in_loop: bool, actual: SpecType },
    NonNumericOperands { op: BinaryOp, left: SpecType, right: SpecType },
    NonBoolOperands { op: BinaryOp, left: SpecType, right: SpecType },
    NegationNotNumeric(SpecType),
    NotOperandNotBool(SpecType),
    IndexNotArray(SpecType),
    NonArrayField { declaration: Seq<char>, field: Seq<char>, component: bool },
    EmptyShaderPath(Seq<char>),
}

impl View for TypeError {
    type V = SpecTypeError;

    open spec fn view(&self) -> SpecTypeError {
        match self {
            TypeError::UndefinedSymbol(n) => SpecTypeError::UndefinedSymbol(n@),
            TypeError::UndefinedFunction(n) => SpecTypeError::UndefinedFunction(n@),
            TypeError::ArgumentCountMismatch { function, expected, found } => {
                SpecTypeError::ArgumentCountMismatch {
                    function: function@,
                    expected: *expected,
                    found: *found,
                }
            },
            TypeError::ArgumentTypeMismatch { function, index, expected, actual } => {
                SpecTypeError::ArgumentTypeMismatch {
                    function: function@,
                    index: *index,
                    expected: expected@,
                    actual: actual@,
                }
            },
            TypeError::LetTypeMismatch { name, expected, actual } => SpecTypeError::LetTypeMismatch {
                name: name@,
                expected: expected@,
                actual: actual@,
            },
            TypeError::AssignmentTypeMismatch { expected, actual } => {
                SpecTypeError::AssignmentTypeMismatch { expected: expected@, actual: actual@ }
            },
            TypeError::ConditionNotBool { in_loop, actual } => SpecTypeError::ConditionNotBool {
                in_loop: *in_loop,
                actual: actual@,
            },
            TypeError::NonNumericOperands { op, left, right } => SpecTypeError::NonNumericOperands {
                op: *op,
                left: left@,
                right: right@,
            },
            TypeError::NonBoolOperands { op, left, right } => SpecTypeError::NonBoolOperands {
                op: *op,
                left: left@,
                right: right@,
            },
            TypeError::NegationNotNumeric(t) => SpecTypeError::NegationNotNumeric(t@),
            TypeError::NotOperandNotBool(t) => SpecTypeError::NotOperandNotBool(t@),
            TypeError::IndexNotArray(t) => SpecTypeError::IndexNotArray(t@),
            TypeError::NonArrayField { declaration, field, component } => {
                SpecTypeError::NonArrayField {
                    declaration: declaration@,
                    field: field@,
                    component: *component,
                }
            },
            TypeError::EmptyShaderPath(n) => SpecTypeError::EmptyShaderPath(n@),
        }
    }
}

/// The error among `outcomes` with the least index, if there is one.
pub open spec fn first_error<E>(outcomes: Seq<Option<E>>) -> Option<E>
    decreases outcomes.len(),
{
    if outcomes.len() == 0 {
        None
    } else if outcomes[0] is Some {
        outcomes[0]
    } else {
        first_error(outcomes.drop_first())
    }
}

/// If nothing before index `i` is an error and `outcomes[i]` is one, it is the first.
pub proof fn lemma_first_error_at<E>(outcomes: Seq<Option<E>>, i: int)
    requires
        0 <= i < outcomes.len(),
        outcomes[i] is Some,
        forall|j: int| 0 <= j < i ==> outcomes[j] is None,
    ensures
        first_error(outcomes) == outcomes[i],
    decreases i,
{
    if i > 0 {
        let rest = outcomes.drop_first();
        assert forall|j: int| 0 <= j < i - 1 implies rest[j] is None by {
            assert(rest[j] == outcomes[j + 1]);
        }
        lemma_first_error_at(rest, i - 1);
    }
}

/// Where no outcome is an error, there is no first error.
pub proof fn lemma_first_error_none<E>(outcomes: Seq<Option<E>>)
    requires
        forall|j: int| 0 <= j < outcomes.len() ==> outcomes[j] is None,
    ensures
        first_error(outcomes) is None,
    decreases outcomes.len(),
{
    if outcomes.len() > 0 {
        let rest = outcomes.drop_first();
        assert forall|j: int| 0 <= j < rest.len() implies rest[j] is None by {
            assert(rest[j] == outcomes[j + 1]);
        }
        lemma_first_error_none(rest);
    }
}

/// There is a first error exactly when some outcome is an error.
pub proof fn lemma_first_error_iff<E>(outcomes: Seq<Option<E>>)
    ensures
        first_error(outcomes) is Some <==> exists|j: int|
            0 <= j < outcomes.len() && outcomes[j] is Some,
    decreases outcomes.len(),
{
    if outcomes.len() > 0 {
        let rest = outcomes.drop_first();
        lemma_first_error_iff(rest);
        if outcomes[0] is None {
            if first_error(rest) is Some {
                let j = choose|j: int| 0 <= j < rest.len() && rest[j] is Some;
                assert(outcomes[j + 1] is Some);
            }
            if exists|j: int| 0 <= j < outcomes.len() && outcomes[j] is Some {
                let j = choose|j: int| 0 <= j < outcomes.len() && outcomes[j] is Some;
                assert(rest[j - 1] is Some);
            }
        }
    }
}

/// What the parser expected where it found something else.
#[derive(Debug, Clone, PartialEq, Eq)]
pub enum SyntaxErrorKind {
    /// This token was expected.
    ExpectedToken(Token),
    /// A token that begins no top-level item.
    UnexpectedItem,
    /// An identifier was expected.
    ExpectedIdentifier,
    /// The path of an included file was expected: a string literal.
    ExpectedIncludePath,
    /// The stage of a shader was expected.
    ExpectedShaderStage,
    /// The path of a shader's source was expected: a string literal.
    ExpectedShaderPath,
    /// A system holds functions only.
    ExpectedFunctionInSystem,
    /// An attribute other than `@system`.
    UnknownAttribute,
    /// The name of an attribute was expected after `@`.
    ExpectedAttributeName,
    /// A constraint of a system attribute is `after` or `before`.
    ExpectedAfterOrBefore,
    /// A token that begins no type.
    UnexpectedInType,
    /// A token that begins no expression.
    UnexpectedInExpression,
    /// Only a name can be called.
    ExpectedFunctionName,
    /// Only a name can be called with named arguments.
    ExpectedFunctionNameForNamedArguments,
    /// Type arguments are followed by an argument list.
    ExpectedCallAfterTypeArguments,
}

/// Model of [`SyntaxErrorKind`].
pub enum SpecSyntaxErrorKind {
    ExpectedToken(SpecToken),
    UnexpectedItem,
    ExpectedIdentifier,
    ExpectedIncludePath,
    ExpectedShaderStage,
    ExpectedShaderPath,
    ExpectedFunctionInSystem,
    UnknownAttribute,
    ExpectedAttributeName,
    ExpectedAfterOrBefore,
    UnexpectedInType,
    UnexpectedInExpression,
    ExpectedFunctionName,
    ExpectedFunctionNameForNamedArguments,
    ExpectedCallAfterTypeArguments,
}

impl View for SyntaxErrorKind {
    type V = SpecSyntaxErrorKind;

    open spec fn view(&self) -> SpecSyntaxErrorKind {
        match self {
            SyntaxErrorKind::ExpectedToken(t) => SpecSyntaxErrorKind::ExpectedToken(t@),
            SyntaxErrorKind::UnexpectedItem => SpecSyntaxErrorKind::UnexpectedItem,
            SyntaxErrorKind::ExpectedIdentifier => SpecSyntaxErrorKind::ExpectedIdentifier,
            SyntaxErrorKind::ExpectedIncludePath => SpecSyntaxErrorKind::ExpectedIncludePath,
            SyntaxErrorKind::ExpectedShaderStage => SpecSyntaxErrorKind::ExpectedShaderStage,
            SyntaxErrorKind::ExpectedShaderPath => SpecSyntaxErrorKind::ExpectedShaderPath,
            SyntaxErrorKind::ExpectedFunctionInSystem => SpecSyntaxErrorKind::ExpectedFunctionInSystem,
            SyntaxErrorKind::UnknownAttribute => SpecSyntaxErrorKind::UnknownAttribute,
            SyntaxErrorKind::ExpectedAttributeName => SpecSyntaxErrorKind::ExpectedAttributeName,
            SyntaxErrorKind::ExpectedAfterOrBefore => SpecSyntaxErrorKind::ExpectedAfterOrBefore,
            SyntaxErrorKind::UnexpectedInType => SpecSyntaxErrorKind::UnexpectedInType,
            SyntaxErrorKind::UnexpectedInExpression => SpecSyntaxErrorKind::UnexpectedInExpression,
            SyntaxErrorKind::ExpectedFunctionName => SpecSyntaxErrorKind::ExpectedFunctionName,
            SyntaxErrorKind::ExpectedFunctionNameForNamedArguments => SpecSyntaxErrorKind::ExpectedFunctionNameForNamedArguments,
            SyntaxErrorKind::ExpectedCallAfterTypeArguments => SpecSyntaxErrorKind::ExpectedCallAfterTypeArguments,
        }
    }
}

/// The tokens do not make a program.
#[derive(Debug, Clone, PartialEq, Eq)]
pub struct SyntaxError {
    /// What was expected.
    pub kind: SyntaxErrorKind,
    /// Index of the token at which the parser stopped.
    pub position: usize,
    /// The token found there; none at the end of the tokens.
    pub found: Option<Token>,
}

/// Model of [`SyntaxError`].
pub struct SpecSyntaxError {
    pub kind: SpecSyntaxErrorKind,
    pub position: usize,
    pub found: Option<SpecToken>,
}

impl View for SyntaxError {
    type V = SpecSyntaxError;

    open spec fn view(&self) -> SpecSyntaxError {
        SpecSyntaxError {
            kind: self.kind@,
            position: self.position,
            found: match self.found {
                Some(t) => Some(t@),
                None => None,
            },
        }
    }
}

} // verus!
