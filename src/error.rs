//! The ways in which compilation fails.

use vstd::prelude::*;

verus! {

/// A hard failure: no document is produced.
#[derive(Debug)]
pub enum CompileError {
    /// A required field of the specification (`title`, `version`) is absent.
    MissingRequiredField { declaration: String, field: String },
    /// An operation's action is neither `send` nor `receive`.
    InvalidEnumValue { operation: String, value: String },
    /// Messages cannot be derived for a union.
    UnionNotSupported { declaration: String },
}

impl CompileError {
    pub open spec fn is_missing(&self, declaration: Seq<char>, field: Seq<char>) -> bool {
        match self {
            CompileError::MissingRequiredField { declaration: d, field: f } => d@ == declaration
                && f@ == field,
            _ => false,
        }
    }

    pub open spec fn is_invalid_action(&self, operation: Seq<char>, value: Seq<char>) -> bool {
        match self {
            CompileError::InvalidEnumValue { operation: o, value: v } => o@ == operation && v@
                == value,
            _ => false,
        }
    }

    /// The text of the diagnostic: the symbol it is about, then what is
    /// wrong.
    pub open spec fn diagnostic(&self) -> Seq<char> {
        match self {
            CompileError::MissingRequiredField { declaration, field } => declaration@
                + ": AsyncApi requires a "@ + field@ + " attribute: #[asyncapi("@ + field@
                + " = \"...\")]"@,
            CompileError::InvalidEnumValue { operation, value } => operation@
                + ": Invalid action '"@ + value@ + "', must be 'send' or 'receive'"@,
            CompileError::UnionNotSupported { declaration } => declaration@
                + ": ToAsyncApiMessage cannot be derived for unions"@,
        }
    }

    /// The diagnostic that reports this failure.
    pub fn message(&self) -> (r: String)
        ensures
            r@ == self.diagnostic(),
    {
        match self {
            CompileError::MissingRequiredField { declaration, field } => {
                let mut r = declaration.clone();
                r.append(": AsyncApi requires a ");
                r.append(field.as_str());
                r.append(" attribute: #[asyncapi(");
                r.append(field.as_str());
                r.append(" = \"...\")]");
                r
            },
            CompileError::InvalidEnumValue { operation, value } => {
                let mut r = operation.clone();
                r.append(": Invalid action '");
                r.append(value.as_str());
                r.append("', must be 'send' or 'receive'");
                r
            },
            CompileError::UnionNotSupported { declaration } => {
                let mut r = declaration.clone();
                r.append(": ToAsyncApiMessage cannot be derived for unions");
                r
            },
        }
    }

    pub open spec fn is_union_of(&self, declaration: Seq<char>) -> bool {
        match self {
            CompileError::UnionNotSupported { declaration: d } => d@ == declaration,
            _ => false,
        }
    }
}

} // verus!
