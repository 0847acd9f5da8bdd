//! The reasons for which a transaction is turned away before it runs, and
//! the failures that running one can end in, each with its message.

use vstd::prelude::*;
use vstd::string::StringExecFns;
use crate::primitives::U256;
use crate::rlp::DecoderError;
use crate::text::{decimal, hex, spec_decimal, spec_hex};

verus! {

/// A value outside the bounds that were set for it.
#[derive(Clone, Copy, Debug, PartialEq, Eq)]
pub struct OutOfBounds {
    /// The least value allowed, if there is one.
    pub min: Option<U256>,
    /// The greatest value allowed, if there is one.
    pub max: Option<U256>,
    /// The value that was found.
    pub found: U256,
}

/// Why a transaction was not accepted.
#[derive(Clone, Debug, PartialEq, Eq)]
pub enum Error {
    /// The transaction is already in the queue.
    AlreadyImported,
    /// The transaction is no longer valid: the state has a higher nonce.
    Old,
    /// The queue is full.
    LimitReached,
    /// The gas price is below the threshold.
    InsufficientGasPrice { minimal: U256, got: U256 },
    /// A transaction of the same sender and nonce pays at least as much.
    TooCheapToReplace { prev: Option<U256>, new: Option<U256> },
    /// The gas is below the minimal gas requirement.
    InsufficientGas { minimal: U256, got: U256 },
    /// The sender cannot pay for the transaction.
    InsufficientBalance { balance: U256, cost: U256 },
    /// The gas is above the current gas limit.
    GasLimitExceeded { limit: U256, got: U256 },
    /// The gas limit is out of bounds.
    InvalidGasLimit(OutOfBounds),
    /// The sender is banned.
    SenderBanned,
    /// The recipient is banned.
    RecipientBanned,
    /// The contract creation code is banned.
    CodeBanned,
    /// The transaction is bound to another chain.
    InvalidChainId,
    /// The sender has no permission for this kind of transaction.
    NotAllowed,
    /// The signature is none, with what the signature scheme said of it.
    InvalidSignature(String),
    /// The transaction is too big.
    TooBig,
    /// The bytes are no transaction, with what the decoder said of them.
    InvalidRlp(String),
}

/// An optional integer as text: `None`, or `Some(` and the decimal digits
/// and `)`.
pub open spec fn spec_option_text(x: Option<U256>) -> Seq<char> {
    match x {
        None => "None"@,
        Some(n) => "Some("@ + spec_decimal(n@) + ")"@,
    }
}

/// An optional integer as text.
pub fn option_text(x: &Option<U256>) -> (res: String)
    ensures
        res@ == spec_option_text(*x),
{
    match x {
        None => String::from_str("None"),
        Some(n) => {
            let mut res = String::from_str("Some(");
            res.append(n.to_decimal().as_str());
            res.append(")");
            res
        },
    }
}

/// The name of a decoder error.
pub open spec fn spec_decoder_error_text(err: DecoderError) -> Seq<char> {
    match err {
        DecoderError::RlpIsTooBig => "RlpIsTooBig"@,
        DecoderError::RlpIsTooShort => "RlpIsTooShort"@,
        DecoderError::RlpExpectedToBeList => "RlpExpectedToBeList"@,
        DecoderError::RlpExpectedToBeData => "RlpExpectedToBeData"@,
        DecoderError::RlpIncorrectListLen => "RlpIncorrectListLen"@,
        DecoderError::RlpDataLenWithZeroPrefix => "RlpDataLenWithZeroPrefix"@,
        DecoderError::RlpListLenWithZeroPrefix => "RlpListLenWithZeroPrefix"@,
        DecoderError::RlpInvalidIndirection => "RlpInvalidIndirection"@,
    }
}

impl DecoderError {
    /// The name of the error.
    pub fn to_string(&self) -> (res: String)
        ensures
            res@ == spec_decoder_error_text(*self),
    {
        String::from_str(
            match self {
                DecoderError::RlpIsTooBig => "RlpIsTooBig",
                DecoderError::RlpIsTooShort => "RlpIsTooShort",
                DecoderError::RlpExpectedToBeList => "RlpExpectedToBeList",
                DecoderError::RlpExpectedToBeData => "RlpExpectedToBeData",
                DecoderError::RlpIncorrectListLen => "RlpIncorrectListLen",
                DecoderError::RlpDataLenWithZeroPrefix => "RlpDataLenWithZeroPrefix",
                DecoderError::RlpListLenWithZeroPrefix => "RlpListLenWithZeroPrefix",
                DecoderError::RlpInvalidIndirection => "RlpInvalidIndirection",
            },
        )
    }
}

impl OutOfBounds {
    /// The bounds as text: those that are set, in the form `Min=`, `Max=`.
    pub open spec fn spec_bounds_text(self) -> Seq<char> {
        match (self.min, self.max) {
            (Some(min), Some(max)) => "Min="@ + spec_decimal(min@) + ", Max="@ + spec_decimal(max@),
            (Some(min), None) => "Min="@ + spec_decimal(min@),
            (None, Some(max)) => "Max="@ + spec_decimal(max@),
            (None, None) => ""@,
        }
    }

    /// The message of the violation.
    pub open spec fn spec_message(self) -> Seq<char> {
        "Value "@ + spec_decimal(self.found@) + " out of bounds. "@ + self.spec_bounds_text()
    }

    /// The message of the violation: the value found and the bounds.
    pub fn to_string(&self) -> (res: String)
        ensures
            res@ == self.spec_message(),
    {
        let mut res = String::from_str("Value ");
        res.append(self.found.to_decimal().as_str());
        res.append(" out of bounds. ");
        let ghost head = res@;
        match (self.min, self.max) {
            (Some(min), Some(max)) => {
                res.append("Min=");
                res.append(min.to_decimal().as_str());
                res.append(", Max=");
                res.append(max.to_decimal().as_str());
            },
            (Some(min), None) => {
                res.append("Min=");
                res.append(min.to_decimal().as_str());
            },
            (None, Some(max)) => {
                res.append("Max=");
                res.append(max.to_decimal().as_str());
            },
            (None, None) => {
                res.append("");
            },
        }
        assert(res@ =~= head + self.spec_bounds_text());
        res
    }
}

/// A message made of a label, a number, a second label and a second
/// number.
pub open spec fn spec_two_numbers(a: Seq<char>, x: U256, b: Seq<char>, y: U256) -> Seq<char> {
    a + spec_decimal(x@) + b + spec_decimal(y@)
}

/// A message made of a label, a number, a second label and a second
/// number.
fn two_numbers(a: &str, x: &U256, b: &str, y: &U256) -> (res: String)
    ensures
        res@ == spec_two_numbers(a@, *x, b@, *y),
{
    let mut res = String::from_str(a);
    res.append(x.to_decimal().as_str());
    res.append(b);
    res.append(y.to_decimal().as_str());
    res
}

impl Error {
    /// What the message says of this error, between the brackets.
    pub open spec fn spec_detail(self) -> Seq<char> {
        match self {
            Error::AlreadyImported => "Already imported"@,
            Error::Old => "No longer valid"@,
            Error::TooCheapToReplace { prev, new } =>
                "Gas price too low to replace, previous tx gas: "@ + spec_option_text(prev)
                    + ", new tx gas: "@ + spec_option_text(new),
            Error::LimitReached => "Transaction limit reached"@,
            Error::InsufficientGasPrice { minimal, got } => spec_two_numbers(
                "Insufficient gas price. Min="@,
                minimal,
                ", Given="@,
                got,
            ),
            Error::InsufficientGas { minimal, got } => spec_two_numbers(
                "Insufficient gas. Min="@,
                minimal,
                ", Given="@,
                got,
            ),
            Error::InsufficientBalance { balance, cost } => spec_two_numbers(
                "Insufficient balance for transaction. Balance="@,
                balance,
                ", Cost="@,
                cost,
            ),
            Error::GasLimitExceeded { limit, got } => spec_two_numbers(
                "Gas limit exceeded. Limit="@,
                limit,
                ", Given="@,
                got,
            ),
            Error::InvalidGasLimit(err) => "Invalid gas limit. "@ + err.spec_message(),
            Error::SenderBanned => "Sender is temporarily banned."@,
            Error::RecipientBanned => "Recipient is temporarily banned."@,
            Error::CodeBanned => "Contract code is temporarily banned."@,
            Error::InvalidChainId => "Transaction of this chain ID is not allowed on this chain."@,
            Error::InvalidSignature(err) => "Transaction has invalid signature: "@ + err@ + "."@,
            Error::NotAllowed =>
                "Sender does not have permissions to execute this type of transaction"@,
            Error::TooBig => "Transaction too big"@,
            Error::InvalidRlp(err) => "Transaction has invalid RLP structure: "@ + err@ + "."@,
        }
    }

    /// The message of this error: `Transaction error (`, the detail, `)`.
    pub open spec fn spec_message(self) -> Seq<char> {
        "Transaction error ("@ + self.spec_detail() + ")"@
    }

    /// What the message says of this error, between the brackets.
    pub fn detail(&self) -> (res: String)
        ensures
            res@ == self.spec_detail(),
    {
        match self {
            Error::AlreadyImported => String::from_str("Already imported"),
            Error::Old => String::from_str("No longer valid"),
            Error::TooCheapToReplace { prev, new } => {
                let mut res = String::from_str("Gas price too low to replace, previous tx gas: ");
                res.append(option_text(prev).as_str());
                res.append(", new tx gas: ");
                res.append(option_text(new).as_str());
                res
            },
            Error::LimitReached => String::from_str("Transaction limit reached"),
            Error::InsufficientGasPrice { minimal, got } => two_numbers(
                "Insufficient gas price. Min=",
                minimal,
                ", Given=",
                got,
            ),
            Error::InsufficientGas { minimal, got } => two_numbers(
                "Insufficient gas. Min=",
                minimal,
                ", Given=",
                got,
            ),
            Error::InsufficientBalance { balance, cost } => two_numbers(
                "Insufficient balance for transaction. Balance=",
                balance,
                ", Cost=",
                cost,
            ),
            Error::GasLimitExceeded { limit, got } => two_numbers(
                "Gas limit exceeded. Limit=",
                limit,
                ", Given=",
                got,
            ),
            Error::InvalidGasLimit(err) => {
                let mut res = String::from_str("Invalid gas limit. ");
                res.append(err.to_string().as_str());
                res
            },
            Error::SenderBanned => String::from_str("Sender is temporarily banned."),
            Error::RecipientBanned => String::from_str("Recipient is temporarily banned."),
            Error::CodeBanned => String::from_str("Contract code is temporarily banned."),
            Error::InvalidChainId => String::from_str(
                "Transaction of this chain ID is not allowed on this chain.",
            ),
            Error::InvalidSignature(err) => {
                let mut res = String::from_str("Transaction has invalid signature: ");
                res.append(err.as_str());
                res.append(".");
                res
            },
            Error::NotAllowed => String::from_str(
                "Sender does not have permissions to execute this type of transaction",
            ),
            Error::TooBig => String::from_str("Transaction too big"),
            Error::InvalidRlp(err) => {
                let mut res = String::from_str("Transaction has invalid RLP structure: ");
                res.append(err.as_str());
                res.append(".");
                res
            },
        }
    }

    /// The message of this error.
    pub fn to_string(&self) -> (res: String)
        ensures
            res@ == self.spec_message(),
    {
        let mut res = String::from_str("Transaction error (");
        res.append(self.detail().as_str());
        res.append(")");
        res
    }

    /// What every error is called, whatever its kind.
    pub fn description(&self) -> (res: &'static str)
        ensures
            res@ == "Transaction error"@,
    {
        "Transaction error"
    }

    /// The error for bytes that the decoder refused: `InvalidRlp` with the
    /// decoder's own word for it.
    pub fn from_decoder(err: DecoderError) -> (res: Error)
        ensures
            res matches Error::InvalidRlp(text) && text@ == spec_decoder_error_text(err),
    {
        Error::InvalidRlp(err.to_string())
    }

    /// The error for a signature that the signature scheme refused:
    /// `InvalidSignature` with the scheme's own words for it.
    pub fn from_crypto(text: String) -> (res: Error)
        ensures
            res == Error::InvalidSignature(text),
    {
        Error::InvalidSignature(text)
    }
}

/// Why the virtual machine stopped.
#[derive(Clone, Debug, PartialEq, Eq)]
pub enum VmError {
    /// The execution ran out of gas. The state goes back to what it was
    /// before, but the transaction is still valid: balance is transferred
    /// and the nonce is increased.
    OutOfGas,
    /// A jump to a position that is no jump destination.
    BadJumpDestination { destination: usize },
    /// An instruction that is not supported.
    BadInstruction { instruction: u8 },
    /// An instruction wanted more stack elements than there were.
    StackUnderflow { instruction: &'static str, wanted: usize, on_stack: usize },
    /// An instruction wanted to push beyond the stack limit.
    OutOfStack { instruction: &'static str, wanted: usize, limit: usize },
    /// A built-in contract failed on its input.
    BuiltIn(&'static str),
    /// The execution tried to change the state in a static context.
    MutableCallInStaticContext,
    /// An internal error, likely to cause consensus issues.
    Internal(String),
    /// An error of the Wasm runtime.
    Wasm(String),
    /// Access out of bounds in a copy of return data.
    OutOfBounds,
    /// The execution was reverted.
    Reverted,
}

/// A message made of a label, an instruction and two counts.
pub open spec fn spec_stack_text(label: Seq<char>, instruction: Seq<char>, a: usize, b: usize) -> Seq<
    char,
> {
    label + instruction + " "@ + spec_decimal(a as nat) + "/"@ + spec_decimal(b as nat)
}

/// A message made of a label, an instruction and two counts.
fn stack_text(label: &str, instruction: &str, a: usize, b: usize) -> (res: String)
    ensures
        res@ == spec_stack_text(label@, instruction@, a, b),
{
    let mut res = String::from_str(label);
    res.append(instruction);
    res.append(" ");
    res.append(decimal(a as u64).as_str());
    res.append("/");
    res.append(decimal(b as u64).as_str());
    res
}

impl VmError {
    /// The message of this error.
    pub open spec fn spec_message(self) -> Seq<char> {
        match self {
            VmError::OutOfGas => "Out of gas"@,
            VmError::BadJumpDestination { destination } => "Bad jump destination "@ + spec_hex(
                destination as nat,
            ),
            VmError::BadInstruction { instruction } => "Bad instruction "@ + spec_hex(
                instruction as nat,
            ),
            VmError::StackUnderflow { instruction, wanted, on_stack } => spec_stack_text(
                "Stack underflow "@,
                instruction@,
                wanted,
                on_stack,
            ),
            VmError::OutOfStack { instruction, wanted, limit } => spec_stack_text(
                "Out of stack "@,
                instruction@,
                wanted,
                limit,
            ),
            VmError::BuiltIn(name) => "Built-in failed: "@ + name@,
            VmError::Internal(msg) => "Internal error: "@ + msg@,
            VmError::MutableCallInStaticContext => "Mutable call in static context"@,
            VmError::Wasm(msg) => "Internal error: "@ + msg@,
            VmError::OutOfBounds => "Out of bounds"@,
            VmError::Reverted => "Reverted"@,
        }
    }

    /// The message of this error.
    pub fn to_string(&self) -> (res: String)
        ensures
            res@ == self.spec_message(),
    {
        match self {
            VmError::OutOfGas => String::from_str("Out of gas"),
            VmError::BadJumpDestination { destination } => {
                let mut res = String::from_str("Bad jump destination ");
                res.append(hex(*destination as u64).as_str());
                res
            },
            VmError::BadInstruction { instruction } => {
                let mut res = String::from_str("Bad instruction ");
                res.append(hex(*instruction as u64).as_str());
                res
            },
            VmError::StackUnderflow { instruction, wanted, on_stack } => stack_text(
                "Stack underflow ",
                instruction,
                *wanted,
                *on_stack,
            ),
            VmError::OutOfStack { instruction, wanted, limit } => stack_text(
                "Out of stack ",
                instruction,
                *wanted,
                *limit,
            ),
            VmError::BuiltIn(name) => {
                let mut res = String::from_str("Built-in failed: ");
                res.append(name);
                res
            },
            VmError::Internal(msg) => {
                let mut res = String::from_str("Internal error: ");
                res.append(msg.as_str());
                res
            },
            VmError::MutableCallInStaticContext => String::from_str("Mutable call in static context"),
            VmError::Wasm(msg) => {
                let mut res = String::from_str("Internal error: ");
                res.append(msg.as_str());
                res
            },
            VmError::OutOfBounds => String::from_str("Out of bounds"),
            VmError::Reverted => String::from_str("Reverted"),
        }
    }
}

/// A failure that the execution engine reports of a transaction that it
/// did not run to its end, carried as the engine's message.
#[derive(Clone, Debug, PartialEq, Eq)]
pub struct ExecutionError {
    pub message: String,
}

/// Why the simulation of a call gave no result.
#[derive(Clone, Debug, PartialEq, Eq)]
pub enum CallError {
    /// The transaction is not in the chain.
    TransactionNotFound,
    /// The state of the requested block is not in the chain any more.
    StatePruned,
    /// No amount of gas was found with which the call ends without an
    /// exception.
    Exceptional(VmError),
    /// The state is corrupt.
    StateCorrupt,
    /// The execution engine failed.
    Execution(ExecutionError),
}

impl CallError {
    /// What the message says of this error, between the brackets.
    pub open spec fn spec_detail(self) -> Seq<char> {
        match self {
            CallError::TransactionNotFound => "Transaction couldn't be found in the chain"@,
            CallError::StatePruned => "Couldn't find the transaction block's state in the chain"@,
            CallError::Exceptional(e) => "An exception ("@ + e.spec_message()
                + ") happened in the execution"@,
            CallError::StateCorrupt => "Stored state found to be corrupted."@,
            CallError::Execution(e) => e.message@,
        }
    }

    /// The message of this error: `Transaction execution error (`, the
    /// detail, `).`.
    pub open spec fn spec_message(self) -> Seq<char> {
        "Transaction execution error ("@ + self.spec_detail() + ")."@
    }

    /// The error for a failure of the execution engine.
    pub fn from_execution(error: ExecutionError) -> (res: CallError)
        ensures
            res == CallError::Execution(error),
    {
        CallError::Execution(error)
    }

    /// The message of this error.
    pub fn to_string(&self) -> (res: String)
        ensures
            res@ == self.spec_message(),
    {
        let mut res = String::from_str("Transaction execution error (");
        match self {
            CallError::TransactionNotFound => {
                res.append("Transaction couldn't be found in the chain");
            },
            CallError::StatePruned => {
                res.append("Couldn't find the transaction block's state in the chain");
            },
            CallError::Exceptional(e) => {
                res.append("An exception (");
                res.append(e.to_string().as_str());
                res.append(") happened in the execution");
            },
            CallError::StateCorrupt => {
                res.append("Stored state found to be corrupted.");
            },
            CallError::Execution(e) => {
                res.append(e.message.as_str());
            },
        }
        res.append(").");
        assert(res@ =~= self.spec_message());
        res
    }
}

} // verus!
