use common_types::error::{option_text, CallError, Error, ExecutionError, OutOfBounds, VmError};
use common_types::primitives::U256;
use common_types::rlp::DecoderError;

fn n(x: u64) -> U256 {
    U256::from_u64(x)
}

#[test]
fn insufficient_gas_price_message() {
    assert_eq!(
        Error::InsufficientGasPrice { minimal: n(5), got: n(3) }.to_string(),
        "Transaction error (Insufficient gas price. Min=5, Given=3)"
    );
}

#[test]
fn messages_without_data() {
    assert_eq!(Error::AlreadyImported.to_string(), "Transaction error (Already imported)");
    assert_eq!(Error::Old.to_string(), "Transaction error (No longer valid)");
    assert_eq!(Error::LimitReached.to_string(), "Transaction error (Transaction limit reached)");
    assert_eq!(Error::SenderBanned.to_string(), "Transaction error (Sender is temporarily banned.)");
    assert_eq!(
        Error::RecipientBanned.to_string(),
        "Transaction error (Recipient is temporarily banned.)"
    );
    assert_eq!(
        Error::CodeBanned.to_string(),
        "Transaction error (Contract code is temporarily banned.)"
    );
    assert_eq!(
        Error::InvalidChainId.to_string(),
        "Transaction error (Transaction of this chain ID is not allowed on this chain.)"
    );
    assert_eq!(
        Error::NotAllowed.to_string(),
        "Transaction error (Sender does not have permissions to execute this type of transaction)"
    );
    assert_eq!(Error::TooBig.to_string(), "Transaction error (Transaction too big)");
}

#[test]
fn messages_with_numbers() {
    assert_eq!(
        Error::InsufficientGas { minimal: n(21_000), got: n(20_999) }.to_string(),
        "Transaction error (Insufficient gas. Min=21000, Given=20999)"
    );
    assert_eq!(
        Error::InsufficientBalance { balance: n(0), cost: n(1_000_000) }.to_string(),
        "Transaction error (Insufficient balance for transaction. Balance=0, Cost=1000000)"
    );
    assert_eq!(
        Error::GasLimitExceeded { limit: n(8_000_000), got: n(8_000_001) }.to_string(),
        "Transaction error (Gas limit exceeded. Limit=8000000, Given=8000001)"
    );
    assert_eq!(
        Error::TooCheapToReplace { prev: Some(n(5)), new: None }.to_string(),
        "Transaction error (Gas price too low to replace, previous tx gas: Some(5), new tx gas: None)"
    );
    assert_eq!(
        Error::TooCheapToReplace { prev: None, new: Some(n(12)) }.to_string(),
        "Transaction error (Gas price too low to replace, previous tx gas: None, new tx gas: Some(12))"
    );
    assert_eq!(option_text(&Some(n(0))), "Some(0)");
    assert_eq!(option_text(&None), "None");
}

#[test]
fn messages_with_bounds() {
    let both = OutOfBounds { min: Some(n(1)), max: Some(n(9)), found: n(10) };
    let min = OutOfBounds { min: Some(n(5)), max: None, found: n(4) };
    let max = OutOfBounds { min: None, max: Some(n(9)), found: n(10) };
    let none = OutOfBounds { min: None, max: None, found: n(3) };
    assert_eq!(both.to_string(), "Value 10 out of bounds. Min=1, Max=9");
    assert_eq!(min.to_string(), "Value 4 out of bounds. Min=5");
    assert_eq!(max.to_string(), "Value 10 out of bounds. Max=9");
    assert_eq!(none.to_string(), "Value 3 out of bounds. ");
    assert_eq!(
        Error::InvalidGasLimit(min).to_string(),
        "Transaction error (Invalid gas limit. Value 4 out of bounds. Min=5)"
    );
}

#[test]
fn messages_with_detail() {
    assert_eq!(
        Error::InvalidSignature("invalid EC signature".to_string()).to_string(),
        "Transaction error (Transaction has invalid signature: invalid EC signature.)"
    );
    assert_eq!(
        Error::InvalidRlp("RlpIsTooShort".to_string()).to_string(),
        "Transaction error (Transaction has invalid RLP structure: RlpIsTooShort.)"
    );
    assert_eq!(Error::Old.detail(), "No longer valid");
    assert_eq!(Error::Old.description(), "Transaction error");
    assert_eq!(Error::TooBig.description(), "Transaction error");
}

#[test]
fn decoder_errors_become_invalid_rlp() {
    let all = [
        (DecoderError::RlpIsTooBig, "RlpIsTooBig"),
        (DecoderError::RlpIsTooShort, "RlpIsTooShort"),
        (DecoderError::RlpExpectedToBeList, "RlpExpectedToBeList"),
        (DecoderError::RlpExpectedToBeData, "RlpExpectedToBeData"),
        (DecoderError::RlpIncorrectListLen, "RlpIncorrectListLen"),
        (DecoderError::RlpDataLenWithZeroPrefix, "RlpDataLenWithZeroPrefix"),
        (DecoderError::RlpListLenWithZeroPrefix, "RlpListLenWithZeroPrefix"),
        (DecoderError::RlpInvalidIndirection, "RlpInvalidIndirection"),
    ];
    for (err, name) in all {
        assert_eq!(err.to_string(), name);
        assert_eq!(Error::from_decoder(err), Error::InvalidRlp(name.to_string()));
    }
}

#[test]
fn decoder_error_names_are_those_of_the_outside_codec() {
    assert_eq!(
        DecoderError::RlpIsTooBig.to_string(),
        format!("{}", rlp::DecoderError::RlpIsTooBig)
    );
    assert_eq!(
        DecoderError::RlpIsTooShort.to_string(),
        format!("{}", rlp::DecoderError::RlpIsTooShort)
    );
    assert_eq!(
        DecoderError::RlpExpectedToBeList.to_string(),
        format!("{}", rlp::DecoderError::RlpExpectedToBeList)
    );
    assert_eq!(
        DecoderError::RlpExpectedToBeData.to_string(),
        format!("{}", rlp::DecoderError::RlpExpectedToBeData)
    );
    assert_eq!(
        DecoderError::RlpIncorrectListLen.to_string(),
        format!("{}", rlp::DecoderError::RlpIncorrectListLen)
    );
    assert_eq!(
        DecoderError::RlpDataLenWithZeroPrefix.to_string(),
        format!("{}", rlp::DecoderError::RlpDataLenWithZeroPrefix)
    );
    assert_eq!(
        DecoderError::RlpListLenWithZeroPrefix.to_string(),
        format!("{}", rlp::DecoderError::RlpListLenWithZeroPrefix)
    );
    assert_eq!(
        DecoderError::RlpInvalidIndirection.to_string(),
        format!("{}", rlp::DecoderError::RlpInvalidIndirection)
    );
}

#[test]
fn crypto_failures_become_invalid_signature() {
    assert_eq!(
        Error::from_crypto("invalid EC signature".to_string()),
        Error::InvalidSignature("invalid EC signature".to_string())
    );
}

#[test]
fn errors_compare_by_structure() {
    assert_eq!(
        Error::InsufficientGasPrice { minimal: n(5), got: n(3) },
        Error::InsufficientGasPrice { minimal: n(5), got: n(3) }
    );
    assert_ne!(
        Error::InsufficientGasPrice { minimal: n(5), got: n(3) },
        Error::InsufficientGasPrice { minimal: n(5), got: n(4) }
    );
    assert_ne!(
        Error::InsufficientGasPrice { minimal: n(5), got: n(3) },
        Error::InsufficientGas { minimal: n(5), got: n(3) }
    );
    assert_ne!(Error::InvalidRlp("a".to_string()), Error::InvalidSignature("a".to_string()));
    assert_eq!(VmError::Wasm("x".to_string()), VmError::Wasm("x".to_string()));
    assert_ne!(VmError::Wasm("x".to_string()), VmError::Internal("x".to_string()));
    assert_eq!(CallError::Exceptional(VmError::OutOfGas), CallError::Exceptional(VmError::OutOfGas));
    assert_ne!(CallError::StatePruned, CallError::StateCorrupt);
}

#[test]
fn vm_error_messages() {
    assert_eq!(VmError::OutOfGas.to_string(), "Out of gas");
    assert_eq!(
        VmError::BadJumpDestination { destination: 0x1f4b }.to_string(),
        "Bad jump destination 1f4b"
    );
    assert_eq!(VmError::BadJumpDestination { destination: 0 }.to_string(), "Bad jump destination 0");
    assert_eq!(VmError::BadInstruction { instruction: 0xfe }.to_string(), "Bad instruction fe");
    assert_eq!(
        VmError::StackUnderflow { instruction: "ADD", wanted: 2, on_stack: 1 }.to_string(),
        "Stack underflow ADD 2/1"
    );
    assert_eq!(
        VmError::OutOfStack { instruction: "PUSH1", wanted: 1, limit: 1024 }.to_string(),
        "Out of stack PUSH1 1/1024"
    );
    assert_eq!(VmError::BuiltIn("ecrecover").to_string(), "Built-in failed: ecrecover");
    assert_eq!(
        VmError::MutableCallInStaticContext.to_string(),
        "Mutable call in static context"
    );
    assert_eq!(VmError::Internal("db".to_string()).to_string(), "Internal error: db");
    assert_eq!(VmError::Wasm("trap".to_string()).to_string(), "Internal error: trap");
    assert_eq!(VmError::OutOfBounds.to_string(), "Out of bounds");
    assert_eq!(VmError::Reverted.to_string(), "Reverted");
}

#[test]
fn call_error_messages() {
    assert_eq!(
        CallError::TransactionNotFound.to_string(),
        "Transaction execution error (Transaction couldn't be found in the chain)."
    );
    assert_eq!(
        CallError::StatePruned.to_string(),
        "Transaction execution error (Couldn't find the transaction block's state in the chain)."
    );
    assert_eq!(
        CallError::Exceptional(VmError::OutOfGas).to_string(),
        "Transaction execution error (An exception (Out of gas) happened in the execution)."
    );
    assert_eq!(
        CallError::StateCorrupt.to_string(),
        "Transaction execution error (Stored state found to be corrupted.)."
    );
    let failure = ExecutionError { message: "Sender must exist".to_string() };
    assert_eq!(
        CallError::from_execution(failure.clone()),
        CallError::Execution(failure.clone())
    );
    assert_eq!(
        CallError::Execution(failure).to_string(),
        "Transaction execution error (Sender must exist)."
    );
}
