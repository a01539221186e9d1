use vstd::prelude::*;

verus! {

/// Every way in which the cheque lock rejects a transaction.
#[derive(Clone, Copy, Debug, PartialEq, Eq, Structural)]
pub enum Error {
    IndexOutOfBound,
    ItemMissing,
    LengthNotEnough,
    Encoding,
    InvalidArgument,
    NoMatchedInputs,
    WitnessSignatureWrong,
    SenderCapacityNotSame,
    WrongPubKey,
    ClaimChequeInputSinceNotZero,
    WithdrawChequeInputSinceError,
    Secp256k1,
    NoMatchedSignature,
}

/// The exit code under which the host reports each error.
pub open spec fn error_code(e: Error) -> i8 {
    match e {
        Error::IndexOutOfBound => 1,
        Error::ItemMissing => 2,
        Error::LengthNotEnough => 3,
        Error::Encoding => 4,
        Error::InvalidArgument => 5,
        Error::NoMatchedInputs => 6,
        Error::WitnessSignatureWrong => 7,
        Error::SenderCapacityNotSame => 8,
        Error::WrongPubKey => 9,
        Error::ClaimChequeInputSinceNotZero => 10,
        Error::WithdrawChequeInputSinceError => 11,
        Error::Secp256k1 => 12,
        Error::NoMatchedSignature => 13,
    }
}

impl Error {
    /// The exit code of this error, as the script returns it to the host.
    pub fn code(&self) -> (r: i8)
        ensures
            r == error_code(*self),
    {
        match self {
            Error::IndexOutOfBound => 1,
            Error::ItemMissing => 2,
            Error::LengthNotEnough => 3,
            Error::Encoding => 4,
            Error::InvalidArgument => 5,
            Error::NoMatchedInputs => 6,
            Error::WitnessSignatureWrong => 7,
            Error::SenderCapacityNotSame => 8,
            Error::WrongPubKey => 9,
            Error::ClaimChequeInputSinceNotZero => 10,
            Error::WithdrawChequeInputSinceError => 11,
            Error::Secp256k1 => 12,
            Error::NoMatchedSignature => 13,
        }
    }
}

} // verus!
