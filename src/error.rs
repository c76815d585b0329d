use vstd::prelude::*;

verus! {

/// Every failure of the storage layer, as a typed, enumerable value.
#[derive(Clone, Copy, Debug, PartialEq, Eq, Structural)]
pub enum ElusivError {
    InvalidInstruction,
    SenderIsNotSigner,
    SenderIsNotWritable,
    InvalidAmount,
    InvalidProof,
    CouldNotParseProof,
    CouldNotProcessProof,
    InvalidMerkleRoot,
    InvalidStorageAccount,
    InvalidStorageAccountSize,
    CouldNotCreateMerkleTree,
    NullifierAlreadyUsed,
    NoRoomForNullifier,
    CommitmentAlreadyUsed,
    NoRoomForCommitment,
    DidNotFinishHashing,
    InvalidRecipient,
    /// A supplied address differs from the one derived from seed and offset.
    AddressDerivationMismatch,
    /// A storage unit already lives at the address to open.
    AlreadyExists,
    /// The payer cannot fund the storage-cost exemption of a new unit.
    InsufficientFunds,
    /// The same backing unit was supplied twice.
    DuplicateOrAliasedAccount,
    /// A unit's capacity (or the number of supplied units) is not the declared one.
    SizeOrLayoutViolation,
    /// A unit that must start zeroed holds a non-zero byte.
    NotZeroed,
    /// A unit is not owned by this program.
    OwnershipViolation,
    /// A unit's balance is below the exemption threshold for its size.
    NotRentExempt,
    /// A one-time initialization was already done.
    AlreadyInitialized,
    /// A unit was read before its one-time initialization.
    NotInitialized,
    /// A computation was started while another one is active.
    AlreadyActive,
    /// A computation was advanced or finalized while none is active.
    NotActive,
    /// A computation was advanced past its last round.
    AlreadyComplete,
    /// A computation was finalized before its last round.
    NotComplete,
    /// A fee version other than the current one was requested.
    InvalidFeeVersion,
}

/// The numeric code of each error, in declaration order.
pub open spec fn error_code(e: ElusivError) -> u32 {
    match e {
        ElusivError::InvalidInstruction => 0,
        ElusivError::SenderIsNotSigner => 1,
        ElusivError::SenderIsNotWritable => 2,
        ElusivError::InvalidAmount => 3,
        ElusivError::InvalidProof => 4,
        ElusivError::CouldNotParseProof => 5,
        ElusivError::CouldNotProcessProof => 6,
        ElusivError::InvalidMerkleRoot => 7,
        ElusivError::InvalidStorageAccount => 8,
        ElusivError::InvalidStorageAccountSize => 9,
        ElusivError::CouldNotCreateMerkleTree => 10,
        ElusivError::NullifierAlreadyUsed => 11,
        ElusivError::NoRoomForNullifier => 12,
        ElusivError::CommitmentAlreadyUsed => 13,
        ElusivError::NoRoomForCommitment => 14,
        ElusivError::DidNotFinishHashing => 15,
        ElusivError::InvalidRecipient => 16,
        ElusivError::AddressDerivationMismatch => 17,
        ElusivError::AlreadyExists => 18,
        ElusivError::InsufficientFunds => 19,
        ElusivError::DuplicateOrAliasedAccount => 20,
        ElusivError::SizeOrLayoutViolation => 21,
        ElusivError::NotZeroed => 22,
        ElusivError::OwnershipViolation => 23,
        ElusivError::NotRentExempt => 24,
        ElusivError::AlreadyInitialized => 25,
        ElusivError::NotInitialized => 26,
        ElusivError::AlreadyActive => 27,
        ElusivError::NotActive => 28,
        ElusivError::AlreadyComplete => 29,
        ElusivError::NotComplete => 30,
        ElusivError::InvalidFeeVersion => 31,
    }
}

impl ElusivError {
    /// The custom program-error code under which this error is reported.
    pub fn code(&self) -> (r: u32)
        ensures
            r == error_code(*self),
    {
        match self {
            ElusivError::InvalidInstruction => 0,
            ElusivError::SenderIsNotSigner => 1,
            ElusivError::SenderIsNotWritable => 2,
            ElusivError::InvalidAmount => 3,
            ElusivError::InvalidProof => 4,
            ElusivError::CouldNotParseProof => 5,
            ElusivError::CouldNotProcessProof => 6,
            ElusivError::InvalidMerkleRoot => 7,
            ElusivError::InvalidStorageAccount => 8,
            ElusivError::InvalidStorageAccountSize => 9,
            ElusivError::CouldNotCreateMerkleTree => 10,
            ElusivError::NullifierAlreadyUsed => 11,
            ElusivError::NoRoomForNullifier => 12,
            ElusivError::CommitmentAlreadyUsed => 13,
            ElusivError::NoRoomForCommitment => 14,
            ElusivError::DidNotFinishHashing => 15,
            ElusivError::InvalidRecipient => 16,
            ElusivError::AddressDerivationMismatch => 17,
            ElusivError::AlreadyExists => 18,
            ElusivError::InsufficientFunds => 19,
            ElusivError::DuplicateOrAliasedAccount => 20,
            ElusivError::SizeOrLayoutViolation => 21,
            ElusivError::NotZeroed => 22,
            ElusivError::OwnershipViolation => 23,
            ElusivError::NotRentExempt => 24,
            ElusivError::AlreadyInitialized => 25,
            ElusivError::NotInitialized => 26,
            ElusivError::AlreadyActive => 27,
            ElusivError::NotActive => 28,
            ElusivError::AlreadyComplete => 29,
            ElusivError::NotComplete => 30,
            ElusivError::InvalidFeeVersion => 31,
        }
    }

    /// The error's name, as it is shown to users.
    pub fn fmt(&self) -> (r: &'static str)
        ensures
            r@ == error_name(*self)@,
    {
        match self {
            ElusivError::InvalidInstruction => "InvalidInstruction",
            ElusivError::SenderIsNotSigner => "SenderIsNotSigner",
            ElusivError::SenderIsNotWritable => "SenderIsNotWritable",
            ElusivError::InvalidAmount => "InvalidAmount",
            ElusivError::InvalidProof => "InvalidProof",
            ElusivError::CouldNotParseProof => "CouldNotParseProof",
            ElusivError::CouldNotProcessProof => "CouldNotProcessProof",
            ElusivError::InvalidMerkleRoot => "InvalidMerkleRoot",
            ElusivError::InvalidStorageAccount => "InvalidStorageAccount",
            ElusivError::InvalidStorageAccountSize => "InvalidStorageAccountSize",
            ElusivError::CouldNotCreateMerkleTree => "CouldNotCreateMerkleTree",
            ElusivError::NullifierAlreadyUsed => "NullifierAlreadyUsed",
            ElusivError::NoRoomForNullifier => "NoRoomForNullifier",
            ElusivError::CommitmentAlreadyUsed => "CommitmentAlreadyUsed",
            ElusivError::NoRoomForCommitment => "NoRoomForCommitment",
            ElusivError::DidNotFinishHashing => "DidNotFinishHashing",
            ElusivError::InvalidRecipient => "InvalidRecipient",
            ElusivError::AddressDerivationMismatch => "AddressDerivationMismatch",
            ElusivError::AlreadyExists => "AlreadyExists",
            ElusivError::InsufficientFunds => "InsufficientFunds",
            ElusivError::DuplicateOrAliasedAccount => "DuplicateOrAliasedAccount",
            ElusivError::SizeOrLayoutViolation => "SizeOrLayoutViolation",
            ElusivError::NotZeroed => "NotZeroed",
            ElusivError::OwnershipViolation => "OwnershipViolation",
            ElusivError::NotRentExempt => "NotRentExempt",
            ElusivError::AlreadyInitialized => "AlreadyInitialized",
            ElusivError::NotInitialized => "NotInitialized",
            ElusivError::AlreadyActive => "AlreadyActive",
            ElusivError::NotActive => "NotActive",
            ElusivError::AlreadyComplete => "AlreadyComplete",
            ElusivError::NotComplete => "NotComplete",
            ElusivError::InvalidFeeVersion => "InvalidFeeVersion",
        }
    }
}

/// The name of each error.
pub open spec fn error_name(e: ElusivError) -> &'static str {
    match e {
        ElusivError::InvalidInstruction => "InvalidInstruction",
        ElusivError::SenderIsNotSigner => "SenderIsNotSigner",
        ElusivError::SenderIsNotWritable => "SenderIsNotWritable",
        ElusivError::InvalidAmount => "InvalidAmount",
        ElusivError::InvalidProof => "InvalidProof",
        ElusivError::CouldNotParseProof => "CouldNotParseProof",
        ElusivError::CouldNotProcessProof => "CouldNotProcessProof",
        ElusivError::InvalidMerkleRoot => "InvalidMerkleRoot",
        ElusivError::InvalidStorageAccount => "InvalidStorageAccount",
        ElusivError::InvalidStorageAccountSize => "InvalidStorageAccountSize",
        ElusivError::CouldNotCreateMerkleTree => "CouldNotCreateMerkleTree",
        ElusivError::NullifierAlreadyUsed => "NullifierAlreadyUsed",
        ElusivError::NoRoomForNullifier => "NoRoomForNullifier",
        ElusivError::CommitmentAlreadyUsed => "CommitmentAlreadyUsed",
        ElusivError::NoRoomForCommitment => "NoRoomForCommitment",
        ElusivError::DidNotFinishHashing => "DidNotFinishHashing",
        ElusivError::InvalidRecipient => "InvalidRecipient",
        ElusivError::AddressDerivationMismatch => "AddressDerivationMismatch",
        ElusivError::AlreadyExists => "AlreadyExists",
        ElusivError::InsufficientFunds => "InsufficientFunds",
        ElusivError::DuplicateOrAliasedAccount => "DuplicateOrAliasedAccount",
        ElusivError::SizeOrLayoutViolation => "SizeOrLayoutViolation",
        ElusivError::NotZeroed => "NotZeroed",
        ElusivError::OwnershipViolation => "OwnershipViolation",
        ElusivError::NotRentExempt => "NotRentExempt",
        ElusivError::AlreadyInitialized => "AlreadyInitialized",
        ElusivError::NotInitialized => "NotInitialized",
        ElusivError::AlreadyActive => "AlreadyActive",
        ElusivError::NotActive => "NotActive",
        ElusivError::AlreadyComplete => "AlreadyComplete",
        ElusivError::NotComplete => "NotComplete",
        ElusivError::InvalidFeeVersion => "InvalidFeeVersion",
    }
}

} // verus!
