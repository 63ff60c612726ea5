//! Audit events, their errors, and how an event becomes a chain call.

use vstd::prelude::*;
use vstd::string::StrSliceExecFns;
use vstd::utf8::encode_utf8;
use crate::text::{concat_str, str_eq};

verus! {

/// An event that must be recorded.
#[derive(Debug, Clone)]
pub struct AuditEvent {
    pub creation_time: String,
    pub event_type: String,
    pub file_path: String,
    pub event_key: String,
}

/// What can go wrong while auditing.
#[derive(Debug, Clone)]
pub enum AuditError {
    ConnectionError(String),
    TransactionError(String),
    ConfigurationError(String),
    EventProcessingError(String),
}

impl AuditError {
    /// The text the error is shown as.
    pub fn message(&self) -> (s: String)
        ensures
            s@ == match self {
                AuditError::ConnectionError(m) => "Audit connection error: "@ + m@,
                AuditError::TransactionError(m) => "Audit transaction error: "@ + m@,
                AuditError::ConfigurationError(m) => "Audit configuration error: "@ + m@,
                AuditError::EventProcessingError(m) => "Audit event processing error: "@ + m@,
            },
    {
        match self {
            AuditError::ConnectionError(m) => concat_str("Audit connection error: ", m.as_str()),
            AuditError::TransactionError(m) => concat_str("Audit transaction error: ", m.as_str()),
            AuditError::ConfigurationError(m) => concat_str(
                "Audit configuration error: ",
                m.as_str(),
            ),
            AuditError::EventProcessingError(m) => concat_str(
                "Audit event processing error: ",
                m.as_str(),
            ),
        }
    }
}

/// What can go wrong while connecting to the Substrate chain.
#[derive(Debug, Clone)]
pub enum SubstrateError {
    ConnectionFailed(String),
    ConfigError(String),
}

impl SubstrateError {
    /// The text the error is shown as.
    pub fn message(&self) -> (s: String)
        ensures
            s@ == match self {
                SubstrateError::ConnectionFailed(m) => "Substrate Connection Error: "@ + m@,
                SubstrateError::ConfigError(m) => "Substrate Config Error: "@ + m@,
            },
    {
        match self {
            SubstrateError::ConnectionFailed(m) => concat_str(
                "Substrate Connection Error: ",
                m.as_str(),
            ),
            SubstrateError::ConfigError(m) => concat_str("Substrate Config Error: ", m.as_str()),
        }
    }
}

/// What can go wrong while connecting to the blockchain.
#[derive(Debug, Clone)]
pub enum BlockchainError {
    ConnectionFailed(String),
    ConfigError(String),
}

impl BlockchainError {
    /// The text the error is shown as.
    pub fn message(&self) -> (s: String)
        ensures
            s@ == match self {
                BlockchainError::ConnectionFailed(m) => "Blockchain Connection Error: "@ + m@,
                BlockchainError::ConfigError(m) => "Blockchain Config Error: "@ + m@,
            },
    {
        match self {
            BlockchainError::ConnectionFailed(m) => concat_str(
                "Blockchain Connection Error: ",
                m.as_str(),
            ),
            BlockchainError::ConfigError(m) => concat_str("Blockchain Config Error: ", m.as_str()),
        }
    }
}

/// The largest number of bytes the chain accepts for an event's type.
pub const MAX_EVENT_TYPE_BYTES: usize = 64;

/// The largest number of bytes the chain accepts for an event's time.
pub const MAX_CREATION_TIME_BYTES: usize = 64;

/// The largest number of bytes the chain accepts for an event's path.
pub const MAX_FILE_PATH_BYTES: usize = 256;

/// The largest number of bytes the chain accepts for an event's key.
pub const MAX_EVENT_KEY_BYTES: usize = 128;

/// The first field of an event that is too long for the chain.
#[derive(Debug, Clone, Copy, PartialEq, Eq, Structural)]
pub enum InputLengthError {
    EventType,
    CreationTime,
    FilePath,
    EventKey,
}

impl InputLengthError {
    /// The text the error is shown as.
    pub fn message(&self) -> (s: &'static str)
        ensures
            s@ == match self {
                InputLengthError::EventType => "Event type exceeds 64 bytes"@,
                InputLengthError::CreationTime => "Creation time exceeds 64 bytes"@,
                InputLengthError::FilePath => "File path exceeds 256 bytes"@,
                InputLengthError::EventKey => "Event key exceeds 128 bytes"@,
            },
    {
        match self {
            InputLengthError::EventType => "Event type exceeds 64 bytes",
            InputLengthError::CreationTime => "Creation time exceeds 64 bytes",
            InputLengthError::FilePath => "File path exceeds 256 bytes",
            InputLengthError::EventKey => "Event key exceeds 128 bytes",
        }
    }
}

/// The first field, in the order type, time, path, key, that is longer
/// than the chain accepts, if any.
pub open spec fn input_lengths_spec(
    event_type: nat,
    creation_time: nat,
    file_path: nat,
    event_key: nat,
) -> Option<InputLengthError> {
    if event_type > 64 {
        Some(InputLengthError::EventType)
    } else if creation_time > 64 {
        Some(InputLengthError::CreationTime)
    } else if file_path > 256 {
        Some(InputLengthError::FilePath)
    } else if event_key > 128 {
        Some(InputLengthError::EventKey)
    } else {
        None
    }
}

/// Checks the fields of an event against the lengths the chain accepts.
pub fn validate_input_lengths(
    event_type: &[u8],
    creation_time: &[u8],
    file_path: &[u8],
    event_key: &[u8],
) -> (r: Result<(), InputLengthError>)
    ensures
        match input_lengths_spec(
            event_type@.len(),
            creation_time@.len(),
            file_path@.len(),
            event_key@.len(),
        ) {
            Some(e) => r == Err::<(), InputLengthError>(e),
            None => r is Ok,
        },
{
    if event_type.len() > MAX_EVENT_TYPE_BYTES {
        return Err(InputLengthError::EventType);
    }
    if creation_time.len() > MAX_CREATION_TIME_BYTES {
        return Err(InputLengthError::CreationTime);
    }
    if file_path.len() > MAX_FILE_PATH_BYTES {
        return Err(InputLengthError::FilePath);
    }
    if event_key.len() > MAX_EVENT_KEY_BYTES {
        return Err(InputLengthError::EventKey);
    }
    Ok(())
}

/// The chain call an event is recorded with.
#[derive(Debug, Clone, Copy, PartialEq, Eq, Structural)]
pub enum ChainCall {
    Disassembled,
    Reassembled,
}

/// The chain call for an event type: `disassembled` and `reassembled` have
/// one each; any other type has none.
pub open spec fn chain_call_spec(event_type: Seq<char>) -> Option<ChainCall> {
    if event_type == "disassembled"@ {
        Some(ChainCall::Disassembled)
    } else if event_type == "reassembled"@ {
        Some(ChainCall::Reassembled)
    } else {
        None
    }
}

/// The chain call for an event type.
pub fn chain_call(event_type: &str) -> (r: Option<ChainCall>)
    ensures
        r == chain_call_spec(event_type@),
{
    if str_eq(event_type, "disassembled") {
        Some(ChainCall::Disassembled)
    } else if str_eq(event_type, "reassembled") {
        Some(ChainCall::Reassembled)
    } else {
        None
    }
}

/// An event ready to be sent: the call, and the four fields as bytes.
pub struct ChainSubmission {
    pub call: ChainCall,
    pub event_type: Vec<u8>,
    pub creation_time: Vec<u8>,
    pub file_path: Vec<u8>,
    pub event_key: Vec<u8>,
}

/// Why an event is not sent to the chain.
#[derive(Debug, Clone)]
pub enum EventRejection {
    /// A field is longer than the chain accepts.
    TooLong(InputLengthError),
    /// The event type has no chain call.
    Unknown(AuditError),
}

/// Checks an event and prepares its chain call: the fields' lengths are
/// checked first, then the type picks the call; an unknown type is an
/// `EventProcessingError` saying so.
pub fn plan_submission(event: &AuditEvent) -> (r: Result<ChainSubmission, EventRejection>)
    ensures
        input_lengths_spec(
            encode_utf8(event.event_type@).len(),
            encode_utf8(event.creation_time@).len(),
            encode_utf8(event.file_path@).len(),
            encode_utf8(event.event_key@).len(),
        ) matches Some(e) ==> r matches Err(EventRejection::TooLong(f)) && f == e,
        input_lengths_spec(
            encode_utf8(event.event_type@).len(),
            encode_utf8(event.creation_time@).len(),
            encode_utf8(event.file_path@).len(),
            encode_utf8(event.event_key@).len(),
        ) is None ==> match chain_call_spec(event.event_type@) {
            Some(c) => r matches Ok(s) && {
                &&& s.call == c
                &&& s.event_type@ == encode_utf8(event.event_type@)
                &&& s.creation_time@ == encode_utf8(event.creation_time@)
                &&& s.file_path@ == encode_utf8(event.file_path@)
                &&& s.event_key@ == encode_utf8(event.event_key@)
            },
            None => r matches Err(EventRejection::Unknown(AuditError::EventProcessingError(m)))
                && m@ == "Unknown event type"@,
        },
{
    let event_type = event.event_type.as_str().as_bytes_vec();
    let creation_time = event.creation_time.as_str().as_bytes_vec();
    let file_path = event.file_path.as_str().as_bytes_vec();
    let event_key = event.event_key.as_str().as_bytes_vec();
    match validate_input_lengths(
        event_type.as_slice(),
        creation_time.as_slice(),
        file_path.as_slice(),
        event_key.as_slice(),
    ) {
        Err(e) => return Err(EventRejection::TooLong(e)),
        Ok(()) => {},
    }
    match chain_call(event.event_type.as_str()) {
        Some(call) => Ok(ChainSubmission { call, event_type, creation_time, file_path, event_key }),
        None => Err(
            EventRejection::Unknown(
                AuditError::EventProcessingError("Unknown event type".to_owned()),
            ),
        ),
    }
}

/// Whether a finalized block holds the pallet's event, given the pallet
/// names of its events: the wait for the submitted call ends at the first
/// such block.
pub fn block_has_pallet_event(pallet_names: &Vec<String>) -> (b: bool)
    ensures
        b == exists|i: int| 0 <= i < pallet_names.len() && #[trigger] pallet_names@[i]@
            == "TemplateModule"@,
{
    let mut i: usize = 0;
    while i < pallet_names.len()
        invariant
            i <= pallet_names.len(),
            forall|j: int| 0 <= j < i ==> #[trigger] pallet_names@[j]@ != "TemplateModule"@,
        decreases pallet_names.len() - i,
    {
        if str_eq(pallet_names[i].as_str(), "TemplateModule") {
            return true;
        }
        i += 1;
    }
    false
}

/// The application's shared state; it holds nothing yet.
pub struct AppState {}

impl Default for AppState {
    fn default() -> (s: AppState) {
        AppState {}
    }
}

/// A store that holds nothing, for handlers under test.
pub struct MockDataStore {}

} // verus!
