//! The small vocabularies of the Moonlight protocol: serialization formats,
//! pulse types, acknowledgement types and the reasons that the server or the
//! agent gives for a failure, each with its wire code and its message.

use vstd::prelude::*;
use crate::text::{decimal_of, owned, push_decimal, push_str};

verus! {

/// How a payload is serialized. Only JSON is in use.
#[derive(Debug, Clone, Copy, PartialEq, Eq, Structural)]
pub enum SerializationFormat {
    MsgPack,
    JSON,
}

impl SerializationFormat {
    /// The byte that stands for the format on the wire.
    pub open spec fn spec_code(self) -> u8 {
        match self {
            SerializationFormat::MsgPack => 1,
            SerializationFormat::JSON => 2,
        }
    }

    /// The format that a wire byte stands for, if any.
    pub open spec fn spec_from_code(code: u8) -> Option<SerializationFormat> {
        if code == 1 {
            Some(SerializationFormat::MsgPack)
        } else if code == 2 {
            Some(SerializationFormat::JSON)
        } else {
            None
        }
    }

    /// The format's name.
    pub open spec fn text(self) -> Seq<char> {
        match self {
            SerializationFormat::MsgPack => "msgpack"@,
            SerializationFormat::JSON => "json"@,
        }
    }

    #[verifier::when_used_as_spec(spec_code)]
    pub fn code(self) -> (c: u8)
        ensures
            c == self.spec_code(),
    {
        match self {
            SerializationFormat::MsgPack => 1,
            SerializationFormat::JSON => 2,
        }
    }

    pub fn from_code(code: u8) -> (r: Option<SerializationFormat>)
        ensures
            r == Self::spec_from_code(code),
    {
        if code == 1 {
            Some(SerializationFormat::MsgPack)
        } else if code == 2 {
            Some(SerializationFormat::JSON)
        } else {
            None
        }
    }

    pub fn to_string(&self) -> (s: String)
        ensures
            s@ == self.text(),
    {
        match self {
            SerializationFormat::MsgPack => owned("msgpack"),
            SerializationFormat::JSON => owned("json"),
        }
    }
}

/// The kind of a pulse.
#[derive(Debug, Clone, Copy, PartialEq, Eq, Structural)]
pub enum PulseType {
    Unknown,
    System,
    Data,
    Msg,
}

impl PulseType {
    /// The byte that stands for the pulse type on the wire.
    pub open spec fn spec_code(self) -> u8 {
        match self {
            PulseType::Unknown => 0,
            PulseType::System => 1,
            PulseType::Data => 2,
            PulseType::Msg => 3,
        }
    }

    /// The pulse type that a wire byte stands for, if any.
    pub open spec fn spec_from_code(code: u8) -> Option<PulseType> {
        if code == 0 {
            Some(PulseType::Unknown)
        } else if code == 1 {
            Some(PulseType::System)
        } else if code == 2 {
            Some(PulseType::Data)
        } else if code == 3 {
            Some(PulseType::Msg)
        } else {
            None
        }
    }

    /// The pulse type's name.
    pub open spec fn text(self) -> Seq<char> {
        match self {
            PulseType::Unknown => "unknown"@,
            PulseType::System => "system"@,
            PulseType::Data => "datapoint"@,
            PulseType::Msg => "msg"@,
        }
    }

    #[verifier::when_used_as_spec(spec_code)]
    pub fn code(self) -> (c: u8)
        ensures
            c == self.spec_code(),
    {
        match self {
            PulseType::Unknown => 0,
            PulseType::System => 1,
            PulseType::Data => 2,
            PulseType::Msg => 3,
        }
    }

    pub fn from_code(code: u8) -> (r: Option<PulseType>)
        ensures
            r == Self::spec_from_code(code),
    {
        if code == 0 {
            Some(PulseType::Unknown)
        } else if code == 1 {
            Some(PulseType::System)
        } else if code == 2 {
            Some(PulseType::Data)
        } else if code == 3 {
            Some(PulseType::Msg)
        } else {
            None
        }
    }

    pub fn to_string(&self) -> (s: String)
        ensures
            s@ == self.text(),
    {
        match self {
            PulseType::Unknown => owned("unknown"),
            PulseType::System => owned("system"),
            PulseType::Data => owned("datapoint"),
            PulseType::Msg => owned("msg"),
        }
    }

    /// Every pulse type, in the order of the wire codes.
    pub fn all() -> (v: Vec<PulseType>)
        ensures
            v@ == seq![PulseType::Unknown, PulseType::System, PulseType::Data, PulseType::Msg],
    {
        let mut v: Vec<PulseType> = Vec::new();
        v.push(PulseType::Unknown);
        v.push(PulseType::System);
        v.push(PulseType::Data);
        v.push(PulseType::Msg);
        assert(v@ =~= seq![PulseType::Unknown, PulseType::System, PulseType::Data, PulseType::Msg]);
        v
    }
}

/// Why the server refused the credentials.
#[derive(Debug, Clone, Copy, PartialEq, Eq, Hash, Structural)]
pub enum UnauthorizedError {
    Unknown,
    InvalidCredentials,
    FleetNotFound,
    DeviceNotFound,
    DeviceSecretIncorrect,
    DeviceDisabled,
    TemporaryBan,
}

impl UnauthorizedError {
    /// The byte that stands for the reason on the wire.
    pub open spec fn spec_code(self) -> u8 {
        match self {
            UnauthorizedError::Unknown => 0,
            UnauthorizedError::InvalidCredentials => 1,
            UnauthorizedError::FleetNotFound => 2,
            UnauthorizedError::DeviceNotFound => 3,
            UnauthorizedError::DeviceSecretIncorrect => 4,
            UnauthorizedError::DeviceDisabled => 5,
            UnauthorizedError::TemporaryBan => 6,
        }
    }

    /// The reason that a wire byte stands for, if any.
    pub open spec fn spec_from_code(code: u8) -> Option<UnauthorizedError> {
        if code == 0 {
            Some(UnauthorizedError::Unknown)
        } else if code == 1 {
            Some(UnauthorizedError::InvalidCredentials)
        } else if code == 2 {
            Some(UnauthorizedError::FleetNotFound)
        } else if code == 3 {
            Some(UnauthorizedError::DeviceNotFound)
        } else if code == 4 {
            Some(UnauthorizedError::DeviceSecretIncorrect)
        } else if code == 5 {
            Some(UnauthorizedError::DeviceDisabled)
        } else if code == 6 {
            Some(UnauthorizedError::TemporaryBan)
        } else {
            None
        }
    }

    /// The message shown for the reason.
    pub open spec fn text(self) -> Seq<char> {
        match self {
            UnauthorizedError::Unknown => "unauthorized: Unknown Error"@,
            UnauthorizedError::InvalidCredentials => "unauthorized: The credentials are invalid. Please confirm the Fleet ID, Device ID, and the Device Secret are correctly entered."@,
            UnauthorizedError::FleetNotFound => "unauthorized: No fleet with the provided Fleet ID exists."@,
            UnauthorizedError::DeviceNotFound => "unauthorized: No device with the provided Device ID exists."@,
            UnauthorizedError::DeviceSecretIncorrect => "unauthorized: The device secret is incorrect. It may have been reset."@,
            UnauthorizedError::DeviceDisabled => "unauthorized: The device is disabled. Enable it on fostrom.io to use it. Please note that after enabling, the device may not retry connecting for up to ten minutes. Restart the device if possible."@,
            UnauthorizedError::TemporaryBan => "unauthorized: The device has been temporarily banned. This happens when the device retries connecting too frequently and receives unauthorized responses. The ban is automatically lifted every 15 minutes."@,
        }
    }

    #[verifier::when_used_as_spec(spec_code)]
    pub fn code(self) -> (c: u8)
        ensures
            c == self.spec_code(),
    {
        match self {
            UnauthorizedError::Unknown => 0,
            UnauthorizedError::InvalidCredentials => 1,
            UnauthorizedError::FleetNotFound => 2,
            UnauthorizedError::DeviceNotFound => 3,
            UnauthorizedError::DeviceSecretIncorrect => 4,
            UnauthorizedError::DeviceDisabled => 5,
            UnauthorizedError::TemporaryBan => 6,
        }
    }

    pub fn from_code(code: u8) -> (r: Option<UnauthorizedError>)
        ensures
            r == Self::spec_from_code(code),
    {
        if code == 0 {
            Some(UnauthorizedError::Unknown)
        } else if code == 1 {
            Some(UnauthorizedError::InvalidCredentials)
        } else if code == 2 {
            Some(UnauthorizedError::FleetNotFound)
        } else if code == 3 {
            Some(UnauthorizedError::DeviceNotFound)
        } else if code == 4 {
            Some(UnauthorizedError::DeviceSecretIncorrect)
        } else if code == 5 {
            Some(UnauthorizedError::DeviceDisabled)
        } else if code == 6 {
            Some(UnauthorizedError::TemporaryBan)
        } else {
            None
        }
    }

    pub fn to_string(&self) -> (s: String)
        ensures
            s@ == self.text(),
    {
        match self {
            UnauthorizedError::Unknown => owned("unauthorized: Unknown Error"),
            UnauthorizedError::InvalidCredentials => owned("unauthorized: The credentials are invalid. Please confirm the Fleet ID, Device ID, and the Device Secret are correctly entered."),
            UnauthorizedError::FleetNotFound => owned("unauthorized: No fleet with the provided Fleet ID exists."),
            UnauthorizedError::DeviceNotFound => owned("unauthorized: No device with the provided Device ID exists."),
            UnauthorizedError::DeviceSecretIncorrect => owned("unauthorized: The device secret is incorrect. It may have been reset."),
            UnauthorizedError::DeviceDisabled => owned("unauthorized: The device is disabled. Enable it on fostrom.io to use it. Please note that after enabling, the device may not retry connecting for up to ten minutes. Restart the device if possible."),
            UnauthorizedError::TemporaryBan => owned("unauthorized: The device has been temporarily banned. This happens when the device retries connecting too frequently and receives unauthorized responses. The ban is automatically lifted every 15 minutes."),
        }
    }
}

/// Why the server could not accept the connection.
#[derive(Debug, Clone, Copy, PartialEq, Eq, Hash, Structural)]
pub enum ConnectFailedError {
    Unknown,
    ServiceRestarting,
    ServiceUnavailable,
    ServiceDegraded,
}

impl ConnectFailedError {
    /// The byte that stands for the reason on the wire.
    pub open spec fn spec_code(self) -> u8 {
        match self {
            ConnectFailedError::Unknown => 0,
            ConnectFailedError::ServiceRestarting => 1,
            ConnectFailedError::ServiceUnavailable => 2,
            ConnectFailedError::ServiceDegraded => 3,
        }
    }

    /// The reason that a wire byte stands for, if any.
    pub open spec fn spec_from_code(code: u8) -> Option<ConnectFailedError> {
        if code == 0 {
            Some(ConnectFailedError::Unknown)
        } else if code == 1 {
            Some(ConnectFailedError::ServiceRestarting)
        } else if code == 2 {
            Some(ConnectFailedError::ServiceUnavailable)
        } else if code == 3 {
            Some(ConnectFailedError::ServiceDegraded)
        } else {
            None
        }
    }

    /// The message shown for the reason.
    pub open spec fn text(self) -> Seq<char> {
        match self {
            ConnectFailedError::Unknown => "connect_failed: Unknown Error"@,
            ConnectFailedError::ServiceRestarting => "connect_failed: Fostrom servers are restarting..."@,
            ConnectFailedError::ServiceUnavailable => "connect_failed: Fostrom is currently unavailable."@,
            ConnectFailedError::ServiceDegraded => "connect_failed: Fostrom is currently experiencing degraded availability."@,
        }
    }

    #[verifier::when_used_as_spec(spec_code)]
    pub fn code(self) -> (c: u8)
        ensures
            c == self.spec_code(),
    {
        match self {
            ConnectFailedError::Unknown => 0,
            ConnectFailedError::ServiceRestarting => 1,
            ConnectFailedError::ServiceUnavailable => 2,
            ConnectFailedError::ServiceDegraded => 3,
        }
    }

    pub fn from_code(code: u8) -> (r: Option<ConnectFailedError>)
        ensures
            r == Self::spec_from_code(code),
    {
        if code == 0 {
            Some(ConnectFailedError::Unknown)
        } else if code == 1 {
            Some(ConnectFailedError::ServiceRestarting)
        } else if code == 2 {
            Some(ConnectFailedError::ServiceUnavailable)
        } else if code == 3 {
            Some(ConnectFailedError::ServiceDegraded)
        } else {
            None
        }
    }

    pub fn to_string(&self) -> (s: String)
        ensures
            s@ == self.text(),
    {
        match self {
            ConnectFailedError::Unknown => owned("connect_failed: Unknown Error"),
            ConnectFailedError::ServiceRestarting => owned("connect_failed: Fostrom servers are restarting..."),
            ConnectFailedError::ServiceUnavailable => owned("connect_failed: Fostrom is currently unavailable."),
            ConnectFailedError::ServiceDegraded => owned("connect_failed: Fostrom is currently experiencing degraded availability."),
        }
    }
}

/// Why a session ended.
#[derive(Debug, Clone, Copy, PartialEq, Eq, Structural)]
pub enum DisconnectedReason {
    ForceCloseSocket,
    NormalDisconnect,
    Unauthorized(UnauthorizedError),
    ConnectFailed(ConnectFailedError),
}

impl DisconnectedReason {
    /// The message shown for the reason.
    pub open spec fn text(self) -> Seq<char> {
        match self {
            DisconnectedReason::ForceCloseSocket => "disconnect: Socket Terminated"@,
            DisconnectedReason::NormalDisconnect => "disconnect: Disconnected from Server on User Request"@,
            DisconnectedReason::Unauthorized(reason) => reason.text(),
            DisconnectedReason::ConnectFailed(reason) => reason.text(),
        }
    }

    pub fn to_string(&self) -> (s: String)
        ensures
            s@ == self.text(),
    {
        match self {
            DisconnectedReason::ForceCloseSocket => owned("disconnect: Socket Terminated"),
            DisconnectedReason::NormalDisconnect => owned("disconnect: Disconnected from Server on User Request"),
            DisconnectedReason::Unauthorized(reason) => reason.to_string(),
            DisconnectedReason::ConnectFailed(reason) => reason.to_string(),
        }
    }
}

/// Why the server did not take a pulse.
#[derive(Debug, Clone, Copy, PartialEq, Eq, Structural)]
pub enum PulseErrorReason {
    Unknown,
    DeserializationFailed,
    PacketSchemaNotFound,
    PacketSchemaTypeMismatch,
}

impl PulseErrorReason {
    /// The byte that stands for the reason on the wire.
    pub open spec fn spec_code(self) -> u8 {
        match self {
            PulseErrorReason::Unknown => 0,
            PulseErrorReason::DeserializationFailed => 1,
            PulseErrorReason::PacketSchemaNotFound => 2,
            PulseErrorReason::PacketSchemaTypeMismatch => 3,
        }
    }

    /// The reason that a wire byte stands for, if any.
    pub open spec fn spec_from_code(code: u8) -> Option<PulseErrorReason> {
        if code == 0 {
            Some(PulseErrorReason::Unknown)
        } else if code == 1 {
            Some(PulseErrorReason::DeserializationFailed)
        } else if code == 2 {
            Some(PulseErrorReason::PacketSchemaNotFound)
        } else if code == 3 {
            Some(PulseErrorReason::PacketSchemaTypeMismatch)
        } else {
            None
        }
    }

    /// The message shown for the reason.
    pub open spec fn text(self) -> Seq<char> {
        match self {
            PulseErrorReason::Unknown => "unknown_error: An unknown error occurred while sending the packet."@,
            PulseErrorReason::DeserializationFailed => "deserialization_failed: The Fostrom server failed to deserialize the packet correctly."@,
            PulseErrorReason::PacketSchemaNotFound => "packet_schema_not_found: There is no Packet Schema associated with the name provided."@,
            PulseErrorReason::PacketSchemaTypeMismatch => "packet_schema_type_mismatch: The Packet Schema does exist but not of the type provided."@,
        }
    }

    #[verifier::when_used_as_spec(spec_code)]
    pub fn code(self) -> (c: u8)
        ensures
            c == self.spec_code(),
    {
        match self {
            PulseErrorReason::Unknown => 0,
            PulseErrorReason::DeserializationFailed => 1,
            PulseErrorReason::PacketSchemaNotFound => 2,
            PulseErrorReason::PacketSchemaTypeMismatch => 3,
        }
    }

    pub fn from_code(code: u8) -> (r: Option<PulseErrorReason>)
        ensures
            r == Self::spec_from_code(code),
    {
        if code == 0 {
            Some(PulseErrorReason::Unknown)
        } else if code == 1 {
            Some(PulseErrorReason::DeserializationFailed)
        } else if code == 2 {
            Some(PulseErrorReason::PacketSchemaNotFound)
        } else if code == 3 {
            Some(PulseErrorReason::PacketSchemaTypeMismatch)
        } else {
            None
        }
    }

    pub fn to_string(&self) -> (s: String)
        ensures
            s@ == self.text(),
    {
        match self {
            PulseErrorReason::Unknown => owned("unknown_error: An unknown error occurred while sending the packet."),
            PulseErrorReason::DeserializationFailed => owned("deserialization_failed: The Fostrom server failed to deserialize the packet correctly."),
            PulseErrorReason::PacketSchemaNotFound => owned("packet_schema_not_found: There is no Packet Schema associated with the name provided."),
            PulseErrorReason::PacketSchemaTypeMismatch => owned("packet_schema_type_mismatch: The Packet Schema does exist but not of the type provided."),
        }
    }
}

/// What the device does with a mail: acknowledge, reject or requeue it.
#[derive(Debug, Clone, Copy, PartialEq, Eq, Structural)]
pub enum MailAckType {
    Ack,
    Reject,
    Requeue,
}

impl MailAckType {
    /// The byte that stands for the acknowledgement type on the wire.
    pub open spec fn spec_code(self) -> u8 {
        match self {
            MailAckType::Ack => 1,
            MailAckType::Reject => 2,
            MailAckType::Requeue => 3,
        }
    }

    /// The acknowledgement type that a wire byte stands for, if any.
    pub open spec fn spec_from_code(code: u8) -> Option<MailAckType> {
        if code == 1 {
            Some(MailAckType::Ack)
        } else if code == 2 {
            Some(MailAckType::Reject)
        } else if code == 3 {
            Some(MailAckType::Requeue)
        } else {
            None
        }
    }

    /// The verb for the acknowledgement type.
    pub open spec fn text(self) -> Seq<char> {
        match self {
            MailAckType::Ack => "acknowledge"@,
            MailAckType::Reject => "reject"@,
            MailAckType::Requeue => "requeue"@,
        }
    }

    #[verifier::when_used_as_spec(spec_code)]
    pub fn code(self) -> (c: u8)
        ensures
            c == self.spec_code(),
    {
        match self {
            MailAckType::Ack => 1,
            MailAckType::Reject => 2,
            MailAckType::Requeue => 3,
        }
    }

    pub fn from_code(code: u8) -> (r: Option<MailAckType>)
        ensures
            r == Self::spec_from_code(code),
    {
        if code == 1 {
            Some(MailAckType::Ack)
        } else if code == 2 {
            Some(MailAckType::Reject)
        } else if code == 3 {
            Some(MailAckType::Requeue)
        } else {
            None
        }
    }

    pub fn to_string(&self) -> (s: String)
        ensures
            s@ == self.text(),
    {
        match self {
            MailAckType::Ack => owned("acknowledge"),
            MailAckType::Reject => owned("reject"),
            MailAckType::Requeue => owned("requeue"),
        }
    }
}

/// Errors that the agent itself reports to a caller.
#[derive(Debug, Clone, Copy, PartialEq, Eq, Structural)]
pub enum GeneralErrors {
    InvalidPulseID,
    AckMailFailed { pulse_id: u64, ack_type: MailAckType },
    ChannelWriteFailed,
    ChannelReadFailed,
    DuplicateReq,
}

impl GeneralErrors {
    /// The message shown for the error.
    pub open spec fn text(self) -> Seq<char> {
        match self {
            GeneralErrors::InvalidPulseID => "invalid_pulse_id: The provided Pulse ID is invalid. A Pulse ID is a 64-bit unsigned integer."@,
            GeneralErrors::AckMailFailed { pulse_id, ack_type } => "mail_ack_failed: Failed to "@
                + ack_type.text() + " the mail with ID "@ + decimal_of(pulse_id as nat) + "."@,
            GeneralErrors::ChannelWriteFailed => "channel_write_failed: An internal error occured. A channel that should have been writable wasn't."@,
            GeneralErrors::ChannelReadFailed => "channel_read_failed: An internal error occured. A channel that should have been readable wasn't."@,
            GeneralErrors::DuplicateReq => "duplicate_request: A request with the same transaction ID has already been queued."@,
        }
    }

    pub fn to_string(&self) -> (s: String)
        ensures
            s@ == self.text(),
    {
        match self {
            GeneralErrors::InvalidPulseID => owned("invalid_pulse_id: The provided Pulse ID is invalid. A Pulse ID is a 64-bit unsigned integer."),
            GeneralErrors::AckMailFailed { pulse_id, ack_type } => {
                let mut s = owned("mail_ack_failed: Failed to ");
                let verb = ack_type.to_string();
                push_str(&mut s, verb.as_str());
                push_str(&mut s, " the mail with ID ");
                push_decimal(&mut s, *pulse_id);
                push_str(&mut s, ".");
                s
            },
            GeneralErrors::ChannelWriteFailed => owned("channel_write_failed: An internal error occured. A channel that should have been writable wasn't."),
            GeneralErrors::ChannelReadFailed => owned("channel_read_failed: An internal error occured. A channel that should have been readable wasn't."),
            GeneralErrors::DuplicateReq => owned("duplicate_request: A request with the same transaction ID has already been queued."),
        }
    }
}

} // verus!
