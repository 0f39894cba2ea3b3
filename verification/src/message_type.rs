//! The kinds of messages between chaincode and peer.

use vstd::prelude::*;

use crate::proto::ChaincodeMessage;

verus! {

/// What a [`ChaincodeMessage`] is for.
#[derive(Debug, Clone, Copy, PartialEq, Eq, Structural)]
pub enum MsgType {
    Undefined,
    Register,
    Registered,
    Init,
    Ready,
    Transaction,
    Completed,
    Error,
    GetState,
    PutState,
    DelState,
    InvokeChaincode,
    Response,
    GetStateByRange,
    GetQueryResult,
    QueryStateNext,
    QueryStateClose,
    Keepalive,
    GetHistoryForKey,
    GetStateMetadata,
    PutStateMetadata,
    GetPrivateDataHash,
    PurgePrivateData,
    WriteBatchState,
    GetStateMultiple,
}

impl MsgType {
    /// The number of the type on the wire.
    pub open spec fn number(self) -> i32 {
        match self {
            MsgType::Undefined => 0,
            MsgType::Register => 1,
            MsgType::Registered => 2,
            MsgType::Init => 3,
            MsgType::Ready => 4,
            MsgType::Transaction => 5,
            MsgType::Completed => 6,
            MsgType::Error => 7,
            MsgType::GetState => 8,
            MsgType::PutState => 9,
            MsgType::DelState => 10,
            MsgType::InvokeChaincode => 11,
            MsgType::Response => 13,
            MsgType::GetStateByRange => 14,
            MsgType::GetQueryResult => 15,
            MsgType::QueryStateNext => 16,
            MsgType::QueryStateClose => 17,
            MsgType::Keepalive => 18,
            MsgType::GetHistoryForKey => 19,
            MsgType::GetStateMetadata => 20,
            MsgType::PutStateMetadata => 21,
            MsgType::GetPrivateDataHash => 22,
            MsgType::PurgePrivateData => 23,
            MsgType::WriteBatchState => 24,
            MsgType::GetStateMultiple => 25,
        }
    }

    /// The type with the given number; numbers of no type count as undefined.
    pub open spec fn numbered(number: i32) -> MsgType {
        if number == 1 {
            MsgType::Register
        } else if number == 2 {
            MsgType::Registered
        } else if number == 3 {
            MsgType::Init
        } else if number == 4 {
            MsgType::Ready
        } else if number == 5 {
            MsgType::Transaction
        } else if number == 6 {
            MsgType::Completed
        } else if number == 7 {
            MsgType::Error
        } else if number == 8 {
            MsgType::GetState
        } else if number == 9 {
            MsgType::PutState
        } else if number == 10 {
            MsgType::DelState
        } else if number == 11 {
            MsgType::InvokeChaincode
        } else if number == 13 {
            MsgType::Response
        } else if number == 14 {
            MsgType::GetStateByRange
        } else if number == 15 {
            MsgType::GetQueryResult
        } else if number == 16 {
            MsgType::QueryStateNext
        } else if number == 17 {
            MsgType::QueryStateClose
        } else if number == 18 {
            MsgType::Keepalive
        } else if number == 19 {
            MsgType::GetHistoryForKey
        } else if number == 20 {
            MsgType::GetStateMetadata
        } else if number == 21 {
            MsgType::PutStateMetadata
        } else if number == 22 {
            MsgType::GetPrivateDataHash
        } else if number == 23 {
            MsgType::PurgePrivateData
        } else if number == 24 {
            MsgType::WriteBatchState
        } else if number == 25 {
            MsgType::GetStateMultiple
        } else {
            MsgType::Undefined
        }
    }

    /// The name of the type.
    pub open spec fn spelled(self) -> Seq<char> {
        match self {
            MsgType::Undefined => "Undefined"@,
            MsgType::Register => "Register"@,
            MsgType::Registered => "Registered"@,
            MsgType::Init => "Init"@,
            MsgType::Ready => "Ready"@,
            MsgType::Transaction => "Transaction"@,
            MsgType::Completed => "Completed"@,
            MsgType::Error => "Error"@,
            MsgType::GetState => "GetState"@,
            MsgType::PutState => "PutState"@,
            MsgType::DelState => "DelState"@,
            MsgType::InvokeChaincode => "InvokeChaincode"@,
            MsgType::Response => "Response"@,
            MsgType::GetStateByRange => "GetStateByRange"@,
            MsgType::GetQueryResult => "GetQueryResult"@,
            MsgType::QueryStateNext => "QueryStateNext"@,
            MsgType::QueryStateClose => "QueryStateClose"@,
            MsgType::Keepalive => "Keepalive"@,
            MsgType::GetHistoryForKey => "GetHistoryForKey"@,
            MsgType::GetStateMetadata => "GetStateMetadata"@,
            MsgType::PutStateMetadata => "PutStateMetadata"@,
            MsgType::GetPrivateDataHash => "GetPrivateDataHash"@,
            MsgType::PurgePrivateData => "PurgePrivateData"@,
            MsgType::WriteBatchState => "WriteBatchState"@,
            MsgType::GetStateMultiple => "GetStateMultiple"@,
        }
    }

    /// The number of the type on the wire.
    pub fn code(self) -> (r: i32)
        ensures
            r == self.number(),
    {
        match self {
            MsgType::Undefined => 0,
            MsgType::Register => 1,
            MsgType::Registered => 2,
            MsgType::Init => 3,
            MsgType::Ready => 4,
            MsgType::Transaction => 5,
            MsgType::Completed => 6,
            MsgType::Error => 7,
            MsgType::GetState => 8,
            MsgType::PutState => 9,
            MsgType::DelState => 10,
            MsgType::InvokeChaincode => 11,
            MsgType::Response => 13,
            MsgType::GetStateByRange => 14,
            MsgType::GetQueryResult => 15,
            MsgType::QueryStateNext => 16,
            MsgType::QueryStateClose => 17,
            MsgType::Keepalive => 18,
            MsgType::GetHistoryForKey => 19,
            MsgType::GetStateMetadata => 20,
            MsgType::PutStateMetadata => 21,
            MsgType::GetPrivateDataHash => 22,
            MsgType::PurgePrivateData => 23,
            MsgType::WriteBatchState => 24,
            MsgType::GetStateMultiple => 25,
        }
    }

    /// The type with the given number; numbers of no type count as undefined.
    pub fn from_code(code: i32) -> (r: MsgType)
        ensures
            r == MsgType::numbered(code),
    {
        match code {
            1 => MsgType::Register,
            2 => MsgType::Registered,
            3 => MsgType::Init,
            4 => MsgType::Ready,
            5 => MsgType::Transaction,
            6 => MsgType::Completed,
            7 => MsgType::Error,
            8 => MsgType::GetState,
            9 => MsgType::PutState,
            10 => MsgType::DelState,
            11 => MsgType::InvokeChaincode,
            13 => MsgType::Response,
            14 => MsgType::GetStateByRange,
            15 => MsgType::GetQueryResult,
            16 => MsgType::QueryStateNext,
            17 => MsgType::QueryStateClose,
            18 => MsgType::Keepalive,
            19 => MsgType::GetHistoryForKey,
            20 => MsgType::GetStateMetadata,
            21 => MsgType::PutStateMetadata,
            22 => MsgType::GetPrivateDataHash,
            23 => MsgType::PurgePrivateData,
            24 => MsgType::WriteBatchState,
            25 => MsgType::GetStateMultiple,
            _ => MsgType::Undefined,
        }
    }

    /// The name of the type.
    pub fn name(self) -> (r: &'static str)
        ensures
            r@ == self.spelled(),
    {
        match self {
            MsgType::Undefined => "Undefined",
            MsgType::Register => "Register",
            MsgType::Registered => "Registered",
            MsgType::Init => "Init",
            MsgType::Ready => "Ready",
            MsgType::Transaction => "Transaction",
            MsgType::Completed => "Completed",
            MsgType::Error => "Error",
            MsgType::GetState => "GetState",
            MsgType::PutState => "PutState",
            MsgType::DelState => "DelState",
            MsgType::InvokeChaincode => "InvokeChaincode",
            MsgType::Response => "Response",
            MsgType::GetStateByRange => "GetStateByRange",
            MsgType::GetQueryResult => "GetQueryResult",
            MsgType::QueryStateNext => "QueryStateNext",
            MsgType::QueryStateClose => "QueryStateClose",
            MsgType::Keepalive => "Keepalive",
            MsgType::GetHistoryForKey => "GetHistoryForKey",
            MsgType::GetStateMetadata => "GetStateMetadata",
            MsgType::PutStateMetadata => "PutStateMetadata",
            MsgType::GetPrivateDataHash => "GetPrivateDataHash",
            MsgType::PurgePrivateData => "PurgePrivateData",
            MsgType::WriteBatchState => "WriteBatchState",
            MsgType::GetStateMultiple => "GetStateMultiple",
        }
    }
}

impl ChaincodeMessage {
    /// What the message is for.
    pub open spec fn kind(&self) -> MsgType {
        MsgType::numbered(self.type_code)
    }

    /// What the message is for.
    pub fn msg_type(&self) -> (r: MsgType)
        ensures
            r == self.kind(),
    {
        MsgType::from_code(self.type_code)
    }
}

/// Every type has its own number.
pub proof fn numbers_tell_types_apart(msg_type: MsgType)
    ensures
        MsgType::numbered(msg_type.number()) == msg_type,
{
}

} // verus!
