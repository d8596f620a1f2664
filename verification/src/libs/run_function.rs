//! The message that calls a library function, and the response that carries
//! the function's result.
use vstd::prelude::*;
use crate::lang::val_data::{DataModel, VDataEnum};
use crate::libs::comms::{ByteData, ByteDataA, ByteDataError, ByteReader, Decoded, MessageResponse, RespondableMessage};
use crate::libs::data_bytes::{dec_value, enc_value};

verus! {

/// A call of the library function `function_id` with the arguments `args`.
#[derive(Debug, PartialEq)]
pub struct Message {
    pub function_id: u64,
    pub args: Vec<VDataEnum>,
}

/// The value a library function gave back.
#[derive(Debug, PartialEq)]
pub struct Response {
    pub result: VDataEnum,
}

impl DeepView for Message {
    type V = (u64, Seq<DataModel>);

    open spec fn deep_view(&self) -> (u64, Seq<DataModel>) {
        (self.function_id, self.args.deep_view())
    }
}

impl DeepView for Response {
    type V = DataModel;

    open spec fn deep_view(&self) -> DataModel {
        self.result.model()
    }
}

impl ByteDataA for Message {
    /// The function id, then the number of arguments and each argument.
    open spec fn spec_encode(v: (u64, Seq<DataModel>)) -> Seq<u8> {
        <(u64, Vec<VDataEnum>) as ByteDataA>::spec_encode(v)
    }

    open spec fn spec_encodable(v: (u64, Seq<DataModel>)) -> bool {
        true
    }

    fn as_byte_data(&self, vec: &mut Vec<u8>) {
        self.function_id.as_byte_data(vec);
        self.args.as_byte_data(vec);
        assert(vec@ =~= old(vec)@ + Self::spec_encode(self.deep_view()));
    }
}

impl ByteData for Message {
    /// The function id, then the number of arguments and each argument.
    open spec fn spec_decode(data: Seq<u8>) -> Decoded<(u64, Seq<DataModel>)> {
        <(u64, Vec<VDataEnum>) as ByteData>::spec_decode(data)
    }

    fn from_byte_data(data: &mut ByteReader) -> (r: Result<Message, ByteDataError>) {
        match <(u64, Vec<VDataEnum>)>::from_byte_data(data) {
            Ok((function_id, args)) => Ok(Message { function_id, args }),
            Err(e) => Err(e),
        }
    }
}

impl ByteDataA for Response {
    /// The result value.
    open spec fn spec_encode(v: DataModel) -> Seq<u8> {
        enc_value(v)
    }

    open spec fn spec_encodable(v: DataModel) -> bool {
        true
    }

    fn as_byte_data(&self, vec: &mut Vec<u8>) {
        self.result.as_byte_data(vec)
    }
}

impl ByteData for Response {
    /// The result value.
    open spec fn spec_decode(data: Seq<u8>) -> Decoded<DataModel> {
        dec_value(data)
    }

    fn from_byte_data(data: &mut ByteReader) -> (r: Result<Response, ByteDataError>) {
        match VDataEnum::from_byte_data(data) {
            Ok(result) => Ok(Response { result }),
            Err(e) => Err(e),
        }
    }
}

impl MessageResponse for Message {
    /// Function calls are messages of kind 0.
    open spec fn spec_messagetype_id() -> u32 {
        0
    }

    fn messagetype_id() -> (r: u32) {
        0
    }
}

impl MessageResponse for Response {
    /// Their responses are of kind 0 as well.
    open spec fn spec_messagetype_id() -> u32 {
        0
    }

    fn messagetype_id() -> (r: u32) {
        0
    }
}

impl RespondableMessage for Message {
    type With = VDataEnum;
    type Response = Response;

    /// The response carries the value the function gave back.
    fn respond(self, with: VDataEnum) -> (r: Response)
        ensures
            r.result == with,
    {
        Response { result: with }
    }
}

} // verus!
