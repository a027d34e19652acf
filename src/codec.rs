//! Method calls and their results, as the codecs carry them.
use vstd::prelude::*;
use crate::value::{Value, ValueModel};
use crate::wire::fits;

verus! {

/// A remote invocation: a method name and its arguments.
#[derive(Debug)]
pub struct MethodCall {
    pub method: String,
    pub args: Value,
}

/// The two wire encodings a channel can use.
#[derive(Debug, Clone, Copy, PartialEq, Eq, Structural)]
pub enum CodecTypes {
    JsonMessageCodec,
    StandardMessageCodec,
}

/// What a handled call produced.
#[derive(Debug)]
pub enum MethodCallResult {
    Success(Value),
    Error { code: String, message: String, details: Value },
    NotImplemented,
}

/// The mathematical content of a `MethodCallResult`.
pub enum ResultModel {
    Success(ValueModel),
    Error(Seq<char>, Seq<char>, ValueModel),
    NotImplemented,
}

impl View for MethodCallResult {
    type V = ResultModel;

    open spec fn view(&self) -> ResultModel {
        match self {
            MethodCallResult::Success(v) => ResultModel::Success(v@),
            MethodCallResult::Error { code, message, details } => ResultModel::Error(
                code@,
                message@,
                details@,
            ),
            MethodCallResult::NotImplemented => ResultModel::NotImplemented,
        }
    }
}

/// A wire encoding of method calls and of their results. Lengths must fit
/// the standard codec's size prefixes.
pub trait MethodCodec {
    fn encode_method_call(&self, call: &MethodCall) -> Vec<u8>
        requires
            fits(ValueModel::Str(call.method@)),
            fits(call.args@),
    ;

    fn decode_method_call(&self, buf: &[u8]) -> Option<MethodCall>;

    fn encode_success_envelope(&self, v: &Value) -> Vec<u8>
        requires
            fits(v@),
    ;

    fn encode_error_envelope(&self, code: &String, message: &String, details: &Value) -> Vec<u8>
        requires
            fits(ValueModel::Str(code@)),
            fits(ValueModel::Str(message@)),
            fits(details@),
    ;

    fn decode_envelope(&self, buf: &[u8]) -> Option<MethodCallResult>;
}

} // verus!
