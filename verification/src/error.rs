use vstd::prelude::*;

verus! {

/// Every failure the library reports.
#[derive(Debug, Clone, PartialEq, Eq)]
pub enum Error {
    /// The peer asked for something this proxy does not implement.
    NotImplement(String),
    /// A message could not be encoded or decoded.
    Codec(CodecError),
    /// A message could not be converted into another message type.
    Convert(ConvertError),
    /// The peer broke the rules of a wire protocol.
    Protocol(ProtocolError),
}

/// What went wrong while converting one message type into another.
#[derive(Debug, Clone, PartialEq, Eq)]
pub enum ConvertError {
    /// Converting a value of the first named type into the second failed.
    TryInto(String, String),
}

/// What went wrong while encoding or decoding a message.
#[derive(Debug, Clone, PartialEq, Eq)]
pub enum CodecError {
    /// A value could not be serialised; the text describes why.
    Encode(String),
    /// Bytes could not be deserialised; the text describes why.
    Decode(String),
    /// The block cipher rejected its input (a ciphertext that is not made of
    /// whole blocks, or whose padding is malformed); the text is the
    /// cipher's own message.
    Cipher(String),
}

/// A breach of one of the wire protocols.
#[derive(Debug, Clone, PartialEq, Eq)]
pub enum ProtocolError {
    /// The framed ONE protocol.
    ONE(String),
    /// SOCKS5 (RFC 1928) and its username/password sub-negotiation (RFC 1929).
    SocksProtocol(String),
}

/// The mathematical value of an [`Error`]: its variant and the text it carries.
pub enum ErrorModel {
    NotImplement(Seq<char>),
    Codec(CodecErrorModel),
    Convert(Seq<char>, Seq<char>),
    Protocol(ProtocolErrorModel),
}

/// The mathematical value of a [`CodecError`].
pub enum CodecErrorModel {
    Encode(Seq<char>),
    Decode(Seq<char>),
    Cipher(Seq<char>),
}

/// The mathematical value of a [`ProtocolError`].
pub enum ProtocolErrorModel {
    ONE(Seq<char>),
    SocksProtocol(Seq<char>),
}

impl View for CodecError {
    type V = CodecErrorModel;

    open spec fn view(&self) -> CodecErrorModel {
        match self {
            CodecError::Encode(s) => CodecErrorModel::Encode(s@),
            CodecError::Decode(s) => CodecErrorModel::Decode(s@),
            CodecError::Cipher(s) => CodecErrorModel::Cipher(s@),
        }
    }
}

impl View for ProtocolError {
    type V = ProtocolErrorModel;

    open spec fn view(&self) -> ProtocolErrorModel {
        match self {
            ProtocolError::ONE(s) => ProtocolErrorModel::ONE(s@),
            ProtocolError::SocksProtocol(s) => ProtocolErrorModel::SocksProtocol(s@),
        }
    }
}

impl View for Error {
    type V = ErrorModel;

    open spec fn view(&self) -> ErrorModel {
        match self {
            Error::NotImplement(s) => ErrorModel::NotImplement(s@),
            Error::Codec(c) => ErrorModel::Codec(c@),
            Error::Convert(ConvertError::TryInto(a, b)) => ErrorModel::Convert(a@, b@),
            Error::Protocol(p) => ErrorModel::Protocol(p@),
        }
    }
}

/// The model of a SOCKS protocol error with message `msg`.
pub open spec fn socks_error(msg: Seq<char>) -> ErrorModel {
    ErrorModel::Protocol(ProtocolErrorModel::SocksProtocol(msg))
}

/// The model of a ONE protocol error with message `msg`.
pub open spec fn one_error(msg: Seq<char>) -> ErrorModel {
    ErrorModel::Protocol(ProtocolErrorModel::ONE(msg))
}

/// The model of a result: `Ok` values by their view, errors by their model.
pub open spec fn result_model<T: View>(r: Result<T, Error>) -> Result<T::V, ErrorModel> {
    match r {
        Ok(v) => Ok(v@),
        Err(e) => Err(e@),
    }
}

} // verus!
