//! The fields and tokens of the protocol and the errors built from them.

use crate::address::PeerAddress;
use crate::text::{decimal, push_decimal, push_upper_hex, upper_hex};
use crate::MAX_INSTANCE_NAME_LEN;
use vstd::prelude::*;
use vstd::string::*;

verus! {

/// Different fields found in a browser response
#[derive(Debug, PartialEq, Eq, Copy, Clone, Hash, Structural)]
pub enum BrowserProtocolField {
    ServerName,
    InstanceName,
    IsClustered,
    Version,
    NamedPipeName,
    TcpPort,
    ViaMachineName,
    RpcComputerName,
    SpxServiceName,
    AppleTalkObjectName,
    BvItemName,
    BvGroupName,
    BvOrgName,
}

/// The number of fields in the vocabulary.
pub const FIELD_COUNT: usize = 13;

impl BrowserProtocolField {
    /// The position of the field in the vocabulary, counted from zero.
    pub open spec fn ordinal(self) -> nat {
        match self {
            BrowserProtocolField::ServerName => 0,
            BrowserProtocolField::InstanceName => 1,
            BrowserProtocolField::IsClustered => 2,
            BrowserProtocolField::Version => 3,
            BrowserProtocolField::NamedPipeName => 4,
            BrowserProtocolField::TcpPort => 5,
            BrowserProtocolField::ViaMachineName => 6,
            BrowserProtocolField::RpcComputerName => 7,
            BrowserProtocolField::SpxServiceName => 8,
            BrowserProtocolField::AppleTalkObjectName => 9,
            BrowserProtocolField::BvItemName => 10,
            BrowserProtocolField::BvGroupName => 11,
            BrowserProtocolField::BvOrgName => 12,
        }
    }

    /// The field at a position of the vocabulary, if there is one.
    pub open spec fn at(n: nat) -> Option<BrowserProtocolField> {
        if n == 0 {
            Some(BrowserProtocolField::ServerName)
        } else if n == 1 {
            Some(BrowserProtocolField::InstanceName)
        } else if n == 2 {
            Some(BrowserProtocolField::IsClustered)
        } else if n == 3 {
            Some(BrowserProtocolField::Version)
        } else if n == 4 {
            Some(BrowserProtocolField::NamedPipeName)
        } else if n == 5 {
            Some(BrowserProtocolField::TcpPort)
        } else if n == 6 {
            Some(BrowserProtocolField::ViaMachineName)
        } else if n == 7 {
            Some(BrowserProtocolField::RpcComputerName)
        } else if n == 8 {
            Some(BrowserProtocolField::SpxServiceName)
        } else if n == 9 {
            Some(BrowserProtocolField::AppleTalkObjectName)
        } else if n == 10 {
            Some(BrowserProtocolField::BvItemName)
        } else if n == 11 {
            Some(BrowserProtocolField::BvGroupName)
        } else if n == 12 {
            Some(BrowserProtocolField::BvOrgName)
        } else {
            None
        }
    }

    /// The field that the vocabulary lists after this one; the last field is
    /// followed by the first.
    pub open spec fn following(self) -> BrowserProtocolField {
        match Self::at((self.ordinal() + 1) % (FIELD_COUNT as nat)) {
            Some(f) => f,
            None => self,
        }
    }

    /// The name of the field, as diagnostics show it.
    pub open spec fn name_text(self) -> Seq<char> {
        match self {
            BrowserProtocolField::ServerName => "ServerName"@,
            BrowserProtocolField::InstanceName => "InstanceName"@,
            BrowserProtocolField::IsClustered => "IsClustered"@,
            BrowserProtocolField::Version => "Version"@,
            BrowserProtocolField::NamedPipeName => "NamedPipeName"@,
            BrowserProtocolField::TcpPort => "TcpPort"@,
            BrowserProtocolField::ViaMachineName => "ViaMachineName"@,
            BrowserProtocolField::RpcComputerName => "RpcComputerName"@,
            BrowserProtocolField::SpxServiceName => "SpxServiceName"@,
            BrowserProtocolField::AppleTalkObjectName => "AppleTalkObjectName"@,
            BrowserProtocolField::BvItemName => "BvItemName"@,
            BrowserProtocolField::BvGroupName => "BvGroupName"@,
            BrowserProtocolField::BvOrgName => "BvOrgName"@,
        }
    }

    /// The position of the field in the vocabulary.
    pub fn index(self) -> (i: usize)
        ensures
            i == self.ordinal(),
            i < FIELD_COUNT,
            Self::at(i as nat) == Some(self),
    {
        match self {
            BrowserProtocolField::ServerName => 0,
            BrowserProtocolField::InstanceName => 1,
            BrowserProtocolField::IsClustered => 2,
            BrowserProtocolField::Version => 3,
            BrowserProtocolField::NamedPipeName => 4,
            BrowserProtocolField::TcpPort => 5,
            BrowserProtocolField::ViaMachineName => 6,
            BrowserProtocolField::RpcComputerName => 7,
            BrowserProtocolField::SpxServiceName => 8,
            BrowserProtocolField::AppleTalkObjectName => 9,
            BrowserProtocolField::BvItemName => 10,
            BrowserProtocolField::BvGroupName => 11,
            BrowserProtocolField::BvOrgName => 12,
        }
    }

    /// The field at a position of the vocabulary; `None` from `FIELD_COUNT` on.
    pub fn from_index(i: usize) -> (r: Option<BrowserProtocolField>)
        ensures
            r == Self::at(i as nat),
            r is Some <==> i < FIELD_COUNT,
            r is Some ==> r->0.ordinal() == i,
    {
        if i == 0 {
            Some(BrowserProtocolField::ServerName)
        } else if i == 1 {
            Some(BrowserProtocolField::InstanceName)
        } else if i == 2 {
            Some(BrowserProtocolField::IsClustered)
        } else if i == 3 {
            Some(BrowserProtocolField::Version)
        } else if i == 4 {
            Some(BrowserProtocolField::NamedPipeName)
        } else if i == 5 {
            Some(BrowserProtocolField::TcpPort)
        } else if i == 6 {
            Some(BrowserProtocolField::ViaMachineName)
        } else if i == 7 {
            Some(BrowserProtocolField::RpcComputerName)
        } else if i == 8 {
            Some(BrowserProtocolField::SpxServiceName)
        } else if i == 9 {
            Some(BrowserProtocolField::AppleTalkObjectName)
        } else if i == 10 {
            Some(BrowserProtocolField::BvItemName)
        } else if i == 11 {
            Some(BrowserProtocolField::BvGroupName)
        } else if i == 12 {
            Some(BrowserProtocolField::BvOrgName)
        } else {
            None
        }
    }

    /// The field that the vocabulary lists after this one.
    pub fn next(self) -> (f: BrowserProtocolField)
        ensures
            f == self.following(),
    {
        let i: usize = self.index();
        let j: usize = if i + 1 == FIELD_COUNT { 0 } else { i + 1 };
        match Self::from_index(j) {
            Some(f) => f,
            None => self,
        }
    }

    /// The name of the field, as diagnostics show it.
    pub fn name(self) -> (s: &'static str)
        ensures
            s@ == self.name_text(),
    {
        match self {
            BrowserProtocolField::ServerName => "ServerName",
            BrowserProtocolField::InstanceName => "InstanceName",
            BrowserProtocolField::IsClustered => "IsClustered",
            BrowserProtocolField::Version => "Version",
            BrowserProtocolField::NamedPipeName => "NamedPipeName",
            BrowserProtocolField::TcpPort => "TcpPort",
            BrowserProtocolField::ViaMachineName => "ViaMachineName",
            BrowserProtocolField::RpcComputerName => "RpcComputerName",
            BrowserProtocolField::SpxServiceName => "SpxServiceName",
            BrowserProtocolField::AppleTalkObjectName => "AppleTalkObjectName",
            BrowserProtocolField::BvItemName => "BvItemName",
            BrowserProtocolField::BvGroupName => "BvGroupName",
            BrowserProtocolField::BvOrgName => "BvOrgName",
        }
    }
}

/// The value that was expected.
#[derive(Debug, Clone, PartialEq, Eq)]
pub enum BrowserProtocolToken {
    /// End of the datagram
    EndOfMessage,
    /// A literal string
    Literal(String),
    /// The message identifier specified in the header
    MessageIdentifier(u8),
    /// The message length specified in the header
    MessageLength,
    /// The version byte of a dedicated administrator connection reply
    DacVersion(u8),
    /// The port of a dedicated administrator connection
    DacPort,
    /// The identifier that introduces a field
    Identifier(BrowserProtocolField),
    /// The value of a field
    ValueOf(BrowserProtocolField),
    /// A TCP port number
    TcpPort,
    /// The parameters of a VIA endpoint
    ViaParameters,
    /// The identifier of an endpoint, or the semicolon that ends a record
    EndpointIdentifierOrSemicolon,
}

/// What a token is, its text taken as a sequence of characters.
pub ghost enum TokenView {
    EndOfMessage,
    Literal(Seq<char>),
    MessageIdentifier(u8),
    MessageLength,
    DacVersion(u8),
    DacPort,
    Identifier(BrowserProtocolField),
    ValueOf(BrowserProtocolField),
    TcpPort,
    ViaParameters,
    EndpointIdentifierOrSemicolon,
}

impl TokenView {
    /// The label of the token in a diagnostic.
    pub open spec fn text(self) -> Seq<char> {
        match self {
            TokenView::EndOfMessage => "end of message"@,
            TokenView::Literal(s) => "'"@ + s + "'"@,
            TokenView::MessageIdentifier(v) => "message identifier 0x"@ + upper_hex(v as nat),
            TokenView::MessageLength => "message length"@,
            TokenView::DacVersion(v) => "dac version "@ + decimal(v as nat),
            TokenView::DacPort => "dac port"@,
            TokenView::Identifier(field) => "identifier for field "@ + field.name_text(),
            TokenView::ValueOf(field) => "value for field "@ + field.name_text(),
            TokenView::TcpPort => "tcp port"@,
            TokenView::ViaParameters => "via parameters"@,
            TokenView::EndpointIdentifierOrSemicolon => "endpoint identifier or semicolon"@,
        }
    }
}

impl View for BrowserProtocolToken {
    type V = TokenView;

    open spec fn view(&self) -> TokenView {
        match self {
            BrowserProtocolToken::EndOfMessage => TokenView::EndOfMessage,
            BrowserProtocolToken::Literal(s) => TokenView::Literal(s@),
            BrowserProtocolToken::MessageIdentifier(v) => TokenView::MessageIdentifier(*v),
            BrowserProtocolToken::MessageLength => TokenView::MessageLength,
            BrowserProtocolToken::DacVersion(v) => TokenView::DacVersion(*v),
            BrowserProtocolToken::DacPort => TokenView::DacPort,
            BrowserProtocolToken::Identifier(field) => TokenView::Identifier(*field),
            BrowserProtocolToken::ValueOf(field) => TokenView::ValueOf(*field),
            BrowserProtocolToken::TcpPort => TokenView::TcpPort,
            BrowserProtocolToken::ViaParameters => TokenView::ViaParameters,
            BrowserProtocolToken::EndpointIdentifierOrSemicolon => {
                TokenView::EndpointIdentifierOrSemicolon
            },
        }
    }
}

impl BrowserProtocolToken {
    /// Appends the label of the token to `out`.
    pub fn render_into(&self, out: &mut String)
        ensures
            final(out)@ == old(out)@ + self@.text(),
    {
        match self {
            BrowserProtocolToken::EndOfMessage => out.append("end of message"),
            BrowserProtocolToken::Literal(s) => {
                out.append("'");
                out.append(s.as_str());
                out.append("'");
            },
            BrowserProtocolToken::MessageIdentifier(v) => {
                out.append("message identifier 0x");
                push_upper_hex(out, *v as u64);
            },
            BrowserProtocolToken::MessageLength => out.append("message length"),
            BrowserProtocolToken::DacVersion(v) => {
                out.append("dac version ");
                push_decimal(out, *v as u64);
            },
            BrowserProtocolToken::DacPort => out.append("dac port"),
            BrowserProtocolToken::Identifier(field) => {
                out.append("identifier for field ");
                out.append(field.name());
            },
            BrowserProtocolToken::ValueOf(field) => {
                out.append("value for field ");
                out.append(field.name());
            },
            BrowserProtocolToken::TcpPort => out.append("tcp port"),
            BrowserProtocolToken::ViaParameters => out.append("via parameters"),
            BrowserProtocolToken::EndpointIdentifierOrSemicolon => {
                out.append("endpoint identifier or semicolon")
            },
        }
        assert(final(out)@ =~= old(out)@ + self@.text());
    }

    /// The label of the token in a diagnostic, such as
    /// `message identifier 0x5` or `identifier for field TcpPort`.
    pub fn render(&self) -> (s: String)
        ensures
            s@ == self@.text(),
    {
        let mut out = String::new();
        self.render_into(&mut out);
        assert(out@ =~= self@.text());
        out
    }
}

/// Where and how the bytes of a text value stop being text.
#[derive(Debug, Clone, Copy, PartialEq, Eq)]
pub struct TextDecodeError {
    /// The position in the datagram of the first byte that is not part of
    /// well-formed text.
    pub offset: usize,
    /// The length of the byte sequence at `offset` that is not text; `None`
    /// where the value ends in the middle of a character.
    pub invalid_len: Option<usize>,
}

impl TextDecodeError {
    /// The one-line message of the failure.
    pub open spec fn text(self) -> Seq<char> {
        match self.invalid_len {
            Some(n) => "invalid utf-8 sequence of "@ + decimal(n as nat) + " bytes from index "@
                + decimal(self.offset as nat),
            None => "incomplete utf-8 byte sequence from index "@ + decimal(self.offset as nat),
        }
    }

    /// Appends the message of the failure to `out`.
    pub fn render_into(&self, out: &mut String)
        ensures
            final(out)@ == old(out)@ + self.text(),
    {
        match self.invalid_len {
            Some(n) => {
                out.append("invalid utf-8 sequence of ");
                push_decimal(out, n as u64);
                out.append(" bytes from index ");
                push_decimal(out, self.offset as u64);
            },
            None => {
                out.append("incomplete utf-8 byte sequence from index ");
                push_decimal(out, self.offset as u64);
            },
        }
        assert(final(out)@ =~= old(out)@ + self.text());
    }

    /// The one-line message of the failure.
    pub fn render(&self) -> (s: String)
        ensures
            s@ == self.text(),
    {
        let mut out = String::new();
        self.render_into(&mut out);
        assert(out@ =~= self.text());
        out
    }
}

/// Received an unexpected response from the server
#[derive(Debug, Clone, PartialEq, Eq)]
pub enum BrowserProtocolError {
    /// An unexpected token was received from the server
    UnexpectedToken {
        /// The token that was expected at this location
        expected: BrowserProtocolToken,
        /// The token that was found
        found: BrowserProtocolToken,
    },
    /// The length of the datagram does not match the length
    /// specified in the packet header.
    LengthMismatch {
        /// The size, in bytes, of what the datagram holds after its header
        datagram: usize,
        /// The size, in bytes, specified in the packet header
        header: usize,
    },
    /// Unexpected MBCS string encoding found in the received message
    InvalidUtf8(TextDecodeError),
    /// There was extraneous data after the parsed message
    ExtraneousData(Vec<u8>),
}

/// What a protocol error is, its tokens and bytes taken by their views.
pub ghost enum ProtocolErrorView {
    UnexpectedToken { expected: TokenView, found: TokenView },
    LengthMismatch { datagram: nat, header: nat },
    InvalidUtf8(TextDecodeError),
    ExtraneousData(Seq<u8>),
}

impl ProtocolErrorView {
    /// The one-line message of the error.
    pub open spec fn text(self) -> Seq<char> {
        match self {
            ProtocolErrorView::UnexpectedToken { expected, found } => "expected "@
                + expected.text() + ", but found "@ + found.text(),
            ProtocolErrorView::LengthMismatch { datagram, header } =>
                "mismatch between datagram size "@ + decimal(datagram)
                + " bytes and size specified in header "@ + decimal(header) + " bytes"@,
            ProtocolErrorView::InvalidUtf8(failure) => failure.text(),
            ProtocolErrorView::ExtraneousData(data) => decimal(data.len())
                + " unexpected trailing bytes"@,
        }
    }
}

impl View for BrowserProtocolError {
    type V = ProtocolErrorView;

    open spec fn view(&self) -> ProtocolErrorView {
        match self {
            BrowserProtocolError::UnexpectedToken { expected, found } => {
                ProtocolErrorView::UnexpectedToken { expected: expected@, found: found@ }
            },
            BrowserProtocolError::LengthMismatch { datagram, header } => {
                ProtocolErrorView::LengthMismatch {
                    datagram: *datagram as nat,
                    header: *header as nat,
                }
            },
            BrowserProtocolError::InvalidUtf8(failure) => ProtocolErrorView::InvalidUtf8(*failure),
            BrowserProtocolError::ExtraneousData(data) => ProtocolErrorView::ExtraneousData(data@),
        }
    }
}

impl BrowserProtocolError {
    /// Appends the message of the error to `out`.
    pub fn render_into(&self, out: &mut String)
        ensures
            final(out)@ == old(out)@ + self@.text(),
    {
        match self {
            BrowserProtocolError::UnexpectedToken { expected, found } => {
                out.append("expected ");
                expected.render_into(out);
                out.append(", but found ");
                found.render_into(out);
            },
            BrowserProtocolError::LengthMismatch { datagram, header } => {
                out.append("mismatch between datagram size ");
                push_decimal(out, *datagram as u64);
                out.append(" bytes and size specified in header ");
                push_decimal(out, *header as u64);
                out.append(" bytes");
            },
            BrowserProtocolError::InvalidUtf8(failure) => {
                failure.render_into(out);
            },
            BrowserProtocolError::ExtraneousData(data) => {
                push_decimal(out, data.len() as u64);
                out.append(" unexpected trailing bytes");
            },
        }
        assert(final(out)@ =~= old(out)@ + self@.text());
    }

    /// The one-line message of the error.
    pub fn render(&self) -> (s: String)
        ensures
            s@ == self@.text(),
    {
        let mut out = String::new();
        self.render_into(&mut out);
        assert(out@ =~= self@.text());
        out
    }

    /// The failure that the error was built from: the text decoding failure
    /// of `InvalidUtf8`, and nothing for the other errors.
    pub fn cause(&self) -> (c: Option<&TextDecodeError>)
        ensures
            match *self {
                BrowserProtocolError::InvalidUtf8(failure) => c == Some(&failure),
                _ => c is None,
            },
    {
        match self {
            BrowserProtocolError::InvalidUtf8(failure) => Some(failure),
            _ => None,
        }
    }
}

/// An error that can be returned from the different browser operations
#[derive(Debug, Clone, PartialEq, Eq)]
pub enum BrowserError<E> {
    /// The underlying socket failed to bind.
    BindFailed(E),
    /// Enabling the broadcast option on the socket failed.
    SetBroadcastFailed(E),
    /// Sending the request datagram failed.
    SendFailed(PeerAddress, E),
    /// Locking the socket to a specific endpoint failed.
    ConnectFailed(PeerAddress, E),
    /// Receiving a datagram failed.
    ReceiveFailed(E),
    /// The given instance name is too long.
    InstanceNameTooLong,
    /// The server send back an invalid response.
    ProtocolError(BrowserProtocolError),
}

/// What a browser error is, its protocol error taken by its view.
pub ghost enum BrowserErrorView<E> {
    BindFailed(E),
    SetBroadcastFailed(E),
    SendFailed(PeerAddress, E),
    ConnectFailed(PeerAddress, E),
    ReceiveFailed(E),
    InstanceNameTooLong,
    ProtocolError(ProtocolErrorView),
}

impl<E> BrowserErrorView<E> {
    /// The one-line message of the error. `cause` is the text of the
    /// transport's own error, which the message ends with where the error
    /// holds one.
    pub open spec fn text(self, cause: Seq<char>) -> Seq<char> {
        match self {
            BrowserErrorView::BindFailed(_) => "bind failed: "@ + cause,
            BrowserErrorView::SetBroadcastFailed(_) => "enabling broadcast option failed: "@
                + cause,
            BrowserErrorView::SendFailed(peer, _) => "sending of datagram to '"@ + peer.text()
                + "' failed: "@ + cause,
            BrowserErrorView::ConnectFailed(peer, _) => "connect to '"@ + peer.text()
                + "' failed: "@ + cause,
            BrowserErrorView::ReceiveFailed(_) => "receiving of datagram failed: "@ + cause,
            BrowserErrorView::InstanceNameTooLong => "specified instance name is longer than "@
                + decimal(MAX_INSTANCE_NAME_LEN as nat) + " bytes"@,
            BrowserErrorView::ProtocolError(e) => "protocol error: "@ + e.text(),
        }
    }
}

impl<E> View for BrowserError<E> {
    type V = BrowserErrorView<E>;

    open spec fn view(&self) -> BrowserErrorView<E> {
        match self {
            BrowserError::BindFailed(e) => BrowserErrorView::BindFailed(*e),
            BrowserError::SetBroadcastFailed(e) => BrowserErrorView::SetBroadcastFailed(*e),
            BrowserError::SendFailed(peer, e) => BrowserErrorView::SendFailed(*peer, *e),
            BrowserError::ConnectFailed(peer, e) => BrowserErrorView::ConnectFailed(*peer, *e),
            BrowserError::ReceiveFailed(e) => BrowserErrorView::ReceiveFailed(*e),
            BrowserError::InstanceNameTooLong => BrowserErrorView::InstanceNameTooLong,
            BrowserError::ProtocolError(e) => BrowserErrorView::ProtocolError(e@),
        }
    }
}

/// What lies under a browser error.
#[derive(Debug)]
pub enum ErrorCause<'a, E> {
    /// The transport's own error
    Transport(&'a E),
    /// The protocol error of a reply
    Protocol(&'a BrowserProtocolError),
}

impl<E> BrowserError<E> {
    /// The one-line message of the error. `cause` is the text of the
    /// transport's own error; it is used where the error holds one.
    pub fn render(&self, cause: &str) -> (s: String)
        ensures
            s@ == self@.text(cause@),
    {
        let mut out = String::new();
        match self {
            BrowserError::BindFailed(_) => {
                out.append("bind failed: ");
                out.append(cause);
            },
            BrowserError::SetBroadcastFailed(_) => {
                out.append("enabling broadcast option failed: ");
                out.append(cause);
            },
            BrowserError::SendFailed(peer, _) => {
                out.append("sending of datagram to '");
                peer.render_into(&mut out);
                out.append("' failed: ");
                out.append(cause);
            },
            BrowserError::ConnectFailed(peer, _) => {
                out.append("connect to '");
                peer.render_into(&mut out);
                out.append("' failed: ");
                out.append(cause);
            },
            BrowserError::ReceiveFailed(_) => {
                out.append("receiving of datagram failed: ");
                out.append(cause);
            },
            BrowserError::InstanceNameTooLong => {
                out.append("specified instance name is longer than ");
                push_decimal(&mut out, MAX_INSTANCE_NAME_LEN as u64);
                out.append(" bytes");
            },
            BrowserError::ProtocolError(e) => {
                out.append("protocol error: ");
                e.render_into(&mut out);
            },
        }
        assert(out@ =~= self@.text(cause@));
        out
    }

    /// What lies under the error: the transport's own error, the protocol
    /// error of a reply, or nothing for a name that is too long.
    pub fn cause(&self) -> (c: Option<ErrorCause<'_, E>>)
        ensures
            match *self {
                BrowserError::BindFailed(e) => c == Some(ErrorCause::Transport(&e)),
                BrowserError::SetBroadcastFailed(e) => c == Some(ErrorCause::Transport(&e)),
                BrowserError::SendFailed(_, e) => c == Some(ErrorCause::Transport(&e)),
                BrowserError::ConnectFailed(_, e) => c == Some(ErrorCause::Transport(&e)),
                BrowserError::ReceiveFailed(e) => c == Some(ErrorCause::Transport(&e)),
                BrowserError::InstanceNameTooLong => c is None,
                BrowserError::ProtocolError(e) => c == Some(ErrorCause::<E>::Protocol(&e)),
            },
    {
        match self {
            BrowserError::BindFailed(e) => Some(ErrorCause::Transport(e)),
            BrowserError::SetBroadcastFailed(e) => Some(ErrorCause::Transport(e)),
            BrowserError::SendFailed(_, e) => Some(ErrorCause::Transport(e)),
            BrowserError::ConnectFailed(_, e) => Some(ErrorCause::Transport(e)),
            BrowserError::ReceiveFailed(e) => Some(ErrorCause::Transport(e)),
            BrowserError::InstanceNameTooLong => None,
            BrowserError::ProtocolError(e) => Some(ErrorCause::Protocol(e)),
        }
    }
}

} // verus!
