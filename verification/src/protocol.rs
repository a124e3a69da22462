//! Identities and errors shared by every part of the host.
use crate::text;
use crate::text::{cat5, decimal, hexadecimal};
use vstd::prelude::*;
use vstd::string::*;

verus! {

/// Security realm that an actor belongs to.
#[derive(Debug, Clone, Copy, PartialEq, Eq, Hash, Structural)]
pub struct Realm {
    pub realm_id: u32,
}

/// Actor type: manufacturer, name and version.
#[derive(Debug, Clone, PartialEq, Eq, Hash)]
pub struct ActrType {
    pub manufacturer: String,
    pub name: String,
    pub version: String,
}

/// Actor identity.
#[derive(Debug, Clone, PartialEq, Eq, Hash)]
pub struct ActrId {
    pub realm: Realm,
    pub serial_number: u64,
    pub actr_type: ActrType,
}

/// Contents of an [`ActrType`].
pub struct ActrTypeView {
    pub manufacturer: Seq<char>,
    pub name: Seq<char>,
    pub version: Seq<char>,
}

/// Contents of an [`ActrId`].
pub struct ActrIdView {
    pub realm_id: u32,
    pub serial_number: u64,
    pub actr_type: ActrTypeView,
}

impl View for ActrType {
    type V = ActrTypeView;

    open spec fn view(&self) -> ActrTypeView {
        ActrTypeView {
            manufacturer: self.manufacturer@,
            name: self.name@,
            version: self.version@,
        }
    }
}

impl View for ActrId {
    type V = ActrIdView;

    open spec fn view(&self) -> ActrIdView {
        ActrIdView {
            realm_id: self.realm.realm_id,
            serial_number: self.serial_number,
            actr_type: self.actr_type@,
        }
    }
}

impl ActrTypeView {
    /// `manufacturer:name:version`.
    pub open spec fn repr(self) -> Seq<char> {
        self.manufacturer + ":"@ + self.name + ":"@ + self.version
    }
}

impl ActrIdView {
    /// `serial@realm/manufacturer:name:version`, the serial in hexadecimal.
    pub open spec fn repr(self) -> Seq<char> {
        text::numeral(self.serial_number as nat, 16) + "@"@ + text::decimal_text(self.realm_id as nat) + "/"@
            + self.actr_type.repr()
    }
}

impl ActrType {
    /// `manufacturer:name:version`.
    pub fn to_string_repr(&self) -> (r: String)
        ensures
            r@ == self@.repr(),
    {
        cat5(self.manufacturer.as_str(), ":", self.name.as_str(), ":", self.version.as_str())
    }

    /// A copy with the same contents.
    pub fn duplicate(&self) -> (r: ActrType)
        ensures
            r@ == self@,
    {
        ActrType {
            manufacturer: self.manufacturer.clone(),
            name: self.name.clone(),
            version: self.version.clone(),
        }
    }
}

impl ActrId {
    /// Canonical text form, e.g. `1a2b3c@101/acme:echo-service:1.0.0`.
    pub fn to_string_repr(&self) -> (r: String)
        ensures
            r@ == self@.repr(),
    {
        let serial: String = hexadecimal(self.serial_number);
        let realm: String = decimal(self.realm.realm_id as u64);
        let actr_type: String = self.actr_type.to_string_repr();
        cat5(serial.as_str(), "@", realm.as_str(), "/", actr_type.as_str())
    }

    /// A copy with the same contents.
    pub fn duplicate(&self) -> (r: ActrId)
        ensures
            r@ == self@,
    {
        ActrId {
            realm: self.realm,
            serial_number: self.serial_number,
            actr_type: self.actr_type.duplicate(),
        }
    }
}

/// A text is no actor identity.
#[derive(Debug, Clone, PartialEq, Eq)]
pub struct ActrIdError {
    pub message: String,
}

/// How an error should be handled.
#[derive(Debug, Clone, Copy, PartialEq, Eq, Hash, Structural)]
pub enum ErrorKind {
    /// May succeed when tried again.
    Transient,
    /// The request itself cannot succeed.
    Client,
    /// The data is damaged and belongs in the dead-letter queue.
    Corrupt,
    /// A fault inside the framework.
    Internal,
}

impl ErrorKind {
    /// Only transient errors are worth retrying.
    pub fn is_retryable(self) -> (r: bool)
        ensures
            r == (self == ErrorKind::Transient),
    {
        self == ErrorKind::Transient
    }

    /// Only corrupt data goes to the dead-letter queue.
    pub fn requires_dlq(self) -> (r: bool)
        ensures
            r == (self == ErrorKind::Corrupt),
    {
        self == ErrorKind::Corrupt
    }
}

/// Framework-level error returned to callers.
#[derive(Debug, Clone, PartialEq, Eq)]
pub enum ActrError {
    /// The target cannot serve right now; retrying may help.
    Unavailable(String),
    /// The connection is still being set up.
    ConnectionNotReady { retry_after_ms: Option<u64> },
    /// The deadline passed.
    TimedOut,
    /// No such actor, route or connection.
    NotFound(String),
    /// The caller is not allowed to do this.
    PermissionDenied(String),
    /// The request is malformed.
    InvalidArgument(String),
    /// The workload has no handler for the route.
    UnknownRoute(String),
    /// A declared dependency is missing.
    DependencyNotFound { service_name: String, message: String },
    /// Bytes could not be decoded.
    DecodeFailure(String),
    /// The operation is not offered here.
    NotImplemented(String),
    /// A fault inside the framework.
    Internal(String),
}

/// Contents of an [`ActrError`].
pub enum ActrErrorView {
    Unavailable(Seq<char>),
    ConnectionNotReady { retry_after_ms: Option<u64> },
    TimedOut,
    NotFound(Seq<char>),
    PermissionDenied(Seq<char>),
    InvalidArgument(Seq<char>),
    UnknownRoute(Seq<char>),
    DependencyNotFound { service_name: Seq<char>, message: Seq<char> },
    DecodeFailure(Seq<char>),
    NotImplemented(Seq<char>),
    Internal(Seq<char>),
}

impl View for ActrError {
    type V = ActrErrorView;

    open spec fn view(&self) -> ActrErrorView {
        match *self {
            ActrError::Unavailable(m) => ActrErrorView::Unavailable(m@),
            ActrError::ConnectionNotReady {
                retry_after_ms,
            } => ActrErrorView::ConnectionNotReady { retry_after_ms },
            ActrError::TimedOut => ActrErrorView::TimedOut,
            ActrError::NotFound(m) => ActrErrorView::NotFound(m@),
            ActrError::PermissionDenied(m) => ActrErrorView::PermissionDenied(m@),
            ActrError::InvalidArgument(m) => ActrErrorView::InvalidArgument(m@),
            ActrError::UnknownRoute(m) => ActrErrorView::UnknownRoute(m@),
            ActrError::DependencyNotFound {
                service_name,
                message,
            } => ActrErrorView::DependencyNotFound {
                service_name: service_name@,
                message: message@,
            },
            ActrError::DecodeFailure(m) => ActrErrorView::DecodeFailure(m@),
            ActrError::NotImplemented(m) => ActrErrorView::NotImplemented(m@),
            ActrError::Internal(m) => ActrErrorView::Internal(m@),
        }
    }
}

impl ActrErrorView {
    /// How the error should be handled.
    pub open spec fn kind(self) -> ErrorKind {
        match self {
            ActrErrorView::Unavailable(_) | ActrErrorView::ConnectionNotReady { .. }
            | ActrErrorView::TimedOut => ErrorKind::Transient,
            ActrErrorView::DecodeFailure(_) => ErrorKind::Corrupt,
            ActrErrorView::NotImplemented(_) | ActrErrorView::Internal(_) => ErrorKind::Internal,
            _ => ErrorKind::Client,
        }
    }
}

impl ActrError {
    /// How the error should be handled.
    pub fn kind(&self) -> (r: ErrorKind)
        ensures
            r == self@.kind(),
    {
        match self {
            ActrError::Unavailable(_) | ActrError::ConnectionNotReady { .. }
            | ActrError::TimedOut => ErrorKind::Transient,
            ActrError::DecodeFailure(_) => ErrorKind::Corrupt,
            ActrError::NotImplemented(_) | ActrError::Internal(_) => ErrorKind::Internal,
            _ => ErrorKind::Client,
        }
    }

    /// Whether trying again may help.
    pub fn is_retryable(&self) -> (r: bool)
        ensures
            r == (self@.kind() == ErrorKind::Transient),
    {
        self.kind().is_retryable()
    }

    /// Whether the message belongs in the dead-letter queue.
    pub fn requires_dlq(&self) -> (r: bool)
        ensures
            r == (self@.kind() == ErrorKind::Corrupt),
    {
        self.kind().requires_dlq()
    }

    /// A copy with the same contents.
    pub fn duplicate(&self) -> (r: ActrError)
        ensures
            r@ == self@,
    {
        match self {
            ActrError::Unavailable(m) => ActrError::Unavailable(m.clone()),
            ActrError::ConnectionNotReady { retry_after_ms } => ActrError::ConnectionNotReady {
                retry_after_ms: *retry_after_ms,
            },
            ActrError::TimedOut => ActrError::TimedOut,
            ActrError::NotFound(m) => ActrError::NotFound(m.clone()),
            ActrError::PermissionDenied(m) => ActrError::PermissionDenied(m.clone()),
            ActrError::InvalidArgument(m) => ActrError::InvalidArgument(m.clone()),
            ActrError::UnknownRoute(m) => ActrError::UnknownRoute(m.clone()),
            ActrError::DependencyNotFound { service_name, message } => {
                ActrError::DependencyNotFound {
                    service_name: service_name.clone(),
                    message: message.clone(),
                }
            },
            ActrError::DecodeFailure(m) => ActrError::DecodeFailure(m.clone()),
            ActrError::NotImplemented(m) => ActrError::NotImplemented(m.clone()),
            ActrError::Internal(m) => ActrError::Internal(m.clone()),
        }
    }
}

// ── laws ─────────────────────────────────────────────────────────────────────

/// The text of an identity tells actors apart: two identities with the same text have
/// the same serial number, the same realm and the same type text.
pub proof fn identity_texts_tell_actors_apart(a: ActrIdView, b: ActrIdView)
    requires
        a.repr() == b.repr(),
    ensures
        a.serial_number == b.serial_number,
        a.realm_id == b.realm_id,
        a.actr_type.repr() == b.actr_type.repr(),
{
    reveal_strlit("@");
    reveal_strlit("/");
    let (sa, sb) = (
        text::numeral(a.serial_number as nat, 16),
        text::numeral(b.serial_number as nat, 16),
    );
    let (ra, rb) = (text::decimal_text(a.realm_id as nat), text::decimal_text(b.realm_id as nat));
    text::numerals_read_back(a.serial_number as nat, 16);
    text::numerals_read_back(b.serial_number as nat, 16);
    text::numerals_read_back(a.realm_id as nat, 10);
    text::numerals_read_back(b.realm_id as nat, 10);
    let (ta, tb) = (a.actr_type.repr(), b.actr_type.repr());
    assert(!sa.contains('@') && !sb.contains('@'));
    assert(!ra.contains('/') && !rb.contains('/'));
    assert("@"@ =~= seq!['@']);
    assert("/"@ =~= seq!['/']);
    assert(a.repr() =~= sa + seq!['@'] + (ra + seq!['/'] + ta));
    assert(b.repr() =~= sb + seq!['@'] + (rb + seq!['/'] + tb));
    text::first_split_is_unique(
        sa,
        ra + seq!['/'] + ta,
        sb,
        rb + seq!['/'] + tb,
        '@',
    );
    text::first_split_is_unique(ra, ta, rb, tb, '/');
}

/// The text of a type whose manufacturer and name hold no colon gives back its three
/// parts.
pub proof fn type_texts_tell_types_apart(a: ActrTypeView, b: ActrTypeView)
    requires
        a.repr() == b.repr(),
        !a.manufacturer.contains(':'),
        !b.manufacturer.contains(':'),
        !a.name.contains(':'),
        !b.name.contains(':'),
    ensures
        a.manufacturer == b.manufacturer,
        a.name == b.name,
        a.version == b.version,
{
    reveal_strlit(":");
    assert(":"@ =~= seq![':']);
    assert(a.repr() =~= a.manufacturer + seq![':'] + (a.name + seq![':'] + a.version));
    assert(b.repr() =~= b.manufacturer + seq![':'] + (b.name + seq![':'] + b.version));
    text::first_split_is_unique(
        a.manufacturer,
        a.name + seq![':'] + a.version,
        b.manufacturer,
        b.name + seq![':'] + b.version,
        ':',
    );
    text::first_split_is_unique(a.name, a.version, b.name, b.version, ':');
}

/// An identity's text starts with the serial number in hexadecimal and ends with the
/// actor's version.
pub proof fn identity_texts_start_with_the_serial(id: ActrIdView)
    ensures
        text::numeral(id.serial_number as nat, 16).is_prefix_of(id.repr()),
        id.actr_type.version.is_suffix_of(id.repr()),
        id.repr().len() > 0,
{
    text::numerals_read_back(id.serial_number as nat, 16);
    let s = id.repr();
    let v = id.actr_type.version;
    assert(s.take(text::numeral(id.serial_number as nat, 16).len() as int) =~= text::numeral(
        id.serial_number as nat,
        16,
    ));
    assert(s.subrange(s.len() - v.len(), s.len() as int) =~= v);
}

/// Retrying is for what may pass by itself (a target that is unavailable, a connection
/// that is not ready, a deadline), the dead-letter queue is for bytes that do not
/// decode, and no error is for both.
pub proof fn errors_are_handled_by_kind(e: ActrErrorView)
    ensures
        e.kind() == ErrorKind::Transient <==> e is Unavailable || e is ConnectionNotReady
            || e is TimedOut,
        e.kind() == ErrorKind::Corrupt <==> e is DecodeFailure,
        e.kind() == ErrorKind::Internal <==> e is NotImplemented || e is Internal,
        e.kind() == ErrorKind::Client <==> e is NotFound || e is PermissionDenied
            || e is InvalidArgument || e is UnknownRoute || e is DependencyNotFound,
{
}

} // verus!
