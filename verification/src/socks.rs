use vstd::prelude::*;
use vstd::slice::slice_subrange;
use vstd::slice::slice_to_vec;
use vstd::string::StringSliceAdditionalSpecFns;

use crate::common::{Address, AddressModel, SocketAddr, SocketAddrModel, Verb};
use crate::error::{socks_error, Error, ErrorModel, ProtocolError, result_model};
use crate::text::{decimal, message_with_number};

verus! {

/// The SOCKS protocol version this server speaks.
pub const SOCKS_VERSION: u8 = 0x05;

/// The version of the username/password sub-negotiation (RFC 1929).
pub const AUTH_VERSION: u8 = 0x01;

/// The request command that asks for a TCP connection.
pub const CMD_CONNECT: u8 = 0x01;

/// An authentication method the server offers, in the order of preference
/// given by the server's list.
#[derive(Debug, Copy, Clone, PartialEq, Eq)]
pub enum Guard {
    NoAuth,
    GSSAPI,
    Password { uname: &'static str, passwd: &'static str },
    NoAcceptable,
}

/// The method code that stands for a guard on the wire.
pub open spec fn guard_code(g: Guard) -> u8 {
    match g {
        Guard::NoAuth => 0x00,
        Guard::GSSAPI => 0x01,
        Guard::Password { .. } => 0x02,
        Guard::NoAcceptable => 0xff,
    }
}

impl View for Guard {
    type V = Guard;

    open spec fn view(&self) -> Guard {
        *self
    }
}

impl core::ops::Deref for Guard {
    type Target = u8;

    /// The method code, so that `*guard` reads as the byte on the wire.
    fn deref(&self) -> (c: &u8)
        ensures
            *c == guard_code(*self),
    {
        match self {
            Guard::NoAuth => &0x00,
            Guard::GSSAPI => &0x01,
            Guard::Password { .. } => &0x02,
            Guard::NoAcceptable => &0xff,
        }
    }
}

/// What one step of a SOCKS exchange decided once enough bytes had arrived:
/// the bytes to send back to the client (possibly none), how many bytes of
/// the input the step used, and its result.
#[derive(Debug)]
pub struct Outcome<T> {
    pub reply: Vec<u8>,
    pub consumed: usize,
    pub result: Result<T, Error>,
}

/// The mathematical value of an [`Outcome`].
pub struct OutcomeModel<V> {
    pub reply: Seq<u8>,
    pub consumed: nat,
    pub result: Result<V, ErrorModel>,
}

impl<T: View> View for Outcome<T> {
    type V = OutcomeModel<T::V>;

    open spec fn view(&self) -> OutcomeModel<T::V> {
        OutcomeModel { reply: self.reply@, consumed: self.consumed as nat, result: result_model(self.result) }
    }
}

/// The model of an optional outcome; `None` means that more input is needed.
pub open spec fn outcome_model<T: View>(o: Option<Outcome<T>>) -> Option<OutcomeModel<T::V>> {
    match o {
        Some(x) => Some(x@),
        None => None,
    }
}

/// An outcome that sends nothing and fails with `e` after `n` bytes.
pub open spec fn failed<V>(n: nat, e: ErrorModel) -> OutcomeModel<V> {
    OutcomeModel { reply: Seq::empty(), consumed: n, result: Err(e) }
}

/// The message of the error for a bad protocol version byte.
pub open spec fn wrong_version_message(v: u8) -> Seq<char> {
    "wrong socks version: "@ + decimal(v as nat)
}

/// The client's method list names the code of `g`.
pub open spec fn accepts(methods: Seq<u8>, g: Guard) -> bool {
    methods.contains(guard_code(g))
}

/// The first guard of `guards`, in order, whose code the client names.
pub open spec fn first_accepted(guards: Seq<Guard>, methods: Seq<u8>) -> Option<Guard>
    decreases guards.len(),
{
    if guards.len() == 0 {
        None
    } else if accepts(methods, guards[0]) {
        Some(guards[0])
    } else {
        first_accepted(guards.drop_first(), methods)
    }
}

/// Whether `methods` holds `code`.
fn contains_code(methods: &[u8], code: u8) -> (r: bool)
    ensures
        r == methods@.contains(code),
{
    let mut i: usize = 0;
    while i < methods.len()
        invariant
            i <= methods.len(),
            forall|j: int| 0 <= j < i ==> methods@[j] != code,
        decreases methods.len() - i,
    {
        if methods[i] == code {
            return true;
        }
        i = i + 1;
    }
    false
}

/// The guard the server uses for a client that offers `methods`: the first
/// of `guards` whose method code the client names, if there is one.
pub fn select_guard(guards: &[Guard], methods: &[u8]) -> (r: Option<Guard>)
    ensures
        r == first_accepted(guards@, methods@),
        r matches Some(g) ==> methods@.contains(guard_code(g)) && exists|i: int|
            0 <= i < guards@.len() && guards@[i] == g && forall|j: int|
                0 <= j < i ==> !methods@.contains(guard_code(#[trigger] guards@[j])),
        r is None ==> forall|i: int|
            0 <= i < guards@.len() ==> !methods@.contains(guard_code(#[trigger] guards@[i])),
{
    let r = find_first_offered(guards, methods);
    proof {
        crate::socks_laws::lemma_select_first_offered(guards@, methods@);
    }
    r
}

/// The first of `guards` whose code is in `methods`, by a scan in order.
fn find_first_offered(guards: &[Guard], methods: &[u8]) -> (r: Option<Guard>)
    ensures
        r == first_accepted(guards@, methods@),
{
    let mut i: usize = 0;
    assert(guards@.skip(0) =~= guards@);
    while i < guards.len()
        invariant
            i <= guards.len(),
            first_accepted(guards@, methods@) == first_accepted(guards@.skip(i as int), methods@),
        decreases guards.len() - i,
    {
        let g = guards[i];
        assert(guards@.skip(i as int)[0] == g);
        assert(guards@.skip(i as int).drop_first() =~= guards@.skip(i + 1));
        if contains_code(methods, *g) {
            return Some(g);
        }
        i = i + 1;
    }
    assert(guards@.skip(i as int).len() == 0);
    None
}

/// The message of the error for a bad sub-negotiation version byte.
pub open spec fn wrong_auth_version_message(v: u8) -> Seq<char> {
    "wrong socks auth version: "@ + decimal(v as nat)
}

fn socks_failure(msg: String) -> (e: Error)
    ensures
        e@ == socks_error(msg@),
{
    Error::Protocol(ProtocolError::SocksProtocol(msg))
}

/// Checks the version byte `ver` that opens a SOCKS message against
/// `allowed`.
pub fn verify_socks_version(allowed_version: u8, ver: u8) -> (r: Result<(), Error>)
    ensures
        ver == allowed_version ==> r is Ok,
        ver != allowed_version ==> result_model(r) == Err::<(), ErrorModel>(socks_error(wrong_version_message(ver))),
{
    if ver != allowed_version {
        return Err(socks_failure(message_with_number("wrong socks version: ", ver as u64)));
    }
    Ok(())
}

/// Checks the version byte `ver` that opens a username/password
/// sub-negotiation against `allowed`.
pub fn verify_socks_auth_version(allowed_version: u8, ver: u8) -> (r: Result<(), Error>)
    ensures
        ver == allowed_version ==> r is Ok,
        ver != allowed_version ==> result_model(r) == Err::<(), ErrorModel>(socks_error(wrong_auth_version_message(ver))),
{
    if ver != allowed_version {
        return Err(socks_failure(message_with_number("wrong socks auth version: ", ver as u64)));
    }
    Ok(())
}

/// The method selection for a client whose greeting (`VER NMETHODS
/// METHODS`) starts `s`: `None` until the version and the count have
/// arrived. A greeting of another version fails at once and is not
/// answered. The method list is not read: the server looks for its guards
/// in an empty list, finds none, and answers `X'FF'` with an error after
/// using only the version and the count.
pub open spec fn spec_negotiate(guards: Seq<Guard>, s: Seq<u8>) -> Option<OutcomeModel<Guard>> {
    if s.len() < 1 {
        None
    } else if s[0] != SOCKS_VERSION {
        Some(failed(1, socks_error(wrong_version_message(s[0]))))
    } else if s.len() < 2 {
        None
    } else {
        let methods = Seq::<u8>::empty();
        match first_accepted(guards, methods) {
            Some(g) => Some(
                OutcomeModel { reply: seq![SOCKS_VERSION, guard_code(g)], consumed: 2, result: Ok(g) },
            ),
            None => Some(
                OutcomeModel {
                    reply: seq![SOCKS_VERSION, 0xffu8],
                    consumed: 2,
                    result: Err(socks_error("no auth method available"@)),
                },
            ),
        }
    }
}

/// A SOCKS5 server: where its connections come from, and the
/// authentication methods it offers, most preferred first.
pub struct SocksServer<L> {
    pub upstream: L,
    pub guards: Vec<Guard>,
}

impl<L> SocksServer<L> {
    /// The SOCKS version the server speaks.
    pub const VERSION: u8 = 0x05;

    /// Decides the method selection for the client whose greeting starts
    /// `buf`; `None` while more bytes are needed.
    pub fn negotiate(&self, buf: &[u8]) -> (r: Option<Outcome<Guard>>)
        ensures
            outcome_model(r) == spec_negotiate(self.guards@, buf@),
            buf@.len() >= 1 && buf@[0] != 0x05 ==> (r is Some && r->0.consumed == 1 && r->0.reply@.len() == 0
                && r->0.result is Err),
            buf@.len() >= 2 && buf@[0] == 0x05 ==> (r is Some && r->0.consumed == 2 && r->0.reply@ == seq![
                0x05u8,
                0xffu8,
            ] && r->0.result is Err),
            (buf@.len() == 0 || (buf@.len() == 1 && buf@[0] == 0x05)) ==> r is None,
    {
        proof {
            crate::socks_laws::lemma_negotiate_decisions(self.guards@, buf@);
        }
        if buf.len() < 1 {
            return None;
        }
        let ver = buf[0];
        if let Err(e) = verify_socks_version(Self::VERSION, ver) {
            return Some(Outcome { reply: Vec::new(), consumed: 1, result: Err(e) });
        }
        if buf.len() < 2 {
            return None;
        }
        let n: usize = 2;
        // The method list is not read: the list searched is empty.
        let methods = slice_subrange(buf, 2, 2);
        assert(methods@ =~= Seq::<u8>::empty());
        let mut reply: Vec<u8> = Vec::new();
        reply.push(Self::VERSION);
        match select_guard(self.guards.as_slice(), methods) {
            Some(g) => {
                reply.push(*g);
                assert(reply@ =~= seq![SOCKS_VERSION, guard_code(g)]);
                Some(Outcome { reply, consumed: n, result: Ok(g) })
            },
            None => {
                reply.push(0xff);
                assert(reply@ =~= seq![SOCKS_VERSION, 0xffu8]);
                let e = socks_failure(String::from_str("no auth method available"));
                Some(Outcome { reply, consumed: n, result: Err(e) })
            },
        }
    }
}

/// Whether two byte strings are equal.
fn bytes_eq(a: &[u8], b: &[u8]) -> (r: bool)
    ensures
        r == (a@ == b@),
{
    if a.len() != b.len() {
        return false;
    }
    let mut i: usize = 0;
    while i < a.len()
        invariant
            i <= a.len(),
            a.len() == b.len(),
            forall|j: int| 0 <= j < i ==> a@[j] == b@[j],
        decreases a.len() - i,
    {
        if a[i] != b[i] {
            return false;
        }
        i = i + 1;
    }
    assert(a@ =~= b@);
    true
}

/// The username/password sub-negotiation (RFC 1929) against the
/// credentials `uname` and `passwd`, for a client request (`VER ULEN UNAME
/// PLEN PASSWD`) that starts `s`: `None` until three bytes have arrived. A
/// request of another version fails at once and is not answered. The
/// username and the password are not read: the three bytes used are the
/// version, `ULEN` and one more byte taken as `PLEN`, and an empty username
/// and password are compared with the guard's. The request is answered with
/// status `X'00'` when both of the guard's are empty, else with `X'FF'` and
/// an error.
pub open spec fn spec_verify_password(uname: Seq<u8>, passwd: Seq<u8>, s: Seq<u8>) -> Option<
    OutcomeModel<()>,
> {
    if s.len() < 1 {
        None
    } else if s[0] != AUTH_VERSION {
        Some(failed(1, socks_error(wrong_auth_version_message(s[0]))))
    } else if s.len() < 3 {
        None
    } else if Seq::<u8>::empty() == uname && Seq::<u8>::empty() == passwd {
        Some(OutcomeModel { reply: seq![AUTH_VERSION, 0x00u8], consumed: 3, result: Ok(()) })
    } else {
        Some(
            OutcomeModel {
                reply: seq![AUTH_VERSION, 0xffu8],
                consumed: 3,
                result: Err(socks_error("wrong password"@)),
            },
        )
    }
}

/// What the guard `g` decides for a client whose authentication bytes
/// start `s`: no authentication passes at once, GSSAPI is not implemented,
/// and a password guard runs the username/password sub-negotiation.
pub open spec fn spec_verify(g: Guard, s: Seq<u8>) -> Option<OutcomeModel<()>> {
    match g {
        Guard::NoAuth => Some(OutcomeModel { reply: Seq::empty(), consumed: 0, result: Ok(()) }),
        Guard::GSSAPI => Some(failed(0, ErrorModel::NotImplement("GSSAPI authentication"@))),
        Guard::Password { uname, passwd } => spec_verify_password(uname.spec_bytes(), passwd.spec_bytes(), s),
        Guard::NoAcceptable => None,
    }
}

impl Guard {
    /// Authenticates the client whose bytes after the method selection
    /// start `buf`; `None` while more bytes are needed. The guard is the one
    /// the method selection chose, so it is never `NoAcceptable`.
    pub fn verify(&self, buf: &[u8]) -> (r: Option<Outcome<()>>)
        requires
            !(*self is NoAcceptable),
        ensures
            outcome_model(r) == spec_verify(*self, buf@),
            *self is NoAuth ==> (r is Some && r->0.consumed == 0 && r->0.reply@.len() == 0 && r->0.result is Ok),
            *self is GSSAPI ==> (r is Some && r->0.consumed == 0 && r->0.reply@.len() == 0
                && r->0.result is Err),
            r is Some ==> r->0.consumed <= buf@.len(),
            *self is Password && buf@.len() >= 3 && buf@[0] == 0x01 ==> (r is Some && r->0.consumed == 3
                && r->0.reply@.len() == 2),
    {
        let r = self.verify_step(buf);
        proof {
            if let Guard::Password { uname, passwd } = *self {
                crate::socks_laws::lemma_password_step(uname, passwd, buf@);
            }
        }
        r
    }

    /// The authentication step, per guard.
    fn verify_step(&self, buf: &[u8]) -> (r: Option<Outcome<()>>)
        requires
            !(*self is NoAcceptable),
        ensures
            outcome_model(r) == spec_verify(*self, buf@),
    {
        match self {
            Guard::NoAuth => Some(Outcome { reply: Vec::new(), consumed: 0, result: Ok(()) }),
            Guard::GSSAPI => Some(
                Outcome {
                    reply: Vec::new(),
                    consumed: 0,
                    result: Err(Error::NotImplement(String::from_str("GSSAPI authentication"))),
                },
            ),
            Guard::Password { uname, passwd } => verify_password(uname.as_bytes(), passwd.as_bytes(), buf),
            Guard::NoAcceptable => None,
        }
    }
}

/// Runs the username/password sub-negotiation against `uname` and `passwd`
/// for the client bytes `buf`; `None` while more bytes are needed.
fn verify_password(uname: &[u8], passwd: &[u8], buf: &[u8]) -> (r: Option<Outcome<()>>)
    ensures
        outcome_model(r) == spec_verify_password(uname@, passwd@, buf@),
{
    if buf.len() < 1 {
        return None;
    }
    if let Err(e) = verify_socks_auth_version(AUTH_VERSION, buf[0]) {
        return Some(Outcome { reply: Vec::new(), consumed: 1, result: Err(e) });
    }
    if buf.len() < 3 {
        return None;
    }
    let n: usize = 3;
    // The username and the password are not read: both compared are empty.
    let given_uname = slice_subrange(buf, 2, 2);
    let given_passwd = slice_subrange(buf, 3, 3);
    assert(given_uname@ =~= Seq::<u8>::empty());
    assert(given_passwd@ =~= Seq::<u8>::empty());
    let mut reply: Vec<u8> = Vec::new();
    reply.push(AUTH_VERSION);
    if bytes_eq(given_uname, uname) && bytes_eq(given_passwd, passwd) {
        reply.push(0x00);
        assert(reply@ =~= seq![AUTH_VERSION, 0x00u8]);
        Some(Outcome { reply, consumed: n, result: Ok(()) })
    } else {
        reply.push(0xff);
        assert(reply@ =~= seq![AUTH_VERSION, 0xffu8]);
        let e = socks_failure(String::from_str("wrong password"));
        Some(Outcome { reply, consumed: n, result: Err(e) })
    }
}

/// The big-endian value of the two bytes `hi` and `lo`.
pub open spec fn be16(hi: u8, lo: u8) -> u16 {
    (hi * 256 + lo) as u16
}

/// The destination address (`ATYP DST.ADDR`) that starts `s`: `None` while
/// it is incomplete, else the address and its length in bytes, or an error
/// for an unknown address type together with the one byte read.
pub open spec fn spec_parse_address(s: Seq<u8>) -> Option<Result<(AddressModel, nat), (ErrorModel, nat)>> {
    if s.len() < 1 {
        None
    } else if s[0] == 0x01 {
        if s.len() < 5 {
            None
        } else {
            Some(Ok((AddressModel::Ipv4(s.subrange(1, 5)), 5nat)))
        }
    } else if s[0] == 0x03 {
        if s.len() < 2 || s.len() < 2 + s[1] {
            None
        } else {
            Some(Ok((AddressModel::Domain(s.subrange(2, 2 + s[1])), (2 + s[1]) as nat)))
        }
    } else if s[0] == 0x04 {
        if s.len() < 17 {
            None
        } else {
            Some(Ok((AddressModel::Ipv6(s.subrange(1, 17)), 17nat)))
        }
    } else {
        Some(Err((socks_error("unsupported address type "@ + decimal(s[0] as nat)), 1nat)))
    }
}

/// The model of the result of [`parse_address`].
pub open spec fn address_result_model(r: Option<Result<(Address, usize), (Error, usize)>>) -> Option<
    Result<(AddressModel, nat), (ErrorModel, nat)>,
> {
    match r {
        None => None,
        Some(Ok((a, n))) => Some(Ok((a@, n as nat))),
        Some(Err((e, n))) => Some(Err((e@, n as nat))),
    }
}

/// Reads the destination address at the start of `buf`.
fn parse_address(buf: &[u8]) -> (r: Option<Result<(Address, usize), (Error, usize)>>)
    ensures
        address_result_model(r) == spec_parse_address(buf@),
{
    if buf.len() < 1 {
        return None;
    }
    let atyp = buf[0];
    if atyp == 0x01 {
        if buf.len() < 5 {
            return None;
        }
        let a: [u8; 4] = [buf[1], buf[2], buf[3], buf[4]];
        assert(a@ =~= buf@.subrange(1, 5));
        Some(Ok((Address::Ipv4(a), 5)))
    } else if atyp == 0x03 {
        if buf.len() < 2 {
            return None;
        }
        let end: usize = 2 + buf[1] as usize;
        if buf.len() < end {
            return None;
        }
        let name = slice_to_vec(slice_subrange(buf, 2, end));
        Some(Ok((Address::Domain(name), end)))
    } else if atyp == 0x04 {
        if buf.len() < 17 {
            return None;
        }
        let mut a: [u8; 16] = [0u8; 16];
        let mut i: usize = 0;
        while i < 16
            invariant
                i <= 16,
                buf@.len() >= 17,
                forall|j: int| 0 <= j < i ==> a@[j] == buf@[1 + j],
            decreases 16 - i,
        {
            a[i] = buf[1 + i];
            i = i + 1;
        }
        assert(a@ =~= buf@.subrange(1, 17));
        Some(Ok((Address::Ipv6(a), 17)))
    } else {
        let e = socks_failure(message_with_number("unsupported address type ", atyp as u64));
        Some(Err((e, 1)))
    }
}

/// A client's request: what to do, and with which destination.
#[derive(Debug, Clone, PartialEq, Eq)]
pub struct Request {
    pub cmd: Verb,
    pub dst: SocketAddr,
}

/// The mathematical value of a [`Request`].
pub struct RequestModel {
    pub cmd: Verb,
    pub dst: SocketAddrModel,
}

impl View for Request {
    type V = RequestModel;

    open spec fn view(&self) -> RequestModel {
        RequestModel { cmd: self.cmd, dst: self.dst@ }
    }
}

/// The client request (`VER CMD RSV ATYP DST.ADDR DST.PORT`) that starts
/// `s`: `None` while it is incomplete. Each field is checked as soon as it
/// has arrived, in order: the version, the command (only CONNECT is
/// served), the reserved byte (it must be zero) and the address type. No
/// reply is due at this step.
pub open spec fn spec_parse_request(s: Seq<u8>) -> Option<OutcomeModel<RequestModel>> {
    if s.len() < 1 {
        None
    } else if s[0] != SOCKS_VERSION {
        Some(failed(1, socks_error(wrong_version_message(s[0]))))
    } else if s.len() < 2 {
        None
    } else if s[1] != CMD_CONNECT {
        Some(failed(2, socks_error("unsupported command "@ + decimal(s[1] as nat))))
    } else if s.len() < 3 {
        None
    } else if s[2] != 0 {
        Some(failed(3, socks_error("wrong rsv byte "@ + decimal(s[2] as nat))))
    } else {
        match spec_parse_address(s.skip(3)) {
            None => None,
            Some(Err((e, n))) => Some(failed(3 + n, e)),
            Some(Ok((addr, n))) => {
                let end = 3 + n + 2;
                if s.len() < end {
                    None
                } else {
                    Some(
                        OutcomeModel {
                            reply: Seq::empty(),
                            consumed: end as nat,
                            result: Ok(
                                RequestModel {
                                    cmd: Verb::Connect,
                                    dst: SocketAddrModel { addr, port: be16(s[3 + n as int], s[4 + n as int]) },
                                },
                            ),
                        },
                    )
                }
            },
        }
    }
}

/// Reads the client request that starts `buf`; `None` while more bytes are
/// needed.
pub fn parse_request(buf: &[u8]) -> (r: Option<Outcome<Request>>)
    ensures
        outcome_model(r) == spec_parse_request(buf@),
        (r is Some && r->0.result is Ok) ==> (buf@[0] == 0x05 && buf@[1] == 0x01 && buf@[2] == 0x00
            && r->0.result->Ok_0.cmd == Verb::Connect && r->0.reply@.len() == 0 && r->0.consumed
            <= buf@.len()),
        (buf@.len() >= 2 && buf@[0] == 0x05 && buf@[1] != 0x01) ==> (r is Some && r->0.consumed == 2
            && r->0.reply@.len() == 0 && r->0.result is Err),
{
    let r = read_request(buf);
    proof {
        if buf@.len() >= 2 && buf@[0] == 0x05 && buf@[1] != 0x01 {
            crate::socks_laws::lemma_request_rejects_other_commands(buf@);
        }
        if r is Some && r->0.result is Ok {
            crate::socks_laws::lemma_request_accepted_shape(buf@);
        }
    }
    r
}

/// The request parser itself.
fn read_request(buf: &[u8]) -> (r: Option<Outcome<Request>>)
    ensures
        outcome_model(r) == spec_parse_request(buf@),
{
    if buf.len() < 1 {
        return None;
    }
    if let Err(e) = verify_socks_version(SOCKS_VERSION, buf[0]) {
        return Some(Outcome { reply: Vec::new(), consumed: 1, result: Err(e) });
    }
    if buf.len() < 2 {
        return None;
    }
    let cmd = buf[1];
    if cmd != CMD_CONNECT {
        let e = socks_failure(message_with_number("unsupported command ", cmd as u64));
        return Some(Outcome { reply: Vec::new(), consumed: 2, result: Err(e) });
    }
    if buf.len() < 3 {
        return None;
    }
    let rsv = buf[2];
    if rsv != 0x00 {
        let e = socks_failure(message_with_number("wrong rsv byte ", rsv as u64));
        return Some(Outcome { reply: Vec::new(), consumed: 3, result: Err(e) });
    }
    let rest = slice_subrange(buf, 3, buf.len());
    assert(rest@ =~= buf@.skip(3));
    match parse_address(rest) {
        None => None,
        Some(Err((e, n))) => Some(Outcome { reply: Vec::new(), consumed: 3 + n, result: Err(e) }),
        Some(Ok((addr, n))) => {
            let end: usize = 3 + n + 2;
            if buf.len() < end {
                return None;
            }
            let port: u16 = (buf[3 + n] as u16) * 256 + buf[4 + n] as u16;
            let dst = SocketAddr { addr, port };
            Some(Outcome { reply: Vec::new(), consumed: end, result: Ok(Request { cmd: Verb::Connect, dst }) })
        },
    }
}

/// An accepted SOCKS request, bound to the client connection it came on.
pub struct Exchange<S> {
    pub cmd: Verb,
    pub dst: SocketAddr,
    pub upstream: S,
}

impl<S> Exchange<S> {
    /// Binds the request `request` to the client connection `upstream`.
    pub fn new(request: Request, upstream: S) -> (x: Self)
        ensures
            x.cmd == request.cmd,
            x.dst == request.dst,
            x.upstream == upstream,
    {
        Exchange { cmd: request.cmd, dst: request.dst, upstream }
    }

    /// The destination to connect to: only CONNECT is implemented.
    pub fn target(&self) -> (r: Result<&SocketAddr, Error>)
        ensures
            self.cmd == Verb::Connect ==> (r matches Ok(d) && d@ == self.dst@),
            self.cmd != Verb::Connect ==> (r matches Err(e) && e@ == ErrorModel::NotImplement(
                "only the CONNECT command is implemented"@,
            )),
    {
        match self.cmd {
            Verb::Connect => Ok(&self.dst),
            _ => Err(Error::NotImplement(String::from_str("only the CONNECT command is implemented"))),
        }
    }
}

} // verus!
