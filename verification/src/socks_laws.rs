use vstd::prelude::*;

use crate::common::{AddressModel, SocketAddrModel, Verb};
use crate::error::{socks_error, ErrorModel};
use crate::socks::{
    accepts, be16, first_accepted, guard_code, spec_negotiate, spec_parse_address, spec_parse_request,
    spec_verify, spec_verify_password, Guard, OutcomeModel, RequestModel, AUTH_VERSION, CMD_CONNECT,
    SOCKS_VERSION,
};
use crate::error::ProtocolErrorModel;
use crate::text::decimal;
use vstd::string::StringSliceAdditionalSpecFns;

verus! {

/// The method selection picks the first guard of the server's list whose
/// method the client offers; no guard is picked only when the client offers
/// none of them.
pub proof fn lemma_first_accepted_is_first(guards: Seq<Guard>, methods: Seq<u8>)
    ensures
        first_accepted(guards, methods) matches Some(g) ==> exists|i: int|
            0 <= i < guards.len() && guards[i] == g && accepts(methods, g) && forall|j: int|
                0 <= j < i ==> !accepts(methods, #[trigger] guards[j]),
        first_accepted(guards, methods) is None ==> forall|i: int|
            0 <= i < guards.len() ==> !accepts(methods, #[trigger] guards[i]),
    decreases guards.len(),
{
    if guards.len() > 0 {
        let rest = guards.drop_first();
        lemma_first_accepted_is_first(rest, methods);
        if !accepts(methods, guards[0]) {
            if let Some(g) = first_accepted(rest, methods) {
                let i = choose|i: int|
                    0 <= i < rest.len() && rest[i] == g && accepts(methods, g) && forall|j: int|
                        0 <= j < i ==> !accepts(methods, #[trigger] rest[j]);
                assert forall|j: int| 0 <= j < i + 1 implies !accepts(methods, #[trigger] guards[j]) by {
                    if j > 0 {
                        assert(guards[j] == rest[j - 1]);
                    }
                }
                assert(guards[i + 1] == g);
            } else {
                assert forall|i: int| 0 <= i < guards.len() implies !accepts(methods, #[trigger] guards[i]) by {
                    if i > 0 {
                        assert(guards[i] == rest[i - 1]);
                    }
                }
            }
        }
    }
}

/// An empty method list accepts no guard.
pub proof fn lemma_nothing_accepted_from_empty(guards: Seq<Guard>)
    ensures
        first_accepted(guards, Seq::<u8>::empty()) is None,
    decreases guards.len(),
{
    if guards.len() > 0 {
        assert(!Seq::<u8>::empty().contains(guard_code(guards[0])));
        lemma_nothing_accepted_from_empty(guards.drop_first());
    }
}

/// Once the method selection is decided on the bytes received so far,
/// bytes that arrive later do not change it, and it used no more bytes than
/// had arrived.
pub proof fn lemma_negotiate_extends(guards: Seq<Guard>, s: Seq<u8>, t: Seq<u8>)
    requires
        spec_negotiate(guards, s) is Some,
    ensures
        spec_negotiate(guards, s + t) == spec_negotiate(guards, s),
        spec_negotiate(guards, s)->0.consumed <= s.len(),
{
    let st = s + t;
    assert(st[0] == s[0]);
}

/// Once the username/password sub-negotiation is decided on the bytes
/// received so far, later bytes do not change it, and it used no more bytes
/// than had arrived.
pub proof fn lemma_verify_password_extends(uname: Seq<u8>, passwd: Seq<u8>, s: Seq<u8>, t: Seq<u8>)
    requires
        spec_verify_password(uname, passwd, s) is Some,
    ensures
        spec_verify_password(uname, passwd, s + t) == spec_verify_password(uname, passwd, s),
        spec_verify_password(uname, passwd, s)->0.consumed <= s.len(),
{
    let st = s + t;
    assert(st[0] == s[0]);
}

proof fn lemma_parse_address_extends(s: Seq<u8>, t: Seq<u8>)
    requires
        spec_parse_address(s) is Some,
    ensures
        spec_parse_address(s + t) == spec_parse_address(s),
        spec_parse_address(s) matches Some(Ok((_, n))) ==> n <= s.len(),
{
    let st = s + t;
    assert(st[0] == s[0]);
    if s[0] == 0x01 {
        assert(st.subrange(1, 5) =~= s.subrange(1, 5));
    } else if s[0] == 0x03 {
        assert(st[1] == s[1]);
        assert(st.subrange(2, 2 + s[1]) =~= s.subrange(2, 2 + s[1]));
    } else if s[0] == 0x04 {
        assert(st.subrange(1, 17) =~= s.subrange(1, 17));
    }
}

/// Once a client request is decided on the bytes received so far, later
/// bytes do not change the decision, and it used no more bytes than had
/// arrived.
pub proof fn lemma_parse_request_extends(s: Seq<u8>, t: Seq<u8>)
    requires
        spec_parse_request(s) is Some,
    ensures
        spec_parse_request(s + t) == spec_parse_request(s),
        spec_parse_request(s)->0.consumed <= s.len(),
{
    let st = s + t;
    assert(st[0] == s[0]);
    if s[0] == SOCKS_VERSION {
        assert(st[1] == s[1]);
        if s[1] == CMD_CONNECT {
            assert(st[2] == s[2]);
            if s[2] == 0 {
                assert(st.skip(3) =~= s.skip(3) + t);
                lemma_parse_address_extends(s.skip(3), t);
                if let Some(Ok((a, n))) = spec_parse_address(s.skip(3)) {
                    if s.len() >= 3 + n + 2 {
                        assert(st[3 + n as int] == s[3 + n as int]);
                        assert(st[4 + n as int] == s[4 + n as int]);
                    }
                }
            }
        }
    }
}

/// The greeting a client sends to offer `methods`.
pub open spec fn greeting_bytes(methods: Seq<u8>) -> Seq<u8> {
    seq![SOCKS_VERSION, methods.len() as u8] + methods
}

/// Whatever methods a client offers (at most 255 of them), its greeting is
/// answered with `X'FF'` and an error after its first two bytes: the method
/// list is never read, so no guard is found in it.
pub proof fn lemma_negotiate_greeting(guards: Seq<Guard>, methods: Seq<u8>, t: Seq<u8>)
    requires
        methods.len() <= 255,
    ensures
        spec_negotiate(guards, greeting_bytes(methods) + t) == Some(
            OutcomeModel {
                reply: seq![SOCKS_VERSION, 0xffu8],
                consumed: 2,
                result: Err::<Guard, ErrorModel>(socks_error("no auth method available"@)),
            },
        ),
{
    let s = greeting_bytes(methods) + t;
    assert(s[0] == SOCKS_VERSION);
    lemma_nothing_accepted_from_empty(guards);
}

/// The sub-negotiation request a client sends with `uname` and `passwd`.
pub open spec fn credentials_bytes(uname: Seq<u8>, passwd: Seq<u8>) -> Seq<u8> {
    seq![AUTH_VERSION, uname.len() as u8] + uname + seq![passwd.len() as u8] + passwd
}

/// Whatever credentials a client sends (each at most 255 bytes), the
/// sub-negotiation uses the first three bytes of its request and accepts
/// it, with status `X'00'`, exactly when the guard's username and password
/// are both empty; otherwise it answers `X'FF'` with an error.
pub proof fn lemma_verify_credentials(
    uname: Seq<u8>,
    passwd: Seq<u8>,
    given_uname: Seq<u8>,
    given_passwd: Seq<u8>,
    t: Seq<u8>,
)
    requires
        given_uname.len() <= 255,
        given_passwd.len() <= 255,
    ensures
        ({
            let s = credentials_bytes(given_uname, given_passwd) + t;
            let o = spec_verify_password(uname, passwd, s)->0;
            &&& spec_verify_password(uname, passwd, s) is Some
            &&& o.consumed == 3
            &&& (o.result is Ok <==> uname.len() == 0 && passwd.len() == 0)
            &&& (o.result is Ok ==> o.reply == seq![AUTH_VERSION, 0x00u8])
            &&& (o.result is Err ==> o.reply == seq![AUTH_VERSION, 0xffu8])
        }),
{
    let s = credentials_bytes(given_uname, given_passwd) + t;
    assert(s[0] == AUTH_VERSION);
    assert(s.len() >= 3);
    if uname.len() == 0 {
        assert(uname =~= Seq::<u8>::empty());
    }
    if passwd.len() == 0 {
        assert(passwd =~= Seq::<u8>::empty());
    }
}

/// The bytes that encode `a` as `ATYP DST.ADDR`.
pub open spec fn address_bytes(a: AddressModel) -> Seq<u8> {
    match a {
        AddressModel::Ipv4(x) => seq![0x01u8] + x,
        AddressModel::Domain(d) => seq![0x03u8, d.len() as u8] + d,
        AddressModel::Ipv6(x) => seq![0x04u8] + x,
    }
}

/// `a` can be written in a request: four bytes of IPv4, sixteen of IPv6,
/// or a domain name of at most 255 bytes.
pub open spec fn address_fits(a: AddressModel) -> bool {
    match a {
        AddressModel::Ipv4(x) => x.len() == 4,
        AddressModel::Domain(d) => d.len() <= 255,
        AddressModel::Ipv6(x) => x.len() == 16,
    }
}

/// The CONNECT request a client sends for `dst`.
pub open spec fn connect_request_bytes(dst: SocketAddrModel) -> Seq<u8> {
    seq![SOCKS_VERSION, CMD_CONNECT, 0x00u8] + address_bytes(dst.addr) + seq![
        (dst.port / 256) as u8,
        (dst.port % 256) as u8,
    ]
}

/// A CONNECT request for `dst` is read back as exactly that request, using
/// all of its bytes and none after it.
pub proof fn lemma_parse_connect_request(dst: SocketAddrModel, t: Seq<u8>)
    requires
        address_fits(dst.addr),
    ensures
        spec_parse_request(connect_request_bytes(dst) + t) == Some(
            OutcomeModel {
                reply: Seq::<u8>::empty(),
                consumed: connect_request_bytes(dst).len(),
                result: Ok::<RequestModel, ErrorModel>(RequestModel { cmd: Verb::Connect, dst }),
            },
        ),
{
    let a = address_bytes(dst.addr);
    let s = connect_request_bytes(dst) + t;
    let rest = s.skip(3);
    assert(s[0] == SOCKS_VERSION);
    assert(s[1] == CMD_CONNECT);
    assert(s[2] == 0);
    assert(rest =~= a + seq![(dst.port / 256) as u8, (dst.port % 256) as u8] + t);
    assert(rest[0] == a[0]);
    match dst.addr {
        AddressModel::Ipv4(x) => {
            assert(rest.subrange(1, 5) =~= x);
        },
        AddressModel::Domain(d) => {
            assert(rest[1] == d.len() as u8);
            assert(rest.subrange(2, 2 + d.len() as int) =~= d);
        },
        AddressModel::Ipv6(x) => {
            assert(rest.subrange(1, 17) =~= x);
        },
    }
    let n = a.len() as int;
    assert(s[3 + n] == (dst.port / 256) as u8);
    assert(s[4 + n] == (dst.port % 256) as u8);
    assert(be16((dst.port / 256) as u8, (dst.port % 256) as u8) == dst.port);
}

/// The method codes of the guards are those of RFC 1928: `X'00'` for no
/// authentication, `X'01'` for GSSAPI, `X'02'` for username/password, and
/// `X'FF'` for no acceptable method.
pub proof fn lemma_guard_codes(uname: &'static str, passwd: &'static str)
    ensures
        guard_code(Guard::NoAuth) == 0x00,
        guard_code(Guard::GSSAPI) == 0x01,
        guard_code(Guard::Password { uname, passwd }) == 0x02,
        guard_code(Guard::NoAcceptable) == 0xff,
{
}

/// The guard chosen for a client is one whose method code the client
/// offers, and no guard before it in the server's list has a code the
/// client offers; no guard is chosen only when the client offers none of
/// their codes.
pub proof fn lemma_select_first_offered(guards: Seq<Guard>, methods: Seq<u8>)
    ensures
        first_accepted(guards, methods) matches Some(g) ==> methods.contains(guard_code(g)) && exists|i: int|
            0 <= i < guards.len() && guards[i] == g && forall|j: int|
                0 <= j < i ==> !methods.contains(guard_code(#[trigger] guards[j])),
        first_accepted(guards, methods) is None ==> forall|i: int|
            0 <= i < guards.len() ==> !methods.contains(guard_code(#[trigger] guards[i])),
{
    lemma_first_accepted_is_first(guards, methods);
    if let Some(g) = first_accepted(guards, methods) {
        let i = choose|i: int|
            0 <= i < guards.len() && guards[i] == g && accepts(methods, g) && forall|j: int|
                0 <= j < i ==> !accepts(methods, #[trigger] guards[j]);
        assert forall|j: int| 0 <= j < i implies !methods.contains(guard_code(#[trigger] guards[j])) by {
            assert(!accepts(methods, guards[j]));
        }
    } else {
        assert forall|i: int| 0 <= i < guards.len() implies !methods.contains(guard_code(#[trigger] guards[i])) by {
            assert(!accepts(methods, guards[i]));
        }
    }
}

/// With no authentication the step reads nothing, sends nothing and
/// passes, whatever the client has sent already: its request stays for the
/// next step.
pub proof fn lemma_no_auth_reads_nothing(s: Seq<u8>)
    ensures
        spec_verify(Guard::NoAuth, s) == Some(
            OutcomeModel { reply: Seq::<u8>::empty(), consumed: 0, result: Ok::<(), ErrorModel>(()) },
        ),
{
}

/// GSSAPI reads nothing, sends nothing and fails as not implemented.
pub proof fn lemma_gssapi_not_implemented(s: Seq<u8>)
    ensures
        spec_verify(Guard::GSSAPI, s) == Some(
            OutcomeModel {
                reply: Seq::<u8>::empty(),
                consumed: 0,
                result: Err::<(), ErrorModel>(ErrorModel::NotImplement("GSSAPI authentication"@)),
            },
        ),
{
}

/// The password step waits for three bytes, or fails after one on a wrong
/// version without answering; once three bytes of version 1 are there it
/// uses exactly those three and accepts exactly when the guard's username
/// and password are both empty, answering `[1, 0]`, else `[1, 0xFF]`.
pub proof fn lemma_password_step(uname: &'static str, passwd: &'static str, s: Seq<u8>)
    ensures
        s.len() == 0 ==> spec_verify(Guard::Password { uname, passwd }, s) is None,
        s.len() >= 1 && s[0] != 0x01 ==> spec_verify(Guard::Password { uname, passwd }, s) == Some(
            OutcomeModel {
                reply: Seq::<u8>::empty(),
                consumed: 1,
                result: Err::<(), ErrorModel>(
                    ErrorModel::Protocol(
                        ProtocolErrorModel::SocksProtocol("wrong socks auth version: "@ + decimal(s[0] as nat)),
                    ),
                ),
            },
        ),
        s.len() >= 1 && s[0] == 0x01 && s.len() < 3 ==> spec_verify(Guard::Password { uname, passwd }, s) is None,
        s.len() >= 3 && s[0] == 0x01 ==> ({
            let o = spec_verify(Guard::Password { uname, passwd }, s)->0;
            &&& spec_verify(Guard::Password { uname, passwd }, s) is Some
            &&& o.consumed == 3
            &&& (o.result is Ok <==> uname.spec_bytes().len() == 0 && passwd.spec_bytes().len() == 0)
            &&& (o.result is Ok ==> o.reply == seq![0x01u8, 0x00u8])
            &&& (o.result is Err ==> o.reply == seq![0x01u8, 0xffu8])
        }),
{
    if uname.spec_bytes().len() == 0 {
        assert(uname.spec_bytes() =~= Seq::<u8>::empty());
    }
    if passwd.spec_bytes().len() == 0 {
        assert(passwd.spec_bytes() =~= Seq::<u8>::empty());
    }
}

/// A request with any command other than CONNECT (`X'01'`) fails after its
/// first two bytes with "unsupported command N", and is not answered.
pub proof fn lemma_request_rejects_other_commands(s: Seq<u8>)
    requires
        s.len() >= 2,
        s[0] == 0x05,
        s[1] != 0x01,
    ensures
        spec_parse_request(s) == Some(
            OutcomeModel {
                reply: Seq::<u8>::empty(),
                consumed: 2,
                result: Err::<RequestModel, ErrorModel>(
                    ErrorModel::Protocol(
                        ProtocolErrorModel::SocksProtocol("unsupported command "@ + decimal(s[1] as nat)),
                    ),
                ),
            },
        ),
{
}

/// An accepted request is a CONNECT of version 5 with a zero reserved byte,
/// sends no reply, and uses exactly its own bytes: the address as its type
/// byte says, then the port, big-endian, in the last two bytes used.
pub proof fn lemma_request_accepted_shape(s: Seq<u8>)
    requires
        spec_parse_request(s) is Some,
        spec_parse_request(s)->0.result is Ok,
    ensures
        ({
            let o = spec_parse_request(s)->0;
            let r = o.result->Ok_0;
            let n = o.consumed as int;
            &&& s[0] == 0x05 && s[1] == 0x01 && s[2] == 0x00
            &&& r.cmd == Verb::Connect
            &&& o.reply.len() == 0
            &&& n <= s.len()
            &&& r.dst.port as int == s[n - 2] as int * 256 + s[n - 1] as int
            &&& match r.dst.addr {
                AddressModel::Ipv4(a) => s[3] == 0x01 && n == 10 && a == s.subrange(4, 8),
                AddressModel::Domain(d) => s[3] == 0x03 && n == 7 + s[4] && d == s.subrange(5, 5 + s[4] as int),
                AddressModel::Ipv6(a) => s[3] == 0x04 && n == 22 && a == s.subrange(4, 20),
            }
        }),
{
    let t = s.skip(3);
    assert(t[0] == s[3]);
    if s[3] == 0x01 {
        assert(t.subrange(1, 5) =~= s.subrange(4, 8));
    } else if s[3] == 0x03 {
        assert(t[1] == s[4]);
        assert(t.subrange(2, 2 + t[1]) =~= s.subrange(5, 5 + s[4] as int));
    } else if s[3] == 0x04 {
        assert(t.subrange(1, 17) =~= s.subrange(4, 20));
    }
}

/// Method selection: nothing is decided before the first byte; a first
/// byte other than 5 fails after that byte without an answer; with version
/// 5 nothing is decided before the count byte, and then, whatever follows,
/// the server answers `[5, 0xFF]` and fails after using those two bytes.
pub proof fn lemma_negotiate_decisions(guards: Seq<Guard>, s: Seq<u8>)
    ensures
        s.len() == 0 ==> spec_negotiate(guards, s) is None,
        s.len() >= 1 && s[0] != 0x05 ==> ({
            let o = spec_negotiate(guards, s)->0;
            &&& spec_negotiate(guards, s) is Some
            &&& o.consumed == 1 && o.reply.len() == 0 && o.result is Err
        }),
        s.len() == 1 && s[0] == 0x05 ==> spec_negotiate(guards, s) is None,
        s.len() >= 2 && s[0] == 0x05 ==> spec_negotiate(guards, s) == Some(
            OutcomeModel {
                reply: seq![0x05u8, 0xffu8],
                consumed: 2,
                result: Err::<Guard, ErrorModel>(socks_error("no auth method available"@)),
            },
        ),
{
    lemma_nothing_accepted_from_empty(guards);
}

} // verus!
