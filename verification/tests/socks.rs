use one_proxy::common::{Address, SocketAddr, Verb};
use one_proxy::error::{Error, ProtocolError};
use one_proxy::socks::{
    parse_request, select_guard, verify_socks_auth_version, verify_socks_version, Exchange, Guard,
    Request, SocksServer,
};

const PASSWORD: Guard = Guard::Password { uname: "alice", passwd: "s3cret" };

fn socks_message(e: &Error) -> String {
    match e {
        Error::Protocol(ProtocolError::SocksProtocol(s)) => s.clone(),
        other => panic!("not a SOCKS protocol error: {:?}", other),
    }
}

fn server(guards: Vec<Guard>) -> SocksServer<()> {
    SocksServer { upstream: (), guards }
}

#[test]
fn guard_codes_are_the_rfc_method_numbers() {
    assert_eq!(*Guard::NoAuth, 0x00);
    assert_eq!(*Guard::GSSAPI, 0x01);
    assert_eq!(*PASSWORD, 0x02);
    assert_eq!(*Guard::NoAcceptable, 0xff);
}

#[test]
fn select_guard_prefers_the_server_order() {
    let guards = [PASSWORD, Guard::NoAuth];
    assert_eq!(select_guard(&guards, &[0x00, 0x02]), Some(PASSWORD));
    assert_eq!(select_guard(&guards, &[0x00]), Some(Guard::NoAuth));
    assert_eq!(select_guard(&guards, &[0x01, 0x03]), None);
    assert_eq!(select_guard(&guards, &[]), None);
    assert_eq!(select_guard(&[], &[0x00]), None);
}

#[test]
fn version_checks() {
    assert!(verify_socks_version(5, 5).is_ok());
    let e = verify_socks_version(5, 4).unwrap_err();
    assert_eq!(socks_message(&e), "wrong socks version: 4");
    assert!(verify_socks_auth_version(1, 1).is_ok());
    let e = verify_socks_auth_version(1, 200).unwrap_err();
    assert_eq!(socks_message(&e), "wrong socks auth version: 200");
}

#[test]
fn negotiate_reads_no_method_list() {
    // The method list goes into a zero-length buffer: nothing of it is read,
    // so even a method the server offers is not found.
    let s = server(vec![PASSWORD, Guard::NoAuth]);
    let o = s.negotiate(&[5, 2, 0x00, 0x02, 0xaa]).unwrap();
    assert_eq!(o.reply, vec![5, 0xff]);
    assert_eq!(o.consumed, 2);
    assert_eq!(socks_message(&o.result.unwrap_err()), "no auth method available");
}

#[test]
fn negotiate_without_common_method() {
    let s = server(vec![PASSWORD]);
    let o = s.negotiate(&[5, 1, 0x00]).unwrap();
    assert_eq!(o.reply, vec![5, 0xff]);
    assert_eq!(o.consumed, 2);
    assert_eq!(socks_message(&o.result.unwrap_err()), "no auth method available");
}

#[test]
fn negotiate_waits_for_version_and_count() {
    let s = server(vec![Guard::NoAuth]);
    assert!(s.negotiate(&[]).is_none());
    assert!(s.negotiate(&[5]).is_none());
    assert!(s.negotiate(&[5, 2]).is_some());
    assert!(s.negotiate(&[5, 0]).is_some());
}

#[test]
fn negotiate_rejects_other_versions_at_once() {
    let s = server(vec![Guard::NoAuth]);
    let o = s.negotiate(&[4]).unwrap();
    assert!(o.reply.is_empty());
    assert_eq!(o.consumed, 1);
    assert_eq!(socks_message(&o.result.unwrap_err()), "wrong socks version: 4");
}

#[test]
fn no_auth_passes_without_reading() {
    let o = Guard::NoAuth.verify(&[]).unwrap();
    assert!(o.reply.is_empty());
    assert_eq!(o.consumed, 0);
    assert!(o.result.is_ok());
}

#[test]
fn gssapi_is_not_implemented() {
    let o = Guard::GSSAPI.verify(&[1, 2, 3]).unwrap();
    assert!(o.reply.is_empty());
    assert!(matches!(o.result, Err(Error::NotImplement(_))));
}

fn credentials(uname: &[u8], passwd: &[u8]) -> Vec<u8> {
    let mut v = vec![1, uname.len() as u8];
    v.extend_from_slice(uname);
    v.push(passwd.len() as u8);
    v.extend_from_slice(passwd);
    v
}

#[test]
fn password_reads_three_bytes_and_no_credentials() {
    // Username and password go into zero-length buffers: the guard's
    // credentials are compared with empty ones.
    let req = credentials(b"alice", b"s3cret");
    let o = PASSWORD.verify(&req).unwrap();
    assert_eq!(o.reply, vec![1, 0xff]);
    assert_eq!(o.consumed, 3);
    assert_eq!(socks_message(&o.result.unwrap_err()), "wrong password");
}

#[test]
fn password_accepts_only_an_empty_guard() {
    let empty = Guard::Password { uname: "", passwd: "" };
    for req in [credentials(b"", b""), credentials(b"bob", b"x"), vec![1, 9, 9]] {
        let o = empty.verify(&req).unwrap();
        assert_eq!(o.reply, vec![1, 0]);
        assert_eq!(o.consumed, 3);
        assert!(o.result.is_ok());
    }
    let half = Guard::Password { uname: "", passwd: "p" };
    let o = half.verify(&credentials(b"", b"p")).unwrap();
    assert_eq!(o.reply, vec![1, 0xff]);
}

#[test]
fn password_rejects_wrong_credentials() {
    for (u, p) in [(&b"alice"[..], &b"wrong"[..]), (b"bob", b"s3cret"), (b"", b"")] {
        let req = credentials(u, p);
        let o = PASSWORD.verify(&req).unwrap();
        assert_eq!(o.reply, vec![1, 0xff]);
        assert_eq!(o.consumed, 3);
        assert_eq!(socks_message(&o.result.unwrap_err()), "wrong password");
    }
}

#[test]
fn password_checks_the_sub_negotiation_version() {
    let o = PASSWORD.verify(&[5, 5, b'a']).unwrap();
    assert!(o.reply.is_empty());
    assert_eq!(o.consumed, 1);
    assert_eq!(socks_message(&o.result.unwrap_err()), "wrong socks auth version: 5");
}

#[test]
fn password_waits_for_three_bytes() {
    let req = credentials(b"alice", b"s3cret");
    for end in 0..3 {
        assert!(PASSWORD.verify(&req[..end]).is_none(), "decided on {} bytes", end);
    }
    assert!(PASSWORD.verify(&req[..3]).is_some());
}

#[test]
fn request_with_ipv4_destination() {
    let o = parse_request(&[5, 1, 0, 1, 127, 0, 0, 1, 0x1f, 0x90, 0xee]).unwrap();
    assert!(o.reply.is_empty());
    assert_eq!(o.consumed, 10);
    let r = o.result.unwrap();
    assert_eq!(r.cmd, Verb::Connect);
    assert_eq!(r.dst, SocketAddr { addr: Address::Ipv4([127, 0, 0, 1]), port: 8080 });
}

#[test]
fn request_with_domain_destination() {
    let mut req = vec![5, 1, 0, 3, 11];
    req.extend_from_slice(b"example.com");
    req.extend_from_slice(&[0x01, 0xbb]);
    let o = parse_request(&req).unwrap();
    assert_eq!(o.consumed, req.len());
    let r = o.result.unwrap();
    assert_eq!(r.dst.addr, Address::Domain(b"example.com".to_vec()));
    assert_eq!(r.dst.port, 443);
}

#[test]
fn request_with_ipv6_destination() {
    let mut req = vec![5, 1, 0, 4];
    let ip: [u8; 16] = [0x20, 0x01, 0x0d, 0xb8, 0, 0, 0, 0, 0, 0, 0, 0, 0, 0, 0, 1];
    req.extend_from_slice(&ip);
    req.extend_from_slice(&[0, 80]);
    let o = parse_request(&req).unwrap();
    assert_eq!(o.consumed, 22);
    assert_eq!(o.result.unwrap().dst, SocketAddr { addr: Address::Ipv6(ip), port: 80 });
}

#[test]
fn request_waits_for_the_whole_request() {
    let req = [5u8, 1, 0, 1, 10, 0, 0, 1, 0, 22];
    for end in 0..req.len() {
        assert!(parse_request(&req[..end]).is_none(), "decided on {} bytes", end);
    }
    assert!(parse_request(&req).is_some());
}

#[test]
fn request_errors_in_field_order() {
    let o = parse_request(&[4, 9, 9]).unwrap();
    assert_eq!(o.consumed, 1);
    assert_eq!(socks_message(&o.result.unwrap_err()), "wrong socks version: 4");

    let o = parse_request(&[5, 2, 9]).unwrap();
    assert_eq!(o.consumed, 2);
    assert_eq!(socks_message(&o.result.unwrap_err()), "unsupported command 2");

    let o = parse_request(&[5, 1, 1]).unwrap();
    assert_eq!(o.consumed, 3);
    assert_eq!(socks_message(&o.result.unwrap_err()), "wrong rsv byte 1");

    let o = parse_request(&[5, 1, 0, 9]).unwrap();
    assert_eq!(o.consumed, 4);
    assert_eq!(socks_message(&o.result.unwrap_err()), "unsupported address type 9");
}

#[test]
fn exchange_targets_only_connect() {
    let dst = SocketAddr { addr: Address::Ipv4([1, 2, 3, 4]), port: 1 };
    let x = Exchange::new(Request { cmd: Verb::Connect, dst: dst.clone() }, ());
    assert_eq!(x.target().unwrap(), &dst);
    let x = Exchange::new(Request { cmd: Verb::Bind, dst }, ());
    assert!(matches!(x.target(), Err(Error::NotImplement(_))));
}

#[test]
fn server_version_constant() {
    assert_eq!(SocksServer::<()>::VERSION, 5);
}

#[test]
fn decisions_do_not_depend_on_later_bytes() {
    let s = server(vec![Guard::NoAuth]);
    let greeting = [5u8, 1, 0x00];
    let req = [5u8, 1, 0, 1, 10, 0, 0, 1, 0, 22];
    for tail in [&[][..], &[0xff, 0x00], &[5, 1, 0]] {
        let mut g = greeting.to_vec();
        g.extend_from_slice(tail);
        let o = s.negotiate(&g).unwrap();
        assert_eq!((o.reply, o.consumed), (vec![5, 0xff], 2));
        assert!(o.result.is_err());

        let mut r = req.to_vec();
        r.extend_from_slice(tail);
        let o = parse_request(&r).unwrap();
        assert_eq!(o.consumed, req.len());
        assert_eq!(o.result.unwrap().dst, SocketAddr { addr: Address::Ipv4([10, 0, 0, 1]), port: 22 });

        let mut c = credentials(b"alice", b"s3cret");
        c.extend_from_slice(tail);
        let o = PASSWORD.verify(&c).unwrap();
        assert_eq!(o.consumed, 3);
        assert!(o.result.is_err());
    }
}
