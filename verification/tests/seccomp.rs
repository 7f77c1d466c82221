use openshell::seccomp::address::{
    parse_sockaddr, parse_sockaddr_ordered, parse_sockaddr_probed, IpAddr, Ipv4Addr, Ipv6Addr,
    SocketAddr, SocketAddrV4, SocketAddrV6,
};
use openshell::seccomp::allowlist::DnsPinnedAllowlist;
use openshell::seccomp::filter::{
    connect_notify_filter, native_connect_notify_filter, MediatedCalls, SockFilter,
    SECCOMP_RET_ALLOW, SECCOMP_RET_USER_NOTIF,
};
use openshell::seccomp::notify::{allow_connect, deny, process_memory_path, verify_socket_fd};

fn loopback_proxy() -> SocketAddr {
    SocketAddr::new(IpAddr::V4(Ipv4Addr::localhost()), 3128)
}

fn external() -> IpAddr {
    IpAddr::V4(Ipv4Addr::new(198, 51, 100, 5))
}

#[test]
fn allowlist_permits_loopback() {
    let allowlist = DnsPinnedAllowlist::new(loopback_proxy());
    assert!(allowlist.is_allowed(&IpAddr::V4(Ipv4Addr::localhost())));
    assert!(allowlist.is_allowed(&IpAddr::V6(Ipv6Addr::localhost())));
}

#[test]
fn allowlist_denies_arbitrary_ip() {
    let allowlist = DnsPinnedAllowlist::new(loopback_proxy());
    assert!(!allowlist.is_allowed(&external()));
}

#[test]
fn allowlist_resolves_domain() {
    let mut allowlist = DnsPinnedAllowlist::new(loopback_proxy());
    let resolved: Result<Vec<SocketAddr>, String> =
        Ok(vec![SocketAddr::new(IpAddr::V4(Ipv4Addr::localhost()), 0)]);
    let count = allowlist.add_domain(resolved).unwrap();
    assert!(count > 0);
    assert!(allowlist.is_allowed(&IpAddr::V4(Ipv4Addr::localhost())));
}

#[test]
fn allowlist_proxy_addr() {
    let proxy = loopback_proxy();
    let allowlist = DnsPinnedAllowlist::new(proxy);
    assert_eq!(allowlist.proxy_addr(), proxy);
}

#[test]
fn allowlist_len_and_empty() {
    let allowlist = DnsPinnedAllowlist::new(loopback_proxy());
    assert!(allowlist.len() >= 2);
    assert!(allowlist.is_empty());
}

#[test]
fn allowlist_grows_by_what_a_domain_resolves_to() {
    let mut allowlist = DnsPinnedAllowlist::new(loopback_proxy());
    assert_eq!(allowlist.len(), 2);
    let addr = SocketAddr::new(external(), 0);
    let count = allowlist.add_domain(Ok::<_, String>(vec![addr, addr])).unwrap();
    assert_eq!(count, 2);
    assert_eq!(allowlist.len(), 3);
    assert!(allowlist.is_allowed(&external()));
    assert!(allowlist.is_allowed(&IpAddr::V6(Ipv6Addr::localhost())));
    assert!(!allowlist.is_empty());
}

#[test]
fn allowlist_copies_grow_apart() {
    let allowlist = DnsPinnedAllowlist::new(loopback_proxy());
    let mut copy = allowlist.clone();
    copy.add_domain(Ok::<_, ()>(vec![SocketAddr::new(external(), 0)])).unwrap();
    assert!(copy.is_allowed(&external()));
    assert!(!allowlist.is_allowed(&external()));
    assert_eq!(copy.proxy_addr(), allowlist.proxy_addr());
}

#[test]
fn allowlist_keeps_as_it_is_when_a_domain_does_not_resolve() {
    let proxy = SocketAddr::new(external(), 3128);
    let mut allowlist = DnsPinnedAllowlist::new(proxy);
    assert_eq!(allowlist.len(), 3);
    let failed = allowlist.add_domain(Err("no such host".to_string()));
    assert_eq!(failed, Err("no such host".to_string()));
    assert_eq!(allowlist.len(), 3);
    assert!(allowlist.is_empty());
}

#[test]
fn parse_ipv4_sockaddr() {
    let mut buf = [0u8; 16];
    let family_bytes = 2u16.to_ne_bytes();
    buf[0] = family_bytes[0];
    buf[1] = family_bytes[1];
    buf[2] = 0x01;
    buf[3] = 0xBB;
    buf[4] = 93;
    buf[5] = 184;
    buf[6] = 216;
    buf[7] = 34;

    let addr = parse_sockaddr(&buf).unwrap();
    assert_eq!(addr.port(), 443);
    match addr {
        SocketAddr::V4(v4) => {
            assert_eq!(v4.ip, Ipv4Addr::new(93, 184, 216, 34));
        }
        SocketAddr::V6(_) => panic!("expected IPv4"),
    }
}

#[test]
fn parse_too_short_returns_none() {
    let buf = [0u8; 1];
    assert!(parse_sockaddr(&buf).is_none());
}

#[test]
fn parse_unknown_family_returns_none() {
    let buf = [0xFF; 16];
    assert!(parse_sockaddr(&buf).is_none());
}

#[test]
fn parse_cut_off_address_returns_none() {
    let mut buf = [0u8; 28];
    buf[0..2].copy_from_slice(&10u16.to_ne_bytes());
    assert!(parse_sockaddr(&buf[..27]).is_none());
    assert!(parse_sockaddr(&buf).is_some());
    buf[0..2].copy_from_slice(&2u16.to_ne_bytes());
    assert!(parse_sockaddr(&buf[..15]).is_none());
    assert!(parse_sockaddr(&buf[..16]).is_some());
}

#[test]
fn parse_ipv6_sockaddr() {
    let mut buf = [0u8; 28];
    buf[0..2].copy_from_slice(&10u16.to_ne_bytes());
    buf[2] = 0x1F;
    buf[3] = 0x90;
    buf[7] = 9;
    buf[8] = 0x20;
    buf[9] = 0x01;
    buf[23] = 0x42;
    buf[24..28].copy_from_slice(&7u32.to_ne_bytes());
    assert_eq!(
        parse_sockaddr(&buf),
        Some(SocketAddr::V6(SocketAddrV6 {
            ip: Ipv6Addr { bits: 0x2001_0000_0000_0000_0000_0000_0000_0042 },
            port: 8080,
            flowinfo: 9,
            scope_id: 7,
        }))
    );
}

#[test]
fn parse_in_either_byte_order() {
    let mut buf = [0u8; 16];
    buf[1] = 2;
    buf[3] = 80;
    buf[4] = 10;
    let expected = SocketAddr::V4(SocketAddrV4 { ip: Ipv4Addr::new(10, 0, 0, 0), port: 80 });
    assert_eq!(parse_sockaddr_ordered(&buf, false), Some(expected));
    assert_eq!(parse_sockaddr_ordered(&buf, true), None);
    assert_eq!(parse_sockaddr_probed(&buf, 0x100), Some(expected));
    assert_eq!(parse_sockaddr_probed(&buf, 1), None);
    let native = parse_sockaddr(&buf);
    assert_eq!(native, parse_sockaddr_probed(&buf, u16::from_ne_bytes([1, 0])));
}

fn run(program: &[SockFilter], nr: u32, arch: u32) -> u32 {
    let mut pc = 0;
    let mut acc = 0;
    loop {
        let i = program[pc];
        match i.code {
            0x20 => {
                acc = if i.k == 0 { nr } else { arch };
                pc += 1;
            }
            0x15 => pc += 1 + usize::from(if acc == i.k { i.jt } else { i.jf }),
            0x35 => pc += 1 + usize::from(if acc >= i.k { i.jt } else { i.jf }),
            0x06 => return i.k,
            _ => panic!("unknown instruction"),
        }
    }
}

#[test]
fn filter_sends_network_calls_to_the_supervisor() {
    let calls =
        MediatedCalls { connect: 42, sendto: 44, sendmsg: 46, recvfrom: 45, recvmsg: 47, bind: 49 };
    let program = connect_notify_filter(0xC000_003E, calls);
    assert_eq!(program.len(), 12);
    for nr in [42, 44, 45, 46, 47, 49] {
        assert_eq!(run(&program, nr, 0xC000_003E), SECCOMP_RET_USER_NOTIF);
    }
    for nr in [0, 41, 43, 48, 50, 0x3FFF_FFFF] {
        assert_eq!(run(&program, nr, 0xC000_003E), SECCOMP_RET_ALLOW);
        assert_eq!(run(&program, nr, 0x4000_0003), SECCOMP_RET_USER_NOTIF);
    }
}

#[test]
fn filter_is_not_bypassed_by_another_abi() {
    let calls =
        MediatedCalls { connect: 42, sendto: 44, sendmsg: 46, recvfrom: 45, recvmsg: 47, bind: 49 };
    let program = connect_notify_filter(0xC000_003E, calls);
    for nr in [0x4000_002A, 0x4000_0000, u32::MAX] {
        assert_eq!(run(&program, nr, 0xC000_003E), SECCOMP_RET_USER_NOTIF);
    }
    let calls = MediatedCalls {
        connect: 203,
        sendto: 206,
        sendmsg: 211,
        recvfrom: 207,
        recvmsg: 212,
        bind: 200,
    };
    let program = connect_notify_filter(0xC000_00B7, calls);
    assert_eq!(program.len(), 11);
    assert_eq!(run(&program, 203, 0xC000_00B7), SECCOMP_RET_USER_NOTIF);
    assert_eq!(run(&program, 203, 0x4000_0028), SECCOMP_RET_USER_NOTIF);
    assert_eq!(run(&program, 0x4000_002A, 0xC000_00B7), SECCOMP_RET_ALLOW);
}

#[test]
fn native_filter_uses_the_numbers_of_this_machine() {
    let program = native_connect_notify_filter(7);
    let calls = [
        libc::SYS_connect,
        libc::SYS_sendto,
        libc::SYS_sendmsg,
        libc::SYS_recvfrom,
        libc::SYS_recvmsg,
        libc::SYS_bind,
    ];
    for nr in calls {
        assert_eq!(run(&program, nr as u32, 7), SECCOMP_RET_USER_NOTIF);
    }
    assert_eq!(run(&program, libc::SYS_read as u32, 7), SECCOMP_RET_ALLOW);
}

#[test]
fn answers_to_a_notification() {
    let denied = deny(77);
    assert_eq!((denied.id, denied.val, denied.error, denied.flags), (77, 0, -1, 0));
    let allowed = allow_connect(78);
    assert_eq!((allowed.id, allowed.val, allowed.error, allowed.flags), (78, 0, 0, 0));
}

#[test]
fn only_sockets_are_sockets() {
    assert!(verify_socket_fd(0o140777));
    assert!(!verify_socket_fd(0o100644));
    assert!(!verify_socket_fd(0o010600));
}

#[test]
fn memory_path_of_a_process() {
    assert_eq!(process_memory_path(4321), "/proc/4321/mem");
    assert_eq!(process_memory_path(0), "/proc/0/mem");
}
