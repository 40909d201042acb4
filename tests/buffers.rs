use miow::addr::{socket_addr_to_bytes, SocketAddr, SocketAddrV4, SocketAddrV6};
use miow::buffers::{AcceptAddrsBuf, AcceptArgs, SocketAddrBuf};

fn loopback_v4(port: u16) -> SocketAddr {
    SocketAddr::V4(SocketAddrV4 { ip: 0x7f00_0001, port })
}

#[test]
fn fresh_socket_addr_buf() {
    let b = SocketAddrBuf::new();
    assert_eq!(b.len, 128);
    assert!(b.buf.iter().all(|&x| x == 0));
    assert_eq!(b.to_socket_addr(), None);
}

#[test]
fn sender_address_read_back() {
    let sender = loopback_v4(40000);
    let raw = socket_addr_to_bytes(&sender);
    let mut b = SocketAddrBuf::new();
    b.buf[..raw.len()].copy_from_slice(&raw);
    b.len = raw.len() as i32;
    assert_eq!(b.to_socket_addr(), Some(sender));
}

#[test]
fn sender_v6_address_read_back() {
    let sender = SocketAddr::V6(SocketAddrV6 { ip: 1, port: 5000, flowinfo: 0, scope_id: 0 });
    let raw = socket_addr_to_bytes(&sender);
    let mut b = SocketAddrBuf::new();
    b.buf[..raw.len()].copy_from_slice(&raw);
    b.len = raw.len() as i32;
    assert_eq!(b.to_socket_addr(), Some(sender));
}

#[test]
fn reported_length_bounds_the_decode() {
    let sender = loopback_v4(1);
    let raw = socket_addr_to_bytes(&sender);
    let mut b = SocketAddrBuf::new();
    b.buf[..raw.len()].copy_from_slice(&raw);
    b.len = 15;
    assert_eq!(b.to_socket_addr(), None);
    b.len = -1;
    assert_eq!(b.to_socket_addr(), None);
    b.len = 1000;
    assert_eq!(b.to_socket_addr(), Some(sender));
}

#[test]
fn accept_buffer_args() {
    let b = AcceptAddrsBuf::new();
    assert_eq!(b.bytes.len(), 288);
    assert_eq!(
        b.args(),
        AcceptArgs { receive_len: 0, local_len: 144, remote_len: 144 }
    );
}

#[test]
fn accepted_addresses_read_back() {
    let local = loopback_v4(8080);
    let remote = loopback_v4(51000);
    let mut b = AcceptAddrsBuf::new();
    let l = socket_addr_to_bytes(&local);
    let r = socket_addr_to_bytes(&remote);
    b.bytes[2..2 + l.len()].copy_from_slice(&l);
    b.bytes[146..146 + r.len()].copy_from_slice(&r);
    let addrs = b.addrs_at(2, l.len() as i32, 146, r.len() as i32);
    assert_eq!(addrs.local(), Some(local));
    assert_eq!(addrs.remote(), Some(remote));
}

#[test]
fn accepted_addresses_out_of_range() {
    let b = AcceptAddrsBuf::new();
    let addrs = b.addrs_at(400, 16, 280, 28);
    assert_eq!(addrs.local(), None);
    assert_eq!(addrs.remote(), None);
    let zeroed = b.addrs_at(0, 16, 144, 0);
    assert_eq!(zeroed.local(), None);
    assert_eq!(zeroed.remote(), None);
}
