//! Buffers that the OS fills with raw socket addresses during an overlapped
//! receive-from or accept.
use crate::addr::{
    decode_at, decode_spec, encode_spec, lemma_decode_encode, lemma_encode_len, SocketAddr,
    SOCKADDR_STORAGE_LEN,
};
use vstd::prelude::*;

verus! {

/// Slack that the accept operation demands after each address region.
pub const ACCEPT_PAD_LEN: usize = 16;

/// Bytes of one address region of an accept buffer, slack included.
pub const ACCEPT_REGION_LEN: usize = SOCKADDR_STORAGE_LEN + ACCEPT_PAD_LEN;

/// Bytes of a whole accept buffer: a local region, then a remote region.
pub const ACCEPT_BUF_LEN: usize = 2 * ACCEPT_REGION_LEN;

/// The bytes of `b` that a reported `(offset, len)` pair designates, cut off
/// at the end of `b`; nothing where the length is not positive or the offset
/// lies outside `b`.
pub open spec fn region(b: Seq<u8>, offset: int, len: int) -> Seq<u8> {
    if len <= 0 || offset >= b.len() {
        seq![]
    } else if offset + len >= b.len() {
        b.subrange(offset, b.len() as int)
    } else {
        b.subrange(offset, offset + len)
    }
}

/// Decodes the region `(offset, len)` of `b`.
fn decode_region(b: &[u8], offset: usize, len: i32) -> (r: Option<SocketAddr>)
    ensures
        r == decode_spec(region(b@, offset as int, len as int)),
{
    let total: usize = b.len();
    if len <= 0 || offset >= total {
        proof {
            lemma_empty_holds_nothing(region(b@, offset as int, len as int));
        }
        None
    } else if len as usize >= total - offset {
        decode_at(b, offset, total - offset)
    } else {
        decode_at(b, offset, len as usize)
    }
}

proof fn lemma_empty_holds_nothing(s: Seq<u8>)
    requires
        s.len() == 0,
    ensures
        decode_spec(s) is None,
{
}

/// Space for the address of the sender of a datagram, and the length of the
/// address that the OS reports in it.
#[derive(Clone, Copy)]
pub struct SocketAddrBuf {
    pub buf: [u8; SOCKADDR_STORAGE_LEN],
    pub len: i32,
}

impl SocketAddrBuf {
    /// A zeroed buffer whose length field offers the whole storage, ready for
    /// a receive-from.
    pub fn new() -> (r: SocketAddrBuf)
        ensures
            r.buf@ == Seq::new(SOCKADDR_STORAGE_LEN as nat, |i: int| 0u8),
            r.len == SOCKADDR_STORAGE_LEN,
    {
        let r = SocketAddrBuf { buf: [0u8; 128], len: 128 };
        assert(r.buf@ =~= Seq::new(SOCKADDR_STORAGE_LEN as nat, |i: int| 0u8));
        r
    }

    /// The address that the OS wrote, or `None` where the reported bytes hold
    /// no address of a known family.
    pub fn to_socket_addr(&self) -> (r: Option<SocketAddr>)
        ensures
            r == decode_spec(region(self.buf@, 0, self.len as int)),
    {
        decode_region(self.buf.as_slice(), 0, self.len)
    }
}

/// Space for the local and the remote address of an accepted connection.
pub struct AcceptAddrsBuf {
    pub bytes: [u8; ACCEPT_BUF_LEN],
}

/// The lengths that the accept operation is given for an `AcceptAddrsBuf`.
#[derive(Clone, Copy, Debug, PartialEq, Eq, Structural)]
pub struct AcceptArgs {
    /// Bytes of received data to wait for before completing.
    pub receive_len: u32,
    /// Bytes set aside for the local address.
    pub local_len: u32,
    /// Bytes set aside for the remote address.
    pub remote_len: u32,
}

impl AcceptAddrsBuf {
    /// A zeroed buffer, ready for an accept.
    pub fn new() -> (r: AcceptAddrsBuf)
        ensures
            r.bytes@ == Seq::new(ACCEPT_BUF_LEN as nat, |i: int| 0u8),
    {
        let r = AcceptAddrsBuf { bytes: [0u8; 288] };
        assert(r.bytes@ =~= Seq::new(ACCEPT_BUF_LEN as nat, |i: int| 0u8));
        r
    }

    /// The lengths to hand to the accept operation along with this buffer: no
    /// received data, the first region for the local address and the rest for
    /// the remote one.
    pub fn args(&self) -> (r: AcceptArgs)
        ensures
            r.receive_len == 0,
            r.local_len == ACCEPT_REGION_LEN,
            r.remote_len == ACCEPT_BUF_LEN - ACCEPT_REGION_LEN,
            r.local_len + r.remote_len == self.bytes@.len(),
    {
        AcceptArgs {
            receive_len: 0,
            local_len: ACCEPT_REGION_LEN as u32,
            remote_len: (ACCEPT_BUF_LEN - ACCEPT_REGION_LEN) as u32,
        }
    }

    /// The two addresses in this buffer, at the offsets and lengths that the
    /// OS reported once the accept completed.
    pub fn addrs_at(
        &self,
        local_offset: usize,
        local_len: i32,
        remote_offset: usize,
        remote_len: i32,
    ) -> (r: AcceptAddrs<'_>)
        ensures
            r.data == self,
            r.local_offset == local_offset,
            r.local_len == local_len,
            r.remote_offset == remote_offset,
            r.remote_len == remote_len,
    {
        AcceptAddrs { data: self, local_offset, local_len, remote_offset, remote_len }
    }
}

/// Where the local and the remote address of an accepted connection lie in
/// the buffer that the accept filled. It borrows that buffer.
pub struct AcceptAddrs<'a> {
    pub data: &'a AcceptAddrsBuf,
    pub local_offset: usize,
    pub local_len: i32,
    pub remote_offset: usize,
    pub remote_len: i32,
}

impl<'a> AcceptAddrs<'a> {
    /// The local address of the connection, if the reported bytes hold one.
    pub fn local(&self) -> (r: Option<SocketAddr>)
        ensures
            r == decode_spec(
                region(self.data.bytes@, self.local_offset as int, self.local_len as int),
            ),
    {
        decode_region(self.data.bytes.as_slice(), self.local_offset, self.local_len)
    }

    /// The remote address of the connection, if the reported bytes hold one.
    pub fn remote(&self) -> (r: Option<SocketAddr>)
        ensures
            r == decode_spec(
                region(self.data.bytes@, self.remote_offset as int, self.remote_len as int),
            ),
    {
        decode_region(self.data.bytes.as_slice(), self.remote_offset, self.remote_len)
    }
}

/// A reported region that holds exactly the raw structure of `a` decodes to `a`.
pub proof fn lemma_region_read_back(b: Seq<u8>, offset: int, len: int, a: SocketAddr)
    requires
        0 <= offset,
        0 <= len,
        offset + len <= b.len(),
        b.subrange(offset, offset + len) == encode_spec(a),
    ensures
        decode_spec(region(b, offset, len)) == Some(a),
{
    lemma_encode_len(a);
    lemma_decode_encode(a);
    assert(region(b, offset, len) == b.subrange(offset, offset + len));
}

/// The sender address that a receive-from wrote into the buffer, with its
/// length, is read back unchanged.
pub proof fn lemma_sender_read_back(buf: SocketAddrBuf, sender: SocketAddr)
    requires
        0 <= buf.len <= SOCKADDR_STORAGE_LEN,
        buf.buf@.subrange(0, buf.len as int) == encode_spec(sender),
    ensures
        decode_spec(region(buf.buf@, 0, buf.len as int)) == Some(sender),
{
    lemma_region_read_back(buf.buf@, 0, buf.len as int, sender);
}

/// The local and remote addresses that an accept wrote into its buffer, at
/// the reported places, are read back unchanged.
pub proof fn lemma_accepted_read_back(addrs: AcceptAddrs, local: SocketAddr, remote: SocketAddr)
    requires
        0 <= addrs.local_len,
        0 <= addrs.remote_len,
        addrs.local_offset + addrs.local_len <= ACCEPT_BUF_LEN,
        addrs.remote_offset + addrs.remote_len <= ACCEPT_BUF_LEN,
        addrs.data.bytes@.subrange(
            addrs.local_offset as int,
            addrs.local_offset + addrs.local_len,
        ) == encode_spec(local),
        addrs.data.bytes@.subrange(
            addrs.remote_offset as int,
            addrs.remote_offset + addrs.remote_len,
        ) == encode_spec(remote),
    ensures
        decode_spec(region(addrs.data.bytes@, addrs.local_offset as int, addrs.local_len as int))
            == Some(local),
        decode_spec(region(addrs.data.bytes@, addrs.remote_offset as int, addrs.remote_len as int))
            == Some(remote),
{
    lemma_region_read_back(
        addrs.data.bytes@,
        addrs.local_offset as int,
        addrs.local_len as int,
        local,
    );
    lemma_region_read_back(
        addrs.data.bytes@,
        addrs.remote_offset as int,
        addrs.remote_len as int,
        remote,
    );
}

} // verus!
