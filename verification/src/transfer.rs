//! The stop-and-wait transfer engines.
//!
//! A transfer splits the source content into 1-based blocks of at most one
//! full data block each; the sender transmits one block and waits for its
//! acknowledgement before the next. The block whose payload is strictly
//! shorter than a full block is the terminal block: a content length that
//! is an exact multiple of the block size therefore ends with one extra,
//! empty block. Block numbers are 16-bit and never wrap: content that
//! would need more blocks than the block-number space holds is rejected
//! up front by the sender and refused in flight by the receiver.

use vstd::arithmetic::div_mod::{
    lemma_div_by_multiple,
    lemma_div_is_ordered,
    lemma_fundamental_div_mod,
    lemma_mod_bound,
};
use vstd::prelude::*;

use crate::packet::{subvec, Packet, PacketSpec, TftpError, TFTP_SIZE_DATA_BLOCK};

verus! {

/// Largest content length a single transfer can carry: the last block
/// number is then exactly the largest 16-bit value.
pub const TFTP_SIZE_TRANSFER_MAX: usize = 0x200 * 0xFFFE + 0x1FF;

/// Number of blocks that carry a content of `len` bytes: one full block
/// per whole block size, plus the terminal short block.
pub open spec fn spec_num_blocks(len: int) -> int {
    len / (TFTP_SIZE_DATA_BLOCK as int) + 1
}

/// Where block `blk` of a content of `len` bytes ends.
pub open spec fn spec_chunk_end(len: int, blk: int) -> int {
    if blk * (TFTP_SIZE_DATA_BLOCK as int) <= len {
        blk * (TFTP_SIZE_DATA_BLOCK as int)
    } else {
        len
    }
}

/// Payload of block `blk` (1-based) of `data`.
pub open spec fn spec_chunk(data: Seq<u8>, blk: int) -> Seq<u8> {
    data.subrange(
        (blk - 1) * (TFTP_SIZE_DATA_BLOCK as int),
        spec_chunk_end(data.len() as int, blk),
    )
}

/// Termination law: a block's payload is strictly shorter than a full
/// block exactly when it is the terminal block. Every earlier block is
/// full, and the terminal block carries the remainder of the content —
/// empty when the content length is an exact multiple of the block size.
pub proof fn lemma_final_block_short(data: Seq<u8>, blk: int)
    requires
        1 <= blk <= spec_num_blocks(data.len() as int),
    ensures
        spec_chunk(data, blk).len() < TFTP_SIZE_DATA_BLOCK <==> blk == spec_num_blocks(
            data.len() as int,
        ),
        blk == spec_num_blocks(data.len() as int) ==> spec_chunk(data, blk).len() == data.len()
            as int % (TFTP_SIZE_DATA_BLOCK as int),
        blk < spec_num_blocks(data.len() as int) ==> spec_chunk(data, blk).len()
            == TFTP_SIZE_DATA_BLOCK,
{
    let len = data.len() as int;
    let bs = TFTP_SIZE_DATA_BLOCK as int;
    lemma_fundamental_div_mod(len, bs);
    lemma_mod_bound(len, bs);
}

/// The payloads of blocks 1 through `k`, concatenated in block order.
pub open spec fn spec_chunks_concat(data: Seq<u8>, k: int) -> Seq<u8>
    decreases k,
{
    if k <= 0 {
        Seq::empty()
    } else {
        spec_chunks_concat(data, k - 1) + spec_chunk(data, k)
    }
}

/// Blocks 1 through `k` hold exactly the content up to where block `k`
/// ends.
proof fn lemma_chunks_concat_prefix(data: Seq<u8>, k: int)
    requires
        0 <= k <= spec_num_blocks(data.len() as int),
    ensures
        spec_chunks_concat(data, k) == data.subrange(0, spec_chunk_end(data.len() as int, k)),
    decreases k,
{
    let len = data.len() as int;
    let bs = TFTP_SIZE_DATA_BLOCK as int;
    lemma_fundamental_div_mod(len, bs);
    lemma_mod_bound(len, bs);
    if k <= 0 {
        assert(spec_chunks_concat(data, k) =~= data.subrange(0, 0));
    } else {
        lemma_chunks_concat_prefix(data, k - 1);
        assert(data.subrange(0, (k - 1) * bs) + data.subrange(
            (k - 1) * bs,
            spec_chunk_end(len, k),
        ) =~= data.subrange(0, spec_chunk_end(len, k)));
    }
}

/// Sequencing law: one transfer's blocks are numbered 1, 2, 3, … up to
/// the terminal block, with no gaps or repeats — the sender emits block
/// `k` only after block `k - 1` is acknowledged, and the receiver
/// accepts no number but the expected next one — and the payloads taken
/// in exactly that order reassemble the content.
pub proof fn lemma_blocks_reassemble(data: Seq<u8>)
    ensures
        spec_chunks_concat(data, spec_num_blocks(data.len() as int)) == data,
{
    let len = data.len() as int;
    let bs = TFTP_SIZE_DATA_BLOCK as int;
    lemma_fundamental_div_mod(len, bs);
    lemma_mod_bound(len, bs);
    lemma_chunks_concat_prefix(data, spec_num_blocks(len));
    assert(data.subrange(0, len) =~= data);
}

/// Sending half of one transfer: walks the content block by block,
/// advancing only on a matching acknowledgement.
pub struct Sender {
    /// The full content being sent.
    pub data: Vec<u8>,
    /// Number of the block currently being sent, starting at 1.
    pub blk: u16,
    /// True once the terminal block has been acknowledged.
    pub done: bool,
}

impl Sender {
    /// Well-formedness: the block counter stays between 1 and the terminal
    /// block number, which itself fits the 16-bit block-number space, and
    /// a finished sender stands at the terminal block.
    pub open spec fn wf(&self) -> bool {
        &&& spec_num_blocks(self.data@.len() as int) <= u16::MAX
        &&& 1 <= self.blk <= spec_num_blocks(self.data@.len() as int)
        &&& (self.done ==> self.blk == spec_num_blocks(self.data@.len() as int))
    }

    /// Starts a transfer of `data` at block 1.
    pub fn new(data: Vec<u8>) -> (s: Sender)
        requires
            data@.len() <= TFTP_SIZE_TRANSFER_MAX,
        ensures
            s.wf(),
            s.data@ == data@,
            s.blk == 1,
            !s.done,
    {
        proof {
            lemma_div_is_ordered(
                data@.len() as int,
                TFTP_SIZE_TRANSFER_MAX as int,
                TFTP_SIZE_DATA_BLOCK as int,
            );
        }
        Sender { data, blk: 1, done: false }
    }

    /// The data packet for the block currently being sent.
    pub fn current_packet(&self) -> (p: Packet)
        requires
            self.wf(),
            !self.done,
        ensures
            p@ == (PacketSpec::Data {
                block: self.blk,
                payload: spec_chunk(self.data@, self.blk as int),
            }),
            p@.encodable(),
    {
        proof {
            lemma_fundamental_div_mod(self.data@.len() as int, TFTP_SIZE_DATA_BLOCK as int);
            lemma_mod_bound(self.data@.len() as int, TFTP_SIZE_DATA_BLOCK as int);
        }
        let start: usize = (self.blk as usize - 1) * TFTP_SIZE_DATA_BLOCK;
        let end: usize = if self.data.len() - start > TFTP_SIZE_DATA_BLOCK {
            start + TFTP_SIZE_DATA_BLOCK
        } else {
            self.data.len()
        };
        let payload = subvec(&self.data, start, end);
        Packet::Data(self.blk, payload)
    }

    /// Takes the acknowledgement received for the block just sent. A
    /// mismatched block number is a fatal sequence error and changes
    /// nothing; the matching number either finishes the transfer — exactly
    /// when the acknowledged block was the terminal one — or advances to
    /// the next block.
    pub fn on_ack(&mut self, ack_blk: u16) -> (r: Result<bool, TftpError>)
        requires
            old(self).wf(),
            !old(self).done,
        ensures
            final(self).wf(),
            final(self).data@ == old(self).data@,
            r is Err <==> ack_blk != old(self).blk,
            r matches Err(e) ==> e == TftpError::Sequence && *final(self) == *old(self),
            r matches Ok(fin) ==> {
                &&& fin == (spec_chunk(old(self).data@, old(self).blk as int).len()
                    < TFTP_SIZE_DATA_BLOCK)
                &&& final(self).done == fin
                &&& (fin ==> final(self).blk == old(self).blk)
                &&& (!fin ==> final(self).blk == old(self).blk + 1)
            },
    {
        if ack_blk != self.blk {
            return Err(TftpError::Sequence);
        }
        proof {
            lemma_fundamental_div_mod(self.data@.len() as int, TFTP_SIZE_DATA_BLOCK as int);
            lemma_mod_bound(self.data@.len() as int, TFTP_SIZE_DATA_BLOCK as int);
        }
        let start: usize = (self.blk as usize - 1) * TFTP_SIZE_DATA_BLOCK;
        if self.data.len() - start < TFTP_SIZE_DATA_BLOCK {
            self.done = true;
            Ok(true)
        } else {
            proof {
                lemma_div_is_ordered(
                    self.blk as int * (TFTP_SIZE_DATA_BLOCK as int),
                    self.data@.len() as int,
                    TFTP_SIZE_DATA_BLOCK as int,
                );
                lemma_div_by_multiple(self.blk as int, TFTP_SIZE_DATA_BLOCK as int);
            }
            self.blk = self.blk + 1;
            Ok(false)
        }
    }
}

/// Receiving half of one transfer: accumulates payloads of strictly
/// sequential blocks, finishing on the first short one.
pub struct Receiver {
    /// Payloads received so far, in block order.
    pub buf: Vec<u8>,
    /// Number of the block expected next, starting at 1.
    pub blk: u16,
    /// True once the terminal short block has arrived.
    pub done: bool,
}

impl Receiver {
    /// Well-formedness: while the transfer runs, the accumulated content
    /// is exactly the full blocks received so far.
    pub open spec fn wf(&self) -> bool {
        &&& 1 <= self.blk
        &&& (!self.done ==> self.buf@.len() == (self.blk - 1) * (TFTP_SIZE_DATA_BLOCK as int))
    }

    /// Starts an empty transfer expecting block 1.
    pub fn new() -> (r: Receiver)
        ensures
            r.wf(),
            r.buf@ == Seq::<u8>::empty(),
            r.blk == 1,
            !r.done,
    {
        Receiver { buf: Vec::new(), blk: 1, done: false }
    }

    /// Takes one received data packet. A block number other than the
    /// expected one — or a block beyond the 16-bit block-number space —
    /// is a fatal sequence error and changes nothing. The expected block
    /// has its payload appended and is answered with its acknowledgement;
    /// a payload short of a full block finishes the transfer.
    pub fn on_data(&mut self, blk: u16, payload: Vec<u8>) -> (r: Result<Packet, TftpError>)
        requires
            old(self).wf(),
            !old(self).done,
            payload@.len() <= TFTP_SIZE_DATA_BLOCK,
        ensures
            final(self).wf(),
            r is Err <==> (blk != old(self).blk || (payload@.len() == TFTP_SIZE_DATA_BLOCK
                && old(self).blk == u16::MAX)),
            r matches Err(e) ==> e == TftpError::Sequence && *final(self) == *old(self),
            r matches Ok(p) ==> {
                &&& blk == old(self).blk
                &&& p@ == (PacketSpec::Ack { block: blk })
                &&& final(self).buf@ == old(self).buf@ + payload@
                &&& final(self).done == (payload@.len() < TFTP_SIZE_DATA_BLOCK)
                &&& (payload@.len() < TFTP_SIZE_DATA_BLOCK ==> final(self).blk == old(self).blk)
                &&& (payload@.len() == TFTP_SIZE_DATA_BLOCK ==> final(self).blk == old(
                    self,
                ).blk + 1)
            },
    {
        if blk != self.blk {
            return Err(TftpError::Sequence);
        }
        let mut payload = payload;
        if payload.len() < TFTP_SIZE_DATA_BLOCK {
            self.buf.append(&mut payload);
            self.done = true;
            Ok(Packet::Ack(blk))
        } else {
            if self.blk == u16::MAX {
                return Err(TftpError::Sequence);
            }
            self.buf.append(&mut payload);
            self.blk = self.blk + 1;
            Ok(Packet::Ack(blk))
        }
    }
}

/// Checks the single reply a write request waits for: it must acknowledge
/// block 0, the request-acceptance signal. Any other block number is a
/// fatal sequence error; any other packet kind a fatal framing error.
pub fn check_request_ack(p: &Packet) -> (r: Result<(), TftpError>)
    ensures
        r is Ok <==> p@ == (PacketSpec::Ack { block: 0u16 }),
        r matches Err(e) ==> (match p@ {
            PacketSpec::Ack { block } => e == TftpError::Sequence && block != 0,
            _ => e == TftpError::Framing,
        }),
{
    match p {
        Packet::Ack(b) => {
            if *b == 0 {
                Ok(())
            } else {
                Err(TftpError::Sequence)
            }
        },
        _ => Err(TftpError::Framing),
    }
}

/// Total byte count of a finished transfer, as reported on completion:
/// every block before the terminal one was full.
pub fn transferred_size(last_blk: u16, last_len: usize) -> (n: usize)
    requires
        1 <= last_blk,
        last_len <= TFTP_SIZE_DATA_BLOCK,
    ensures
        n == (last_blk - 1) * (TFTP_SIZE_DATA_BLOCK as int) + last_len,
{
    (last_blk as usize - 1) * TFTP_SIZE_DATA_BLOCK + last_len
}

/// Sequencing and termination, end to end: driving a sender and a
/// receiver against each other in lock step — every block acknowledged
/// with its own number, stopping at the terminal short block — delivers
/// the content unchanged.
pub fn exchange(data: Vec<u8>) -> (out: Vec<u8>)
    requires
        data@.len() <= TFTP_SIZE_TRANSFER_MAX,
    ensures
        out@ == data@,
{
    let ghost d: Seq<u8> = data@;
    let mut snd = Sender::new(data);
    let mut rcv = Receiver::new();
    proof {
        assert(rcv.buf@ =~= d.subrange(0, 0));
    }
    loop
        invariant
            snd.wf(),
            rcv.wf(),
            !snd.done,
            !rcv.done,
            d == data@,
            snd.data@ == d,
            snd.blk == rcv.blk,
            rcv.buf@ == d.subrange(0, (snd.blk - 1) * (TFTP_SIZE_DATA_BLOCK as int)),
        decreases spec_num_blocks(d.len() as int) - snd.blk,
    {
        let p = snd.current_packet();
        match p {
            Packet::Data(b, payload) => {
                let ghost pl = payload@;
                proof {
                    lemma_final_block_short(d, b as int);
                }
                let ack = rcv.on_data(b, payload);
                let ack_blk: u16 = match ack {
                    Ok(Packet::Ack(ab)) => ab,
                    _ => {
                        proof {
                            assert(false);
                        }
                        0
                    },
                };
                let fin = match snd.on_ack(ack_blk) {
                    Ok(fin) => fin,
                    _ => {
                        proof {
                            assert(false);
                        }
                        false
                    },
                };
                if fin {
                    proof {
                        assert(rcv.buf@ =~= d);
                    }
                    return rcv.buf;
                }
                proof {
                    assert(rcv.buf@ =~= d.subrange(
                        0,
                        (snd.blk - 1) * (TFTP_SIZE_DATA_BLOCK as int),
                    ));
                }
            },
            _ => {
                proof {
                    assert(false);
                }
            },
        }
    }
}

} // verus!
