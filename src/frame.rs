use vstd::arithmetic::div_mod::{lemma_breakdown, lemma_fundamental_div_mod_converse, lemma_small_mod};
use vstd::arithmetic::power::{lemma_pow_positive, pow};
use vstd::prelude::*;

verus! {

/// Sequence number of a frame, assigned by the primary.
pub type FrameNo = u64;

/// Size in bytes of the page payload carried by every frame.
pub const PAGE_SIZE: usize = 4096;

/// Size in bytes of the encoded header: frame number, `size_after` and page number.
pub const FRAME_HEADER_SIZE: usize = 16;

/// Size in bytes of an encoded frame.
pub const FRAME_SIZE: usize = 4112;

/// Header of a write-ahead-log frame.
#[derive(Clone, Copy, Debug, PartialEq, Eq, Structural)]
pub struct FrameHeader {
    pub frame_no: FrameNo,
    /// Database size in pages after the transaction; nonzero only on its last frame.
    pub size_after: u32,
    pub page_no: u32,
}

/// One write-ahead-log page write: a header and a page of `PAGE_SIZE` bytes.
#[derive(Clone, Debug)]
pub struct Frame {
    header: FrameHeader,
    page: Vec<u8>,
}

impl FrameHeader {
    pub open spec fn closes_txn_spec(self) -> bool {
        self.size_after != 0
    }
}

impl Frame {
    pub closed spec fn header_spec(self) -> FrameHeader {
        self.header
    }

    pub closed spec fn page_spec(self) -> Seq<u8> {
        self.page@
    }

    /// Every frame carries a full page.
    pub closed spec fn wf(self) -> bool {
        self.page@.len() == PAGE_SIZE
    }

    pub open spec fn frame_no_spec(self) -> FrameNo {
        self.header_spec().frame_no
    }

    pub open spec fn closes_txn_spec(self) -> bool {
        self.header_spec().closes_txn_spec()
    }

    /// Builds a frame; the page must be exactly `PAGE_SIZE` bytes long.
    pub fn from_parts(header: FrameHeader, page: Vec<u8>) -> (r: Result<Frame, FrameError>)
        ensures
            page@.len() == PAGE_SIZE <==> r is Ok,
            r is Ok ==> r->Ok_0.header_spec() == header && r->Ok_0.page_spec() == page@
                && r->Ok_0.wf(),
            r is Err ==> r->Err_0 == FrameError::WrongPageSize,
    {
        if page.len() == PAGE_SIZE {
            Ok(Frame { header, page })
        } else {
            Err(FrameError::WrongPageSize)
        }
    }

    pub fn header(&self) -> (r: FrameHeader)
        ensures
            r == self.header_spec(),
    {
        self.header
    }

    pub fn page(&self) -> (r: &[u8])
        ensures
            r@ == self.page_spec(),
    {
        self.page.as_slice()
    }

    /// A frame closes a transaction exactly when its `size_after` is nonzero.
    pub fn closes_txn(&self) -> (r: bool)
        ensures
            r == self.closes_txn_spec(),
    {
        self.header.size_after != 0
    }
}

/// Unsigned value of big-endian bytes.
pub open spec fn be_value(s: Seq<u8>) -> nat
    decreases s.len(),
{
    if s.len() == 0 {
        0
    } else {
        be_value(s.drop_last()) * 256 + s.last() as nat
    }
}

/// The `n` low-order bytes of `v`, big-endian.
pub open spec fn be_bytes(v: nat, n: nat) -> Seq<u8>
    decreases n,
{
    if n == 0 {
        Seq::empty()
    } else {
        be_bytes(v / 256, (n - 1) as nat).push((v % 256) as u8)
    }
}

/// Wire layout of a frame: frame number (8 bytes), `size_after` (4 bytes) and page number
/// (4 bytes), all big-endian, followed by the page.
pub open spec fn encode_frame(h: FrameHeader, page: Seq<u8>) -> Seq<u8> {
    be_bytes(h.frame_no as nat, 8) + be_bytes(h.size_after as nat, 4) + be_bytes(h.page_no as nat, 4)
        + page
}

/// Header read from an encoded frame.
pub open spec fn decode_header(b: Seq<u8>) -> FrameHeader {
    FrameHeader {
        frame_no: be_value(b.subrange(0, 8)) as u64,
        size_after: be_value(b.subrange(8, 12)) as u32,
        page_no: be_value(b.subrange(12, 16)) as u32,
    }
}

pub proof fn lemma_be_value_bound(s: Seq<u8>)
    ensures
        be_value(s) < pow(256, s.len()),
    decreases s.len(),
{
    reveal(pow);
    if s.len() > 0 {
        lemma_be_value_bound(s.drop_last());
        let p = pow(256, (s.len() - 1) as nat);
        let a = be_value(s.drop_last()) as int;
        let c = s.last() as int;
        assert(a * 256 + c < p * 256) by (nonlinear_arith)
            requires
                a < p,
                0 <= c < 256,
        ;
    }
}

pub proof fn lemma_be_value_of_bytes(v: nat, n: nat)
    ensures
        be_bytes(v, n).len() == n,
        be_value(be_bytes(v, n)) == v % (pow(256, n) as nat),
    decreases n,
{
    reveal(pow);
    if n == 0 {
        lemma_small_mod(0, 1);
    } else {
        lemma_be_value_of_bytes(v / 256, (n - 1) as nat);
        let b = be_bytes(v, n);
        assert(b.drop_last() =~= be_bytes(v / 256, (n - 1) as nat));
        lemma_pow_positive(256, (n - 1) as nat);
        lemma_breakdown(v as int, 256, pow(256, (n - 1) as nat));
    }
}

/// Decoding an encoded frame gives back its header and page.
pub proof fn lemma_decode_encode(h: FrameHeader, page: Seq<u8>)
    ensures
        decode_header(encode_frame(h, page)) == h,
        encode_frame(h, page).subrange(16, encode_frame(h, page).len() as int) == page,
        encode_frame(h, page).len() == 16 + page.len(),
{
    let b = encode_frame(h, page);
    lemma_be_value_of_bytes(h.frame_no as nat, 8);
    lemma_be_value_of_bytes(h.size_after as nat, 4);
    lemma_be_value_of_bytes(h.page_no as nat, 4);
    reveal_with_fuel(pow, 9);
    assert(b.subrange(0, 8) =~= be_bytes(h.frame_no as nat, 8));
    assert(b.subrange(8, 12) =~= be_bytes(h.size_after as nat, 4));
    assert(b.subrange(12, 16) =~= be_bytes(h.page_no as nat, 4));
    assert(b.subrange(16, b.len() as int) =~= page);
    lemma_small_mod(h.frame_no as nat, pow(256, 8) as nat);
    lemma_small_mod(h.size_after as nat, pow(256, 4) as nat);
    lemma_small_mod(h.page_no as nat, pow(256, 4) as nat);
}

proof fn lemma_bytes_of_be_value(s: Seq<u8>)
    ensures
        be_bytes(be_value(s), s.len()) == s,
    decreases s.len(),
{
    if s.len() > 0 {
        let a = be_value(s.drop_last());
        lemma_bytes_of_be_value(s.drop_last());
        lemma_fundamental_div_mod_converse(be_value(s) as int, 256, a as int, s.last() as int);
        assert(be_bytes(be_value(s), s.len()) =~= s);
    } else {
        assert(be_bytes(0, 0) =~= s);
    }
}

/// Encoding the header and page read from `FRAME_SIZE` bytes gives back those bytes.
pub proof fn lemma_encode_decode(b: Seq<u8>)
    requires
        b.len() == FRAME_SIZE,
    ensures
        encode_frame(decode_header(b), b.subrange(16, b.len() as int)) == b,
{
    let h = decode_header(b);
    lemma_be_value_bound(b.subrange(0, 8));
    lemma_be_value_bound(b.subrange(8, 12));
    lemma_be_value_bound(b.subrange(12, 16));
    reveal_with_fuel(pow, 9);
    lemma_bytes_of_be_value(b.subrange(0, 8));
    lemma_bytes_of_be_value(b.subrange(8, 12));
    lemma_bytes_of_be_value(b.subrange(12, 16));
    assert(encode_frame(h, b.subrange(16, b.len() as int)) =~= b);
}

/// Reads `n` big-endian bytes of `b` from `start`.
fn read_be(b: &[u8], start: usize, n: usize) -> (r: u64)
    requires
        start + n <= b@.len(),
        n <= 8,
    ensures
        r as nat == be_value(b@.subrange(start as int, start + n)),
{
    let len = b.len();
    let mut acc: u64 = 0;
    let mut i: usize = 0;
    while i < n
        invariant
            i <= n <= 8,
            start + n <= b@.len(),
            len == b@.len(),
            acc as nat == be_value(b@.subrange(start as int, start + i)),
        decreases n - i,
    {
        let ghost s = b@.subrange(start as int, start + i);
        proof {
            lemma_be_value_bound(s);
            reveal_with_fuel(pow, 9);
            assert(pow(256, 8) == 0x1_0000_0000_0000_0000int);
            vstd::arithmetic::power::lemma_pow_increases(256, i as nat, 7);
            let a = acc as int;
            let p = pow(256, i as nat);
            assert(a * 256 + 255 < 0x1_0000_0000_0000_0000int) by (nonlinear_arith)
                requires
                    a < p,
                    p <= pow(256, 7),
                    pow(256, 8) == 256 * pow(256, 7),
                    pow(256, 8) == 0x1_0000_0000_0000_0000int,
            ;
        }
        assert(b@.subrange(start as int, start + i + 1).drop_last() =~= s);
        let byte: u8 = b[start + i];
        let shifted: u64 = acc * 256;
        acc = shifted + byte as u64;
        i = i + 1;
    }
    acc
}

/// Appends the `n` low-order bytes of `v` to `out`, big-endian.
fn push_be(out: &mut Vec<u8>, v: u64, n: usize)
    requires
        n <= 8,
    ensures
        final(out)@ == old(out)@ + be_bytes(v as nat, n as nat),
    decreases n,
{
    if n == 0 {
        assert(old(out)@ + Seq::<u8>::empty() =~= old(out)@);
        return;
    }
    push_be(out, v / 256, n - 1);
    out.push((v % 256) as u8);
    assert(final(out)@ =~= old(out)@ + be_bytes(v as nat, n as nat));
}

/// Copies `b[start..end]` into a new vector.
fn copy_range(b: &[u8], start: usize, end: usize) -> (r: Vec<u8>)
    requires
        start <= end <= b@.len(),
    ensures
        r@ == b@.subrange(start as int, end as int),
{
    let mut r: Vec<u8> = Vec::new();
    let mut i: usize = start;
    while i < end
        invariant
            start <= i <= end <= b@.len(),
            r@ == b@.subrange(start as int, i as int),
        decreases end - i,
    {
        r.push(b[i]);
        i = i + 1;
        assert(r@ =~= b@.subrange(start as int, i as int));
    }
    r
}

impl Frame {
    /// Reads a frame from its wire layout; the input must be exactly `FRAME_SIZE` bytes.
    pub fn from_bytes(b: &[u8]) -> (r: Result<Frame, FrameError>)
        ensures
            b@.len() == FRAME_SIZE <==> r is Ok,
            r is Ok ==> r->Ok_0.wf() && r->Ok_0.header_spec() == decode_header(b@)
                && r->Ok_0.page_spec() == b@.subrange(16, b@.len() as int),
            r is Err ==> r->Err_0 == FrameError::WrongLength,
    {
        if b.len() != FRAME_SIZE {
            return Err(FrameError::WrongLength);
        }
        let frame_no = read_be(b, 0, 8);
        let size_after = read_be(b, 8, 4);
        let page_no = read_be(b, 12, 4);
        proof {
            lemma_be_value_bound(b@.subrange(8, 12));
            lemma_be_value_bound(b@.subrange(12, 16));
            reveal_with_fuel(pow, 5);
        }
        let header = FrameHeader { frame_no, size_after: size_after as u32, page_no: page_no as u32 };
        let page = copy_range(b, FRAME_HEADER_SIZE, FRAME_SIZE);
        Ok(Frame { header, page })
    }

    /// The wire layout of this frame.
    pub fn to_bytes(&self) -> (r: Vec<u8>)
        ensures
            r@ == encode_frame(self.header_spec(), self.page_spec()),
    {
        let mut out: Vec<u8> = Vec::new();
        push_be(&mut out, self.header.frame_no, 8);
        push_be(&mut out, self.header.size_after as u64, 4);
        push_be(&mut out, self.header.page_no as u64, 4);
        let ghost head = out@;
        let mut i: usize = 0;
        while i < self.page.len()
            invariant
                i <= self.page@.len(),
                out@ == head + self.page@.subrange(0, i as int),
            decreases self.page@.len() - i,
        {
            out.push(self.page[i]);
            i = i + 1;
            assert(out@ =~= head + self.page@.subrange(0, i as int));
        }
        assert(self.page@.subrange(0, self.page@.len() as int) =~= self.page@);
        assert(head =~= be_bytes(self.header.frame_no as nat, 8) + be_bytes(
            self.header.size_after as nat,
            4,
        ) + be_bytes(self.header.page_no as nat, 4));
        out
    }
}

/// Why bytes or parts could not be turned into a frame.
#[derive(Clone, Copy, Debug, PartialEq, Eq, Structural)]
pub enum FrameError {
    WrongPageSize,
    WrongLength,
}

} // verus!
