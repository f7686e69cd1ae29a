//! Tag I/O policy for the two supported card families.
//!
//! MIFARE Classic 1K: 16 sectors of 4 blocks, the last block of each sector
//! a trailer that is never read or written as data; sector 0 is skipped.
//! Reads must authenticate each sector with a key from a fixed dictionary;
//! reading stops once the TLV container predicts its own end. NTAG / Type-2:
//! open memory, 4-byte pages from page 4.
//!
//! The card itself is driven by the caller: this module decides which block
//! to touch next and what to write, and consumes what came back.

use vstd::prelude::*;

use crate::bytes::spec_find_byte;
use crate::types::TagError;

verus! {

// ---------------------------------------------------------------------------
// Key dictionary
// ---------------------------------------------------------------------------
/// The fixed dictionary of well-known MIFARE keys, tried in this order.
pub open spec fn spec_common_keys() -> Seq<Seq<u8>> {
    seq![
        seq![0xFFu8, 0xFFu8, 0xFFu8, 0xFFu8, 0xFFu8, 0xFFu8],
        seq![0xA0u8, 0xA1u8, 0xA2u8, 0xA3u8, 0xA4u8, 0xA5u8],
        seq![0xD3u8, 0xF7u8, 0xD3u8, 0xF7u8, 0xD3u8, 0xF7u8],
        seq![0x00u8, 0x00u8, 0x00u8, 0x00u8, 0x00u8, 0x00u8],
        seq![0xB0u8, 0xB1u8, 0xB2u8, 0xB3u8, 0xB4u8, 0xB5u8],
        seq![0x4Du8, 0x3Au8, 0x99u8, 0xC3u8, 0x51u8, 0xDDu8],
        seq![0x1Au8, 0x98u8, 0x2Cu8, 0x7Eu8, 0x45u8, 0x9Au8],
        seq![0xAAu8, 0xBBu8, 0xCCu8, 0xDDu8, 0xEEu8, 0xFFu8],
    ]
}

/// The key dictionary as 6-byte keys, in trial order.
pub fn common_keys() -> (keys: Vec<[u8; 6]>)
    ensures
        keys@.len() == 8,
        forall|k: int| 0 <= k < 8 ==> (#[trigger] keys@[k])@ == spec_common_keys()[k],
{
    let mut keys: Vec<[u8; 6]> = Vec::new();
    keys.push([0xFF, 0xFF, 0xFF, 0xFF, 0xFF, 0xFF]);
    keys.push([0xA0, 0xA1, 0xA2, 0xA3, 0xA4, 0xA5]);
    keys.push([0xD3, 0xF7, 0xD3, 0xF7, 0xD3, 0xF7]);
    keys.push([0x00, 0x00, 0x00, 0x00, 0x00, 0x00]);
    keys.push([0xB0, 0xB1, 0xB2, 0xB3, 0xB4, 0xB5]);
    keys.push([0x4D, 0x3A, 0x99, 0xC3, 0x51, 0xDD]);
    keys.push([0x1A, 0x98, 0x2C, 0x7E, 0x45, 0x9A]);
    keys.push([0xAA, 0xBB, 0xCC, 0xDD, 0xEE, 0xFF]);
    proof {
        assert forall|k: int| 0 <= k < 8 implies (#[trigger] keys@[k])@ == spec_common_keys()[k] by {
            assert(keys@[k]@ =~= spec_common_keys()[k]);
        }
    }
    keys
}

/// The sector-authentication attempts, in order: each dictionary key with
/// key type A, and — for reads only — the same key with key type B before
/// moving to the next key. Writes try key type A alone.
pub fn mifare_auth_attempts(for_write: bool) -> (attempts: Vec<([u8; 6], u8)>)
    ensures
        !for_write ==> attempts@.len() == 16,
        !for_write ==> forall|k: int|
            0 <= k < 8 ==> (#[trigger] attempts@[2 * k]).0@ == spec_common_keys()[k] && attempts@[
                2 * k
            ].1 == 0x60 && attempts@[2 * k + 1].0@ == spec_common_keys()[k] && attempts@[2 * k
                + 1].1 == 0x61,
        for_write ==> attempts@.len() == 8,
        for_write ==> forall|k: int|
            0 <= k < 8 ==> (#[trigger] attempts@[k]).0@ == spec_common_keys()[k] && attempts@[k].1
                == 0x60,
{
    let keys = common_keys();
    let mut attempts: Vec<([u8; 6], u8)> = Vec::new();
    let mut k: usize = 0;
    while k < 8
        invariant
            k <= 8,
            keys@.len() == 8,
            forall|j: int| 0 <= j < 8 ==> (#[trigger] keys@[j])@ == spec_common_keys()[j],
            !for_write ==> attempts@.len() == 2 * k,
            !for_write ==> forall|j: int|
                0 <= j < k ==> (#[trigger] attempts@[2 * j]).0@ == spec_common_keys()[j]
                    && attempts@[2 * j].1 == 0x60 && attempts@[2 * j + 1].0@ == spec_common_keys()[j]
                    && attempts@[2 * j + 1].1 == 0x61,
            for_write ==> attempts@.len() == k,
            for_write ==> forall|j: int|
                0 <= j < k ==> (#[trigger] attempts@[j]).0@ == spec_common_keys()[j] && attempts@[
                    j
                ].1 == 0x60,
        decreases 8 - k,
    {
        attempts.push((keys[k], 0x60));
        if !for_write {
            attempts.push((keys[k], 0x61));
        }
        k = k + 1;
    }
    attempts
}

// ---------------------------------------------------------------------------
// MIFARE block geometry
// ---------------------------------------------------------------------------
/// The `i`-th data block of a MIFARE Classic 1K, skipping sector 0 and every
/// sector trailer: sector `1 + i/3`, block `i % 3` within the sector.
pub open spec fn spec_mifare_block(i: int) -> int {
    4 * (1 + i / 3) + i % 3
}

/// How many data blocks the card has outside sector 0.
pub const MIFARE_DATA_BLOCKS: usize = 45;

/// Each data block lies in blocks 4 through 62 and is never a trailer.
pub proof fn lemma_mifare_block_bounds(i: int)
    requires
        0 <= i < 45,
    ensures
        4 <= spec_mifare_block(i) <= 62,
        spec_mifare_block(i) % 4 != 3,
        spec_mifare_block(i) % 4 == 0 <==> i % 3 == 0,
{
    assert(0 <= i / 3 <= 14 && 0 <= i % 3 <= 2) by (nonlinear_arith)
        requires
            0 <= i < 45,
    ;
    let q = i / 3;
    let r = i % 3;
    assert((4 * (1 + q) + r) % 4 == r && ((4 * (1 + q) + r) % 4 == 0 <==> r == 0)) by (
    nonlinear_arith)
        requires
            0 <= q,
            0 <= r <= 2,
    ;
}

/// A MIFARE write of up to 720 bytes writes exactly one block per 16-byte
/// chunk, each inside blocks 4 through 62, and never a sector trailer.
pub proof fn lemma_mifare_plan_avoids_trailers(len: int, j: int)
    requires
        0 <= len <= 720,
        0 <= j < spec_chunk_count(len, 16),
    ensures
        4 <= spec_mifare_block(j) <= 62,
        spec_mifare_block(j) % 4 != 3,
{
    assert(spec_chunk_count(len, 16) <= 45) by (nonlinear_arith)
        requires
            0 <= len <= 720,
    ;
    lemma_mifare_block_bounds(j);
}

/// The data blocks of a MIFARE Classic 1K in read/write order: three per
/// sector for sectors 1 through 15.
pub fn get_mifare_data_blocks() -> (blocks: Vec<u8>)
    ensures
        blocks@.len() == 45,
        forall|i: int| 0 <= i < 45 ==> (#[trigger] blocks@[i]) as int == spec_mifare_block(i),
{
    let mut blocks: Vec<u8> = Vec::new();
    let mut sector: usize = 1;
    while sector < 16
        invariant
            1 <= sector <= 16,
            blocks@.len() == (sector - 1) * 3,
            forall|i: int|
                0 <= i < blocks@.len() ==> (#[trigger] blocks@[i]) as int == spec_mifare_block(i),
        decreases 16 - sector,
    {
        let mut b: usize = 0;
        while b < 3
            invariant
                1 <= sector < 16,
                b <= 3,
                blocks@.len() == (sector - 1) * 3 + b,
                forall|i: int|
                    0 <= i < blocks@.len() ==> (#[trigger] blocks@[i]) as int == spec_mifare_block(
                        i,
                    ),
            decreases 3 - b,
        {
            proof {
                let i = (sector - 1) * 3 + b;
                assert(i / 3 == sector - 1 && i % 3 == b) by (nonlinear_arith)
                    requires
                        1 <= sector < 16,
                        0 <= b < 3,
                        i == (sector - 1) * 3 + b,
                ;
            }
            blocks.push((sector * 4 + b) as u8);
            b = b + 1;
        }
        sector = sector + 1;
    }
    blocks
}

// ---------------------------------------------------------------------------
// Chunking
// ---------------------------------------------------------------------------
/// The `j`-th width-`w` chunk of `data`, zero-padded to exactly `w` bytes.
pub open spec fn spec_chunk(data: Seq<u8>, j: int, w: int) -> Seq<u8> {
    Seq::new(
        w as nat,
        |k: int|
            if j * w + k < data.len() {
                data[j * w + k]
            } else {
                0u8
            },
    )
}

/// How many width-`w` chunks cover `len` bytes.
pub open spec fn spec_chunk_count(len: int, w: int) -> int {
    (len + w - 1) / w
}

/// Build the `j`-th width-`w` chunk of `data`.
fn build_chunk(data: &[u8], j: usize, w: usize) -> (chunk: Vec<u8>)
    requires
        0 < w <= 16,
        j * w + w <= usize::MAX,
    ensures
        chunk@ == spec_chunk(data@, j as int, w as int),
{
    let mut chunk: Vec<u8> = Vec::new();
    let base = j * w;
    let mut k: usize = 0;
    while k < w
        invariant
            k <= w,
            base == j * w,
            base + w <= usize::MAX,
            chunk@.len() == k,
            forall|t: int|
                0 <= t < k ==> (#[trigger] chunk@[t]) == (if j * w + t < data@.len() {
                    data@[j * w + t]
                } else {
                    0u8
                }),
        decreases w - k,
    {
        if base + k < data.len() {
            chunk.push(data[base + k]);
        } else {
            chunk.push(0x00);
        }
        k = k + 1;
    }
    proof {
        assert(chunk@ =~= spec_chunk(data@, j as int, w as int));
    }
    chunk
}

// ---------------------------------------------------------------------------
// Write plans
// ---------------------------------------------------------------------------
/// Plan a MIFARE write of TLV-wrapped data: one 16-byte zero-padded chunk
/// per data block, starting at block 4 and skipping every sector trailer, so
/// exactly the ceiling of `len / 16` blocks are written and no trailer is
/// ever touched. Fails exactly when the data exceeds the card's 720 data
/// bytes.
pub fn mifare_write_plan(data: &[u8]) -> (r: Result<Vec<(u8, Vec<u8>)>, TagError>)
    ensures
        r is Ok <==> data@.len() <= 720,
        (r matches Ok(plan) ==> {
            &&& plan@.len() == spec_chunk_count(data@.len() as int, 16)
            &&& forall|j: int|
                0 <= j < plan@.len() ==> (#[trigger] plan@[j]).0 as int == spec_mifare_block(j)
                    && plan@[j].1@ == spec_chunk(data@, j, 16)
        }),
        (r matches Err(e) ==> e == TagError::MessageTooLong),
{
    let n = data.len();
    if n > 720 {
        return Err(TagError::MessageTooLong);
    }
    let chunks = (n + 15) / 16;
    assert(chunks == spec_chunk_count(n as int, 16));
    assert(chunks <= 45) by (nonlinear_arith)
        requires
            chunks == (n + 15) / 16,
            n <= 720,
    ;
    let blocks = get_mifare_data_blocks();
    let mut plan: Vec<(u8, Vec<u8>)> = Vec::new();
    let mut j: usize = 0;
    while j < chunks
        invariant
            chunks <= 45,
            n == data@.len(),
            blocks@.len() == 45,
            forall|i: int| 0 <= i < 45 ==> (#[trigger] blocks@[i]) as int == spec_mifare_block(i),
            j <= chunks,
            plan@.len() == j,
            forall|t: int|
                0 <= t < j ==> (#[trigger] plan@[t]).0 as int == spec_mifare_block(t)
                    && plan@[t].1@ == spec_chunk(data@, t, 16),
        decreases chunks - j,
    {
        let chunk = build_chunk(data, j, 16);
        plan.push((blocks[j], chunk));
        j = j + 1;
    }
    Ok(plan)
}

/// Plan an NTAG write of TLV-wrapped data: one 4-byte zero-padded page per
/// step, starting at page 4. Fails exactly when the data would run past
/// page 255.
pub fn ntag_write_plan(data: &[u8]) -> (r: Result<Vec<(u8, Vec<u8>)>, TagError>)
    ensures
        r is Ok <==> data@.len() <= 1008,
        (r matches Ok(plan) ==> {
            &&& plan@.len() == spec_chunk_count(data@.len() as int, 4)
            &&& forall|j: int|
                0 <= j < plan@.len() ==> (#[trigger] plan@[j]).0 as int == 4 + j && plan@[j].1@
                    == spec_chunk(data@, j, 4)
        }),
        (r matches Err(e) ==> e == TagError::MessageTooLong),
{
    let n = data.len();
    if n > 1008 {
        return Err(TagError::MessageTooLong);
    }
    let chunks = (n + 3) / 4;
    assert(chunks == spec_chunk_count(n as int, 4));
    assert(chunks <= 252) by (nonlinear_arith)
        requires
            chunks == (n + 3) / 4,
            n <= 1008,
    ;
    let mut plan: Vec<(u8, Vec<u8>)> = Vec::new();
    let mut j: usize = 0;
    while j < chunks
        invariant
            chunks <= 252,
            n == data@.len(),
            j <= chunks,
            plan@.len() == j,
            forall|t: int|
                0 <= t < j ==> (#[trigger] plan@[t]).0 as int == 4 + t && plan@[t].1@ == spec_chunk(
                    data@,
                    t,
                    4,
                ),
        decreases chunks - j,
    {
        let chunk = build_chunk(data, j, 4);
        plan.push(((4 + j) as u8, chunk));
        j = j + 1;
    }
    Ok(plan)
}

// ---------------------------------------------------------------------------
// MIFARE read
// ---------------------------------------------------------------------------
/// Whether the accumulated buffer already covers the whole TLV container it
/// announces: a `0x03` tag at `p`, its short length at `p + 1`, and at least
/// `p + 2 + length + 1` bytes gathered (tag, length, message, terminator).
pub open spec fn spec_mifare_done(buf: Seq<u8>) -> bool {
    match spec_find_byte(buf, 0x03, 0) {
        None => false,
        Some(p) => p + 1 < buf.len() && buf.len() >= p + 3 + (buf[p + 1] as int),
    }
}

/// Whether the accumulated buffer already covers its announced TLV end.
pub fn mifare_done(buf: &[u8]) -> (done: bool)
    ensures
        done == spec_mifare_done(buf@),
{
    let n = buf.len();
    match crate::bytes::find_byte(buf, 0x03) {
        None => false,
        Some(p) => p + 1 < n && n - p >= 3 && n - p - 3 >= buf[p + 1] as usize,
    }
}

/// What the caller must do next to carry a MIFARE read forward.
#[derive(PartialEq, Eq, Structural, Debug)]
pub enum MifareStep {
    /// Win sector authentication at this block (the key dictionary gives the
    /// attempts) before any block of the sector is read.
    Authenticate { block: u8 },
    /// Read 16 bytes at this block.
    ReadBlock { block: u8 },
    /// The read is over; take the result.
    Done,
}

/// A MIFARE read in progress: the caller asks [`MifareReader::next_step`]
/// what to do, performs the step against the card, and reports the outcome.
/// The read finishes when every data block was read, when the TLV container
/// predicts its own end, or when the card stops cooperating.
pub struct MifareReader {
    /// Everything read so far, in block order.
    pub buf: Vec<u8>,
    /// The index of the next data block, in `spec_mifare_block` order.
    pub idx: usize,
    /// Whether the sector of the next block is already authenticated.
    pub authed: bool,
    /// Whether the card aborted the read (failed authentication or read).
    pub aborted: bool,
    /// The sector, if any, that no dictionary key opened.
    pub auth_failure: Option<u8>,
}

impl MifareReader {
    /// The reader only ever holds 16 bytes per consumed block.
    pub open spec fn wf(&self) -> bool {
        self.idx <= 45 && self.buf@.len() == 16 * self.idx
    }

    /// The decision of `next_step`, as a function of the state.
    pub open spec fn spec_next_step(&self) -> MifareStep {
        if self.aborted || self.idx >= 45 || spec_mifare_done(self.buf@) {
            MifareStep::Done
        } else if self.idx % 3 == 0 && !self.authed {
            MifareStep::Authenticate { block: spec_mifare_block(self.idx as int) as u8 }
        } else {
            MifareStep::ReadBlock { block: spec_mifare_block(self.idx as int) as u8 }
        }
    }

    /// Start a read with nothing gathered, at the first data block.
    pub fn new() -> (reader: MifareReader)
        ensures
            reader.wf(),
            reader.buf@ == Seq::<u8>::empty(),
            reader.idx == 0,
            !reader.authed,
            !reader.aborted,
            reader.auth_failure is None,
    {
        MifareReader { buf: Vec::new(), idx: 0, authed: false, aborted: false, auth_failure: None }
    }

    /// What to do next: authenticate at each sector boundary, read the
    /// current block otherwise, and stop as soon as the TLV container is
    /// whole, the blocks are exhausted, or the card aborted.
    pub fn next_step(&self) -> (step: MifareStep)
        requires
            self.wf(),
        ensures
            step == self.spec_next_step(),
    {
        if self.aborted || self.idx >= 45 {
            return MifareStep::Done;
        }
        if mifare_done(self.buf.as_slice()) {
            return MifareStep::Done;
        }
        proof {
            lemma_mifare_block_bounds(self.idx as int);
        }
        let block = {
            let i = self.idx;
            proof {
                assert(i / 3 <= 14 && i % 3 <= 2) by (nonlinear_arith)
                    requires
                        0 <= i < 45,
                ;
            }
            (4 * (1 + i / 3) + i % 3) as u8
        };
        if self.idx % 3 == 0 && !self.authed {
            MifareStep::Authenticate { block }
        } else {
            MifareStep::ReadBlock { block }
        }
    }

    /// Record that sector authentication succeeded at the pending block.
    pub fn auth_succeeded(&mut self)
        requires
            old(self).wf(),
            old(self).spec_next_step() matches MifareStep::Authenticate { .. },
        ensures
            final(self).wf(),
            *final(self) == (MifareReader { authed: true, ..*old(self) }),
    {
        self.authed = true;
    }

    /// Record that no key in the dictionary opened the pending sector: the
    /// read stops, remembering which sector refused.
    pub fn auth_failed(&mut self)
        requires
            old(self).wf(),
            old(self).spec_next_step() matches MifareStep::Authenticate { .. },
        ensures
            final(self).wf(),
            *final(self) == (MifareReader {
                aborted: true,
                auth_failure: Some((1 + old(self).idx / 3) as u8),
                ..*old(self)
            }),
            final(self).spec_next_step() == MifareStep::Done,
    {
        self.aborted = true;
        self.auth_failure = Some((1 + self.idx / 3) as u8);
    }

    /// Consume the 16 bytes read at the pending block and move to the next
    /// block, requiring authentication again at each sector boundary.
    pub fn block_read(&mut self, data: &[u8])
        requires
            old(self).wf(),
            old(self).spec_next_step() matches MifareStep::ReadBlock { .. },
            data@.len() == 16,
        ensures
            final(self).wf(),
            final(self).buf@ == old(self).buf@ + data@,
            final(self).idx == old(self).idx + 1,
            final(self).authed == ((old(self).idx + 1) % 3 != 0),
            final(self).aborted == old(self).aborted,
            final(self).auth_failure == old(self).auth_failure,
    {
        self.buf.extend_from_slice(data);
        self.idx = self.idx + 1;
        self.authed = self.idx % 3 != 0;
    }

    /// Record that reading the pending block failed: the read stops with
    /// whatever was gathered.
    pub fn read_failed(&mut self)
        requires
            old(self).wf(),
        ensures
            final(self).wf(),
            *final(self) == (MifareReader { aborted: true, ..*old(self) }),
            final(self).spec_next_step() == MifareStep::Done,
    {
        self.aborted = true;
    }

    /// The outcome of the read: the gathered buffer, even partial — an
    /// authentication failure that left nothing behind names its sector, and
    /// a card that yielded nothing at all is `NoData`.
    pub fn into_result(self) -> (r: Result<Vec<u8>, TagError>)
        ensures
            r is Ok <==> self.buf@.len() > 0,
            (r matches Ok(buf) ==> buf@ == self.buf@),
            (r matches Err(e) ==> e == (match self.auth_failure {
                Some(sector) => TagError::SectorAuthFailed(sector),
                None => TagError::NoData,
            })),
    {
        if self.buf.len() == 0 {
            match self.auth_failure {
                Some(sector) => Err(TagError::SectorAuthFailed(sector)),
                None => Err(TagError::NoData),
            }
        } else {
            Ok(self.buf)
        }
    }
}

// ---------------------------------------------------------------------------
// NTAG read
// ---------------------------------------------------------------------------
/// Read the NDEF length and header size out of the first bytes of page 4.
/// The length is the byte after the `0x03` tag, or — when that byte is
/// `0xFF` — the big-endian 16-bit value in the two bytes after it. Fails
/// exactly when the memory does not start with the `0x03` tag.
pub fn parse_ntag_tlv_header(initial: &[u8]) -> (r: Result<(usize, usize), TagError>)
    requires
        initial@.len() >= 4,
    ensures
        r is Ok <==> initial@[0] == 0x03,
        (r matches Ok((ndef_len, header)) ==> (if initial@[1] == 0xFF {
            ndef_len == (initial@[2] as int) * 256 + (initial@[3] as int) && header == 4
        } else {
            ndef_len == initial@[1] as int && header == 2
        })),
        (r matches Err(e) ==> e == TagError::NoNdefContainer),
{
    if initial[0] != 0x03 {
        return Err(TagError::NoNdefContainer);
    }
    if initial[1] == 0xFF {
        let len = (initial[2] as usize) * 256 + (initial[3] as usize);
        Ok((len, 4))
    } else {
        Ok((initial[1] as usize, 2))
    }
}

/// How many 4-byte pages cover the TLV header and the declared NDEF length.
pub fn ntag_pages_needed(ndef_len: usize, header: usize) -> (pages: usize)
    requires
        ndef_len <= 0xFFFF,
        header <= 4,
    ensures
        pages == (ndef_len + header + 3) / 4,
{
    (ndef_len + header + 3) / 4
}

/// Slice the NDEF message out of the pages gathered from the card. Fails
/// exactly when the card ended before the declared length was covered.
pub fn extract_ndef_payload(full: &[u8], header: usize, ndef_len: usize) -> (r: Result<
    Vec<u8>,
    TagError,
>)
    ensures
        r is Ok <==> header + ndef_len <= full@.len(),
        (r matches Ok(msg) ==> msg@ == full@.subrange(header as int, header + ndef_len)),
        (r matches Err(e) ==> e == TagError::IncompleteRead),
{
    if ndef_len > full.len() || header > full.len() - ndef_len {
        return Err(TagError::IncompleteRead);
    }
    Ok(crate::bytes::copy_range(full, header, header + ndef_len))
}

} // verus!
