//! The bank decode-and-validate pipeline.
//!
//! A K4 bank dump is a fixed-size byte blob: 64 single patches, 64 multi
//! patches, one drum patch (a common block and 61 note blocks), and 32 effect
//! patches, laid out contiguously in that order. Every record closes with a
//! checksum byte: `0xA5` plus the sum of the record's data bytes, masked to
//! seven bits. Decoding validates every checksum and keeps each record's raw
//! bytes, so re-encoding reproduces the input byte-exactly.

use vstd::prelude::*;
use vstd::slice::{slice_subrange, slice_to_vec};

use crate::sysex::{DecodeError, Section, SystemExclusiveData};

verus! {

/// Number of single patches in a bank.
pub const SINGLE_PATCH_COUNT: usize = 64;

/// Number of multi patches in a bank.
pub const MULTI_PATCH_COUNT: usize = 64;

/// Number of note blocks in the drum patch.
pub const DRUM_NOTE_COUNT: usize = 61;

/// Number of effect patches in a bank.
pub const EFFECT_PATCH_COUNT: usize = 32;

/// Encoded size of one single patch, checksum byte included.
pub const SINGLE_DATA_SIZE: usize = 131;

/// Encoded size of one multi patch, checksum byte included.
pub const MULTI_DATA_SIZE: usize = 77;

/// Encoded size of the drum common block, checksum byte included.
pub const DRUM_COMMON_DATA_SIZE: usize = 11;

/// Encoded size of one drum note block, checksum byte included.
pub const DRUM_NOTE_DATA_SIZE: usize = 11;

/// Encoded size of one effect patch, checksum byte included.
pub const EFFECT_DATA_SIZE: usize = 35;

/// Offset of the multi-patch section within a dump.
pub const MULTI_SECTION_OFFSET: usize = SINGLE_PATCH_COUNT * SINGLE_DATA_SIZE;

/// Offset of the drum common block within a dump.
pub const DRUM_COMMON_OFFSET: usize = MULTI_SECTION_OFFSET + MULTI_PATCH_COUNT * MULTI_DATA_SIZE;

/// Offset of the drum note blocks within a dump.
pub const DRUM_NOTES_OFFSET: usize = DRUM_COMMON_OFFSET + DRUM_COMMON_DATA_SIZE;

/// Offset of the effect-patch section within a dump.
pub const EFFECT_SECTION_OFFSET: usize = DRUM_NOTES_OFFSET + DRUM_NOTE_COUNT * DRUM_NOTE_DATA_SIZE;

/// Fixed total byte length of a bank dump.
pub const BANK_DATA_SIZE: usize = EFFECT_SECTION_OFFSET + EFFECT_PATCH_COUNT * EFFECT_DATA_SIZE;

/// Total number of checksummed records in one dump, all sections together.
pub const BANK_RECORD_COUNT: usize = SINGLE_PATCH_COUNT + MULTI_PATCH_COUNT + 1 + DRUM_NOTE_COUNT
    + EFFECT_PATCH_COUNT;

/// Length of record `k` of a dump, in physical order over all sections.
pub open spec fn record_len(k: int) -> int {
    if k < SINGLE_PATCH_COUNT {
        SINGLE_DATA_SIZE as int
    } else if k < SINGLE_PATCH_COUNT + MULTI_PATCH_COUNT {
        MULTI_DATA_SIZE as int
    } else if k == SINGLE_PATCH_COUNT + MULTI_PATCH_COUNT {
        DRUM_COMMON_DATA_SIZE as int
    } else if k < SINGLE_PATCH_COUNT + MULTI_PATCH_COUNT + 1 + DRUM_NOTE_COUNT {
        DRUM_NOTE_DATA_SIZE as int
    } else {
        EFFECT_DATA_SIZE as int
    }
}

/// Offset at which record `k` starts.
pub open spec fn record_start(k: int) -> int {
    if k < SINGLE_PATCH_COUNT {
        SINGLE_DATA_SIZE * k
    } else if k < SINGLE_PATCH_COUNT + MULTI_PATCH_COUNT {
        MULTI_SECTION_OFFSET + MULTI_DATA_SIZE * (k - SINGLE_PATCH_COUNT)
    } else if k == SINGLE_PATCH_COUNT + MULTI_PATCH_COUNT {
        DRUM_COMMON_OFFSET as int
    } else if k < SINGLE_PATCH_COUNT + MULTI_PATCH_COUNT + 1 + DRUM_NOTE_COUNT {
        DRUM_NOTES_OFFSET + DRUM_NOTE_DATA_SIZE * (k - (SINGLE_PATCH_COUNT + MULTI_PATCH_COUNT
            + 1))
    } else {
        EFFECT_SECTION_OFFSET + EFFECT_DATA_SIZE * (k - (SINGLE_PATCH_COUNT + MULTI_PATCH_COUNT + 1
            + DRUM_NOTE_COUNT))
    }
}

/// The section that record `k` belongs to.
pub open spec fn section_of(k: int) -> Section {
    if k < SINGLE_PATCH_COUNT {
        Section::Single
    } else if k < SINGLE_PATCH_COUNT + MULTI_PATCH_COUNT {
        Section::Multi
    } else if k == SINGLE_PATCH_COUNT + MULTI_PATCH_COUNT {
        Section::DrumCommon
    } else if k < SINGLE_PATCH_COUNT + MULTI_PATCH_COUNT + 1 + DRUM_NOTE_COUNT {
        Section::DrumNote
    } else {
        Section::Effect
    }
}

/// The index of record `k` within its own section.
pub open spec fn section_index_of(k: int) -> int {
    if k < SINGLE_PATCH_COUNT {
        k
    } else if k < SINGLE_PATCH_COUNT + MULTI_PATCH_COUNT {
        k - SINGLE_PATCH_COUNT
    } else if k == SINGLE_PATCH_COUNT + MULTI_PATCH_COUNT {
        0
    } else if k < SINGLE_PATCH_COUNT + MULTI_PATCH_COUNT + 1 + DRUM_NOTE_COUNT {
        k - (SINGLE_PATCH_COUNT + MULTI_PATCH_COUNT + 1)
    } else {
        k - (SINGLE_PATCH_COUNT + MULTI_PATCH_COUNT + 1 + DRUM_NOTE_COUNT)
    }
}

/// Records tile the dump contiguously: record `k + 1` starts exactly where
/// record `k` ends, and the last record ends at the dump's total size.
pub proof fn lemma_record_bounds(k: int)
    requires
        0 <= k < BANK_RECORD_COUNT,
    ensures
        0 <= record_start(k),
        record_start(k) + record_len(k) == record_start(k + 1),
        record_start(k + 1) <= BANK_DATA_SIZE as int,
{
}

/// Sum of a byte sequence.
pub open spec fn sum_bytes(s: Seq<u8>) -> int
    decreases s.len(),
{
    if s.len() == 0 {
        0
    } else {
        sum_bytes(s.drop_last()) + s.last()
    }
}

/// The K4 record checksum: `0xA5` plus the sum of the data bytes, masked to
/// seven bits.
pub open spec fn checksum_of(s: Seq<u8>) -> u8 {
    (((sum_bytes(s) + 0xA5) % 0x80) as u8)
}

/// A record conforms when its final byte is the checksum of the bytes before
/// it.
pub open spec fn record_valid(rec: Seq<u8>) -> bool {
    &&& rec.len() >= 1
    &&& rec.last() == checksum_of(rec.drop_last())
}

/// The bytes of record `k` within a full dump.
pub open spec fn record_at(data: Seq<u8>, k: int) -> Seq<u8> {
    data.subrange(record_start(k), record_start(k) + record_len(k))
}

/// A buffer of the exact bank size conforms when every record's checksum is
/// right.
pub open spec fn bank_valid(data: Seq<u8>) -> bool {
    forall|k: int|
        0 <= k < BANK_RECORD_COUNT ==> record_valid(#[trigger] record_at(data, k))
}

/// The abstract content of a bank dump: its records' bytes, in physical
/// order.
pub open spec fn bank_decode(data: Seq<u8>) -> Seq<Seq<u8>> {
    Seq::new(BANK_RECORD_COUNT as nat, |k: int| record_at(data, k))
}

/// Re-encoding of the abstract content: the records concatenated in order.
pub open spec fn bank_encode(records: Seq<Seq<u8>>) -> Seq<u8> {
    records.flatten()
}

/// What a failed bank decode reports: the first record, in physical order,
/// whose checksum does not match, named by section and index, with the
/// checksum expected of its data bytes and the byte actually found.
pub open spec fn bank_decode_fault(data: Seq<u8>, e: DecodeError) -> bool {
    match e {
        DecodeError::Checksum { section, index, expected, found } => exists|k: int|
            {
                &&& 0 <= k < BANK_RECORD_COUNT
                &&& !record_valid(#[trigger] record_at(data, k))
                &&& forall|j: int| 0 <= j < k ==> record_valid(#[trigger] record_at(data, j))
                &&& section == section_of(k)
                &&& index == section_index_of(k)
                &&& expected == checksum_of(record_at(data, k).drop_last())
                &&& found == record_at(data, k).last()
            },
    }
}

/// Prefixes of the decoded records re-concatenate to the matching prefix of
/// the dump.
proof fn lemma_decode_prefix_encode(data: Seq<u8>, n: int)
    requires
        data.len() == BANK_DATA_SIZE as int,
        0 <= n <= BANK_RECORD_COUNT,
    ensures
        bank_decode(data).take(n).flatten() == data.subrange(0, record_start(n)),
    decreases n,
{
    if n == 0 {
        assert(bank_decode(data).take(0) =~= Seq::<Seq<u8>>::empty());
        assert(Seq::<Seq<u8>>::empty().flatten() =~= data.subrange(0, 0));
    } else {
        lemma_decode_prefix_encode(data, n - 1);
        lemma_record_bounds(n - 1);
        let pre = bank_decode(data).take(n - 1);
        assert(bank_decode(data).take(n) =~= pre.push(record_at(data, n - 1)));
        pre.lemma_flatten_push(record_at(data, n - 1));
        assert(record_at(data, n - 1) =~= data.subrange(record_start(n - 1), record_start(n)));
        assert(data.subrange(0, record_start(n - 1)) + data.subrange(
            record_start(n - 1),
            record_start(n),
        ) =~= data.subrange(0, record_start(n)));
    }
}

/// Law: a byte buffer of the bank size that decodes successfully re-encodes
/// to exactly itself.
pub proof fn lemma_bank_round_trip(data: Seq<u8>)
    requires
        data.len() == BANK_DATA_SIZE as int,
        bank_valid(data),
    ensures
        bank_encode(bank_decode(data)) == data,
{
    lemma_decode_prefix_encode(data, BANK_RECORD_COUNT as int);
    assert(bank_decode(data).take(BANK_RECORD_COUNT as int) =~= bank_decode(data));
    assert(data.subrange(0, record_start(BANK_RECORD_COUNT as int)) =~= data);
}

/// Computes the K4 record checksum of `data`.
fn checksum(data: &[u8]) -> (r: u8)
    requires
        data@.len() <= 0xFFFF,
    ensures
        r == checksum_of(data@),
{
    let mut sum: u32 = 0;
    let mut i: usize = 0;
    while i < data.len()
        invariant
            i <= data@.len() <= 0xFFFF,
            sum == sum_bytes(data@.take(i as int)),
            sum <= 255 * i,
        decreases data@.len() - i,
    {
        let b = data[i];
        proof {
            assert(data@.take(i + 1).drop_last() =~= data@.take(i as int));
            assert(data@.take(i + 1).last() == b);
        }
        sum = sum + b as u32;
        i += 1;
    }
    proof {
        assert(data@.take(data@.len() as int) =~= data@);
    }
    ((sum + 0xA5) % 0x80) as u8
}

/// Copies the `len` bytes at `start` out of a full dump.
fn record_bytes(data: &Vec<u8>, start: usize, len: usize) -> (r: Vec<u8>)
    requires
        start + len <= data@.len(),
    ensures
        r@ == data@.subrange(start as int, start as int + len as int),
{
    let n = data.len();
    assert(start + len <= n);
    let s = slice_subrange(data.as_slice(), start, start + len);
    slice_to_vec(s)
}

fn record_len_at(k: usize) -> (r: usize)
    requires
        k < BANK_RECORD_COUNT,
    ensures
        r as int == record_len(k as int),
        1 <= r <= 131,
{
    if k < SINGLE_PATCH_COUNT {
        SINGLE_DATA_SIZE
    } else if k < SINGLE_PATCH_COUNT + MULTI_PATCH_COUNT {
        MULTI_DATA_SIZE
    } else if k == SINGLE_PATCH_COUNT + MULTI_PATCH_COUNT {
        DRUM_COMMON_DATA_SIZE
    } else if k < SINGLE_PATCH_COUNT + MULTI_PATCH_COUNT + 1 + DRUM_NOTE_COUNT {
        DRUM_NOTE_DATA_SIZE
    } else {
        EFFECT_DATA_SIZE
    }
}

fn section_at(k: usize) -> (r: (Section, u8))
    requires
        k < BANK_RECORD_COUNT,
    ensures
        r.0 == section_of(k as int),
        r.1 as int == section_index_of(k as int),
{
    if k < SINGLE_PATCH_COUNT {
        (Section::Single, k as u8)
    } else if k < SINGLE_PATCH_COUNT + MULTI_PATCH_COUNT {
        (Section::Multi, (k - SINGLE_PATCH_COUNT) as u8)
    } else if k == SINGLE_PATCH_COUNT + MULTI_PATCH_COUNT {
        (Section::DrumCommon, 0)
    } else if k < SINGLE_PATCH_COUNT + MULTI_PATCH_COUNT + 1 + DRUM_NOTE_COUNT {
        (Section::DrumNote, (k - (SINGLE_PATCH_COUNT + MULTI_PATCH_COUNT + 1)) as u8)
    } else {
        (Section::Effect, (k - (SINGLE_PATCH_COUNT + MULTI_PATCH_COUNT + 1 + DRUM_NOTE_COUNT))
            as u8)
    }
}

/// Appends all of `src` to `dst`.
fn append_bytes(dst: &mut Vec<u8>, src: &Vec<u8>)
    ensures
        final(dst)@ == old(dst)@ + src@,
{
    let mut i: usize = 0;
    while i < src.len()
        invariant
            i <= src@.len(),
            dst@ == old(dst)@ + src@.take(i as int),
        decreases src@.len() - i,
    {
        dst.push(src[i]);
        proof {
            assert(old(dst)@ + src@.take(i + 1) =~= (old(dst)@ + src@.take(i as int)).push(
                src@[i as int],
            ));
        }
        i += 1;
    }
    proof {
        assert(src@.take(src@.len() as int) =~= src@);
    }
}

/// One raw record of a bank dump: the data bytes followed by the record's
/// checksum byte.
#[derive(Debug)]
pub struct PatchRecord {
    bytes: Vec<u8>,
}

impl View for PatchRecord {
    type V = Seq<u8>;

    closed spec fn view(&self) -> Seq<u8> {
        self.bytes@
    }
}

impl PatchRecord {
    /// The record's raw bytes, checksum byte included.
    pub fn bytes(&self) -> (r: &Vec<u8>)
        ensures
            r@ == self@,
    {
        &self.bytes
    }
}

/// A decoded K4 bank dump: every record of the dump, checksum-validated, in
/// physical order.
#[derive(Debug)]
pub struct Bank {
    records: Vec<PatchRecord>,
}

impl View for Bank {
    type V = Seq<Seq<u8>>;

    closed spec fn view(&self) -> Seq<Seq<u8>> {
        self.records@.map_values(|r: PatchRecord| r@)
    }
}

impl SystemExclusiveData for Bank {
    open spec fn spec_data_size() -> nat {
        BANK_DATA_SIZE as nat
    }

    open spec fn wf(&self) -> bool {
        &&& self@.len() == BANK_RECORD_COUNT
        &&& forall|k: int|
            0 <= k < BANK_RECORD_COUNT ==> {
                &&& (#[trigger] self@[k]).len() == record_len(k)
                &&& record_valid(self@[k])
            }
    }

    open spec fn valid_encoding(data: Seq<u8>) -> bool {
        bank_valid(data)
    }

    open spec fn spec_decode(data: Seq<u8>) -> Seq<Seq<u8>> {
        bank_decode(data)
    }

    open spec fn spec_encode(v: Seq<Seq<u8>>) -> Seq<u8> {
        bank_encode(v)
    }

    open spec fn decode_fault(data: Seq<u8>, e: DecodeError) -> bool {
        bank_decode_fault(data, e)
    }

    fn data_size() -> usize {
        BANK_DATA_SIZE
    }

    fn from_bytes(data: &Vec<u8>) -> (r: Result<Bank, DecodeError>) {
        let mut records: Vec<PatchRecord> = Vec::new();
        let mut start: usize = 0;
        let mut k: usize = 0;
        while k < BANK_RECORD_COUNT
            invariant
                data@.len() == BANK_DATA_SIZE,
                k <= BANK_RECORD_COUNT,
                start as int == record_start(k as int),
                records@.len() == k,
                forall|j: int|
                    0 <= j < k ==> #[trigger] records@[j]@ == record_at(data@, j),
                forall|j: int| 0 <= j < k ==> record_valid(#[trigger] records@[j]@),
            decreases BANK_RECORD_COUNT - k,
        {
            proof {
                lemma_record_bounds(k as int);
            }
            let len = record_len_at(k);
            let rec = record_bytes(data, start, len);
            let expected = checksum(slice_subrange(rec.as_slice(), 0, len - 1));
            let found = rec[len - 1];
            proof {
                assert(rec@.subrange(0, len - 1) =~= rec@.drop_last());
            }
            if expected != found {
                let (section, index) = section_at(k);
                let e = DecodeError::Checksum { section, index, expected, found };
                proof {
                    let k0 = k as int;
                    assert(rec@ == record_at(data@, k0));
                    assert(!record_valid(record_at(data@, k0)));
                    assert forall|j: int| 0 <= j < k0 implies record_valid(
                        #[trigger] record_at(data@, j),
                    ) by {
                        assert(record_at(data@, j) == records@[j]@);
                    };
                    assert(expected == checksum_of(record_at(data@, k0).drop_last()));
                    assert(found == record_at(data@, k0).last());
                    assert(bank_decode_fault(data@, e));
                }
                return Err(e);
            }
            records.push(PatchRecord { bytes: rec });
            start = start + len;
            k += 1;
        }
        let bank = Bank { records };
        proof {
            assert forall|j: int| 0 <= j < BANK_RECORD_COUNT implies record_valid(
                #[trigger] record_at(data@, j),
            ) by {
                assert(record_at(data@, j) == records@[j]@);
            };
            assert(bank@ =~~= bank_decode(data@));
            assert forall|j: int|
                0 <= j < BANK_RECORD_COUNT implies ((#[trigger] bank@[j]).len() == record_len(j)
                && record_valid(bank@[j])) by {
                lemma_record_bounds(j);
                assert(bank@[j] == record_at(data@, j));
            };
        }
        Ok(bank)
    }

    fn to_bytes(&self) -> (r: Vec<u8>) {
        let mut out: Vec<u8> = Vec::new();
        let mut k: usize = 0;
        while k < BANK_RECORD_COUNT
            invariant
                self.wf(),
                k <= BANK_RECORD_COUNT,
                out@ == self@.take(k as int).flatten(),
                out@.len() == record_start(k as int),
            decreases BANK_RECORD_COUNT - k,
        {
            proof {
                lemma_record_bounds(k as int);
            }
            let rec = &self.records[k];
            append_bytes(&mut out, rec.bytes());
            proof {
                assert(self@.take(k + 1) =~= self@.take(k as int).push(self@[k as int]));
                self@.take(k as int).lemma_flatten_push(self@[k as int]);
            }
            k += 1;
        }
        proof {
            assert(self@.take(BANK_RECORD_COUNT as int) =~= self@);
        }
        out
    }
}

impl Bank {
    /// The raw record of single patch `i`.
    pub fn single(&self, i: usize) -> (r: &PatchRecord)
        requires
            self.wf(),
            i < SINGLE_PATCH_COUNT,
        ensures
            r@ == self@[i as int],
    {
        &self.records[i]
    }

    /// The raw record of multi patch `i`.
    pub fn multi(&self, i: usize) -> (r: &PatchRecord)
        requires
            self.wf(),
            i < MULTI_PATCH_COUNT,
        ensures
            r@ == self@[SINGLE_PATCH_COUNT + i],
    {
        &self.records[SINGLE_PATCH_COUNT + i]
    }

    /// The raw record of the drum patch's common block.
    pub fn drum_common(&self) -> (r: &PatchRecord)
        requires
            self.wf(),
        ensures
            r@ == self@[SINGLE_PATCH_COUNT + MULTI_PATCH_COUNT],
    {
        &self.records[SINGLE_PATCH_COUNT + MULTI_PATCH_COUNT]
    }

    /// The raw record of drum note `i`.
    pub fn drum_note(&self, i: usize) -> (r: &PatchRecord)
        requires
            self.wf(),
            i < DRUM_NOTE_COUNT,
        ensures
            r@ == self@[SINGLE_PATCH_COUNT + MULTI_PATCH_COUNT + 1 + i],
    {
        &self.records[SINGLE_PATCH_COUNT + MULTI_PATCH_COUNT + 1 + i]
    }

    /// The raw record of effect patch `i`.
    pub fn effect(&self, i: usize) -> (r: &PatchRecord)
        requires
            self.wf(),
            i < EFFECT_PATCH_COUNT,
        ensures
            r@ == self@[SINGLE_PATCH_COUNT + MULTI_PATCH_COUNT + 1 + DRUM_NOTE_COUNT + i],
    {
        &self.records[SINGLE_PATCH_COUNT + MULTI_PATCH_COUNT + 1 + DRUM_NOTE_COUNT + i]
    }
}

/// The outcome of reading an arbitrary byte buffer as a bank file.
#[derive(Debug, Clone, Copy, PartialEq, Eq, Structural)]
pub enum BankError {
    /// The buffer's length is not the bank size: the buffer is not a bank
    /// file, and no decode is attempted.
    SizeMismatch { expected: usize, found: usize },
    /// The buffer has the right length but violates the bank layout.
    Decode(DecodeError),
}

/// Reads an arbitrary byte buffer as a bank: the length is checked against
/// the fixed bank size before any decode is attempted, and a buffer of the
/// right length is decoded record by record.
pub fn parse_bank(data: &Vec<u8>) -> (r: Result<Bank, BankError>)
    ensures
        data@.len() != BANK_DATA_SIZE ==> r == Err::<Bank, BankError>(
            (BankError::SizeMismatch { expected: BANK_DATA_SIZE, found: data@.len() as usize }),
        ),
        data@.len() == BANK_DATA_SIZE ==> {
            &&& (r is Ok <==> bank_valid(data@))
            &&& (r matches Ok(v) ==> v.wf() && v@ == bank_decode(data@))
            &&& (r matches Err(e) ==> (e matches BankError::Decode(d) && bank_decode_fault(
                data@,
                d,
            )))
        },
{
    if data.len() != BANK_DATA_SIZE {
        Err(BankError::SizeMismatch { expected: BANK_DATA_SIZE, found: data.len() })
    } else {
        match Bank::from_bytes(data) {
            Ok(bank) => Ok(bank),
            Err(e) => Err(BankError::Decode(e)),
        }
    }
}

} // verus!
