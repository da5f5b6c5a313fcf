//! The framing of a replay file: records laid end to end, each a length in
//! four little-endian bytes and then that many bytes of payload.
//!
//! Bytes are handed in as a reader gives them back, a few at a time; what
//! comes out is each payload once it is whole, or the first thing wrong
//! with the file, named by the record it sits in and the byte that record
//! starts at. Reading, and decoding a payload into a message, are done by
//! whoever holds the file.

use vstd::prelude::*;

verus! {

/// Bytes in a record's length.
pub const LEN_PREFIX: usize = 4;

/// The longest payload a record may carry.
pub const MAX_PAYLOAD_LEN: usize = 16777216;

/// Most framing and payload bytes asked for in one poll.
pub const MAX_BYTES_PER_POLL: usize = 262144;

/// Most reader calls in one poll.
pub const MAX_READS_PER_POLL: usize = 128;

/// Most records one poll hands over.
pub const MAX_RECORDS_PER_POLL: usize = 64;

/// What is wrong with a replay file.
#[derive(Clone, Copy, Debug, PartialEq, Eq, Structural)]
pub enum Flaw {
    /// The file ends before its first record.
    NoRecords,
    /// A record's length is nought.
    EmptyPayload,
    /// A record's length is past the longest a payload may be.
    TooLong(usize),
    /// The file ends inside a length: how many of its bytes came.
    TruncatedPrefix(usize),
    /// The file ends inside a payload: how long it was to be, and how much
    /// of it came.
    TruncatedPayload(usize, usize),
}

/// The first thing wrong with a replay file, and where.
#[derive(Clone, Copy, Debug, PartialEq, Eq, Structural)]
pub struct Fault {
    /// The record it sits in, counting from one.
    pub record: u64,
    /// The byte that record starts at.
    pub at: u64,
    /// What is wrong.
    pub flaw: Flaw,
}

/// How far the framing has got through a file.
#[derive(Clone, Debug)]
pub struct Framing {
    /// The bytes of the current record's length read so far.
    pub prefix: Vec<u8>,
    /// The current record's length, once all of it has been read.
    pub length: Option<usize>,
    /// The bytes of the current record's payload read so far.
    pub payload: Vec<u8>,
    /// Bytes read from the start of the file.
    pub offset: u64,
    /// Records read whole.
    pub records: u64,
}

/// Four little-endian bytes as a number.
pub open spec fn le_u32(b: Seq<u8>) -> int {
    b[0] + 256 * b[1] + 65536 * b[2] + 16777216 * b[3]
}

/// A count moved on by some, held at the top of its width.
pub open spec fn counted_on(count: u64, by: int) -> u64 {
    if count + by > u64::MAX {
        u64::MAX
    } else {
        (count + by) as u64
    }
}

impl Framing {
    /// Whether the framing is in a state it can reach: a length only part
    /// read, or read and acceptable with the payload only part read.
    pub open spec fn well_formed(self) -> bool {
        &&& match self.length {
            None => self.prefix@.len() < LEN_PREFIX && self.payload@.len() == 0,
            Some(n) => self.prefix@.len() == LEN_PREFIX && 0 < n <= MAX_PAYLOAD_LEN
                && self.payload@.len() < n,
        }
        &&& self.prefix@.len() + self.payload@.len() <= self.offset
    }

    /// How many more bytes the part being read wants.
    pub open spec fn remaining(self) -> int {
        match self.length {
            None => LEN_PREFIX - self.prefix@.len(),
            Some(n) => n - self.payload@.len(),
        }
    }

    /// The byte the record being read starts at.
    pub open spec fn record_start(self) -> int {
        self.offset - self.prefix@.len() - self.payload@.len()
    }

    /// The framing of a file not yet read.
    pub fn new() -> (framing: Framing)
        ensures
            framing.well_formed(),
            framing.prefix@.len() == 0,
            framing.length is None,
            framing.offset == 0,
            framing.records == 0,
    {
        Framing { prefix: Vec::new(), length: None, payload: Vec::new(), offset: 0, records: 0 }
    }

    /// How many bytes to ask the reader for next, within a budget: what the
    /// part being read still wants, and no more than the budget.
    pub fn wanted(&self, budget: usize) -> (n: usize)
        requires
            self.well_formed(),
        ensures
            n == if self.remaining() < budget {
                self.remaining()
            } else {
                budget as int
            },
            0 < self.remaining(),
    {
        let rest = match self.length {
            None => LEN_PREFIX - self.prefix.len(),
            Some(n) => n - self.payload.len(),
        };
        if rest < budget {
            rest
        } else {
            budget
        }
    }

    /// Takes bytes the reader gave back, no more than the part being read
    /// wants.
    ///
    /// Bytes go to the length until it is whole, then to the payload. A
    /// length that is whole is checked at once: nought, or past the longest
    /// a payload may be, is a fault of this record. A payload that is whole
    /// comes out, and the next record begins.
    pub fn took(&mut self, bytes: &[u8]) -> (step: Result<Option<Vec<u8>>, Fault>)
        requires
            old(self).well_formed(),
            bytes@.len() <= old(self).remaining(),
        ensures
            final(self).offset == counted_on(old(self).offset, bytes@.len() as int),
            match old(self).length {
                None => {
                    let prefix = old(self).prefix@ + bytes@;
                    if prefix.len() < LEN_PREFIX {
                        &&& step == Ok::<Option<Vec<u8>>, Fault>(None)
                        &&& final(self).prefix@ == prefix
                        &&& final(self).length is None
                        &&& final(self).payload@.len() == 0
                        &&& final(self).records == old(self).records
                    } else if le_u32(prefix) == 0 {
                        step == Err::<Option<Vec<u8>>, Fault>(
                            Fault {
                                record: counted_on(old(self).records, 1),
                                at: old(self).record_start() as u64,
                                flaw: Flaw::EmptyPayload,
                            },
                        )
                    } else if le_u32(prefix) > MAX_PAYLOAD_LEN {
                        step == Err::<Option<Vec<u8>>, Fault>(
                            Fault {
                                record: counted_on(old(self).records, 1),
                                at: old(self).record_start() as u64,
                                flaw: Flaw::TooLong(le_u32(prefix) as usize),
                            },
                        )
                    } else {
                        &&& step == Ok::<Option<Vec<u8>>, Fault>(None)
                        &&& final(self).prefix@ == prefix
                        &&& final(self).length == Some(le_u32(prefix) as usize)
                        &&& final(self).payload@.len() == 0
                        &&& final(self).records == old(self).records
                    }
                },
                Some(n) => {
                    let payload = old(self).payload@ + bytes@;
                    if payload.len() == n {
                        &&& step matches Ok(Some(whole)) && whole@ == payload
                        &&& final(self).prefix@.len() == 0
                        &&& final(self).length is None
                        &&& final(self).payload@.len() == 0
                        &&& final(self).records == counted_on(old(self).records, 1)
                    } else {
                        &&& step == Ok::<Option<Vec<u8>>, Fault>(None)
                        &&& final(self).prefix@ == old(self).prefix@
                        &&& final(self).length == old(self).length
                        &&& final(self).payload@ == payload
                        &&& final(self).records == old(self).records
                    }
                },
            },
            step is Ok ==> final(self).well_formed(),
    {
        let start = self.offset - (self.prefix.len() + self.payload.len()) as u64;
        let count = bytes.len() as u64;
        self.offset = if self.offset > u64::MAX - count { u64::MAX } else { self.offset + count };
        let ghost offset = self.offset;
        let ghost records = self.records;
        let ghost length = self.length;
        let ghost prefix0 = self.prefix@;
        let ghost payload0 = self.payload@;
        let mut i: usize = 0;
        match self.length {
            None => {
                let ghost before = self.prefix@;
                while i < bytes.len()
                    invariant
                        i <= bytes@.len(),
                        self.prefix@ == before + bytes@.take(i as int),
                        self.offset == offset,
                        self.records == records,
                        self.length == length,
                        self.payload@ == payload0,
                    decreases bytes@.len() - i,
                {
                    self.prefix.push(bytes[i]);
                    i += 1;
                    assert(self.prefix@ =~= before + bytes@.take(i as int));
                }
                assert(bytes@.take(bytes@.len() as int) =~= bytes@);
                if self.prefix.len() < LEN_PREFIX {
                    return Ok(None);
                }
                let length: u32 = (self.prefix[0] as u32) + 256 * (self.prefix[1] as u32) + 65536
                    * (self.prefix[2] as u32) + 16777216 * (self.prefix[3] as u32);
                let record = if self.records == u64::MAX { u64::MAX } else { self.records + 1 };
                if length == 0 {
                    return Err(Fault { record, at: start, flaw: Flaw::EmptyPayload });
                }
                if length as usize > MAX_PAYLOAD_LEN {
                    return Err(Fault { record, at: start, flaw: Flaw::TooLong(length as usize) });
                }
                self.length = Some(length as usize);
                Ok(None)
            },
            Some(n) => {
                let ghost before = self.payload@;
                while i < bytes.len()
                    invariant
                        i <= bytes@.len(),
                        self.payload@ == before + bytes@.take(i as int),
                        self.offset == offset,
                        self.records == records,
                        self.length == length,
                        self.prefix@ == prefix0,
                    decreases bytes@.len() - i,
                {
                    self.payload.push(bytes[i]);
                    i += 1;
                    assert(self.payload@ =~= before + bytes@.take(i as int));
                }
                assert(bytes@.take(bytes@.len() as int) =~= bytes@);
                if self.payload.len() == n {
                    let mut whole: Vec<u8> = Vec::new();
                    std::mem::swap(&mut whole, &mut self.payload);
                    self.prefix = Vec::new();
                    self.length = None;
                    self.records = if self.records == u64::MAX {
                        u64::MAX
                    } else {
                        self.records + 1
                    };
                    Ok(Some(whole))
                } else {
                    Ok(None)
                }
            },
        }
    }

    /// The reader has nothing more. On a record's edge that is the end of
    /// the file, unless no record came at all; inside a record it is a
    /// fault of that record.
    pub fn ended(&self) -> (end: Result<(), Fault>)
        requires
            self.well_formed(),
        ensures
            end == if self.prefix@.len() == 0 {
                if self.records == 0 {
                    Err(Fault { record: 1, at: self.record_start() as u64, flaw: Flaw::NoRecords })
                } else {
                    Ok(())
                }
            } else {
                Err(
                    Fault {
                        record: counted_on(self.records, 1),
                        at: self.record_start() as u64,
                        flaw: match self.length {
                            None => Flaw::TruncatedPrefix(self.prefix@.len() as usize),
                            Some(n) => Flaw::TruncatedPayload(n, self.payload@.len() as usize),
                        },
                    },
                )
            },
    {
        let start = self.offset - (self.prefix.len() + self.payload.len()) as u64;
        if self.prefix.len() == 0 {
            if self.records == 0 {
                return Err(Fault { record: 1, at: start, flaw: Flaw::NoRecords });
            }
            return Ok(());
        }
        let record = if self.records == u64::MAX { u64::MAX } else { self.records + 1 };
        let flaw = match self.length {
            None => Flaw::TruncatedPrefix(self.prefix.len()),
            Some(n) => Flaw::TruncatedPayload(n, self.payload.len()),
        };
        Err(Fault { record, at: start, flaw })
    }
}

/// What one poll may still spend: bytes taken off the reader, calls made on
/// it (one that was interrupted counts), and records handed over.
#[derive(Clone, Copy, Debug, PartialEq, Eq, Structural)]
pub struct Budget {
    /// Bytes the poll may still take.
    pub bytes: usize,
    /// Calls the poll may still make on the reader.
    pub calls: usize,
    /// Records the poll may still hand over.
    pub records: usize,
}

impl Budget {
    /// What a poll starts with.
    pub fn full() -> (budget: Budget)
        ensures
            budget == (Budget {
                bytes: MAX_BYTES_PER_POLL,
                calls: MAX_READS_PER_POLL,
                records: MAX_RECORDS_PER_POLL,
            }),
    {
        Budget { bytes: MAX_BYTES_PER_POLL, calls: MAX_READS_PER_POLL, records: MAX_RECORDS_PER_POLL }
    }

    /// How many bytes the next call on the reader asks for: what the part
    /// being read still wants, and no more than the bytes left. `None` once
    /// the poll has spent its bytes, its calls or its records, which ends the
    /// poll with the file not yet at its end.
    pub fn ask(&self, framing: &Framing) -> (n: Option<usize>)
        requires
            framing.well_formed(),
        ensures
            n == if self.bytes == 0 || self.calls == 0 || self.records == 0 {
                None
            } else if framing.remaining() < self.bytes {
                Some(framing.remaining() as usize)
            } else {
                Some(self.bytes)
            },
            n matches Some(k) ==> 0 < k <= self.bytes,
    {
        if self.bytes == 0 || self.calls == 0 || self.records == 0 {
            None
        } else {
            Some(framing.wanted(self.bytes))
        }
    }

    /// One call made on the reader, which gave back `count` bytes: nought
    /// where it was interrupted.
    pub fn spend(&mut self, count: usize)
        requires
            old(self).calls > 0,
            count <= old(self).bytes,
        ensures
            *final(self) == (Budget {
                bytes: (old(self).bytes - count) as usize,
                calls: (old(self).calls - 1) as usize,
                records: old(self).records,
            }),
    {
        self.bytes = self.bytes - count;
        self.calls = self.calls - 1;
    }

    /// One record handed over.
    pub fn handed(&mut self)
        requires
            old(self).records > 0,
        ensures
            *final(self) == (Budget {
                bytes: old(self).bytes,
                calls: old(self).calls,
                records: (old(self).records - 1) as usize,
            }),
    {
        self.records = self.records - 1;
    }
}

} // verus!
