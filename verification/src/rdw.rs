//! IBM RDW/SDW record de-framing for variable-length mainframe files.
//!
//! Variable-length datasets (`RECFM=VB` / `VBS`) carry no line terminators. Each record is
//! prefixed with a 4-byte Record Descriptor Word, and that descriptor *is* the record boundary:
//!
//! ```text
//! bytes 0..2  record length, big-endian, counting these four bytes
//! byte  2     segment flag (see SegmentFlag)
//! byte  3     reserved, always zero
//! ```
//!
//! Spanned records (`VBS`) split one logical record across several physical segments, which are
//! rejoined here.
//!
//! [`Deframer`] is the de-framing itself: it says how many bytes it wants and takes what was read.
//! [`Records`] runs it over bytes in memory.

use vstd::prelude::*;
use vstd::slice::{slice_subrange, slice_to_vec};
use vstd::string::*;

pub use crate::rdw::handout::{Handout, LogicalRecord};
use crate::text::{decimal, decimal_text, hex_byte, hex_byte_text};

pub mod handout;

verus! {

/// Size of the descriptor prefixing every physical segment.
pub const DESCRIPTOR_LEN: usize = 4;

/// How a physical segment relates to its logical record.
#[derive(Debug, Clone, Copy, PartialEq, Eq, Structural)]
pub enum SegmentFlag {
    /// A whole logical record.
    Complete,
    /// First segment of a spanned record.
    First,
    /// Last segment of a spanned record.
    Last,
    /// Middle segment of a spanned record.
    Middle,
}

impl SegmentFlag {
    /// The byte that stands for this flag.
    pub open spec fn byte(self) -> u8 {
        match self {
            SegmentFlag::Complete => 0x00,
            SegmentFlag::First => 0x01,
            SegmentFlag::Last => 0x02,
            SegmentFlag::Middle => 0x03,
        }
    }

    /// The flag that `byte` stands for, if any.
    pub open spec fn of_byte(byte: u8) -> Option<SegmentFlag> {
        if byte == 0x00 {
            Some(SegmentFlag::Complete)
        } else if byte == 0x01 {
            Some(SegmentFlag::First)
        } else if byte == 0x02 {
            Some(SegmentFlag::Last)
        } else if byte == 0x03 {
            Some(SegmentFlag::Middle)
        } else {
            None
        }
    }

    /// The flag that `byte` stands for, if any.
    pub fn from_byte(byte: u8) -> (flag: Option<Self>)
        ensures
            flag == SegmentFlag::of_byte(byte),
    {
        match byte {
            0x00 => Some(SegmentFlag::Complete),
            0x01 => Some(SegmentFlag::First),
            0x02 => Some(SegmentFlag::Last),
            0x03 => Some(SegmentFlag::Middle),
            _ => None,
        }
    }
}

/// Why de-framing stopped.
#[derive(Debug)]
pub enum Error {
    /// The descriptor at `offset` is not a plausible RDW.
    BadDescriptor { offset: u64, detail: String },
    /// The file ended in the middle of a record.
    Truncated { offset: u64, expected: usize, got: usize },
    /// A spanned record was left unterminated at end of file.
    UnterminatedSegment { offset: u64 },
    /// Reading or writing failed, with the message of the failure.
    Io(String),
}

/// What an [`Error`] says.
pub enum Fault {
    BadDescriptor { offset: nat, detail: Seq<char> },
    Truncated { offset: nat, expected: nat, got: nat },
    UnterminatedSegment { offset: nat },
    Io(Seq<char>),
}

impl View for Error {
    type V = Fault;

    open spec fn view(&self) -> Fault {
        match self {
            Error::BadDescriptor { offset, detail } => Fault::BadDescriptor {
                offset: *offset as nat,
                detail: detail@,
            },
            Error::Truncated { offset, expected, got } => Fault::Truncated {
                offset: *offset as nat,
                expected: *expected as nat,
                got: *got as nat,
            },
            Error::UnterminatedSegment { offset } => Fault::UnterminatedSegment {
                offset: *offset as nat,
            },
            Error::Io(message) => Fault::Io(message@),
        }
    }
}

impl Fault {
    /// The message shown for this fault.
    pub open spec fn message(self) -> Seq<char> {
        match self {
            Fault::BadDescriptor { offset, detail } => "invalid record descriptor at byte "@
                + decimal(offset) + ": "@ + detail
                + ". The file may not be RDW-framed; try again without --rdw."@,
            Fault::Truncated { offset, expected, got } => "record at byte "@ + decimal(offset)
                + " claims "@ + decimal(expected) + " bytes but only "@ + decimal(got)
                + " remain"@,
            Fault::UnterminatedSegment { offset } =>
            "file ends inside a spanned record starting at byte "@ + decimal(offset),
            Fault::Io(message) => message,
        }
    }
}

impl Error {
    /// The message shown for this error.
    pub fn message(&self) -> (text: String)
        ensures
            text@ == self@.message(),
    {
        let mut text = String::new();
        match self {
            Error::BadDescriptor { offset, detail } => {
                text.append("invalid record descriptor at byte ");
                text.append(decimal_text(*offset).as_str());
                text.append(": ");
                text.append(detail.as_str());
                text.append(". The file may not be RDW-framed; try again without --rdw.");
            },
            Error::Truncated { offset, expected, got } => {
                text.append("record at byte ");
                text.append(decimal_text(*offset).as_str());
                text.append(" claims ");
                text.append(decimal_text(*expected as u64).as_str());
                text.append(" bytes but only ");
                text.append(decimal_text(*got as u64).as_str());
                text.append(" remain");
            },
            Error::UnterminatedSegment { offset } => {
                text.append("file ends inside a spanned record starting at byte ");
                text.append(decimal_text(*offset).as_str());
            },
            Error::Io(message) => {
                text.append(message.as_str());
            },
        }
        assert(text@ =~= self@.message());
        text
    }
}

// ---------------------------------------------------------------------------------------------
// Descriptors
// ---------------------------------------------------------------------------------------------
/// The length that a descriptor claims, counting the descriptor.
pub open spec fn claimed_len(descriptor: Seq<u8>) -> nat {
    (descriptor[0] * 256 + descriptor[1]) as nat
}

/// What is wrong with a descriptor, or `None` if it is plausible.
pub open spec fn descriptor_fault(descriptor: Seq<u8>) -> Option<Seq<char>> {
    if SegmentFlag::of_byte(descriptor[2]) is None {
        Some("unknown segment flag "@ + hex_byte(descriptor[2]))
    } else if descriptor[3] != 0 {
        Some("reserved byte is "@ + hex_byte(descriptor[3]) + ", expected 0x00"@)
    } else if claimed_len(descriptor) < DESCRIPTOR_LEN {
        Some(
            "length "@ + decimal(claimed_len(descriptor))
                + " is smaller than the 4-byte descriptor"@,
        )
    } else {
        None
    }
}

/// A descriptor whose payload is still to be read.
#[derive(Debug, Clone, Copy, PartialEq, Eq, Structural)]
pub struct Descriptor {
    flag: SegmentFlag,
    payload_len: usize,
    /// Where the descriptor itself starts.
    at: u64,
}

/// Reads a descriptor that starts at byte `at` of the file.
fn read_descriptor(bytes: &[u8], at: u64) -> (result: Result<Descriptor, String>)
    requires
        bytes@.len() == DESCRIPTOR_LEN,
    ensures
        match result {
            Ok(d) => {
                &&& descriptor_fault(bytes@) is None
                &&& Some(d.flag) == SegmentFlag::of_byte(bytes@[2])
                &&& d.payload_len == claimed_len(bytes@) - DESCRIPTOR_LEN
                &&& d.at == at
            },
            Err(detail) => descriptor_fault(bytes@) == Some(detail@),
        },
{
    let claimed: usize = bytes[0] as usize * 256 + bytes[1] as usize;
    match SegmentFlag::from_byte(bytes[2]) {
        None => {
            let mut detail = "unknown segment flag ".to_owned();
            detail.append(hex_byte_text(bytes[2]).as_str());
            Err(detail)
        },
        Some(flag) => {
            if bytes[3] != 0 {
                let mut detail = "reserved byte is ".to_owned();
                detail.append(hex_byte_text(bytes[3]).as_str());
                detail.append(", expected 0x00");
                return Err(detail);
            }
            if claimed < DESCRIPTOR_LEN {
                let mut detail = "length ".to_owned();
                detail.append(decimal_text(claimed as u64).as_str());
                detail.append(" is smaller than the 4-byte descriptor");
                return Err(detail);
            }
            Ok(Descriptor { flag, payload_len: claimed - DESCRIPTOR_LEN, at })
        },
    }
}

// ---------------------------------------------------------------------------------------------
// The de-framing machine
// ---------------------------------------------------------------------------------------------
/// De-frames a file that is handed over piece by piece, rejoining spanned segments.
///
/// Ask [`Deframer::wanted`] how many bytes to read, read as many as there are, and hand them to
/// [`Deframer::supply`]. Fewer bytes than wanted mean that the file has ended.
#[derive(Debug)]
pub struct Deframer {
    offset: u64,
    /// Accumulated segments of a spanned record in progress.
    pending: Vec<u8>,
    /// Where the spanned record in progress starts, if there is one. Its segments may all be
    /// empty, so what is accumulated does not tell.
    span: Option<u64>,
    awaiting: Option<Descriptor>,
    finished: bool,
}

/// What a [`Deframer`] has seen so far.
pub struct Progress {
    /// Bytes read in full: whole descriptors and whole payloads.
    pub offset: nat,
    /// Accumulated segments of a spanned record in progress.
    pub pending: Seq<u8>,
    /// Where the spanned record in progress starts, if there is one.
    pub span: Option<nat>,
    /// A descriptor read whose payload is still to come: its flag, its payload's length, and where
    /// it starts.
    pub awaiting: Option<(SegmentFlag, nat, nat)>,
    /// Whether the end of the file has been seen.
    pub finished: bool,
}

/// What handing bytes over led to.
#[derive(Debug)]
pub enum Step {
    /// More bytes are wanted.
    Read,
    /// A logical record is complete.
    Record(Vec<u8>),
    /// The file has ended.
    End,
}

/// What a [`Step`] says.
pub enum Move {
    Read,
    Record(Seq<u8>),
    End,
}

impl View for Step {
    type V = Move;

    open spec fn view(&self) -> Move {
        match self {
            Step::Read => Move::Read,
            Step::Record(record) => Move::Record(record@),
            Step::End => Move::End,
        }
    }
}

/// What a step, or the error in its place, says.
pub open spec fn step_view(result: Result<Step, Error>) -> Result<Move, Fault> {
    match result {
        Ok(step) => Ok(step@),
        Err(error) => Err(error@),
    }
}

impl Progress {
    /// Nothing read yet.
    pub open spec fn start() -> Progress {
        Progress {
            offset: 0,
            pending: Seq::empty(),
            span: None,
            awaiting: None,
            finished: false,
        }
    }

    /// What is awaited has at least one byte, and nothing is accumulated outside a spanned record.
    pub open spec fn well_formed(self) -> bool {
        &&& self.awaiting matches Some((_, payload_len, _)) ==> 0 < payload_len
        &&& self.span is None ==> self.pending.len() == 0
    }

    /// How many bytes are wanted next; none once the file has ended.
    pub open spec fn wanted(self) -> nat {
        if self.finished {
            0
        } else {
            match self.awaiting {
                Some((_, payload_len, _)) => payload_len,
                None => DESCRIPTOR_LEN as nat,
            }
        }
    }

    /// A whole segment has been read: a complete record, or one more part of a spanned one. A
    /// middle part that nothing precedes starts a spanned record itself.
    pub open spec fn with_segment(self, flag: SegmentFlag, at: nat, payload: Seq<u8>) -> (
        Result<Move, Fault>,
        Progress,
    ) {
        match flag {
            SegmentFlag::Complete => if self.span is None {
                (Ok(Move::Record(payload)), self)
            } else {
                (
                    Err(
                        Fault::BadDescriptor {
                            offset: at,
                            detail: "complete record found inside a spanned record"@,
                        },
                    ),
                    self,
                )
            },
            SegmentFlag::First => (
                Ok(Move::Read),
                Progress { pending: payload, span: Some(at), ..self },
            ),
            SegmentFlag::Middle => (
                Ok(Move::Read),
                Progress {
                    pending: self.pending + payload,
                    span: if self.span is None {
                        Some(at)
                    } else {
                        self.span
                    },
                    ..self
                },
            ),
            SegmentFlag::Last => (
                Ok(Move::Record(self.pending + payload)),
                Progress { pending: Seq::empty(), span: None, ..self },
            ),
        }
    }

    /// `bytes` have been read where a descriptor was wanted.
    pub open spec fn with_descriptor(self, bytes: Seq<u8>) -> (Result<Move, Fault>, Progress) {
        let read = Progress { offset: self.offset + DESCRIPTOR_LEN as nat, ..self };
        if bytes.len() == 0 {
            (
                match self.span {
                    Some(at) => Err(Fault::UnterminatedSegment { offset: at }),
                    None => Ok(Move::End),
                },
                Progress { finished: true, ..self },
            )
        } else if bytes.len() < DESCRIPTOR_LEN {
            (
                Err(
                    Fault::Truncated {
                        offset: self.offset,
                        expected: DESCRIPTOR_LEN as nat,
                        got: bytes.len(),
                    },
                ),
                self,
            )
        } else {
            match descriptor_fault(bytes) {
                Some(detail) => (Err(Fault::BadDescriptor { offset: self.offset, detail }), read),
                None => {
                    let flag = SegmentFlag::of_byte(bytes[2])->0;
                    let payload_len = (claimed_len(bytes) - DESCRIPTOR_LEN) as nat;
                    if payload_len == 0 {
                        read.with_segment(flag, self.offset, Seq::empty())
                    } else {
                        (
                            Ok(Move::Read),
                            Progress { awaiting: Some((flag, payload_len, self.offset)), ..read },
                        )
                    }
                },
            }
        }
    }

    /// `bytes` have been read where a payload was wanted.
    pub open spec fn with_payload(
        self,
        flag: SegmentFlag,
        payload_len: nat,
        at: nat,
        bytes: Seq<u8>,
    ) -> (Result<Move, Fault>, Progress) {
        let rest = Progress { awaiting: None, ..self };
        if bytes.len() < payload_len {
            (
                Err(
                    Fault::Truncated {
                        offset: self.offset,
                        expected: payload_len,
                        got: bytes.len(),
                    },
                ),
                rest,
            )
        } else {
            Progress { offset: self.offset + payload_len, ..rest }.with_segment(flag, at, bytes)
        }
    }

    /// `bytes` have been read.
    pub open spec fn with(self, bytes: Seq<u8>) -> (Result<Move, Fault>, Progress) {
        match self.awaiting {
            Some((flag, payload_len, at)) => self.with_payload(flag, payload_len, at, bytes),
            None => self.with_descriptor(bytes),
        }
    }
}

impl View for Deframer {
    type V = Progress;

    closed spec fn view(&self) -> Progress {
        Progress {
            offset: self.offset as nat,
            pending: self.pending@,
            span: match self.span {
                Some(at) => Some(at as nat),
                None => None,
            },
            awaiting: match self.awaiting {
                Some(d) => Some((d.flag, d.payload_len as nat, d.at as nat)),
                None => None,
            },
            finished: self.finished,
        }
    }
}

impl Deframer {
    /// A payload that is waited for has at least one byte, and nothing is accumulated outside a
    /// spanned record.
    pub open spec fn well_formed(self) -> bool {
        self@.well_formed()
    }

    /// A machine at the start of a file.
    pub fn new() -> (deframer: Self)
        ensures
            deframer.well_formed(),
            deframer@ == Progress::start(),
    {
        let deframer = Deframer {
            offset: 0,
            pending: Vec::new(),
            span: None,
            awaiting: None,
            finished: false,
        };
        assert(deframer@.pending =~= Seq::empty());
        deframer
    }

    /// Bytes read in full: whole descriptors and whole payloads.
    pub fn offset(&self) -> (offset: u64)
        ensures
            offset as nat == self@.offset,
    {
        self.offset
    }

    /// How many bytes to read next; none once the file has ended.
    pub fn wanted(&self) -> (len: usize)
        requires
            self.well_formed(),
        ensures
            len as nat == self@.wanted(),
            len == 0 <==> self@.finished,
    {
        if self.finished {
            0
        } else {
            match self.awaiting {
                Some(d) => d.payload_len,
                None => DESCRIPTOR_LEN,
            }
        }
    }

    /// Takes what was read: as many bytes as were wanted, or fewer where the file ended.
    pub fn supply(&mut self, bytes: &[u8]) -> (result: Result<Step, Error>)
        requires
            old(self).well_formed(),
            !old(self)@.finished,
            bytes@.len() <= old(self)@.wanted(),
            old(self)@.offset + bytes@.len() <= u64::MAX,
        ensures
            final(self).well_formed(),
            (step_view(result), final(self)@) == old(self)@.with(bytes@),
    {
        match self.awaiting {
            Some(d) => {
                self.awaiting = None;
                if bytes.len() < d.payload_len {
                    return Err(
                        Error::Truncated {
                            offset: self.offset,
                            expected: d.payload_len,
                            got: bytes.len(),
                        },
                    );
                }
                self.offset = self.offset + d.payload_len as u64;
                self.end_segment(d, bytes)
            },
            None => {
                if bytes.len() == 0 {
                    self.finished = true;
                    return match self.span {
                        Some(at) => Err(Error::UnterminatedSegment { offset: at }),
                        None => Ok(Step::End),
                    };
                }
                if bytes.len() < DESCRIPTOR_LEN {
                    return Err(
                        Error::Truncated {
                            offset: self.offset,
                            expected: DESCRIPTOR_LEN,
                            got: bytes.len(),
                        },
                    );
                }
                let at = self.offset;
                self.offset = at + DESCRIPTOR_LEN as u64;
                match read_descriptor(bytes, at) {
                    Err(detail) => Err(Error::BadDescriptor { offset: at, detail }),
                    Ok(d) => {
                        if d.payload_len == 0 {
                            let none: [u8; 0] = [];
                            let empty: &[u8] = none.as_slice();
                            assert(empty@ =~= Seq::<u8>::empty());
                            self.end_segment(d, empty)
                        } else {
                            self.awaiting = Some(d);
                            Ok(Step::Read)
                        }
                    },
                }
            },
        }
    }

    /// A whole segment has been read.
    fn end_segment(&mut self, d: Descriptor, payload: &[u8]) -> (result: Result<Step, Error>)
        requires
            old(self).awaiting is None,
        ensures
            final(self).awaiting is None,
            (step_view(result), final(self)@) == old(self)@.with_segment(
                d.flag,
                d.at as nat,
                payload@,
            ),
    {
        match d.flag {
            SegmentFlag::Complete => {
                if self.span.is_none() {
                    Ok(Step::Record(slice_to_vec(payload)))
                } else {
                    // A complete record arriving mid-span means the chain is inconsistent; it is
                    // reported rather than the partial record being silently discarded.
                    Err(
                        Error::BadDescriptor {
                            offset: d.at,
                            detail: "complete record found inside a spanned record".to_owned(),
                        },
                    )
                }
            },
            SegmentFlag::First => {
                self.pending = slice_to_vec(payload);
                self.span = Some(d.at);
                Ok(Step::Read)
            },
            SegmentFlag::Middle => {
                self.pending.extend_from_slice(payload);
                if self.span.is_none() {
                    self.span = Some(d.at);
                }
                assert(self.pending@ =~= old(self).pending@ + payload@);
                Ok(Step::Read)
            },
            SegmentFlag::Last => {
                let mut record: Vec<u8> = Vec::new();
                record.append(&mut self.pending);
                self.span = None;
                record.extend_from_slice(payload);
                assert(record@ =~= old(self).pending@ + payload@);
                Ok(Step::Record(record))
            },
        }
    }
}

// ---------------------------------------------------------------------------------------------
// Records in memory
// ---------------------------------------------------------------------------------------------
/// What asking for the next record leads to.
pub struct Outcome {
    /// The record, `None` at the end of the file, or what is wrong.
    pub result: Result<Option<Seq<u8>>, Fault>,
    /// Where de-framing stands afterwards.
    pub progress: Progress,
    /// What is left to read.
    pub rest: Seq<u8>,
}

impl Progress {
    /// The next record of a file of which `input` is left to read: reads are served from `input`,
    /// short where it ends, until one of them completes a record, fails, or finds the end.
    pub open spec fn next(self, input: Seq<u8>) -> Outcome
        decreases input.len(),
    {
        if self.finished {
            Outcome { result: Ok(None), progress: self, rest: input }
        } else {
            let len = if self.wanted() <= input.len() {
                self.wanted() as int
            } else {
                input.len() as int
            };
            let (step, progress) = self.with(input.take(len));
            let rest = input.skip(len);
            match step {
                Err(fault) => Outcome { result: Err(fault), progress, rest },
                Ok(Move::Record(record)) => Outcome { result: Ok(Some(record)), progress, rest },
                Ok(Move::End) => Outcome { result: Ok(None), progress, rest },
                Ok(Move::Read) => if rest.len() < input.len() {
                    progress.next(rest)
                } else {
                    Outcome { result: Ok(None), progress, rest }
                },
            }
        }
    }
}

/// What a record, or the error in its place, says.
pub open spec fn record_view(result: Result<Option<Vec<u8>>, Error>) -> Result<
    Option<Seq<u8>>,
    Fault,
> {
    match result {
        Ok(Some(record)) => Ok(Some(record@)),
        Ok(None) => Ok(None),
        Err(error) => Err(error@),
    }
}

/// Streams logical records out of RDW-framed bytes, rejoining spanned segments.
#[derive(Debug)]
pub struct Records<'a> {
    input: &'a [u8],
    position: usize,
    deframer: Deframer,
}

impl<'a> Records<'a> {
    /// Where de-framing stands.
    pub closed spec fn progress(self) -> Progress {
        self.deframer@
    }

    /// What is left to read.
    pub closed spec fn rest(self) -> Seq<u8> {
        self.input@.skip(self.position as int)
    }

    /// No read is under way, and no more has been counted than was read.
    pub closed spec fn well_formed(self) -> bool {
        &&& self.position <= self.input@.len()
        &&& self.deframer.well_formed()
        &&& self.deframer@.awaiting is None
        &&& self.deframer@.offset <= self.position
    }

    /// The records of a file.
    pub fn new(input: &'a [u8]) -> (records: Self)
        ensures
            records.well_formed(),
            records.progress() == Progress::start(),
            records.rest() == input@,
    {
        let records = Records { input, position: 0, deframer: Deframer::new() };
        assert(records.rest() =~= input@);
        records
    }

    /// Bytes read in full: whole descriptors and whole payloads.
    pub fn offset(&self) -> (offset: u64)
        ensures
            offset as nat == self.progress().offset,
    {
        self.deframer.offset()
    }

    /// Next logical record, or `None` at end of file.
    pub fn next(&mut self) -> (result: Result<Option<Vec<u8>>, Error>)
        requires
            old(self).well_formed(),
        ensures
            final(self).well_formed(),
            record_view(result) == old(self).progress().next(old(self).rest()).result,
            final(self).progress() == old(self).progress().next(old(self).rest()).progress,
            final(self).rest() == old(self).progress().next(old(self).rest()).rest,
    {
        let ghost outcome = self.progress().next(self.rest());
        loop
            invariant
                self.position <= self.input@.len(),
                self.deframer.well_formed(),
                self.deframer@.offset <= self.position,
                self.deframer@.finished ==> self.deframer@.awaiting is None,
                outcome == self.progress().next(self.rest()),
                outcome == old(self).progress().next(old(self).rest()),
            decreases self.input@.len() - self.position,
        {
            let wanted = self.deframer.wanted();
            if wanted == 0 {
                return Ok(None);
            }
            let available: usize = self.input.len() - self.position;
            let len: usize = if wanted <= available {
                wanted
            } else {
                available
            };
            let ghost before = *self;
            let chunk = slice_subrange(self.input, self.position, self.position + len);
            self.position = self.position + len;
            proof {
                assert(chunk@ == before.rest().take(len as int));
                assert(self.rest() == before.rest().skip(len as int));
            }
            match self.deframer.supply(chunk) {
                Err(error) => {
                    return Err(error);
                },
                Ok(Step::Record(record)) => {
                    return Ok(Some(record));
                },
                Ok(Step::End) => {
                    return Ok(None);
                },
                Ok(Step::Read) => {},
            }
        }
    }
}

/// The end is final: once there is no further record, or the file has been found to end inside a
/// spanned record, asking again gives no record either and changes nothing.
pub proof fn lemma_end_is_final(progress: Progress, input: Seq<u8>)
    requires
        progress.well_formed(),
    ensures
        ({
            let end = progress.next(input);
            (end.result == Ok::<_, Fault>(None::<Seq<u8>>) || (end.result is Err
                && end.result->Err_0 is UnterminatedSegment)) ==> {
                &&& end.progress.finished
                &&& end.progress.next(end.rest) == (Outcome {
                    result: Ok(None),
                    progress: end.progress,
                    rest: end.rest,
                })
            }
        }),
    decreases input.len(),
{
    if !progress.finished {
        let len = if progress.wanted() <= input.len() {
            progress.wanted() as int
        } else {
            input.len() as int
        };
        let (step, after) = progress.with(input.take(len));
        let rest = input.skip(len);
        if step matches Ok(Move::Read) && rest.len() < input.len() {
            lemma_end_is_final(after, rest);
        }
    }
}

/// Between calls no read is under way, and once [`Records::next`] has said that there is no further
/// record it says so again, with nothing more read.
pub proof fn lemma_records_stay_at_end(records: Records<'_>)
    requires
        records.well_formed(),
    ensures
        records.progress().well_formed(),
        records.progress().awaiting is None,
        ({
            let end = records.progress().next(records.rest());
            end.result == Ok::<_, Fault>(None::<Seq<u8>>) ==> end.progress.next(end.rest)
                == end
        }),
{
    lemma_end_is_final(records.progress(), records.rest());
}

// ---------------------------------------------------------------------------------------------
// Counting
// ---------------------------------------------------------------------------------------------
/// Counts describing what a de-framing pass saw, for a summary line.
#[derive(Debug, Clone, Copy, PartialEq, Eq, Structural)]
pub struct Stats {
    pub logical_records: u64,
    pub physical_segments: u64,
    pub spanned_records: u64,
    pub payload_bytes: u64,
}

/// What [`Stats`] say.
pub struct Counts {
    pub logical_records: nat,
    pub physical_segments: nat,
    pub spanned_records: nat,
    pub payload_bytes: nat,
}

impl View for Stats {
    type V = Counts;

    open spec fn view(&self) -> Counts {
        Counts {
            logical_records: self.logical_records as nat,
            physical_segments: self.physical_segments as nat,
            spanned_records: self.spanned_records as nat,
            payload_bytes: self.payload_bytes as nat,
        }
    }
}

impl Default for Stats {
    fn default() -> (stats: Self)
        ensures
            stats@ == Counts::zero(),
    {
        Stats { logical_records: 0, physical_segments: 0, spanned_records: 0, payload_bytes: 0 }
    }
}

/// How many segments a record of `len` bytes took, going by how far the reader advanced: a record
/// spanning two segments consumed two descriptors.
pub open spec fn segments(consumed: nat, len: nat) -> nat {
    if consumed >= len {
        ((consumed - len) / DESCRIPTOR_LEN as int) as nat
    } else {
        0
    }
}

impl Counts {
    /// Nothing counted.
    pub open spec fn zero() -> Counts {
        Counts { logical_records: 0, physical_segments: 0, spanned_records: 0, payload_bytes: 0 }
    }

    /// One more record, of `len` bytes, for which the reader advanced by `consumed`.
    pub open spec fn plus(self, consumed: nat, len: nat) -> Counts {
        let segments = segments(consumed, len);
        Counts {
            logical_records: self.logical_records + 1,
            physical_segments: self.physical_segments + if segments > 1 {
                segments
            } else {
                1
            },
            spanned_records: self.spanned_records + if segments > 1 {
                1nat
            } else {
                0
            },
            payload_bytes: self.payload_bytes + len,
        }
    }

    /// All of `records`, each with how far the reader advanced for it.
    pub open spec fn of(records: Seq<(Seq<u8>, nat)>) -> Counts
        decreases records.len(),
    {
        if records.len() == 0 {
            Counts::zero()
        } else {
            Counts::of(records.drop_last()).plus(records.last().1, records.last().0.len())
        }
    }
}

/// Counts records as they come.
#[derive(Debug)]
pub struct Tally {
    stats: Stats,
    previous_offset: u64,
}

impl Tally {
    /// What has been counted.
    pub closed spec fn counts(self) -> Counts {
        self.stats@
    }

    /// Where the last counted record ended.
    pub closed spec fn end(self) -> nat {
        self.previous_offset as nat
    }

    /// Every record took a descriptor and its payload, so no count outgrows the offset.
    pub closed spec fn well_formed(self) -> bool {
        &&& 4 * self.stats.logical_records <= self.previous_offset
        &&& 4 * self.stats.physical_segments <= self.previous_offset
        &&& 4 * self.stats.spanned_records <= self.previous_offset
        &&& self.stats.payload_bytes <= self.previous_offset
    }

    /// Nothing counted yet.
    pub fn new() -> (tally: Self)
        ensures
            tally.well_formed(),
            tally.counts() == Counts::zero(),
            tally.end() == 0,
    {
        Tally { stats: Stats::default(), previous_offset: 0 }
    }

    /// What has been counted.
    pub fn stats(&self) -> (stats: Stats)
        ensures
            stats@ == self.counts(),
    {
        self.stats
    }

    /// Counts a record of `len` bytes after which the reader stands at `offset`.
    pub fn count(&mut self, offset: u64, len: usize)
        requires
            old(self).well_formed(),
            old(self).end() + DESCRIPTOR_LEN + len <= offset,
        ensures
            final(self).well_formed(),
            final(self).end() == offset,
            final(self).counts() == old(self).counts().plus(
                (offset - old(self).end()) as nat,
                len as nat,
            ),
    {
        let consumed: u64 = offset - self.previous_offset;
        let segments: u64 = (consumed - len as u64) / DESCRIPTOR_LEN as u64;
        assert(4 * segments <= consumed - len) by (nonlinear_arith)
            requires
                segments == (consumed - len) / (DESCRIPTOR_LEN as int),
        ;
        self.stats.physical_segments = self.stats.physical_segments + if segments > 1 {
            segments
        } else {
            1
        };
        if segments > 1 {
            self.stats.spanned_records = self.stats.spanned_records + 1;
        }
        self.stats.logical_records = self.stats.logical_records + 1;
        self.stats.payload_bytes = self.stats.payload_bytes + len as u64;
        self.previous_offset = offset;
    }
}

// ---------------------------------------------------------------------------------------------
// Walking a file
// ---------------------------------------------------------------------------------------------
/// Everything a walk over a file comes by.
pub struct Walk {
    /// The records, each with how far the reader advanced for it.
    pub records: Seq<(Seq<u8>, nat)>,
    /// What stopped the walk before the end of the file, if anything did.
    pub fault: Option<Fault>,
}

impl Progress {
    /// All the records up to the end of the file or the first fault.
    pub open spec fn walk(self, input: Seq<u8>) -> Walk
        decreases input.len(),
    {
        let outcome = self.next(input);
        match outcome.result {
            Err(fault) => Walk { records: Seq::empty(), fault: Some(fault) },
            Ok(None) => Walk { records: Seq::empty(), fault: None },
            Ok(Some(record)) => if outcome.rest.len() < input.len() {
                let later = outcome.progress.walk(outcome.rest);
                let advanced = (outcome.progress.offset - self.offset) as nat;
                Walk { records: seq![(record, advanced)] + later.records, fault: later.fault }
            } else {
                Walk { records: Seq::empty(), fault: None }
            },
        }
    }
}

/// A record takes its own bytes and at least one descriptor, less what was pending before.
pub proof fn lemma_next_advances(progress: Progress, input: Seq<u8>)
    requires
        progress.well_formed(),
        progress.finished ==> progress.awaiting is None,
    ensures
        ({
            let o = progress.next(input);
            &&& o.progress.offset >= progress.offset
            &&& o.rest.len() + (o.progress.offset - progress.offset) <= input.len()
            &&& o.progress.awaiting is None
            &&& (o.result matches Ok(Some(record)) ==> {
                &&& o.progress.span is None
                &&& o.progress.pending.len() == 0
                &&& !o.progress.finished
                &&& record.len() + (if progress.awaiting is None {
                    DESCRIPTOR_LEN as int
                } else {
                    0
                }) <= o.progress.offset - progress.offset + progress.pending.len()
                &&& progress.awaiting is None ==> o.progress.offset - progress.offset
                    >= DESCRIPTOR_LEN
            })
        }),
    decreases input.len(),
{
    if !progress.finished {
        let len = if progress.wanted() <= input.len() {
            progress.wanted() as int
        } else {
            input.len() as int
        };
        let (step, after) = progress.with(input.take(len));
        let rest = input.skip(len);
        if step matches Ok(Move::Read) && rest.len() < input.len() {
            lemma_next_advances(after, rest);
        }
    }
}

/// Whether `emit` can have taken record number `number`.
pub open spec fn accepted<F: FnMut(LogicalRecord) -> Result<(), Error>>(
    emit: F,
    number: int,
    record: Seq<u8>,
) -> bool {
    exists|taken: LogicalRecord, result: Result<(), Error>|
        taken.place() == number && taken@ == record && result is Ok
            && #[trigger] call_ensures(emit, (taken,), result)
}

/// Whether `emit` can have stopped at record number `number` with `error`.
pub open spec fn refused<F: FnMut(LogicalRecord) -> Result<(), Error>>(
    emit: F,
    number: int,
    record: Seq<u8>,
    error: Error,
) -> bool {
    exists|taken: LogicalRecord|
        taken.place() == number && taken@ == record && #[trigger] call_ensures(
            emit,
            (taken,),
            Err::<(), Error>(error),
        )
}

/// Walk every record, invoking `emit` per logical record, and return counts.
///
/// The walk stops at the first fault in the file or the first error from `emit`. Every record up to
/// there is handed to `emit` under its own number, and nothing else is: `emit` need not be ready
/// for anything but a record of the file, and for none before all those in front of it have been
/// taken. A [`Handout`] sees to it that it is handed none of them twice.
pub fn for_each_record<F>(input: &[u8], emit: F) -> (result: Result<Stats, Error>) where
    F: FnMut(LogicalRecord) -> Result<(), Error>,

    requires
        ({
            let records = Progress::start().walk(input@).records;
            forall|record: LogicalRecord|
                (0 <= record.place() < records.len() && record@ == records[record.place()].0
                    && forall|j: int|
                    0 <= j < record.place() ==> accepted(emit, j, (#[trigger] records[j]).0))
                    ==> #[trigger] call_requires(emit, (record,))
        }),
    ensures
        ({
            let walk = Progress::start().walk(input@);
            let all_accepted = forall|i: int|
                0 <= i < walk.records.len() ==> accepted(emit, i, (#[trigger] walk.records[i]).0);
            match result {
                Ok(stats) => walk.fault is None && stats@ == Counts::of(walk.records)
                    && all_accepted,
                Err(error) => {
                    ||| walk.fault == Some(error@) && all_accepted
                    ||| exists|k: int|
                        0 <= k < walk.records.len() && refused(
                            emit,
                            k,
                            (#[trigger] walk.records[k]).0,
                            error,
                        ) && forall|i: int|
                            0 <= i < k ==> accepted(emit, i, (#[trigger] walk.records[i]).0)
                },
            }
        }),
{
    let ghost walk = Progress::start().walk(input@);
    let mut handout = Handout::new(emit);
    let mut records = Records::new(input);
    let mut tally = Tally::new();
    let ghost mut done: Seq<(Seq<u8>, nat)> = Seq::empty();
    proof {
        assert(done + walk.records == walk.records);
    }
    loop
        invariant
            handout.emit() == emit,
            handout.handed() == done.len(),
            walk == Progress::start().walk(input@),
            forall|record: LogicalRecord|
                (0 <= record.place() < walk.records.len() && record@
                    == walk.records[record.place()].0 && forall|j: int|
                    0 <= j < record.place() ==> accepted(emit, j, (#[trigger] walk.records[j]).0))
                    ==> #[trigger] call_requires(emit, (record,)),
            records.well_formed(),
            records.progress().well_formed(),
            records.progress().awaiting is None,
            !records.progress().finished,
            records.progress().span is None,
            records.progress().pending.len() == 0,
            walk.records == done + records.progress().walk(records.rest()).records,
            walk.fault == records.progress().walk(records.rest()).fault,
            tally.well_formed(),
            tally.end() == records.progress().offset,
            tally.counts() == Counts::of(done),
            tally.counts().logical_records == done.len(),
            forall|i: int| 0 <= i < done.len() ==> accepted(emit, i, (#[trigger] done[i]).0),
        decreases records.rest().len(),
    {
        let ghost progress = records.progress();
        let ghost rest = records.rest();
        proof {
            lemma_next_advances(progress, rest);
        }
        match records.next() {
            Err(error) => {
                assert(walk.records == done);
                return Err(error);
            },
            Ok(None) => {
                assert(walk.records == done);
                return Ok(tally.stats());
            },
            Ok(Some(record)) => {
                let ghost bytes = record@;
                let ghost entry = (bytes, (records.progress().offset - progress.offset) as nat);
                let ghost later = records.progress().walk(records.rest());
                proof {
                    assert(done + (seq![entry] + later.records) == done.push(entry) + later.records);
                    assert(walk.records[done.len() as int] == entry);
                    assert(done.push(entry).drop_last() == done);
                    assert forall|i: int| 0 <= i < done.len() implies accepted(
                        emit,
                        i,
                        (#[trigger] walk.records[i]).0,
                    ) by {
                        assert(walk.records[i] == done[i]);
                    }
                }
                tally.count(records.offset(), record.len());
                let taken = handout.record(record);
                match handout.hand(taken) {
                    Ok(()) => {},
                    Err(error) => {
                        assert(refused(emit, done.len() as int, bytes, error));
                        return Err(error);
                    },
                }
                proof {
                    assert(accepted(emit, done.len() as int, bytes));
                    done = done.push(entry);
                }
            },
        }
    }
}

/// A record counts as taken only where the callback answered well to that very record, under its
/// number and with its bytes, and as refused only where it answered so with the error.
pub proof fn lemma_accepted_was_handed<F: FnMut(LogicalRecord) -> Result<(), Error>>(
    emit: F,
    number: int,
    record: Seq<u8>,
    error: Error,
)
    ensures
        accepted(emit, number, record) <==> exists|
            taken: LogicalRecord,
            result: Result<(), Error>,
        |
            taken.place() == number && taken@ == record && result is Ok
                && #[trigger] call_ensures(emit, (taken,), result),
        refused(emit, number, record, error) <==> exists|taken: LogicalRecord|
            taken.place() == number && taken@ == record && #[trigger] call_ensures(
                emit,
                (taken,),
                Err::<(), Error>(error),
            ),
{
}

// ---------------------------------------------------------------------------------------------
// Framing
// ---------------------------------------------------------------------------------------------
/// The longest payload one segment can carry: its length field counts the descriptor too.
pub const MAX_PAYLOAD_LEN: usize = 65_531;

/// One segment: a descriptor and the payload it announces.
pub open spec fn segment(flag: SegmentFlag, payload: Seq<u8>) -> Seq<u8> {
    let len = payload.len() + DESCRIPTOR_LEN;
    seq![(len / 256) as u8, (len % 256) as u8, flag.byte(), 0u8] + payload
}

/// The middle and last segments of a spanned record.
pub open spec fn continuation(parts: Seq<Seq<u8>>) -> Seq<u8>
    decreases parts.len(),
{
    if parts.len() == 0 {
        Seq::empty()
    } else if parts.len() == 1 {
        segment(SegmentFlag::Last, parts[0])
    } else {
        segment(SegmentFlag::Middle, parts[0]) + continuation(parts.drop_first())
    }
}

/// A record written as one segment per part.
pub open spec fn framed(parts: Seq<Seq<u8>>) -> Seq<u8> {
    if parts.len() == 1 {
        segment(SegmentFlag::Complete, parts[0])
    } else {
        segment(SegmentFlag::First, parts[0]) + continuation(parts.drop_first())
    }
}

/// A file of records, each written as one segment per part.
pub open spec fn framed_file(records: Seq<Seq<Seq<u8>>>) -> Seq<u8>
    decreases records.len(),
{
    if records.len() == 0 {
        Seq::empty()
    } else {
        framed(records[0]) + framed_file(records.drop_first())
    }
}

/// Parts that fit their segments.
pub open spec fn parts_fit(parts: Seq<Seq<u8>>) -> bool {
    parts.len() > 0 && forall|i: int|
        0 <= i < parts.len() ==> (#[trigger] parts[i]).len() <= MAX_PAYLOAD_LEN
}

/// What a file of records comes to.
pub open spec fn file_counts(records: Seq<Seq<Seq<u8>>>) -> Counts
    decreases records.len(),
{
    if records.len() == 0 {
        Counts::zero()
    } else {
        let before = file_counts(records.drop_last());
        let parts = records.last();
        Counts {
            logical_records: before.logical_records + 1,
            physical_segments: before.physical_segments + parts.len(),
            spanned_records: before.spanned_records + if parts.len() > 1 {
                1nat
            } else {
                0
            },
            payload_bytes: before.payload_bytes + parts.flatten().len(),
        }
    }
}

/// Reading one segment and going on.
proof fn lemma_reads_segment(
    progress: Progress,
    flag: SegmentFlag,
    payload: Seq<u8>,
    rest: Seq<u8>,
)
    requires
        progress.awaiting is None,
        !progress.finished,
        payload.len() <= MAX_PAYLOAD_LEN,
    ensures
        ({
            let read = Progress {
                offset: progress.offset + DESCRIPTOR_LEN as nat + payload.len(),
                ..progress
            };
            let (step, after) = read.with_segment(flag, progress.offset, payload);
            progress.next(segment(flag, payload) + rest) == match step {
                Ok(Move::Record(record)) => Outcome {
                    result: Ok(Some(record)),
                    progress: after,
                    rest,
                },
                Ok(_) => after.next(rest),
                Err(fault) => Outcome { result: Err(fault), progress: after, rest },
            }
        }),
{
    let input = segment(flag, payload) + rest;
    let len = payload.len() + DESCRIPTOR_LEN;
    let descriptor = input.take(4);
    assert(descriptor[0] == (len / 256) as u8);
    assert(descriptor[1] == (len % 256) as u8);
    assert(claimed_len(descriptor) == len);
    assert(descriptor_fault(descriptor) is None);
    assert(SegmentFlag::of_byte(flag.byte()) == Some(flag));
    let (step, after) = progress.with(descriptor);
    if payload.len() == 0 {
        assert(input.skip(4) == rest);
        assert(payload == Seq::<u8>::empty());
    } else {
        let later = input.skip(4);
        assert(later == payload + rest);
        assert(progress.next(input) == after.next(later));
        assert(later.take(payload.len() as int) == payload);
        assert(later.skip(payload.len() as int) == rest);
    }
}

/// Reading the middle and last segments of a spanned record.
proof fn lemma_reads_continuation(progress: Progress, parts: Seq<Seq<u8>>, rest: Seq<u8>)
    requires
        progress.awaiting is None,
        !progress.finished,
        parts_fit(parts),
    ensures
        progress.next(continuation(parts) + rest) == (Outcome {
            result: Ok(Some(progress.pending + parts.flatten())),
            progress: Progress {
                offset: progress.offset + continuation(parts).len(),
                pending: Seq::empty(),
                span: None,
                ..progress
            },
            rest,
        }),
    decreases parts.len(),
{
    if parts.len() == 1 {
        lemma_reads_segment(progress, SegmentFlag::Last, parts[0], rest);
        parts.lemma_flatten_one_element();
    } else {
        let later = parts.drop_first();
        assert forall|i: int| 0 <= i < later.len() implies (#[trigger] later[i]).len()
            <= MAX_PAYLOAD_LEN by {
            assert(later[i] == parts[i + 1]);
        }
        lemma_reads_segment(
            progress,
            SegmentFlag::Middle,
            parts[0],
            continuation(later) + rest,
        );
        assert(continuation(parts) + rest == segment(SegmentFlag::Middle, parts[0]) + (
        continuation(later) + rest));
        let after = Progress {
            offset: progress.offset + DESCRIPTOR_LEN as nat + parts[0].len(),
            pending: progress.pending + parts[0],
            span: if progress.span is None {
                Some(progress.offset)
            } else {
                progress.span
            },
            ..progress
        };
        lemma_reads_continuation(after, later, rest);
        assert(parts.flatten() == parts[0] + later.flatten());
        assert(progress.pending + parts[0] + later.flatten() == progress.pending
            + parts.flatten());
    }
}

/// A record is read back whole, however it was split, and exactly its segments are read for it.
pub proof fn lemma_reads_record(progress: Progress, parts: Seq<Seq<u8>>, rest: Seq<u8>)
    requires
        progress.awaiting is None,
        !progress.finished,
        progress.span is None,
        progress.pending.len() == 0,
        parts_fit(parts),
    ensures
        ({
            let outcome = progress.next(framed(parts) + rest);
            &&& outcome.result == Ok::<_, Fault>(Some(parts.flatten()))
            &&& outcome.rest == rest
            &&& outcome.progress.offset == progress.offset + framed(parts).len()
            &&& outcome.progress.span is None
            &&& outcome.progress.pending.len() == 0
            &&& outcome.progress.awaiting is None
            &&& !outcome.progress.finished
        }),
{
    if parts.len() == 1 {
        lemma_reads_segment(progress, SegmentFlag::Complete, parts[0], rest);
        parts.lemma_flatten_one_element();
    } else {
        let later = parts.drop_first();
        assert forall|i: int| 0 <= i < later.len() implies (#[trigger] later[i]).len()
            <= MAX_PAYLOAD_LEN by {
            assert(later[i] == parts[i + 1]);
        }
        lemma_reads_segment(progress, SegmentFlag::First, parts[0], continuation(later) + rest);
        assert(framed(parts) + rest == segment(SegmentFlag::First, parts[0]) + (continuation(later)
            + rest));
        let after = Progress {
            offset: progress.offset + DESCRIPTOR_LEN as nat + parts[0].len(),
            pending: parts[0],
            span: Some(progress.offset),
            ..progress
        };
        lemma_reads_continuation(after, later, rest);
        assert(parts.flatten() == parts[0] + later.flatten());
    }
}

/// Framing costs one descriptor per part.
proof fn lemma_continuation_len(parts: Seq<Seq<u8>>)
    ensures
        continuation(parts).len() == parts.flatten().len() + DESCRIPTOR_LEN * parts.len(),
    decreases parts.len(),
{
    if parts.len() == 1 {
        parts.lemma_flatten_one_element();
    } else if parts.len() > 1 {
        lemma_continuation_len(parts.drop_first());
        assert(parts.flatten() == parts[0] + parts.drop_first().flatten());
    }
}

/// A framed record is as long as its parts and one descriptor for each of them.
pub proof fn lemma_framed_len(parts: Seq<Seq<u8>>)
    requires
        parts.len() > 0,
    ensures
        framed(parts).len() == parts.flatten().len() + DESCRIPTOR_LEN * parts.len(),
{
    if parts.len() == 1 {
        parts.lemma_flatten_one_element();
    } else {
        lemma_continuation_len(parts.drop_first());
        assert(parts.flatten() == parts[0] + parts.drop_first().flatten());
    }
}

/// The records of a framed file, each with the length of its segments.
pub open spec fn file_records(records: Seq<Seq<Seq<u8>>>) -> Seq<(Seq<u8>, nat)> {
    Seq::new(
        records.len(),
        |i: int| (records[i].flatten(), framed(records[i]).len()),
    )
}

/// De-framing undoes framing: from wherever it stands between records, a walk over a framed file
/// yields its records in order, whole, and meets no fault.
pub proof fn lemma_walks_file(progress: Progress, records: Seq<Seq<Seq<u8>>>)
    requires
        progress.awaiting is None,
        !progress.finished,
        progress.span is None,
        progress.pending.len() == 0,
        forall|i: int| 0 <= i < records.len() ==> parts_fit(#[trigger] records[i]),
    ensures
        progress.walk(framed_file(records)) == (Walk {
            records: file_records(records),
            fault: None,
        }),
    decreases records.len(),
{
    if records.len() == 0 {
        assert(file_records(records) == Seq::<(Seq<u8>, nat)>::empty());
    } else {
        let later = records.drop_first();
        assert forall|i: int| 0 <= i < later.len() implies parts_fit(#[trigger] later[i]) by {
            assert(later[i] == records[i + 1]);
        }
        lemma_reads_record(progress, records[0], framed_file(later));
        lemma_framed_len(records[0]);
        let outcome = progress.next(framed_file(records));
        lemma_walks_file(outcome.progress, later);
        assert(seq![(records[0].flatten(), framed(records[0]).len())] + file_records(later)
            == file_records(records));
    }
}

/// The counts of a framed file: one logical record per record, one physical segment per part, and
/// a spanned record wherever there is more than one part.
pub proof fn lemma_counts_file(records: Seq<Seq<Seq<u8>>>)
    requires
        forall|i: int| 0 <= i < records.len() ==> parts_fit(#[trigger] records[i]),
    ensures
        Counts::of(file_records(records)) == file_counts(records),
    decreases records.len(),
{
    if records.len() > 0 {
        let before = records.drop_last();
        assert forall|i: int| 0 <= i < before.len() implies parts_fit(#[trigger] before[i]) by {
            assert(before[i] == records[i]);
        }
        lemma_counts_file(before);
        assert(file_records(records).drop_last() == file_records(before));
        let parts = records.last();
        assert(parts_fit(records[records.len() - 1]));
        lemma_framed_len(parts);
        assert((DESCRIPTOR_LEN * parts.len()) / DESCRIPTOR_LEN as int == parts.len())
            by (nonlinear_arith);
    }
}

/// A file that ends inside a spanned record is reported where that record starts.
pub proof fn lemma_walk_reports_unterminated(
    records: Seq<Seq<Seq<u8>>>,
    first: Seq<u8>,
    middles: Seq<Seq<u8>>,
    progress: Progress,
)
    requires
        progress.awaiting is None,
        !progress.finished,
        progress.span is None,
        progress.pending.len() == 0,
        forall|i: int| 0 <= i < records.len() ==> parts_fit(#[trigger] records[i]),
        first.len() <= MAX_PAYLOAD_LEN,
        forall|i: int| 0 <= i < middles.len() ==> (#[trigger] middles[i]).len() <= MAX_PAYLOAD_LEN,
    ensures
        progress.walk(
            framed_file(records) + (segment(SegmentFlag::First, first) + middle_segments(middles)),
        ) == (Walk {
            records: file_records(records),
            fault: Some(
                Fault::UnterminatedSegment { offset: progress.offset + framed_file(records).len() },
            ),
        }),
    decreases records.len(),
{
    let tail = segment(SegmentFlag::First, first) + middle_segments(middles);
    if records.len() == 0 {
        assert(framed_file(records) + tail == tail);
        lemma_reads_segment(progress, SegmentFlag::First, first, middle_segments(middles));
        let after = Progress {
            offset: progress.offset + DESCRIPTOR_LEN as nat + first.len(),
            pending: first,
            span: Some(progress.offset),
            ..progress
        };
        lemma_middles_unterminated(after, middles);
        assert(file_records(records) == Seq::<(Seq<u8>, nat)>::empty());
    } else {
        let later = records.drop_first();
        assert forall|i: int| 0 <= i < later.len() implies parts_fit(#[trigger] later[i]) by {
            assert(later[i] == records[i + 1]);
        }
        lemma_reads_record(progress, records[0], framed_file(later) + tail);
        lemma_framed_len(records[0]);
        assert(framed_file(records) + tail == framed(records[0]) + (framed_file(later) + tail));
        let outcome = progress.next(framed_file(records) + tail);
        lemma_walk_reports_unterminated(later, first, middles, outcome.progress);
        assert(seq![(records[0].flatten(), framed(records[0]).len())] + file_records(later)
            == file_records(records));
    }
}

/// Middle segments with no last segment behind them.
pub open spec fn middle_segments(parts: Seq<Seq<u8>>) -> Seq<u8>
    decreases parts.len(),
{
    if parts.len() == 0 {
        Seq::empty()
    } else {
        segment(SegmentFlag::Middle, parts[0]) + middle_segments(parts.drop_first())
    }
}

proof fn lemma_middles_unterminated(progress: Progress, middles: Seq<Seq<u8>>)
    requires
        progress.awaiting is None,
        !progress.finished,
        progress.span is Some,
        forall|i: int| 0 <= i < middles.len() ==> (#[trigger] middles[i]).len() <= MAX_PAYLOAD_LEN,
    ensures
        progress.next(middle_segments(middles)).result == Err::<Option<Seq<u8>>, _>(
            Fault::UnterminatedSegment { offset: progress.span->0 },
        ),
    decreases middles.len(),
{
    if middles.len() > 0 {
        let later = middles.drop_first();
        assert forall|i: int| 0 <= i < later.len() implies (#[trigger] later[i]).len()
            <= MAX_PAYLOAD_LEN by {
            assert(later[i] == middles[i + 1]);
        }
        lemma_reads_segment(progress, SegmentFlag::Middle, middles[0], middle_segments(later));
        let after = Progress {
            offset: progress.offset + DESCRIPTOR_LEN as nat + middles[0].len(),
            pending: progress.pending + middles[0],
            ..progress
        };
        lemma_middles_unterminated(after, later);
    }
}

// ---------------------------------------------------------------------------------------------
// De-framing, byte by byte
// ---------------------------------------------------------------------------------------------
/// What the flag byte of a descriptor says: 0 a complete record, 1 the first segment of one, 2 the
/// last, 3 one in between, and no other byte anything.
pub proof fn lemma_flag_bytes(byte: u8)
    ensures
        SegmentFlag::of_byte(byte) is Some <==> byte <= 3,
        SegmentFlag::of_byte(0) == Some(SegmentFlag::Complete),
        SegmentFlag::of_byte(1) == Some(SegmentFlag::First),
        SegmentFlag::of_byte(2) == Some(SegmentFlag::Last),
        SegmentFlag::of_byte(3) == Some(SegmentFlag::Middle),
{
}

/// What a whole segment at the head of what is left to read leads to, by its flag byte: 0 is a
/// record where no spanned record is open and refused where one is, 1 opens one and forgets what
/// was open, 3 adds to it or opens one, 2 completes it, and any other is refused.
pub proof fn lemma_next_reads_segment(
    progress: Progress,
    high: u8,
    low: u8,
    flag: u8,
    payload: Seq<u8>,
    rest: Seq<u8>,
)
    requires
        progress.awaiting is None,
        !progress.finished,
        high * 256 + low == payload.len() + 4,
    ensures
        ({
            let next = progress.next(seq![high, low, flag, 0u8] + payload + rest);
            let at = progress.offset;
            let read = Progress { offset: at + 4 + payload.len(), ..progress };
            &&& flag == 0 && progress.span is None ==> next == (Outcome {
                result: Ok(Some(payload)),
                progress: read,
                rest,
            })
            &&& flag == 0 && progress.span is Some ==> next == (Outcome {
                result: Err(
                    Fault::BadDescriptor {
                        offset: at,
                        detail: "complete record found inside a spanned record"@,
                    },
                ),
                progress: read,
                rest,
            })
            &&& flag == 1 ==> next == Progress {
                pending: payload,
                span: Some(at),
                ..read
            }.next(rest)
            &&& flag == 3 && progress.span is Some ==> next == Progress {
                pending: progress.pending + payload,
                ..read
            }.next(rest)
            &&& flag == 3 && progress.span is None ==> next == Progress {
                pending: progress.pending + payload,
                span: Some(at),
                ..read
            }.next(rest)
            &&& flag == 2 ==> next == (Outcome {
                result: Ok(Some(progress.pending + payload)),
                progress: Progress { pending: Seq::empty(), span: None, ..read },
                rest,
            })
            &&& flag > 3 ==> next.result == Err::<Option<Seq<u8>>, _>(
                Fault::BadDescriptor {
                    offset: at,
                    detail: "unknown segment flag "@ + hex_byte(flag),
                },
            )
        }),
{
    let input = seq![high, low, flag, 0u8] + payload + rest;
    let descriptor = input.take(4);
    assert(descriptor[0] == high && descriptor[1] == low && descriptor[2] == flag
        && descriptor[3] == 0);
    assert(claimed_len(descriptor) == payload.len() + 4);
    if flag <= 3 {
        let kind = SegmentFlag::of_byte(flag)->0;
        assert(kind.byte() == flag);
        let len = payload.len() + DESCRIPTOR_LEN;
        assert((len / 256) as u8 == high && (len % 256) as u8 == low);
        assert(segment(kind, payload) =~= seq![high, low, flag, 0u8] + payload);
        lemma_reads_segment(progress, kind, payload, rest);
    }
}

/// What comes of the head of what is left to read where it is no whole segment: nothing left is the
/// end, or inside a spanned record a fault where that record starts; too few bytes, for a
/// descriptor or for the payload that one announces, are a fault where they start; and a descriptor
/// whose last byte is not zero, or whose length does not cover the descriptor itself, is refused.
pub proof fn lemma_next_reports_faults(progress: Progress, input: Seq<u8>)
    requires
        progress.awaiting is None,
        !progress.finished,
    ensures
        ({
            let result = progress.next(input).result;
            let at = progress.offset;
            let claimed = input[0] * 256 + input[1];
            &&& input.len() == 0 ==> result == match progress.span {
                Some(start) => Err::<Option<Seq<u8>>, _>(
                    Fault::UnterminatedSegment { offset: start },
                ),
                None => Ok(None),
            }
            &&& 0 < input.len() < 4 ==> result == Err::<Option<Seq<u8>>, _>(
                Fault::Truncated { offset: at, expected: 4, got: input.len() },
            )
            &&& input.len() >= 4 && input[2] <= 3 && input[3] != 0 ==> result == Err::<
                Option<Seq<u8>>,
                _,
            >(
                Fault::BadDescriptor {
                    offset: at,
                    detail: "reserved byte is "@ + hex_byte(input[3]) + ", expected 0x00"@,
                },
            )
            &&& input.len() >= 4 && input[2] <= 3 && input[3] == 0 && claimed < 4 ==> result
                == Err::<Option<Seq<u8>>, _>(
                Fault::BadDescriptor {
                    offset: at,
                    detail: "length "@ + decimal(claimed as nat)
                        + " is smaller than the 4-byte descriptor"@,
                },
            )
            &&& input.len() >= 4 && input[2] <= 3 && input[3] == 0 && input.len() < claimed
                ==> result == Err::<Option<Seq<u8>>, _>(
                Fault::Truncated {
                    offset: at + 4,
                    expected: (claimed - 4) as nat,
                    got: (input.len() - 4) as nat,
                },
            )
        }),
{
    let descriptor = input.take(4);
    if input.len() == 0 {
        assert(input.take(0).len() == 0);
    } else if input.len() < 4 {
        assert(input.take(input.len() as int) == input);
    } else {
        assert(descriptor[0] == input[0] && descriptor[1] == input[1] && descriptor[2] == input[2]
            && descriptor[3] == input[3]);
        let claimed = claimed_len(descriptor);
        if input[2] <= 3 && input[3] == 0 && input.len() < claimed {
            let (step, after) = progress.with(descriptor);
            let rest = input.skip(4);
            assert(progress.next(input) == after.next(rest));
            assert(rest.take(rest.len() as int) == rest);
        }
    }
}

/// A walk goes record by record: it is over at the end and at the first fault, and each record it
/// comes by stands before those that are still to come, with how far the reader advanced for it.
pub proof fn lemma_walk_record_by_record(progress: Progress, input: Seq<u8>)
    requires
        progress.well_formed(),
        progress.awaiting is None,
        !progress.finished,
    ensures
        ({
            let walk = progress.walk(input);
            let next = progress.next(input);
            match next.result {
                Err(fault) => walk.records.len() == 0 && walk.fault == Some(fault),
                Ok(None) => walk.records.len() == 0 && walk.fault is None,
                Ok(Some(record)) => {
                    let later = next.progress.walk(next.rest);
                    &&& walk.records == seq![
                        (record, (next.progress.offset - progress.offset) as nat),
                    ] + later.records
                    &&& walk.fault == later.fault
                },
            }
        }),
{
    lemma_next_advances(progress, input);
}

/// What is counted of a walk: its records, their bytes, and for each of them one segment per
/// descriptor that the reader passed, at least one; more than one make a spanned record.
pub proof fn lemma_counts_of_a_walk(records: Seq<(Seq<u8>, nat)>)
    ensures
        ({
            let counts = Counts::of(records);
            &&& counts.logical_records == records.len()
            &&& counts.payload_bytes == records.map_values(
                |entry: (Seq<u8>, nat)| entry.0,
            ).flatten().len()
            &&& records.len() > 0 ==> ({
                let before = Counts::of(records.drop_last());
                let descriptors = records.last().1 - records.last().0.len();
                &&& 8 <= descriptors ==> counts.physical_segments == before.physical_segments
                    + descriptors / 4 && counts.spanned_records == before.spanned_records + 1
                &&& descriptors < 8 ==> counts.physical_segments == before.physical_segments + 1
                    && counts.spanned_records == before.spanned_records
            })
            &&& records.len() == 0 ==> counts.physical_segments == 0 && counts.spanned_records == 0
        }),
    decreases records.len(),
{
    let bytes = records.map_values(|entry: (Seq<u8>, nat)| entry.0);
    if records.len() > 0 {
        let before = records.drop_last();
        lemma_counts_of_a_walk(before);
        bytes.lemma_flatten_and_flatten_alt_are_equivalent();
        bytes.drop_last().lemma_flatten_and_flatten_alt_are_equivalent();
        assert(bytes.drop_last() =~= before.map_values(|entry: (Seq<u8>, nat)| entry.0));
        assert(bytes.last() == records.last().0);
    }
}

/// A framed file is counted by its records, all their parts, all its payload, and the records that
/// have more than one part.
pub proof fn lemma_framed_file_counts(records: Seq<Seq<Seq<u8>>>)
    requires
        forall|i: int| 0 <= i < records.len() ==> parts_fit(#[trigger] records[i]),
    ensures
        ({
            let counts = Counts::of(Progress::start().walk(framed_file(records)).records);
            &&& counts.logical_records == records.len()
            &&& counts.physical_segments == records.flatten().len()
            &&& counts.payload_bytes == records.flatten().flatten().len()
            &&& counts.spanned_records == records.filter(
                |parts: Seq<Seq<u8>>| parts.len() > 1,
            ).len()
        }),
{
    lemma_walks_file(Progress::start(), records);
    lemma_counts_file(records);
    lemma_file_counts(records);
}

proof fn lemma_file_counts(records: Seq<Seq<Seq<u8>>>)
    ensures
        ({
            let counts = file_counts(records);
            &&& counts.logical_records == records.len()
            &&& counts.physical_segments == records.flatten().len()
            &&& counts.payload_bytes == records.flatten().flatten().len()
            &&& counts.spanned_records == records.filter(
                |parts: Seq<Seq<u8>>| parts.len() > 1,
            ).len()
        }),
    decreases records.len(),
{
    reveal(Seq::filter);
    if records.len() > 0 {
        let before = records.drop_last();
        lemma_file_counts(before);
        records.lemma_flatten_and_flatten_alt_are_equivalent();
        before.lemma_flatten_and_flatten_alt_are_equivalent();
        assert(records.flatten() == before.flatten() + records.last());
        vstd::seq_lib::lemma_flatten_concat(before.flatten(), records.last());
    }
}

/// A complete record inside a spanned one is refused, even where the spanned record has no bytes
/// yet.
pub proof fn lemma_complete_record_inside_a_span_is_refused(
    progress: Progress,
    first: Seq<u8>,
    complete: Seq<u8>,
    rest: Seq<u8>,
)
    requires
        progress.awaiting is None,
        !progress.finished,
        first.len() <= MAX_PAYLOAD_LEN,
        complete.len() <= MAX_PAYLOAD_LEN,
    ensures
        progress.next(
            segment(SegmentFlag::First, first) + (segment(SegmentFlag::Complete, complete) + rest),
        ).result == Err::<Option<Seq<u8>>, _>(
            Fault::BadDescriptor {
                offset: progress.offset + 4 + first.len(),
                detail: "complete record found inside a spanned record"@,
            },
        ),
{
    let later = segment(SegmentFlag::Complete, complete) + rest;
    lemma_reads_segment(progress, SegmentFlag::First, first, later);
    let after = Progress {
        offset: progress.offset + 4 + first.len(),
        pending: first,
        span: Some(progress.offset),
        ..progress
    };
    lemma_reads_segment(after, SegmentFlag::Complete, complete, rest);
}

/// What each fault is reported as.
pub proof fn lemma_fault_messages(offset: nat, expected: nat, got: nat, detail: Seq<char>)
    ensures
        (Fault::BadDescriptor { offset, detail }).message() == "invalid record descriptor at byte "@
            + decimal(offset) + ": "@ + detail
            + ". The file may not be RDW-framed; try again without --rdw."@,
        (Fault::Truncated { offset, expected, got }).message() == "record at byte "@ + decimal(offset)
            + " claims "@ + decimal(expected) + " bytes but only "@ + decimal(got) + " remain"@,
        (Fault::UnterminatedSegment { offset }).message()
            == "file ends inside a spanned record starting at byte "@ + decimal(offset),
        Fault::Io(detail).message() == detail,
{
}

} // verus!
