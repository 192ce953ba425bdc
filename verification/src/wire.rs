//! Little-endian readers over a byte slice.
//!
//! The numbers, the fixed bytes and the runs of bytes of a structure are read
//! by `nom`. [`Scan`] says, as a mathematical value, where a reading stands and
//! which fault it met first; [`Reader`] is the reading itself.

use vstd::prelude::*;
use vstd::slice::{slice_subrange, slice_to_vec};
use crate::error::{Context, Fault, ParseError};

verus! {

/// How a reader of `nom` fails.
#[derive(Clone, Copy, Debug, PartialEq, Eq, Structural)]
pub enum Failure {
    /// More bytes are needed, and it is not known how many.
    NeedUnknown,
    /// The field asked for this many bytes, and fewer are left.
    Need(usize),
    /// The bytes do not match.
    Error,
    /// The bytes do not match, and no other reading can.
    Fatal,
}

/// The number that the first two bytes hold, lowest byte first.
pub open spec fn le16(s: Seq<u8>) -> int {
    s[0] + 0x100 * s[1]
}

/// The number that the first three bytes hold, lowest byte first.
pub open spec fn le24(s: Seq<u8>) -> int {
    s[0] + 0x100 * s[1] + 0x1_0000 * s[2]
}

/// The number that the first four bytes hold, lowest byte first.
pub open spec fn le32(s: Seq<u8>) -> int {
    s[0] + 0x100 * s[1] + 0x1_0000 * s[2] + 0x100_0000 * s[3]
}

/// The number that the first eight bytes hold, lowest byte first.
pub open spec fn le64(s: Seq<u8>) -> int {
    s[0] + 0x100 * s[1] + 0x1_0000 * s[2] + 0x100_0000 * s[3] + 0x1_0000_0000 * s[4]
        + 0x100_0000_0000 * s[5] + 0x1_0000_0000_0000 * s[6] + 0x100_0000_0000_0000 * s[7]
}

/// Whether `input` and `want` agree as far as both reach.
pub open spec fn agree(input: Seq<u8>, want: Seq<u8>) -> bool {
    forall|k: int| 0 <= k < input.len() && k < want.len() ==> input[k] == want[k]
}

/// `nom::number::streaming::le_u8`: the first byte and the bytes after it; on
/// an empty input a demand for 1.
#[verifier::external_body]
fn nom_le_u8(input: &[u8]) -> (r: Result<(&[u8], u8), Failure>)
    ensures
        match r {
            Ok((rest, value)) => input@.len() >= 1 && rest@ == input@.skip(1) && value == input@[0],
            Err(f) => input@.len() < 1 && f == Failure::Need(1),
        },
{
    match nom::number::streaming::le_u8::<nom::error::VerboseError<&[u8]>>(input) {
        Ok((rest, value)) => Ok((rest, value)),
        Err(nom::Err::Incomplete(nom::Needed::Size(n))) => Err(Failure::Need(n)),
        Err(nom::Err::Incomplete(nom::Needed::Unknown)) => Err(Failure::NeedUnknown),
        Err(nom::Err::Error(_)) => Err(Failure::Error),
        Err(nom::Err::Failure(_)) => Err(Failure::Fatal),
    }
}

/// `nom::number::streaming::le_u16`: the first two bytes read lowest byte
/// first, and the bytes after them; with fewer than two a demand for 2.
#[verifier::external_body]
fn nom_le_u16(input: &[u8]) -> (r: Result<(&[u8], u16), Failure>)
    ensures
        match r {
            Ok((rest, value)) => input@.len() >= 2 && rest@ == input@.skip(2) && value == le16(
                input@,
            ),
            Err(f) => input@.len() < 2 && f == Failure::Need(2),
        },
{
    match nom::number::streaming::le_u16::<nom::error::VerboseError<&[u8]>>(input) {
        Ok((rest, value)) => Ok((rest, value)),
        Err(nom::Err::Incomplete(nom::Needed::Size(n))) => Err(Failure::Need(n)),
        Err(nom::Err::Incomplete(nom::Needed::Unknown)) => Err(Failure::NeedUnknown),
        Err(nom::Err::Error(_)) => Err(Failure::Error),
        Err(nom::Err::Failure(_)) => Err(Failure::Fatal),
    }
}

/// `nom::number::streaming::le_u24`: the first three bytes read lowest byte
/// first, and the bytes after them; with fewer than three a demand for 3.
#[verifier::external_body]
fn nom_le_u24(input: &[u8]) -> (r: Result<(&[u8], u32), Failure>)
    ensures
        match r {
            Ok((rest, value)) => input@.len() >= 3 && rest@ == input@.skip(3) && value == le24(
                input@,
            ),
            Err(f) => input@.len() < 3 && f == Failure::Need(3),
        },
{
    match nom::number::streaming::le_u24::<nom::error::VerboseError<&[u8]>>(input) {
        Ok((rest, value)) => Ok((rest, value)),
        Err(nom::Err::Incomplete(nom::Needed::Size(n))) => Err(Failure::Need(n)),
        Err(nom::Err::Incomplete(nom::Needed::Unknown)) => Err(Failure::NeedUnknown),
        Err(nom::Err::Error(_)) => Err(Failure::Error),
        Err(nom::Err::Failure(_)) => Err(Failure::Fatal),
    }
}

/// `nom::number::streaming::le_u32`: the first four bytes read lowest byte
/// first, and the bytes after them; with fewer than four a demand for 4.
#[verifier::external_body]
fn nom_le_u32(input: &[u8]) -> (r: Result<(&[u8], u32), Failure>)
    ensures
        match r {
            Ok((rest, value)) => input@.len() >= 4 && rest@ == input@.skip(4) && value == le32(
                input@,
            ),
            Err(f) => input@.len() < 4 && f == Failure::Need(4),
        },
{
    match nom::number::streaming::le_u32::<nom::error::VerboseError<&[u8]>>(input) {
        Ok((rest, value)) => Ok((rest, value)),
        Err(nom::Err::Incomplete(nom::Needed::Size(n))) => Err(Failure::Need(n)),
        Err(nom::Err::Incomplete(nom::Needed::Unknown)) => Err(Failure::NeedUnknown),
        Err(nom::Err::Error(_)) => Err(Failure::Error),
        Err(nom::Err::Failure(_)) => Err(Failure::Fatal),
    }
}

/// `nom::number::streaming::le_u64`: the first eight bytes read lowest byte
/// first, and the bytes after them; with fewer than eight a demand for 8.
#[verifier::external_body]
fn nom_le_u64(input: &[u8]) -> (r: Result<(&[u8], u64), Failure>)
    ensures
        match r {
            Ok((rest, value)) => input@.len() >= 8 && rest@ == input@.skip(8) && value == le64(
                input@,
            ),
            Err(f) => input@.len() < 8 && f == Failure::Need(8),
        },
{
    match nom::number::streaming::le_u64::<nom::error::VerboseError<&[u8]>>(input) {
        Ok((rest, value)) => Ok((rest, value)),
        Err(nom::Err::Incomplete(nom::Needed::Size(n))) => Err(Failure::Need(n)),
        Err(nom::Err::Incomplete(nom::Needed::Unknown)) => Err(Failure::NeedUnknown),
        Err(nom::Err::Error(_)) => Err(Failure::Error),
        Err(nom::Err::Failure(_)) => Err(Failure::Fatal),
    }
}

/// `nom::bytes::streaming::take`: the bytes after the first `count` and the
/// first `count` bytes; with fewer than `count` a demand for `count`.
#[verifier::external_body]
fn nom_take(input: &[u8], count: usize) -> (r: Result<(&[u8], &[u8]), Failure>)
    ensures
        match r {
            Ok((rest, taken)) => input@.len() >= count && rest@ == input@.skip(count as int)
                && taken@ == input@.take(count as int),
            Err(f) => input@.len() < count && f == Failure::Need(count),
        },
{
    match nom::bytes::streaming::take::<usize, &[u8], nom::error::VerboseError<&[u8]>>(count)(input) {
        Ok((rest, taken)) => Ok((rest, taken)),
        Err(nom::Err::Incomplete(nom::Needed::Size(n))) => Err(Failure::Need(n)),
        Err(nom::Err::Incomplete(nom::Needed::Unknown)) => Err(Failure::NeedUnknown),
        Err(nom::Err::Error(_)) => Err(Failure::Error),
        Err(nom::Err::Failure(_)) => Err(Failure::Fatal),
    }
}

/// `nom::bytes::streaming::tag`: where the input starts with `want`, the bytes
/// after it. Where a byte differs as far as both reach, an error. Where they
/// agree and the input is the shorter, a demand for the length of `want`.
#[verifier::external_body]
fn nom_tag<'a>(input: &'a [u8], want: &[u8]) -> (r: Result<&'a [u8], Failure>)
    ensures
        match r {
            Ok(rest) => agree(input@, want@) && input@.len() >= want@.len() && rest@
                == input@.skip(want@.len() as int),
            Err(f) => if agree(input@, want@) {
                input@.len() < want@.len() && f == Failure::Need(want@.len() as usize)
            } else {
                f == Failure::Error
            },
        },
{
    match nom::bytes::streaming::tag::<&[u8], &[u8], nom::error::VerboseError<&[u8]>>(want)(input) {
        Ok((rest, _)) => Ok(rest),
        Err(nom::Err::Incomplete(nom::Needed::Size(n))) => Err(Failure::Need(n)),
        Err(nom::Err::Incomplete(nom::Needed::Unknown)) => Err(Failure::NeedUnknown),
        Err(nom::Err::Error(_)) => Err(Failure::Error),
        Err(nom::Err::Failure(_)) => Err(Failure::Fatal),
    }
}

/// The number that the two bytes at `pos` hold.
pub open spec fn u16_at(input: Seq<u8>, pos: int) -> int {
    input[pos] + 0x100 * input[pos + 1]
}

/// The number that the three bytes at `pos` hold.
pub open spec fn u24_at(input: Seq<u8>, pos: int) -> int {
    input[pos] + 0x100 * input[pos + 1] + 0x1_0000 * input[pos + 2]
}

/// The number that the four bytes at `pos` hold.
pub open spec fn u32_at(input: Seq<u8>, pos: int) -> int {
    input[pos] + 0x100 * input[pos + 1] + 0x1_0000 * input[pos + 2] + 0x100_0000 * input[pos + 3]
}

/// The number that the eight bytes at `pos` hold.
pub open spec fn u64_at(input: Seq<u8>, pos: int) -> int {
    u32_at(input, pos) + 0x1_0000_0000 * u32_at(input, pos + 4)
}

/// The `count` numbers of eight bytes each that start at `pos`.
pub open spec fn u64s_at(input: Seq<u8>, pos: int, count: nat) -> Seq<u64> {
    Seq::new(count, |i: int| u64_at(input, pos + 8 * i) as u64)
}

/// Whether an address or a length can be `width` bytes wide.
pub open spec fn valid_width(width: u8) -> bool {
    width == 1 || width == 2 || width == 4 || width == 8
}

/// The number that the `width` bytes at `pos` hold, for a valid width.
pub open spec fn address_at(input: Seq<u8>, pos: int, width: u8) -> int {
    if width == 1 {
        input[pos] as int
    } else if width == 2 {
        u16_at(input, pos)
    } else if width == 4 {
        u32_at(input, pos)
    } else {
        u64_at(input, pos)
    }
}

/// `x` rounded up to the next multiple of 8.
pub open spec fn spec_pad8(x: int) -> int {
    if x % 8 == 0 {
        x
    } else {
        x + (8 - x % 8)
    }
}

/// Rounds `t` up to the next multiple of 8.
pub fn pad8(t: u16) -> (r: usize)
    ensures
        r == spec_pad8(t as int),
        r % 8 == 0,
        t <= r < t + 8,
{
    let t: usize = t as usize;
    if t % 8 == 0 {
        t
    } else {
        t + (8 - (t % 8))
    }
}

/// Where the reading of a structure stands: the bytes, how many of them are
/// read, the structure in hand, and the first fault if there was one. After a
/// fault every further step leaves the value as it is.
pub struct Scan {
    pub input: Seq<u8>,
    pub pos: int,
    pub context: Context,
    pub fault: Option<Fault>,
}

impl Scan {
    /// The reading of `input` before its first byte.
    pub open spec fn start(input: Seq<u8>, context: Context) -> Scan {
        Scan { input, pos: 0, context, fault: None }
    }

    /// The bytes not yet read.
    pub open spec fn rest(self) -> Seq<u8> {
        self.input.skip(self.pos)
    }

    /// How many bytes are not yet read.
    pub open spec fn left(self) -> int {
        self.input.len() - self.pos
    }

    /// The reading stopped with `fault`.
    pub open spec fn fail(self, fault: Fault) -> Scan {
        Scan { fault: Some(fault), ..self }
    }

    /// The same reading, in the hands of another structure.
    pub open spec fn within(self, context: Context) -> Scan {
        if self.fault is Some {
            self
        } else {
            Scan { context, ..self }
        }
    }

    /// Stops with `fault` unless `holds`.
    pub open spec fn require(self, holds: bool, fault: Fault) -> Scan {
        if self.fault is Some || holds {
            self
        } else {
            self.fail(fault)
        }
    }

    /// A field of `n` bytes.
    pub open spec fn bytes(self, n: int) -> Scan {
        if self.fault is Some {
            self
        } else if self.left() < n {
            self.fail(Fault::Truncated { context: self.context, need: n as u64 })
        } else {
            Scan { pos: self.pos + n, ..self }
        }
    }

    /// `count` fields of `width` bytes each, read one after the other.
    pub open spec fn fields(self, count: int, width: int) -> Scan {
        if self.fault is Some {
            self
        } else if self.left() < count * width {
            self.fail(Fault::Truncated { context: self.context, need: width as u64 })
        } else {
            Scan { pos: self.pos + count * width, ..self }
        }
    }

    /// The bytes that stand where `want` is expected: as many as `want` has,
    /// or all that are left.
    pub open spec fn found(self, want: Seq<u8>) -> Seq<u8> {
        if self.left() < want.len() {
            self.rest()
        } else {
            self.rest().take(want.len() as int)
        }
    }

    /// What `want` does to the reading; `differs` is the fault where a byte
    /// differs from it.
    pub open spec fn expect(self, want: Seq<u8>, differs: Fault) -> Scan {
        if self.fault is Some {
            self
        } else if !agree(self.rest(), want) {
            self.fail(differs)
        } else if self.left() < want.len() {
            self.fail(Fault::Truncated { context: self.context, need: want.len() as u64 })
        } else {
            Scan { pos: self.pos + want.len(), ..self }
        }
    }

    /// Fixed bytes.
    pub open spec fn tag(self, want: Seq<u8>) -> Scan {
        self.expect(
            want,
            Fault::ExpectedTag { context: self.context, want, got: self.found(want) },
        )
    }

    /// The signature of a structure.
    pub open spec fn magic(self, want: Seq<u8>) -> Scan {
        self.expect(want, Fault::BadMagic { context: self.context, found: self.found(want) })
    }

    /// An address or a length of `width` bytes.
    pub open spec fn address(self, width: u8) -> Scan {
        self.require(
            valid_width(width),
            Fault::UnsupportedVariant { context: Context::AddressWidth, value: width as u64 },
        ).bytes(width as int)
    }
}

/// A reading of a byte slice, field by field.
pub struct Reader<'a> {
    rest: &'a [u8],
    context: Context,
    whole: Ghost<Seq<u8>>,
}

impl<'a> View for Reader<'a> {
    type V = Scan;

    closed spec fn view(&self) -> Scan {
        Scan {
            input: self.whole@,
            pos: self.whole@.len() - self.rest@.len(),
            context: self.context,
            fault: None,
        }
    }
}

impl<'a> Reader<'a> {
    #[verifier::type_invariant]
    spec fn wf(&self) -> bool {
        &&& self.rest@.len() <= self.whole@.len()
        &&& self.rest@ == self.whole@.skip(self.whole@.len() - self.rest@.len())
    }

    /// Starts to read `input` as the structure `context`.
    pub fn new(input: &'a [u8], context: Context) -> (r: Reader<'a>)
        ensures
            r@ == Scan::start(input@, context),
    {
        assert(input@.skip(0) =~= input@);
        Reader { rest: input, context, whole: Ghost(input@) }
    }

    /// The structure in hand.
    pub fn context(&self) -> (c: Context)
        ensures
            c == self@.context,
    {
        self.context
    }

    /// Hands the reading to the structure `context`.
    pub fn within(&mut self, context: Context)
        ensures
            final(self)@ == old(self)@.within(context),
    {
        proof {
            use_type_invariant(&*self);
        }
        self.context = context;
    }

    /// The bytes not yet read.
    pub fn rest(&self) -> (r: &'a [u8])
        ensures
            r@ == self@.rest(),
            0 <= self@.pos <= self@.input.len(),
            self@.fault is None,
    {
        proof {
            use_type_invariant(self);
        }
        self.rest
    }

    /// How many bytes are not yet read.
    pub fn left(&self) -> (n: usize)
        ensures
            n == self@.left(),
            0 <= self@.pos <= self@.input.len(),
            self@.fault is None,
    {
        proof {
            use_type_invariant(self);
        }
        self.rest.len()
    }

    /// The fault of a field that asked `nom` for more bytes than are left.
    fn short(&self, f: Failure) -> (e: ParseError)
        requires
            f matches Failure::Need(_),
        ensures
            e@ == (Fault::Truncated { context: self@.context, need: f->Need_0 as u64 }),
    {
        match f {
            Failure::Need(n) => ParseError::Truncated { context: self.context, need: n as u64 },
            _ => ParseError::Truncated { context: self.context, need: 0 },
        }
    }

    /// One byte.
    pub fn le_u8(&mut self) -> (r: Result<u8, ParseError>)
        ensures
            match r {
                Ok(v) => final(self)@.fault is None && final(self)@ == old(self)@.bytes(1) && v == old(self)@.input[old(
                    self,
                )@.pos],
                Err(e) => old(self)@.bytes(1).fault == Some(e@),
            },
    {
        proof {
            use_type_invariant(&*self);
        }
        match nom_le_u8(self.rest) {
            Ok((rest, v)) => {
                assert(rest@ =~= self.whole@.skip(self.whole@.len() - rest@.len()));
                self.rest = rest;
                Ok(v)
            },
            Err(f) => Err(self.short(f)),
        }
    }

    /// Two bytes, lowest first.
    pub fn le_u16(&mut self) -> (r: Result<u16, ParseError>)
        ensures
            match r {
                Ok(v) => final(self)@.fault is None && final(self)@ == old(self)@.bytes(2) && v == u16_at(
                    old(self)@.input,
                    old(self)@.pos,
                ),
                Err(e) => old(self)@.bytes(2).fault == Some(e@),
            },
    {
        proof {
            use_type_invariant(&*self);
        }
        match nom_le_u16(self.rest) {
            Ok((rest, v)) => {
                assert(rest@ =~= self.whole@.skip(self.whole@.len() - rest@.len()));
                self.rest = rest;
                Ok(v)
            },
            Err(f) => Err(self.short(f)),
        }
    }

    /// Three bytes, lowest first.
    pub fn le_u24(&mut self) -> (r: Result<u32, ParseError>)
        ensures
            match r {
                Ok(v) => final(self)@.fault is None && final(self)@ == old(self)@.bytes(3) && v == u24_at(
                    old(self)@.input,
                    old(self)@.pos,
                ),
                Err(e) => old(self)@.bytes(3).fault == Some(e@),
            },
    {
        proof {
            use_type_invariant(&*self);
        }
        match nom_le_u24(self.rest) {
            Ok((rest, v)) => {
                assert(rest@ =~= self.whole@.skip(self.whole@.len() - rest@.len()));
                self.rest = rest;
                Ok(v)
            },
            Err(f) => Err(self.short(f)),
        }
    }

    /// Four bytes, lowest first.
    pub fn le_u32(&mut self) -> (r: Result<u32, ParseError>)
        ensures
            match r {
                Ok(v) => final(self)@.fault is None && final(self)@ == old(self)@.bytes(4) && v == u32_at(
                    old(self)@.input,
                    old(self)@.pos,
                ),
                Err(e) => old(self)@.bytes(4).fault == Some(e@),
            },
    {
        proof {
            use_type_invariant(&*self);
        }
        match nom_le_u32(self.rest) {
            Ok((rest, v)) => {
                assert(rest@ =~= self.whole@.skip(self.whole@.len() - rest@.len()));
                self.rest = rest;
                Ok(v)
            },
            Err(f) => Err(self.short(f)),
        }
    }

    /// Eight bytes, lowest first.
    pub fn le_u64(&mut self) -> (r: Result<u64, ParseError>)
        ensures
            match r {
                Ok(v) => final(self)@.fault is None && final(self)@ == old(self)@.bytes(8) && v == u64_at(
                    old(self)@.input,
                    old(self)@.pos,
                ),
                Err(e) => old(self)@.bytes(8).fault == Some(e@),
            },
    {
        proof {
            use_type_invariant(&*self);
        }
        match nom_le_u64(self.rest) {
            Ok((rest, v)) => {
                assert(rest@ =~= self.whole@.skip(self.whole@.len() - rest@.len()));
                self.rest = rest;
                Ok(v)
            },
            Err(f) => Err(self.short(f)),
        }
    }

    /// The next `n` bytes.
    pub fn take(&mut self, n: usize) -> (r: Result<&'a [u8], ParseError>)
        ensures
            match r {
                Ok(taken) => final(self)@.fault is None && final(self)@ == old(self)@.bytes(n as int) && taken@ == old(
                    self,
                )@.input.subrange(old(self)@.pos, old(self)@.pos + n),
                Err(e) => old(self)@.bytes(n as int).fault == Some(e@),
            },
    {
        proof {
            use_type_invariant(&*self);
        }
        match nom_take(self.rest, n) {
            Ok((rest, taken)) => {
                assert(rest@ =~= self.whole@.skip(self.whole@.len() - rest@.len()));
                assert(taken@ =~= self@.input.subrange(self@.pos, self@.pos + n));
                self.rest = rest;
                Ok(taken)
            },
            Err(f) => Err(self.short(f)),
        }
    }

    /// The next `n` bytes, for a length read from the file.
    pub fn take_long(&mut self, n: u64) -> (r: Result<&'a [u8], ParseError>)
        ensures
            match r {
                Ok(taken) => final(self)@.fault is None && final(self)@ == old(self)@.bytes(
                    n as int,
                ) && taken@ == old(self)@.input.subrange(old(self)@.pos, old(self)@.pos + n),
                Err(e) => old(self)@.bytes(n as int).fault == Some(e@),
            },
    {
        proof {
            use_type_invariant(&*self);
        }
        if n > self.rest.len() as u64 {
            Err(ParseError::Truncated { context: self.context, need: n })
        } else {
            self.take(n as usize)
        }
    }

    /// `count` numbers of eight bytes each.
    pub fn le_u64s(&mut self, count: usize) -> (r: Result<Vec<u64>, ParseError>)
        ensures
            match r {
                Ok(v) => final(self)@.fault is None && final(self)@ == old(self)@.fields(
                    count as int,
                    8,
                ) && v@ == u64s_at(old(self)@.input, old(self)@.pos, count as nat),
                Err(e) => old(self)@.fields(count as int, 8).fault == Some(e@),
            },
    {
        proof {
            use_type_invariant(&*self);
        }
        let ghost start = self@;
        let mut values: Vec<u64> = Vec::new();
        let mut i: usize = 0;
        while i < count
            invariant
                i <= count,
                start == old(self)@,
                self@.fault is None,
                self@.input == start.input,
                self@.context == start.context,
                self@.pos == start.pos + 8 * i,
                0 <= start.pos,
                self@.pos <= start.input.len(),
                values@ == u64s_at(start.input, start.pos, i as nat),
            decreases count - i,
        {
            let v = self.le_u64()?;
            values.push(v);
            i += 1;
            let _ = self.left();
            assert(values@ =~= u64s_at(start.input, start.pos, i as nat));
        }
        let _ = self.left();
        Ok(values)
    }

    /// The bytes that stand where `want` is expected.
    fn found(&self, want: &[u8]) -> (got: Vec<u8>)
        ensures
            got@ == self@.found(want@),
    {
        proof {
            use_type_invariant(self);
        }
        if self.rest.len() < want.len() {
            slice_to_vec(self.rest)
        } else {
            let head = slice_subrange(self.rest, 0, want.len());
            assert(head@ =~= self@.rest().take(want@.len() as int));
            slice_to_vec(head)
        }
    }

    /// Fixed bytes.
    pub fn tag(&mut self, want: &[u8]) -> (r: Result<(), ParseError>)
        ensures
            match r {
                Ok(_) => final(self)@.fault is None && final(self)@ == old(self)@.tag(want@),
                Err(e) => old(self)@.tag(want@).fault == Some(e@),
            },
    {
        proof {
            use_type_invariant(&*self);
        }
        let ghost width = want.len();
        match nom_tag(self.rest, want) {
            Ok(rest) => {
                assert(rest@ =~= self.whole@.skip(self.whole@.len() - rest@.len()));
                self.rest = rest;
                Ok(())
            },
            Err(Failure::Error) => Err(
                ParseError::ExpectedTag {
                    context: self.context,
                    want: slice_to_vec(want),
                    got: self.found(want),
                },
            ),
            Err(f) => Err(self.short(f)),
        }
    }

    /// The signature of a structure.
    pub fn magic(&mut self, want: &[u8]) -> (r: Result<(), ParseError>)
        ensures
            match r {
                Ok(_) => final(self)@.fault is None && final(self)@ == old(self)@.magic(want@),
                Err(e) => old(self)@.magic(want@).fault == Some(e@),
            },
    {
        proof {
            use_type_invariant(&*self);
        }
        let ghost width = want.len();
        match nom_tag(self.rest, want) {
            Ok(rest) => {
                assert(rest@ =~= self.whole@.skip(self.whole@.len() - rest@.len()));
                self.rest = rest;
                Ok(())
            },
            Err(Failure::Error) => Err(
                ParseError::BadMagic { context: self.context, found: self.found(want) },
            ),
            Err(f) => Err(self.short(f)),
        }
    }

    /// An address or a length of `width` bytes, lowest byte first.
    pub fn address(&mut self, width: u8) -> (r: Result<u64, ParseError>)
        ensures
            match r {
                Ok(v) => final(self)@.fault is None && final(self)@ == old(self)@.address(width) && v == address_at(
                    old(self)@.input,
                    old(self)@.pos,
                    width,
                ),
                Err(e) => old(self)@.address(width).fault == Some(e@),
            },
    {
        proof {
            use_type_invariant(&*self);
        }
        if width == 1 {
            let v = self.le_u8()?;
            Ok(v as u64)
        } else if width == 2 {
            let v = self.le_u16()?;
            Ok(v as u64)
        } else if width == 4 {
            let v = self.le_u32()?;
            Ok(v as u64)
        } else if width == 8 {
            self.le_u64()
        } else {
            Err(ParseError::UnsupportedVariant { context: Context::AddressWidth, value: width as u64 })
        }
    }
}

/// What a parser makes of its input, as a mathematical value: how many bytes
/// it reads and the value it finds there, or the fault.
pub type Parsed<T> = Result<(int, T), Fault>;

/// The outcome of the reading `scan`, where `value` is what a reading
/// without fault finds.
pub open spec fn outcome<T>(scan: Scan, value: T) -> Parsed<T> {
    match scan.fault {
        Some(fault) => Err(fault),
        None => Ok((scan.pos, value)),
    }
}

/// Whether `r` is what `expect` says of `input`: the same value and the bytes
/// after those read, or the same fault.
pub open spec fn agrees<T>(
    r: Result<(&[u8], T), ParseError>,
    input: Seq<u8>,
    expect: Parsed<T>,
) -> bool {
    match r {
        Ok((rest, value)) => expect matches Ok((n, v)) && 0 <= n <= input.len() && rest@
            == input.skip(n) && value == v,
        Err(e) => expect == Err::<(int, T), Fault>(e@),
    }
}

/// As [`agrees`], for a value that is compared by its view.
pub open spec fn agrees_view<T: View>(
    r: Result<(&[u8], T), ParseError>,
    input: Seq<u8>,
    expect: Parsed<T::V>,
) -> bool {
    match r {
        Ok((rest, value)) => expect matches Ok((n, v)) && 0 <= n <= input.len() && rest@
            == input.skip(n) && value@ == v,
        Err(e) => expect == Err::<(int, T::V), Fault>(e@),
    }
}

} // verus!
