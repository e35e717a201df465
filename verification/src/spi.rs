//! SPI display transport: command-mode encoding into bounded bus writes.
//!
//! [`SpiDisplay`] drives a write-only display bus with a data/command (DC)
//! select line: DC low marks command bytes, DC high marks data bytes. A
//! logical byte or word stream of any length is encoded into bus
//! transactions of at most [`STAGING_LEN`] bytes each, so per-transaction
//! memory stays bounded regardless of the stream's length and the number of
//! writes is the stream's byte length divided by the staging size, rounded
//! up. Byte-order handling is a pure per-word function and never reorders
//! across word boundaries.

use vstd::prelude::*;

verus! {

/// Size in bytes of the staging buffer that bounds one bus transaction.
pub const STAGING_LEN: usize = 64;

/// Errors reported by the transport layer, surfaced to the caller
/// uninterpreted and without retry.
#[derive(Clone, Copy, PartialEq, Eq, Structural, Debug)]
pub enum DisplayError {
    /// The data/command select line could not be driven; reported before
    /// any byte is transmitted.
    DCError,
    /// A bus write failed; the remainder of the current send is aborted.
    BusWriteError,
    /// The source representation has no defined encoding path. The encoder
    /// supports every [`DataFormat`] variant; adapters over foreign frame
    /// types report this for representations they cannot translate.
    DataFormatNotImplemented,
}

/// A logical stream to transmit, in one of several source representations.
///
/// Slice sources are partitioned into staging-buffer-sized chunks up front;
/// iterator sources accumulate into the staging buffer and flush it whenever
/// it fills. Both paths emit the same bounded bus writes in source order.
#[derive(Debug)]
pub enum DataFormat {
    /// Bytes, sent as they are.
    U8(Vec<u8>),
    /// 16-bit words in the target's native byte order (little-endian on
    /// every supported target).
    U16(Vec<u16>),
    /// 16-bit words sent in big-endian byte order.
    U16BE(Vec<u16>),
    /// 16-bit words sent in little-endian byte order.
    U16LE(Vec<u16>),
    /// A stream of bytes, sent as they are.
    U8Iter(Vec<u8>),
    /// A stream of 16-bit words sent in big-endian byte order.
    U16BEIter(Vec<u16>),
    /// A stream of 16-bit words sent in little-endian byte order.
    U16LEIter(Vec<u16>),
}

/// The two wire bytes of `v` in big-endian order: high byte first.
pub open spec fn spec_be_bytes(v: u16) -> Seq<u8> {
    seq![(v >> 8) as u8, (v & 0xff) as u8]
}

/// The two wire bytes of `v` in little-endian order: low byte first. This
/// is also the native memory order of every supported target.
pub open spec fn spec_le_bytes(v: u16) -> Seq<u8> {
    seq![(v & 0xff) as u8, (v >> 8) as u8]
}

/// The word read back from two big-endian wire bytes.
pub open spec fn spec_word_from_be(b0: u8, b1: u8) -> u16 {
    ((b0 as u16) << 8) | (b1 as u16)
}

/// The word read back from two little-endian wire bytes.
pub open spec fn spec_word_from_le(b0: u8, b1: u8) -> u16 {
    (b0 as u16) | ((b1 as u16) << 8)
}

/// Split a word into its two big-endian wire bytes.
pub fn word_to_be_bytes(v: u16) -> (r: (u8, u8))
    ensures
        seq![r.0, r.1] == spec_be_bytes(v),
{
    ((v >> 8) as u8, (v & 0xff) as u8)
}

/// Split a word into its two little-endian wire bytes.
pub fn word_to_le_bytes(v: u16) -> (r: (u8, u8))
    ensures
        seq![r.0, r.1] == spec_le_bytes(v),
{
    ((v & 0xff) as u8, (v >> 8) as u8)
}

/// Split a word into its two native-order wire bytes; every supported
/// target is little-endian.
pub fn word_to_ne_bytes(v: u16) -> (r: (u8, u8))
    ensures
        seq![r.0, r.1] == spec_le_bytes(v),
{
    word_to_le_bytes(v)
}

/// Reassemble a word from its two big-endian wire bytes.
pub fn word_from_be_bytes(b0: u8, b1: u8) -> (v: u16)
    ensures
        v == spec_word_from_be(b0, b1),
{
    ((b0 as u16) << 8) | (b1 as u16)
}

/// Reassemble a word from its two little-endian wire bytes.
pub fn word_from_le_bytes(b0: u8, b1: u8) -> (v: u16)
    ensures
        v == spec_word_from_le(b0, b1),
{
    (b0 as u16) | ((b1 as u16) << 8)
}

/// Reassemble a word from its two native-order wire bytes.
pub fn word_from_ne_bytes(b0: u8, b1: u8) -> (v: u16)
    ensures
        v == spec_word_from_le(b0, b1),
{
    word_from_le_bytes(b0, b1)
}

/// Decoding the two big-endian wire bytes of a word gives the word back.
pub proof fn lemma_be_word_round_trip(v: u16)
    ensures
        spec_word_from_be(spec_be_bytes(v)[0], spec_be_bytes(v)[1]) == v,
{
    assert((((v >> 8) as u8 as u16) << 8) | ((v & 0xff) as u8 as u16) == v) by (bit_vector);
}

/// Decoding the two little-endian wire bytes of a word gives the word back.
pub proof fn lemma_le_word_round_trip(v: u16)
    ensures
        spec_word_from_le(spec_le_bytes(v)[0], spec_le_bytes(v)[1]) == v,
{
    assert(((v & 0xff) as u8 as u16) | (((v >> 8) as u8 as u16) << 8) == v) by (bit_vector);
}

/// The wire bytes of a word sequence, each word encoded in the requested
/// byte order, words in source order. The per-word function never reorders
/// across word boundaries.
pub open spec fn words_bytes(ws: Seq<u16>, big: bool) -> Seq<u8>
    decreases ws.len(),
{
    if ws.len() == 0 {
        Seq::empty()
    } else {
        (if big {
            spec_be_bytes(ws[0])
        } else {
            spec_le_bytes(ws[0])
        }) + words_bytes(ws.skip(1), big)
    }
}

/// The words read back from a wire byte stream, two bytes per word in the
/// requested byte order; a trailing odd byte carries no word.
pub open spec fn bytes_words(bs: Seq<u8>, big: bool) -> Seq<u16>
    decreases bs.len(),
{
    if bs.len() < 2 {
        Seq::empty()
    } else {
        seq![
            if big {
                spec_word_from_be(bs[0], bs[1])
            } else {
                spec_word_from_le(bs[0], bs[1])
            },
        ] + bytes_words(bs.skip(2), big)
    }
}

/// Encoding a word sequence in either byte order and decoding it with the
/// matching order reproduces the original words exactly.
pub proof fn lemma_words_round_trip(ws: Seq<u16>, big: bool)
    ensures
        bytes_words(words_bytes(ws, big), big) == ws,
    decreases ws.len(),
{
    if ws.len() == 0 {
        assert(bytes_words(words_bytes(ws, big), big) =~= ws);
    } else {
        let head = if big {
            spec_be_bytes(ws[0])
        } else {
            spec_le_bytes(ws[0])
        };
        let tail = words_bytes(ws.skip(1), big);
        let bs = words_bytes(ws, big);
        assert(bs == head + tail);
        assert(bs[0] == head[0] && bs[1] == head[1]);
        if big {
            lemma_be_word_round_trip(ws[0]);
        } else {
            lemma_le_word_round_trip(ws[0]);
        }
        assert(bs.skip(2) =~= tail);
        lemma_words_round_trip(ws.skip(1), big);
        assert(bytes_words(bs, big) =~= ws);
    }
}

/// The wire byte stream of a frame: bytes as they are, words through their
/// byte order.
pub open spec fn spec_stream(f: DataFormat) -> Seq<u8> {
    match f {
        DataFormat::U8(b) => b@,
        DataFormat::U8Iter(b) => b@,
        DataFormat::U16(w) => words_bytes(w@, false),
        DataFormat::U16LE(w) => words_bytes(w@, false),
        DataFormat::U16LEIter(w) => words_bytes(w@, false),
        DataFormat::U16BE(w) => words_bytes(w@, true),
        DataFormat::U16BEIter(w) => words_bytes(w@, true),
    }
}

/// A stream partitioned into transactions of `b` bytes: every piece is full
/// except possibly the last, and their concatenation is the stream.
pub open spec fn chunks_of(s: Seq<u8>, b: int) -> Seq<Seq<u8>>
    decreases s.len(),
    when b >= 1
{
    if s.len() == 0 {
        Seq::empty()
    } else if s.len() <= b {
        seq![s]
    } else {
        seq![s.take(b)] + chunks_of(s.skip(b), b)
    }
}

/// The shape of a chunked stream: the pieces concatenate back to the
/// stream, each piece is non-empty and at most `b` bytes, every piece
/// before the last is exactly full, and the number of pieces is the
/// stream's length divided by `b`, rounded up.
pub proof fn lemma_chunks_shape(s: Seq<u8>, b: int)
    requires
        b >= 1,
    ensures
        chunks_of(s, b).flatten() == s,
        forall|i: int| 0 <= i < chunks_of(s, b).len() ==> 1 <= #[trigger] chunks_of(s, b)[i].len() <= b,
        forall|i: int| 0 <= i < chunks_of(s, b).len() - 1 ==> #[trigger] chunks_of(s, b)[i].len() == b,
        chunks_of(s, b).len() == (s.len() + b - 1) / b,
    decreases s.len(),
{
    let cs = chunks_of(s, b);
    if s.len() == 0 {
        assert(cs.flatten() =~= s);
        vstd::arithmetic::div_mod::lemma_basic_div(b - 1, b);
    } else if s.len() <= b {
        assert(cs == seq![s]);
        assert(cs.flatten() =~= s) by {
            assert(cs.drop_first() =~= Seq::<Seq<u8>>::empty());
            assert(cs.drop_first().flatten() =~= Seq::<u8>::empty());
            assert(cs.flatten() == s + cs.drop_first().flatten());
        }
        assert(cs.len() == (s.len() + b - 1) / b) by {
            vstd::arithmetic::div_mod::lemma_basic_div(s.len() - 1, b);
            vstd::arithmetic::div_mod::lemma_hoist_over_denominator(s.len() - 1, 1, b as nat);
        }
    } else {
        lemma_chunks_shape(s.skip(b), b);
        let rest = chunks_of(s.skip(b), b);
        assert(cs == seq![s.take(b)] + rest);
        assert(cs.drop_first() =~= rest);
        assert(cs.flatten() == s.take(b) + rest.flatten());
        assert(cs.flatten() =~= s);
        assert forall|i: int| 0 <= i < cs.len() implies 1 <= #[trigger] cs[i].len() <= b by {
            if i > 0 {
                assert(cs[i] == rest[i - 1]);
            }
        }
        assert forall|i: int| 0 <= i < cs.len() - 1 implies #[trigger] cs[i].len() == b by {
            if i > 0 {
                assert(cs[i] == rest[i - 1]);
            }
        }
        assert(cs.len() == (s.len() + b - 1) / b) by {
            vstd::arithmetic::div_mod::lemma_hoist_over_denominator(s.len() - b + b - 1, 1, b as nat);
        }
    }
}

/// The views of a vector of byte chunks.
pub open spec fn chunk_views(chunks: Seq<Vec<u8>>) -> Seq<Seq<u8>> {
    chunks.map(|_i: int, c: Vec<u8>| c@)
}

/// Copy a byte vector; the staging path for byte sources.
fn copy_bytes(src: &Vec<u8>) -> (out: Vec<u8>)
    ensures
        out@ == src@,
{
    let mut out: Vec<u8> = Vec::new();
    let mut i: usize = 0;
    while i < src.len()
        invariant
            i <= src@.len(),
            out@ == src@.take(i as int),
        decreases src@.len() - i,
    {
        out.push(src[i]);
        proof {
            assert(out@ =~= src@.take(i as int + 1));
        }
        i = i + 1;
    }
    proof {
        assert(src@.take(src@.len() as int) =~= src@);
    }
    out
}

/// Encode a word vector to wire bytes in the requested byte order.
fn words_to_wire(src: &Vec<u16>, big: bool) -> (out: Vec<u8>)
    ensures
        out@ == words_bytes(src@, big),
{
    let mut out: Vec<u8> = Vec::new();
    let mut i: usize = 0;
    proof {
        assert(src@.skip(0) =~= src@);
    }
    while i < src.len()
        invariant
            i <= src@.len(),
            out@ + words_bytes(src@.skip(i as int), big) == words_bytes(src@, big),
        decreases src@.len() - i,
    {
        let ghost rest = src@.skip(i as int);
        let (b0, b1) = if big {
            word_to_be_bytes(src[i])
        } else {
            word_to_le_bytes(src[i])
        };
        out.push(b0);
        out.push(b1);
        proof {
            assert(rest[0] == src@[i as int]);
            assert(rest.skip(1) =~= src@.skip(i as int + 1));
            assert(out@ + words_bytes(src@.skip(i as int + 1), big) =~= words_bytes(src@, big));
        }
        i = i + 1;
    }
    proof {
        assert(src@.skip(src@.len() as int) =~= Seq::<u16>::empty());
        assert(out@ =~= out@ + words_bytes(src@.skip(src@.len() as int), big));
    }
    out
}

/// The full wire byte stream of a frame, before chunking.
pub fn frame_bytes(frame: &DataFormat) -> (out: Vec<u8>)
    ensures
        out@ == spec_stream(*frame),
{
    match frame {
        DataFormat::U8(b) => copy_bytes(b),
        DataFormat::U8Iter(b) => copy_bytes(b),
        DataFormat::U16(w) => words_to_wire(w, false),
        DataFormat::U16LE(w) => words_to_wire(w, false),
        DataFormat::U16LEIter(w) => words_to_wire(w, false),
        DataFormat::U16BE(w) => words_to_wire(w, true),
        DataFormat::U16BEIter(w) => words_to_wire(w, true),
    }
}

/// Partition a wire stream into staging-buffer-sized transactions.
#[verifier::loop_isolation(false)]
pub fn chunk_stream(bytes: &Vec<u8>) -> (chunks: Vec<Vec<u8>>)
    ensures
        chunk_views(chunks@) == chunks_of(bytes@, STAGING_LEN as int),
{
    let mut chunks: Vec<Vec<u8>> = Vec::new();
    let mut pos: usize = 0;
    proof {
        assert(bytes@.skip(0) =~= bytes@);
        assert(chunk_views(chunks@) =~= Seq::<Seq<u8>>::empty());
    }
    while pos < bytes.len()
        invariant
            pos <= bytes@.len(),
            chunk_views(chunks@) + chunks_of(bytes@.skip(pos as int), STAGING_LEN as int)
                == chunks_of(bytes@, STAGING_LEN as int),
        decreases bytes@.len() - pos,
    {
        let ghost rest = bytes@.skip(pos as int);
        let remaining = bytes.len() - pos;
        let csize = if remaining < STAGING_LEN {
            remaining
        } else {
            STAGING_LEN
        };
        let mut chunk: Vec<u8> = Vec::new();
        let mut j: usize = 0;
        while j < csize
            invariant
                j <= csize,
                csize <= remaining,
                remaining == bytes@.len() - pos,
                chunk@ == bytes@.subrange(pos as int, pos as int + j as int),
            decreases csize - j,
        {
            chunk.push(bytes[pos + j]);
            proof {
                assert(chunk@ =~= bytes@.subrange(pos as int, pos as int + j as int + 1));
            }
            j = j + 1;
        }
        proof {
            if remaining <= STAGING_LEN {
                assert(chunk@ =~= rest);
                assert(chunks_of(rest, STAGING_LEN as int) == seq![rest]);
            } else {
                assert(chunk@ =~= rest.take(STAGING_LEN as int));
                assert(rest.skip(STAGING_LEN as int) =~= bytes@.skip(
                    pos as int + STAGING_LEN as int,
                ));
            }
        }
        let ghost prev = chunks@;
        chunks.push(chunk);
        proof {
            assert(chunk_views(chunks@) =~= chunk_views(prev).push(chunk@));
        }
        pos = pos + csize;
        proof {
            assert(chunk_views(chunks@) + chunks_of(bytes@.skip(pos as int), STAGING_LEN as int)
                =~= chunks_of(bytes@, STAGING_LEN as int));
        }
    }
    proof {
        assert(bytes@.skip(bytes@.len() as int) =~= Seq::<u8>::empty());
        assert(chunk_views(chunks@) =~= chunks_of(bytes@, STAGING_LEN as int));
    }
    chunks
}

/// Encode a frame into its sequence of bounded bus transactions: the wire
/// stream partitioned into pieces of at most [`STAGING_LEN`] bytes, in
/// source order.
pub fn encode_frame(frame: &DataFormat) -> (chunks: Vec<Vec<u8>>)
    ensures
        chunk_views(chunks@) == chunks_of(spec_stream(*frame), STAGING_LEN as int),
{
    let stream = frame_bytes(frame);
    chunk_stream(&stream)
}

/// A write-only display bus, such as an SPI device with its chip select
/// managed by the implementation. The board's bring-up code supplies the
/// implementation; the transport only requires that a successful write puts
/// exactly the given bytes on the wire, after everything written before.
pub trait BusWrite: Sized {
    /// The payloads successfully written to the bus so far, oldest first.
    spec fn writes(&self) -> Seq<Seq<u8>>;

    /// Write one payload to the bus.
    fn write(&mut self, buf: &[u8]) -> (r: Result<(), ()>)
        ensures
            r is Ok ==> final(self).writes() == old(self).writes().push(buf@),
            r is Err ==> final(self).writes() == old(self).writes(),
    ;
}

/// The data/command select pin of a command-mode panel: low marks command
/// bytes, high marks data bytes.
pub trait DcPin: Sized {
    /// Whether the pin currently selects the data level (high).
    spec fn is_data_level(&self) -> bool;

    /// Drive the pin low, selecting command mode.
    fn set_low(&mut self) -> (r: Result<(), ()>)
        ensures
            r is Ok ==> !final(self).is_data_level(),
    ;

    /// Drive the pin high, selecting data mode.
    fn set_high(&mut self) -> (r: Result<(), ()>)
        ensures
            r is Ok ==> final(self).is_data_level(),
    ;
}

/// SPI display transport with a data/command (DC) pin.
///
/// The DC pin selects the transfer mode: low for commands, high for data.
/// Exactly one send may be in flight at a time; the encoder keeps no state
/// between sends beyond the current DC level.
pub struct SpiDisplay<SPI, DC> {
    spi: SPI,
    dc: DC,
}

impl<SPI, DC> SpiDisplay<SPI, DC> {
    /// The bus device held by the transport.
    pub closed spec fn spec_spi(self) -> SPI {
        self.spi
    }

    /// The DC pin held by the transport.
    pub closed spec fn spec_dc(self) -> DC {
        self.dc
    }

    /// Create a new SPI display transport.
    pub fn new(spi: SPI, dc: DC) -> (d: Self)
        ensures
            d.spec_spi() == spi,
            d.spec_dc() == dc,
    {
        Self { spi, dc }
    }

    /// Consume the transport and return the SPI device and DC pin.
    pub fn release(self) -> (r: (SPI, DC))
        ensures
            r.0 == self.spec_spi(),
            r.1 == self.spec_dc(),
    {
        (self.spi, self.dc)
    }
}

impl<SPI: BusWrite, DC: DcPin> SpiDisplay<SPI, DC> {
    /// The payloads this transport has successfully put on the bus.
    pub open spec fn bus_writes(self) -> Seq<Seq<u8>> {
        self.spec_spi().writes()
    }

    /// Whether the DC pin currently selects the data level.
    pub open spec fn dc_is_data(self) -> bool {
        self.spec_dc().is_data_level()
    }

    /// Issue the prepared transactions in order, aborting on the first bus
    /// failure; on failure some prefix of the transactions is on the bus.
    #[verifier::loop_isolation(false)]
    fn write_chunks(&mut self, chunks: &Vec<Vec<u8>>) -> (r: Result<(), DisplayError>)
        ensures
            final(self).spec_dc() == old(self).spec_dc(),
            r is Ok ==> final(self).bus_writes() == old(self).bus_writes() + chunk_views(chunks@),
            r is Err ==> r == Err::<(), DisplayError>(DisplayError::BusWriteError) && exists|k: int|
                0 <= k <= chunks@.len() && final(self).bus_writes() == old(self).bus_writes()
                    + chunk_views(chunks@).take(k),
    {
        let mut i: usize = 0;
        proof {
            assert(self.bus_writes() =~= old(self).bus_writes() + chunk_views(chunks@).take(0));
        }
        while i < chunks.len()
            invariant
                i <= chunks@.len(),
                self.spec_dc() == old(self).spec_dc(),
                self.bus_writes() == old(self).bus_writes() + chunk_views(chunks@).take(i as int),
            decreases chunks@.len() - i,
        {
            let chunk = &chunks[i];
            match self.spi.write(chunk.as_slice()) {
                Ok(_) => {
                    proof {
                        assert(self.bus_writes() =~= old(self).bus_writes() + chunk_views(
                            chunks@,
                        ).take(i as int + 1));
                    }
                },
                Err(_) => {
                    proof {
                        let k = i as int;
                        assert(0 <= k <= chunks@.len() && self.bus_writes() == old(
                            self,
                        ).bus_writes() + chunk_views(chunks@).take(k));
                    }
                    return Err(DisplayError::BusWriteError);
                },
            }
            i = i + 1;
        }
        proof {
            assert(chunk_views(chunks@).take(chunks@.len() as int) =~= chunk_views(chunks@));
        }
        Ok(())
    }

    /// Drive the control line to the command level, then encode and send
    /// `cmd` as bounded bus writes.
    ///
    /// On success the DC pin is low and exactly the chunked wire stream of
    /// `cmd` went out, in order, after everything sent before. A control
    /// line failure is reported as `DCError` before any byte is
    /// transmitted; a bus failure aborts the remainder of the send, leaving
    /// a prefix of the chunks on the bus.
    pub fn send_commands(&mut self, cmd: &DataFormat) -> (r: Result<(), DisplayError>)
        ensures
            r is Ok ==> !final(self).dc_is_data(),
            r is Ok ==> final(self).bus_writes()
                == old(self).bus_writes() + chunks_of(spec_stream(*cmd), STAGING_LEN as int),
            r == Err::<(), DisplayError>(DisplayError::DCError)
                ==> final(self).bus_writes() == old(self).bus_writes(),
            r is Err ==> r == Err::<(), DisplayError>(DisplayError::DCError)
                || (r == Err::<(), DisplayError>(DisplayError::BusWriteError)
                && (exists|k: int|
                    0 <= k <= chunks_of(spec_stream(*cmd), STAGING_LEN as int).len()
                    && final(self).bus_writes() == old(self).bus_writes()
                        + chunks_of(spec_stream(*cmd), STAGING_LEN as int).take(k))),
    {
        match self.dc.set_low() {
            Ok(_) => {
                let chunks = encode_frame(cmd);
                self.write_chunks(&chunks)
            },
            Err(_) => Err(DisplayError::DCError),
        }
    }

    /// Drive the control line to the data level, then encode and send
    /// `data` as bounded bus writes.
    ///
    /// The contract mirrors [`Self::send_commands`] with the DC pin high.
    pub fn send_data(&mut self, data: &DataFormat) -> (r: Result<(), DisplayError>)
        ensures
            r is Ok ==> final(self).dc_is_data(),
            r is Ok ==> final(self).bus_writes()
                == old(self).bus_writes() + chunks_of(spec_stream(*data), STAGING_LEN as int),
            r == Err::<(), DisplayError>(DisplayError::DCError)
                ==> final(self).bus_writes() == old(self).bus_writes(),
            r is Err ==> r == Err::<(), DisplayError>(DisplayError::DCError)
                || (r == Err::<(), DisplayError>(DisplayError::BusWriteError)
                && (exists|k: int|
                    0 <= k <= chunks_of(spec_stream(*data), STAGING_LEN as int).len()
                    && final(self).bus_writes() == old(self).bus_writes()
                        + chunks_of(spec_stream(*data), STAGING_LEN as int).take(k))),
    {
        match self.dc.set_high() {
            Ok(_) => {
                let chunks = encode_frame(data);
                self.write_chunks(&chunks)
            },
            Err(_) => Err(DisplayError::DCError),
        }
    }
}

/// A bus that records every payload written to it: the reference back-end
/// for exercising the transport without hardware.
pub struct RecordedBus {
    log: Vec<Vec<u8>>,
}

impl RecordedBus {
    /// A bus with an empty log.
    pub fn new() -> (b: Self)
        ensures
            b.writes() == Seq::<Seq<u8>>::empty(),
    {
        let b = RecordedBus { log: Vec::new() };
        proof {
            assert(b.writes() =~= Seq::<Seq<u8>>::empty());
        }
        b
    }

    /// Borrow the recorded payloads, oldest first.
    pub fn log(&self) -> (r: &Vec<Vec<u8>>)
        ensures
            chunk_views(r@) == self.writes(),
    {
        &self.log
    }
}

impl BusWrite for RecordedBus {
    closed spec fn writes(&self) -> Seq<Seq<u8>> {
        chunk_views(self.log@)
    }

    fn write(&mut self, buf: &[u8]) -> (r: Result<(), ()>) {
        let mut payload: Vec<u8> = Vec::new();
        let mut i: usize = 0;
        while i < buf.len()
            invariant
                i <= buf@.len(),
                payload@ == buf@.take(i as int),
            decreases buf@.len() - i,
        {
            payload.push(buf[i]);
            proof {
                assert(payload@ =~= buf@.take(i as int + 1));
            }
            i = i + 1;
        }
        proof {
            assert(payload@ =~= buf@);
        }
        let ghost prev = self.log@;
        self.log.push(payload);
        proof {
            assert(chunk_views(self.log@) =~= chunk_views(prev).push(buf@));
        }
        Ok(())
    }
}

/// A bus that accepts a fixed number of writes and then fails every further
/// one: the back-end for exercising bus-failure handling.
pub struct SaturatingBus {
    log: Vec<Vec<u8>>,
    accept: usize,
}

impl SaturatingBus {
    /// A bus that will accept exactly `accept` writes.
    pub fn new(accept: usize) -> (b: Self)
        ensures
            b.writes() == Seq::<Seq<u8>>::empty(),
    {
        let b = SaturatingBus { log: Vec::new(), accept };
        proof {
            assert(b.writes() =~= Seq::<Seq<u8>>::empty());
        }
        b
    }

    /// Borrow the payloads accepted so far, oldest first.
    pub fn log(&self) -> (r: &Vec<Vec<u8>>)
        ensures
            chunk_views(r@) == self.writes(),
    {
        &self.log
    }
}

impl BusWrite for SaturatingBus {
    closed spec fn writes(&self) -> Seq<Seq<u8>> {
        chunk_views(self.log@)
    }

    fn write(&mut self, buf: &[u8]) -> (r: Result<(), ()>) {
        if self.log.len() >= self.accept {
            return Err(());
        }
        let mut payload: Vec<u8> = Vec::new();
        let mut i: usize = 0;
        while i < buf.len()
            invariant
                i <= buf@.len(),
                payload@ == buf@.take(i as int),
            decreases buf@.len() - i,
        {
            payload.push(buf[i]);
            proof {
                assert(payload@ =~= buf@.take(i as int + 1));
            }
            i = i + 1;
        }
        proof {
            assert(payload@ =~= buf@);
        }
        let ghost prev = self.log@;
        self.log.push(payload);
        proof {
            assert(chunk_views(self.log@) =~= chunk_views(prev).push(buf@));
        }
        Ok(())
    }
}

/// A DC pin that records its level: the reference pin for exercising the
/// transport without hardware.
pub struct RecordedPin {
    high: bool,
}

impl RecordedPin {
    /// A pin initially driven low.
    pub fn new() -> (p: Self)
        ensures
            !p.is_data_level(),
    {
        RecordedPin { high: false }
    }

    /// Whether the pin is currently driven high.
    pub fn is_high(&self) -> (r: bool)
        ensures
            r == self.is_data_level(),
    {
        self.high
    }
}

impl DcPin for RecordedPin {
    closed spec fn is_data_level(&self) -> bool {
        self.high
    }

    fn set_low(&mut self) -> (r: Result<(), ()>) {
        self.high = false;
        Ok(())
    }

    fn set_high(&mut self) -> (r: Result<(), ()>) {
        self.high = true;
        Ok(())
    }
}

/// A DC pin whose driver has failed: every level change is refused. The
/// back-end for exercising control-line failure handling.
pub struct BrokenPin {
    high: bool,
}

impl BrokenPin {
    /// A broken pin stuck at the low level.
    pub fn new() -> (p: Self)
        ensures
            !p.is_data_level(),
    {
        BrokenPin { high: false }
    }
}

impl DcPin for BrokenPin {
    closed spec fn is_data_level(&self) -> bool {
        self.high
    }

    fn set_low(&mut self) -> (r: Result<(), ()>) {
        Err(())
    }

    fn set_high(&mut self) -> (r: Result<(), ()>) {
        Err(())
    }
}

} // verus!
