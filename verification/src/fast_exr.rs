//! The metadata parser: a bounds-checked cursor over an owned byte buffer,
//! and the attribute-stream state machine that turns the front of an EXR
//! file into a [`FastEXRMetadata`] record without touching pixel data.

use vstd::prelude::*;

use crate::errors::ParseError;
use crate::text::{all_printable_bytes, decode_lossy, lossy_of, printable_ascii};
use crate::wire::{after_str, le_i32, le_u32, lemma_nul_pos, lemma_nul_pos_step, nul_pos, str_bytes};
use crate::EXR_MAGIC;

verus! {

/// How one channel's samples are stored.
#[derive(Debug, Clone, Copy, PartialEq, Eq, Structural)]
pub enum SampleType {
    UInt,
    Half,
    Float,
}

impl SampleType {
    /// The sample type a pixel-type code denotes, or the unknown-sample-type
    /// error carrying the raw code.
    pub open spec fn spec_from_u32(value: u32) -> Result<SampleType, ParseError> {
        if value == 0 {
            Ok(SampleType::UInt)
        } else if value == 1 {
            Ok(SampleType::Half)
        } else if value == 2 {
            Ok(SampleType::Float)
        } else {
            Err(ParseError::UnknownSampleType(value))
        }
    }

    /// Map a pixel-type code read from the wire to its sample type.
    pub fn from_u32(value: u32) -> (r: Result<SampleType, ParseError>)
        ensures
            r == SampleType::spec_from_u32(value),
    {
        match value {
            0 => Ok(SampleType::UInt),
            1 => Ok(SampleType::Half),
            2 => Ok(SampleType::Float),
            _ => Err(ParseError::UnknownSampleType(value)),
        }
    }
}

/// The compression scheme a header declares.
#[derive(Debug, Clone, Copy, PartialEq, Eq, Structural)]
pub enum Compression {
    NoCompression,
    Rle,
    Zips,
    Zip,
    Piz,
    Pxr24,
    B44,
    B44A,
    Dwaa,
    Dwab,
    /// No compression attribute with a payload was seen.
    Unknown,
    /// A compression attribute carried a code outside the fixed table.
    UnknownCode(u8),
}

/// The compression a one-byte code denotes.
pub open spec fn spec_compression(code: u8) -> Compression {
    if code == 0 {
        Compression::NoCompression
    } else if code == 1 {
        Compression::Rle
    } else if code == 2 {
        Compression::Zips
    } else if code == 3 {
        Compression::Zip
    } else if code == 4 {
        Compression::Piz
    } else if code == 5 {
        Compression::Pxr24
    } else if code == 6 {
        Compression::B44
    } else if code == 7 {
        Compression::B44A
    } else if code == 8 {
        Compression::Dwaa
    } else if code == 9 {
        Compression::Dwab
    } else {
        Compression::UnknownCode(code)
    }
}

/// The order scanlines are stored in.
#[derive(Debug, Clone, Copy, PartialEq, Eq, Structural)]
pub enum LineOrder {
    Increasing,
    Decreasing,
    Random,
    /// A line-order attribute carried a code outside the fixed table.
    UnknownCode(u8),
}

/// The line order a one-byte code denotes.
pub open spec fn spec_line_order(code: u8) -> LineOrder {
    if code == 0 {
        LineOrder::Increasing
    } else if code == 1 {
        LineOrder::Decreasing
    } else if code == 2 {
        LineOrder::Random
    } else {
        LineOrder::UnknownCode(code)
    }
}

/// One named data plane of the image, as the channel list declares it.
#[derive(Debug, PartialEq)]
pub struct ChannelInfo {
    /// Channel name; may carry a `.`-delimited layer prefix.
    pub name: String,
    pub sample_type: SampleType,
    /// x and y subsampling factors.
    pub sampling: (i32, i32),
    pub quantize_linearly: bool,
}

/// Mathematical image of a [`ChannelInfo`].
#[verifier::ext_equal]
pub ghost struct ChannelInfoV {
    pub name: Seq<char>,
    pub sample_type: SampleType,
    pub x_sampling: i32,
    pub y_sampling: i32,
    pub quantize_linearly: bool,
}

impl View for ChannelInfo {
    type V = ChannelInfoV;

    open spec fn view(&self) -> ChannelInfoV {
        ChannelInfoV {
            name: self.name@,
            sample_type: self.sample_type,
            x_sampling: self.sampling.0,
            y_sampling: self.sampling.1,
            quantize_linearly: self.quantize_linearly,
        }
    }
}

/// The images of a sequence of channels.
pub open spec fn channels_view(s: Seq<ChannelInfo>) -> Seq<ChannelInfoV> {
    s.map_values(|c: ChannelInfo| c@)
}

/// The structural metadata one parse extracts from a file's header.
///
/// The pixel aspect ratio is kept as the raw bit pattern of the 32-bit
/// float the header stores, so the record itself stays in the realm of
/// plain integers; presentation code may reinterpret the bits.
#[derive(Debug, PartialEq)]
pub struct FastEXRMetadata {
    /// Channels in on-disk order.
    pub channels: Vec<ChannelInfo>,
    /// min-x, min-y, max-x, max-y.
    pub display_window: (i32, i32, i32, i32),
    /// Bit pattern of the pixel aspect ratio; defaults to the bits of 1.0.
    pub pixel_aspect_bits: u32,
    pub compression: Compression,
    pub line_order: LineOrder,
    pub layer_name: Option<String>,
    /// Small printable custom attributes, keyed by attribute name, in the
    /// order the header presented them.
    pub custom_attributes: Vec<(String, String)>,
}

/// Mathematical image of a [`FastEXRMetadata`].
#[verifier::ext_equal]
pub ghost struct MetadataV {
    pub channels: Seq<ChannelInfoV>,
    pub display_window: (i32, i32, i32, i32),
    pub pixel_aspect_bits: u32,
    pub compression: Compression,
    pub line_order: LineOrder,
    pub layer_name: Option<Seq<char>>,
    pub custom_attributes: Seq<(Seq<char>, Seq<char>)>,
}

/// The images of the stored custom attribute pairs.
pub open spec fn custom_view(s: Seq<(String, String)>) -> Seq<(Seq<char>, Seq<char>)> {
    s.map_values(|p: (String, String)| (p.0@, p.1@))
}

impl View for FastEXRMetadata {
    type V = MetadataV;

    open spec fn view(&self) -> MetadataV {
        MetadataV {
            channels: channels_view(self.channels@),
            display_window: self.display_window,
            pixel_aspect_bits: self.pixel_aspect_bits,
            compression: self.compression,
            line_order: self.line_order,
            layer_name: match self.layer_name {
                Some(s) => Some(s@),
                None => None,
            },
            custom_attributes: custom_view(self.custom_attributes@),
        }
    }
}

/// Bit pattern of the 32-bit float 1.0, the default pixel aspect ratio.
pub const ASPECT_ONE_BITS: u32 = 0x3f800000;

/// The metadata record every parse starts from: no channels, a zero display
/// window, aspect ratio one, unknown compression, increasing line order.
pub open spec fn init_metadata() -> MetadataV {
    MetadataV {
        channels: Seq::empty(),
        display_window: (0i32, 0i32, 0i32, 0i32),
        pixel_aspect_bits: ASPECT_ONE_BITS,
        compression: Compression::Unknown,
        line_order: LineOrder::Increasing,
        layer_name: None,
        custom_attributes: Seq::empty(),
    }
}

/// What parsing a channel-list span yields: the channels read, in order,
/// together with the cursor position after the list, or the error that
/// stopped the parse.
pub type ChannelsParse = Result<(Seq<ChannelInfoV>, int), ParseError>;

/// The channel-list sub-parse, as a function of the buffer, the position the
/// list starts at and the position its declared span ends at.  Records are
/// read until an empty name (a valid early terminator) or until the span is
/// exhausted; each record is a NUL-terminated name, a pixel-type code, a
/// quantization byte, three reserved bytes and two sampling factors.
pub open spec fn spec_parse_channels(data: Seq<u8>, pos: int, end: int) -> ChannelsParse
    decreases data.len() - pos
        when 0 <= pos <= data.len()
        via spec_parse_channels_decreases
{
    if pos >= end {
        Ok((Seq::empty(), pos))
    } else {
        let name_bytes = str_bytes(data, pos);
        let p1 = after_str(data, pos);
        if name_bytes.len() == 0 {
            Ok((Seq::empty(), p1))
        } else if data.len() - p1 < 16 {
            Err(ParseError::UnexpectedEndOfData)
        } else {
            match SampleType::spec_from_u32(le_u32(data, p1)) {
                Err(er) => Err(er),
                Ok(st) => {
                    let ch = ChannelInfoV {
                        name: lossy_of(name_bytes),
                        sample_type: st,
                        x_sampling: le_i32(data, p1 + 8),
                        y_sampling: le_i32(data, p1 + 12),
                        quantize_linearly: data[p1 + 4] != 0,
                    };
                    match spec_parse_channels(data, p1 + 16, end) {
                        Ok((rest, fin)) => Ok((seq![ch] + rest, fin)),
                        Err(er) => Err(er),
                    }
                },
            }
        }
    }
}

#[via_fn]
proof fn spec_parse_channels_decreases(data: Seq<u8>, pos: int, end: int) {
    if 0 <= pos <= data.len() {
        lemma_nul_pos(data, pos);
    }
}

/// Prepend already-read channels to the outcome of parsing the rest of a
/// list.
pub open spec fn spec_channels_extend(prefix: Seq<ChannelInfoV>, tail: ChannelsParse) -> ChannelsParse {
    match tail {
        Ok((rest, fin)) => Ok((prefix + rest, fin)),
        Err(er) => Err(er),
    }
}

/// A successful channel-list parse leaves the cursor between where it
/// started and the buffer end.
pub proof fn lemma_spec_parse_channels_pos(data: Seq<u8>, pos: int, end: int)
    requires
        0 <= pos <= data.len(),
    ensures
        spec_parse_channels(data, pos, end) matches Ok(t) ==> pos <= t.1 <= data.len(),
    decreases data.len() - pos,
{
    lemma_nul_pos(data, pos);
    if pos < end {
        let p1 = after_str(data, pos);
        if str_bytes(data, pos).len() != 0 && data.len() - p1 >= 16 {
            lemma_spec_parse_channels_pos(data, p1 + 16, end);
        }
    }
}

proof fn lemma_channels_view_push(s: Seq<ChannelInfo>, c: ChannelInfo)
    ensures
        channels_view(s.push(c)) == channels_view(s) + seq![c@],
{
    assert(channels_view(s.push(c)) =~= channels_view(s) + seq![c@]);
}

proof fn lemma_channels_extend_assoc(
    a: Seq<ChannelInfoV>,
    b: Seq<ChannelInfoV>,
    t: ChannelsParse,
)
    ensures
        spec_channels_extend(a, spec_channels_extend(b, t)) == spec_channels_extend(a + b, t),
{
    match t {
        Ok(p) => {
            assert(a + (b + p.0) =~= (a + b) + p.0);
        },
        Err(_) => {},
    }
}

/// What reading a one-byte coded attribute (compression or line order)
/// yields: the decoded value and the cursor position after the declared
/// payload, or the error that stopped the read.
pub type CodedRead<T> = Result<(T, int), ParseError>;

/// Reading a compression attribute of declared size `size` at `pos`: one
/// code byte mapped through the fixed table, the rest of the payload
/// skipped.  A zero-size payload consumes nothing and yields `Unknown`.
pub open spec fn spec_read_compression(data: Seq<u8>, pos: int, size: int) -> CodedRead<
    Compression,
> {
    if size >= 1 {
        if data.len() - pos < size {
            Err(ParseError::UnexpectedEndOfData)
        } else {
            Ok((spec_compression(data[pos]), pos + size))
        }
    } else {
        Ok((Compression::Unknown, pos))
    }
}

/// Reading a line-order attribute of declared size `size` at `pos`: one
/// code byte mapped through the fixed table, the rest of the payload
/// skipped.  A zero-size payload consumes nothing and yields `Increasing`.
pub open spec fn spec_read_line_order(data: Seq<u8>, pos: int, size: int) -> CodedRead<
    LineOrder,
> {
    if size >= 1 {
        if data.len() - pos < size {
            Err(ParseError::UnexpectedEndOfData)
        } else {
            Ok((spec_line_order(data[pos]), pos + size))
        }
    } else {
        Ok((LineOrder::Increasing, pos))
    }
}

/// What the attribute-stream loop yields from a buffer position and the
/// metadata accumulated so far: the completed record and the cursor
/// position after the stream's terminator, or the error that stopped it.
pub type AttrsParse = Result<(MetadataV, int), ParseError>;

/// The attribute-stream parse: starting at `pos` with accumulated record
/// `m`, read records of NUL-terminated name, NUL-terminated type tag
/// (discarded) and a 4-byte size, dispatching on the name, until an empty
/// name or the buffer end.
///
/// Two properties of the stream layout are deliberate:
/// - a known attribute whose declared size exceeds the bytes its typed read
///   consumes leaves the excess in place for the next record (conformant
///   files declare exact sizes, so nothing is skipped twice), and
/// - the channel list may stop at an early empty-name terminator, in which
///   case the stream continues right after that terminator.
#[verifier::opaque]
pub open spec fn spec_parse_attrs(data: Seq<u8>, pos: int, m: MetadataV) -> AttrsParse
    decreases data.len() - pos
        when 0 <= pos <= data.len()
        via spec_parse_attrs_decreases
{
    if pos >= data.len() {
        Ok((m, pos))
    } else {
        let name_bytes = str_bytes(data, pos);
        let p1 = after_str(data, pos);
        if name_bytes.len() == 0 {
            Ok((m, p1))
        } else {
            let p2 = after_str(data, p1);
            if data.len() - p2 < 4 {
                Err(ParseError::UnexpectedEndOfData)
            } else {
                let size = le_u32(data, p2) as int;
                let p3 = p2 + 4;
                let name = lossy_of(name_bytes);
                if name == "channels"@ {
                    match spec_parse_channels(data, p3, p3 + size) {
                        Ok((chs, p4)) => spec_parse_attrs(
                            data,
                            p4,
                            MetadataV { channels: chs, ..m },
                        ),
                        Err(er) => Err(er),
                    }
                } else if name == "displayWindow"@ {
                    if size >= 16 {
                        if data.len() - p3 < 16 {
                            Err(ParseError::UnexpectedEndOfData)
                        } else {
                            spec_parse_attrs(
                                data,
                                p3 + 16,
                                MetadataV {
                                    display_window: (
                                        le_i32(data, p3),
                                        le_i32(data, p3 + 4),
                                        le_i32(data, p3 + 8),
                                        le_i32(data, p3 + 12),
                                    ),
                                    ..m
                                },
                            )
                        }
                    } else if data.len() - p3 < size {
                        Err(ParseError::UnexpectedEndOfData)
                    } else {
                        spec_parse_attrs(data, p3 + size, m)
                    }
                } else if name == "pixelAspectRatio"@ {
                    if size >= 4 {
                        if data.len() - p3 < 4 {
                            Err(ParseError::UnexpectedEndOfData)
                        } else {
                            spec_parse_attrs(
                                data,
                                p3 + 4,
                                MetadataV { pixel_aspect_bits: le_u32(data, p3), ..m },
                            )
                        }
                    } else if data.len() - p3 < size {
                        Err(ParseError::UnexpectedEndOfData)
                    } else {
                        spec_parse_attrs(data, p3 + size, m)
                    }
                } else if name == "compression"@ {
                    match spec_read_compression(data, p3, size) {
                        Ok((c, p4)) => spec_parse_attrs(
                            data,
                            p4,
                            MetadataV { compression: c, ..m },
                        ),
                        Err(er) => Err(er),
                    }
                } else if name == "lineOrder"@ {
                    match spec_read_line_order(data, p3, size) {
                        Ok((lo, p4)) => spec_parse_attrs(
                            data,
                            p4,
                            MetadataV { line_order: lo, ..m },
                        ),
                        Err(er) => Err(er),
                    }
                } else if name == "name"@ {
                    if size > 0 {
                        if data.len() - p3 < size {
                            Err(ParseError::UnexpectedEndOfData)
                        } else {
                            spec_parse_attrs(
                                data,
                                p3 + size,
                                MetadataV {
                                    layer_name: Some(lossy_of(data.subrange(p3, p3 + size))),
                                    ..m
                                },
                            )
                        }
                    } else {
                        spec_parse_attrs(data, p3, m)
                    }
                } else {
                    if 0 < size <= 64 {
                        if data.len() - p3 < size {
                            Err(ParseError::UnexpectedEndOfData)
                        } else {
                            let vb = data.subrange(p3, p3 + size);
                            if all_printable_bytes(vb) {
                                spec_parse_attrs(
                                    data,
                                    p3 + size,
                                    MetadataV {
                                        custom_attributes: m.custom_attributes.push(
                                            (name, lossy_of(vb)),
                                        ),
                                        ..m
                                    },
                                )
                            } else {
                                spec_parse_attrs(data, p3 + size, m)
                            }
                        }
                    } else if data.len() - p3 < size {
                        Err(ParseError::UnexpectedEndOfData)
                    } else {
                        spec_parse_attrs(data, p3 + size, m)
                    }
                }
            }
        }
    }
}

#[via_fn]
proof fn spec_parse_attrs_decreases(data: Seq<u8>, pos: int, m: MetadataV) {
    if 0 <= pos < data.len() {
        lemma_nul_pos(data, pos);
        let p1 = after_str(data, pos);
        lemma_nul_pos(data, p1);
        let p2 = after_str(data, p1);
        if data.len() - p2 >= 4 {
            let size = le_u32(data, p2) as int;
            lemma_spec_parse_channels_pos(data, p2 + 4, p2 + 4 + size);
        }
    }
}

/// A channel list whose first byte is a NUL is terminated by that empty
/// name: the sub-parse yields no channels and stops right after the
/// terminator, without error and without consuming the rest of the
/// declared span, however far away its end `end` may lie.
pub proof fn lemma_channel_list_early_terminator(data: Seq<u8>, pos: int, end: int)
    requires
        0 <= pos < data.len(),
        pos < end,
        data[pos] == 0,
    ensures
        spec_parse_channels(data, pos, end) == Ok::<_, ParseError>((
            Seq::<ChannelInfoV>::empty(),
            pos + 1,
        )),
{
    assert(nul_pos(data, pos) == pos);
    assert(str_bytes(data, pos) =~= Seq::<u8>::empty());
}

/// Processing one unrecognized attribute record whose payload lies within
/// the buffer consumes exactly the record: the name and its terminator,
/// the type tag and its terminator, the four size bytes, and the declared
/// `size` payload bytes — whatever the payload holds.  The record leaves
/// every metadata field unchanged except possibly the custom attributes,
/// which either stay as they are or gain the record's name and decoded
/// payload at the end.
pub proof fn lemma_unknown_attribute_consumption(data: Seq<u8>, pos: int, m: MetadataV)
    requires
        0 <= pos < data.len(),
        str_bytes(data, pos).len() > 0,
        nul_pos(data, pos) < data.len(),
        nul_pos(data, after_str(data, pos)) < data.len(),
        data.len() - after_str(data, after_str(data, pos)) >= 4,
        lossy_of(str_bytes(data, pos)) != "channels"@,
        lossy_of(str_bytes(data, pos)) != "displayWindow"@,
        lossy_of(str_bytes(data, pos)) != "pixelAspectRatio"@,
        lossy_of(str_bytes(data, pos)) != "compression"@,
        lossy_of(str_bytes(data, pos)) != "lineOrder"@,
        lossy_of(str_bytes(data, pos)) != "name"@,
        data.len() - (after_str(data, after_str(data, pos)) + 4) >= le_u32(
            data,
            after_str(data, after_str(data, pos)),
        ) as int,
    ensures
        ({
            let p1 = after_str(data, pos);
            let p2 = after_str(data, p1);
            let size = le_u32(data, p2) as int;
            let next = p2 + 4 + size;
            let vb = data.subrange(p2 + 4, next);
            let kept = MetadataV {
                custom_attributes: m.custom_attributes.push(
                    (lossy_of(str_bytes(data, pos)), lossy_of(vb)),
                ),
                ..m
            };
            &&& next == pos + (str_bytes(data, pos).len() + 1) + (str_bytes(data, p1).len() + 1)
                + 4 + size
            &&& (0 < size <= 64 && all_printable_bytes(vb) ==> spec_parse_attrs(data, pos, m)
                == spec_parse_attrs(data, next, kept))
            &&& (!(0 < size <= 64 && all_printable_bytes(vb)) ==> spec_parse_attrs(data, pos, m)
                == spec_parse_attrs(data, next, m))
        }),
{
    reveal(spec_parse_attrs);
    lemma_nul_pos(data, pos);
    let p1 = after_str(data, pos);
    lemma_nul_pos(data, p1);
}

/// A bounds-checked cursor over an owned byte buffer.  `position` only ever
/// moves forward, each successful read advances it by exactly the bytes
/// consumed, and no operation leaves it past the buffer length.
pub struct FastEXRParser {
    pub data: Vec<u8>,
    pub position: usize,
}

impl FastEXRParser {
    /// The underlying buffer.
    pub open spec fn bytes(&self) -> Seq<u8> {
        self.data@
    }

    /// The cursor position.
    pub open spec fn pos(&self) -> int {
        self.position as int
    }

    /// The cursor invariant: the position never passes the buffer length.
    pub open spec fn wf(&self) -> bool {
        self.position <= self.data@.len()
    }

    /// A parser positioned at the start of the given buffer.
    pub fn from_bytes(data: Vec<u8>) -> (r: FastEXRParser)
        ensures
            r.wf(),
            r.bytes() == data@,
            r.pos() == 0,
    {
        FastEXRParser { data, position: 0 }
    }

    /// Read one byte and advance past it; fail without moving when none
    /// remains.
    pub fn read_u8(&mut self) -> (r: Result<u8, ParseError>)
        requires
            old(self).wf(),
        ensures
            final(self).wf(),
            final(self).bytes() == old(self).bytes(),
            (match r {
                Ok(v) => {
                    &&& old(self).pos() < old(self).bytes().len()
                    &&& v == old(self).bytes()[old(self).pos()]
                    &&& final(self).pos() == old(self).pos() + 1
                },
                Err(e) => {
                    &&& e == ParseError::UnexpectedEndOfData
                    &&& old(self).pos() == old(self).bytes().len()
                    &&& final(self).pos() == old(self).pos()
                },
            }),
    {
        if self.position >= self.data.len() {
            return Err(ParseError::UnexpectedEndOfData);
        }
        let v = self.data[self.position];
        self.position = self.position + 1;
        Ok(v)
    }

    /// Read a little-endian unsigned 32-bit value; fail without moving when
    /// fewer than four bytes remain.
    pub fn read_u32(&mut self) -> (r: Result<u32, ParseError>)
        requires
            old(self).wf(),
        ensures
            final(self).wf(),
            final(self).bytes() == old(self).bytes(),
            (match r {
                Ok(v) => {
                    &&& old(self).bytes().len() - old(self).pos() >= 4
                    &&& v == le_u32(old(self).bytes(), old(self).pos())
                    &&& final(self).pos() == old(self).pos() + 4
                },
                Err(e) => {
                    &&& e == ParseError::UnexpectedEndOfData
                    &&& old(self).bytes().len() - old(self).pos() < 4
                    &&& final(self).pos() == old(self).pos()
                },
            }),
    {
        if self.data.len() - self.position < 4 {
            return Err(ParseError::UnexpectedEndOfData);
        }
        let b0 = self.data[self.position];
        let b1 = self.data[self.position + 1];
        let b2 = self.data[self.position + 2];
        let b3 = self.data[self.position + 3];
        let v: u32 = (b0 as u32) + (b1 as u32) * 0x100 + (b2 as u32) * 0x10000 + (b3 as u32)
            * 0x1000000;
        self.position = self.position + 4;
        Ok(v)
    }

    /// Read a little-endian signed 32-bit value: the unsigned read,
    /// reinterpreted in two's complement.
    pub fn read_i32(&mut self) -> (r: Result<i32, ParseError>)
        requires
            old(self).wf(),
        ensures
            final(self).wf(),
            final(self).bytes() == old(self).bytes(),
            (match r {
                Ok(v) => {
                    &&& old(self).bytes().len() - old(self).pos() >= 4
                    &&& v == le_i32(old(self).bytes(), old(self).pos())
                    &&& final(self).pos() == old(self).pos() + 4
                },
                Err(e) => {
                    &&& e == ParseError::UnexpectedEndOfData
                    &&& old(self).bytes().len() - old(self).pos() < 4
                    &&& final(self).pos() == old(self).pos()
                },
            }),
    {
        match self.read_u32() {
            Ok(v) => Ok(v as i32),
            Err(e) => Err(e),
        }
    }

    /// Advance the cursor by `count` bytes; fail without moving when that
    /// would pass the buffer end.
    pub fn skip(&mut self, count: usize) -> (r: Result<(), ParseError>)
        requires
            old(self).wf(),
        ensures
            final(self).wf(),
            final(self).bytes() == old(self).bytes(),
            (match r {
                Ok(_) => {
                    &&& old(self).bytes().len() - old(self).pos() >= count
                    &&& final(self).pos() == old(self).pos() + count
                },
                Err(e) => {
                    &&& e == ParseError::UnexpectedEndOfData
                    &&& old(self).bytes().len() - old(self).pos() < count
                    &&& final(self).pos() == old(self).pos()
                },
            }),
    {
        if self.data.len() - self.position < count {
            return Err(ParseError::UnexpectedEndOfData);
        }
        self.position = self.position + count;
        Ok(())
    }

    /// Read bytes up to a NUL terminator (or the buffer end when none is
    /// found), consume the terminator, and decode the bytes lossily.  This
    /// read never fails; at the buffer end it yields the empty string.
    pub fn read_null_terminated_string(&mut self) -> (r: Result<String, ParseError>)
        requires
            old(self).wf(),
        ensures
            final(self).wf(),
            final(self).bytes() == old(self).bytes(),
            (match r {
                Ok(s) => {
                    &&& s@ == lossy_of(str_bytes(old(self).bytes(), old(self).pos()))
                    &&& (s@.len() == 0) == (str_bytes(old(self).bytes(), old(self).pos()).len()
                        == 0)
                    &&& final(self).pos() == after_str(old(self).bytes(), old(self).pos())
                },
                Err(_) => false,
            }),
    {
        let ghost data = self.data@;
        let ghost p0 = self.position as int;
        proof {
            lemma_nul_pos(data, p0);
        }
        let mut buf: Vec<u8> = Vec::new();
        while self.position < self.data.len() && self.data[self.position] != 0
            invariant
                self.data@ == data,
                data == old(self).bytes(),
                p0 == old(self).pos(),
                0 <= p0 <= self.position <= data.len(),
                nul_pos(data, p0) == nul_pos(data, self.position as int),
                buf@ == data.subrange(p0, self.position as int),
            decreases data.len() - self.position,
        {
            proof {
                lemma_nul_pos_step(data, self.position as int);
                assert(data.subrange(p0, self.position as int + 1) =~= data.subrange(
                    p0,
                    self.position as int,
                ).push(data[self.position as int]));
            }
            buf.push(self.data[self.position]);
            self.position = self.position + 1;
        }
        proof {
            assert(nul_pos(data, self.position as int) == self.position as int);
            assert(buf@ == str_bytes(data, p0));
        }
        if self.position < self.data.len() {
            self.position = self.position + 1;
        }
        Ok(decode_lossy(buf.as_slice()))
    }

    /// Read exactly `size` bytes and decode them lossily; fail without
    /// moving when fewer remain.
    pub fn read_fixed_string(&mut self, size: usize) -> (r: Result<String, ParseError>)
        requires
            old(self).wf(),
        ensures
            final(self).wf(),
            final(self).bytes() == old(self).bytes(),
            (match r {
                Ok(s) => {
                    &&& old(self).bytes().len() - old(self).pos() >= size
                    &&& s@ == lossy_of(
                        old(self).bytes().subrange(old(self).pos(), old(self).pos() + size),
                    )
                    &&& final(self).pos() == old(self).pos() + size
                },
                Err(e) => {
                    &&& e == ParseError::UnexpectedEndOfData
                    &&& old(self).bytes().len() - old(self).pos() < size
                    &&& final(self).pos() == old(self).pos()
                },
            }),
    {
        if self.data.len() - self.position < size {
            return Err(ParseError::UnexpectedEndOfData);
        }
        let s = vstd::slice::slice_subrange(
            self.data.as_slice(),
            self.position,
            self.position + size,
        );
        let r = decode_lossy(s);
        self.position = self.position + size;
        Ok(r)
    }

    /// Read a compression attribute of declared size `size`: one code byte
    /// mapped through the fixed table, any remaining payload skipped.  A
    /// zero-size payload consumes nothing and yields `Unknown`.
    pub fn read_compression(&mut self, size: usize) -> (r: Result<Compression, ParseError>)
        requires
            old(self).wf(),
        ensures
            final(self).wf(),
            final(self).bytes() == old(self).bytes(),
            old(self).pos() <= final(self).pos(),
            (match r {
                Ok(c) => spec_read_compression(old(self).bytes(), old(self).pos(), size as int)
                    == Ok::<_, ParseError>((c, final(self).pos())),
                Err(er) => spec_read_compression(old(self).bytes(), old(self).pos(), size as int)
                    == Err::<(Compression, int), _>(er),
            }),
    {
        if size >= 1 {
            let code = match self.read_u8() {
                Ok(v) => v,
                Err(er) => {
                    return Err(er);
                },
            };
            match self.skip(size - 1) {
                Ok(_) => (),
                Err(er) => {
                    return Err(er);
                },
            }
            Ok(
                match code {
                    0 => Compression::NoCompression,
                    1 => Compression::Rle,
                    2 => Compression::Zips,
                    3 => Compression::Zip,
                    4 => Compression::Piz,
                    5 => Compression::Pxr24,
                    6 => Compression::B44,
                    7 => Compression::B44A,
                    8 => Compression::Dwaa,
                    9 => Compression::Dwab,
                    _ => Compression::UnknownCode(code),
                },
            )
        } else {
            Ok(Compression::Unknown)
        }
    }

    /// Read a line-order attribute of declared size `size`: one code byte
    /// mapped through the fixed table, any remaining payload skipped.  A
    /// zero-size payload consumes nothing and yields `Increasing`.
    pub fn read_line_order(&mut self, size: usize) -> (r: Result<LineOrder, ParseError>)
        requires
            old(self).wf(),
        ensures
            final(self).wf(),
            final(self).bytes() == old(self).bytes(),
            old(self).pos() <= final(self).pos(),
            (match r {
                Ok(lo) => spec_read_line_order(old(self).bytes(), old(self).pos(), size as int)
                    == Ok::<_, ParseError>((lo, final(self).pos())),
                Err(er) => spec_read_line_order(old(self).bytes(), old(self).pos(), size as int)
                    == Err::<(LineOrder, int), _>(er),
            }),
    {
        if size >= 1 {
            let code = match self.read_u8() {
                Ok(v) => v,
                Err(er) => {
                    return Err(er);
                },
            };
            match self.skip(size - 1) {
                Ok(_) => (),
                Err(er) => {
                    return Err(er);
                },
            }
            Ok(
                match code {
                    0 => LineOrder::Increasing,
                    1 => LineOrder::Decreasing,
                    2 => LineOrder::Random,
                    _ => LineOrder::UnknownCode(code),
                },
            )
        } else {
            Ok(LineOrder::Increasing)
        }
    }

    /// Parse the channel list inside a `channels` attribute whose declared
    /// span is `size` bytes, starting at the current position.  The result
    /// and the final position are exactly those of the mathematical
    /// sub-parse [`spec_parse_channels`] over the same span.
    pub fn parse_channels(&mut self, size: usize) -> (r: Result<Vec<ChannelInfo>, ParseError>)
        requires
            old(self).wf(),
        ensures
            final(self).wf(),
            final(self).bytes() == old(self).bytes(),
            old(self).pos() <= final(self).pos(),
            (match r {
                Ok(chs) => spec_parse_channels(
                    old(self).bytes(),
                    old(self).pos(),
                    old(self).pos() + size,
                ) == Ok::<_, ParseError>((channels_view(chs@), final(self).pos())),
                Err(er) => spec_parse_channels(
                    old(self).bytes(),
                    old(self).pos(),
                    old(self).pos() + size,
                ) == Err::<(Seq<ChannelInfoV>, int), _>(er),
            }),
    {
        let ghost data = self.data@;
        let ghost p0 = self.position as int;
        let ghost end = p0 + size;
        let start_pos = self.position;
        let mut channels: Vec<ChannelInfo> = Vec::new();
        while self.position - start_pos < size
            invariant
                self.data@ == data,
                data == old(self).bytes(),
                p0 == old(self).pos(),
                end == p0 + size,
                start_pos as int == p0,
                0 <= p0 <= self.position <= data.len(),
                spec_parse_channels(data, p0, end) == spec_channels_extend(
                    channels_view(channels@),
                    spec_parse_channels(data, self.position as int, end),
                ),
            decreases data.len() - self.position,
        {
            let ghost cur = self.position as int;
            proof {
                lemma_nul_pos(data, cur);
            }
            let name = match self.read_null_terminated_string() {
                Ok(n) => n,
                Err(er) => {
                    return Err(er);
                },
            };
            let ghost p1 = self.position as int;
            if name.as_str().is_empty() {
                proof {
                    assert(spec_parse_channels(data, cur, end) == Ok::<_, ParseError>((
                        Seq::<ChannelInfoV>::empty(),
                        p1,
                    )));
                    assert(channels_view(channels@) + Seq::<ChannelInfoV>::empty()
                        =~= channels_view(channels@));
                }
                return Ok(channels);
            }
            proof {
                assert(str_bytes(data, cur).len() != 0);
            }
            let pixel_type = match self.read_u32() {
                Ok(v) => v,
                Err(er) => {
                    proof {
                        assert(spec_parse_channels(data, cur, end) == Err::<(
                            Seq<ChannelInfoV>,
                            int,
                        ), _>(ParseError::UnexpectedEndOfData));
                    }
                    return Err(er);
                },
            };
            let p_linear = match self.read_u8() {
                Ok(v) => v,
                Err(er) => {
                    return Err(er);
                },
            };
            match self.skip(3) {
                Ok(_) => (),
                Err(er) => {
                    return Err(er);
                },
            }
            let x_sampling = match self.read_i32() {
                Ok(v) => v,
                Err(er) => {
                    return Err(er);
                },
            };
            let y_sampling = match self.read_i32() {
                Ok(v) => v,
                Err(er) => {
                    return Err(er);
                },
            };
            proof {
                assert(data.len() - p1 >= 16);
            }
            let st = match SampleType::from_u32(pixel_type) {
                Ok(s) => s,
                Err(er) => {
                    return Err(er);
                },
            };
            let ch = ChannelInfo {
                name,
                sample_type: st,
                sampling: (x_sampling, y_sampling),
                quantize_linearly: p_linear != 0,
            };
            proof {
                let chv = ch@;
                let tail = spec_parse_channels(data, p1 + 16, end);
                assert(spec_parse_channels(data, cur, end) == spec_channels_extend(
                    seq![chv],
                    tail,
                ));
                lemma_channels_extend_assoc(channels_view(channels@), seq![chv], tail);
                lemma_channels_view_push(channels@, ch);
            }
            channels.push(ch);
        }
        proof {
            assert(spec_parse_channels(data, self.position as int, end) == Ok::<_, ParseError>((
                Seq::<ChannelInfoV>::empty(),
                self.position as int,
            )));
            assert(channels_view(channels@) + Seq::<ChannelInfoV>::empty() =~= channels_view(
                channels@,
            ));
        }
        Ok(channels)
    }

    /// Parse the header at the current position: magic, version, then the
    /// attribute stream.  On success the record and final position are
    /// exactly those of the mathematical parse [`spec_parse_attrs`] started
    /// just past the version word on the default record; a wrong magic
    /// fails with `InvalidMagicNumber` before any attribute is read, and
    /// every bounds failure with `UnexpectedEndOfData`.
    #[verifier::rlimit(100)]
    #[verifier::spinoff_prover]
    pub fn parse_metadata(&mut self) -> (r: Result<FastEXRMetadata, ParseError>)
        requires
            old(self).wf(),
        ensures
            final(self).wf(),
            final(self).bytes() == old(self).bytes(),
            old(self).pos() <= final(self).pos(),
            (match r {
                Ok(meta) => {
                    &&& old(self).bytes().len() - old(self).pos() >= 8
                    &&& le_u32(old(self).bytes(), old(self).pos()) == EXR_MAGIC
                    &&& spec_parse_attrs(old(self).bytes(), old(self).pos() + 8, init_metadata())
                        == Ok::<_, ParseError>((meta@, final(self).pos()))
                },
                Err(er) => {
                    ||| (old(self).bytes().len() - old(self).pos() < 4 && er
                        == ParseError::UnexpectedEndOfData && final(self).pos() == old(
                        self,
                    ).pos())
                    ||| (old(self).bytes().len() - old(self).pos() >= 4 && le_u32(
                        old(self).bytes(),
                        old(self).pos(),
                    ) != EXR_MAGIC && er == ParseError::InvalidMagicNumber && final(self).pos()
                        == old(self).pos() + 4)
                    ||| (4 <= old(self).bytes().len() - old(self).pos() < 8 && le_u32(
                        old(self).bytes(),
                        old(self).pos(),
                    ) == EXR_MAGIC && er == ParseError::UnexpectedEndOfData)
                    ||| (old(self).bytes().len() - old(self).pos() >= 8 && le_u32(
                        old(self).bytes(),
                        old(self).pos(),
                    ) == EXR_MAGIC && spec_parse_attrs(
                        old(self).bytes(),
                        old(self).pos() + 8,
                        init_metadata(),
                    ) == Err::<(MetadataV, int), _>(er))
                },
            }),
    {
        let ghost data = self.data@;
        let ghost p_start = self.position as int;
        let magic = match self.read_u32() {
            Ok(v) => v,
            Err(er) => {
                return Err(er);
            },
        };
        if magic != EXR_MAGIC {
            return Err(ParseError::InvalidMagicNumber);
        }
        let _version = match self.read_u32() {
            Ok(v) => v,
            Err(er) => {
                return Err(er);
            },
        };
        let ghost p8 = self.position as int;
        let mut metadata = FastEXRMetadata {
            channels: Vec::new(),
            display_window: (0, 0, 0, 0),
            pixel_aspect_bits: ASPECT_ONE_BITS,
            compression: Compression::Unknown,
            line_order: LineOrder::Increasing,
            layer_name: None,
            custom_attributes: Vec::new(),
        };
        proof {
            assert(channels_view(Seq::<ChannelInfo>::empty()) =~= Seq::<ChannelInfoV>::empty());
            assert(custom_view(Seq::<(String, String)>::empty()) =~= Seq::<(
                Seq<char>,
                Seq<char>,
            )>::empty());
            assert(metadata@ =~~= init_metadata());
        }
        let lit_channels: String = "channels".to_owned();
        let lit_display_window: String = "displayWindow".to_owned();
        let lit_pixel_aspect: String = "pixelAspectRatio".to_owned();
        let lit_compression: String = "compression".to_owned();
        let lit_line_order: String = "lineOrder".to_owned();
        let lit_layer_name: String = "name".to_owned();
        while self.position < self.data.len()
            invariant
                self.data@ == data,
                data == old(self).bytes(),
                p_start == old(self).pos(),
                p8 == p_start + 8,
                data.len() - p_start >= 8,
                le_u32(data, p_start) == EXR_MAGIC,
                0 <= p8 <= self.position <= data.len(),
                lit_channels@ == "channels"@,
                lit_display_window@ == "displayWindow"@,
                lit_pixel_aspect@ == "pixelAspectRatio"@,
                lit_compression@ == "compression"@,
                lit_line_order@ == "lineOrder"@,
                lit_layer_name@ == "name"@,
                spec_parse_attrs(data, p8, init_metadata()) == spec_parse_attrs(
                    data,
                    self.position as int,
                    metadata@,
                ),
            decreases data.len() - self.position,
        {
            let ghost cur = self.position as int;
            let ghost m0 = metadata@;
            proof {
                lemma_nul_pos(data, cur);
            }
            let attr_name = match self.read_null_terminated_string() {
                Ok(s) => s,
                Err(er) => {
                    return Err(er);
                },
            };
            let ghost pn1 = self.position as int;
            if attr_name.as_str().is_empty() {
                proof {
                    assert(spec_parse_attrs(data, cur, m0) == Ok::<_, ParseError>((m0, pn1))) by {
                        reveal(spec_parse_attrs);
                    };
                }
                return Ok(metadata);
            }
            proof {
                lemma_nul_pos(data, pn1);
            }
            let _attr_type = match self.read_null_terminated_string() {
                Ok(s) => s,
                Err(er) => {
                    return Err(er);
                },
            };
            let attr_size_u32 = match self.read_u32() {
                Ok(v) => v,
                Err(er) => {
                    proof {
                        assert(spec_parse_attrs(data, cur, m0) == Err::<(MetadataV, int), _>(
                            ParseError::UnexpectedEndOfData,
                        )) by {
                            reveal(spec_parse_attrs);
                        };
                    }
                    return Err(er);
                },
            };
            let attr_size = attr_size_u32 as usize;
            let ghost p3 = self.position as int;
            let ghost size = attr_size as int;
            if attr_name == lit_channels {
                match self.parse_channels(attr_size) {
                    Ok(chs) => {
                        metadata.channels = chs;
                        proof {
                            lemma_spec_parse_channels_pos(data, p3, p3 + size);
                            assert(spec_parse_attrs(data, cur, m0) == spec_parse_attrs(
                                data,
                                self.position as int,
                                metadata@,
                            )) by {
                                reveal(spec_parse_attrs);
                            };
                        }
                    },
                    Err(er) => {
                        proof {
                            assert(spec_parse_attrs(data, cur, m0) == Err::<(MetadataV, int), _>(
                                er,
                            )) by {
                                reveal(spec_parse_attrs);
                            };
                        }
                        return Err(er);
                    },
                }
            } else if attr_name == lit_display_window {
                if attr_size >= 16 {
                    let x0 = match self.read_i32() {
                        Ok(v) => v,
                        Err(er) => {
                            proof {
                                assert(spec_parse_attrs(data, cur, m0) == Err::<
                                    (MetadataV, int),
                                    _,
                                >(er)) by {
                                    reveal(spec_parse_attrs);
                                };
                            }
                            return Err(er);
                        },
                    };
                    let y0 = match self.read_i32() {
                        Ok(v) => v,
                        Err(er) => {
                            proof {
                                assert(spec_parse_attrs(data, cur, m0) == Err::<
                                    (MetadataV, int),
                                    _,
                                >(er)) by {
                                    reveal(spec_parse_attrs);
                                };
                            }
                            return Err(er);
                        },
                    };
                    let x1 = match self.read_i32() {
                        Ok(v) => v,
                        Err(er) => {
                            proof {
                                assert(spec_parse_attrs(data, cur, m0) == Err::<
                                    (MetadataV, int),
                                    _,
                                >(er)) by {
                                    reveal(spec_parse_attrs);
                                };
                            }
                            return Err(er);
                        },
                    };
                    let y1 = match self.read_i32() {
                        Ok(v) => v,
                        Err(er) => {
                            proof {
                                assert(spec_parse_attrs(data, cur, m0) == Err::<
                                    (MetadataV, int),
                                    _,
                                >(er)) by {
                                    reveal(spec_parse_attrs);
                                };
                            }
                            return Err(er);
                        },
                    };
                    metadata.display_window = (x0, y0, x1, y1);
                    proof {
                        assert(spec_parse_attrs(data, cur, m0) == spec_parse_attrs(
                            data,
                            self.position as int,
                            metadata@,
                        )) by {
                            reveal(spec_parse_attrs);
                        };
                    }
                } else {
                    match self.skip(attr_size) {
                        Ok(_) => {
                            proof {
                                assert(spec_parse_attrs(data, cur, m0) == spec_parse_attrs(
                                    data,
                                    self.position as int,
                                    metadata@,
                                )) by {
                                    reveal(spec_parse_attrs);
                                };
                            }
                        },
                        Err(er) => {
                            proof {
                                assert(spec_parse_attrs(data, cur, m0) == Err::<
                                    (MetadataV, int),
                                    _,
                                >(er)) by {
                                    reveal(spec_parse_attrs);
                                };
                            }
                            return Err(er);
                        },
                    }
                }
            } else if attr_name == lit_pixel_aspect {
                if attr_size >= 4 {
                    let bits = match self.read_u32() {
                        Ok(v) => v,
                        Err(er) => {
                            proof {
                                assert(spec_parse_attrs(data, cur, m0) == Err::<
                                    (MetadataV, int),
                                    _,
                                >(er)) by {
                                    reveal(spec_parse_attrs);
                                };
                            }
                            return Err(er);
                        },
                    };
                    metadata.pixel_aspect_bits = bits;
                    proof {
                        assert(spec_parse_attrs(data, cur, m0) == spec_parse_attrs(
                            data,
                            self.position as int,
                            metadata@,
                        )) by {
                            reveal(spec_parse_attrs);
                        };
                    }
                } else {
                    match self.skip(attr_size) {
                        Ok(_) => {
                            proof {
                                assert(spec_parse_attrs(data, cur, m0) == spec_parse_attrs(
                                    data,
                                    self.position as int,
                                    metadata@,
                                )) by {
                                    reveal(spec_parse_attrs);
                                };
                            }
                        },
                        Err(er) => {
                            proof {
                                assert(spec_parse_attrs(data, cur, m0) == Err::<
                                    (MetadataV, int),
                                    _,
                                >(er)) by {
                                    reveal(spec_parse_attrs);
                                };
                            }
                            return Err(er);
                        },
                    }
                }
            } else if attr_name == lit_compression {
                match self.read_compression(attr_size) {
                    Ok(c) => {
                        metadata.compression = c;
                        proof {
                            assert(spec_parse_attrs(data, cur, m0) == spec_parse_attrs(
                                data,
                                self.position as int,
                                metadata@,
                            )) by {
                                reveal(spec_parse_attrs);
                            };
                        }
                    },
                    Err(er) => {
                        proof {
                            assert(spec_parse_attrs(data, cur, m0) == Err::<(MetadataV, int), _>(
                                er,
                            )) by {
                                reveal(spec_parse_attrs);
                            };
                        }
                        return Err(er);
                    },
                }
            } else if attr_name == lit_line_order {
                match self.read_line_order(attr_size) {
                    Ok(lo) => {
                        metadata.line_order = lo;
                        proof {
                            assert(spec_parse_attrs(data, cur, m0) == spec_parse_attrs(
                                data,
                                self.position as int,
                                metadata@,
                            )) by {
                                reveal(spec_parse_attrs);
                            };
                        }
                    },
                    Err(er) => {
                        proof {
                            assert(spec_parse_attrs(data, cur, m0) == Err::<(MetadataV, int), _>(
                                er,
                            )) by {
                                reveal(spec_parse_attrs);
                            };
                        }
                        return Err(er);
                    },
                }
            } else if attr_name == lit_layer_name {
                if attr_size > 0 {
                    match self.read_fixed_string(attr_size) {
                        Ok(s) => {
                            metadata.layer_name = Some(s);
                            proof {
                                assert(spec_parse_attrs(data, cur, m0) == spec_parse_attrs(
                                    data,
                                    self.position as int,
                                    metadata@,
                                )) by {
                                    reveal(spec_parse_attrs);
                                };
                            }
                        },
                        Err(er) => {
                            proof {
                                assert(spec_parse_attrs(data, cur, m0) == Err::<
                                    (MetadataV, int),
                                    _,
                                >(er)) by {
                                    reveal(spec_parse_attrs);
                                };
                            }
                            return Err(er);
                        },
                    }
                } else {
                    match self.skip(attr_size) {
                        Ok(_) => {
                            proof {
                                assert(spec_parse_attrs(data, cur, m0) == spec_parse_attrs(
                                    data,
                                    self.position as int,
                                    metadata@,
                                )) by {
                                    reveal(spec_parse_attrs);
                                };
                            }
                        },
                        Err(er) => {
                            proof {
                                assert(false);
                            }
                            return Err(er);
                        },
                    }
                }
            } else {
                if attr_size > 0 && attr_size <= 64 {
                    if self.data.len() - self.position < attr_size {
                        proof {
                            assert(spec_parse_attrs(data, cur, m0) == Err::<(MetadataV, int), _>(
                                ParseError::UnexpectedEndOfData,
                            )) by {
                                reveal(spec_parse_attrs);
                            };
                        }
                        return Err(ParseError::UnexpectedEndOfData);
                    }
                    let payload = vstd::slice::slice_subrange(
                        self.data.as_slice(),
                        self.position,
                        self.position + attr_size,
                    );
                    let keep = printable_ascii(payload);
                    let value = match self.read_fixed_string(attr_size) {
                        Ok(v) => v,
                        Err(er) => {
                            proof {
                                assert(false);
                            }
                            return Err(er);
                        },
                    };
                    if keep {
                        metadata.custom_attributes.push((attr_name, value));
                        proof {
                            assert(custom_view(metadata.custom_attributes@) =~= m0
                                .custom_attributes.push(
                                (
                                    lossy_of(str_bytes(data, cur)),
                                    lossy_of(data.subrange(p3, p3 + size)),
                                ),
                            ));
                            assert(spec_parse_attrs(data, cur, m0) == spec_parse_attrs(
                                data,
                                self.position as int,
                                metadata@,
                            )) by {
                                reveal(spec_parse_attrs);
                            };
                        }
                    } else {
                        proof {
                            assert(spec_parse_attrs(data, cur, m0) == spec_parse_attrs(
                                data,
                                self.position as int,
                                metadata@,
                            )) by {
                                reveal(spec_parse_attrs);
                            };
                        }
                    }
                } else {
                    match self.skip(attr_size) {
                        Ok(_) => {
                            proof {
                                assert(spec_parse_attrs(data, cur, m0) == spec_parse_attrs(
                                    data,
                                    self.position as int,
                                    metadata@,
                                )) by {
                                    reveal(spec_parse_attrs);
                                };
                            }
                        },
                        Err(er) => {
                            proof {
                                assert(spec_parse_attrs(data, cur, m0) == Err::<
                                    (MetadataV, int),
                                    _,
                                >(er)) by {
                                    reveal(spec_parse_attrs);
                                };
                            }
                            return Err(er);
                        },
                    }
                }
            }
        }
        proof {
            assert(spec_parse_attrs(data, self.position as int, metadata@) == Ok::<_, ParseError>((
                metadata@,
                self.position as int,
            ))) by {
                reveal(spec_parse_attrs);
            };
        }
        Ok(metadata)
    }
}

} // verus!
