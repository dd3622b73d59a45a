//! Decoding of PDF image streams for OCR: the ASCII85 and ASCIIHex filters, the filter
//! chain with FlateDecode, and the choice of how an image stream is written out.
use flate2::read::ZlibDecoder;
use std::io::Read;
use vstd::prelude::*;

verus! {

/// Largest image stream, in bytes, that is handed to OCR.
pub const MAX_OCR_IMAGE_BYTES: usize = 20971520;

// ---------------------------------------------------------------- ASCII85

/// The value of five base-85 digits (each byte minus 33), most significant first.
pub open spec fn a85_value(g: Seq<u8>, k: int) -> int
    decreases k,
{
    if k <= 0 {
        0
    } else {
        a85_value(g, k - 1) * 85 + (g[k - 1] - 33)
    }
}

/// A group of five ASCII85 characters as a 32-bit value; `None` when it overflows.
pub open spec fn a85_group(g: Seq<u8>) -> Option<u32> {
    let v = a85_value(g, 5);
    if 0 <= v <= u32::MAX {
        Some(v as u32)
    } else {
        None
    }
}

/// The four big-endian bytes of `v`.
pub open spec fn be_bytes(v: u32) -> Seq<u8> {
    seq![
        ((v as int / 16777216) % 256) as u8,
        ((v as int / 65536) % 256) as u8,
        ((v as int / 256) % 256) as u8,
        (v as int % 256) as u8,
    ]
}

/// The part of `input` before its first occurrence of `stop`.
pub open spec fn before_byte(input: Seq<u8>, stop: u8) -> Seq<u8>
    decreases input.len(),
{
    if input.len() == 0 {
        input
    } else if input[0] == stop {
        Seq::empty()
    } else {
        seq![input[0]] + before_byte(input.skip(1), stop)
    }
}

/// One input byte's effect on the decoded bytes and the pending group.
pub open spec fn a85_step(st: Option<(Seq<u8>, Seq<u8>)>, b: u8) -> Option<(Seq<u8>, Seq<u8>)> {
    match st {
        None => None,
        Some((out, group)) => {
            if b == 122 && group.len() == 0 {
                Some((out + seq![0u8, 0u8, 0u8, 0u8], group))
            } else if !(33 <= b <= 117) {
                Some((out, group))
            } else if group.len() + 1 == 5 {
                match a85_group(group.push(b)) {
                    Some(v) => Some((out + be_bytes(v), Seq::empty())),
                    None => None,
                }
            } else {
                Some((out, group.push(b)))
            }
        },
    }
}

/// Decoded bytes so far and the pending group, or `None` once a group overflowed.
pub open spec fn a85_fold(input: Seq<u8>) -> Option<(Seq<u8>, Seq<u8>)>
    decreases input.len(),
{
    if input.len() == 0 {
        Some((Seq::empty(), Seq::empty()))
    } else {
        a85_step(a85_fold(input.drop_last()), input.last())
    }
}

proof fn lemma_a85_fold_take(input: Seq<u8>, k: int)
    requires
        0 <= k < input.len(),
    ensures
        a85_fold(input.take(k + 1)) == a85_step(a85_fold(input.take(k)), input[k]),
{
    assert(input.take(k + 1).drop_last() =~= input.take(k));
}

/// The group padded with 'u' to five characters.
pub open spec fn pad_group(group: Seq<u8>) -> Seq<u8> {
    group + Seq::new((5 - group.len()) as nat, |i: int| 117u8)
}

/// ASCII85 decoding as PDF uses it: characters '!'..'u' form groups of five, 'z' between
/// groups stands for four zero bytes, other bytes are skipped, and '~' ends the data; a short
/// final group of n characters gives n - 1 bytes.
pub open spec fn ascii85(input: Seq<u8>) -> Option<Seq<u8>> {
    match a85_fold(before_byte(input, 126)) {
        None => None,
        Some((out, group)) => if group.len() == 0 {
            Some(out)
        } else {
            match a85_group(pad_group(group)) {
                Some(v) => Some(out + be_bytes(v).take(group.len() - 1)),
                None => None,
            }
        },
    }
}

proof fn lemma_a85_value_bound(g: Seq<u8>, k: int)
    requires
        0 <= k <= g.len(),
        forall|i: int| 0 <= i < g.len() ==> 33 <= #[trigger] g[i] <= 117,
    ensures
        0 <= a85_value(g, k),
        k <= 5 ==> a85_value(g, k) < 4437053125,
        k <= 4 ==> a85_value(g, k) < 52200625,
        k <= 3 ==> a85_value(g, k) < 614125,
        k <= 2 ==> a85_value(g, k) < 7225,
        k <= 1 ==> a85_value(g, k) < 85,
    decreases k,
{
    if k > 0 {
        lemma_a85_value_bound(g, k - 1);
    }
}

/// Decodes five ASCII85 characters into a 32-bit value.
fn decode_ascii85_group(g: &[u8; 5]) -> (r: Option<u32>)
    requires
        forall|i: int| 0 <= i < 5 ==> 33 <= #[trigger] g@[i] <= 117,
    ensures
        r == a85_group(g@),
{
    let mut acc: u64 = 0;
    let mut k: usize = 0;
    while k < 5
        invariant
            k <= 5,
            g@.len() == 5,
            forall|i: int| 0 <= i < 5 ==> 33 <= #[trigger] g@[i] <= 117,
            acc == a85_value(g@, k as int),
        decreases 5 - k,
    {
        proof {
            lemma_a85_value_bound(g@, k as int);
        }
        acc = acc * 85 + ((g[k] - 33) as u64);
        k += 1;
    }
    if acc <= 0xffff_ffff {
        Some(acc as u32)
    } else {
        None
    }
}

fn push_be_bytes(out: &mut Vec<u8>, v: u32, n: usize)
    requires
        n <= 4,
    ensures
        final(out)@ == old(out)@ + be_bytes(v).take(n as int),
{
    let bytes: [u8; 4] = [(v / 16777216) as u8, ((v / 65536) % 256) as u8, ((v / 256) % 256) as u8, (v % 256) as u8];
    assert(bytes@ =~= be_bytes(v));
    let mut k: usize = 0;
    while k < n
        invariant
            k <= n <= 4,
            bytes@ == be_bytes(v),
            out@ == old(out)@ + be_bytes(v).take(k as int),
        decreases n - k,
    {
        out.push(bytes[k]);
        k += 1;
        assert(out@ =~= old(out)@ + be_bytes(v).take(k as int));
    }
}

proof fn lemma_before_byte_prefix(input: Seq<u8>, stop: u8, k: int)
    requires
        0 <= k <= input.len(),
        forall|j: int| 0 <= j < k ==> input[j] != stop,
    ensures
        before_byte(input, stop) == input.take(k) + before_byte(input.skip(k), stop),
    decreases k,
{
    if k > 0 {
        lemma_before_byte_prefix(input.skip(1), stop, k - 1);
        assert(input.skip(1).skip(k - 1) =~= input.skip(k));
        assert(seq![input[0]] + input.skip(1).take(k - 1) =~= input.take(k));
    } else {
        assert(input.skip(0) =~= input);
    }
}

/// Decodes ASCII85 data; `None` when a group overflows 32 bits.
#[verifier::rlimit(40)]
pub fn ascii85_decode(input: &[u8]) -> (r: Option<Vec<u8>>)
    ensures
        match r {
            Some(v) => ascii85(input@) == Some(v@),
            None => ascii85(input@) is None,
        },
{
    let mut out: Vec<u8> = Vec::new();
    let mut group: [u8; 5] = [0; 5];
    let mut group_len: usize = 0;
    let mut k: usize = 0;
    while k < input.len() && input[k] != 126
        invariant
            k <= input.len(),
            forall|j: int| 0 <= j < k ==> input@[j] != 126,
            group_len < 5,
            forall|i: int| 0 <= i < group_len ==> 33 <= #[trigger] group@[i] <= 117,
            a85_fold(input@.take(k as int)) == Some((out@, group@.take(group_len as int))),
        decreases input.len() - k,
    {
        let b = input[k];
        proof {
            lemma_a85_fold_take(input@, k as int);
        }
        if b == 122 && group_len == 0 {
            out.push(0);
            out.push(0);
            out.push(0);
            out.push(0);
            assert(group@.take(0) =~= Seq::<u8>::empty());
        } else if 33 <= b && b <= 117 {
            let ghost before = group@.take(group_len as int);
            group[group_len] = b;
            group_len += 1;
            assert(group@.take(group_len as int) =~= before.push(b));
            if group_len == 5 {
                assert(group@.take(5) =~= group@);
                match decode_ascii85_group(&group) {
                    Some(v) => {
                        push_be_bytes(&mut out, v, 4);
                        assert(be_bytes(v).take(4) =~= be_bytes(v));
                        group_len = 0;
                        assert(group@.take(0) =~= Seq::<u8>::empty());
                    },
                    None => {
                        proof {
                            lemma_a85_overflow(input@, (k + 1) as int);
                        }
                        return None;
                    },
                }
            }
        }
        k += 1;
    }
    proof {
        lemma_before_byte_prefix(input@, 126, k as int);
        if k < input.len() {
            assert(before_byte(input@.skip(k as int), 126) =~= Seq::<u8>::empty());
        } else {
            assert(input@.skip(k as int) =~= Seq::<u8>::empty());
        }
        assert(before_byte(input@, 126) =~= input@.take(k as int));
    }
    if group_len > 0 {
        let ghost pending = group@.take(group_len as int);
        let mut j: usize = group_len;
        while j < 5
            invariant
                group_len <= j <= 5,
                group@.take(group_len as int) == pending,
                forall|i: int| 0 <= i < j ==> 33 <= #[trigger] group@[i] <= 117,
                forall|i: int| group_len <= i < j ==> group@[i] == 117,
            decreases 5 - j,
        {
            group[j] = 117;
            j += 1;
        }
        assert(group@ =~= pad_group(pending));
        match decode_ascii85_group(&group) {
            Some(v) => {
                push_be_bytes(&mut out, v, group_len - 1);
            },
            None => {
                return None;
            },
        }
    }
    Some(out)
}

proof fn lemma_a85_overflow(input: Seq<u8>, k: int)
    requires
        0 <= k <= input.len(),
        forall|j: int| 0 <= j < k ==> input[j] != 126,
        a85_fold(input.take(k)) is None,
    ensures
        ascii85(input) is None,
{
    lemma_before_byte_prefix(input, 126, k);
    lemma_a85_fold_none(input.take(k), before_byte(input.skip(k), 126));
}

/// Once a group overflows, decoding more input changes nothing.
proof fn lemma_a85_fold_none(a: Seq<u8>, b: Seq<u8>)
    requires
        a85_fold(a) is None,
    ensures
        a85_fold(a + b) is None,
    decreases b.len(),
{
    if b.len() > 0 {
        lemma_a85_fold_none(a, b.drop_last());
        assert((a + b).drop_last() =~= a + b.drop_last());
    } else {
        assert(a + b =~= a);
    }
}

// ---------------------------------------------------------------- ASCIIHex

/// The value of a hexadecimal digit.
pub open spec fn hex_value(b: u8) -> Option<u8> {
    if 48 <= b <= 57 {
        Some((b - 48) as u8)
    } else if 97 <= b <= 102 {
        Some((b - 97 + 10) as u8)
    } else if 65 <= b <= 70 {
        Some((b - 65 + 10) as u8)
    } else {
        None
    }
}

/// Decoded bytes so far and the pending high nibble.
pub open spec fn hex_fold(input: Seq<u8>) -> (Seq<u8>, Option<u8>)
    decreases input.len(),
{
    if input.len() == 0 {
        (Seq::empty(), None)
    } else {
        let (out, hi) = hex_fold(input.drop_last());
        match hex_value(input.last()) {
            None => (out, hi),
            Some(v) => match hi {
                None => (out, Some(v)),
                Some(h) => (out.push((h * 16 + v) as u8), None),
            },
        }
    }
}

/// ASCIIHex decoding as PDF uses it: pairs of hexadecimal digits, other bytes skipped, '>'
/// ends the data, and an odd final digit is completed with 0.
pub open spec fn ascii_hex(input: Seq<u8>) -> Seq<u8> {
    let (out, hi) = hex_fold(before_byte(input, 62));
    match hi {
        Some(h) => out.push((h * 16) as u8),
        None => out,
    }
}

fn hex_value_exec(b: u8) -> (r: Option<u8>)
    ensures
        r == hex_value(b),
{
    if 48 <= b && b <= 57 {
        Some(b - 48)
    } else if 97 <= b && b <= 102 {
        Some(b - 97 + 10)
    } else if 65 <= b && b <= 70 {
        Some(b - 65 + 10)
    } else {
        None
    }
}

/// Decodes ASCIIHex data.
pub fn ascii_hex_decode(input: &[u8]) -> (r: Option<Vec<u8>>)
    ensures
        r matches Some(v) && v@ == ascii_hex(input@),
{
    let mut out: Vec<u8> = Vec::new();
    let mut hi: Option<u8> = None;
    let mut k: usize = 0;
    while k < input.len() && input[k] != 62
        invariant
            k <= input.len(),
            forall|j: int| 0 <= j < k ==> input@[j] != 62,
            hex_fold(input@.take(k as int)) == (out@, hi),
            hi matches Some(h) ==> h < 16,
        decreases input.len() - k,
    {
        proof {
            assert(input@.take(k + 1).drop_last() =~= input@.take(k as int));
        }
        match hex_value_exec(input[k]) {
            None => {},
            Some(v) => match hi {
                None => {
                    hi = Some(v);
                },
                Some(h) => {
                    out.push(h * 16 + v);
                    hi = None;
                },
            },
        }
        k += 1;
    }
    proof {
        lemma_before_byte_prefix(input@, 62, k as int);
        if k < input.len() {
            assert(before_byte(input@.skip(k as int), 62) =~= Seq::<u8>::empty());
        } else {
            assert(input@.skip(k as int) =~= Seq::<u8>::empty());
        }
        assert(before_byte(input@, 62) =~= input@.take(k as int));
    }
    match hi {
        Some(h) => out.push(h * 16),
        None => {},
    }
    Some(out)
}

// ---------------------------------------------------------------- filter chains

/// The bytes that zlib decompression (`flate2::read::ZlibDecoder`) yields for `data`, or
/// `None` when the data is not a valid zlib stream.
pub uninterp spec fn zlib_inflate(data: Seq<u8>) -> Option<Seq<u8>>;

pub open spec fn opt_bytes(o: Option<Vec<u8>>) -> Option<Seq<u8>> {
    match o {
        Some(v) => Some(v@),
        None => None,
    }
}

/// Inflates zlib data with `flate2::read::ZlibDecoder::read_to_end`; its result is the
/// decompressed stream, which `zlib_inflate` names, or `None` on a read error.
#[verifier::external_body]
fn zlib_decode(data: &[u8]) -> (r: Option<Vec<u8>>)
    ensures
        opt_bytes(r) == zlib_inflate(data@),
{
    let mut out = Vec::new();
    match ZlibDecoder::new(data).read_to_end(&mut out) {
        Ok(_) => Some(out),
        Err(_) => None,
    }
}

/// A PDF stream filter.
#[derive(Debug, Clone, Copy, PartialEq, Eq, Structural)]
pub enum StreamFilter {
    FlateDecode,
    Ascii85Decode,
    AsciiHexDecode,
    DctDecode,
    /// A filter this decoder does not handle (CCITTFax, JPX, ...).
    Unsupported,
}

pub open spec fn bytes_are(s: Seq<u8>, lit: Seq<char>) -> bool {
    s.len() == lit.len() && forall|i: int| 0 <= i < s.len() ==> s[i] as u32 == lit[i] as u32
}

/// The filter that a PDF name denotes.
pub open spec fn filter_of_name(name: Seq<u8>) -> StreamFilter {
    if bytes_are(name, "FlateDecode"@) {
        StreamFilter::FlateDecode
    } else if bytes_are(name, "ASCII85Decode"@) {
        StreamFilter::Ascii85Decode
    } else if bytes_are(name, "ASCIIHexDecode"@) {
        StreamFilter::AsciiHexDecode
    } else if bytes_are(name, "DCTDecode"@) {
        StreamFilter::DctDecode
    } else {
        StreamFilter::Unsupported
    }
}

fn bytes_are_exec(s: &[u8], lit: &str) -> (r: bool)
    ensures
        r == bytes_are(s@, lit@),
{
    let cs = crate::text::to_chars(lit);
    if s.len() != cs.len() {
        return false;
    }
    let mut k: usize = 0;
    while k < s.len()
        invariant
            k <= s.len() == cs.len(),
            cs@ == lit@,
            forall|i: int| 0 <= i < k ==> s@[i] as u32 == cs@[i] as u32,
        decreases s.len() - k,
    {
        if s[k] as u32 != cs[k] as u32 {
            return false;
        }
        k += 1;
    }
    true
}

/// The filter named by a PDF name object.
pub fn filter_from_name(name: &[u8]) -> (r: StreamFilter)
    ensures
        r == filter_of_name(name@),
{
    if bytes_are_exec(name, "FlateDecode") {
        StreamFilter::FlateDecode
    } else if bytes_are_exec(name, "ASCII85Decode") {
        StreamFilter::Ascii85Decode
    } else if bytes_are_exec(name, "ASCIIHexDecode") {
        StreamFilter::AsciiHexDecode
    } else if bytes_are_exec(name, "DCTDecode") {
        StreamFilter::DctDecode
    } else {
        StreamFilter::Unsupported
    }
}

/// The data after applying the filters in order; `None` as soon as one fails or is not a
/// decoding filter that this decoder applies.
pub open spec fn decode_chain(filters: Seq<StreamFilter>, content: Seq<u8>) -> Option<Seq<u8>>
    decreases filters.len(),
{
    if filters.len() == 0 {
        Some(content)
    } else {
        match decode_chain(filters.drop_last(), content) {
            None => None,
            Some(data) => match filters.last() {
                StreamFilter::FlateDecode => zlib_inflate(data),
                StreamFilter::Ascii85Decode => ascii85(data),
                StreamFilter::AsciiHexDecode => Some(ascii_hex(data)),
                _ => None,
            },
        }
    }
}

/// Applies a chain of stream filters to `content`, first filter first.
pub fn decode_stream_filters(filters: &[StreamFilter], content: &[u8]) -> (r: Option<Vec<u8>>)
    ensures
        opt_bytes(r) == decode_chain(filters@, content@),
{
    let mut data: Vec<u8> = Vec::new();
    let mut k: usize = 0;
    while k < content.len()
        invariant
            k <= content.len(),
            data@ == content@.take(k as int),
        decreases content.len() - k,
    {
        data.push(content[k]);
        k += 1;
        assert(data@ =~= content@.take(k as int));
    }
    assert(content@.take(k as int) =~= content@);
    let mut i: usize = 0;
    while i < filters.len()
        invariant
            i <= filters.len(),
            decode_chain(filters@.take(i as int), content@) == Some(data@),
        decreases filters.len() - i,
    {
        proof {
            assert(filters@.take(i + 1).drop_last() =~= filters@.take(i as int));
        }
        let next = match filters[i] {
            StreamFilter::FlateDecode => zlib_decode(&data),
            StreamFilter::Ascii85Decode => ascii85_decode(&data),
            StreamFilter::AsciiHexDecode => ascii_hex_decode(&data),
            _ => None,
        };
        match next {
            Some(d) => {
                data = d;
            },
            None => {
                proof {
                    lemma_chain_none(filters@, content@, (i + 1) as int);
                }
                return None;
            },
        }
        i += 1;
    }
    assert(filters@.take(i as int) =~= filters@);
    Some(data)
}

proof fn lemma_chain_none(filters: Seq<StreamFilter>, content: Seq<u8>, k: int)
    requires
        0 <= k <= filters.len(),
        decode_chain(filters.take(k), content) is None,
    ensures
        decode_chain(filters, content) is None,
    decreases filters.len() - k,
{
    if k < filters.len() {
        assert(filters.take(k + 1).drop_last() =~= filters.take(k));
        lemma_chain_none(filters, content, k + 1);
    } else {
        assert(filters.take(k) =~= filters);
    }
}

/// How an image stream is written for OCR.
#[derive(Debug, Clone, Copy, PartialEq, Eq, Structural)]
pub enum ImageEncoding {
    /// The stream is a complete JPEG file.
    Jpeg,
    /// The stream decodes to raw pixels, to be encoded as PNG.
    RawPixels,
    /// The stream is skipped.
    Unsupported,
}

/// A lone DCTDecode filter is a JPEG; a chain with FlateDecode, or no filter at all, gives
/// raw pixels; anything else is skipped.
pub open spec fn image_encoding_spec(filters: Seq<StreamFilter>) -> ImageEncoding {
    if filters.len() == 1 && filters[0] == StreamFilter::DctDecode {
        ImageEncoding::Jpeg
    } else if filters.len() == 0 || filters.contains(StreamFilter::FlateDecode) {
        ImageEncoding::RawPixels
    } else {
        ImageEncoding::Unsupported
    }
}

pub fn image_encoding(filters: &[StreamFilter]) -> (r: ImageEncoding)
    ensures
        r == image_encoding_spec(filters@),
{
    if filters.len() == 1 && filters[0] == StreamFilter::DctDecode {
        return ImageEncoding::Jpeg;
    }
    if filters.len() == 0 {
        return ImageEncoding::RawPixels;
    }
    let mut k: usize = 0;
    while k < filters.len()
        invariant
            k <= filters.len(),
            forall|j: int| 0 <= j < k ==> filters@[j] != StreamFilter::FlateDecode,
        decreases filters.len() - k,
    {
        if filters[k] == StreamFilter::FlateDecode {
            assert(filters@.contains(StreamFilter::FlateDecode));
            return ImageEncoding::RawPixels;
        }
        k += 1;
    }
    ImageEncoding::Unsupported
}

/// Number of colour channels of a PDF colour space: DeviceGray 1, DeviceRGB 3; others are
/// not encoded.
pub fn channels_for_color_space(name: Option<&[u8]>) -> (r: Option<u8>)
    ensures
        r == match name {
            Some(n) => if bytes_are(n@, "DeviceGray"@) {
                Some(1u8)
            } else if bytes_are(n@, "DeviceRGB"@) {
                Some(3u8)
            } else {
                None
            },
            None => None,
        },
{
    match name {
        Some(n) => if bytes_are_exec(n, "DeviceGray") {
            Some(1)
        } else if bytes_are_exec(n, "DeviceRGB") {
            Some(3)
        } else {
            None
        },
        None => None,
    }
}

/// Whether an XObject whose /Subtype is `subtype` is an image.
pub fn is_image_subtype(subtype: Option<&[u8]>) -> (r: bool)
    ensures
        r == match subtype {
            Some(n) => bytes_are(n@, "Image"@),
            None => false,
        },
{
    match subtype {
        Some(n) => bytes_are_exec(n, "Image"),
        None => false,
    }
}

/// Number of bytes of raw pixel data for an image of the given size.
pub fn raw_pixel_len(width: u32, height: u32, channels: u8) -> (r: u128)
    ensures
        r == width as int * height as int * channels as int,
{
    assert(width as int * height as int <= u32::MAX as int * u32::MAX as int) by (nonlinear_arith);
    assert(width as int * height as int * channels as int <= u32::MAX as int * u32::MAX as int * 255) by (nonlinear_arith)
        requires width as int * height as int <= u32::MAX as int * u32::MAX as int, channels <= 255;
    (width as u128) * (height as u128) * (channels as u128)
}


// ---------------------------------------------------------------- image files

/// What the image crate writes as a PNG file for a grey-scale image of the given size whose
/// pixels are `pixels` (`None` when it does not accept the buffer or fails to write).
pub uninterp spec fn gray_png(width: u32, height: u32, pixels: Seq<u8>) -> Option<Seq<u8>>;

/// What the image crate writes as a PNG file for an RGB image of the given size whose pixels
/// are `pixels` (`None` when it does not accept the buffer or fails to write).
pub uninterp spec fn rgb_png(width: u32, height: u32, pixels: Seq<u8>) -> Option<Seq<u8>>;

/// Encodes grey-scale pixels as PNG with `image::ImageBuffer::<Luma<u8>, _>::from_raw` and
/// `write_to`; the result is what the image crate gives, which `gray_png` names.
#[verifier::external_body]
fn encode_gray_png(width: u32, height: u32, pixels: Vec<u8>) -> (r: Option<Vec<u8>>)
    ensures
        opt_bytes(r) == gray_png(width, height, pixels@),
{
    let image = image::ImageBuffer::<image::Luma<u8>, Vec<u8>>::from_raw(width, height, pixels)?;
    let mut png = Vec::new();
    image.write_to(&mut std::io::Cursor::new(&mut png), image::ImageFormat::Png).ok()?;
    Some(png)
}

/// Encodes RGB pixels as PNG with `image::ImageBuffer::<Rgb<u8>, _>::from_raw` and
/// `write_to`; the result is what the image crate gives, which `rgb_png` names.
#[verifier::external_body]
fn encode_rgb_png(width: u32, height: u32, pixels: Vec<u8>) -> (r: Option<Vec<u8>>)
    ensures
        opt_bytes(r) == rgb_png(width, height, pixels@),
{
    let image = image::ImageBuffer::<image::Rgb<u8>, Vec<u8>>::from_raw(width, height, pixels)?;
    let mut png = Vec::new();
    image.write_to(&mut std::io::Cursor::new(&mut png), image::ImageFormat::Png).ok()?;
    Some(png)
}

/// Raw pixels as a PNG file: the first width x height x channels bytes, as grey scale (one
/// channel) or RGB (three); nothing when there are too few bytes or another channel count.
pub open spec fn png_of(raw: Seq<u8>, width: u32, height: u32, channels: u8) -> Option<Seq<u8>> {
    let expected = width as int * height as int * channels as int;
    if raw.len() < expected {
        None
    } else if channels == 1 {
        gray_png(width, height, raw.take(expected))
    } else if channels == 3 {
        rgb_png(width, height, raw.take(expected))
    } else {
        None
    }
}

pub fn encode_raw_to_png(raw: &[u8], width: u32, height: u32, channels: u8) -> (r: Option<Vec<u8>>)
    ensures
        opt_bytes(r) == png_of(raw@, width, height, channels),
{
    let expected = raw_pixel_len(width, height, channels);
    if (raw.len() as u128) < expected {
        return None;
    }
    let count = expected as usize;
    let mut pixels: Vec<u8> = Vec::new();
    let mut k: usize = 0;
    while k < count
        invariant
            k <= count <= raw.len(),
            pixels@ == raw@.take(k as int),
        decreases count - k,
    {
        pixels.push(raw[k]);
        k += 1;
        assert(pixels@ =~= raw@.take(k as int));
    }
    if channels == 1 {
        encode_gray_png(width, height, pixels)
    } else if channels == 3 {
        encode_rgb_png(width, height, pixels)
    } else {
        None
    }
}

/// An image stream written out for OCR.
#[derive(Debug)]
pub enum ImageFile {
    /// A JPEG file, the stream as it is.
    Jpeg(Vec<u8>),
    /// A PNG file encoded from the decoded pixels.
    Png(Vec<u8>),
}

/// The image file of a PDF image stream: a lone DCTDecode stream as JPEG; a stream with
/// FlateDecode in its chain, or with no filter, decoded and encoded as PNG (its /Width and
/// /Height taken to 32 bits, its colour space grey or RGB); nothing otherwise.
pub open spec fn image_file_of(
    filters: Seq<StreamFilter>,
    content: Seq<u8>,
    width: Option<i64>,
    height: Option<i64>,
    channels: Option<u8>,
) -> Option<(bool, Seq<u8>)> {
    match image_encoding_spec(filters) {
        ImageEncoding::Jpeg => Some((true, content)),
        ImageEncoding::RawPixels => match (decode_chain(filters, content), width, height, channels) {
            (Some(raw), Some(w), Some(h), Some(c)) => match png_of(raw, w as u32, h as u32, c) {
                Some(png) => Some((false, png)),
                None => None,
            },
            _ => None,
        },
        ImageEncoding::Unsupported => None,
    }
}

pub open spec fn image_file_view(f: Option<ImageFile>) -> Option<(bool, Seq<u8>)> {
    match f {
        Some(ImageFile::Jpeg(b)) => Some((true, b@)),
        Some(ImageFile::Png(b)) => Some((false, b@)),
        None => None,
    }
}

/// The file to hand to OCR for an image stream with the given filters, content, /Width,
/// /Height and /ColorSpace.
pub fn pdf_image_file(
    filters: &[StreamFilter],
    content: &[u8],
    width: Option<i64>,
    height: Option<i64>,
    color_space: Option<&[u8]>,
) -> (r: Option<ImageFile>)
    ensures
        image_file_view(r) == image_file_of(filters@, content@, width, height, match color_space {
            Some(n) => if bytes_are(n@, "DeviceGray"@) {
                Some(1u8)
            } else if bytes_are(n@, "DeviceRGB"@) {
                Some(3u8)
            } else {
                None
            },
            None => None,
        }),
{
    match image_encoding(filters) {
        ImageEncoding::Jpeg => {
            let mut bytes: Vec<u8> = Vec::new();
            let mut k: usize = 0;
            while k < content.len()
                invariant
                    k <= content.len(),
                    bytes@ == content@.take(k as int),
                decreases content.len() - k,
            {
                bytes.push(content[k]);
                k += 1;
                assert(bytes@ =~= content@.take(k as int));
            }
            assert(content@.take(k as int) =~= content@);
            Some(ImageFile::Jpeg(bytes))
        },
        ImageEncoding::RawPixels => {
            let raw = match decode_stream_filters(filters, content) {
                Some(r) => r,
                None => return None,
            };
            let (w, h) = match (width, height) {
                (Some(w), Some(h)) => (w, h),
                _ => return None,
            };
            let channels = match channels_for_color_space(color_space) {
                Some(c) => c,
                None => return None,
            };
            #[verifier::truncate]
            let w32 = w as u32;
            #[verifier::truncate]
            let h32 = h as u32;
            match encode_raw_to_png(&raw, w32, h32, channels) {
                Some(png) => Some(ImageFile::Png(png)),
                None => None,
            }
        },
        ImageEncoding::Unsupported => None,
    }
}

// ---------------------------------------------------------------- ASCII85 round trip

/// The value of four bytes read big-endian.
pub open spec fn be_value(b: Seq<u8>) -> nat {
    (b[0] as nat) * 16777216 + (b[1] as nat) * 65536 + (b[2] as nat) * 256 + b[3] as nat
}

/// The five ASCII85 characters of `v` (below 85 to the fifth), most significant first.
#[verifier::opaque]
pub open spec fn a85_digits(v: nat) -> Seq<u8> {
    let q1 = v / 85;
    let q2 = q1 / 85;
    let q3 = q2 / 85;
    let q4 = q3 / 85;
    seq![(q4 % 85 + 33) as u8, (q3 % 85 + 33) as u8, (q2 % 85 + 33) as u8, (q1 % 85 + 33) as u8, (v % 85 + 33) as u8]
}

/// `b` followed by zero bytes up to four bytes.
pub open spec fn zero_padded(b: Seq<u8>) -> Seq<u8> {
    b + Seq::new((4 - b.len()) as nat, |i: int| 0u8)
}

/// The ASCII85 encoding of `b` as PDF writes it: each group of four bytes as five characters,
/// or 'z' when all four are zero; a final group of n bytes (1 to 3), padded with zeros, as
/// its first n + 1 characters.
pub open spec fn a85_encode(b: Seq<u8>) -> Seq<u8>
    decreases b.len(),
{
    if b.len() >= 4 {
        a85_encode_group(b.take(4)) + a85_encode(b.skip(4))
    } else if b.len() == 0 {
        Seq::empty()
    } else {
        a85_encode_tail(b)
    }
}

/// The characters of a group of four bytes: 'z' for four zeros, else five digits.
#[verifier::opaque]
pub open spec fn a85_encode_group(g: Seq<u8>) -> Seq<u8> {
    let v = be_value(g);
    if v == 0 { seq![122u8] } else { a85_digits(v) }
}

/// The characters of a short final group of n bytes: the first n + 1 digits of the group
/// padded with zeros.
#[verifier::opaque]
pub open spec fn a85_encode_tail(b: Seq<u8>) -> Seq<u8> {
    a85_digits(be_value(zero_padded(b))).take(b.len() + 1int)
}

/// The steps of the ASCII85 decoder over `input` from the state `st`.
pub open spec fn a85_steps(st: Option<(Seq<u8>, Seq<u8>)>, input: Seq<u8>) -> Option<(Seq<u8>, Seq<u8>)>
    decreases input.len(),
{
    if input.len() == 0 {
        st
    } else {
        a85_step(a85_steps(st, input.drop_last()), input.last())
    }
}

proof fn lemma_a85_fold_concat(x: Seq<u8>, y: Seq<u8>)
    ensures
        a85_fold(x + y) == a85_steps(a85_fold(x), y),
    decreases y.len(),
{
    if y.len() == 0 {
        assert(x + y =~= x);
    } else {
        lemma_a85_fold_concat(x, y.drop_last());
        assert((x + y).drop_last() =~= x + y.drop_last());
        assert((x + y).last() == y.last());
    }
}

proof fn lemma_a85_steps_concat(st: Option<(Seq<u8>, Seq<u8>)>, x: Seq<u8>, y: Seq<u8>)
    ensures
        a85_steps(st, x + y) == a85_steps(a85_steps(st, x), y),
    decreases y.len(),
{
    if y.len() == 0 {
        assert(x + y =~= x);
    } else {
        lemma_a85_steps_concat(st, x, y.drop_last());
        assert((x + y).drop_last() =~= x + y.drop_last());
        assert((x + y).last() == y.last());
    }
}

proof fn lemma_digits(v: nat)
    requires
        v <= u32::MAX,
    ensures
        a85_digits(v).len() == 5,
        forall|i: int| 0 <= i < 5 ==> 33 <= #[trigger] a85_digits(v)[i] <= 117,
        a85_value(a85_digits(v), 5) == v,
{
    let q1 = v / 85;
    let q2 = q1 / 85;
    let q3 = q2 / 85;
    let q4 = q3 / 85;
    reveal(a85_digits);
    assert(q4 < 85) by (nonlinear_arith)
        requires
            v <= 4294967295,
            q1 == v / 85,
            q2 == q1 / 85,
            q3 == q2 / 85,
            q4 == q3 / 85,
    ;
    assert(q1 == q2 * 85 + q1 % 85 && q2 == q3 * 85 + q2 % 85 && q3 == q4 * 85 + q3 % 85 && v == q1 * 85 + v % 85)
        by (nonlinear_arith)
        requires
            q1 == v / 85,
            q2 == q1 / 85,
            q3 == q2 / 85,
            q4 == q3 / 85,
    ;
    let d = a85_digits(v);
    assert(d[0] == q4 + 33 && d[1] == q3 % 85 + 33 && d[2] == q2 % 85 + 33 && d[3] == q1 % 85 + 33 && d[4] == v % 85 + 33);
    assert(a85_value(d, 0) == 0);
    assert(a85_value(d, 1) == q4);
    assert(a85_value(d, 2) == q3);
    assert(a85_value(d, 3) == q2);
    assert(a85_value(d, 4) == q1);
    assert(a85_value(d, 5) == v);
}

#[verifier::rlimit(50)]
proof fn lemma_be_round_trip(b: Seq<u8>)
    requires
        b.len() == 4,
    ensures
        be_value(b) <= u32::MAX,
        be_bytes(be_value(b) as u32) =~= b,
{
    let b0 = b[0] as int;
    let b1 = b[1] as int;
    let b2 = b[2] as int;
    let b3 = b[3] as int;
    let v = be_value(b) as int;
    assert(v == b0 * 16777216 + b1 * 65536 + b2 * 256 + b3);
    assert(v <= 4294967295 && v / 16777216 == b0 && (v / 65536) % 256 == b1 && (v / 256) % 256 == b2 && v % 256 == b3)
        by (nonlinear_arith)
        requires
            v == b0 * 16777216 + b1 * 65536 + b2 * 256 + b3,
            0 <= b0 < 256,
            0 <= b1 < 256,
            0 <= b2 < 256,
            0 <= b3 < 256,
    ;
    let w = v as u32;
    assert(w as int == v);
    assert(b0 % 256 == b0);
}

proof fn lemma_steps_collect(out: Seq<u8>, g: Seq<u8>)
    requires
        g.len() <= 4,
        forall|i: int| 0 <= i < g.len() ==> 33 <= #[trigger] g[i] <= 117,
    ensures
        a85_steps(Some((out, Seq::<u8>::empty())), g) == Some((out, g)),
    decreases g.len(),
{
    if g.len() > 0 {
        let front = g.drop_last();
        assert forall|i: int| 0 <= i < front.len() implies 33 <= #[trigger] front[i] <= 117 by {
            assert(front[i] == g[i]);
        }
        lemma_steps_collect(out, front);
        assert(g[g.len() - 1] == g.last());
        assert(front.push(g.last()) =~= g);
    }
}

proof fn lemma_steps_group(out: Seq<u8>, v: nat)
    requires
        v <= u32::MAX,
    ensures
        a85_steps(Some((out, Seq::<u8>::empty())), a85_digits(v)) == Some((out + be_bytes(v as u32), Seq::<u8>::empty())),
{
    lemma_digits(v);
    let d = a85_digits(v);
    let front = d.drop_last();
    assert forall|i: int| 0 <= i < front.len() implies 33 <= #[trigger] front[i] <= 117 by {
        assert(front[i] == d[i]);
    }
    lemma_steps_collect(out, front);
    assert(front.push(d.last()) =~= d);
    assert(d[4] == d.last());
    assert(a85_group(d) == Some(v as u32));
}

proof fn lemma_group_chars(g: Seq<u8>)
    requires
        g.len() == 4,
    ensures
        forall|i: int| 0 <= i < a85_encode_group(g).len() ==> 33 <= #[trigger] a85_encode_group(g)[i] <= 122,
{
    reveal(a85_encode_group);
    lemma_be_round_trip(g);
    lemma_digits(be_value(g));
}

proof fn lemma_tail_chars(b: Seq<u8>)
    requires
        0 < b.len() < 4,
    ensures
        a85_encode_tail(b).len() == b.len() + 1,
        forall|i: int| 0 <= i < a85_encode_tail(b).len() ==> 33 <= #[trigger] a85_encode_tail(b)[i] <= 117,
{
    reveal(a85_encode_tail);
    lemma_be_round_trip(zero_padded(b));
    let v = be_value(zero_padded(b));
    lemma_digits(v);
    let t = a85_encode_tail(b);
    assert forall|i: int| 0 <= i < t.len() implies 33 <= #[trigger] t[i] <= 117 by {
        assert(t[i] == a85_digits(v)[i]);
    }
}

/// Every character of an encoding is a digit character or 'z'.
proof fn lemma_encode_chars(b: Seq<u8>)
    ensures
        forall|i: int| 0 <= i < a85_encode(b).len() ==> 33 <= #[trigger] a85_encode(b)[i] <= 122,
    decreases b.len(),
{
    if b.len() >= 4 {
        lemma_encode_chars(b.skip(4));
        lemma_group_chars(b.take(4));
        let head = a85_encode_group(b.take(4));
        let e = a85_encode(b);
        assert(e == head + a85_encode(b.skip(4)));
        assert forall|i: int| 0 <= i < e.len() implies 33 <= #[trigger] e[i] <= 122 by {
            if i >= head.len() {
                assert(e[i] == a85_encode(b.skip(4))[i - head.len()]);
            } else {
                assert(e[i] == head[i]);
            }
        }
    } else if b.len() > 0 {
        lemma_tail_chars(b);
    }
}

proof fn lemma_group_steps(out: Seq<u8>, g: Seq<u8>)
    requires
        g.len() == 4,
    ensures
        a85_steps(Some((out, Seq::<u8>::empty())), a85_encode_group(g)) == Some((out + g, Seq::<u8>::empty())),
{
    reveal(a85_encode_group);
    lemma_be_round_trip(g);
    let v = be_value(g);
    let st = Some((out, Seq::<u8>::empty()));
    if v == 0 {
        lemma_zero_group(g);
        let z = seq![122u8];
        assert(z.drop_last() =~= Seq::<u8>::empty());
        assert(a85_steps(st, z.drop_last()) == st);
        assert(a85_steps(st, z) == a85_step(st, 122u8));
        assert(out + seq![0u8, 0u8, 0u8, 0u8] == out + g);
    } else {
        lemma_steps_group(out, v);
        assert(be_bytes(v as u32) == g);
    }
}

proof fn lemma_zero_group(b: Seq<u8>)
    requires
        b.len() == 4,
        be_value(b) == 0,
    ensures
        b =~= seq![0u8, 0u8, 0u8, 0u8],
{
}

/// Decoding the encoding of `b` after text that left `out` with no pending group: the whole
/// groups of `b` are added to `out`, and the characters of its short final group are pending.
proof fn lemma_encode_steps(out: Seq<u8>, b: Seq<u8>)
    ensures
        b.len() % 4 == 0 ==> a85_steps(Some((out, Seq::<u8>::empty())), a85_encode(b)) == Some((out + b, Seq::<u8>::empty())),
        b.len() % 4 != 0 ==> a85_steps(Some((out, Seq::<u8>::empty())), a85_encode(b)) == Some((
            out + b.take(b.len() - b.len() % 4),
            a85_encode_tail(b.skip(b.len() - b.len() % 4)),
        )),
    decreases b.len(),
{
    let st = Some((out, Seq::<u8>::empty()));
    if b.len() >= 4 {
        let g = b.take(4);
        let rest = b.skip(4);
        let head = a85_encode_group(g);
        assert(a85_encode(b) == head + a85_encode(rest));
        lemma_a85_steps_concat(st, head, a85_encode(rest));
        lemma_group_steps(out, g);
        let out2 = out + g;
        lemma_encode_steps(out2, rest);
        let n: int = (b.len() % 4) as int;
        assert(rest.len() % 4 == n);
        if n == 0 {
            assert(out2 + rest =~= out + b);
        } else {
            let rfull: int = rest.len() - n;
            assert(out2 + rest.take(rfull) =~= out + b.take(b.len() - n));
            assert(rest.skip(rfull) =~= b.skip(b.len() - n));
        }
    } else if b.len() == 0 {
        assert(out + b =~= out);
    } else {
        lemma_tail_chars(b);
        lemma_steps_collect(out, a85_encode_tail(b));
        assert(b.take(0) =~= Seq::<u8>::empty());
        assert(out + b.take(0) =~= out);
        assert(b.skip(0) =~= b);
    }
}

/// What a short final group of `n` characters padded with 'u' stands for, for the group
/// value `v`: `v` with everything below its first `n` digits raised to its largest.
pub open spec fn padded_value(v: int, n: int) -> int {
    if n == 1 {
        (v / 614125) * 614125 + 614124
    } else if n == 2 {
        (v / 7225) * 7225 + 7224
    } else {
        (v / 85) * 85 + 84
    }
}

/// The digits of `v` written with its quotients by powers of 85.
proof fn lemma_digits_shape(v: nat)
    requires
        v <= u32::MAX,
    ensures
        v / 52200625 < 85,
        a85_digits(v) == seq![
            (v / 52200625 + 33) as u8,
            ((v / 614125) % 85 + 33) as u8,
            ((v / 7225) % 85 + 33) as u8,
            ((v / 85) % 85 + 33) as u8,
            (v % 85 + 33) as u8,
        ],
        v / 614125 == (v / 52200625) * 85 + (v / 614125) % 85,
        v / 7225 == (v / 614125) * 85 + (v / 7225) % 85,
        v / 85 == (v / 7225) * 85 + (v / 85) % 85,
{
    reveal(a85_digits);
    let q1 = v / 85;
    let q2 = q1 / 85;
    let q3 = q2 / 85;
    let q4 = q3 / 85;
    vstd::arithmetic::div_mod::lemma_div_denominator(v as int, 85, 85);
    vstd::arithmetic::div_mod::lemma_div_denominator(v as int, 7225, 85);
    vstd::arithmetic::div_mod::lemma_div_denominator(v as int, 614125, 85);
    assert(q4 < 85 && q1 == q2 * 85 + q1 % 85 && q2 == q3 * 85 + q2 % 85 && q3 == q4 * 85 + q3 % 85) by (nonlinear_arith)
        requires
            v <= 4294967295,
            q1 == v / 85,
            q2 == q1 / 85,
            q3 == q2 / 85,
            q4 == q3 / 85,
    ;
    assert(q4 % 85 == q4);
}

proof fn lemma_a85_value_5(p: Seq<u8>)
    requires
        p.len() == 5,
    ensures
        a85_value(p, 5) == ((((p[0] - 33) * 85 + (p[1] - 33)) * 85 + (p[2] - 33)) * 85 + (p[3] - 33)) * 85 + (p[4] - 33),
{
    assert(a85_value(p, 0) == 0);
    assert(a85_value(p, 1) == p[0] - 33);
    assert(a85_value(p, 2) == (p[0] - 33) * 85 + (p[1] - 33));
    assert(a85_value(p, 3) == ((p[0] - 33) * 85 + (p[1] - 33)) * 85 + (p[2] - 33));
    assert(a85_value(p, 4) == (((p[0] - 33) * 85 + (p[1] - 33)) * 85 + (p[2] - 33)) * 85 + (p[3] - 33));
}

#[verifier::rlimit(60)]
proof fn lemma_tail_value(c: Seq<u8>)
    requires
        0 < c.len() < 4,
    ensures
        pad_group(a85_encode_tail(c)).len() == 5,
        forall|i: int| 0 <= i < 5 ==> 33 <= #[trigger] pad_group(a85_encode_tail(c))[i] <= 117,
        a85_value(pad_group(a85_encode_tail(c)), 5) == padded_value(be_value(zero_padded(c)) as int, c.len() as int),
{
    reveal(a85_encode_tail);
    let z = zero_padded(c);
    assert(z.len() == 4);
    let v = be_value(z);
    assert(v <= u32::MAX);
    lemma_digits_shape(v);
    let q1 = v / 85;
    let q2 = v / 7225;
    let q3 = v / 614125;
    let q4 = v / 52200625;
    let t = a85_encode_tail(c);
    let p = pad_group(t);
    let n = c.len();
    let d = a85_digits(v);
    assert(t =~= d.take(n + 1int));
    assert(p.len() == 5);
    assert(forall|i: int| 0 <= i <= n ==> p[i] == d[i]);
    assert(forall|i: int| n < i < 5 ==> p[i] == 117u8);
    lemma_a85_value_5(p);
    let e0 = p[0] - 33;
    let e1 = p[1] - 33;
    let e2 = p[2] - 33;
    let e3 = p[3] - 33;
    let e4 = p[4] - 33;
    assert(e0 == q4);
    assert(e1 == q3 % 85);
    assert(e0 * 85 + e1 == q3);
    if n == 1 {
        assert(e2 == 84 && e3 == 84 && e4 == 84);
    } else if n == 2 {
        assert(e2 == q2 % 85 && e3 == 84 && e4 == 84);
        assert(q3 * 85 + e2 == q2);
    } else {
        assert(e2 == q2 % 85 && e3 == q1 % 85 && e4 == 84);
        assert(q3 * 85 + e2 == q2);
        assert(q2 * 85 + e3 == q1);
    }
}

#[verifier::rlimit(50)]
proof fn lemma_tail_window(c: Seq<u8>)
    requires
        0 < c.len() < 4,
    ensures
        ({
            let w = padded_value(be_value(zero_padded(c)) as int, c.len() as int);
            &&& 0 <= w <= u32::MAX
            &&& (w / 16777216) % 256 == c[0]
            &&& c.len() >= 2 ==> (w / 65536) % 256 == c[1]
            &&& c.len() >= 3 ==> (w / 256) % 256 == c[2]
        }),
{
    let z = zero_padded(c);
    let n = c.len();
    assert(forall|i: int| 0 <= i < n ==> z[i] == c[i]);
    assert(forall|i: int| n <= i < 4 ==> z[i] == 0);
    let v = be_value(z) as int;
    let w = padded_value(v, n as int);
    let b0 = z[0] as int;
    let b1 = z[1] as int;
    let b2 = z[2] as int;
    if n == 1 {
        assert(0 <= w && w <= 4294967295 && w / 16777216 == b0) by (nonlinear_arith)
            requires
                v == b0 * 16777216,
                0 <= b0 < 256,
                w == (v / 614125) * 614125 + 614124,
        ;
    } else if n == 2 {
        assert(0 <= w && w <= 4294967295 && w / 65536 == b0 * 256 + b1 && w / 16777216 == b0) by (nonlinear_arith)
            requires
                v == b0 * 16777216 + b1 * 65536,
                0 <= b0 < 256,
                0 <= b1 < 256,
                w == (v / 7225) * 7225 + 7224,
        ;
    } else {
        assert(0 <= w && w <= 4294967295 && w / 256 == b0 * 65536 + b1 * 256 + b2 && w / 65536 == b0 * 256 + b1
            && w / 16777216 == b0) by (nonlinear_arith)
            requires
                v == b0 * 16777216 + b1 * 65536 + b2 * 256,
                0 <= b0 < 256,
                0 <= b1 < 256,
                0 <= b2 < 256,
                w == (v / 85) * 85 + 84,
        ;
    }
}

/// The value of a short final group padded with 'u' gives back the bytes of the group.
proof fn lemma_tail_decode(c: Seq<u8>)
    requires
        0 < c.len() < 4,
    ensures
        a85_group(pad_group(a85_encode_tail(c))) matches Some(w) && be_bytes(w).take(c.len() as int) =~= c,
{
    lemma_tail_value(c);
    lemma_tail_window(c);
    let w = padded_value(be_value(zero_padded(c)) as int, c.len() as int);
    let x = w as u32;
    assert(x as int == w);
    let bytes = be_bytes(x);
    assert(bytes.take(c.len() as int) =~= c);
}

/// Decoding undoes encoding: the ASCII85 text that PDF writes for any bytes, ended by "~>",
/// decodes to those bytes.
pub proof fn law_ascii85_round_trip(b: Seq<u8>)
    ensures
        ascii85(a85_encode(b) + seq![126u8, 62u8]) == Some(b),
{
    let e = a85_encode(b);
    lemma_encode_chars(b);
    lemma_before_byte_prefix_free(e, seq![126u8, 62u8], 126u8);
    assert(before_byte(seq![126u8, 62u8], 126u8) =~= Seq::<u8>::empty());
    assert(e + Seq::<u8>::empty() =~= e);
    lemma_a85_fold_concat(Seq::<u8>::empty(), e);
    assert(Seq::<u8>::empty() + e =~= e);
    lemma_encode_steps(Seq::<u8>::empty(), b);
    let n = b.len() % 4;
    let full: int = b.len() - n;
    assert(Seq::<u8>::empty() + b =~= b);
    if n != 0 {
        let c = b.skip(full);
        lemma_tail_chars(c);
        lemma_tail_decode(c);
        assert(Seq::<u8>::empty() + b.take(full) =~= b.take(full));
        assert(b.take(full) + c =~= b);
    }
}

proof fn lemma_before_byte_prefix_free(x: Seq<u8>, y: Seq<u8>, stop: u8)
    requires
        forall|i: int| 0 <= i < x.len() ==> #[trigger] x[i] != stop,
    ensures
        before_byte(x + y, stop) == x + before_byte(y, stop),
    decreases x.len(),
{
    if x.len() > 0 {
        let rest = x.skip(1);
        assert forall|i: int| 0 <= i < rest.len() implies #[trigger] rest[i] != stop by {
            assert(rest[i] == x[i + 1]);
        }
        lemma_before_byte_prefix_free(rest, y, stop);
        assert((x + y).skip(1) =~= rest + y);
        assert((x + y)[0] == x[0]);
        assert(seq![x[0]] + (rest + before_byte(y, stop)) =~= x + before_byte(y, stop));
    } else {
        assert(x + y =~= y);
        assert(x + before_byte(y, stop) =~= before_byte(y, stop));
    }
}

/// How an image stream is handed to OCR, by its filters: a stream with no filter, or with
/// FlateDecode anywhere in its chain, is decoded to pixels; exactly the one filter DCTDecode
/// is a JPEG file as it stands; every other chain is skipped.
pub proof fn law_image_encoding_by_filters(filters: Seq<StreamFilter>)
    ensures
        (filters.len() == 0 || exists|i: int| 0 <= i < filters.len() && filters[i] == StreamFilter::FlateDecode)
            ==> image_encoding_spec(filters) == ImageEncoding::RawPixels,
        image_encoding_spec(filters) == ImageEncoding::Jpeg <==> filters =~= seq![StreamFilter::DctDecode],
        image_encoding_spec(filters) == ImageEncoding::Unsupported <==> (filters.len() > 0
            && (forall|i: int| 0 <= i < filters.len() ==> filters[i] != StreamFilter::FlateDecode)
            && !(filters =~= seq![StreamFilter::DctDecode])),
{
    if exists|i: int| 0 <= i < filters.len() && filters[i] == StreamFilter::FlateDecode {
        let i = choose|i: int| 0 <= i < filters.len() && filters[i] == StreamFilter::FlateDecode;
        assert(filters.contains(filters[i]));
    }
    if filters.contains(StreamFilter::FlateDecode) {
        let i = choose|i: int| 0 <= i < filters.len() && filters[i] == StreamFilter::FlateDecode;
        assert(filters[i] == StreamFilter::FlateDecode);
    }
    if filters.len() == 1 && filters[0] == StreamFilter::DctDecode {
        assert(filters =~= seq![StreamFilter::DctDecode]);
    }
}

/// A stream whose only filter is DCTDecode goes to OCR as a JPEG holding exactly its bytes;
/// one with FlateDecode in its chain goes as the PNG of its decoded pixels, when they decode
/// and the image's size and colour space are known.
pub proof fn law_image_files_by_filters(
    filters: Seq<StreamFilter>,
    content: Seq<u8>,
    width: Option<i64>,
    height: Option<i64>,
    channels: Option<u8>,
)
    ensures
        filters =~= seq![StreamFilter::DctDecode] ==> image_file_of(filters, content, width, height, channels) == Some((true, content)),
        (exists|i: int| 0 <= i < filters.len() && filters[i] == StreamFilter::FlateDecode) ==> image_file_of(
            filters,
            content,
            width,
            height,
            channels,
        ) == match (decode_chain(filters, content), width, height, channels) {
            (Some(raw), Some(w), Some(h), Some(c)) => match png_of(raw, w as u32, h as u32, c) {
                Some(png) => Some((false, png)),
                None => None,
            },
            _ => None,
        },
{
    law_image_encoding_by_filters(filters);
}

} // verus!
