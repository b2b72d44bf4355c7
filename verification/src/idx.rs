//! Decoder for the IDX container in which the digit images and their labels
//! are distributed: a big-endian header followed by raw bytes.

use bytes::Buf;
use vstd::prelude::*;

verus! {

/// Magic number that opens an image file.
pub const IMAGES_MAGIC: i32 = 2051;

/// Magic number that opens a label file.
pub const LABELS_MAGIC: i32 = 2049;

/// Why a byte string is not a well-formed file.
#[derive(Debug, Clone, Copy, PartialEq, Eq, Structural)]
pub enum ParseError {
    /// The first four bytes are not the magic number of an image file.
    NotImages,
    /// The first four bytes are not the magic number of a label file.
    NotLabels,
    /// The header announces more payload bytes than the input holds.
    UnexpectedEof,
}

impl ParseError {
    /// The text shown for this error.
    pub fn message(&self) -> (s: &'static str)
        ensures
            s@ == (match *self {
                ParseError::NotImages => "magic!=2051"@,
                ParseError::NotLabels => "magic!=2049"@,
                ParseError::UnexpectedEof => "failed to fill whole buffer"@,
            }),
    {
        match self {
            ParseError::NotImages => "magic!=2051",
            ParseError::NotLabels => "magic!=2049",
            ParseError::UnexpectedEof => "failed to fill whole buffer",
        }
    }
}

/// The unsigned number that the first four bytes of `b` spell, most
/// significant byte first.
pub open spec fn be_u32(b: Seq<u8>) -> int
    recommends
        b.len() >= 4,
{
    b[0] as int * 0x100_0000 + b[1] as int * 0x1_0000 + b[2] as int * 0x100 + b[3] as int
}

/// The same four bytes read as a two's-complement signed number.
pub open spec fn be_i32(b: Seq<u8>) -> int
    recommends
        b.len() >= 4,
{
    if be_u32(b) >= 0x8000_0000 {
        be_u32(b) - 0x1_0000_0000
    } else {
        be_u32(b)
    }
}

/// `bytes::Buf::get_u32` on a byte slice: decodes the first four bytes as a
/// big-endian unsigned integer and moves the slice past them. The call panics
/// on fewer than four bytes, which the precondition rules out.
#[verifier::external_body]
fn take_u32(buf: &mut &[u8]) -> (v: u32)
    requires
        old(buf)@.len() >= 4,
    ensures
        v as int == be_u32(old(buf)@),
        final(buf)@ == old(buf)@.skip(4),
{
    buf.get_u32()
}

/// `bytes::Buf::get_i32` on a byte slice: decodes the first four bytes as a
/// big-endian signed integer and moves the slice past them. The call panics on
/// fewer than four bytes, which the precondition rules out.
#[verifier::external_body]
fn take_i32(buf: &mut &[u8]) -> (v: i32)
    requires
        old(buf)@.len() >= 4,
    ensures
        v as int == be_i32(old(buf)@),
        final(buf)@ == old(buf)@.skip(4),
{
    buf.get_i32()
}

/// Number of labels that a label file announces.
pub open spec fn label_count(data: Seq<u8>) -> int {
    be_i32(data.skip(4))
}

/// Inputs that the label decoder accepts: the magic number is present, and if
/// it is the right one, so is a non-negative count.
pub open spec fn labels_header_readable(data: Seq<u8>) -> bool {
    &&& data.len() >= 4
    &&& be_i32(data) == LABELS_MAGIC ==> data.len() >= 8 && label_count(data) >= 0
}

/// Why a label file cannot be decoded, if it cannot.
pub open spec fn labels_error(data: Seq<u8>) -> Option<ParseError> {
    if be_i32(data) != LABELS_MAGIC {
        Some(ParseError::NotLabels)
    } else if 8 + label_count(data) > data.len() {
        Some(ParseError::UnexpectedEof)
    } else {
        None
    }
}

/// The labels of a well-formed label file, in file order.
pub open spec fn labels_of(data: Seq<u8>) -> Seq<u8> {
    data.subrange(8, 8 + label_count(data))
}

/// Tells whether the label decoder accepts `data`.
pub fn labels_readable(data: &[u8]) -> (ok: bool)
    ensures
        ok == labels_header_readable(data@),
{
    if data.len() < 4 {
        return false;
    }
    let mut buf: &[u8] = data;
    let magic: i32 = take_i32(&mut buf);
    if magic != LABELS_MAGIC {
        return true;
    }
    if buf.len() < 4 {
        return false;
    }
    let count: i32 = take_i32(&mut buf);
    count >= 0
}

/// Decodes the bytes of a label file: magic number, count, then one byte per
/// label. Bytes after the announced labels are ignored.
pub fn parse_labels_from_reader(data: &[u8]) -> (r: Result<Vec<u8>, ParseError>)
    requires
        labels_header_readable(data@),
    ensures
        match labels_error(data@) {
            Some(e) => r == Err::<Vec<u8>, ParseError>(e),
            None => r is Ok && r->Ok_0@ == labels_of(data@),
        },
{
    let mut buf: &[u8] = data;
    let magic: i32 = take_i32(&mut buf);
    if magic != LABELS_MAGIC {
        return Err(ParseError::NotLabels);
    }
    let count: i32 = take_i32(&mut buf);
    let n: usize = count as usize;
    if buf.len() < n {
        return Err(ParseError::UnexpectedEof);
    }
    let (head, _rest) = buf.split_at(n);
    let labels: Vec<u8> = vstd::slice::slice_to_vec(head);
    assert(labels@ =~= labels_of(data@));
    Ok(labels)
}

/// Number of images that an image file announces.
pub open spec fn image_count(data: Seq<u8>) -> int {
    be_i32(data.skip(4))
}

/// Number of pixel rows of each image.
pub open spec fn image_rows(data: Seq<u8>) -> int {
    be_u32(data.skip(8))
}

/// Number of pixel columns of each image.
pub open spec fn image_cols(data: Seq<u8>) -> int {
    be_u32(data.skip(12))
}

/// Number of bytes that one image takes.
pub open spec fn image_len(data: Seq<u8>) -> int {
    image_rows(data) * image_cols(data)
}

/// Inputs that the image decoder accepts: the magic number is present, and if
/// it is the right one, so is the rest of the header, with a non-negative
/// count and an image size that fits in 32 bits.
pub open spec fn images_header_readable(data: Seq<u8>) -> bool {
    &&& data.len() >= 4
    &&& be_i32(data) == IMAGES_MAGIC ==> {
        &&& data.len() >= 16
        &&& image_count(data) >= 0
        &&& image_len(data) <= u32::MAX
    }
}

/// The bytes of image number `i`.
pub open spec fn image_at(data: Seq<u8>, i: int) -> Seq<u8> {
    data.subrange(16 + i * image_len(data), 16 + (i + 1) * image_len(data))
}

/// Why an image file cannot be decoded, if it cannot.
pub open spec fn images_error(data: Seq<u8>) -> Option<ParseError> {
    if be_i32(data) != IMAGES_MAGIC {
        Some(ParseError::NotImages)
    } else if 16 + image_count(data) * image_len(data) > data.len() {
        Some(ParseError::UnexpectedEof)
    } else {
        None
    }
}

proof fn lemma_offsets(i: int, n: int, sz: int)
    requires
        0 <= i < n,
        0 <= sz,
    ensures
        0 <= i * sz,
        (i + 1) * sz == i * sz + sz,
        (i + 1) * sz <= n * sz,
{
    assert(0 <= i * sz) by (nonlinear_arith)
        requires
            0 <= i,
            0 <= sz,
    ;
    assert((i + 1) * sz == i * sz + sz) by (nonlinear_arith);
    assert((i + 1) * sz <= n * sz) by (nonlinear_arith)
        requires
            i + 1 <= n,
            0 <= sz,
    ;
}

/// Tells whether the image decoder accepts `data`.
pub fn images_readable(data: &[u8]) -> (ok: bool)
    ensures
        ok == images_header_readable(data@),
{
    if data.len() < 4 {
        return false;
    }
    let mut buf: &[u8] = data;
    let magic: i32 = take_i32(&mut buf);
    if magic != IMAGES_MAGIC {
        return true;
    }
    if buf.len() < 12 {
        return false;
    }
    let count: i32 = take_i32(&mut buf);
    let rows: u32 = take_u32(&mut buf);
    let cols: u32 = take_u32(&mut buf);
    assert(buf@ =~= data@.skip(16));
    assert(rows as int * cols as int <= 0xffff_ffff * 0xffff_ffff) by (nonlinear_arith)
        requires
            0 <= rows <= 0xffff_ffff,
            0 <= cols <= 0xffff_ffff,
    ;
    let size: u64 = rows as u64 * cols as u64;
    count >= 0 && size <= 0xffff_ffff
}

/// Decodes the bytes of an image file: magic number, image count, rows,
/// columns, then `rows * cols` bytes per image. Bytes after the announced images
/// are ignored.
pub fn parse_imgs_from_reader(data: &[u8]) -> (r: Result<(u32, u32, Vec<Vec<u8>>), ParseError>)
    requires
        images_header_readable(data@),
    ensures
        match images_error(data@) {
            Some(e) => r == Err::<(u32, u32, Vec<Vec<u8>>), ParseError>(e),
            None => {
                &&& r is Ok
                &&& r->Ok_0.0 == image_rows(data@)
                &&& r->Ok_0.1 == image_cols(data@)
                &&& r->Ok_0.2@.len() == image_count(data@)
                &&& forall|i: int|
                    0 <= i < image_count(data@) ==> {
                        &&& (#[trigger] r->Ok_0.2@[i])@ == image_at(data@, i)
                        &&& r->Ok_0.2@[i]@.len() == image_len(data@)
                    }
            },
        },
{
    let mut buf: &[u8] = data;
    let magic: i32 = take_i32(&mut buf);
    if magic != IMAGES_MAGIC {
        return Err(ParseError::NotImages);
    }
    let count: i32 = take_i32(&mut buf);
    let rows: u32 = take_u32(&mut buf);
    let cols: u32 = take_u32(&mut buf);
    assert(buf@ =~= data@.skip(16));
    assert(rows as int * cols as int == image_len(data@));
    let size: usize = (cols * rows) as usize;
    let mut imgs: Vec<Vec<u8>> = Vec::new();
    let mut i: i32 = 0;
    while i < count
        invariant
            0 <= i <= count,
            count as int == image_count(data@),
            size as int == image_len(data@),
            be_i32(data@) == IMAGES_MAGIC,
            16 + i * size <= data@.len(),
            buf@ == data@.skip(16 + i * size),
            imgs@.len() == i,
            forall|k: int|
                0 <= k < i ==> (#[trigger] imgs@[k])@ == image_at(data@, k) && imgs@[k]@.len()
                    == size,
        decreases count - i,
    {
        proof {
            lemma_offsets(i as int, count as int, size as int);
        }
        if buf.len() < size {
            return Err(ParseError::UnexpectedEof);
        }
        let (head, rest) = buf.split_at(size);
        let img: Vec<u8> = vstd::slice::slice_to_vec(head);
        assert(img@ =~= image_at(data@, i as int));
        assert(rest@ =~= data@.skip(16 + (i + 1) * size));
        imgs.push(img);
        buf = rest;
        i = i + 1;
    }
    Ok((rows, cols, imgs))
}

} // verus!
