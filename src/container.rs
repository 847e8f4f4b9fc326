use img_parts::jpeg::Jpeg;
use img_parts::png::Png;
use img_parts::{ImageEXIF, ImageICC};
use vstd::prelude::*;

verus! {

#[verifier::external_type_specification]
#[verifier::external_body]
pub struct ExPng(img_parts::png::Png);

#[verifier::external_type_specification]
#[verifier::external_body]
pub struct ExJpeg(img_parts::jpeg::Jpeg);

#[verifier::external_type_specification]
#[verifier::external_body]
pub struct ExContainerError(img_parts::Error);

/// Type of a PNG chunk holding EXIF data (`eXIf`).
pub open spec fn exif_kind() -> Seq<u8> {
    seq![101u8, 88u8, 73u8, 102u8]
}

/// Type of a PNG chunk holding an ICC profile (`iCCP`).
pub open spec fn iccp_kind() -> Seq<u8> {
    seq![105u8, 67u8, 67u8, 80u8]
}

/// JPEG marker of the segment that holds EXIF data.
pub const APP1: u8 = 0xE1;

/// JPEG marker of the segments that hold an ICC profile.
pub const APP2: u8 = 0xE2;

/// Leading bytes of an EXIF segment of a JPEG (`Exif\0\0`).
pub open spec fn exif_prefix() -> Seq<u8> {
    seq![69u8, 120u8, 105u8, 102u8, 0u8, 0u8]
}

/// Leading bytes of an ICC segment of a JPEG (`ICC_PROFILE\0`).
pub open spec fn icc_prefix() -> Seq<u8> {
    seq![73u8, 67u8, 67u8, 95u8, 80u8, 82u8, 79u8, 70u8, 73u8, 76u8, 69u8, 0u8]
}

/// Largest piece of an ICC profile that one JPEG segment carries.
pub const ICC_PIECE: usize = 65519;

/// Names the container that `Png::from_bytes` reads from bytes, if any.
pub uninterp spec fn png_decoded(b: Seq<u8>) -> Option<Png>;

/// Names the chunks of a PNG container: type and contents of each, in order.
pub uninterp spec fn png_chunks(p: Png) -> Seq<(Seq<u8>, Seq<u8>)>;

/// Names what `ImageICC::icc_profile` returns for a PNG container.
pub uninterp spec fn png_icc(p: Png) -> Option<Seq<u8>>;

/// Names the bytes that the encoder of a PNG container produces.
pub uninterp spec fn png_encoded(p: Png) -> Seq<u8>;

/// Names the container that `ImageEXIF::set_exif` leaves for a PNG container.
pub uninterp spec fn png_with_exif(p: Png, exif: Option<Seq<u8>>) -> Png;

/// Names the container that `ImageICC::set_icc_profile` leaves for a PNG container.
pub uninterp spec fn png_with_icc(p: Png, profile: Option<Seq<u8>>) -> Png;

/// Names the container that `Jpeg::from_bytes` reads from bytes, if any.
pub uninterp spec fn jpeg_decoded(b: Seq<u8>) -> Option<Jpeg>;

/// Names the segments of a JPEG container: marker, contents and entropy-coded data
/// of each, in order.
pub uninterp spec fn jpeg_segments(j: Jpeg) -> Seq<(u8, Seq<u8>, Seq<u8>)>;

/// Names what `ImageICC::icc_profile` returns for a JPEG container.
pub uninterp spec fn jpeg_icc(j: Jpeg) -> Option<Seq<u8>>;

/// Names the bytes that the encoder of a JPEG container produces.
pub uninterp spec fn jpeg_encoded(j: Jpeg) -> Seq<u8>;

/// Names the container that `ImageEXIF::set_exif` leaves for a JPEG container.
pub uninterp spec fn jpeg_with_exif(j: Jpeg, exif: Option<Seq<u8>>) -> Jpeg;

/// Names the container that `ImageICC::set_icc_profile` leaves for a JPEG container.
pub uninterp spec fn jpeg_with_icc(j: Jpeg, profile: Option<Seq<u8>>) -> Jpeg;

/// Largest contents of a PNG chunk whose length the encoder can write (`u32`).
pub const PNG_CHUNK_MAX: u64 = 0xffff_ffff;

/// Largest contents of a JPEG segment whose length the encoder can write (a `u16`
/// that counts itself).
pub const JPEG_SEGMENT_MAX: usize = 65533;

/// Largest EXIF data that fits one JPEG segment behind its prefix.
pub const JPEG_EXIF_MAX: usize = 65527;

/// Largest ICC profile carried into a PNG: its compressed form then fits a chunk.
pub const PNG_ICC_MAX: u64 = 0x8000_0000;

/// Every chunk is small enough for its length to be encoded.
pub open spec fn chunks_fit(cs: Seq<(Seq<u8>, Seq<u8>)>) -> bool {
    forall|i: int| 0 <= i < cs.len() ==> (#[trigger] cs[i]).1.len() <= PNG_CHUNK_MAX
}

/// Every segment is small enough for its length to be encoded.
pub open spec fn segments_fit(ss: Seq<(u8, Seq<u8>, Seq<u8>)>) -> bool {
    forall|i: int| 0 <= i < ss.len() ==> (#[trigger] ss[i]).1.len() <= JPEG_SEGMENT_MAX
}

pub open spec fn opt_view(o: Option<Vec<u8>>) -> Option<Seq<u8>> {
    match o {
        Some(v) => Some(v@),
        None => None,
    }
}

pub open spec fn chunk_views(v: Seq<(Vec<u8>, Vec<u8>)>) -> Seq<(Seq<u8>, Seq<u8>)> {
    v.map_values(|c: (Vec<u8>, Vec<u8>)| (c.0@, c.1@))
}

pub open spec fn segment_views(v: Seq<(u8, Vec<u8>)>) -> Seq<(u8, Seq<u8>)> {
    v.map_values(|s: (u8, Vec<u8>)| (s.0, s.1@))
}

/// Marker and contents of each segment.
pub open spec fn headers(ss: Seq<(u8, Seq<u8>, Seq<u8>)>) -> Seq<(u8, Seq<u8>)> {
    ss.map_values(|s: (u8, Seq<u8>, Seq<u8>)| (s.0, s.1))
}

/// Contents of the first chunk of type `kind` at or after `i`.
pub open spec fn first_chunk(cs: Seq<(Seq<u8>, Seq<u8>)>, kind: Seq<u8>, i: nat) -> Option<Seq<u8>>
    decreases cs.len() - i,
{
    if i >= cs.len() {
        None
    } else if cs[i as int].0 == kind {
        Some(cs[i as int].1)
    } else {
        first_chunk(cs, kind, i + 1)
    }
}

/// The EXIF data of a PNG container: the contents of its first `eXIf` chunk.
pub open spec fn png_exif(p: Png) -> Option<Seq<u8>> {
    first_chunk(png_chunks(p), exif_kind(), 0)
}

/// A chunk that holds neither EXIF data nor an ICC profile.
pub open spec fn is_plain_chunk(c: (Seq<u8>, Seq<u8>)) -> bool {
    c.0 != exif_kind() && c.0 != iccp_kind()
}

/// The chunks that hold neither EXIF data nor an ICC profile, in order.
pub open spec fn plain_chunks(cs: Seq<(Seq<u8>, Seq<u8>)>) -> Seq<(Seq<u8>, Seq<u8>)>
    decreases cs.len(),
{
    if cs.len() == 0 {
        seq![]
    } else if is_plain_chunk(cs.last()) {
        plain_chunks(cs.drop_last()).push(cs.last())
    } else {
        plain_chunks(cs.drop_last())
    }
}

/// The ICC chunk of a PNG container, if any, can be read: its profile name ends
/// with a NUL byte that a compression byte follows.
pub open spec fn png_icc_readable(p: Png) -> bool {
    icc_chunk_ok(png_chunks(p))
}

/// A NUL byte stands in `c` before its last byte.
pub open spec fn nul_before_last(c: Seq<u8>) -> bool {
    exists|i: int| 0 <= i && i + 1 < c.len() && c[i] == 0
}

/// The first `iCCP` chunk among `cs`, if any, has a NUL byte before its last byte.
pub open spec fn icc_chunk_ok(cs: Seq<(Seq<u8>, Seq<u8>)>) -> bool {
    match first_chunk(cs, iccp_kind(), 0) {
        None => true,
        Some(c) => nul_before_last(c),
    }
}

/// A JPEG segment that holds EXIF data.
pub open spec fn is_exif_segment(s: (u8, Seq<u8>, Seq<u8>)) -> bool {
    s.0 == APP1 && exif_prefix().is_prefix_of(s.1)
}

/// A JPEG segment that holds a piece of an ICC profile.
pub open spec fn is_icc_segment(s: (u8, Seq<u8>, Seq<u8>)) -> bool {
    s.0 == APP2 && icc_prefix().is_prefix_of(s.1)
}

/// The EXIF data of the first EXIF segment at or after `i`.
pub open spec fn first_exif(ss: Seq<(u8, Seq<u8>, Seq<u8>)>, i: nat) -> Option<Seq<u8>>
    decreases ss.len() - i,
{
    if i >= ss.len() {
        None
    } else if is_exif_segment(ss[i as int]) {
        Some(ss[i as int].1.skip(exif_prefix().len() as int))
    } else {
        first_exif(ss, i + 1)
    }
}

/// The EXIF data of a JPEG container.
pub open spec fn jpeg_exif(j: Jpeg) -> Option<Seq<u8>> {
    first_exif(jpeg_segments(j), 0)
}

/// The segments that hold neither EXIF data nor a piece of an ICC profile, in order.
pub open spec fn plain_segments(ss: Seq<(u8, Seq<u8>, Seq<u8>)>) -> Seq<(u8, Seq<u8>, Seq<u8>)>
    decreases ss.len(),
{
    if ss.len() == 0 {
        seq![]
    } else if !is_exif_segment(ss.last()) && !is_icc_segment(ss.last()) {
        plain_segments(ss.drop_last()).push(ss.last())
    } else {
        plain_segments(ss.drop_last())
    }
}

/// Every ICC segment of a JPEG container holds its sequence number and count.
pub open spec fn jpeg_icc_readable(j: Jpeg) -> bool {
    icc_segments_ok(jpeg_segments(j))
}

/// Every ICC segment among `ss` holds its sequence number and count.
pub open spec fn icc_segments_ok(ss: Seq<(u8, Seq<u8>, Seq<u8>)>) -> bool {
    forall|i: int|
        0 <= i < ss.len() && is_icc_segment(#[trigger] ss[i]) ==> ss[i].1.len() >= icc_prefix().len() + 2
}

/// Relies on `Png::from_bytes`: reads a container from bytes, or fails.
#[verifier::external_body]
pub(crate) fn png_from_bytes(b: &Vec<u8>) -> (r: Result<Png, img_parts::Error>)
    ensures
        r is Ok <==> png_decoded(b@) is Some,
        r matches Ok(p) ==> png_decoded(b@) == Some(p) && chunks_fit(png_chunks(p)),
{
    Png::from_bytes(b.clone().into())
}

/// Relies on `Png::chunks`: type and contents of each chunk, in order.
#[verifier::external_body]
pub(crate) fn png_chunk_list(p: &Png) -> (r: Vec<(Vec<u8>, Vec<u8>)>)
    ensures
        chunk_views(r@) == png_chunks(*p),
{
    p.chunks().iter().map(|c| (c.kind().to_vec(), c.contents().to_vec())).collect()
}

/// Relies on `ImageEXIF::exif` for PNG: the contents of the first `eXIf` chunk.
#[verifier::external_body]
pub(crate) fn png_read_exif(p: &Png) -> (r: Option<Vec<u8>>)
    ensures
        opt_view(r) == png_exif(*p),
{
    p.exif().map(|b| b.to_vec())
}

/// Relies on `ImageICC::icc_profile` for PNG, which reads the first `iCCP` chunk and
/// panics where that chunk is cut short.
#[verifier::external_body]
pub(crate) fn png_read_icc(p: &Png) -> (r: Option<Vec<u8>>)
    requires
        png_icc_readable(*p),
    ensures
        opt_view(r) == png_icc(*p),
{
    p.icc_profile().map(|b| b.to_vec())
}

/// Relies on `ImageEXIF::set_exif` for PNG: drops every `eXIf` chunk, then puts the
/// new one before the last chunk (which panics on a container left without chunks).
#[verifier::external_body]
pub(crate) fn png_write_exif(p: &mut Png, exif: Option<Vec<u8>>)
    requires
        plain_chunks(png_chunks(*old(p))).len() > 0,
    ensures
        *final(p) == png_with_exif(*old(p), opt_view(exif)),
        png_exif(*final(p)) == opt_view(exif),
        chunks_fit(png_chunks(*old(p))) && (exif matches Some(v) ==> v@.len() <= PNG_CHUNK_MAX)
            ==> chunks_fit(png_chunks(*final(p))),
        plain_chunks(png_chunks(*final(p))) == plain_chunks(png_chunks(*old(p))),
        png_icc(*final(p)) == png_icc(*old(p)),
{
    p.set_exif(exif.map(|v| v.into()))
}

/// Relies on `ImageICC::set_icc_profile` for PNG: drops every `iCCP` chunk, then puts
/// a new one, holding a short header and the zlib-compressed profile, second (which
/// panics on a container left without chunks).
#[verifier::external_body]
pub(crate) fn png_write_icc(p: &mut Png, profile: Option<Vec<u8>>)
    requires
        plain_chunks(png_chunks(*old(p))).len() > 0,
    ensures
        *final(p) == png_with_icc(*old(p), opt_view(profile)),
        png_icc(*final(p)) == opt_view(profile),
        chunks_fit(png_chunks(*old(p))) && (profile matches Some(v) ==> v@.len() <= PNG_ICC_MAX)
            ==> chunks_fit(png_chunks(*final(p))),
        png_exif(*final(p)) == png_exif(*old(p)),
        plain_chunks(png_chunks(*final(p))) == plain_chunks(png_chunks(*old(p))),
{
    p.set_icc_profile(profile.map(|v| v.into()))
}

/// Relies on the encoder of `Png`: the bytes of the container (writing a chunk's
/// length panics where it exceeds a `u32`).
#[verifier::external_body]
pub(crate) fn png_to_bytes(p: Png) -> (r: Vec<u8>)
    requires
        chunks_fit(png_chunks(p)),
    ensures
        r@ == png_encoded(p),
{
    p.encoder().bytes().to_vec()
}

/// Relies on `Jpeg::from_bytes`: reads a container from bytes, or fails.
#[verifier::external_body]
pub(crate) fn jpeg_from_bytes(b: &Vec<u8>) -> (r: Result<Jpeg, img_parts::Error>)
    ensures
        r is Ok <==> jpeg_decoded(b@) is Some,
        r matches Ok(j) ==> jpeg_decoded(b@) == Some(j) && segments_fit(jpeg_segments(j)),
{
    Jpeg::from_bytes(b.clone().into())
}

/// Relies on `Jpeg::segments`: marker and contents of each segment, in order.
#[verifier::external_body]
pub(crate) fn jpeg_segment_list(j: &Jpeg) -> (r: Vec<(u8, Vec<u8>)>)
    ensures
        segment_views(r@) == headers(jpeg_segments(*j)),
{
    j.segments().iter().map(|s| (s.marker(), s.contents().to_vec())).collect()
}

/// Relies on `ImageEXIF::exif` for JPEG: the data of the first EXIF segment, past
/// its prefix.
#[verifier::external_body]
pub(crate) fn jpeg_read_exif(j: &Jpeg) -> (r: Option<Vec<u8>>)
    ensures
        opt_view(r) == jpeg_exif(*j),
{
    j.exif().map(|b| b.to_vec())
}

/// Relies on `ImageICC::icc_profile` for JPEG, which joins the pieces of the ICC
/// segments and panics on an ICC segment too short to hold its sequence number.
#[verifier::external_body]
pub(crate) fn jpeg_read_icc(j: &Jpeg) -> (r: Option<Vec<u8>>)
    requires
        jpeg_icc_readable(*j),
    ensures
        opt_view(r) == jpeg_icc(*j),
{
    j.icc_profile().map(|b| b.to_vec())
}

/// Relies on `ImageEXIF::set_exif` for JPEG: drops every EXIF segment, then puts the
/// new one fourth (which panics on a container left with fewer than three segments).
#[verifier::external_body]
pub(crate) fn jpeg_write_exif(j: &mut Jpeg, exif: Option<Vec<u8>>)
    requires
        plain_segments(jpeg_segments(*old(j))).len() >= 3,
    ensures
        *final(j) == jpeg_with_exif(*old(j), opt_view(exif)),
        jpeg_exif(*final(j)) == opt_view(exif),
        jpeg_icc_readable(*old(j)) ==> jpeg_icc_readable(*final(j)),
        segments_fit(jpeg_segments(*old(j))) && (exif matches Some(v) ==> v@.len() <= JPEG_EXIF_MAX)
            ==> segments_fit(jpeg_segments(*final(j))),
        plain_segments(jpeg_segments(*final(j))) == plain_segments(jpeg_segments(*old(j))),
        jpeg_icc(*final(j)) == jpeg_icc(*old(j)),
{
    j.set_exif(exif.map(|v| v.into()))
}

/// Relies on `ImageICC::set_icc_profile` for JPEG: drops every ICC segment, then cuts
/// the profile into numbered pieces of at most `ICC_PIECE` bytes, one segment each,
/// put from the fourth place on (which panics on a container left with fewer than
/// three segments; the count of pieces is kept in a byte). Telling ICC segments
/// apart reads two bytes past the prefix of each, which panics on one cut short.
#[verifier::external_body]
pub(crate) fn jpeg_write_icc(j: &mut Jpeg, profile: Option<Vec<u8>>)
    requires
        plain_segments(jpeg_segments(*old(j))).len() >= 3,
        jpeg_icc_readable(*old(j)),
        profile matches Some(v) ==> v@.len() < 255 * ICC_PIECE,
    ensures
        *final(j) == jpeg_with_icc(*old(j), opt_view(profile)),
        jpeg_icc(*final(j)) == opt_view(profile),
        segments_fit(jpeg_segments(*old(j))) ==> segments_fit(jpeg_segments(*final(j))),
        jpeg_exif(*final(j)) == jpeg_exif(*old(j)),
        plain_segments(jpeg_segments(*final(j))) == plain_segments(jpeg_segments(*old(j))),
{
    j.set_icc_profile(profile.map(|v| v.into()))
}

/// Relies on the encoder of `Jpeg`: the bytes of the container (writing a segment's
/// length panics where it exceeds a `u16`).
#[verifier::external_body]
pub(crate) fn jpeg_to_bytes(j: Jpeg) -> (r: Vec<u8>)
    requires
        segments_fit(jpeg_segments(j)),
    ensures
        r@ == jpeg_encoded(j),
{
    j.encoder().bytes().to_vec()
}

} // verus!
