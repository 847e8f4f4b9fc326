use img_parts::jpeg::Jpeg;
use img_parts::png::Png;
use vstd::prelude::*;

use crate::container::{
    chunks_fit, headers, icc_segments_ok, jpeg_with_exif, jpeg_with_icc, png_with_exif,
    png_with_icc, segments_fit, JPEG_EXIF_MAX, JPEG_SEGMENT_MAX, PNG_CHUNK_MAX, PNG_ICC_MAX,
    chunk_views, icc_chunk_ok, nul_before_last, exif_kind, exif_prefix, first_chunk, icc_prefix, iccp_kind, is_icc_segment, jpeg_decoded,
    jpeg_encoded, jpeg_exif, jpeg_from_bytes, jpeg_icc, jpeg_icc_readable, jpeg_read_exif,
    jpeg_read_icc, jpeg_segment_list, jpeg_segments, jpeg_to_bytes, jpeg_write_exif,
    jpeg_write_icc, plain_chunks, plain_segments, png_chunk_list, png_chunks, png_decoded,
    png_encoded, png_exif, png_from_bytes, png_icc, png_icc_readable, png_read_exif, png_read_icc,
    png_to_bytes, png_write_exif, png_write_icc, segment_views, APP1, APP2, ICC_PIECE,
};
use crate::error::ProcessError;
use crate::rules::{chars_of, extension, extension_bounds, lower_of, lowercase};

verus! {

/// Container formats whose metadata is carried over.
#[derive(Debug, Clone, Copy, PartialEq, Eq)]
pub enum MetadataFormat {
    Png,
    Jpeg,
}

/// The container format named by a lower-cased extension, if it is one whose
/// metadata is carried over.
pub open spec fn metadata_format(lowered: Seq<char>) -> Option<MetadataFormat> {
    if lowered == seq!['p', 'n', 'g'] {
        Some(MetadataFormat::Png)
    } else if lowered == seq!['j', 'p', 'g'] || lowered == seq!['j', 'p', 'e', 'g'] {
        Some(MetadataFormat::Jpeg)
    } else {
        None
    }
}

/// The container format of the file at `path`, judged by its extension in any case.
pub open spec fn path_format(path: Seq<char>) -> Option<MetadataFormat> {
    match extension(path) {
        Some(e) => metadata_format(lower_of(e)),
        None => None,
    }
}

/// `c` holds the EXIF data and ICC profile of `o`, and the other chunks of `t`.
pub open spec fn png_transplanted(o: Png, t: Png, c: Png) -> bool {
    &&& png_exif(c) == png_exif(o)
    &&& png_icc(c) == png_icc(o)
    &&& plain_chunks(png_chunks(c)) == plain_chunks(png_chunks(t))
}

/// `c` holds the EXIF data and ICC profile of `o`, and the other segments of `t`.
pub open spec fn jpeg_transplanted(o: Jpeg, t: Jpeg, c: Jpeg) -> bool {
    &&& jpeg_exif(c) == jpeg_exif(o)
    &&& jpeg_icc(c) == jpeg_icc(o)
    &&& plain_segments(jpeg_segments(c)) == plain_segments(jpeg_segments(t))
}

/// `t` with the EXIF data and then the ICC profile of `o` set into it.
pub open spec fn png_transplant_of(o: Png, t: Png) -> Png {
    png_with_icc(png_with_exif(t, png_exif(o)), png_icc(o))
}

/// `t` with the EXIF data and then the ICC profile of `o` set into it.
pub open spec fn jpeg_transplant_of(o: Jpeg, t: Jpeg) -> Jpeg {
    jpeg_with_icc(jpeg_with_exif(t, jpeg_exif(o)), jpeg_icc(o))
}

/// The metadata of PNG `o` can be carried into PNG `t`, and the result encoded.
pub open spec fn png_transplantable(o: Png, t: Png) -> bool {
    &&& png_icc_readable(o)
    &&& plain_chunks(png_chunks(t)).len() > 0
    &&& chunks_fit(png_chunks(t))
    &&& (png_exif(o) matches Some(e) ==> e.len() <= PNG_CHUNK_MAX)
    &&& (png_icc(o) matches Some(p) ==> p.len() <= PNG_ICC_MAX)
}

/// The metadata of JPEG `o` can be carried into JPEG `t`, and the result encoded.
pub open spec fn jpeg_transplantable(o: Jpeg, t: Jpeg) -> bool {
    &&& jpeg_icc_readable(o)
    &&& jpeg_icc_readable(t)
    &&& plain_segments(jpeg_segments(t)).len() >= 3
    &&& segments_fit(jpeg_segments(t))
    &&& (jpeg_exif(o) matches Some(e) ==> e.len() <= JPEG_EXIF_MAX)
    &&& (jpeg_icc(o) matches Some(p) ==> p.len() < 255 * ICC_PIECE)
}

/// Both byte strings are PNG containers, and the metadata of the first can be
/// carried into the second.
pub open spec fn png_recopiable(original: Seq<u8>, output: Seq<u8>) -> bool {
    &&& png_decoded(original) is Some
    &&& png_decoded(output) is Some
    &&& png_transplantable(png_decoded(original)->0, png_decoded(output)->0)
}

/// Both byte strings are JPEG containers, and the metadata of the first can be
/// carried into the second.
pub open spec fn jpeg_recopiable(original: Seq<u8>, output: Seq<u8>) -> bool {
    &&& jpeg_decoded(original) is Some
    &&& jpeg_decoded(output) is Some
    &&& jpeg_transplantable(jpeg_decoded(original)->0, jpeg_decoded(output)->0)
}

/// The format whose metadata is carried over for a lower-cased extension.
pub fn format_for_extension(lowered_ext: &str) -> (r: Option<MetadataFormat>)
    ensures
        r == metadata_format(lowered_ext@),
{
    let e = chars_of(lowered_ext);
    if e.len() == 3 && e[0] == 'p' && e[1] == 'n' && e[2] == 'g' {
        assert(e@ =~= seq!['p', 'n', 'g']);
        return Some(MetadataFormat::Png);
    }
    if e.len() == 3 && e[0] == 'j' && e[1] == 'p' && e[2] == 'g' {
        assert(e@ =~= seq!['j', 'p', 'g']);
        return Some(MetadataFormat::Jpeg);
    }
    if e.len() == 4 && e[0] == 'j' && e[1] == 'p' && e[2] == 'e' && e[3] == 'g' {
        assert(e@ =~= seq!['j', 'p', 'e', 'g']);
        return Some(MetadataFormat::Jpeg);
    }
    proof {
        if e@ == seq!['p', 'n', 'g'] {
            assert(e@[0] == 'p' && e@[1] == 'n' && e@[2] == 'g');
        }
        if e@ == seq!['j', 'p', 'g'] {
            assert(e@[0] == 'j' && e@[1] == 'p' && e@[2] == 'g');
        }
        if e@ == seq!['j', 'p', 'e', 'g'] {
            assert(e@[0] == 'j' && e@[1] == 'p' && e@[2] == 'e' && e@[3] == 'g');
        }
    }
    None
}

/// The container format of the file at `path`, judged by its extension in any case.
pub fn format_of_path(path: &str) -> (r: Option<MetadataFormat>)
    ensures
        r == path_format(path@),
{
    let p = chars_of(path);
    match extension_bounds(&p) {
        None => None,
        Some((a, b)) => {
            let lowered = lowercase(path.substring_char(a, b));
            format_for_extension(lowered.as_str())
        },
    }
}

fn is_exif_kind(k: &Vec<u8>) -> (r: bool)
    ensures
        r == (k@ == exif_kind()),
{
    if k.len() == 4 && k[0] == 101 && k[1] == 88 && k[2] == 73 && k[3] == 102 {
        assert(k@ =~= exif_kind());
        true
    } else {
        proof {
            if k@ == exif_kind() {
                assert(k@[0] == 101 && k@[1] == 88 && k@[2] == 73 && k@[3] == 102);
            }
        }
        false
    }
}

fn is_iccp_kind(k: &Vec<u8>) -> (r: bool)
    ensures
        r == (k@ == iccp_kind()),
{
    if k.len() == 4 && k[0] == 105 && k[1] == 67 && k[2] == 67 && k[3] == 80 {
        assert(k@ =~= iccp_kind());
        true
    } else {
        proof {
            if k@ == iccp_kind() {
                assert(k@[0] == 105 && k@[1] == 67 && k@[2] == 67 && k@[3] == 80);
            }
        }
        false
    }
}

/// Number of the chunks that hold neither EXIF data nor an ICC profile.
fn count_plain_chunks(cs: &Vec<(Vec<u8>, Vec<u8>)>) -> (r: usize)
    ensures
        r == plain_chunks(chunk_views(cs@)).len(),
{
    let ghost v = chunk_views(cs@);
    let mut n: usize = 0;
    let mut i: usize = 0;
    while i < cs.len()
        invariant
            v == chunk_views(cs@),
            i <= cs@.len(),
            n == plain_chunks(v.take(i as int)).len(),
            n <= i,
        decreases cs@.len() - i,
    {
        assert(v.take(i + 1).drop_last() =~= v.take(i as int));
        assert(v.take(i + 1).last() == v[i as int]);
        if !is_exif_kind(&cs[i].0) && !is_iccp_kind(&cs[i].0) {
            n = n + 1;
        }
        i = i + 1;
    }
    assert(v.take(i as int) =~= v);
    n
}

/// Whether the first `iCCP` chunk, if any, holds a NUL byte followed by another byte.
fn icc_chunk_readable(cs: &Vec<(Vec<u8>, Vec<u8>)>) -> (r: bool)
    ensures
        r == icc_chunk_ok(chunk_views(cs@)),
{
    let ghost v = chunk_views(cs@);
    let mut i: usize = 0;
    while i < cs.len()
        invariant
            v == chunk_views(cs@),
            i <= cs@.len(),
            first_chunk(v, iccp_kind(), 0) == first_chunk(v, iccp_kind(), i as nat),
        decreases cs@.len() - i,
    {
        if is_iccp_kind(&cs[i].0) {
            let c = &cs[i].1;
            assert(v[i as int].1 == c@);
            let mut k: usize = 0;
            while k < c.len() && k + 1 < c.len()
                invariant
                    v == chunk_views(cs@),
                    i < cs@.len(),
                    v[i as int].1 == c@,
                    v[i as int].0 == iccp_kind(),
                    first_chunk(v, iccp_kind(), 0) == first_chunk(v, iccp_kind(), i as nat),
                    k <= c@.len(),
                    forall|j: int| 0 <= j < k ==> c@[j] != 0,
                decreases c@.len() - k,
            {
                if c[k] == 0 {
                    assert(first_chunk(v, iccp_kind(), i as nat) == Some(c@));
                    assert(c@[k as int] == 0);
                    assert(nul_before_last(c@));
                    return true;
                }
                k = k + 1;
            }
            assert forall|j: int| 0 <= j && j + 1 < c@.len() implies c@[j] != 0 by {
                assert(j < k);
            }
            assert(first_chunk(v, iccp_kind(), i as nat) == Some(c@));
            return false;
        }
        i = i + 1;
    }
    true
}

/// Number of the segments that hold neither EXIF data nor a piece of an ICC profile.
fn count_plain_segments(ss: &Vec<(u8, Vec<u8>)>, Ghost(v): Ghost<Seq<(u8, Seq<u8>, Seq<u8>)>>) -> (r: usize)
    requires
        segment_views(ss@) == headers(v),
    ensures
        r == plain_segments(v).len(),
{
    assert(headers(v).len() == v.len());
    assert(segment_views(ss@).len() == ss@.len());
    let mut n: usize = 0;
    let mut i: usize = 0;
    while i < ss.len()
        invariant
            segment_views(ss@) == headers(v),
            v.len() == ss@.len(),
            i <= ss@.len(),
            n == plain_segments(v.take(i as int)).len(),
            n <= i,
        decreases ss@.len() - i,
    {
        assert(v.take(i + 1).drop_last() =~= v.take(i as int));
        assert(v.take(i + 1).last() == v[i as int]);
        let s = &ss[i];
        assert(headers(v)[i as int] == (s.0, s.1@));
        assert(headers(v)[i as int] == (v[i as int].0, v[i as int].1));
        if !(s.0 == APP1 && has_prefix(&s.1, 1)) && !(s.0 == APP2 && has_prefix(&s.1, 2)) {
            n = n + 1;
        }
        i = i + 1;
    }
    assert(v.take(i as int) =~= v);
    n
}

/// The leading bytes that `which` selects: 1 for EXIF, otherwise ICC.
spec fn prefix_of(which: u8) -> Seq<u8> {
    if which == 1 {
        exif_prefix()
    } else {
        icc_prefix()
    }
}

/// Whether `v` starts with the EXIF prefix (`which == 1`) or the ICC prefix.
fn has_prefix(v: &Vec<u8>, which: u8) -> (r: bool)
    ensures
        r == prefix_of(which).is_prefix_of(v@),
{
    let pre: Vec<u8> = if which == 1 {
        vec![69u8, 120u8, 105u8, 102u8, 0u8, 0u8]
    } else {
        vec![73u8, 67u8, 67u8, 95u8, 80u8, 82u8, 79u8, 70u8, 73u8, 76u8, 69u8, 0u8]
    };
    assert(pre@ =~= prefix_of(which));
    if pre.len() > v.len() {
        return false;
    }
    let mut i: usize = 0;
    while i < pre.len()
        invariant
            pre@ == prefix_of(which),
            pre@.len() <= v@.len(),
            i <= pre@.len(),
            forall|j: int| 0 <= j < i ==> pre@[j] == v@[j],
        decreases pre@.len() - i,
    {
        if pre[i] != v[i] {
            assert(v@.subrange(0, pre@.len() as int)[i as int] == v@[i as int]);
            return false;
        }
        i = i + 1;
    }
    assert(v@.subrange(0, pre@.len() as int) =~= pre@);
    true
}

/// Whether every ICC segment holds its sequence number and count.
fn icc_segments_readable(ss: &Vec<(u8, Vec<u8>)>, Ghost(v): Ghost<Seq<(u8, Seq<u8>, Seq<u8>)>>) -> (r: bool)
    requires
        segment_views(ss@) == headers(v),
    ensures
        r == icc_segments_ok(v),
{
    assert(headers(v).len() == v.len());
    assert(segment_views(ss@).len() == ss@.len());
    let mut i: usize = 0;
    while i < ss.len()
        invariant
            segment_views(ss@) == headers(v),
            v.len() == ss@.len(),
            i <= ss@.len(),
            forall|j: int| 0 <= j < i && is_icc_segment(#[trigger] v[j]) ==> v[j].1.len() >= icc_prefix().len() + 2,
        decreases ss@.len() - i,
    {
        let s = &ss[i];
        assert(headers(v)[i as int] == (s.0, s.1@));
        assert(headers(v)[i as int] == (v[i as int].0, v[i as int].1));
        if s.0 == APP2 && has_prefix(&s.1, 2) && s.1.len() < 14 {
            assert(is_icc_segment(v[i as int]));
            return false;
        }
        i = i + 1;
    }
    true
}

/// Whether every chunk is small enough for its length to be encoded.
fn chunks_all_fit(cs: &Vec<(Vec<u8>, Vec<u8>)>) -> (r: bool)
    ensures
        r == chunks_fit(chunk_views(cs@)),
{
    let ghost v = chunk_views(cs@);
    let mut i: usize = 0;
    while i < cs.len()
        invariant
            v == chunk_views(cs@),
            i <= cs@.len(),
            forall|j: int| 0 <= j < i ==> (#[trigger] v[j]).1.len() <= PNG_CHUNK_MAX,
        decreases cs@.len() - i,
    {
        assert(v[i as int].1 == cs@[i as int].1@);
        if cs[i].1.len() as u64 > PNG_CHUNK_MAX {
            return false;
        }
        i = i + 1;
    }
    true
}

/// Whether every segment is small enough for its length to be encoded.
fn segments_all_fit(ss: &Vec<(u8, Vec<u8>)>, Ghost(v): Ghost<Seq<(u8, Seq<u8>, Seq<u8>)>>) -> (r: bool)
    requires
        segment_views(ss@) == headers(v),
    ensures
        r == segments_fit(v),
{
    assert(headers(v).len() == v.len());
    assert(segment_views(ss@).len() == ss@.len());
    let mut i: usize = 0;
    while i < ss.len()
        invariant
            segment_views(ss@) == headers(v),
            v.len() == ss@.len(),
            i <= ss@.len(),
            forall|j: int| 0 <= j < i ==> (#[trigger] v[j]).1.len() <= JPEG_SEGMENT_MAX,
        decreases ss@.len() - i,
    {
        assert(headers(v)[i as int] == (ss@[i as int].0, ss@[i as int].1@));
        assert(headers(v)[i as int] == (v[i as int].0, v[i as int].1));
        if ss[i].1.len() > JPEG_SEGMENT_MAX {
            return false;
        }
        i = i + 1;
    }
    true
}

/// Carries the EXIF data and ICC profile of `original` into `output`. Fails where
/// the ICC chunk of `original` is cut short, `output` has no chunk besides metadata,
/// or a chunk would be too long to encode.
pub fn transplant_png(original: &Png, output: Png) -> (r: Result<Png, ProcessError>)
    ensures
        r is Ok <==> png_transplantable(*original, output),
        r matches Ok(c) ==> c == png_transplant_of(*original, output) && png_transplanted(
            *original,
            output,
            c,
        ) && chunks_fit(png_chunks(c)),
        r matches Err(e) ==> e is MetadataError,
{
    let oc = png_chunk_list(original);
    if !icc_chunk_readable(&oc) {
        return Err(ProcessError::MetadataError(String::from_str("unreadable ICC chunk")));
    }
    let tc = png_chunk_list(&output);
    if count_plain_chunks(&tc) == 0 {
        return Err(ProcessError::MetadataError(String::from_str("PNG without image chunks")));
    }
    if !chunks_all_fit(&tc) {
        return Err(ProcessError::MetadataError(String::from_str("PNG chunk too long")));
    }
    let exif = png_read_exif(original);
    let icc = png_read_icc(original);
    if let Some(e) = &exif {
        if e.len() as u64 > PNG_CHUNK_MAX {
            return Err(ProcessError::MetadataError(String::from_str("EXIF data too long")));
        }
    }
    if let Some(p) = &icc {
        if p.len() as u64 > PNG_ICC_MAX {
            return Err(ProcessError::MetadataError(String::from_str("ICC profile too long")));
        }
    }
    let mut c = output;
    png_write_exif(&mut c, exif);
    png_write_icc(&mut c, icc);
    Ok(c)
}

/// Carries the EXIF data and ICC profile of `original` into `output`. Fails where an
/// ICC segment of either is cut short, `output` has fewer than three segments besides
/// metadata, or the metadata or a segment would be too long to encode.
pub fn transplant_jpeg(original: &Jpeg, output: Jpeg) -> (r: Result<Jpeg, ProcessError>)
    ensures
        r is Ok <==> jpeg_transplantable(*original, output),
        r matches Ok(c) ==> c == jpeg_transplant_of(*original, output) && jpeg_transplanted(
            *original,
            output,
            c,
        ) && segments_fit(jpeg_segments(c)),
        r matches Err(e) ==> e is MetadataError,
{
    let os = jpeg_segment_list(original);
    if !icc_segments_readable(&os, Ghost(jpeg_segments(*original))) {
        return Err(ProcessError::MetadataError(String::from_str("unreadable ICC segment")));
    }
    let ts = jpeg_segment_list(&output);
    if !icc_segments_readable(&ts, Ghost(jpeg_segments(output))) {
        return Err(ProcessError::MetadataError(String::from_str("unreadable ICC segment in output")));
    }
    if count_plain_segments(&ts, Ghost(jpeg_segments(output))) < 3 {
        return Err(ProcessError::MetadataError(String::from_str("JPEG without image segments")));
    }
    if !segments_all_fit(&ts, Ghost(jpeg_segments(output))) {
        return Err(ProcessError::MetadataError(String::from_str("JPEG segment too long")));
    }
    let exif = jpeg_read_exif(original);
    let icc = jpeg_read_icc(original);
    if let Some(e) = &exif {
        if e.len() > JPEG_EXIF_MAX {
            return Err(ProcessError::MetadataError(String::from_str("EXIF data too long")));
        }
    }
    if let Some(p) = &icc {
        if p.len() >= 255 * ICC_PIECE {
            return Err(ProcessError::MetadataError(String::from_str("ICC profile too long")));
        }
    }
    let mut c = output;
    jpeg_write_exif(&mut c, exif);
    jpeg_write_icc(&mut c, icc);
    Ok(c)
}

/// Carries the EXIF data and ICC profile of the image file at `path`, whose bytes are
/// `original`, into `output`, the bytes of its watermarked copy. Returns the new
/// bytes of the copy, or `None` when the extension of `path` names no format whose
/// metadata is carried over (PNG and JPEG).
pub fn recopy_metadata(path: &str, original: &Vec<u8>, output: &Vec<u8>) -> (r: Result<
    Option<Vec<u8>>,
    ProcessError,
>)
    ensures
        r matches Err(e) ==> e is MetadataError,
        path_format(path@) is None ==> r == Ok::<Option<Vec<u8>>, ProcessError>(None),
        path_format(path@) == Some(MetadataFormat::Png) ==> {
            &&& r is Ok <==> png_recopiable(original@, output@)
            &&& r matches Ok(v) ==> v matches Some(b) && {
                let c = png_transplant_of(png_decoded(original@)->0, png_decoded(output@)->0);
                &&& b@ == png_encoded(c)
                &&& png_transplanted(png_decoded(original@)->0, png_decoded(output@)->0, c)
            }
        },
        path_format(path@) == Some(MetadataFormat::Jpeg) ==> {
            &&& r is Ok <==> jpeg_recopiable(original@, output@)
            &&& r matches Ok(v) ==> v matches Some(b) && {
                let c = jpeg_transplant_of(jpeg_decoded(original@)->0, jpeg_decoded(output@)->0);
                &&& b@ == jpeg_encoded(c)
                &&& jpeg_transplanted(jpeg_decoded(original@)->0, jpeg_decoded(output@)->0, c)
            }
        },
{
    match format_of_path(path) {
        None => Ok(None),
        Some(MetadataFormat::Png) => {
            let o = match png_from_bytes(original) {
                Ok(o) => o,
                Err(_) => {
                    return Err(ProcessError::MetadataError(String::from_str("original is not a PNG")));
                },
            };
            let t = match png_from_bytes(output) {
                Ok(t) => t,
                Err(_) => {
                    return Err(ProcessError::MetadataError(String::from_str("output is not a PNG")));
                },
            };
            let c = transplant_png(&o, t)?;
            Ok(Some(png_to_bytes(c)))
        },
        Some(MetadataFormat::Jpeg) => {
            let o = match jpeg_from_bytes(original) {
                Ok(o) => o,
                Err(_) => {
                    return Err(ProcessError::MetadataError(String::from_str("original is not a JPEG")));
                },
            };
            let t = match jpeg_from_bytes(output) {
                Ok(t) => t,
                Err(_) => {
                    return Err(ProcessError::MetadataError(String::from_str("output is not a JPEG")));
                },
            };
            let c = transplant_jpeg(&o, t)?;
            Ok(Some(jpeg_to_bytes(c)))
        },
    }
}

/// After a transplant between PNG containers, the copy holds the EXIF data of the
/// original unchanged, and whatever else the copy held besides metadata.
pub proof fn lemma_png_exif_carried(original: Png, output: Png, copy: Png)
    requires
        png_transplanted(original, output, copy),
    ensures
        png_exif(copy) == png_exif(original),
        plain_chunks(png_chunks(copy)) == plain_chunks(png_chunks(output)),
{
}

/// After a transplant between JPEG containers, the copy holds the EXIF data of the
/// original unchanged, and whatever else the copy held besides metadata.
pub proof fn lemma_jpeg_exif_carried(original: Jpeg, output: Jpeg, copy: Jpeg)
    requires
        jpeg_transplanted(original, output, copy),
    ensures
        jpeg_exif(copy) == jpeg_exif(original),
        plain_segments(jpeg_segments(copy)) == plain_segments(jpeg_segments(output)),
{
}

} // verus!
