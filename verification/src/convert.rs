//! Running a frame through a pixel format conversion.

use crate::media::{pixel_code, same_pixel_format};
use crate::pump::{Extra, FilterEmissions};
use crate::track::FrameStage;
use vstd::prelude::*;

verus! {

/// An error of the core crate, handed on as it is.
#[verifier::external_type_specification]
#[verifier::external_body]
pub struct ExCoreError(oxideav_core::Error);

/// One plane of a picture: its rows, each `stride` bytes after the last.
pub struct Plane {
    pub stride: usize,
    pub data: Vec<u8>,
}

/// A decoded picture.
pub struct VideoFrame {
    pub pts: Option<i64>,
    pub planes: Vec<Plane>,
}

/// The strides and bytes of a list of planes.
pub open spec fn plane_views(planes: Seq<Plane>) -> Seq<(usize, Seq<u8>)> {
    Seq::new(planes.len(), |i: int| (planes[i].stride, planes[i].data@))
}

impl View for VideoFrame {
    type V = (Option<i64>, Seq<(usize, Seq<u8>)>);

    open spec fn view(&self) -> (Option<i64>, Seq<(usize, Seq<u8>)>) {
        (self.pts, plane_views(self.planes@))
    }
}

/// How many planes a pixel format has.
pub uninterp spec fn format_planes(format: u16) -> usize;

/// `oxideav_core::PixelFormat::plane_count`, a function of the format alone.
#[verifier::external_body]
fn core_plane_count(format: oxideav_core::PixelFormat) -> (r: usize)
    ensures
        r == format_planes(pixel_code(format)),
{
    format.plane_count()
}

/// Bytes in one row of one plane of a picture in a pixel format; `None` for a
/// plane that the format does not have, or a number that is too large.
pub uninterp spec fn format_row_bytes(format: u16, plane: usize, width: u32) -> Option<usize>;

/// `oxideav_core::PixelFormat::plane_row_bytes`, a function of its arguments
/// alone.
#[verifier::external_body]
fn core_plane_row_bytes(format: oxideav_core::PixelFormat, plane: usize, width: u32) -> (r: Option<
    usize,
>)
    ensures
        r == format_row_bytes(pixel_code(format), plane, width),
{
    format.plane_row_bytes(plane, width)
}

/// A plane holds so many rows of so many bytes; the last row needs no padding.
pub open spec fn holds_rows(plane: (usize, Seq<u8>), row: int, rows: int) -> bool {
    rows == 0 || plane.0 * (rows - 1) + row <= plane.1.len()
}

/// There is a way from one pixel format to another.
pub uninterp spec fn has_conversion(from: u16, to: u16) -> bool;

/// `oxideav_pixfmt::supports`, a function of the two formats alone.
#[verifier::external_body]
fn pixfmt_supports(from: oxideav_core::PixelFormat, to: oxideav_core::PixelFormat) -> (r: bool)
    ensures
        r == has_conversion(pixel_code(from), pixel_code(to)),
{
    oxideav_pixfmt::supports(from, to)
}

/// A picture that a conversion can be tried on: one that stays as it is, or that
/// there is no way to convert, whatever it holds; else one that can be addressed
/// at sixteen bytes per pixel and, where its format has but one plane, holds every
/// row there.
pub open spec fn can_be_tried(
    planes: Seq<(usize, Seq<u8>)>,
    format: u16,
    width: u32,
    height: u32,
    target: u16,
) -> bool {
    format == target || !has_conversion(format, target) || {
        &&& width * height * 16 <= isize::MAX
        &&& format_planes(format) == 1 ==> planes.len() > 0 && (format_row_bytes(format, 0, width)
            matches Some(row) && holds_rows(planes[0], row as int, height as int))
    }
}

/// Whether a conversion can be tried on a picture.
pub fn can_try_conversion(
    frame: &VideoFrame,
    format: oxideav_core::PixelFormat,
    width: u32,
    height: u32,
    target: oxideav_core::PixelFormat,
) -> (r: bool)
    ensures
        r == can_be_tried(frame@.1, pixel_code(format), width, height, pixel_code(target)),
{
    if same_pixel_format(format, target) || !pixfmt_supports(format, target) {
        return true;
    }
    assert(0 <= width * height <= 0xffff_ffff * 0xffff_ffff) by (nonlinear_arith)
        requires
            0 <= width <= 0xffff_ffff,
            0 <= height <= 0xffff_ffff,
    ;
    let pixels: u128 = width as u128 * height as u128;
    if pixels * 16 > isize::MAX as u128 {
        return false;
    }
    if core_plane_count(format) != 1 {
        return true;
    }
    if frame.planes.len() == 0 {
        return false;
    }
    match core_plane_row_bytes(format, 0, width) {
        Some(row) => {
            if height == 0 {
                return true;
            }
            let plane = &frame.planes[0];
            let stride: u128 = plane.stride as u128;
            let skips: u128 = (height - 1) as u128;
            assert(stride * skips <= 0xffff_ffff_ffff_ffff * 0xffff_ffff) by (nonlinear_arith)
                requires
                    0 <= stride <= 0xffff_ffff_ffff_ffff,
                    0 <= skips <= 0xffff_ffff,
            ;
            stride * skips + row as u128 <= plane.data.len() as u128
        },
        None => false,
    }
}

/// Strides and lengths of a list of planes.
pub open spec fn plane_shapes(planes: Seq<(usize, Seq<u8>)>) -> Seq<(usize, int)> {
    Seq::new(planes.len(), |i: int| (planes[i].0, planes[i].1.len() as int))
}

/// What a picture can be in another pixel format: the layout of its planes, by
/// stride and length, `None` where there is no way to convert it; and all the
/// planes that one processor or another may make of it.
pub uninterp spec fn conversions(
    planes: Seq<(usize, Seq<u8>)>,
    format: u16,
    width: u32,
    height: u32,
    target: u16,
) -> (Option<Seq<(usize, int)>>, Set<Seq<(usize, Seq<u8>)>>);

/// The shape of the picture that a conversion gave, if it gave one.
pub open spec fn shape_of(r: Result<VideoFrame, oxideav_core::Error>) -> Option<Seq<(usize, int)>> {
    match r {
        Ok(f) => Some(plane_shapes(f@.1)),
        Err(_) => None,
    }
}

/// The planes that a conversion gave, if it gave any, are among these.
pub open spec fn is_among(
    r: Result<VideoFrame, oxideav_core::Error>,
    all: Set<Seq<(usize, Seq<u8>)>>,
) -> bool {
    r matches Ok(f) ==> all.contains(f@.1)
}

/// The picture that a conversion gave, if it gave one, has this timestamp.
pub open spec fn keeps_stamp(r: Result<VideoFrame, oxideav_core::Error>, pts: Option<i64>) -> bool {
    r matches Ok(f) ==> f.pts == pts
}

/// A conversion gave this very picture.
pub open spec fn is_picture(
    r: Result<VideoFrame, oxideav_core::Error>,
    picture: (Option<i64>, Seq<(usize, Seq<u8>)>),
) -> bool {
    r matches Ok(f) && f@ == picture
}

/// `oxideav_pixfmt::convert` with default options: a picture in the target format
/// with the timestamp that it had, or an error. Which of the two, the layout of
/// the planes, and which samples they may hold, its arguments decide; to the
/// format that it already has, a picture is returned as it is. Which of those
/// samples they do hold is left unsaid: they may differ in the last bit between
/// one processor and another. Left out are pictures whose buffers cannot be
/// addressed, and pictures in a format of one plane whose plane is missing or too
/// short, which is indexed unchecked by many of the conversions; anything else
/// that is wrong with a picture comes back as an error.
#[verifier::external_body]
fn pixfmt_convert(
    frame: &VideoFrame,
    format: oxideav_core::PixelFormat,
    width: u32,
    height: u32,
    target: oxideav_core::PixelFormat,
) -> (r: Result<VideoFrame, oxideav_core::Error>)
    requires
        can_be_tried(frame@.1, pixel_code(format), width, height, pixel_code(target)),
    ensures
        shape_of(r) == conversions(
            frame@.1,
            pixel_code(format),
            width,
            height,
            pixel_code(target),
        ).0,
        is_among(
            r,
            conversions(frame@.1, pixel_code(format), width, height, pixel_code(target)).1,
        ),
        keeps_stamp(r, frame.pts),
        pixel_code(format) == pixel_code(target) ==> is_picture(r, frame@),
{
    let mut src = oxideav_core::VideoFrame { pts: frame.pts, planes: Vec::new() };
    for p in &frame.planes {
        src.planes.push(oxideav_core::VideoPlane { stride: p.stride, data: p.data.clone() });
    }
    let info = oxideav_pixfmt::FrameInfo::new(format, width, height);
    let options = oxideav_pixfmt::ConvertOptions::default();
    let out = oxideav_pixfmt::convert(&src, info, target, &options)?;
    let mut planes: Vec<Plane> = Vec::new();
    for p in out.planes {
        planes.push(Plane { stride: p.stride, data: p.data });
    }
    Ok(VideoFrame { pts: out.pts, planes })
}

/// A frame of any kind; what is no picture is carried unread.
pub enum MediaFrame<O> {
    Video(VideoFrame),
    Other(O),
}

/// What became of a frame at a stage.
pub enum StageOutcome<O> {
    /// The stage is a filter, which runs outside.
    Filter(MediaFrame<O>),
    Emitted(FilterEmissions<MediaFrame<O>>),
    /// The one plane of the picture's format does not hold what its description
    /// says, or there is no addressing it.
    Malformed(VideoFrame),
    Failed(oxideav_core::Error),
}

/// One frame as everything that a stage made.
pub open spec fn is_single<O>(out: FilterEmissions<MediaFrame<O>>, frame: MediaFrame<O>) -> bool {
    out.primary@ == seq![frame] && out.extras@.len() == 0
}

fn single<O>(frame: MediaFrame<O>) -> (r: FilterEmissions<MediaFrame<O>>)
    ensures
        is_single(r, frame),
{
    let mut primary: Vec<MediaFrame<O>> = Vec::new();
    primary.push(frame);
    assert(primary@ =~= seq![frame]);
    let extras: Vec<Extra<MediaFrame<O>>> = Vec::new();
    FilterEmissions { primary, extras }
}

/// What a conversion makes of a picture, given what the conversion came to.
pub fn picture_outcome<O>(result: Result<VideoFrame, oxideav_core::Error>) -> (r: StageOutcome<O>)
    ensures
        match result {
            Ok(out) => r matches StageOutcome::Emitted(e) && is_single(e, MediaFrame::Video(out)),
            Err(e) => r == StageOutcome::<O>::Failed(e),
        },
{
    match result {
        Ok(out) => StageOutcome::Emitted(single(MediaFrame::Video(out))),
        Err(e) => StageOutcome::Failed(e),
    }
}

/// Runs a frame through a stage as far as that can be done here: a conversion
/// converts pictures and lets everything else pass.
pub fn run_frame_stage_emit<O>(stage: &FrameStage, frame: MediaFrame<O>) -> (r: StageOutcome<O>)
    ensures
        match (*stage, frame) {
            (FrameStage::Filter, f) => r == StageOutcome::Filter(f),
            (FrameStage::PixConvert { .. }, MediaFrame::Other(_)) => r matches
                StageOutcome::Emitted(out) && is_single(out, frame),
            (
                FrameStage::PixConvert { from, width, height, target },
                MediaFrame::Video(v),
            ) => if !can_be_tried(v@.1, pixel_code(from), width, height, pixel_code(target)) {
                r == StageOutcome::<O>::Malformed(v)
            } else {
                let all = conversions(
                    v@.1,
                    pixel_code(from),
                    width,
                    height,
                    pixel_code(target),
                );
                match all.0 {
                    Some(shape) => r matches StageOutcome::Emitted(out) && out.extras@.len() == 0
                        && out.primary@.len() == 1 && (out.primary@[0] matches MediaFrame::Video(
                        w,
                    ) && w.pts == v.pts && plane_shapes(w@.1) == shape && all.1.contains(w@.1) && (
                    pixel_code(from) == pixel_code(target) ==> w@ == v@)),
                    None => r is Failed && pixel_code(from) != pixel_code(target),
                }
            },
        },
{
    match stage {
        FrameStage::Filter => StageOutcome::Filter(frame),
        FrameStage::PixConvert { from, width, height, target } => match frame {
            MediaFrame::Video(v) => {
                if !can_try_conversion(&v, *from, *width, *height, *target) {
                    return StageOutcome::Malformed(v);
                }
                picture_outcome(pixfmt_convert(&v, *from, *width, *height, *target))
            },
            MediaFrame::Other(o) => StageOutcome::Emitted(single(MediaFrame::Other(o))),
        },
    }
}

/// What a stage still holds at the end of a stream: nothing, for a conversion;
/// `None` for a filter, which is asked outside.
pub fn flush_frame_stage_emit<O>(stage: &FrameStage) -> (r: Option<
    FilterEmissions<MediaFrame<O>>,
>)
    ensures
        match stage {
            FrameStage::Filter => r is None,
            FrameStage::PixConvert { .. } => r matches Some(out) && out.primary@.len() == 0
                && out.extras@.len() == 0,
        },
{
    match stage {
        FrameStage::Filter => None,
        FrameStage::PixConvert { .. } => Some(
            FilterEmissions { primary: Vec::new(), extras: Vec::new() },
        ),
    }
}

/// A conversion is tried on a picture that needs none, and on one that there is no way to
/// convert. On any other it is tried only where the picture can be addressed, and where
/// every row of a picture of one plane lies within that plane; a picture of several planes
/// is left to the conversion itself.
pub proof fn rows_lie_within_their_plane(
    planes: Seq<(usize, Seq<u8>)>,
    format: u16,
    width: u32,
    height: u32,
    target: u16,
    y: int,
)
    requires
        0 <= y < height,
    ensures
        ({
            let tried = can_be_tried(planes, format, width, height, target);
            let row = format_row_bytes(format, 0, width);
            let converts = format != target && has_conversion(format, target);
            &&& !converts ==> tried
            &&& converts && width * height * 16 > isize::MAX ==> !tried
            &&& converts && format_planes(format) == 1 && tried ==> {
                &&& planes.len() > 0
                &&& row is Some
                &&& planes[0].0 * y + row->0 <= planes[0].1.len()
            }
            &&& converts && format_planes(format) == 1 && planes.len() > 0 && row is Some
                && planes[0].0 * (height - 1) + row->0 > planes[0].1.len() ==> !tried
            &&& converts && format_planes(format) != 1 && width * height * 16 <= isize::MAX ==> tried
        }),
{
    if planes.len() > 0 {
        let stride = planes[0].0 as int;
        assert(stride * y <= stride * (height - 1)) by (nonlinear_arith)
            requires
                stride >= 0,
                y <= height - 1,
        ;
    }
}

} // verus!
