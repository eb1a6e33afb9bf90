//! Options of the video recorder and its argument checks.

use vstd::prelude::*;
use crate::error::MoonWalkError;

verus! {

/// Container and codec of a recorded video.
#[derive(Debug, Clone, Copy, PartialEq, Eq, Hash, Structural)]
pub enum VideoFormat {
    /// H.264 in MP4, the most compatible.
    Mp4,
    /// H.264 in QuickTime.
    Mov,
    /// H.264 in Matroska.
    Mkv,
    /// Animated GIF.
    Gif,
    /// Uncompressed video.
    Raw,
}

/// Encoder preset of a recorded video.
#[derive(Debug, Clone, Copy, PartialEq, Eq, Hash, Structural)]
pub enum VideoPreset {
    Balanced,
    HighQuality,
    LowLatency,
}

impl Default for VideoFormat {
    fn default() -> (r: VideoFormat)
        ensures
            r == VideoFormat::Mp4,
    {
        VideoFormat::Mp4
    }
}

impl Default for VideoPreset {
    fn default() -> (r: VideoPreset)
        ensures
            r == VideoPreset::Balanced,
    {
        VideoPreset::Balanced
    }
}

/// Checks the dimensions of a video to be recorded: the encoder needs both to
/// be even.
pub fn check_video_dimensions(width: u32, height: u32) -> (r: Result<(), MoonWalkError>)
    ensures
        r is Ok <==> (width % 2 == 0 && height % 2 == 0),
        r matches Err(e) ==> (e matches MoonWalkError::IOError(m) && m@ == "Video dimensions must be even numbers"@),
{
    if width % 2 != 0 || height % 2 != 0 {
        return Err(MoonWalkError::IOError(String::from_str("Video dimensions must be even numbers")));
    }
    Ok(())
}

/// The formats the encoder backend can write.
pub open spec fn format_supported(format: VideoFormat) -> bool {
    format == VideoFormat::Mp4 || format == VideoFormat::Mov || format == VideoFormat::Mkv
}

/// Checks that the encoder can write the format: MP4, QuickTime and
/// Matroska can be written, GIF and raw video cannot.
pub fn check_video_format(format: VideoFormat) -> (r: Result<(), MoonWalkError>)
    ensures
        r is Ok <==> format_supported(format),
        r matches Err(e) ==> (e matches MoonWalkError::IOError(m) && m@
            == "GIF/RAW formats are currently not supported by video-rs 0.10 backend"@),
{
    match format {
        VideoFormat::Mp4 | VideoFormat::Mov | VideoFormat::Mkv => Ok(()),
        _ => Err(
            MoonWalkError::IOError(
                String::from_str("GIF/RAW formats are currently not supported by video-rs 0.10 backend"),
            ),
        ),
    }
}

/// Checks a request for a video recorder: the dimensions first, then the
/// format.
pub fn check_recorder_request(width: u32, height: u32, format: VideoFormat) -> (r: Result<(), MoonWalkError>)
    ensures
        r is Ok <==> (width % 2 == 0 && height % 2 == 0 && format_supported(format)),
        r matches Err(e) ==> (e matches MoonWalkError::IOError(m) && if width % 2 == 0 && height % 2 == 0 {
            m@ == "GIF/RAW formats are currently not supported by video-rs 0.10 backend"@
        } else {
            m@ == "Video dimensions must be even numbers"@
        }),
{
    match check_video_dimensions(width, height) {
        Err(e) => Err(e),
        Ok(()) => check_video_format(format),
    }
}

/// The frame bookkeeping of a recording: its size and the number of frames
/// sent to the encoder so far.
pub struct VideoFrames {
    pub width: u32,
    pub height: u32,
    pub frame_count: usize,
}

impl VideoFrames {
    /// A recording of the given size with no frame yet.
    pub fn new(width: u32, height: u32) -> (r: VideoFrames)
        ensures
            r.width == width && r.height == height && r.frame_count == 0,
    {
        VideoFrames { width, height, frame_count: 0 }
    }

    /// Takes a downloaded frame of the given size: a frame of the
    /// recording's size gets the next frame index, any other is refused.
    pub fn accept_frame(&mut self, width: u32, height: u32) -> (r: Result<usize, MoonWalkError>)
        requires
            old(self).frame_count < usize::MAX,
        ensures
            final(self).width == old(self).width,
            final(self).height == old(self).height,
            r is Ok <==> (width == old(self).width && height == old(self).height),
            r matches Ok(idx) ==> idx == old(self).frame_count && final(self).frame_count == old(self).frame_count
                + 1,
            r matches Err(e) ==> (e matches MoonWalkError::IOError(m) && m@ == "Frame size mismatch"@)
                && final(self).frame_count == old(self).frame_count,
    {
        if width != self.width || height != self.height {
            return Err(MoonWalkError::IOError(String::from_str("Frame size mismatch")));
        }
        let idx = self.frame_count;
        self.frame_count = self.frame_count + 1;
        Ok(idx)
    }
}

} // verus!
