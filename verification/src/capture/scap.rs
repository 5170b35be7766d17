//! Capture through the system's own screen-sharing interface: which target to
//! capture, and what becomes of the frames it hands over.

use vstd::prelude::*;

use super::{CaptureError, CaptureTarget, RawFrame};
use crate::text::{concat3, decimal_of};

verus! {

/// A frame as the capture interface hands it over.
#[derive(Debug)]
pub enum CapturedFrame {
    Yuv {
        width: u32,
        height: u32,
        luminance: Vec<u8>,
        luminance_stride: usize,
        chrominance: Vec<u8>,
        chrominance_stride: usize,
    },
    Bgra { width: u32, height: u32, data: Vec<u8> },
    Other,
}

/// The chosen capture target and the rate to capture it at.
#[derive(Debug)]
pub struct ScapSource {
    /// Index of the target among those offered.
    pub target: usize,
    pub fps: u32,
}

/// `target` is a display, and the one asked for where one was.
pub open spec fn is_wanted(target: CaptureTarget, display_id: Option<u32>) -> bool {
    match (target, display_id) {
        (CaptureTarget::Display(d), Some(id)) => d.id == id,
        (CaptureTarget::Display(_), None) => true,
        (CaptureTarget::Window, _) => false,
    }
}

impl ScapSource {
    /// Chooses the first wanted display among `targets`. Capture must be
    /// supported and permitted; nothing ever prompts for the permission.
    pub fn new(
        display_id: Option<u32>,
        fps: u32,
        supported: bool,
        permitted: bool,
        targets: &[CaptureTarget],
    ) -> (r: Result<Self, CaptureError>)
        ensures
            match r {
                Ok(source) => {
                    &&& supported && permitted
                    &&& source.fps == fps
                    &&& source.target < targets@.len()
                    &&& is_wanted(targets@[source.target as int], display_id)
                    &&& forall|j: int|
                        0 <= j < source.target ==> !is_wanted(#[trigger] targets@[j], display_id)
                },
                Err(CaptureError::Unsupported) => !supported,
                Err(CaptureError::PermissionDenied) => supported && !permitted,
                Err(CaptureError::Backend(text)) => {
                    &&& supported && permitted
                    &&& forall|j: int|
                        0 <= j < targets@.len() ==> !is_wanted(#[trigger] targets@[j], display_id)
                    &&& text@ == match display_id {
                        Some(id) => "display "@ + crate::text::decimal(id as nat)
                            + " not found"@,
                        None => "no capturable display found"@,
                    }
                },
                Err(CaptureError::Stopped) => false,
            },
    {
        if !supported {
            return Err(CaptureError::Unsupported);
        }
        if !permitted {
            return Err(CaptureError::PermissionDenied);
        }
        let mut i: usize = 0;
        while i < targets.len()
            invariant
                supported && permitted,
                i <= targets.len(),
                forall|j: int| 0 <= j < i ==> !is_wanted(#[trigger] targets@[j], display_id),
            decreases targets.len() - i,
        {
            let wanted: bool = match (&targets[i], display_id) {
                (CaptureTarget::Display(d), Some(id)) => d.id == id,
                (CaptureTarget::Display(_), None) => true,
                (CaptureTarget::Window, _) => false,
            };
            if wanted {
                return Ok(ScapSource { target: i, fps });
            }
            i = i + 1;
        }
        match display_id {
            Some(id) => {
                let number: String = decimal_of(id as u64);
                Err(CaptureError::Backend(concat3("display ", number.as_str(), " not found")))
            },
            None => Err(CaptureError::Backend(String::from_str("no capturable display found"))),
        }
    }
}

/// The raw frame made of a captured one. An empty one (width zero) yields
/// nothing and is to be skipped; a frame that is neither YUV nor BGRA is an
/// error.
pub fn accept_frame(frame: CapturedFrame, ts: u64) -> (r: Result<Option<RawFrame>, CaptureError>)
    requires
        frame matches CapturedFrame::Bgra { width, .. } ==> width * 4 <= usize::MAX,
    ensures
        match frame {
            CapturedFrame::Yuv {
                width,
                height,
                luminance,
                luminance_stride,
                chrominance,
                chrominance_stride,
            } => r == Ok::<Option<RawFrame>, CaptureError>(
                if width == 0 {
                    None
                } else {
                    Some(
                        RawFrame::Nv12 {
                            width,
                            height,
                            y: luminance,
                            y_stride: luminance_stride,
                            uv: chrominance,
                            uv_stride: chrominance_stride,
                            ts,
                        },
                    )
                },
            ),
            CapturedFrame::Bgra { width, height, data } => r == Ok::<
                Option<RawFrame>,
                CaptureError,
            >(
                if width == 0 {
                    None
                } else {
                    Some(
                        RawFrame::Bgra { width, height, data, stride: (width * 4) as usize, ts },
                    )
                },
            ),
            CapturedFrame::Other => r matches Err(CaptureError::Backend(text)) && text@
                == "unexpected frame type"@,
        },
{
    match frame {
        CapturedFrame::Yuv {
            width,
            height,
            luminance,
            luminance_stride,
            chrominance,
            chrominance_stride,
        } => {
            if width == 0 {
                return Ok(None);
            }
            Ok(
                Some(
                    RawFrame::Nv12 {
                        width,
                        height,
                        y: luminance,
                        y_stride: luminance_stride,
                        uv: chrominance,
                        uv_stride: chrominance_stride,
                        ts,
                    },
                ),
            )
        },
        CapturedFrame::Bgra { width, height, data } => {
            if width == 0 {
                return Ok(None);
            }
            Ok(
                Some(
                    RawFrame::Bgra { width, height, data, stride: width as usize * 4, ts },
                ),
            )
        },
        CapturedFrame::Other => Err(
            CaptureError::Backend(String::from_str("unexpected frame type")),
        ),
    }
}

/// Only displays are captured: any of them where none was asked for, and otherwise
/// the one with the number that was.
pub proof fn law_only_displays_are_wanted(display: super::DisplayInfo, id: u32)
    ensures
        is_wanted(CaptureTarget::Display(display), None),
        is_wanted(CaptureTarget::Display(display), Some(id)) == (display.id == id),
        !is_wanted(CaptureTarget::Window, None),
        !is_wanted(CaptureTarget::Window, Some(id)),
{
}

} // verus!
