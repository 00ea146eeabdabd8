use vstd::prelude::*;

use crate::error::{InvocationError, SetupError};
use crate::ports::{bind, Direction, Port, PortTable};

verus! {

/// Detection runs on a frame shrunk by this factor in each dimension.
pub const REDUCTION: i32 = 4;

/// The detector's minimum count of neighbouring hits for a region to stand.
pub const MIN_NEIGHBORS: i32 = 2;

/// The smallest side of a region the detector reports, in reduced pixels.
pub const MIN_REGION_SIDE: i32 = 30;

/// An axis-aligned rectangle in pixel coordinates.
#[derive(Debug, Clone, Copy, PartialEq, Eq, Structural)]
pub struct Region {
    pub x: i32,
    pub y: i32,
    pub width: i32,
    pub height: i32,
}

pub open spec fn fits_i32(v: int) -> bool {
    i32::MIN <= v <= i32::MAX
}

/// Every coordinate of `r` times the reduction factor fits an `i32`.
pub open spec fn can_scale(r: Region) -> bool {
    fits_i32(REDUCTION * r.x) && fits_i32(REDUCTION * r.y) && fits_i32(REDUCTION * r.width)
        && fits_i32(REDUCTION * r.height)
}

/// `s` is `r` brought back from the reduced frame to full resolution.
pub open spec fn is_scaled(r: Region, s: Region) -> bool {
    s.x == REDUCTION * r.x && s.y == REDUCTION * r.y && s.width == REDUCTION * r.width
        && s.height == REDUCTION * r.height
}

/// Brings a region found on the reduced frame back to full resolution.
pub fn scale_region(r: Region) -> (res: Result<Region, InvocationError>)
    ensures
        can_scale(r) <==> res.is_ok(),
        match res {
            Ok(s) => is_scaled(r, s),
            Err(e) => e == InvocationError::Overflow,
        },
{
    let x = r.x.checked_mul(REDUCTION);
    let y = r.y.checked_mul(REDUCTION);
    let w = r.width.checked_mul(REDUCTION);
    let h = r.height.checked_mul(REDUCTION);
    match (x, y, w, h) {
        (Some(x), Some(y), Some(w), Some(h)) => Ok(Region { x, y, width: w, height: h }),
        _ => Err(InvocationError::Overflow),
    }
}

/// The regions to annotate on the full-resolution frame: one per detected
/// region, in order, each scaled back. None detected gives none to draw.
pub fn annotations(found: &Vec<Region>) -> (res: Result<Vec<Region>, InvocationError>)
    ensures
        (forall|i: int| 0 <= i < found@.len() ==> can_scale(#[trigger] found@[i])) <==> res.is_ok(),
        match res {
            Ok(out) => out@.len() == found@.len()
                && forall|i: int| 0 <= i < found@.len() ==> is_scaled(#[trigger] found@[i], out@[i]),
            Err(e) => e == InvocationError::Overflow,
        },
{
    let mut out: Vec<Region> = Vec::new();
    let mut i: usize = 0;
    while i < found.len()
        invariant
            i <= found@.len(),
            out@.len() == i,
            forall|j: int| 0 <= j < i ==> can_scale(#[trigger] found@[j]) && is_scaled(found@[j], out@[j]),
        decreases found@.len() - i,
    {
        match scale_region(found[i]) {
            Ok(s) => out.push(s),
            Err(e) => return Err(e),
        }
        i = i + 1;
    }
    Ok(out)
}

/// The classifier model loaded when none is configured.
pub open spec fn default_model() -> Seq<char> {
    "haarcascades/haarcascade_frontalface_alt.xml"@
}

/// The detection operator's state: which classifier model it loads.
#[derive(Debug)]
pub struct FDState {
    pub model: String,
}

impl FDState {
    /// Uses the configured model path, or the default frontal-face cascade.
    pub fn new(model: Option<String>) -> (r: FDState)
        ensures
            r.model@ == match model {
                Some(m) => m@,
                None => default_model(),
            },
    {
        match model {
            Some(m) => FDState { model: m },
            None => FDState { model: "haarcascades/haarcascade_frontalface_alt.xml".to_owned() },
        }
    }
}

/// A detection operator: reads a frame on `Frame`, emits it annotated on `Frame`.
pub struct FaceDetection {
    pub input: Port,
    pub output: Port,
    pub state: FDState,
}

impl FaceDetection {
    /// Takes the input and the output port `Frame`.
    pub fn setup(ports: &mut PortTable, model: Option<String>) -> (r: Result<FaceDetection, SetupError>)
        requires
            old(ports).wf(),
        ensures
            final(ports).wf(),
            r.is_ok() <==> (old(ports).available(Direction::Input).contains("Frame"@)
                && old(ports).available(Direction::Output).contains("Frame"@)),
            match r {
                Ok(s) => s.input.name@ == "Frame"@ && s.output.name@ == "Frame"@
                    && s.input.direction == Direction::Input && s.output.direction == Direction::Output
                    && s.state.model@ == match model {
                        Some(m) => m@,
                        None => default_model(),
                    },
                Err(e) => e == SetupError::PortNotFound,
            },
    {
        let state = FDState::new(model);
        let input = match bind(ports, "Frame", Direction::Input) {
            Ok(p) => p,
            Err(e) => return Err(e),
        };
        match bind(ports, "Frame", Direction::Output) {
            Ok(output) => Ok(FaceDetection { input, output, state }),
            Err(e) => Err(e),
        }
    }
}

} // verus!
