use vstd::prelude::*;
use vstd::string::StringSliceAdditionalSpecFns;

use crate::config::{
    delay_for_fps, is_dimension, is_resolution, lemma_resolution_unique, parse_resolution, SEPARATOR,
};
use crate::error::SetupError;
use crate::ports::{bind, Direction, Port, PortTable};

verus! {

pub const DEFAULT_WIDTH: i32 = 800;

pub const DEFAULT_HEIGHT: i32 = 600;

/// The pause between frames when no rate is configured (25 frames per second).
pub const DEFAULT_DELAY_MS: u64 = 40;

/// The settings a capture source is set up with: the size every frame is
/// resized to, and the pause after each frame.
#[derive(Debug, Clone, Copy, PartialEq, Eq, Structural)]
pub struct CameraState {
    pub width: i32,
    pub height: i32,
    pub delay_ms: u64,
}

impl CameraState {
    /// What `new` returns for these options.
    pub open spec fn new_result(resolution: Option<&str>, fps: Option<u64>) -> Result<CameraState, SetupError> {
        if !(match resolution {
            Some(t) => exists|w: int, h: int| is_resolution(t.spec_bytes(), w, h),
            None => true,
        }) || fps == Some(0u64) {
            Err(SetupError::MalformedConfig)
        } else {
            let (w, h) = match resolution {
                Some(t) => choose|w: int, h: int| is_resolution(t.spec_bytes(), w, h),
                None => (DEFAULT_WIDTH as int, DEFAULT_HEIGHT as int),
            };
            Ok(CameraState {
                width: w as i32,
                height: h as i32,
                delay_ms: match fps {
                    Some(f) => (1000int / f as int) as u64,
                    None => DEFAULT_DELAY_MS,
                },
            })
        }
    }

    /// Reads the optional `resolution` (`WxH`) and `fps` options. A missing
    /// option takes its default; a malformed one is `MalformedConfig`.
    pub fn new(resolution: Option<&str>, fps: Option<u64>) -> (r: Result<CameraState, SetupError>)
        ensures
            r.is_ok() <==> (match resolution {
                Some(t) => exists|w: int, h: int| is_resolution(t.spec_bytes(), w, h),
                None => true,
            } && match fps {
                Some(f) => f > 0,
                None => true,
            }),
            r == Self::new_result(resolution, fps),
            match r {
                Ok(c) => (match resolution {
                    Some(t) => is_resolution(t.spec_bytes(), c.width as int, c.height as int),
                    None => c.width == DEFAULT_WIDTH && c.height == DEFAULT_HEIGHT,
                }) && (match fps {
                    Some(f) => c.delay_ms == 1000int / f as int,
                    None => c.delay_ms == DEFAULT_DELAY_MS,
                }),
                Err(e) => e == SetupError::MalformedConfig,
            },
    {
        let (width, height) = match resolution {
            Some(t) => match parse_resolution(t) {
                Ok(wh) => {
                    proof {
                        let (cw, ch) = choose|w: int, h: int| is_resolution(t.spec_bytes(), w, h);
                        lemma_resolution_unique(t.spec_bytes(), wh.0 as int, wh.1 as int, cw, ch);
                    }
                    wh
                },
                Err(e) => return Err(e),
            },
            None => (DEFAULT_WIDTH, DEFAULT_HEIGHT),
        };
        let delay_ms = match fps {
            Some(f) => match delay_for_fps(f) {
                Ok(d) => d,
                Err(e) => return Err(e),
            },
            None => DEFAULT_DELAY_MS,
        };
        Ok(CameraState { width, height, delay_ms })
    }

    /// The size each captured frame is resized to, whatever the device's own.
    pub fn resize_target(&self) -> (r: (i32, i32))
        ensures
            r == (self.width, self.height),
    {
        (self.width, self.height)
    }
}

/// A configuration that setup accepts gives a frame size that a resize can
/// produce: both sides positive.
pub proof fn lemma_accepted_config_is_usable(resolution: Option<&str>, fps: Option<u64>)
    ensures
        match CameraState::new_result(resolution, fps) {
            Ok(c) => c.width > 0 && c.height > 0,
            Err(e) => e == SetupError::MalformedConfig,
        },
{
    match resolution {
        Some(t) => {
            if exists|w: int, h: int| is_resolution(t.spec_bytes(), w, h) {
                let (w, h) = choose|w: int, h: int| is_resolution(t.spec_bytes(), w, h);
                let k = choose|k: int|
                    0 <= k < t.spec_bytes().len() && #[trigger] t.spec_bytes()[k] == SEPARATOR
                        && is_dimension(t.spec_bytes().take(k), w)
                        && is_dimension(t.spec_bytes().skip(k + 1), h);
            }
        },
        None => {},
    }
}

/// A capture source: one resized, encoded frame on `Frame` per invocation.
pub struct CameraSource {
    pub output: Port,
    pub state: CameraState,
}

impl CameraSource {
    /// Reads the configuration, then takes the output port `Frame`. A malformed
    /// option is `MalformedConfig`; otherwise a missing port is `PortNotFound`.
    pub fn setup(ports: &mut PortTable, resolution: Option<&str>, fps: Option<u64>) -> (r: Result<CameraSource, SetupError>)
        requires
            old(ports).wf(),
        ensures
            final(ports).wf(),
            match CameraState::new_result(resolution, fps) {
                Err(e) => r == Err::<CameraSource, SetupError>(e),
                Ok(c) => (r.is_ok() <==> old(ports).available(Direction::Output).contains("Frame"@))
                    && match r {
                        Ok(s) => s.state == c && s.output.name@ == "Frame"@,
                        Err(e) => e == SetupError::PortNotFound,
                    },
            },
    {
        let state = match CameraState::new(resolution, fps) {
            Ok(c) => c,
            Err(e) => return Err(e),
        };
        match bind(ports, "Frame", Direction::Output) {
            Ok(output) => Ok(CameraSource { output, state }),
            Err(e) => Err(e),
        }
    }
}

} // verus!
