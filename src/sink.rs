use vstd::prelude::*;

use crate::error::SetupError;
use crate::ports::{bind, Direction, Port, PortTable};

verus! {

/// One line of a record as the generic sink writes it.
#[derive(Debug, Clone, Copy, PartialEq, Eq, Structural)]
pub enum RecordLine {
    /// The `#######` line that frames each record.
    Separator,
    /// The line that shows the received message.
    Received,
}

/// One step of the generic sink's work on a received message.
#[derive(Debug, Clone, Copy, PartialEq, Eq, Structural)]
pub enum SinkAction {
    /// Print a line to standard output.
    Print(RecordLine),
    /// Append a line to the destination file.
    Write(RecordLine),
    /// Force the destination file to durable storage.
    Sync,
}

/// The lines of one record.
pub open spec fn record_lines() -> Seq<RecordLine> {
    seq![RecordLine::Separator, RecordLine::Received, RecordLine::Separator]
}

/// How many of `acts` force the file to storage.
pub open spec fn sync_count(acts: Seq<SinkAction>) -> nat
    decreases acts.len(),
{
    if acts.len() == 0 {
        0
    } else {
        sync_count(acts.drop_last()) + if acts.last() == SinkAction::Sync {
            1nat
        } else {
            0nat
        }
    }
}

/// The generic sink's state: where records go.
#[derive(Debug)]
pub struct SinkState {
    /// The destination file, or `None` for standard output.
    pub file: Option<String>,
}

impl SinkState {
    /// Records go to `file` when one is configured, else to standard output.
    pub fn new(file: Option<String>) -> (r: SinkState)
        ensures
            r.file == file,
    {
        SinkState { file }
    }

    /// What handling one received message does, in order.
    pub open spec fn actions_spec(&self) -> Seq<SinkAction> {
        match self.file {
            None => record_lines().map_values(|l: RecordLine| SinkAction::Print(l)),
            Some(_) => record_lines().map_values(|l: RecordLine| SinkAction::Write(l)).push(SinkAction::Sync),
        }
    }

    /// The steps for one received message: the record's three lines, printed
    /// or written; when writing to a file, then one sync.
    pub fn record_actions(&self) -> (r: Vec<SinkAction>)
        ensures
            r@ == self.actions_spec(),
    {
        let mut v: Vec<SinkAction> = Vec::new();
        match &self.file {
            None => {
                v.push(SinkAction::Print(RecordLine::Separator));
                v.push(SinkAction::Print(RecordLine::Received));
                v.push(SinkAction::Print(RecordLine::Separator));
            },
            Some(_) => {
                v.push(SinkAction::Write(RecordLine::Separator));
                v.push(SinkAction::Write(RecordLine::Received));
                v.push(SinkAction::Write(RecordLine::Separator));
                v.push(SinkAction::Sync);
            },
        }
        proof {
            assert(v@ =~= self.actions_spec());
        }
        v
    }
}

/// With a destination file, each received record is synced exactly once,
/// as the last step before the invocation returns; on standard output
/// nothing is synced.
pub proof fn lemma_one_sync_per_record(s: SinkState)
    ensures
        s.file.is_some() ==> sync_count(s.actions_spec()) == 1
            && s.actions_spec().last() == SinkAction::Sync,
        s.file.is_none() ==> sync_count(s.actions_spec()) == 0,
{
    reveal_with_fuel(sync_count, 5);
    let a = s.actions_spec();
    if s.file.is_some() {
        let b = seq![
            SinkAction::Write(RecordLine::Separator),
            SinkAction::Write(RecordLine::Received),
            SinkAction::Write(RecordLine::Separator),
            SinkAction::Sync,
        ];
        assert(a =~= b);
        assert(b.drop_last() =~= seq![b[0], b[1], b[2]]);
        assert(b.drop_last().drop_last() =~= seq![b[0], b[1]]);
        assert(b.drop_last().drop_last().drop_last() =~= seq![b[0]]);
        assert(b.drop_last().drop_last().drop_last().drop_last() =~= Seq::<SinkAction>::empty());
    } else {
        let b = seq![
            SinkAction::Print(RecordLine::Separator),
            SinkAction::Print(RecordLine::Received),
            SinkAction::Print(RecordLine::Separator),
        ];
        assert(a =~= b);
        assert(b.drop_last() =~= seq![b[0], b[1]]);
        assert(b.drop_last().drop_last() =~= seq![b[0]]);
        assert(b.drop_last().drop_last().drop_last() =~= Seq::<SinkAction>::empty());
    }
}

/// A generic sink: persists each message received on `Data`.
pub struct GenericSink {
    pub input: Port,
    pub state: SinkState,
}

impl GenericSink {
    /// Takes the input port `Data`; records go to `file`, if configured.
    pub fn setup(ports: &mut PortTable, file: Option<String>) -> (r: Result<GenericSink, SetupError>)
        requires
            old(ports).wf(),
        ensures
            final(ports).wf(),
            r.is_ok() <==> old(ports).available(Direction::Input).contains("Data"@),
            match r {
                Ok(s) => s.input.name@ == "Data"@ && s.state.file == file,
                Err(e) => e == SetupError::PortNotFound,
            },
    {
        let state = SinkState::new(file);
        match bind(ports, "Data", Direction::Input) {
            Ok(input) => Ok(GenericSink { input, state }),
            Err(e) => Err(e),
        }
    }
}

/// One step of the display sink's work on a decoded frame.
#[derive(Debug, Clone, Copy, PartialEq, Eq, Structural)]
pub enum DisplayAction {
    /// Render the frame in the window.
    Show,
    /// Let the window process its events for `WAIT_KEY_MS`.
    WaitKey,
}

/// How long the display sink lets the window process events, in milliseconds.
pub const WAIT_KEY_MS: i32 = 10;

/// The steps for one decoded frame of width `width`: a degenerate frame
/// (no columns) is not shown, and the window gets its events either way.
pub fn display_actions(width: i32) -> (r: Vec<DisplayAction>)
    ensures
        width > 0 ==> r@ == seq![DisplayAction::Show, DisplayAction::WaitKey],
        width <= 0 ==> r@ == seq![DisplayAction::WaitKey],
{
    let mut v: Vec<DisplayAction> = Vec::new();
    if width > 0 {
        v.push(DisplayAction::Show);
    }
    v.push(DisplayAction::WaitKey);
    proof {
        if width > 0 {
            assert(v@ =~= seq![DisplayAction::Show, DisplayAction::WaitKey]);
        } else {
            assert(v@ =~= seq![DisplayAction::WaitKey]);
        }
    }
    v
}

/// A display sink: shows each frame received on `Frame` in a window.
pub struct VideoSink {
    pub input: Port,
}

impl VideoSink {
    /// Takes the input port `Frame`.
    pub fn setup(ports: &mut PortTable) -> (r: Result<VideoSink, SetupError>)
        requires
            old(ports).wf(),
        ensures
            final(ports).wf(),
            r.is_ok() <==> old(ports).available(Direction::Input).contains("Frame"@),
            match r {
                Ok(s) => s.input.name@ == "Frame"@,
                Err(e) => e == SetupError::PortNotFound,
            },
    {
        match bind(ports, "Frame", Direction::Input) {
            Ok(input) => Ok(VideoSink { input }),
            Err(e) => Err(e),
        }
    }
}

} // verus!
