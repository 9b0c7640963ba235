//! Volume ducking: a media player is turned down while a recording runs and
//! back up afterwards.
//!
//! The component decides and keeps the state; reading and setting the
//! player's volume happen outside. A change begins with
//! [`SpotifyComponent::handle_volume_change`], which answers with the next
//! [`DuckingStep`]; the results of reading and setting the volume come back
//! through [`SpotifyComponent::volume_read`] and
//! [`SpotifyComponent::volume_set`].

use crate::component::LifecycleEvent;
use vstd::prelude::*;
use vstd::string::*;

verus! {

/// How long to wait before trying again while another change is under way.
pub const RETRY_WAIT_MS: u64 = 50;

/// The volume that a change aims at.
#[derive(Clone, Copy, Debug, PartialEq, Eq, Structural)]
pub enum VolumeLevel {
    Normal,
    Reduced,
}

/// Where the ducking stands.
#[derive(Clone, Copy, Debug, PartialEq, Eq, Structural)]
pub enum VolumeState {
    Normal,
    Reducing,
    Reduced,
    Restoring,
}

/// What can go wrong with ducking.
#[derive(Debug)]
pub enum SpotifyError {
    Config(String),
    Lock,
    Operation(String),
}

/// The mathematical content of a [`SpotifyError`].
pub enum SpotifyErrorModel {
    Config(Seq<char>),
    Lock,
    Operation(Seq<char>),
}

impl View for SpotifyError {
    type V = SpotifyErrorModel;

    open spec fn view(&self) -> SpotifyErrorModel {
        match *self {
            SpotifyError::Config(m) => SpotifyErrorModel::Config(m@),
            SpotifyError::Lock => SpotifyErrorModel::Lock,
            SpotifyError::Operation(m) => SpotifyErrorModel::Operation(m@),
        }
    }
}

/// What has to happen next in a change of volume.
#[derive(Debug)]
pub enum DuckingStep {
    /// The change is over, with this result.
    Done(Result<(), SpotifyError>),
    /// Read the player's volume and report it with `volume_read`.
    ReadVolume,
    /// Set the player's volume and report with `volume_set`.
    SetVolume(u8),
    /// Another change is under way: wait and begin again.
    Retry { wait_ms: u64 },
}

/// The mathematical content of a [`DuckingStep`].
pub enum StepModel {
    Done(Option<SpotifyErrorModel>),
    ReadVolume,
    SetVolume(u8),
    Retry { wait_ms: u64 },
}

impl View for DuckingStep {
    type V = StepModel;

    open spec fn view(&self) -> StepModel {
        match *self {
            DuckingStep::Done(r) => StepModel::Done(
                match r {
                    Ok(_) => None,
                    Err(e) => Some(e@),
                },
            ),
            DuckingStep::ReadVolume => StepModel::ReadVolume,
            DuckingStep::SetVolume(v) => StepModel::SetVolume(v),
            DuckingStep::Retry { wait_ms } => StepModel::Retry { wait_ms },
        }
    }
}

/// The component that ducks the player's volume.
#[derive(Debug)]
pub struct SpotifyComponent {
    name: String,
    original_volume: Option<u8>,
    volume_state: VolumeState,
    operation_counter: u64,
    exact_volume: Option<u8>,
    reduction: Option<u8>,
}

/// The mathematical content of a [`SpotifyComponent`].
pub struct DuckingModel {
    /// The volume found when ducking began, to be restored.
    pub original_volume: Option<u8>,
    pub state: VolumeState,
    /// How many changes were asked for.
    pub operations: u64,
    /// The volume to set while recording, where one is configured.
    pub exact_volume: Option<u8>,
    /// By how much to turn down, where that is configured.
    pub reduction: Option<u8>,
}

impl View for SpotifyComponent {
    type V = DuckingModel;

    closed spec fn view(&self) -> DuckingModel {
        DuckingModel {
            original_volume: self.original_volume,
            state: self.volume_state,
            operations: self.operation_counter,
            exact_volume: self.exact_volume,
            reduction: self.reduction,
        }
    }
}

/// The low eight bits of a configured volume.
pub open spec fn volume_byte(v: Option<u32>) -> Option<u8> {
    match v {
        Some(v) => Some((v % 256) as u8),
        None => None,
    }
}

/// The count after one more operation; it starts over after the last `u64`.
pub open spec fn counted(n: u64) -> u64 {
    if n == u64::MAX {
        0
    } else {
        (n + 1) as u64
    }
}

/// The error for a configuration that names both an exact volume and a
/// reduction.
pub open spec fn exclusive_error() -> SpotifyErrorModel {
    SpotifyErrorModel::Config(
        "spotify_recording_volume and spotify_reduce_by are mutually exclusive"@,
    )
}

/// The error for a report that no change was waiting for.
pub open spec fn unexpected_error() -> SpotifyErrorModel {
    SpotifyErrorModel::Operation("No volume change is under way"@)
}

/// What the beginning of a change does.
pub open spec fn begin_change(
    m: DuckingModel,
    level: VolumeLevel,
    recording_volume: Option<u32>,
    reduce_by: Option<u32>,
) -> (DuckingModel, StepModel) {
    let counted = DuckingModel { operations: counted(m.operations), ..m };
    if recording_volume is Some && reduce_by is Some {
        (counted, StepModel::Done(Some(exclusive_error())))
    } else if recording_volume is None && reduce_by is None {
        (counted, StepModel::Done(None))
    } else {
        match level {
            VolumeLevel::Reduced => match m.state {
                VolumeState::Reduced => (counted, StepModel::Done(None)),
                VolumeState::Reducing => (counted, StepModel::Done(None)),
                VolumeState::Restoring => (counted, StepModel::Retry { wait_ms: RETRY_WAIT_MS }),
                VolumeState::Normal => (
                    DuckingModel {
                        state: VolumeState::Reducing,
                        exact_volume: volume_byte(recording_volume),
                        reduction: volume_byte(reduce_by),
                        ..counted
                    },
                    StepModel::ReadVolume,
                ),
            },
            VolumeLevel::Normal => match m.state {
                VolumeState::Normal => (counted, StepModel::Done(None)),
                VolumeState::Restoring => (counted, StepModel::Done(None)),
                VolumeState::Reducing => (counted, StepModel::Retry { wait_ms: RETRY_WAIT_MS }),
                VolumeState::Reduced => match m.original_volume {
                    Some(v) => (
                        DuckingModel {
                            state: VolumeState::Restoring,
                            original_volume: None,
                            ..counted
                        },
                        StepModel::SetVolume(v),
                    ),
                    None => (
                        DuckingModel { state: VolumeState::Normal, ..counted },
                        StepModel::Done(None),
                    ),
                },
            },
        }
    }
}

/// The volume to set while recording: the exact one if configured, else the
/// current one less the reduction, not below zero.
pub open spec fn target_volume(m: DuckingModel, current: u8) -> u8 {
    match m.exact_volume {
        Some(v) => v,
        None => match m.reduction {
            Some(r) => if current >= r {
                (current - r) as u8
            } else {
                0
            },
            None => current,
        },
    }
}

/// What the report of the player's volume does: the volume found is kept
/// for restoring, unless one is kept already, and the target is set next.
pub open spec fn after_read(m: DuckingModel, volume: u8) -> (DuckingModel, StepModel) {
    if m.state != VolumeState::Reducing {
        (m, StepModel::Done(Some(unexpected_error())))
    } else {
        (
            DuckingModel {
                original_volume: match m.original_volume {
                    Some(v) => Some(v),
                    None => Some(volume),
                },
                ..m
            },
            StepModel::SetVolume(target_volume(m, volume)),
        )
    }
}

/// What the report that the volume could not be read does: the change is
/// taken back and ends with the failure.
pub open spec fn after_read_failure(m: DuckingModel, failure: SpotifyErrorModel) -> (
    DuckingModel,
    StepModel,
) {
    if m.state != VolumeState::Reducing {
        (m, StepModel::Done(Some(unexpected_error())))
    } else {
        (DuckingModel { state: VolumeState::Normal, ..m }, StepModel::Done(Some(failure)))
    }
}

/// The state after the report on setting the volume: a success completes the
/// change, a failure takes it back.
pub open spec fn after_set(m: DuckingModel, succeeded: bool) -> DuckingModel {
    match m.state {
        VolumeState::Reducing => DuckingModel {
            state: if succeeded {
                VolumeState::Reduced
            } else {
                VolumeState::Normal
            },
            ..m
        },
        VolumeState::Restoring => DuckingModel {
            state: if succeeded {
                VolumeState::Normal
            } else {
                VolumeState::Reduced
            },
            ..m
        },
        _ => m,
    }
}

/// The level that an event asks for, if it asks for one: down when a
/// recording starts or resumes, up when it pauses, is cancelled or its text
/// is there.
pub open spec fn level_of(event: LifecycleEvent) -> Option<VolumeLevel> {
    match event {
        LifecycleEvent::Start => Some(VolumeLevel::Reduced),
        LifecycleEvent::Resume => Some(VolumeLevel::Reduced),
        LifecycleEvent::Pause => Some(VolumeLevel::Normal),
        LifecycleEvent::Cancel => Some(VolumeLevel::Normal),
        LifecycleEvent::ProcessingComplete(_) => Some(VolumeLevel::Normal),
        _ => None,
    }
}

fn low_byte(v: Option<u32>) -> (b: Option<u8>)
    ensures
        b == volume_byte(v),
{
    match v {
        Some(v) => Some((v % 256) as u8),
        None => None,
    }
}

impl SpotifyComponent {
    /// A component at normal volume that has changed nothing yet.
    pub fn new() -> (c: Self)
        ensures
            c.spec_name() == "Spotify"@,
            c@ == (DuckingModel {
                original_volume: None,
                state: VolumeState::Normal,
                operations: 0,
                exact_volume: None,
                reduction: None,
            }),
    {
        SpotifyComponent {
            name: String::from_str("Spotify"),
            original_volume: None,
            volume_state: VolumeState::Normal,
            operation_counter: 0,
            exact_volume: None,
            reduction: None,
        }
    }

    /// The component's name.
    pub closed spec fn spec_name(&self) -> Seq<char> {
        self.name@
    }

    pub fn name(&self) -> (n: &str)
        ensures
            n@ == self.spec_name(),
    {
        self.name.as_str()
    }

    /// Where the ducking stands.
    pub fn get_current_state(&self) -> (s: VolumeState)
        ensures
            s == self@.state,
    {
        self.volume_state
    }

    /// The level that `event` asks for.
    pub fn level_for(event: &LifecycleEvent) -> (l: Option<VolumeLevel>)
        ensures
            l == level_of(*event),
    {
        match event {
            LifecycleEvent::Start => Some(VolumeLevel::Reduced),
            LifecycleEvent::Resume => Some(VolumeLevel::Reduced),
            LifecycleEvent::Pause => Some(VolumeLevel::Normal),
            LifecycleEvent::Cancel => Some(VolumeLevel::Normal),
            LifecycleEvent::ProcessingComplete(_) => Some(VolumeLevel::Normal),
            _ => None,
        }
    }

    /// Begins a change to `level` under the configured target: an exact
    /// volume or a reduction, never both. A change that is already made or
    /// under way in the same direction is skipped.
    pub fn handle_volume_change(
        &mut self,
        level: VolumeLevel,
        recording_volume: Option<u32>,
        reduce_by: Option<u32>,
    ) -> (step: DuckingStep)
        ensures
            final(self)@ == begin_change(old(self)@, level, recording_volume, reduce_by).0,
            step@ == begin_change(old(self)@, level, recording_volume, reduce_by).1,
    {
        self.operation_counter = if self.operation_counter == u64::MAX {
            0
        } else {
            self.operation_counter + 1
        };
        if recording_volume.is_some() && reduce_by.is_some() {
            return DuckingStep::Done(
                Err(
                    SpotifyError::Config(
                        String::from_str(
                            "spotify_recording_volume and spotify_reduce_by are mutually exclusive",
                        ),
                    ),
                ),
            );
        }
        if recording_volume.is_none() && reduce_by.is_none() {
            return DuckingStep::Done(Ok(()));
        }
        match level {
            VolumeLevel::Reduced => match self.volume_state {
                VolumeState::Reduced => DuckingStep::Done(Ok(())),
                VolumeState::Reducing => DuckingStep::Done(Ok(())),
                VolumeState::Restoring => DuckingStep::Retry { wait_ms: RETRY_WAIT_MS },
                VolumeState::Normal => {
                    self.volume_state = VolumeState::Reducing;
                    self.exact_volume = low_byte(recording_volume);
                    self.reduction = low_byte(reduce_by);
                    DuckingStep::ReadVolume
                },
            },
            VolumeLevel::Normal => match self.volume_state {
                VolumeState::Normal => DuckingStep::Done(Ok(())),
                VolumeState::Restoring => DuckingStep::Done(Ok(())),
                VolumeState::Reducing => DuckingStep::Retry { wait_ms: RETRY_WAIT_MS },
                VolumeState::Reduced => match self.original_volume {
                    Some(v) => {
                        self.volume_state = VolumeState::Restoring;
                        self.original_volume = None;
                        DuckingStep::SetVolume(v)
                    },
                    None => {
                        self.volume_state = VolumeState::Normal;
                        DuckingStep::Done(Ok(()))
                    },
                },
            },
        }
    }

    /// Takes the player's volume as read, or the error of reading it.
    pub fn volume_read(&mut self, current: Result<u8, SpotifyError>) -> (step: DuckingStep)
        ensures
            match current {
                Ok(volume) => {
                    &&& final(self)@ == after_read(old(self)@, volume).0
                    &&& step@ == after_read(old(self)@, volume).1
                },
                Err(e) => {
                    &&& final(self)@ == after_read_failure(old(self)@, e@).0
                    &&& step@ == after_read_failure(old(self)@, e@).1
                },
            },
    {
        match self.volume_state {
            VolumeState::Reducing => {},
            _ => {
                return DuckingStep::Done(
                    Err(SpotifyError::Operation(String::from_str("No volume change is under way"))),
                );
            },
        }
        match current {
            Err(e) => {
                self.volume_state = VolumeState::Normal;
                DuckingStep::Done(Err(e))
            },
            Ok(volume) => {
                let target = match self.exact_volume {
                    Some(v) => v,
                    None => match self.reduction {
                        Some(r) => if volume >= r {
                            volume - r
                        } else {
                            0
                        },
                        None => volume,
                    },
                };
                if self.original_volume.is_none() {
                    self.original_volume = Some(volume);
                }
                DuckingStep::SetVolume(target)
            },
        }
    }

    /// Takes the outcome of setting the player's volume and hands it on as
    /// the result of the change.
    pub fn volume_set(&mut self, outcome: Result<(), SpotifyError>) -> (r: Result<(), SpotifyError>)
        ensures
            final(self)@ == after_set(old(self)@, outcome is Ok),
            r == outcome,
    {
        let succeeded = outcome.is_ok();
        match self.volume_state {
            VolumeState::Reducing => {
                self.volume_state = if succeeded {
                    VolumeState::Reduced
                } else {
                    VolumeState::Normal
                };
            },
            VolumeState::Restoring => {
                self.volume_state = if succeeded {
                    VolumeState::Normal
                } else {
                    VolumeState::Reduced
                };
            },
            _ => {},
        }
        outcome
    }
}

/// Repeated requests change nothing: asking for the reduced volume while it
/// is reduced, or for the normal volume while it is normal, leaves the state
/// and the stored volume as they are and is done at once.
pub proof fn lemma_repeated_request(
    m: DuckingModel,
    level: VolumeLevel,
    recording_volume: Option<u32>,
    reduce_by: Option<u32>,
)
    requires
        (level == VolumeLevel::Reduced && m.state == VolumeState::Reduced) || (level
            == VolumeLevel::Normal && m.state == VolumeState::Normal),
        !(recording_volume is Some && reduce_by is Some),
    ensures
        begin_change(m, level, recording_volume, reduce_by).1 == StepModel::Done(None),
        begin_change(m, level, recording_volume, reduce_by).0 == (DuckingModel {
            operations: counted(m.operations),
            ..m
        }),
{
}

} // verus!
