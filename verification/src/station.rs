//! The order of work of the station: set the devices up once, then measure,
//! render and wait, for ever.
//!
//! The station decides and the caller acts. The caller performs the action
//! it is given on the devices and reports how it went; [`Station::step`]
//! answers with the next action. Every failure is final: the station halts
//! and keeps saying so.

use crate::buffer::{TextBuffer, CAPACITY};
use crate::frame::{displayable, frame_text, lemma_frame_fills_display, MAX_READING};
use vstd::prelude::*;

verus! {

/// Bus address of the sensor.
pub const SENSOR_ADDRESS: u8 = 0x76;

/// Clock frequency of the bus, in hertz.
pub const BUS_FREQUENCY_HZ: u32 = 400_000;

/// Microseconds a start condition may take before the transaction fails.
pub const START_TIMEOUT_US: u32 = 1000;

/// Times a start condition is tried again before the transaction fails.
pub const START_RETRIES: u8 = 10;

/// Microseconds a peripheral may take to answer to its address.
pub const ADDRESS_TIMEOUT_US: u32 = 1000;

/// Microseconds one byte may take on the wire.
pub const DATA_TIMEOUT_US: u32 = 1000;

/// Processor cycles to idle between two frames.
pub const REFRESH_CYCLES: u32 = 84_000_000;

/// Why the station halted.
#[derive(Clone, Copy, Debug, PartialEq, Eq, Structural)]
pub enum Fault {
    /// A device did not come up.
    InitError,
    /// The sensor gave no reading.
    MeasureError,
    /// The display did not take what was sent to it.
    IoError,
    /// A reading has more digits than its field.
    RangeError,
}

/// Where the station stands: the action it waits on, or why it halted.
#[derive(Clone, Copy, Debug, PartialEq, Eq, Structural)]
pub enum Stage {
    /// Setup: the sensor is being initialized.
    SensorInit,
    /// Setup: the display is being initialized.
    DisplayInit,
    /// Setup: the display is being blanked.
    DisplayClear,
    /// Running: a measurement is being taken.
    Measuring,
    /// Running: the frame for these readings is being rendered.
    Rendering { temperature: u8, humidity: u8 },
    /// Running: the station idles until the next measurement.
    Waiting,
    /// Halted for good.
    Halted(Fault),
}

/// How the last action went.
#[derive(Clone, Copy, Debug, PartialEq, Eq, Structural)]
pub enum Event {
    /// It succeeded, with nothing to report.
    Done,
    /// It failed.
    Failed,
    /// It succeeded and gave these readings.
    Reading { temperature: u8, humidity: u8 },
}

/// What the caller is to do next.
#[derive(Debug, PartialEq, Eq)]
pub enum Action {
    /// Initialize the sensor at this bus address.
    InitSensor { address: u8 },
    /// Initialize the display.
    InitDisplay,
    /// Blank the display.
    ClearDisplay,
    /// Take a measurement and report the readings.
    Measure,
    /// Write this frame to the display.
    Render(TextBuffer),
    /// Idle for this many processor cycles.
    Wait { cycles: u32 },
    /// Stop: nothing more will be asked.
    Halt(Fault),
}

/// An [`Action`] as contracts see it, the frame as its characters.
pub enum ActionView {
    InitSensor { address: u8 },
    InitDisplay,
    ClearDisplay,
    Measure,
    Render(Seq<char>),
    Wait { cycles: u32 },
    Halt(Fault),
}

impl View for Action {
    type V = ActionView;

    open spec fn view(&self) -> ActionView {
        match *self {
            Action::InitSensor { address } => ActionView::InitSensor { address },
            Action::InitDisplay => ActionView::InitDisplay,
            Action::ClearDisplay => ActionView::ClearDisplay,
            Action::Measure => ActionView::Measure,
            Action::Render(frame) => ActionView::Render(frame@),
            Action::Wait { cycles } => ActionView::Wait { cycles },
            Action::Halt(fault) => ActionView::Halt(fault),
        }
    }
}

/// The stage that follows `stage` once `event` is reported.
///
/// Success leads to the next piece of work. A report that is not the
/// success the pending action can have counts as its failure. The wait has
/// no way to fail, so whatever is reported after it, the next measurement
/// follows.
pub open spec fn next(stage: Stage, event: Event) -> Stage {
    match stage {
        Stage::SensorInit => if event is Done {
            Stage::DisplayInit
        } else {
            Stage::Halted(Fault::InitError)
        },
        Stage::DisplayInit => if event is Done {
            Stage::DisplayClear
        } else {
            Stage::Halted(Fault::InitError)
        },
        Stage::DisplayClear => if event is Done {
            Stage::Measuring
        } else {
            Stage::Halted(Fault::IoError)
        },
        Stage::Measuring => match event {
            Event::Reading { temperature, humidity } => if displayable(
                temperature as int,
                humidity as int,
            ) {
                Stage::Rendering { temperature, humidity }
            } else {
                Stage::Halted(Fault::RangeError)
            },
            _ => Stage::Halted(Fault::MeasureError),
        },
        Stage::Rendering { .. } => if event is Done {
            Stage::Waiting
        } else {
            Stage::Halted(Fault::IoError)
        },
        Stage::Waiting => Stage::Measuring,
        Stage::Halted(fault) => Stage::Halted(fault),
    }
}

/// The action a stage waits on.
pub open spec fn order(stage: Stage) -> ActionView {
    match stage {
        Stage::SensorInit => ActionView::InitSensor { address: SENSOR_ADDRESS },
        Stage::DisplayInit => ActionView::InitDisplay,
        Stage::DisplayClear => ActionView::ClearDisplay,
        Stage::Measuring => ActionView::Measure,
        Stage::Rendering { temperature, humidity } => ActionView::Render(
            frame_text(temperature as int, humidity as int),
        ),
        Stage::Waiting => ActionView::Wait { cycles: REFRESH_CYCLES },
        Stage::Halted(fault) => ActionView::Halt(fault),
    }
}

/// Whether a stage can be rendered: its readings fit their fields.
pub open spec fn sound(stage: Stage) -> bool {
    stage matches Stage::Rendering { temperature, humidity } ==> displayable(
        temperature as int,
        humidity as int,
    )
}

/// The stage reached from `stage` after the given reports, in order.
pub open spec fn replay(stage: Stage, events: Seq<Event>) -> Stage
    decreases events.len(),
{
    if events.len() == 0 {
        stage
    } else {
        next(replay(stage, events.drop_last()), events.last())
    }
}

/// The sequencer of one station.
pub struct Station {
    stage: Stage,
}

impl View for Station {
    type V = Stage;

    closed spec fn view(&self) -> Stage {
        self.stage
    }
}

impl Station {
    #[verifier::type_invariant]
    spec fn inv(&self) -> bool {
        sound(self.stage)
    }

    /// A station at the beginning of its setup.
    pub fn new() -> (station: Station)
        ensures
            station@ == Stage::SensorInit,
    {
        Station { stage: Stage::SensorInit }
    }

    /// The stage the station stands at.
    pub fn stage(&self) -> (stage: Stage)
        ensures
            stage == self@,
            sound(stage),
    {
        proof {
            use_type_invariant(self);
        }
        self.stage
    }

    /// The action the station waits on.
    pub fn pending(&self) -> (action: Action)
        ensures
            action@ == order(self@),
    {
        proof {
            use_type_invariant(self);
        }
        match self.stage {
            Stage::SensorInit => Action::InitSensor { address: SENSOR_ADDRESS },
            Stage::DisplayInit => Action::InitDisplay,
            Stage::DisplayClear => Action::ClearDisplay,
            Stage::Measuring => Action::Measure,
            Stage::Rendering { temperature, humidity } => {
                let mut frame = TextBuffer::new();
                crate::frame::format(&mut frame, temperature, humidity);
                Action::Render(frame)
            },
            Stage::Waiting => Action::Wait { cycles: REFRESH_CYCLES },
            Stage::Halted(fault) => Action::Halt(fault),
        }
    }

    /// Takes the report on the pending action and answers with the next one.
    pub fn step(&mut self, event: Event) -> (action: Action)
        ensures
            final(self)@ == next(old(self)@, event),
            action@ == order(final(self)@),
    {
        let stage = advance(self.stage, event);
        proof {
            use_type_invariant(&*self);
            lemma_next_is_sound(self.stage, event);
        }
        *self = Station { stage };
        self.pending()
    }
}

/// The stage that follows `stage` once `event` is reported.
pub fn advance(stage: Stage, event: Event) -> (after: Stage)
    ensures
        after == next(stage, event),
{
    match stage {
        Stage::SensorInit => match event {
            Event::Done => Stage::DisplayInit,
            _ => Stage::Halted(Fault::InitError),
        },
        Stage::DisplayInit => match event {
            Event::Done => Stage::DisplayClear,
            _ => Stage::Halted(Fault::InitError),
        },
        Stage::DisplayClear => match event {
            Event::Done => Stage::Measuring,
            _ => Stage::Halted(Fault::IoError),
        },
        Stage::Measuring => match event {
            Event::Reading { temperature, humidity } => {
                if temperature <= MAX_READING && humidity <= MAX_READING {
                    Stage::Rendering { temperature, humidity }
                } else {
                    Stage::Halted(Fault::RangeError)
                }
            },
            _ => Stage::Halted(Fault::MeasureError),
        },
        Stage::Rendering { .. } => match event {
            Event::Done => Stage::Waiting,
            _ => Stage::Halted(Fault::IoError),
        },
        Stage::Waiting => Stage::Measuring,
        Stage::Halted(fault) => Stage::Halted(fault),
    }
}

/// Whatever is reported, the stage that follows can be rendered.
pub proof fn lemma_next_is_sound(stage: Stage, event: Event)
    ensures
        sound(next(stage, event)),
{
}

/// A frame that the station orders covers the whole display, so rendering it
/// never needs the display cleared first.
pub proof fn lemma_ordered_frames_fill_display(stage: Stage)
    requires
        sound(stage),
    ensures
        order(stage) matches ActionView::Render(text) ==> text.len() == CAPACITY,
{
    if let Stage::Rendering { temperature, humidity } = stage {
        lemma_frame_fills_display(temperature as int, humidity as int);
    }
}

/// A halted station stays halted, for the same reason, whatever is reported.
pub proof fn lemma_halted_for_good(fault: Fault, events: Seq<Event>)
    ensures
        replay(Stage::Halted(fault), events) == Stage::Halted(fault),
    decreases events.len(),
{
    if events.len() > 0 {
        lemma_halted_for_good(fault, events.drop_last());
    }
}

/// The display is initialized only on the report that the sensor came up.
pub proof fn lemma_display_waits_for_sensor(stage: Stage, event: Event)
    ensures
        next(stage, event) is DisplayInit <==> stage is SensorInit && event is Done,
{
}

/// If the first report of a new station is not a success, the station is
/// halted with an initialization error after any number of further
/// reports, and so never asks for the display.
pub proof fn lemma_failed_sensor_halts(events: Seq<Event>)
    requires
        events.len() > 0,
        !(events[0] is Done),
    ensures
        replay(Stage::SensorInit, events) == Stage::Halted(Fault::InitError),
    decreases events.len(),
{
    if events.len() == 1 {
        assert(events.drop_last().len() == 0);
    } else {
        lemma_failed_sensor_halts(events.drop_last());
    }
}

/// While nothing fails and the readings fit, the running station goes round
/// measuring, rendering and waiting.
pub proof fn lemma_cycle(temperature: u8, humidity: u8, report: Event)
    requires
        displayable(temperature as int, humidity as int),
    ensures
        next(Stage::Measuring, Event::Reading { temperature, humidity }) == (Stage::Rendering {
            temperature,
            humidity,
        }),
        next(Stage::Rendering { temperature, humidity }, Event::Done) == Stage::Waiting,
        next(Stage::Waiting, report) == Stage::Measuring,
{
}

} // verus!
