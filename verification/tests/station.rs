use weather_station::arbiter::{Arbiter, Proxy};
use weather_station::buffer::CAPACITY;
use weather_station::station::{
    advance, Action, Event, Fault, Stage, Station, BUS_FREQUENCY_HZ, REFRESH_CYCLES,
    SENSOR_ADDRESS,
};

fn running() -> Station {
    let mut station = Station::new();
    station.step(Event::Done);
    station.step(Event::Done);
    assert_eq!(station.step(Event::Done), Action::Measure);
    station
}

fn frame_of(action: &Action) -> &str {
    match action {
        Action::Render(frame) => frame.as_str(),
        other => panic!("no frame in {:?}", other),
    }
}

#[test]
fn constants_of_the_deployment() {
    assert_eq!(SENSOR_ADDRESS, 0x76);
    assert_eq!(BUS_FREQUENCY_HZ, 400_000);
    assert_eq!(REFRESH_CYCLES, 84_000_000);
}

#[test]
fn a_new_station_asks_for_the_sensor() {
    let station = Station::new();
    assert_eq!(station.stage(), Stage::SensorInit);
    assert_eq!(station.pending(), Action::InitSensor { address: 0x76 });
}

#[test]
fn setup_runs_in_order_and_leads_to_the_first_measurement() {
    let mut station = Station::new();
    assert_eq!(station.step(Event::Done), Action::InitDisplay);
    assert_eq!(station.stage(), Stage::DisplayInit);
    assert_eq!(station.step(Event::Done), Action::ClearDisplay);
    assert_eq!(station.stage(), Stage::DisplayClear);
    assert_eq!(station.step(Event::Done), Action::Measure);
    assert_eq!(station.stage(), Stage::Measuring);
}

#[test]
fn one_cycle_measures_renders_and_waits() {
    let mut station = running();
    let action = station.step(Event::Reading { temperature: 23, humidity: 45 });
    assert_eq!(
        frame_of(&action),
        "T:   23C                        H:   45%                        "
    );
    assert_eq!(station.stage(), Stage::Rendering { temperature: 23, humidity: 45 });
    assert_eq!(station.step(Event::Done), Action::Wait { cycles: 84_000_000 });
    assert_eq!(station.stage(), Stage::Waiting);
    assert_eq!(station.step(Event::Done), Action::Measure);
    assert_eq!(station.stage(), Stage::Measuring);
    let action = station.step(Event::Reading { temperature: 5, humidity: 8 });
    assert_eq!(
        frame_of(&action),
        "T:   05C                        H:   08%                        "
    );
}

#[test]
fn sensor_init_failure_halts_before_the_display() {
    let mut station = Station::new();
    assert_eq!(station.step(Event::Failed), Action::Halt(Fault::InitError));
    assert_eq!(station.stage(), Stage::Halted(Fault::InitError));
    for event in [
        Event::Done,
        Event::Failed,
        Event::Reading { temperature: 1, humidity: 2 },
        Event::Done,
    ] {
        let action = station.step(event);
        assert_ne!(action, Action::InitDisplay);
        assert_eq!(action, Action::Halt(Fault::InitError));
    }
}

#[test]
fn display_init_failure_is_an_init_error() {
    let mut station = Station::new();
    station.step(Event::Done);
    assert_eq!(station.step(Event::Failed), Action::Halt(Fault::InitError));
    assert_eq!(station.stage(), Stage::Halted(Fault::InitError));
}

#[test]
fn clear_failure_is_an_io_error() {
    let mut station = Station::new();
    station.step(Event::Done);
    station.step(Event::Done);
    assert_eq!(station.step(Event::Failed), Action::Halt(Fault::IoError));
}

#[test]
fn measure_failure_is_a_measure_error() {
    let mut station = running();
    assert_eq!(station.step(Event::Failed), Action::Halt(Fault::MeasureError));
    let mut station = running();
    assert_eq!(station.step(Event::Done), Action::Halt(Fault::MeasureError));
}

#[test]
fn render_failure_is_an_io_error() {
    let mut station = running();
    station.step(Event::Reading { temperature: 23, humidity: 45 });
    assert_eq!(station.step(Event::Failed), Action::Halt(Fault::IoError));
    assert_eq!(station.step(Event::Done), Action::Halt(Fault::IoError));
}

#[test]
fn readings_that_do_not_fit_halt_the_station() {
    for (temperature, humidity) in [(100, 45), (23, 100), (255, 255), (100, 100)] {
        let mut station = running();
        assert_eq!(
            station.step(Event::Reading { temperature, humidity }),
            Action::Halt(Fault::RangeError)
        );
        assert_eq!(station.stage(), Stage::Halted(Fault::RangeError));
    }
    let mut station = running();
    let action = station.step(Event::Reading { temperature: 99, humidity: 99 });
    assert_eq!(
        frame_of(&action),
        "T:   99C                        H:   99%                        "
    );
}

#[test]
fn a_report_that_fits_no_success_counts_as_failure() {
    let reading = Event::Reading { temperature: 1, humidity: 2 };
    assert_eq!(advance(Stage::SensorInit, reading), Stage::Halted(Fault::InitError));
    assert_eq!(advance(Stage::DisplayInit, reading), Stage::Halted(Fault::InitError));
    assert_eq!(advance(Stage::DisplayClear, reading), Stage::Halted(Fault::IoError));
    assert_eq!(
        advance(Stage::Rendering { temperature: 1, humidity: 2 }, reading),
        Stage::Halted(Fault::IoError)
    );
}

#[test]
fn the_wait_cannot_fail() {
    let reading = Event::Reading { temperature: 1, humidity: 2 };
    for event in [Event::Done, Event::Failed, reading] {
        assert_eq!(advance(Stage::Waiting, event), Stage::Measuring);
    }
}

#[test]
fn halted_is_final_for_every_fault() {
    let reading = Event::Reading { temperature: 1, humidity: 2 };
    for fault in [Fault::InitError, Fault::MeasureError, Fault::IoError, Fault::RangeError] {
        for event in [Event::Done, Event::Failed, reading] {
            assert_eq!(advance(Stage::Halted(fault), event), Stage::Halted(fault));
        }
    }
}

#[test]
fn advance_follows_the_table() {
    let t = 23;
    let h = 45;
    let reading = Event::Reading { temperature: t, humidity: h };
    let table = [
        (Stage::SensorInit, Event::Done, Stage::DisplayInit),
        (Stage::SensorInit, Event::Failed, Stage::Halted(Fault::InitError)),
        (Stage::DisplayInit, Event::Done, Stage::DisplayClear),
        (Stage::DisplayInit, Event::Failed, Stage::Halted(Fault::InitError)),
        (Stage::DisplayClear, Event::Done, Stage::Measuring),
        (Stage::DisplayClear, Event::Failed, Stage::Halted(Fault::IoError)),
        (Stage::Measuring, reading, Stage::Rendering { temperature: t, humidity: h }),
        (Stage::Measuring, Event::Failed, Stage::Halted(Fault::MeasureError)),
        (Stage::Measuring, Event::Done, Stage::Halted(Fault::MeasureError)),
        (Stage::Rendering { temperature: t, humidity: h }, Event::Done, Stage::Waiting),
        (
            Stage::Rendering { temperature: t, humidity: h },
            Event::Failed,
            Stage::Halted(Fault::IoError),
        ),
        (Stage::Waiting, Event::Done, Stage::Measuring),
    ];
    for (stage, event, expected) in table {
        assert_eq!(advance(stage, event), expected);
    }
}

/// A display that keeps every glyph until it is overwritten, and writes
/// where the last write ended, wrapping round.
struct Panel {
    cells: [char; CAPACITY],
    cursor: usize,
}

impl Panel {
    fn write(&mut self, text: &str) {
        for c in text.chars() {
            self.cells[self.cursor] = c;
            self.cursor = (self.cursor + 1) % CAPACITY;
        }
    }

    fn shown(&self) -> String {
        self.cells.iter().collect()
    }
}

#[test]
fn frames_overwrite_each_other_without_a_clear() {
    let mut panel = Panel { cells: ['#'; CAPACITY], cursor: 0 };
    let mut station = running();
    for (temperature, humidity) in [(23, 45), (5, 8), (99, 0), (0, 99)] {
        let action = station.step(Event::Reading { temperature, humidity });
        panel.write(frame_of(&action));
        assert_eq!(panel.cursor, 0);
        assert_eq!(
            panel.shown(),
            format!(
                "T:   {:02}C                        H:   {:02}%                        ",
                temperature, humidity
            )
        );
        station.step(Event::Done);
        station.step(Event::Done);
    }
}

/// The two drivers of a station on one bus: the log is the wire.
fn drive(
    bus: &mut Arbiter<Vec<String>>,
    sensor: &Proxy,
    display: &Proxy,
    station: &mut Station,
    reports: &[Event],
) -> Vec<Action> {
    let mut actions = vec![station.pending()];
    for &report in reports {
        let (proxy, address, label) = match actions.last().unwrap() {
            Action::InitSensor { address } => (Some(sensor), *address, "sensor init"),
            Action::Measure => (Some(sensor), SENSOR_ADDRESS, "measure"),
            Action::InitDisplay => (Some(display), 0x3C, "display init"),
            Action::ClearDisplay => (Some(display), 0x3C, "clear"),
            Action::Render(_) => (Some(display), 0x3C, "render"),
            Action::Wait { .. } | Action::Halt(_) => (None, 0, ""),
        };
        if let Some(proxy) = proxy {
            bus.start(proxy, address).unwrap().push(format!("start {:#x}", address));
            bus.write(proxy, &[0]).unwrap().push(label.to_string());
            bus.stop(proxy).unwrap().push("stop".to_string());
        }
        actions.push(station.step(report));
    }
    actions
}

#[test]
fn a_station_on_a_shared_bus_runs_its_first_cycle() {
    let mut bus = Arbiter::create(Vec::new());
    let sensor = bus.acquire();
    let display = bus.acquire();
    let mut station = Station::new();
    let reports = [
        Event::Done,
        Event::Done,
        Event::Done,
        Event::Reading { temperature: 23, humidity: 45 },
        Event::Done,
        Event::Done,
    ];
    let actions = drive(&mut bus, &sensor, &display, &mut station, &reports);
    assert_eq!(actions.len(), 7);
    assert_eq!(actions[0], Action::InitSensor { address: 0x76 });
    assert_eq!(actions[1], Action::InitDisplay);
    assert_eq!(actions[2], Action::ClearDisplay);
    assert_eq!(actions[3], Action::Measure);
    assert!(frame_of(&actions[4]).starts_with("T:   23C"));
    assert_eq!(actions[5], Action::Wait { cycles: REFRESH_CYCLES });
    assert_eq!(actions[6], Action::Measure);
    let wire = bus.start(&sensor, 0x76).unwrap().clone();
    assert_eq!(
        wire,
        [
            "start 0x76", "sensor init", "stop",
            "start 0x3c", "display init", "stop",
            "start 0x3c", "clear", "stop",
            "start 0x76", "measure", "stop",
            "start 0x3c", "render", "stop",
        ]
    );
}

#[test]
fn a_station_whose_sensor_is_silent_never_touches_the_display() {
    let mut bus = Arbiter::create(Vec::new());
    let sensor = bus.acquire();
    let display = bus.acquire();
    let mut station = Station::new();
    let reports = [Event::Failed, Event::Done, Event::Done, Event::Done];
    let actions = drive(&mut bus, &sensor, &display, &mut station, &reports);
    assert_eq!(actions[0], Action::InitSensor { address: 0x76 });
    for action in &actions[1..] {
        assert_eq!(*action, Action::Halt(Fault::InitError));
    }
    let wire = bus.start(&display, 0x3C).unwrap().clone();
    assert_eq!(wire, ["start 0x76", "sensor init", "stop"]);
}
