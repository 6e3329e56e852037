use govee::sunlight::{parse_time, resolve_times, solar_phase, SolarPhase, TimeOfDay, TimeSource};

fn t(h: u32, m: u32) -> TimeOfDay {
    TimeOfDay::new(h, m).unwrap()
}

fn fraction(p: govee::sunlight::Progress) -> f64 {
    p.offset as f64 / p.width as f64
}

#[test]
fn test_solar_phase_midday() {
    let phase = solar_phase(t(12, 0), t(7, 0), t(19, 0), 60);
    assert_eq!(phase, SolarPhase::Day);
}

#[test]
fn test_solar_phase_midnight() {
    let phase = solar_phase(t(2, 0), t(7, 0), t(19, 0), 60);
    assert_eq!(phase, SolarPhase::Night);
}

#[test]
fn test_solar_phase_late_night() {
    let phase = solar_phase(t(23, 0), t(7, 0), t(19, 0), 60);
    assert_eq!(phase, SolarPhase::Night);
}

#[test]
fn test_solar_phase_dawn_midpoint() {
    let phase = solar_phase(t(7, 0), t(7, 0), t(19, 0), 60);
    match phase {
        SolarPhase::Dawn(p) => assert!((fraction(p) - 0.5).abs() < 0.02),
        other => panic!("expected Dawn, got {other:?}"),
    }
}

#[test]
fn test_solar_phase_dusk_midpoint() {
    let phase = solar_phase(t(19, 0), t(7, 0), t(19, 0), 60);
    match phase {
        SolarPhase::Dusk(p) => assert!((fraction(p) - 0.5).abs() < 0.02),
        other => panic!("expected Dusk, got {other:?}"),
    }
}

#[test]
fn test_solar_phase_dawn_start() {
    let phase = solar_phase(t(6, 30), t(7, 0), t(19, 0), 60);
    match phase {
        SolarPhase::Dawn(p) => assert!(fraction(p) < 0.02),
        other => panic!("expected Dawn(~0), got {other:?}"),
    }
}

#[test]
fn test_solar_phase_dusk_end() {
    let phase = solar_phase(t(19, 29), t(7, 0), t(19, 0), 60);
    match phase {
        SolarPhase::Dusk(p) => assert!(fraction(p) > 0.95),
        other => panic!("expected Dusk(~1), got {other:?}"),
    }
}

#[test]
fn test_solar_phase_dusk_wraps_past_midnight() {
    let phase = solar_phase(t(0, 0), t(7, 0), t(23, 50), 60);
    match phase {
        SolarPhase::Dusk(p) => assert!((fraction(p) - 2.0 / 3.0).abs() < 0.05),
        other => panic!("expected Dusk, got {other:?}"),
    }
    assert_eq!(solar_phase(t(0, 30), t(7, 0), t(23, 50), 60), SolarPhase::Night);
    match solar_phase(t(23, 30), t(7, 0), t(23, 50), 60) {
        SolarPhase::Dusk(p) => assert!((fraction(p) - 1.0 / 6.0).abs() < 0.05),
        other => panic!("expected Dusk, got {other:?}"),
    }
}

#[test]
fn test_solar_phase_dawn_wraps_past_midnight() {
    match solar_phase(t(23, 55), t(0, 10), t(12, 0), 60) {
        SolarPhase::Dawn(p) => assert!((fraction(p) - 0.25).abs() < 0.05),
        other => panic!("expected Dawn, got {other:?}"),
    }
    match solar_phase(t(0, 25), t(0, 10), t(12, 0), 60) {
        SolarPhase::Dawn(p) => assert!((fraction(p) - 0.75).abs() < 0.05),
        other => panic!("expected Dawn, got {other:?}"),
    }
}

#[test]
fn sunrise_is_exactly_half_way_through_dawn() {
    match solar_phase(t(6, 15), t(6, 15), t(20, 0), 90) {
        SolarPhase::Dawn(p) => {
            assert_eq!(p.offset, 45);
            assert_eq!(p.width, 90);
        }
        other => panic!("expected Dawn, got {other:?}"),
    }
}

#[test]
fn no_transition_means_day_or_night() {
    assert_eq!(solar_phase(t(7, 0), t(7, 0), t(19, 0), 0), SolarPhase::Day);
    assert_eq!(solar_phase(t(18, 59), t(7, 0), t(19, 0), 0), SolarPhase::Day);
    assert_eq!(solar_phase(t(19, 0), t(7, 0), t(19, 0), 0), SolarPhase::Night);
}

#[test]
fn time_of_day_range() {
    assert!(TimeOfDay::new(23, 59).is_some());
    assert!(TimeOfDay::new(24, 0).is_none());
    assert!(TimeOfDay::new(0, 60).is_none());
}

#[test]
fn parse_time_accepts_and_explains() {
    assert_eq!(parse_time("06:45"), Ok(t(6, 45)));
    assert_eq!(parse_time("7:5"), Ok(t(7, 5)));
    assert_eq!(parse_time("+7:05"), Ok(t(7, 5)));
    assert_eq!(parse_time("0700"), Err("invalid time '0700': expected HH:MM".to_string()));
    assert_eq!(parse_time("x:00"), Err("invalid hour 'x': expected HH:MM".to_string()));
    assert_eq!(parse_time("07:5a"), Err("invalid minute '5a': expected HH:MM".to_string()));
    assert_eq!(
        parse_time("25:7"),
        Err("invalid time 25:07: hour 0-23, minute 0-59".to_string())
    );
    assert_eq!(parse_time("1:2:3"), Err("invalid minute '2:3': expected HH:MM".to_string()));
}

#[test]
fn resolve_times_prefers_manual_times() {
    assert_eq!(
        resolve_times(Some("06:00"), Some("21:30"), true),
        Ok(TimeSource::Manual(t(6, 0), t(21, 30)))
    );
    assert_eq!(resolve_times(Some("06:00"), None, true), Ok(TimeSource::Solar));
    assert_eq!(
        resolve_times(None, Some("21:30"), false),
        Err("no location info: provide --lat/--lon or --sunrise/--sunset".to_string())
    );
    assert_eq!(
        resolve_times(Some("6"), Some("21:30"), false),
        Err("invalid time '6': expected HH:MM".to_string())
    );
}

#[test]
fn every_written_time_reads_back() {
    for h in 0..24u32 {
        for m in 0..60u32 {
            let text = format!("{:02}:{:02}", h, m);
            assert_eq!(parse_time(&text), Ok(t(h, m)));
        }
    }
}
