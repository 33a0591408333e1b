use farmgrid::simulation_time::{
    SimulationDate, SimulationState, SimulationTime, SECONDS_PER_DAY, SECONDS_PER_HOUR,
    SECONDS_PER_MINUTE, SECONDS_PER_MONTH, SECONDS_PER_YEAR, START_OFFSET,
};

#[test]
fn fresh_clock_reads_zero_at_scale_one() {
    let clock = SimulationTime::default();
    assert_eq!(clock.elapsed_seconds(), 0);
    assert_eq!(clock.delta_seconds(), 0);
    assert_eq!(clock.scale(), 1);
}

#[test]
fn advancing_accumulates_scaled_deltas() {
    let mut clock = SimulationTime::default();
    clock.advance(5);
    assert_eq!(clock.elapsed_seconds(), 5);
    assert_eq!(clock.delta_seconds(), 5);
    clock.advance(7);
    assert_eq!(clock.elapsed_seconds(), 12);
    assert_eq!(clock.delta_seconds(), 7);
}

#[test]
fn a_paused_clock_is_simply_not_advanced() {
    let mut clock = SimulationTime::default();
    let state = SimulationState::Paused;
    if state == SimulationState::Running {
        clock.advance(60);
    }
    assert_eq!(clock.elapsed_seconds(), 0);
}

#[test]
fn date_constants_are_consistent() {
    assert_eq!(SECONDS_PER_HOUR, SECONDS_PER_MINUTE * 60);
    assert_eq!(SECONDS_PER_DAY, SECONDS_PER_HOUR * 24);
    assert_eq!(SECONDS_PER_MONTH, SECONDS_PER_DAY * 28);
    assert_eq!(SECONDS_PER_YEAR, SECONDS_PER_MONTH * 4);
    assert_eq!(START_OFFSET, SECONDS_PER_HOUR * 8);
}

#[test]
fn default_date_is_the_first_morning() {
    let date = SimulationDate::default();
    assert_eq!(
        (date.year, date.month, date.day, date.hour, date.minute, date.second),
        (1, 1, 1, 8, 0, 0)
    );
}

#[test]
fn a_fresh_clock_reads_eight_in_the_morning() {
    let date = SimulationDate::from_time(&SimulationTime::default());
    assert_eq!(
        (date.year, date.month, date.day, date.hour, date.minute, date.second),
        (0, 0, 0, 8, 0, 0)
    );
}

#[test]
fn date_breaks_elapsed_seconds_into_calendar_units() {
    let mut clock = SimulationTime::default();
    // One year, two months, three days, four hours, five minutes and six
    // seconds past the start of the calendar, minus the morning offset the
    // calendar begins with.
    clock.advance(
        SECONDS_PER_YEAR + 2 * SECONDS_PER_MONTH + 3 * SECONDS_PER_DAY + 4 * SECONDS_PER_HOUR
            + 5 * SECONDS_PER_MINUTE + 6 - START_OFFSET,
    );
    let date = SimulationDate::from_time(&clock);
    assert_eq!(
        (date.year, date.month, date.day, date.hour, date.minute, date.second),
        (1, 2, 3, 4, 5, 6)
    );
}

#[test]
fn an_hour_before_midnight_rolls_no_units_early() {
    let mut clock = SimulationTime::default();
    clock.advance(SECONDS_PER_DAY - START_OFFSET - 1);
    let date = SimulationDate::from_time(&clock);
    assert_eq!(
        (date.year, date.month, date.day, date.hour, date.minute, date.second),
        (0, 0, 0, 23, 59, 59)
    );
    clock.advance(1);
    let date = SimulationDate::from_time(&clock);
    assert_eq!(
        (date.year, date.month, date.day, date.hour, date.minute, date.second),
        (0, 0, 1, 0, 0, 0)
    );
}
