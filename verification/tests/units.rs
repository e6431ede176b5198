use citybound::units::{
    Duration, Instant, Ticks, TimeOfDay, TimeOfDayRange, TICKS_PER_SIM_MINUTE,
    TICKS_PER_SIM_SECOND,
};

#[test]
fn duration_construction_and_units() {
    let seconds = Duration::from_seconds(90);
    let minutes = Duration::from_minutes(2);
    let hours = Duration::from_hours(1);

    assert_eq!(seconds.0, 90);
    assert_eq!(minutes.0, 120);
    assert_eq!(hours.0, 3_600);
}

#[test]
fn duration_arithmetic_and_ticks_conversion() {
    let mut total = Duration::from_minutes(1);
    total += Duration::from_seconds(30);
    assert_eq!(total, Duration::from_seconds(90));

    let sum = Duration::from_seconds(20) + Duration::from_seconds(40);
    assert_eq!(sum, Duration::from_seconds(60));

    let ticks: Ticks = Ticks::from_duration(Duration::from_seconds(2));
    assert_eq!(ticks.0, 2 * TICKS_PER_SIM_SECOND);
}

#[test]
fn instant_arithmetic_with_duration_and_ticks() {
    let mut instant = Instant::new(10);
    assert_eq!(instant.ticks(), 10);
    assert_eq!(instant.iticks(), 10);

    instant += Duration::from_seconds(2);
    assert_eq!(instant.ticks(), 16);

    instant += Ticks(4);
    assert_eq!(instant.ticks(), 20);

    instant -= Duration::from_seconds(1);
    assert_eq!(instant.ticks(), 17);

    instant -= Ticks(2);
    assert_eq!(instant.ticks(), 15);

    let later = Instant::new(100) + Duration::from_seconds(10);
    assert_eq!(later.ticks(), 130);

    let earlier = later - Duration::from_seconds(5);
    assert_eq!(earlier.ticks(), 115);
}

#[test]
fn time_of_day_round_trip_and_wrapping() {
    let morning = TimeOfDay::new(8, 45);
    assert_eq!(morning.hours_minutes(), (8, 45));
    assert_eq!(morning.to_string(), "8 : 45");
    assert_eq!(morning.to_string(), "8 : 45");

    let wrapped_earlier = TimeOfDay::new(1, 15).earlier_by(Duration::from_hours(2));
    assert_eq!(wrapped_earlier.hours_minutes(), (23, 15));

    let wrapped_later = TimeOfDay::new(23, 50).later_by(Duration::from_minutes(15));
    assert_eq!(wrapped_later.hours_minutes(), (0, 5));
}

#[test]
fn time_of_day_from_instant_and_arithmetic() {
    let start = TimeOfDay::from(Instant::new(0));
    assert_eq!(start.hours_minutes(), (7, 0));

    let one_sim_hour = Instant::new((TICKS_PER_SIM_MINUTE as usize) * 60);
    let hour_later = TimeOfDay::from(one_sim_hour);
    assert_eq!(hour_later.hours_minutes(), (8, 0));

    let mut time = TimeOfDay::new(10, 0);
    time += Duration::from_minutes(30);
    assert_eq!(time.hours_minutes(), (10, 30));

    time -= Duration::from_minutes(15);
    assert_eq!(time.hours_minutes(), (10, 15));

    let added = TimeOfDay::new(12, 0) + Duration::from_minutes(45);
    assert_eq!(added.hours_minutes(), (12, 45));

    let subtracted = added - Duration::from_minutes(30);
    assert_eq!(subtracted.hours_minutes(), (12, 15));
}

#[test]
fn time_of_day_range_contains_and_end_logic() {
    let day_shift = TimeOfDayRange::new(9, 0, 17, 0);
    assert!(day_shift.contains(TimeOfDay::new(9, 0)));
    assert!(day_shift.contains(TimeOfDay::new(12, 0)));
    assert!(day_shift.contains(TimeOfDay::new(17, 0)));
    assert!(!day_shift.contains(TimeOfDay::new(8, 59)));
    assert!(!day_shift.contains(TimeOfDay::new(17, 1)));
    assert!(day_shift.end_after_on_same_day(TimeOfDay::new(16, 59)));
    assert!(!day_shift.end_after_on_same_day(TimeOfDay::new(17, 1)));

    let night_shift = TimeOfDayRange::new(22, 0, 2, 0);
    assert!(night_shift.contains(TimeOfDay::new(23, 30)));
    assert!(night_shift.contains(TimeOfDay::new(1, 30)));
    assert!(!night_shift.contains(TimeOfDay::new(12, 0)));
    assert!(night_shift.end_after_on_same_day(TimeOfDay::new(23, 0)));
    assert!(night_shift.end_after_on_same_day(TimeOfDay::new(1, 0)));
    assert!(!night_shift.end_after_on_same_day(TimeOfDay::new(12, 0)));
}

#[test]
fn time_of_day_range_shifts() {
    let base = TimeOfDayRange::new(10, 0, 12, 0);

    let earlier = base.earlier_by(Duration::from_minutes(30));
    assert_eq!(earlier.start.hours_minutes(), (9, 30));
    assert_eq!(earlier.end.hours_minutes(), (11, 30));

    let later = base.later_by(Duration::from_minutes(45));
    assert_eq!(later.start.hours_minutes(), (10, 45));
    assert_eq!(later.end.hours_minutes(), (12, 45));
}

#[test]
fn duration_seconds_are_kept_in_32_bits() {
    assert_eq!(Duration::from_seconds(4_294_967_296 + 5).0, 5);
    assert_eq!(Instant::new(4_294_967_296 + 7).ticks(), 7);
}

#[test]
fn time_of_day_new_does_not_wrap_the_day() {
    let late = TimeOfDay::new(25, 10);
    assert_eq!(late.hours_minutes(), (25, 10));
    assert_eq!(late.later_by(Duration::from_seconds(0)).hours_minutes(), (1, 10));
}

#[test]
fn shifts_count_whole_minutes() {
    let t = TimeOfDay::new(10, 0);
    assert_eq!(t.later_by(Duration::from_seconds(119)).hours_minutes(), (10, 1));
    assert_eq!(t.earlier_by(Duration::from_seconds(59)).hours_minutes(), (10, 0));
    assert_eq!((t + Duration::from_seconds(119)).hours_minutes(), (10, 1));
    assert_eq!(t.earlier_by(Duration::from_hours(48 + 11)).hours_minutes(), (23, 0));
}

#[test]
fn later_then_earlier_gives_the_time_back() {
    let t = TimeOfDay::new(21, 37);
    let d = Duration::from_minutes(5 * 60 + 44);
    assert_eq!(t.later_by(d).earlier_by(d).hours_minutes(), (21, 37));
    assert_eq!(t.earlier_by(d).later_by(d).hours_minutes(), (21, 37));
}

#[test]
fn range_contains_its_ends() {
    let night = TimeOfDayRange::new(22, 0, 2, 0);
    assert!(night.contains(night.start));
    assert!(night.contains(night.end));
    let single = TimeOfDayRange::new(5, 5, 5, 5);
    assert!(single.contains(TimeOfDay::new(5, 5)));
    assert!(!single.contains(TimeOfDay::new(5, 6)));
}

#[test]
fn shifting_keeps_membership() {
    let day = TimeOfDayRange::new(9, 0, 17, 0);
    let d = Duration::from_hours(10);
    let shifted = day.later_by(d);
    for (h, m) in [(8, 59), (9, 0), (12, 0), (17, 0), (17, 1), (23, 59)] {
        let t = TimeOfDay::new(h, m);
        assert_eq!(shifted.contains(t.later_by(d)), day.contains(t));
        assert_eq!(day.earlier_by(d).contains(t.earlier_by(d)), day.contains(t));
    }
}

#[test]
fn time_of_day_follows_instants() {
    let i = Instant::new(12_345);
    let t = TimeOfDay::from(i);
    let minute_later = TimeOfDay::from(i + Ticks(TICKS_PER_SIM_MINUTE));
    assert_eq!(minute_later.hours_minutes(), t.later_by(Duration::from_minutes(1)).hours_minutes());
    let day_later = TimeOfDay::from(Instant::new(12_345 + 1_440 * TICKS_PER_SIM_MINUTE as usize));
    assert_eq!(day_later.hours_minutes(), t.hours_minutes());
}

#[test]
fn sub_undoes_add_on_instants() {
    let i = Instant::new(1_000);
    let d = Duration::from_seconds(77);
    assert_eq!((i + d) - d, i);
    let a = Duration::from_seconds(3);
    let b = Duration::from_seconds(4);
    assert_eq!((i + a) + b, i + (a + b));
}

#[test]
fn range_contains_the_time_of_an_instant() {
    let morning = TimeOfDayRange::new(7, 0, 8, 0);
    assert!(morning.contains_instant(Instant::new(0)));
    assert!(!morning.contains_instant(Instant::new(61 * TICKS_PER_SIM_MINUTE as usize)));
}

#[test]
fn time_of_day_sub_undoes_add() {
    let t = TimeOfDay::new(6, 20);
    let d = Duration::from_seconds(3 * 3600 + 59);
    assert_eq!(((t + d) - d).hours_minutes(), (6, 20));
}

#[test]
fn ticks_from_a_duration() {
    assert_eq!(Ticks::from(Duration::from_seconds(2)).0, 2 * TICKS_PER_SIM_SECOND);
    assert_eq!(Ticks::from(Duration::from_minutes(1)).0, TICKS_PER_SIM_MINUTE);
    assert_eq!(Ticks::from(Duration(0x8000_0000)).0, 0x8000_0000u32.wrapping_mul(TICKS_PER_SIM_SECOND));
}
