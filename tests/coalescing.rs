use good_days_to_bike::message::bike_report;
use good_days_to_bike::period::ForecastPeriod;
use good_days_to_bike::window::{bike_windows, coalesce};

fn period(start: &str, end: &str, daytime: bool, precip: i64, temp: i64, wind: &str) -> ForecastPeriod {
    ForecastPeriod {
        start_time: start.to_string(),
        end_time: end.to_string(),
        is_daytime: daytime,
        temperature: temp,
        precipitation_probability: Some(precip),
        wind_speed: wind.to_string(),
    }
}

fn hour(h: u32) -> String {
    format!("2023-06-01T{:02}:00:00-04:00", h)
}

#[test]
fn adjacent_periods_merge() {
    let ps = vec![
        period(&hour(9), &hour(10), true, 10, 60, "10 mph"),
        period(&hour(10), &hour(11), true, 5, 72, "4 mph"),
    ];
    let ws = coalesce(&ps);
    assert_eq!(ws.len(), 1);
    assert_eq!(ws[0].start_time, hour(9));
    assert_eq!(ws[0].end_time, hour(11));
    assert_eq!(ws[0].max_temperature, 72);
    assert_eq!(ws[0].max_precipitation_probability, 10);
    assert_eq!(ws[0].max_wind_speed, 10);
}

#[test]
fn gap_keeps_two_windows() {
    let ps = vec![
        period(&hour(9), &hour(10), true, 10, 60, "10 mph"),
        period(&hour(11), &hour(12), true, 5, 72, "4 mph"),
    ];
    let ws = coalesce(&ps);
    assert_eq!(ws.len(), 2);
    assert_eq!(ws[0].start_time, hour(9));
    assert_eq!(ws[0].end_time, hour(10));
    assert_eq!(ws[0].max_temperature, 60);
    assert_eq!(ws[1].start_time, hour(11));
    assert_eq!(ws[1].end_time, hour(12));
    assert_eq!(ws[1].max_temperature, 72);
    assert_eq!(ws[1].max_wind_speed, 4);
}

#[test]
fn empty_input_gives_no_windows() {
    assert!(coalesce(&vec![]).is_empty());
    assert!(bike_windows(&vec![]).is_empty());
}

#[test]
fn output_windows_never_touch_and_recoalesce_unchanged() {
    let ps = vec![
        period(&hour(8), &hour(9), true, 1, 60, "3 mph"),
        period(&hour(9), &hour(10), true, 2, 61, "4 mph"),
        period(&hour(11), &hour(12), true, 3, 62, "5 mph"),
        period(&hour(13), &hour(14), true, 4, 63, "6 mph"),
        period(&hour(14), &hour(15), true, 5, 64, "7 mph"),
    ];
    let ws = coalesce(&ps);
    assert_eq!(ws.len(), 3);
    for i in 0..ws.len() - 1 {
        assert_ne!(ws[i].end_time, ws[i + 1].start_time);
    }
    let again: Vec<ForecastPeriod> = ws
        .iter()
        .map(|w| ForecastPeriod {
            start_time: w.start_time.clone(),
            end_time: w.end_time.clone(),
            is_daytime: true,
            temperature: w.max_temperature,
            precipitation_probability: Some(w.max_precipitation_probability),
            wind_speed: format!("{} mph", w.max_wind_speed),
        })
        .collect();
    let ws2 = coalesce(&again);
    assert_eq!(ws2.len(), ws.len());
    for i in 0..ws.len() {
        assert_eq!(ws2[i].start_time, ws[i].start_time);
        assert_eq!(ws2[i].end_time, ws[i].end_time);
        assert_eq!(ws2[i].max_temperature, ws[i].max_temperature);
        assert_eq!(ws2[i].max_precipitation_probability, ws[i].max_precipitation_probability);
        assert_eq!(ws2[i].max_wind_speed, ws[i].max_wind_speed);
    }
}

#[test]
fn three_good_hours_make_one_window_and_one_line() {
    let ps = vec![
        period(&hour(9), &hour(10), true, 10, 60, "10 mph"),
        period(&hour(10), &hour(11), true, 5, 70, "15 mph"),
        period(&hour(11), &hour(12), true, 20, 66, "5 to 10 mph"),
    ];
    let ws = bike_windows(&ps);
    assert_eq!(ws.len(), 1);
    assert_eq!(ws[0].start_time, hour(9));
    assert_eq!(ws[0].end_time, hour(12));
    assert_eq!(ws[0].max_temperature, 70);
    assert_eq!(ws[0].max_precipitation_probability, 20);
    assert_eq!(ws[0].max_wind_speed, 15);
    let msg = bike_report(&ps).unwrap();
    assert_eq!(
        msg,
        "☀️Good bike times in the next 7 days☀️\n🚲 Thursday, June 01 09:00AM - 12:00PM temp 70F precipitation 20% wind speed 15 mph"
    );
    assert_eq!(msg.lines().count(), 2);
}

#[test]
fn second_and_fourth_of_five_give_two_windows() {
    let ps = vec![
        period(&hour(8), &hour(9), false, 10, 60, "10 mph"),
        period(&hour(9), &hour(10), true, 10, 60, "10 mph"),
        period(&hour(10), &hour(11), true, 60, 60, "10 mph"),
        period(&hour(11), &hour(12), true, 5, 75, "18 mph"),
        period(&hour(12), &hour(13), true, 10, 90, "2 mph"),
    ];
    let ws = bike_windows(&ps);
    assert_eq!(ws.len(), 2);
    assert_eq!(ws[0].start_time, hour(9));
    assert_eq!(ws[0].end_time, hour(10));
    assert_eq!(ws[0].max_temperature, 60);
    assert_eq!(ws[1].start_time, hour(11));
    assert_eq!(ws[1].end_time, hour(12));
    assert_eq!(ws[1].max_temperature, 75);
    assert_eq!(ws[1].max_wind_speed, 18);
}

#[test]
fn runs_split_by_a_gap_coalesce_separately() {
    let first = vec![
        period(&hour(6), &hour(7), true, 1, 55, "3 mph"),
        period(&hour(7), &hour(8), true, 9, 57, "8 mph"),
    ];
    let second = vec![
        period(&hour(9), &hour(10), true, 4, 70, "12 mph"),
        period(&hour(10), &hour(11), true, 2, 68, "14 mph"),
    ];
    let mut both = coalesce(&first);
    both.extend(coalesce(&second));
    let all: Vec<ForecastPeriod> = first.into_iter().chain(second.into_iter()).collect();
    let ws = coalesce(&all);
    assert_eq!(ws.len(), both.len());
    assert_eq!(ws.len(), 2);
    for i in 0..ws.len() {
        assert_eq!(ws[i].start_time, both[i].start_time);
        assert_eq!(ws[i].end_time, both[i].end_time);
        assert_eq!(ws[i].max_temperature, both[i].max_temperature);
        assert_eq!(ws[i].max_wind_speed, both[i].max_wind_speed);
    }
    assert_eq!(ws[0].max_precipitation_probability, 9);
    assert_eq!(ws[1].max_wind_speed, 14);
}
