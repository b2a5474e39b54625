use race_board::utils::format_channel;
use race_board::utils::format_laptime;
use race_board::utils::format_minutes_time;
use race_board::utils::format_temp;
use race_board::utils::i64_dec;
use race_board::utils::u64_dec;
use race_board::utils::u64_pad2;
use race_board::utils::u64_pad3;
use race_board::utils::ChannelRef;

#[test]
fn laptime_zero_is_sentinel() {
    assert_eq!(format_laptime(0), "--:--.---");
}

#[test]
fn laptime_negative_is_sentinel() {
    assert_eq!(format_laptime(-5000), "--:--.---");
}

#[test]
fn laptime_minute_five_seconds_millis() {
    assert_eq!(format_laptime(65321), "1:05.321");
}

#[test]
fn laptime_from_float_seconds() {
    let seconds: f64 = 65.321;
    let ms: i64 = (seconds * 1000.0).round() as i64;
    assert_eq!(format_laptime(ms), "1:05.321");
}

#[test]
fn laptime_sub_second() {
    assert_eq!(format_laptime(500), "0:00.500");
}

#[test]
fn laptime_pads_millis() {
    assert_eq!(format_laptime(60_007), "1:00.007");
}

#[test]
fn minutes_time_zero_is_sentinel() {
    assert_eq!(format_minutes_time(0), "--:--");
}

#[test]
fn minutes_time_negative_is_sentinel() {
    assert_eq!(format_minutes_time(-1), "--:--");
}

#[test]
fn minutes_time_two_oh_five() {
    assert_eq!(format_minutes_time(125_000), "2:05");
}

#[test]
fn minutes_time_truncates_fraction() {
    assert_eq!(format_minutes_time(125_900), "2:05");
}

#[test]
fn temp_twenty_celsius() {
    assert_eq!(format_temp(2000), "20.00°C / 68°F");
}

#[test]
fn temp_negative() {
    assert_eq!(format_temp(-525), "-5.25°C / 23°F");
}

#[test]
fn temp_rounds_ties_to_even() {
    // 27.50 °C is exactly 81.5 °F; the displayed reading goes to the even 82.
    assert_eq!(format_temp(2750), "27.50°C / 82°F");
}

#[test]
fn temp_fraction_pads_two_digits() {
    assert_eq!(format_temp(2103), "21.03°C / 70°F");
}

#[test]
fn temp_fahrenheit_negative_zero() {
    // -17.90 °C is -0.22 °F, shown rounded with its sign kept.
    assert_eq!(format_temp(-1790), "-17.90°C / -0°F");
}

#[test]
fn laptime_whole_minute() {
    assert_eq!(format_laptime(60_000), "1:00.000");
}

#[test]
fn minutes_time_under_a_minute() {
    assert_eq!(format_minutes_time(59_999), "0:59");
}

#[test]
fn channel_reference() {
    let chan = ChannelRef { guild_id: 692, channel_id: 105 };
    assert_eq!(format_channel(&chan), "\"692\" (id: 105)");
}

#[test]
fn decimal_unsigned_max() {
    assert_eq!(u64_dec(u64::MAX), "18446744073709551615");
}

#[test]
fn decimal_signed_min() {
    assert_eq!(i64_dec(i64::MIN), "-9223372036854775808");
}

#[test]
fn decimal_negative() {
    assert_eq!(i64_dec(-42), "-42");
}

#[test]
fn padding_widths() {
    assert_eq!(u64_pad2(7), "07");
    assert_eq!(u64_pad2(70), "70");
    assert_eq!(u64_pad3(7), "007");
    assert_eq!(u64_pad3(70), "070");
    assert_eq!(u64_pad3(700), "700");
}
