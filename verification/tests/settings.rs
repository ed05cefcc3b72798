use timegrapher::ui::defs::{AppSetting, AppSettingCollection, ParseFilter, ProcessError, Setting};
use timegrapher::ui::extras::{AudioSettings, AudioValues, NewError, PlotSettings};
use timegrapher::ui::reading::{read_decimal, read_digits, read_integer, read_natural};
use timegrapher::units::Decimal;

fn chars(text: &str) -> Vec<char> {
    text.chars().collect()
}

fn typed<T: ParseFilter>(text: &str, before: T) -> Setting<T> {
    let mut setting = Setting::new(before);
    setting.parse(text.to_string());
    setting
}

#[test]
fn filters_keep_what_can_be_part_of_a_value() {
    for c in "0123456789".chars() {
        assert!(<u32 as ParseFilter>::filter(c));
        assert!(<u64 as ParseFilter>::filter(c));
        assert!(<i32 as ParseFilter>::filter(c));
        assert!(<i64 as ParseFilter>::filter(c));
        assert!(<Decimal as ParseFilter>::filter(c));
    }
    for c in "/:aA +e٣".chars() {
        assert!(!<u32 as ParseFilter>::filter(c));
        assert!(!<u64 as ParseFilter>::filter(c));
        assert!(!<i32 as ParseFilter>::filter(c));
        assert!(!<i64 as ParseFilter>::filter(c));
        assert!(!<Decimal as ParseFilter>::filter(c));
        assert!(!<bool as ParseFilter>::filter(c));
    }
    assert!(!<u32 as ParseFilter>::filter('-'));
    assert!(!<u64 as ParseFilter>::filter('.'));
    assert!(<i32 as ParseFilter>::filter('-'));
    assert!(!<i32 as ParseFilter>::filter('.'));
    assert!(<i64 as ParseFilter>::filter('-'));
    assert!(<Decimal as ParseFilter>::filter('-'));
    assert!(<Decimal as ParseFilter>::filter('.'));
    assert!(<bool as ParseFilter>::filter('0'));
    assert!(<bool as ParseFilter>::filter('1'));
    assert!(!<bool as ParseFilter>::filter('2'));
}

#[test]
fn digits_are_read_in_base_ten() {
    assert_eq!(read_digits(&chars("x1234y"), 1, 5, u64::MAX), Some(1234));
    assert_eq!(read_digits(&chars("x1234y"), 1, 1, u64::MAX), Some(0));
    assert_eq!(read_digits(&chars("x1234y"), 0, 5, u64::MAX), None);
    assert_eq!(read_digits(&chars("1234"), 0, 4, 1234), Some(1234));
    assert_eq!(read_digits(&chars("1234"), 0, 4, 1233), None);
    assert_eq!(read_digits(&chars("0001234"), 0, 7, 1234), Some(1234));
    assert_eq!(read_digits(&chars("18446744073709551615"), 0, 20, u64::MAX), Some(u64::MAX));
    assert_eq!(read_digits(&chars("18446744073709551616"), 0, 20, u64::MAX), None);
    assert_eq!(read_digits(&chars("99999999999999999999999"), 0, 23, u64::MAX), None);
}

#[test]
fn naturals_need_a_digit() {
    assert_eq!(read_natural(&chars("42"), 100), Some(42));
    assert_eq!(read_natural(&chars("100"), 100), Some(100));
    assert_eq!(read_natural(&chars("101"), 100), None);
    assert_eq!(read_natural(&chars(""), 100), None);
    assert_eq!(read_natural(&chars("-1"), 100), None);
}

#[test]
fn integers_may_have_a_sign() {
    assert_eq!(read_integer(&chars("42"), -100, 100), Some(42));
    assert_eq!(read_integer(&chars("-42"), -100, 100), Some(-42));
    assert_eq!(read_integer(&chars("-0"), -100, 100), Some(0));
    assert_eq!(read_integer(&chars("-100"), -100, 100), Some(-100));
    assert_eq!(read_integer(&chars("-101"), -100, 100), None);
    assert_eq!(read_integer(&chars("101"), -100, 100), None);
    assert_eq!(read_integer(&chars(""), -100, 100), None);
    assert_eq!(read_integer(&chars("-"), -100, 100), None);
    assert_eq!(read_integer(&chars("--1"), -100, 100), None);
    assert_eq!(read_integer(&chars("1-2"), -100, 100), None);
    assert_eq!(read_integer(&chars("4-"), -100, 100), None);
    let min = chars("-9223372036854775808");
    assert_eq!(read_integer(&min, i64::MIN, i64::MAX), Some(i64::MIN));
    let max = chars("9223372036854775807");
    assert_eq!(read_integer(&max, i64::MIN, i64::MAX), Some(i64::MAX));
    assert_eq!(read_integer(&chars("9223372036854775808"), i64::MIN, i64::MAX), None);
    assert_eq!(read_integer(&chars("-9223372036854775809"), i64::MIN, i64::MAX), None);
}

#[test]
fn decimals_are_read_in_millionths() {
    let all = |text: &str| read_decimal(&chars(text), i64::MIN, i64::MAX);
    assert_eq!(all("5.0"), Some(5_000_000));
    assert_eq!(all("5"), Some(5_000_000));
    assert_eq!(all("5."), Some(5_000_000));
    assert_eq!(all(".5"), Some(500_000));
    assert_eq!(all("-.5"), Some(-500_000));
    assert_eq!(all("-60.0"), Some(-60_000_000));
    assert_eq!(all("0.01"), Some(10_000));
    assert_eq!(all("0.000001"), Some(1));
    assert_eq!(all("3.141592"), Some(3_141_592));
    assert_eq!(all("-0"), Some(0));
    assert_eq!(all("007.5"), Some(7_500_000));
}

#[test]
fn decimals_drop_digits_past_the_sixth_place() {
    let all = |text: &str| read_decimal(&chars(text), i64::MIN, i64::MAX);
    assert_eq!(all("3.1415926535"), Some(3_141_592));
    assert_eq!(all("0.0000009"), Some(0));
    assert_eq!(all("-0.9999999"), Some(-999_999));
    assert_eq!(all("1.00000000000000000000000000000000000001"), Some(1_000_000));
}

#[test]
fn decimals_that_spell_nothing() {
    let all = |text: &str| read_decimal(&chars(text), i64::MIN, i64::MAX);
    assert_eq!(all(""), None);
    assert_eq!(all("-"), None);
    assert_eq!(all("."), None);
    assert_eq!(all("-."), None);
    assert_eq!(all("1.2.3"), None);
    assert_eq!(all("1..2"), None);
    assert_eq!(all("1-2"), None);
    assert_eq!(all("--1"), None);
    assert_eq!(all("1.-2"), None);
    assert_eq!(all("1.5x"), None);
    assert_eq!(all("1.0000000x"), None);
    assert_eq!(all("x"), None);
}

#[test]
fn decimals_at_the_ends_of_the_range() {
    let all = |text: &str| read_decimal(&chars(text), i64::MIN, i64::MAX);
    assert_eq!(all("9223372036854.775807"), Some(i64::MAX));
    assert_eq!(all("9223372036854.775808"), None);
    assert_eq!(all("-9223372036854.775808"), Some(i64::MIN));
    assert_eq!(all("-9223372036854.775809"), None);
    assert_eq!(all("9223372036855"), None);
    assert_eq!(all("99999999999999999999999999"), None);
    assert_eq!(read_decimal(&chars("1.5"), -1_000_000, 1_500_000), Some(1_500_000));
    assert_eq!(read_decimal(&chars("1.500001"), -1_000_000, 1_500_000), None);
    assert_eq!(read_decimal(&chars("-1.000001"), -1_000_000, 1_500_000), None);
}

#[test]
fn setting_holds_its_value() {
    let mut setting: Setting<i32> = Setting::new(7);
    assert_eq!(*setting.get_value(), 7);
    setting.update_value(-3);
    assert_eq!(*setting.get_value(), -3);
    *setting.get_value_mut() = 11;
    assert_eq!(*setting.get_value(), 11);
}

#[test]
fn typing_sets_a_whole_number() {
    assert_eq!(*typed::<i32>("8000", 0).get_value(), 8000);
    assert_eq!(*typed::<i32>("-30", 0).get_value(), -30);
    assert_eq!(*typed::<i32>(" 1 6 0 0 0 Hz", 0).get_value(), 16000);
    assert_eq!(*typed::<i32>("1.5", 0).get_value(), 15);
    assert_eq!(*typed::<i32>("2147483647", 0).get_value(), i32::MAX);
    assert_eq!(*typed::<i32>("-2147483648", 0).get_value(), i32::MIN);
    assert_eq!(*typed::<i64>("-9223372036854775808", 0).get_value(), i64::MIN);
    assert_eq!(*typed::<u32>("4294967295", 0).get_value(), u32::MAX);
    assert_eq!(*typed::<u32>("-12", 0).get_value(), 12);
    assert_eq!(*typed::<u64>("18446744073709551615", 0).get_value(), u64::MAX);
}

#[test]
fn typing_what_spells_nothing_sets_the_fallback() {
    assert_eq!(*typed::<i32>("", 5).get_value(), 0);
    assert_eq!(*typed::<i32>("abc", 5).get_value(), 0);
    assert_eq!(*typed::<i32>("1-2", 5).get_value(), 0);
    assert_eq!(*typed::<i32>("-", 5).get_value(), 0);
    assert_eq!(*typed::<i32>("2147483648", 5).get_value(), 0);
    assert_eq!(*typed::<u32>("4294967296", 5).get_value(), 0);
    assert_eq!(*typed::<u64>("18446744073709551616", 5).get_value(), 0);
    assert_eq!(*typed::<i64>("9223372036854775808", 5).get_value(), 0);
    let nothing = typed::<Decimal>("1.2.3", Decimal { micros: 5 });
    assert_eq!(*nothing.get_value(), Decimal { micros: 0 });
}

#[test]
fn typing_sets_a_decimal() {
    let five = typed::<Decimal>("5.00", Decimal { micros: 0 });
    assert_eq!(*five.get_value(), Decimal { micros: 5_000_000 });
    let level = typed::<Decimal>("-60.0 dB", Decimal { micros: 0 });
    assert_eq!(*level.get_value(), Decimal { micros: -60_000_000 });
    let limit = typed::<Decimal>("0.01", Decimal { micros: 0 });
    assert_eq!(*limit.get_value(), Decimal { micros: 10_000 });
    // the letter is left out, and what is left spells 15
    let power = typed::<Decimal>("1e5", Decimal { micros: 0 });
    assert_eq!(*power.get_value(), Decimal { micros: 15_000_000 });
}

#[test]
fn typing_sets_a_switch_to_off() {
    for text in ["1", "0", "true", "false", "", "10", "yes"] {
        assert_eq!(*typed::<bool>(text, true).get_value(), false);
    }
}

#[test]
fn switch_reads_true_and_false() {
    assert_eq!(<bool as ParseFilter>::read(&chars("true")), Some(true));
    assert_eq!(<bool as ParseFilter>::read(&chars("false")), Some(false));
    assert_eq!(<bool as ParseFilter>::read(&chars("1")), None);
    assert_eq!(<bool as ParseFilter>::read(&chars("True")), None);
    assert_eq!(<bool as ParseFilter>::read(&chars("truee")), None);
    assert_eq!(<bool as ParseFilter>::read(&chars("")), None);
    assert_eq!(<bool as ParseFilter>::fallback_value(), false);
}

#[test]
fn audio_settings_defaults() {
    let settings = AudioSettings::default();
    assert!(!*settings.is_open());
    assert_eq!(
        settings.current(),
        AudioValues {
            sample_size: Decimal { micros: 5_000_000 },
            use_denoiser: true,
            noise_supr_level: 8000,
            use_agc: true,
            agc_level: 16000,
            cutoff: Decimal { micros: -60_000_000 },
        }
    );
}

#[test]
fn plot_settings_defaults() {
    let settings = PlotSettings::default();
    assert!(!*settings.is_open());
    assert_eq!(settings.current(), Decimal { micros: 10_000 });
}

#[test]
fn settings_window_opens() {
    let mut audio = AudioSettings::default();
    audio.open();
    assert!(*audio.is_open());
    *audio.is_open_mut() = false;
    assert!(!*audio.is_open());
    let mut plot = PlotSettings::default();
    plot.open();
    assert!(*plot.is_open());
    assert_eq!(plot.current(), Decimal { micros: 10_000 });
}

#[test]
fn settings_are_typed_one_by_one() {
    let mut audio = AudioSettings::default();
    audio.sample_size.parse("0.25".to_string());
    audio.noise_supr_level.parse("-15".to_string());
    audio.use_agc.update_value(false);
    let values = audio.current();
    assert_eq!(values.sample_size, Decimal { micros: 250_000 });
    assert_eq!(values.noise_supr_level, -15);
    assert!(!values.use_agc);
    assert!(values.use_denoiser);
    assert_eq!(values.agc_level, 16000);
}

#[test]
fn notice_is_raised_and_closed() {
    let mut notice = NewError::default();
    assert!(!*notice.is_error());
    assert_eq!(notice.get_message(), "");
    notice.rais("no such device".to_string());
    assert!(*notice.is_error());
    assert_eq!(notice.get_message(), "no such device");
    notice.rais("again".to_string());
    assert_eq!(notice.get_message(), "again");
    notice.close();
    assert!(!*notice.is_error());
    assert_eq!(notice.get_message(), "");
}

#[test]
fn notice_can_be_taken_down_by_its_flag() {
    let mut notice = NewError::default();
    notice.rais("lost".to_string());
    *notice.is_error_mut() = false;
    assert!(!*notice.is_error());
    assert_eq!(notice.get_message(), "lost");
    notice.get_message_mut().push_str(" and found");
    assert_eq!(notice.get_message(), "lost and found");
}
