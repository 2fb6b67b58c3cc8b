use doom_fire::cli::parse_args;
use doom_fire::cli::parse_u64;
use doom_fire::cli::parse_usize;
use doom_fire::cli::CliError;
use doom_fire::cli::RendererChoice;
use doom_fire::cli::DEFAULT_SLEEP_DURATION;

fn args(words: &[&str]) -> Vec<String> {
    words.iter().map(|w| w.to_string()).collect()
}

#[test]
fn width_and_height_alone_give_the_default_sleep_and_windowed_renderer() {
    let config = parse_args(&args(&["doom-fire", "10", "5"])).unwrap();
    assert_eq!(config.width, 10);
    assert_eq!(config.height, 5);
    assert_eq!(config.sleep_ms, DEFAULT_SLEEP_DURATION);
    assert_eq!(config.renderer, RendererChoice::Windowed);
}

#[test]
fn sleep_and_console_flag_are_honoured() {
    let config = parse_args(&args(&["doom-fire", "3", "4", "25", "-c"])).unwrap();
    assert_eq!(config.width, 3);
    assert_eq!(config.height, 4);
    assert_eq!(config.sleep_ms, 25);
    assert_eq!(config.renderer, RendererChoice::Terminal);
}

#[test]
fn a_fifth_argument_other_than_the_flag_keeps_the_windowed_renderer() {
    let config = parse_args(&args(&["doom-fire", "3", "4", "25", "-x"])).unwrap();
    assert_eq!(config.renderer, RendererChoice::Windowed);
}

#[test]
fn fewer_than_two_positional_arguments_are_insufficient() {
    assert_eq!(
        parse_args(&args(&["doom-fire", "8"])),
        Err(CliError::InsufficientArguments)
    );
    assert_eq!(
        parse_args(&args(&["doom-fire"])),
        Err(CliError::InsufficientArguments)
    );
}

#[test]
fn a_non_numeric_width_is_rejected() {
    assert_eq!(
        parse_args(&args(&["doom-fire", "x", "5"])),
        Err(CliError::InvalidWidth)
    );
}

#[test]
fn a_non_numeric_height_is_rejected() {
    assert_eq!(
        parse_args(&args(&["doom-fire", "5", ""])),
        Err(CliError::InvalidHeight)
    );
}

#[test]
fn a_non_numeric_sleep_is_rejected() {
    assert_eq!(
        parse_args(&args(&["doom-fire", "3", "4", "-c"])),
        Err(CliError::InvalidSleep)
    );
}

#[test]
fn error_messages_match_the_usage_taxonomy() {
    assert_eq!(
        CliError::InsufficientArguments.message(),
        "Insufficient arguments specified."
    );
    assert_eq!(CliError::InvalidWidth.message(), "Invalid WIDTH specified");
    assert_eq!(CliError::InvalidHeight.message(), "Invalid HEIGHT specified");
    assert_eq!(
        CliError::InvalidSleep.message(),
        "Invalid sleep duration specified"
    );
}

#[test]
fn numerals_parse_with_an_optional_plus_sign() {
    assert_eq!(parse_u64("12"), Some(12));
    assert_eq!(parse_u64("+12"), Some(12));
    assert_eq!(parse_u64("0"), Some(0));
    assert_eq!(parse_usize("40"), Some(40));
}

#[test]
fn malformed_numerals_do_not_parse() {
    assert_eq!(parse_u64(""), None);
    assert_eq!(parse_u64("+"), None);
    assert_eq!(parse_u64("1a"), None);
    assert_eq!(parse_u64("-3"), None);
    assert_eq!(parse_u64(" 3"), None);
}

#[test]
fn numerals_beyond_the_type_bound_do_not_parse() {
    assert_eq!(parse_u64("18446744073709551615"), Some(u64::MAX));
    assert_eq!(parse_u64("18446744073709551616"), None);
    assert_eq!(parse_u64("99999999999999999999999"), None);
}
