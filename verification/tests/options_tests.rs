use barrier_coordinator::options::{parse_u32, HandlerArgs, OverwriteOptions};

fn args_with(options: Vec<(&str, &str)>, session: Option<u32>) -> HandlerArgs {
    HandlerArgs {
        with_options: options
            .into_iter()
            .map(|(k, v)| (k.to_string(), v.to_string()))
            .collect(),
        session_streaming_rate_limit: session,
    }
}

#[test]
fn test_overwrite_options_from_statement() {
    let mut args = args_with(vec![("retention", "3600"), ("streaming_rate_limit", "42")], None);
    let opts = OverwriteOptions::new(&mut args);
    assert_eq!(opts.stream_rate_control, Some(42));
    // the entry is consumed from the statement options
    assert_eq!(args.with_options.len(), 1);
    assert_eq!(args.with_options[0].0, "retention");
}

#[test]
fn test_overwrite_options_from_session() {
    let mut args = args_with(vec![("retention", "3600")], Some(7));
    let opts = OverwriteOptions::new(&mut args);
    assert_eq!(opts.stream_rate_control, Some(7));
    assert_eq!(args.with_options.len(), 1);

    let mut unset = args_with(vec![], None);
    let opts = OverwriteOptions::new(&mut unset);
    assert_eq!(opts.stream_rate_control, None);
}

#[test]
fn test_parse_u32() {
    assert_eq!(parse_u32("0"), 0);
    assert_eq!(parse_u32("0042"), 42);
    assert_eq!(parse_u32("+42"), 42);
    assert_eq!(parse_u32("4294967295"), u32::MAX);
}
