use ped::memlog::{
    csv_row, next_value, parse_options, parse_status, select_process, timestamp_from_secs,
    track_process, unix_timestamp, Invocation, SmapsTotals, CSV_HEADER,
};

#[test]
fn parses_smaps_totals_and_ignores_other_fields() {
    let input = "00400000-00401000 r--p\n\
                  Rss:                  12 kB\n\
                  Pss:                   7 kB\n\
                  Anonymous:             3 kB\n\
                  Private_Dirty:         2 kB\n\
                  Private_Clean:         1 kB\n\
                  Shared_Dirty:          4 kB\n\
                  Shared_Clean:          5 kB\n\
                  Referenced:            99 kB\n\
                  Rss:                   8 kB\n\
                  Pss:                   6 kB\n\
                  Anonymous:             2 kB\n\
                  Private_Dirty:         1 kB\n\
                  Private_Clean:         3 kB\n\
                  Shared_Dirty:          2 kB\n\
                  Shared_Clean:          1 kB\n";
    assert_eq!(
        SmapsTotals::parse(input).unwrap(),
        SmapsTotals {
            rss_kb: 20,
            pss_kb: 13,
            anonymous_kb: 5,
            private_dirty_kb: 3,
            private_clean_kb: 4,
            shared_dirty_kb: 6,
            shared_clean_kb: 6,
        }
    );
}

#[test]
fn formats_a_timestamped_csv_row() {
    let uptime = format!("{:.2}", 3600.25_f64);
    let row = csv_row(1_788_992_400, &uptime, 1234, 194120, 663376, &SmapsTotals::default());
    assert_eq!(row, "1788992400,3600.25,1234,194120,663376,0,0,0,0,0,0,0");
}

#[test]
fn csv_rows_follow_the_header() {
    let totals = SmapsTotals {
        rss_kb: 1,
        pss_kb: 2,
        anonymous_kb: 3,
        private_dirty_kb: 4,
        private_clean_kb: 5,
        shared_dirty_kb: 6,
        shared_clean_kb: 7,
    };
    let row = csv_row(-5, "0.00", 9, 10, 11, &totals);
    assert_eq!(row, "-5,0.00,9,10,11,1,2,3,4,5,6,7");
    assert_eq!(row.split(',').count(), CSV_HEADER.split(',').count());
}

#[test]
fn smaps_lines_without_numbers_are_skipped() {
    let totals = SmapsTotals::parse("Rss: abc kB\nRss:\nRss 5\nPss: 4 kB\r\nVmFlags: rd\n").unwrap();
    assert_eq!(totals.rss_kb, 0);
    assert_eq!(totals.pss_kb, 4);
    assert_eq!(SmapsTotals::parse("").unwrap(), SmapsTotals::default());
}

#[test]
fn smaps_totals_that_overflow_are_refused() {
    let text = format!("Rss: {} kB\nRss: 1 kB\n", u64::MAX);
    assert!(SmapsTotals::parse(&text).is_none());
}

fn args(list: &[&str]) -> Vec<String> {
    list.iter().map(|s| s.to_string()).collect()
}

#[test]
fn options_default_and_parse() {
    match parse_options(&args(&[])).unwrap() {
        Invocation::Run(o) => {
            assert_eq!(o.interval, 5);
            assert_eq!(o.output, None);
            assert_eq!(o.process_name, "ped");
        }
        Invocation::Help => panic!("expected run"),
    }
    match parse_options(&args(&["--interval", "2", "--output", "m.csv", "--name", "x"])).unwrap() {
        Invocation::Run(o) => {
            assert_eq!(o.interval, 2);
            assert_eq!(o.output.as_deref(), Some("m.csv"));
            assert_eq!(o.process_name, "x");
        }
        Invocation::Help => panic!("expected run"),
    }
    match parse_options(&args(&["7", "out.csv"])).unwrap() {
        Invocation::Run(o) => {
            assert_eq!(o.interval, 7);
            assert_eq!(o.output.as_deref(), Some("out.csv"));
        }
        Invocation::Help => panic!("expected run"),
    }
    assert!(matches!(parse_options(&args(&["--interval", "x", "-h"])), Err(_)));
    assert!(matches!(parse_options(&args(&["-h", "--bogus"])), Ok(Invocation::Help)));
}

#[test]
fn option_errors() {
    assert_eq!(parse_options(&args(&["--interval"])).unwrap_err(), "--interval requires a value");
    assert_eq!(parse_options(&args(&["--interval", "x"])).unwrap_err(), "invalid interval");
    assert_eq!(parse_options(&args(&["0"])).unwrap_err(), "interval must be greater than zero");
    assert_eq!(parse_options(&args(&["--bogus"])).unwrap_err(), "unknown option: --bogus");
    assert_eq!(parse_options(&args(&["--output"])).unwrap_err(), "--output requires a value");
    assert_eq!(
        parse_options(&args(&["--process-name"])).unwrap_err(),
        "--process-name requires a value"
    );
    assert_eq!(
        parse_options(&args(&["--name", ""])).unwrap_err(),
        "process name must not be empty or contain a newline"
    );
    assert_eq!(next_value(&args(&["a", "b"]), 1, "--x").unwrap(), "b");
    assert_eq!(next_value(&args(&["a"]), 1, "--x").unwrap_err(), "--x requires a value");
}

#[test]
fn status_reading() {
    let text = "Name:\tped\nVmSize:\t  663376 kB\nVmRSS:\t  194120 kB\nThreads: 4\n";
    assert_eq!(parse_status(text).unwrap(), (194120, 663376));
    assert_eq!(parse_status("VmRSS: 1 kB\n").unwrap_err(), "missing VmRSS or VmSize");
}

#[test]
fn the_smallest_matching_pid_is_followed() {
    let entries = vec![
        ("self".to_string(), Some("ped\n".to_string())),
        ("42".to_string(), Some("ped\n".to_string())),
        ("7".to_string(), Some("other\n".to_string())),
        ("13".to_string(), Some("ped\r\n".to_string())),
        ("5".to_string(), None),
    ];
    assert_eq!(select_process(&entries, "ped"), Some(13));
    assert_eq!(select_process(&entries, "none"), None);
}

#[test]
fn timestamps() {
    assert_eq!(timestamp_from_secs(Some(1_788_992_400)).unwrap(), 1_788_992_400);
    assert_eq!(timestamp_from_secs(None).unwrap_err(), "system clock is before Unix epoch");
    assert!(unix_timestamp().unwrap() > 1_600_000_000);
}

#[test]
fn process_tracking_messages() {
    assert_eq!(track_process("ped", None, None), (None, Some("ped process not found".to_string())));
    assert_eq!(track_process("ped", Some(3), None), (None, Some("ped process exited".to_string())));
    assert_eq!(track_process("ped", None, Some(4)), (Some(4), Some("ped found: pid=4".to_string())));
    assert_eq!(
        track_process("ped", Some(4), Some(9)),
        (Some(9), Some("ped PID changed: 4 -> 9".to_string()))
    );
    assert_eq!(track_process("ped", Some(9), Some(9)), (Some(9), None));
}

#[test]
fn totals_add_up_over_listings() {
    let a = "Rss: 1 kB\nPss: 2 kB\n";
    let b = "Rss: 10 kB\nShared_Clean: 3 kB";
    let whole = SmapsTotals::parse(&format!("{a}{b}")).unwrap();
    let (x, y) = (SmapsTotals::parse(a).unwrap(), SmapsTotals::parse(b).unwrap());
    assert_eq!(whole.rss_kb, x.rss_kb + y.rss_kb);
    assert_eq!(whole.pss_kb, x.pss_kb + y.pss_kb);
    assert_eq!(whole.shared_clean_kb, 3);
}
