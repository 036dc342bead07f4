use trackspeedtest::args::{
    parse_smtp_server, split_at_colon, validate_count, validate_download, validate_smtp_server,
    validate_threshold, validate_upload, Alert, Args, Command, Credentials, EmailOptions, Run,
    Smtp,
};
use trackspeedtest::decimal::parse_unsigned;

fn smtp() -> Smtp {
    Smtp {
        email: "from@example.com".to_owned(),
        server: "mail.example.com".to_owned(),
        port: 25,
        credentials: None,
    }
}

#[test]
fn a_run_is_simulated_where_asked() {
    let args = Args::new(
        0,
        Some(Command::Run(Run {
            simulate: true,
            email_options: EmailOptions::new_from_args(None, None),
            show_results: false,
        })),
    );
    assert!(!args.verbose);
    let run = match args.command.unwrap() {
        Command::Alert(_) => panic!("Should not be alert"),
        Command::Run(run) => run,
    };
    assert!(run.simulate);
    assert!(run.email_options.is_none());
    assert!(Args::new(1, None).verbose);
    assert!(Args::new(3, None).command.is_none());
}

#[test]
fn a_server_is_given_with_its_port() {
    assert_eq!(
        parse_smtp_server("mail.example.com:587"),
        Some(("mail.example.com".to_owned(), 587))
    );
    assert_eq!(parse_smtp_server(":0"), Some(("".to_owned(), 0)));
    assert_eq!(parse_smtp_server("h:+25"), Some(("h".to_owned(), 25)));
    assert_eq!(parse_smtp_server("h:65535"), Some(("h".to_owned(), 65535)));
    assert_eq!(parse_smtp_server("h:65536"), None);
    assert_eq!(parse_smtp_server("h:"), None);
    assert_eq!(parse_smtp_server("h"), None);
    assert_eq!(parse_smtp_server("h:1:2"), None);
    assert_eq!(parse_smtp_server("h:-1"), None);
    assert_eq!(parse_smtp_server("münchen.example:025"), Some(("münchen.example".to_owned(), 25)));
    assert_eq!(
        split_at_colon("a:b"),
        Some(("a".to_owned(), "b".to_owned()))
    );
    assert_eq!(split_at_colon(":"), Some(("".to_owned(), "".to_owned())));
    assert_eq!(split_at_colon(""), None);
    assert_eq!(split_at_colon("a:b:"), None);
}

#[test]
fn values_are_checked_as_they_are_given() {
    assert_eq!(validate_smtp_server("host:25"), Ok(()));
    assert_eq!(validate_smtp_server("host"), Err("Not valid server".to_owned()));
    assert_eq!(validate_smtp_server("a:b:c"), Err("Not valid server".to_owned()));
    assert_eq!(
        validate_smtp_server("host:smtp"),
        Err("Port is not in the correct format.".to_owned())
    );
    assert_eq!(
        validate_smtp_server("host:70000"),
        Err("Port is not in the correct format.".to_owned())
    );
    assert_eq!(validate_upload("123.45"), Ok(()));
    assert_eq!(
        validate_upload("fast"),
        Err("Upload bandwidth is not in the correct format.".to_owned())
    );
    assert_eq!(validate_download("100"), Ok(()));
    assert_eq!(
        validate_download(""),
        Err("Download bandwidth is not in the correct format.".to_owned())
    );
    assert_eq!(validate_threshold("20"), Ok(()));
    assert_eq!(validate_threshold("255"), Ok(()));
    assert_eq!(
        validate_threshold("256"),
        Err("Threshold is not in the correct format.".to_owned())
    );
    assert_eq!(
        validate_threshold("20%"),
        Err("Threshold is not in the correct format.".to_owned())
    );
    assert_eq!(validate_count("8"), Ok(()));
    assert_eq!(
        validate_count("-8"),
        Err("Measurement count is not in the correct format.".to_owned())
    );
    assert_eq!(
        validate_count("1000"),
        Err("Measurement count is not in the correct format.".to_owned())
    );
}

#[test]
fn whole_numbers_read_up_to_their_limit() {
    assert_eq!(parse_unsigned("0", 0), Some(0));
    assert_eq!(parse_unsigned("1", 0), None);
    assert_eq!(parse_unsigned("+007", 255), Some(7));
    assert_eq!(parse_unsigned("18446744073709551615", u64::MAX), Some(u64::MAX));
    assert_eq!(parse_unsigned("18446744073709551616", u64::MAX), None);
    assert_eq!(parse_unsigned("", 255), None);
    assert_eq!(parse_unsigned("+", 255), None);
    assert_eq!(parse_unsigned("++1", 255), None);
    assert_eq!(parse_unsigned("1+", 255), None);
    assert_eq!(parse_unsigned("1.0", 255), None);
    assert_eq!(parse_unsigned("١", 255), None);
}

#[test]
fn mail_settings_come_from_the_command_line() {
    let smtp = Args::get_smtp_from_cl(
        Some("mail.example.com:587"),
        Some("user"),
        Some("swordfish"),
        Some("from@example.com"),
    )
    .unwrap();
    assert_eq!(smtp.server, "mail.example.com");
    assert_eq!(smtp.port, 587);
    assert_eq!(smtp.email, "from@example.com");
    let login = smtp.credentials.unwrap();
    assert_eq!(login.username, "user");
    assert_eq!(login.password, "swordfish");

    let smtp = Args::get_smtp_from_cl(Some("h:1"), Some("user"), None, Some("f@x")).unwrap();
    assert!(smtp.credentials.is_none());
    let smtp = Args::get_smtp_from_cl(Some("h:1"), None, Some("p"), Some("f@x")).unwrap();
    assert!(smtp.credentials.is_none());
    assert!(Args::get_smtp_from_cl(None, Some("u"), Some("p"), Some("f@x")).is_none());
    assert!(Args::get_smtp_from_cl(Some("h:1"), Some("u"), Some("p"), None).is_none());
    assert!(Args::get_smtp_from_cl(Some("h:x"), Some("u"), Some("p"), Some("f@x")).is_none());
    assert!(Credentials::new_from_args(None, None).is_none());
}

#[test]
fn report_settings_need_an_address_and_a_server() {
    let options = EmailOptions::new_from_args(Some("to@example.com"), Some(smtp())).unwrap();
    assert_eq!(options.email, "to@example.com");
    assert_eq!(options.smtp.server, "mail.example.com");
    assert!(EmailOptions::new_from_args(None, Some(smtp())).is_none());
    assert!(EmailOptions::new_from_args(Some("to@example.com"), None).is_none());
}

#[test]
fn alert_settings_come_from_the_command_line() {
    let alert =
        Alert::new_from_args(true, "to@example.com", "123.45", "50", "20", "8", smtp()).unwrap();
    assert!(alert.simulate);
    assert_eq!(alert.email, "to@example.com");
    assert_eq!(alert.expected_download, 123_45);
    assert_eq!(alert.expected_upload, 50_00);
    assert_eq!(alert.threshold, 20);
    assert_eq!(alert.count, 8);
    assert_eq!(alert.smtp.port, 25);
    assert!(Alert::new_from_args(true, "t", "x", "50", "20", "8", smtp()).is_none());
    assert!(Alert::new_from_args(true, "t", "1", "", "20", "8", smtp()).is_none());
    assert!(Alert::new_from_args(true, "t", "1", "50", "300", "8", smtp()).is_none());
    assert!(Alert::new_from_args(true, "t", "1", "50", "20", "eight", smtp()).is_none());
}
