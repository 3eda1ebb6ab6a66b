use odradek_acceptance::args::{list_checks, parse_args, split_login};
use odradek_acceptance::checks::client::HarnessFault;
use odradek_acceptance::control::{control_words, ended_badly, not_run, Verb};

fn words(line: &[&str]) -> Vec<String> {
    line.iter().map(|w| (*w).to_owned()).collect()
}

fn taken(line: &[&str]) -> bool {
    parse_args(&words(line)).is_some()
}

#[test]
fn a_server_run_is_asked_for_in_full() {
    let args = parse_args(&words(&[
        "--server",
        "localhost:9092",
        "--sasl-server",
        "localhost:9093",
        "--cluster-control",
        "./control.sh",
        "--authenticate",
        "me:secret",
        "--tls-ca",
        "ca.pem",
        "--tls-name",
        "broker",
        "--json",
        "--baseline",
        "old.json",
        "--write-baseline",
        "new.json",
    ]))
    .unwrap();
    assert_eq!(args.server.as_deref(), Some("localhost:9092"));
    assert_eq!(args.sasl_server.as_deref(), Some("localhost:9093"));
    assert_eq!(args.cluster_control.as_deref(), Some("./control.sh"));
    assert_eq!(args.authenticate.as_deref(), Some("me:secret"));
    assert_eq!(args.tls_ca.as_deref(), Some("ca.pem"));
    assert_eq!(args.tls_name.as_deref(), Some("broker"));
    assert_eq!(args.client_listen, None);
    assert_eq!(args.baseline.as_deref(), Some("old.json"));
    assert_eq!(args.write_baseline.as_deref(), Some("new.json"));
    assert!(args.json);
    assert!(!args.list);
    assert_eq!(args.fault, None);
}

#[test]
fn faults_are_staged_for_clients_by_name() {
    for (name, fault) in [
        ("leader-move", HarnessFault::LeaderMove),
        ("throttle", HarnessFault::Throttle),
        ("unknown-tagged-field", HarnessFault::UnknownTaggedField),
        ("reject-sasl-token", HarnessFault::RejectSaslToken),
    ] {
        let args = parse_args(&words(&["--client-listen", "0.0.0.0:1", "--fault", name])).unwrap();
        assert_eq!(args.fault, Some(fault));
        assert!(!taken(&["--server", "x:1", "--fault", name]));
    }
    assert!(!taken(&["--client-listen", "x:1", "--fault", "sulk"]));
    assert!(!taken(&["--client-listen", "x:1", "--fault"]));
}

#[test]
fn exactly_one_subject_is_asked_for() {
    assert!(!taken(&[]));
    assert!(!taken(&["--json"]));
    assert!(taken(&["--server", "x:1"]));
    assert!(taken(&["--client-listen", "x:1"]));
    assert!(!taken(&["--server", "x:1", "--client-listen", "y:1"]));
}

#[test]
fn the_list_stands_alone() {
    assert!(parse_args(&words(&["--list"])).unwrap().list);
    assert!(taken(&["--list", "--list"]));
    for other in [
        vec!["--server", "x:1"],
        vec!["--sasl-server", "x:1"],
        vec!["--client-listen", "x:1"],
        vec!["--cluster-control", "c"],
        vec!["--authenticate", "a:b"],
        vec!["--tls-ca", "f"],
        vec!["--tls-name", "n"],
        vec!["--fault", "throttle"],
        vec!["--json"],
        vec!["--baseline", "f"],
        vec!["--write-baseline", "f"],
    ] {
        let mut line = vec!["--list"];
        line.extend(other);
        assert!(!taken(&line), "{line:?}");
    }
}

#[test]
fn unknown_and_unfinished_flags_are_refused() {
    assert!(!taken(&["--sever", "x:1"]));
    assert!(!taken(&["x:1"]));
    assert!(!taken(&["--server"]));
    assert!(!taken(&["--server", "x:1", "--baseline"]));
}

#[test]
fn the_last_of_a_repeated_flag_counts_and_values_may_look_like_flags() {
    let args = parse_args(&words(&["--server", "a", "--server", "--json"])).unwrap();
    assert_eq!(args.server.as_deref(), Some("--json"));
    assert!(!args.json);
}

#[test]
fn a_login_splits_at_its_first_colon() {
    assert_eq!(split_login("user:pass:word"), Some(("user".to_owned(), "pass:word".to_owned())));
    assert_eq!(split_login(":"), Some((String::new(), String::new())));
    assert_eq!(split_login("nobody"), None);
}

#[test]
fn the_list_names_every_check_with_its_requirement() {
    let lines = list_checks();
    assert_eq!(lines.len(), 140);
    assert_eq!(lines[0], "[server] api-versions/v0-basic");
    assert!(lines[1].starts_with("    "));
    assert_eq!(lines[118], "[client] client/header-well-formed");
}

#[test]
fn a_control_command_is_called_with_the_broker_it_is_about() {
    assert_eq!(
        control_words("  ./control.sh\t--cluster ci ", Verb::Stop, 2, "host:9094"),
        Ok(words(&["./control.sh", "--cluster", "ci", "stop", "2", "host:9094"]))
    );
    assert_eq!(
        control_words("c", Verb::Start, -1, ""),
        Ok(words(&["c", "start", "-1", ""]))
    );
    for blank in ["", "  \n "] {
        assert_eq!(
            control_words(blank, Verb::Stop, 0, "h:1"),
            Err("--cluster-control is empty".to_owned())
        );
    }
}

#[test]
fn words_are_separated_by_unicode_white_space() {
    let listed = |c: u32| {
        matches!(
            c,
            0x9..=0xd
                | 0x20
                | 0x85
                | 0xa0
                | 0x1680
                | 0x2000..=0x200a
                | 0x2028
                | 0x2029
                | 0x202f
                | 0x205f
                | 0x3000
        )
    };
    for c in '\0'..=char::MAX {
        let separated = control_words(&format!("a{c}b"), Verb::Stop, 0, "h:1").unwrap().len() == 5;
        assert_eq!(separated, listed(c as u32), "{c:?}");
    }
}

#[test]
fn a_control_command_that_fails_is_quoted() {
    assert_eq!(not_run("./c \"x\"", "no such file"), "running \"./c \\\"x\\\"\": no such file");
    assert_eq!(
        ended_badly("./c", Verb::Start, 1, "exit status: 3", b" \n gone \xff\n"),
        "\"./c\" start 1 exited exit status: 3: gone \u{fffd}"
    );
    assert_eq!(ended_badly("./c", Verb::Stop, 1, "1", b" \n"), "\"./c\" stop 1 exited 1: ");
}
