use orderly::decimal::Decimal;
use orderly::specs::{ProcSpecBuilder, SpecError, SupervisorSpecBuilder};

fn micros(text: &str) -> Option<i64> {
    Decimal::parse(text).map(|d| d.micros)
}

#[test]
fn decimal_parses_plain_forms() {
    assert_eq!(micros("0.1"), Some(100_000));
    assert_eq!(micros("12"), Some(12_000_000));
    assert_eq!(micros("-0.5"), Some(-500_000));
    assert_eq!(micros("+3."), Some(3_000_000));
    assert_eq!(micros(".25"), Some(250_000));
    assert_eq!(micros("007"), Some(7_000_000));
}

#[test]
fn decimal_drops_digits_after_the_sixth() {
    assert_eq!(micros("1.2345678"), Some(1_234_567));
    assert_eq!(micros("-0.0000019"), Some(-1));
}

#[test]
fn decimal_refuses_other_text() {
    for text in ["", ".", "-", "+", "abc", "1.2.3", "1,5", " 1", "1 ", "--1", "inf", "NaN"] {
        assert_eq!(micros(text), None, "{:?}", text);
    }
}

#[test]
fn decimal_parses_exponent_forms() {
    assert_eq!(micros("1e3"), Some(1_000_000_000));
    assert_eq!(micros("2.5E-1"), Some(250_000));
    assert_eq!(micros("-1.5e+2"), Some(-150_000_000));
    assert_eq!(micros(".5e1"), Some(5_000_000));
    assert_eq!(micros("5.e0"), Some(5_000_000));
    assert_eq!(micros("1e-6"), Some(1));
    assert_eq!(micros("1e-7"), Some(0));
    assert_eq!(micros("-1.9e-6"), Some(-1));
    assert_eq!(micros("123456789e-14"), Some(1));
    assert_eq!(micros("0e999999999999999999999999999999999999999"), Some(0));
    assert_eq!(micros("7e-999999999999999999999999999999999999999"), Some(0));
    assert_eq!(micros("9.223372036854775807e12"), Some(i64::MAX));
    assert_eq!(micros("-9.223372036854775808E12"), Some(i64::MIN));
    assert_eq!(micros("9.223372036854775808e12"), None);
    assert_eq!(micros("1e20"), None);
    assert_eq!(micros("1e999999999999999999999999999999999999999"), None);
    for text in ["1e", "e5", ".e5", "1e+", "1e-", "1e5.0", "1.2.3e4", "1e2e3", "1E 2", "1ee2", "-e1"] {
        assert_eq!(micros(text), None, "{:?}", text);
    }
}

#[test]
fn decimal_range_edges() {
    assert_eq!(micros("9223372036854.775807"), Some(i64::MAX));
    assert_eq!(micros("-9223372036854.775808"), Some(i64::MIN));
    assert_eq!(micros("9223372036854.775808"), None);
    assert_eq!(micros("-9223372036854.775809"), None);
    assert_eq!(micros("100000000000000000000"), None);
}

#[test]
fn proc_builder_defaults() {
    let mut b = ProcSpecBuilder::new();
    b.set_name("web".to_string());
    b.set_run("./run".to_string());
    let spec = b.build().unwrap();
    assert_eq!(spec.name, "web");
    assert_eq!(spec.run, "./run");
    assert_eq!(spec.check, None);
    assert_eq!(spec.shutdown, None);
    assert_eq!(spec.cleanup, None);
    assert_eq!(spec.wait_started, None);
    assert_eq!(spec.post_start, None);
    assert_eq!(spec.check_timeout_seconds, Some(Decimal { micros: 120_000_000 }));
    assert_eq!(spec.wait_started_timeout_seconds, Some(Decimal { micros: 120_000_000 }));
    assert_eq!(spec.shutdown_timeout_seconds, Some(Decimal { micros: 120_000_000 }));
    assert_eq!(spec.cleanup_timeout_seconds, Some(Decimal { micros: 120_000_000 }));
    assert_eq!(spec.terminate_timeout_seconds, Some(Decimal { micros: 10_000_000 }));
}

#[test]
fn proc_builder_keeps_every_setting() {
    let mut b = ProcSpecBuilder::new();
    b.set_name("db".to_string());
    b.set_run("r".to_string());
    b.set_check("c".to_string());
    b.set_wait_started("w".to_string());
    b.set_cleanup("cl".to_string());
    b.set_shutdown("s".to_string());
    b.set_post_start("p".to_string());
    b.set_check_timeout_seconds(Decimal { micros: 5_000_000 });
    b.set_wait_started_timeout_seconds(Decimal { micros: -1 });
    b.set_shutdown_timeout_seconds(Decimal { micros: 0 });
    b.set_cleanup_timeout_seconds(Decimal { micros: 1 });
    b.set_terminate_timeout_seconds(Decimal { micros: -5_000_000 });
    let spec = b.build().unwrap();
    assert_eq!(spec.check.as_deref(), Some("c"));
    assert_eq!(spec.wait_started.as_deref(), Some("w"));
    assert_eq!(spec.cleanup.as_deref(), Some("cl"));
    assert_eq!(spec.shutdown.as_deref(), Some("s"));
    assert_eq!(spec.post_start.as_deref(), Some("p"));
    assert_eq!(spec.check_timeout_seconds, Some(Decimal { micros: 5_000_000 }));
    assert_eq!(spec.wait_started_timeout_seconds, None);
    assert_eq!(spec.shutdown_timeout_seconds, None);
    assert_eq!(spec.cleanup_timeout_seconds, Some(Decimal { micros: 1 }));
    assert_eq!(spec.terminate_timeout_seconds, None);
}

#[test]
fn proc_builder_asks_for_name_first() {
    let b = ProcSpecBuilder::new();
    assert!(matches!(b.build(), Err(SpecError::MissingField("name"))));
    let mut b = ProcSpecBuilder::new();
    b.set_run("r".to_string());
    assert!(matches!(b.build(), Err(SpecError::MissingField("name"))));
    let mut b = ProcSpecBuilder::new();
    b.set_name("n".to_string());
    assert!(matches!(b.build(), Err(SpecError::MissingField("run"))));
}

#[test]
fn supervisor_builder_defaults_and_settings() {
    let spec = SupervisorSpecBuilder::new().build().unwrap();
    assert_eq!(spec.restart_tokens_per_second, Decimal { micros: 100_000 });
    assert_eq!(spec.max_restart_tokens, Decimal { micros: 5_000_000 });
    assert_eq!(spec.check_delay_seconds, Decimal { micros: 5_000_000 });
    assert_eq!(spec.status_file, None);
    assert_eq!(spec.start_complete_timeout, Some(Decimal { micros: 120_000_000 }));
    assert_eq!(spec.restart_timeout, Some(Decimal { micros: 120_000_000 }));
    assert_eq!(spec.failure_timeout, Some(Decimal { micros: 120_000_000 }));
    assert_eq!(spec.on_shutdown, None);
    assert_eq!(spec.on_shutdown_timeout, Some(Decimal { micros: 120_000_000 }));
    assert!(spec.procs.is_empty());

    let mut b = SupervisorSpecBuilder::new();
    b.set_restart_tokens_per_second(Decimal { micros: 2 });
    b.set_max_restart_tokens(Decimal { micros: 3 });
    b.set_check_delay_seconds(Decimal { micros: 4 });
    b.set_status_file("status".to_string());
    b.set_start_complete("sc".to_string());
    b.set_restart("re".to_string());
    b.set_failure("fa".to_string());
    b.set_start_complete_timeout(Decimal { micros: 0 });
    b.set_restart_timeout(Decimal { micros: 7 });
    b.set_failure_timeout(Decimal { micros: -7 });
    b.set_on_shutdown("bye".to_string());
    b.set_on_shutdown_timeout(Decimal { micros: 9 });
    let mut p = ProcSpecBuilder::new();
    p.set_name("a".to_string());
    p.set_run("ra".to_string());
    b.add_proc_spec(p.build().unwrap());
    let mut p = ProcSpecBuilder::new();
    p.set_name("b".to_string());
    p.set_run("rb".to_string());
    b.add_proc_spec(p.build().unwrap());
    let spec = b.build().unwrap();
    assert_eq!(spec.restart_tokens_per_second, Decimal { micros: 2 });
    assert_eq!(spec.max_restart_tokens, Decimal { micros: 3 });
    assert_eq!(spec.check_delay_seconds, Decimal { micros: 4 });
    assert_eq!(spec.status_file.as_deref(), Some("status"));
    assert_eq!(spec.start_complete.as_deref(), Some("sc"));
    assert_eq!(spec.restart.as_deref(), Some("re"));
    assert_eq!(spec.failure.as_deref(), Some("fa"));
    assert_eq!(spec.start_complete_timeout, None);
    assert_eq!(spec.restart_timeout, Some(Decimal { micros: 7 }));
    assert_eq!(spec.on_shutdown.as_deref(), Some("bye"));
    assert_eq!(spec.on_shutdown_timeout, Some(Decimal { micros: 9 }));
    assert_eq!(spec.failure_timeout, None);
    let names: Vec<&str> = spec.procs.iter().map(|p| p.name.as_str()).collect();
    assert_eq!(names, vec!["a", "b"]);
}
