use nacelle::address::{IpAddr, SocketAddr};
use nacelle::stress::{
    parse_args, parse_count, response_payload, ArgsError, Command, NumberError, StressServerConfig,
    StressServerStatsSnapshot, STRESS_OPCODE,
};
use nacelle::text::TextError;
use nacelle::time::Duration;

const BIND: SocketAddr = SocketAddr {
    ip: IpAddr::V6(1),
    port: 99,
    flow_info: 0,
    scope_id: 0,
};

fn parse(args: &[&str]) -> Result<Command, ArgsError> {
    let args: Vec<String> = args.iter().map(|arg| arg.to_string()).collect();
    let addresses = args
        .iter()
        .map(|arg| if arg == "[::1]:99" { Some(BIND) } else { None })
        .collect();
    parse_args(&args, &addresses, 6)
}

fn config(args: &[&str]) -> StressServerConfig {
    match parse(args) {
        Ok(Command::Serve(config)) => config,
        other => panic!("expected settings, got {other:?}"),
    }
}

#[test]
fn settings_have_defaults() {
    let config = config(&[]);
    assert_eq!(config, StressServerConfig::for_cpus(6));
    assert_eq!(
        config.bind,
        SocketAddr::new(IpAddr::V4(0x7f00_0001), 7878)
    );
    assert_eq!(config.server_threads, 6);
    assert_eq!(config.response_bytes, 64);
    assert_eq!(config.read_buffer_capacity, 64 * 1024);
    assert_eq!(config.response_buffer_capacity, 16 * 1024);
    assert!(!config.low_memory);
    assert_eq!(STRESS_OPCODE, 1);
}

#[test]
fn arguments_set_their_settings() {
    let config = config(&[
        "--bind",
        "[::1]:99",
        "--server-threads",
        "2",
        "--response-bytes",
        "+10",
        "--max-concurrent-requests-per-connection",
        "3",
        "--read-buffer",
        "4",
        "--response-buffer",
        "5",
        "--request-body-chunk-size",
        "6",
        "--request-body-channel-capacity",
        "007",
        "--low-memory",
    ]);
    assert_eq!(
        config,
        StressServerConfig {
            bind: BIND,
            server_threads: 2,
            response_bytes: 10,
            max_concurrent_requests_per_connection: 3,
            read_buffer_capacity: 4,
            response_buffer_capacity: 5,
            request_body_chunk_size: 6,
            request_body_channel_capacity: 7,
            low_memory: true,
        }
    );
    assert_eq!(response_payload(&config), vec![0x5a; 10]);
}

#[test]
fn the_first_argument_that_decides_does_so() {
    assert!(matches!(parse(&["-h", "--nonsense"]), Ok(Command::Help)));
    assert!(matches!(parse(&["--help"]), Ok(Command::Help)));
    let text = |args: &[&str]| parse(args).err().map(|error| error.to_text());
    assert_eq!(
        text(&["--nonsense", "--help"]),
        Some("unknown argument: --nonsense".to_string())
    );
    assert_eq!(
        text(&["--low-memory", "--bind"]),
        Some("missing value for --bind".to_string())
    );
    assert_eq!(
        text(&["--read-buffer"]),
        Some("missing value for --read-buffer".to_string())
    );
    assert!(matches!(
        parse(&["--bind", "nowhere", "--help"]),
        Err(ArgsError::InvalidAddress(value)) if value == "nowhere"
    ));
    assert!(matches!(
        parse(&["--read-buffer", "many"]),
        Err(ArgsError::InvalidNumber(NumberError::InvalidDigit))
    ));
    assert_eq!(
        text(&["--server-threads", "0"]),
        Some("--server-threads must be greater than zero".to_string())
    );
}

#[test]
fn counts_are_decimal() {
    assert_eq!(parse_count("0"), Ok(0));
    assert_eq!(parse_count("+42"), Ok(42));
    assert_eq!(parse_count("18446744073709551615"), Ok(usize::MAX));
    assert_eq!(parse_count(""), Err(NumberError::Empty));
    assert_eq!(parse_count("+"), Err(NumberError::InvalidDigit));
    assert_eq!(
        parse_count("18446744073709551616"),
        Err(NumberError::TooLarge)
    );
    let texts = [
        "",
        "+",
        "-",
        "-1",
        " 1",
        "1 ",
        "1_000",
        "18446744073709551616",
        "99999999999999999999999",
        "99999999999999999999999x",
        "1844674407370955161x",
        "18446744073709551615x",
        "++1",
        "1x",
    ];
    for text in texts {
        let own = parse_count(text).expect_err("no number");
        let reason = text.parse::<usize>().expect_err("no number");
        assert_eq!(
            ArgsError::InvalidNumber(own).to_text(),
            reason.to_string(),
            "{text:?}"
        );
    }
}

#[test]
fn statistics_are_told_apart_by_their_growth() {
    let before = StressServerStatsSnapshot {
        uptime: Duration::from_secs(5),
        active_connections: 1,
        accepted_connections: 10,
        completed_connections: 8,
        failed_connections: 1,
        active_requests: 0,
        completed_requests: 100,
        failed_requests: 2,
        request_body_bytes: 1000,
        response_body_bytes: 2000,
    };
    let now = StressServerStatsSnapshot {
        uptime: Duration::from_secs(10),
        accepted_connections: 15,
        completed_connections: 7,
        completed_requests: 350,
        request_body_bytes: 4000,
        ..before
    };
    let delta = now.since(Some(before));
    assert_eq!(delta.elapsed, Duration::from_secs(5));
    assert_eq!(delta.accepted_connections, 5);
    assert_eq!(delta.completed_connections, 0);
    assert_eq!(delta.failed_connections, 0);
    assert_eq!(delta.completed_requests, 250);
    assert_eq!(delta.request_body_bytes, 3000);
    assert_eq!(delta.response_body_bytes, 0);
    let total = now.since(None);
    assert_eq!(total.elapsed, Duration::from_secs(10));
    assert_eq!(total.completed_requests, 350);
    assert_eq!(total.failed_requests, 2);
}
