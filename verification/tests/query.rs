use socket_relay::query::{
    data_path, host_command, job_from_name, job_sources, HostCommand, Job, OpenedFiles, Query,
    Source,
};

#[test]
fn query_names() {
    assert_eq!(job_from_name("q1"), Some(Job::Run { query: Query::Q1, optimised: false }));
    assert_eq!(job_from_name("q7"), Some(Job::Run { query: Query::Q7, optimised: false }));
    assert_eq!(job_from_name("q3-opt"), Some(Job::Run { query: Query::Q3, optimised: true }));
    assert_eq!(job_from_name("io"), Some(Job::Io));
}

#[test]
fn unknown_query_names() {
    for name in ["q8", "q8-opt", "", "Q1", "q1 ", "qw", "io-opt", "q1-op"] {
        assert_eq!(job_from_name(name), None, "{name:?}");
    }
}

#[test]
fn opt_suffix_selects_the_optimised_form() {
    for n in 1..=7 {
        let plain = job_from_name(&format!("q{n}"));
        let opt = job_from_name(&format!("q{n}-opt"));
        match (plain, opt) {
            (Some(Job::Run { query: a, optimised: false }), Some(Job::Run { query: b, optimised: true })) => {
                assert_eq!(a, b)
            },
            other => panic!("unexpected {other:?}"),
        }
    }
}

const ALL: OpenedFiles = OpenedFiles { bids: true, auctions: true, persons: true };

#[test]
fn sources_of_each_job() {
    let run = |query| Job::Run { query, optimised: false };
    assert_eq!(job_sources(run(Query::Q1), ALL), vec![Source::Bids]);
    assert_eq!(job_sources(run(Query::Q3), ALL), vec![Source::Auctions, Source::Persons]);
    assert_eq!(job_sources(run(Query::Q4), ALL), vec![Source::Auctions, Source::Bids]);
    assert_eq!(job_sources(run(Query::Q6), ALL), vec![Source::Auctions, Source::Bids]);
    assert_eq!(
        job_sources(Job::Run { query: Query::Q6, optimised: true }, ALL),
        vec![Source::Auctions, Source::Bids]
    );
    assert_eq!(job_sources(Job::Io, ALL), vec![Source::Bids, Source::Persons, Source::Auctions]);
}

#[test]
fn query_needs_only_its_own_files() {
    let only_bids = OpenedFiles { bids: true, auctions: false, persons: false };
    assert_eq!(
        job_sources(Job::Run { query: Query::Q2, optimised: false }, only_bids),
        vec![Source::Bids]
    );
}

#[test]
fn io_drains_only_the_files_that_opened() {
    let files = |bids, auctions, persons| OpenedFiles { bids, auctions, persons };
    assert_eq!(job_sources(Job::Io, files(true, false, true)), vec![Source::Bids, Source::Persons]);
    assert_eq!(job_sources(Job::Io, files(false, true, false)), vec![Source::Auctions]);
    assert_eq!(job_sources(Job::Io, files(false, false, false)), Vec::<Source>::new());
}

#[test]
fn data_paths() {
    assert_eq!(data_path("data", Source::Bids), "data/bids.csv");
    assert_eq!(data_path("/tmp/x", Source::Auctions), "/tmp/x/auctions.csv");
    assert_eq!(data_path("", Source::Persons), "/persons.csv");
}

#[test]
fn command_line() {
    let args = |list: &[&str]| list.iter().map(|s| s.to_string()).collect::<Vec<_>>();
    assert_eq!(host_command(&args(&["host"])), HostCommand::Usage);
    assert_eq!(host_command(&args(&["host", "data"])), HostCommand::Usage);
    assert_eq!(
        host_command(&args(&["host", "data", "q2-opt", "extra"])),
        HostCommand::Run {
            dir: "data".to_string(),
            job: Some(Job::Run { query: Query::Q2, optimised: true })
        }
    );
    assert_eq!(
        host_command(&args(&["host", "data", "q9"])),
        HostCommand::Run { dir: "data".to_string(), job: None }
    );
}
