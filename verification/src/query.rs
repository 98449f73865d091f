use vstd::prelude::*;

verus! {

/// A Nexmark query that the stream host runs.
#[derive(Debug, Clone, Copy, PartialEq, Eq, Structural)]
pub enum Query {
    Q1,
    Q2,
    Q3,
    Q4,
    Q5,
    Q6,
    Q7,
}

/// What the stream host is asked to do: run a query, in its plain or its
/// optimised form, or only read all inputs.
#[derive(Debug, Clone, Copy, PartialEq, Eq, Structural)]
pub enum Job {
    Run { query: Query, optimised: bool },
    Io,
}

/// The event files the stream host reads.
#[derive(Debug, Clone, Copy, PartialEq, Eq, Structural)]
pub enum Source {
    Bids,
    Auctions,
    Persons,
}

/// The job that `name` asks for: `q1` to `q7`, the same with `-opt`, or
/// `io`; any other name asks for none.
pub open spec fn spec_job(name: Seq<char>) -> Option<Job> {
    if name == "q1"@ {
        Some(Job::Run { query: Query::Q1, optimised: false })
    } else if name == "q2"@ {
        Some(Job::Run { query: Query::Q2, optimised: false })
    } else if name == "q3"@ {
        Some(Job::Run { query: Query::Q3, optimised: false })
    } else if name == "q4"@ {
        Some(Job::Run { query: Query::Q4, optimised: false })
    } else if name == "q5"@ {
        Some(Job::Run { query: Query::Q5, optimised: false })
    } else if name == "q6"@ {
        Some(Job::Run { query: Query::Q6, optimised: false })
    } else if name == "q7"@ {
        Some(Job::Run { query: Query::Q7, optimised: false })
    } else if name == "q1-opt"@ {
        Some(Job::Run { query: Query::Q1, optimised: true })
    } else if name == "q2-opt"@ {
        Some(Job::Run { query: Query::Q2, optimised: true })
    } else if name == "q3-opt"@ {
        Some(Job::Run { query: Query::Q3, optimised: true })
    } else if name == "q4-opt"@ {
        Some(Job::Run { query: Query::Q4, optimised: true })
    } else if name == "q5-opt"@ {
        Some(Job::Run { query: Query::Q5, optimised: true })
    } else if name == "q6-opt"@ {
        Some(Job::Run { query: Query::Q6, optimised: true })
    } else if name == "q7-opt"@ {
        Some(Job::Run { query: Query::Q7, optimised: true })
    } else if name == "io"@ {
        Some(Job::Io)
    } else {
        None
    }
}

/// Whether `s` and `t` hold the same characters.
fn same_text(s: &str, t: &str) -> (same: bool)
    ensures
        same == (s@ == t@),
{
    let n = s.unicode_len();
    if n != t.unicode_len() {
        return false;
    }
    let mut i: usize = 0;
    while i < n
        invariant
            n == s@.len(),
            n == t@.len(),
            i <= n,
            forall|k: int| 0 <= k < i ==> s@[k] == t@[k],
        decreases n - i,
    {
        if s.get_char(i) != t.get_char(i) {
            return false;
        }
        i = i + 1;
    }
    assert(s@ =~= t@);
    true
}

/// The job that the command-line name `name` asks for.
pub fn job_from_name(name: &str) -> (job: Option<Job>)
    ensures
        job == spec_job(name@),
{
    if same_text(name, "q1") {
        Some(Job::Run { query: Query::Q1, optimised: false })
    } else if same_text(name, "q2") {
        Some(Job::Run { query: Query::Q2, optimised: false })
    } else if same_text(name, "q3") {
        Some(Job::Run { query: Query::Q3, optimised: false })
    } else if same_text(name, "q4") {
        Some(Job::Run { query: Query::Q4, optimised: false })
    } else if same_text(name, "q5") {
        Some(Job::Run { query: Query::Q5, optimised: false })
    } else if same_text(name, "q6") {
        Some(Job::Run { query: Query::Q6, optimised: false })
    } else if same_text(name, "q7") {
        Some(Job::Run { query: Query::Q7, optimised: false })
    } else if same_text(name, "q1-opt") {
        Some(Job::Run { query: Query::Q1, optimised: true })
    } else if same_text(name, "q2-opt") {
        Some(Job::Run { query: Query::Q2, optimised: true })
    } else if same_text(name, "q3-opt") {
        Some(Job::Run { query: Query::Q3, optimised: true })
    } else if same_text(name, "q4-opt") {
        Some(Job::Run { query: Query::Q4, optimised: true })
    } else if same_text(name, "q5-opt") {
        Some(Job::Run { query: Query::Q5, optimised: true })
    } else if same_text(name, "q6-opt") {
        Some(Job::Run { query: Query::Q6, optimised: true })
    } else if same_text(name, "q7-opt") {
        Some(Job::Run { query: Query::Q7, optimised: true })
    } else if same_text(name, "io") {
        Some(Job::Io)
    } else {
        None
    }
}

/// The event streams that a query reads, in the order it takes them.
pub open spec fn spec_query_sources(query: Query) -> Seq<Source> {
    match query {
        Query::Q1 => seq![Source::Bids],
        Query::Q2 => seq![Source::Bids],
        Query::Q3 => seq![Source::Auctions, Source::Persons],
        Query::Q4 => seq![Source::Auctions, Source::Bids],
        Query::Q5 => seq![Source::Bids],
        Query::Q6 => seq![Source::Auctions, Source::Bids],
        Query::Q7 => seq![Source::Bids],
    }
}

/// Which of the event files opened.
#[derive(Debug, Clone, Copy, PartialEq, Eq, Structural)]
pub struct OpenedFiles {
    pub bids: bool,
    pub auctions: bool,
    pub persons: bool,
}

/// Whether the file of `source` opened.
pub open spec fn opened(files: OpenedFiles, source: Source) -> bool {
    match source {
        Source::Bids => files.bids,
        Source::Auctions => files.auctions,
        Source::Persons => files.persons,
    }
}

/// `seq![source]` when its file opened, else nothing.
pub open spec fn if_opened(files: OpenedFiles, source: Source) -> Seq<Source> {
    if opened(files, source) {
        seq![source]
    } else {
        Seq::empty()
    }
}

/// Whether `job` can run with the files that opened: a query needs every
/// file it reads; reading only drains whichever files opened.
pub open spec fn job_runnable(job: Job, files: OpenedFiles) -> bool {
    match job {
        Job::Run { query, .. } => forall|k: int|
            0 <= k < spec_query_sources(query).len() ==> opened(
                files,
                #[trigger] spec_query_sources(query)[k],
            ),
        Job::Io => true,
    }
}

/// The event streams that a job reads, given the files that opened: a
/// query's own, in its plain or its optimised form alike; reading only
/// drains bids, persons and auctions, each only if its file opened.
pub open spec fn spec_job_sources(job: Job, files: OpenedFiles) -> Seq<Source> {
    match job {
        Job::Run { query, .. } => spec_query_sources(query),
        Job::Io => if_opened(files, Source::Bids) + if_opened(files, Source::Persons) + if_opened(
            files,
            Source::Auctions,
        ),
    }
}

/// The event streams that `job` reads, in the order it takes them, given
/// the files that opened. A query cannot run when a file it reads did not
/// open.
pub fn job_sources(job: Job, files: OpenedFiles) -> (sources: Vec<Source>)
    requires
        job_runnable(job, files),
    ensures
        sources@ == spec_job_sources(job, files),
{
    let mut sources = Vec::new();
    match job {
        Job::Run { query, .. } => match query {
            Query::Q1 | Query::Q2 | Query::Q5 | Query::Q7 => {
                sources.push(Source::Bids);
            },
            Query::Q3 => {
                sources.push(Source::Auctions);
                sources.push(Source::Persons);
            },
            Query::Q4 | Query::Q6 => {
                sources.push(Source::Auctions);
                sources.push(Source::Bids);
            },
        },
        Job::Io => {
            if files.bids {
                sources.push(Source::Bids);
            }
            if files.persons {
                sources.push(Source::Persons);
            }
            if files.auctions {
                sources.push(Source::Auctions);
            }
        },
    }
    assert(sources@ =~= spec_job_sources(job, files));
    sources
}

/// The name of the file of `source` within the data directory.
pub open spec fn spec_file_name(source: Source) -> Seq<char> {
    match source {
        Source::Bids => "bids.csv"@,
        Source::Auctions => "auctions.csv"@,
        Source::Persons => "persons.csv"@,
    }
}

/// The path of the file of `source` within the data directory `dir`.
pub fn data_path(dir: &str, source: Source) -> (path: String)
    ensures
        path@ == dir@ + seq!['/'] + spec_file_name(source),
{
    let mut path = String::from_str(dir);
    path.append("/");
    proof {
        reveal_strlit("/");
    }
    match source {
        Source::Bids => path.append("bids.csv"),
        Source::Auctions => path.append("auctions.csv"),
        Source::Persons => path.append("persons.csv"),
    }
    path
}

/// What the stream host does with its command line.
#[derive(Debug, Clone, PartialEq, Eq)]
pub enum HostCommand {
    /// Too few arguments: show how to call the host.
    Usage,
    /// Read the event files in `dir` and do `job`; no job means the query
    /// name is unknown.
    Run { dir: String, job: Option<Job> },
}

/// Reads the stream host's command line: the program, the data directory,
/// then the query name; further arguments are not read.
pub fn host_command(args: &Vec<String>) -> (command: HostCommand)
    ensures
        args@.len() < 3 ==> command == HostCommand::Usage,
        args@.len() >= 3 ==> (command matches HostCommand::Run { dir, job } && dir@
            == args@[1]@ && job == spec_job(args@[2]@)),
{
    if args.len() < 3 {
        return HostCommand::Usage;
    }
    let dir = args[1].clone();
    let job = job_from_name(args[2].as_str());
    HostCommand::Run { dir, job }
}

/// Appending `-opt` to the name of a query asks for its optimised form.
pub proof fn lemma_opt_suffix_selects_optimised(name: Seq<char>, query: Query)
    requires
        spec_job(name) == Some(Job::Run { query, optimised: false }),
    ensures
        spec_job(name + "-opt"@) == Some(Job::Run { query, optimised: true }),
{
    reveal_strlit("q1");
    reveal_strlit("q2");
    reveal_strlit("q3");
    reveal_strlit("q4");
    reveal_strlit("q5");
    reveal_strlit("q6");
    reveal_strlit("q7");
    reveal_strlit("-opt");
    reveal_strlit("q1-opt");
    reveal_strlit("q2-opt");
    reveal_strlit("q3-opt");
    reveal_strlit("q4-opt");
    reveal_strlit("q5-opt");
    reveal_strlit("q6-opt");
    reveal_strlit("q7-opt");
    reveal_strlit("io");
    let full = name + "-opt"@;
    assert(name.len() == 2);
    assert(full.len() == 6);
    assert(full != "q1"@ && full != "q2"@ && full != "q3"@ && full != "q4"@);
    assert(full != "q5"@ && full != "q6"@ && full != "q7"@);
    assert(full[1] == name[1]);
    assert("q1-opt"@[1] == '1' && "q2-opt"@[1] == '2' && "q3-opt"@[1] == '3');
    assert("q4-opt"@[1] == '4' && "q5-opt"@[1] == '5' && "q6-opt"@[1] == '6');
    if name == "q1"@ {
        assert(full =~= "q1-opt"@);
    } else if name == "q2"@ {
        assert(full =~= "q2-opt"@);
    } else if name == "q3"@ {
        assert(full =~= "q3-opt"@);
    } else if name == "q4"@ {
        assert(full =~= "q4-opt"@);
    } else if name == "q5"@ {
        assert(full =~= "q5-opt"@);
    } else if name == "q6"@ {
        assert(full =~= "q6-opt"@);
    } else {
        assert(full =~= "q7-opt"@);
    }
}

/// Each query name selects the query of its number: `q<n>` selects query
/// `n` in its plain form and `q<n>-opt` in its optimised form, and `io`
/// selects reading only.
pub proof fn lemma_query_names_select_their_query()
    ensures
        spec_job("q1"@) == Some(Job::Run { query: Query::Q1, optimised: false }),
        spec_job("q2"@) == Some(Job::Run { query: Query::Q2, optimised: false }),
        spec_job("q3"@) == Some(Job::Run { query: Query::Q3, optimised: false }),
        spec_job("q4"@) == Some(Job::Run { query: Query::Q4, optimised: false }),
        spec_job("q5"@) == Some(Job::Run { query: Query::Q5, optimised: false }),
        spec_job("q6"@) == Some(Job::Run { query: Query::Q6, optimised: false }),
        spec_job("q7"@) == Some(Job::Run { query: Query::Q7, optimised: false }),
        spec_job("q1-opt"@) == Some(Job::Run { query: Query::Q1, optimised: true }),
        spec_job("q2-opt"@) == Some(Job::Run { query: Query::Q2, optimised: true }),
        spec_job("q3-opt"@) == Some(Job::Run { query: Query::Q3, optimised: true }),
        spec_job("q4-opt"@) == Some(Job::Run { query: Query::Q4, optimised: true }),
        spec_job("q5-opt"@) == Some(Job::Run { query: Query::Q5, optimised: true }),
        spec_job("q6-opt"@) == Some(Job::Run { query: Query::Q6, optimised: true }),
        spec_job("q7-opt"@) == Some(Job::Run { query: Query::Q7, optimised: true }),
        spec_job("io"@) == Some(Job::Io),
{
    reveal_strlit("q1");
    reveal_strlit("q2");
    reveal_strlit("q3");
    reveal_strlit("q4");
    reveal_strlit("q5");
    reveal_strlit("q6");
    reveal_strlit("q7");
    reveal_strlit("q1-opt");
    reveal_strlit("q2-opt");
    reveal_strlit("q3-opt");
    reveal_strlit("q4-opt");
    reveal_strlit("q5-opt");
    reveal_strlit("q6-opt");
    reveal_strlit("q7-opt");
    reveal_strlit("io");
    assert("q1"@.len() == 2 && "q1"@[1] == '1');
    assert("q1-opt"@.len() == 6 && "q1-opt"@[1] == '1');
    assert("q2"@.len() == 2 && "q2"@[1] == '2');
    assert("q2-opt"@.len() == 6 && "q2-opt"@[1] == '2');
    assert("q3"@.len() == 2 && "q3"@[1] == '3');
    assert("q3-opt"@.len() == 6 && "q3-opt"@[1] == '3');
    assert("q4"@.len() == 2 && "q4"@[1] == '4');
    assert("q4-opt"@.len() == 6 && "q4-opt"@[1] == '4');
    assert("q5"@.len() == 2 && "q5"@[1] == '5');
    assert("q5-opt"@.len() == 6 && "q5-opt"@[1] == '5');
    assert("q6"@.len() == 2 && "q6"@[1] == '6');
    assert("q6-opt"@.len() == 6 && "q6-opt"@[1] == '6');
    assert("q7"@.len() == 2 && "q7"@[1] == '7');
    assert("q7-opt"@.len() == 6 && "q7-opt"@[1] == '7');
    assert("io"@.len() == 2 && "io"@[1] == 'o');
}

/// Only the fifteen query names select a job; every other name selects none.
pub proof fn lemma_only_query_names_select_a_job(name: Seq<char>)
    requires
        spec_job(name) is Some,
    ensures
        name == "q1"@ || name == "q2"@ || name == "q3"@ || name == "q4"@ || name == "q5"@ || name == "q6"@ || name == "q7"@ || name == "q1-opt"@ || name == "q2-opt"@ || name == "q3-opt"@ || name == "q4-opt"@ || name == "q5-opt"@ || name == "q6-opt"@ || name == "q7-opt"@ || name == "io"@,
{
}

/// The streams each query reads, in its plain or optimised form and
/// whichever files opened: queries 1, 2, 5 and 7 read bids only; query 3
/// reads auctions then persons; queries 4 and 6 read auctions then bids.
/// Reading only drains bids, persons and auctions, in that order, each
/// exactly when its file opened.
pub proof fn lemma_job_sources_table(optimised: bool, files: OpenedFiles)
    ensures
        spec_job_sources(Job::Run { query: Query::Q1, optimised }, files) == seq![Source::Bids],
        spec_job_sources(Job::Run { query: Query::Q2, optimised }, files) == seq![Source::Bids],
        spec_job_sources(Job::Run { query: Query::Q3, optimised }, files) == seq![
            Source::Auctions,
            Source::Persons,
        ],
        spec_job_sources(Job::Run { query: Query::Q4, optimised }, files) == seq![
            Source::Auctions,
            Source::Bids,
        ],
        spec_job_sources(Job::Run { query: Query::Q5, optimised }, files) == seq![Source::Bids],
        spec_job_sources(Job::Run { query: Query::Q6, optimised }, files) == seq![
            Source::Auctions,
            Source::Bids,
        ],
        spec_job_sources(Job::Run { query: Query::Q7, optimised }, files) == seq![Source::Bids],
        spec_job_sources(Job::Io, files).len() == (if files.bids { 1int } else { 0 }) + (
        if files.persons { 1int } else { 0 }) + (if files.auctions { 1int } else { 0 }),
        forall|k: int|
            0 <= k < spec_job_sources(Job::Io, files).len() ==> opened(
                files,
                #[trigger] spec_job_sources(Job::Io, files)[k],
            ),
        files.bids ==> spec_job_sources(Job::Io, files)[0] == Source::Bids,
        files.auctions ==> spec_job_sources(Job::Io, files).last() == Source::Auctions,
        files.persons ==> spec_job_sources(Job::Io, files).contains(Source::Persons),
{
    let io = spec_job_sources(Job::Io, files);
    if files.persons {
        let k = if files.bids { 1int } else { 0int };
        assert(io[k] == Source::Persons);
    }
}

/// Each event file is named after its stream, with the `.csv` extension.
pub proof fn lemma_file_names()
    ensures
        spec_file_name(Source::Bids) == "bids.csv"@,
        spec_file_name(Source::Auctions) == "auctions.csv"@,
        spec_file_name(Source::Persons) == "persons.csv"@,
{
}

} // verus!
