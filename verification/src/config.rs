//! The parameters of one run, fixed before the first request is sent.

use vstd::prelude::*;
use vstd::string::*;
use vstd::utf8::encode_utf8;
use crate::duration::RunDuration;
use crate::header::{find_colon, parts};
use crate::method::HttpMethods;
use crate::schedule::Schedule;
use crate::scheduler::ArrivalScheduler;

verus! {

/// Why a set of parameters cannot start a run.
#[derive(Clone, Copy, Debug, PartialEq, Eq, Structural)]
pub enum ConfigError {
    /// The run would have no worker to carry its requests.
    NoWorkers,
    /// A header line has no colon to part its name from its value.
    MalformedHeader,
}

impl ConfigError {
    /// The fault in words.
    pub open spec fn text(self) -> Seq<char> {
        match self {
            ConfigError::NoWorkers => "at least one thread is required"@,
            ConfigError::MalformedHeader => "a header needs a colon between name and value"@,
        }
    }

    /// Says in words what is wrong with the parameters.
    pub fn message(&self) -> (message: &'static str)
        ensures
            message@ == self.text(),
    {
        match self {
            ConfigError::NoWorkers => "at least one thread is required",
            ConfigError::MalformedHeader => "a header needs a colon between name and value",
        }
    }
}

/// Whether `line` is a header line: a name, a colon, a value.
pub open spec fn is_header(line: Seq<char>) -> bool {
    parts(encode_utf8(line)) is Some
}

/// Whether every one of `lines` is a header line.
pub open spec fn all_headers(lines: Seq<Seq<char>>) -> bool {
    forall|i: int| 0 <= i < lines.len() ==> is_header(#[trigger] lines[i])
}

/// The parameters of a run as plain values.
pub struct Settings {
    pub method: HttpMethods,
    pub url: Seq<char>,
    /// Header lines in the order given; a line may occur twice.
    pub headers: Seq<Seq<char>>,
    pub body: Option<Seq<char>>,
    pub duration: RunDuration,
    /// Target admissions per second; zero lifts the limit.
    pub rate: u32,
    /// Workers that carry the requests; at least one.
    pub threads: usize,
}

impl Settings {
    /// What is wrong with these parameters, if anything. The worker count
    /// is looked at first, then the header lines.
    pub open spec fn fault(self) -> Option<ConfigError> {
        if self.threads == 0 {
            Some(ConfigError::NoWorkers)
        } else if !all_headers(self.headers) {
            Some(ConfigError::MalformedHeader)
        } else {
            None
        }
    }
}

/// The texts of `lines`, in order.
pub open spec fn texts(lines: Seq<String>) -> Seq<Seq<char>> {
    Seq::new(lines.len(), |i: int| lines[i]@)
}

/// The text of `body`, if there is one.
pub open spec fn body_text(body: Option<String>) -> Option<Seq<char>> {
    match body {
        Some(text) => Some(text@),
        None => None,
    }
}

/// The worker count `threads` as a run accepts it: a run needs at least
/// one worker.
pub open spec fn checked_threads(threads: usize) -> Result<usize, ConfigError> {
    if threads >= 1 {
        Ok(threads)
    } else {
        Err(ConfigError::NoWorkers)
    }
}

/// Accepts a worker count of at least one.
pub fn check_threads(threads: usize) -> (r: Result<usize, ConfigError>)
    ensures
        r == checked_threads(threads),
{
    if threads >= 1 {
        Ok(threads)
    } else {
        Err(ConfigError::NoWorkers)
    }
}

/// `num_cpus::get`: the number of logical CPUs this process may use. The
/// answer is the machine's, so nothing is stated of it.
#[verifier::external_body]
fn detected_cpus() -> usize {
    num_cpus::get()
}

/// Settles the worker count of a run: the requested one, or where none is
/// requested, one worker per CPU of this machine.
pub fn resolve_threads(requested: Option<usize>) -> (r: Result<usize, ConfigError>)
    ensures
        requested matches Some(threads) ==> r == checked_threads(threads),
        r matches Ok(threads) ==> threads >= 1,
        r matches Err(why) ==> why == ConfigError::NoWorkers,
{
    match requested {
        Some(threads) => check_threads(threads),
        None => check_threads(detected_cpus()),
    }
}

/// Whether every one of `lines` holds a colon.
fn only_headers(lines: &Vec<String>) -> (all: bool)
    ensures
        all == all_headers(texts(lines@)),
{
    let mut i: usize = 0;
    while i < lines.len()
        invariant
            i <= lines@.len(),
            forall|j: int| 0 <= j < i ==> is_header(#[trigger] texts(lines@)[j]),
        decreases lines.len() - i,
    {
        if find_colon(lines[i].as_str().as_bytes()).is_none() {
            assert(!is_header(texts(lines@)[i as int]));
            return false;
        }
        i = i + 1;
    }
    true
}

/// The parameters of a run. Once made they do not change.
#[derive(Debug)]
pub struct BenchmarkConfig {
    method: HttpMethods,
    url: String,
    headers: Vec<String>,
    body: Option<String>,
    duration: RunDuration,
    rate: u32,
    threads: usize,
}

/// What one request is made of. It borrows from the parameters of the run.
#[derive(Debug)]
pub struct RequestDescriptor<'a> {
    pub method: HttpMethods,
    pub url: &'a str,
    /// Header lines in the order given; `split_header` parts each.
    pub headers: &'a Vec<String>,
    pub body: Option<&'a str>,
}

impl View for BenchmarkConfig {
    type V = Settings;

    closed spec fn view(&self) -> Settings {
        Settings {
            method: self.method,
            url: self.url@,
            headers: texts(self.headers@),
            body: body_text(self.body),
            duration: self.duration,
            rate: self.rate,
            threads: self.threads,
        }
    }
}

impl BenchmarkConfig {
    #[verifier::type_invariant]
    spec fn inv(&self) -> bool {
        self@.fault() is None
    }

    /// Puts the parameters of a run together. A run without workers is
    /// refused, and so is a header line without a colon; everything else
    /// is taken as given.
    pub fn new(
        method: HttpMethods,
        url: String,
        headers: Vec<String>,
        body: Option<String>,
        duration: RunDuration,
        rate: u32,
        threads: usize,
    ) -> (r: Result<BenchmarkConfig, ConfigError>)
        ensures
            ({
                let given = Settings {
                    method,
                    url: url@,
                    headers: texts(headers@),
                    body: body_text(body),
                    duration,
                    rate,
                    threads,
                };
                match r {
                    Ok(config) => given.fault() is None && config@ == given,
                    Err(why) => given.fault() == Some(why),
                }
            }),
    {
        if threads == 0 {
            return Err(ConfigError::NoWorkers);
        }
        if !only_headers(&headers) {
            return Err(ConfigError::MalformedHeader);
        }
        Ok(BenchmarkConfig { method, url, headers, body, duration, rate, threads })
    }

    pub fn method(&self) -> (method: HttpMethods)
        ensures
            method == self@.method,
    {
        self.method
    }

    pub fn url(&self) -> (url: &str)
        ensures
            url@ == self@.url,
    {
        self.url.as_str()
    }

    /// The header lines, in the order given. Each holds a colon.
    pub fn headers(&self) -> (headers: &Vec<String>)
        ensures
            texts(headers@) == self@.headers,
            all_headers(self@.headers),
    {
        proof {
            use_type_invariant(self);
        }
        &self.headers
    }

    pub fn body(&self) -> (body: Option<&str>)
        ensures
            match body {
                Some(text) => self@.body == Some(text@),
                None => self@.body is None,
            },
    {
        match &self.body {
            Some(text) => Some(text.as_str()),
            None => None,
        }
    }

    pub fn duration(&self) -> (duration: RunDuration)
        ensures
            duration == self@.duration,
    {
        self.duration
    }

    pub fn rate(&self) -> (rate: u32)
        ensures
            rate == self@.rate,
    {
        self.rate
    }

    /// The worker count, which is never zero.
    pub fn threads(&self) -> (threads: usize)
        ensures
            threads == self@.threads,
            threads >= 1,
    {
        proof {
            use_type_invariant(self);
        }
        self.threads
    }

    /// What each request of the run is made of: the configured method,
    /// URL, header lines and body.
    pub fn request(&self) -> (request: RequestDescriptor<'_>)
        ensures
            request.method == self@.method,
            request.url@ == self@.url,
            texts(request.headers@) == self@.headers,
            all_headers(self@.headers),
            match request.body {
                Some(text) => self@.body == Some(text@),
                None => self@.body is None,
            },
    {
        RequestDescriptor {
            method: self.method,
            url: self.url(),
            headers: self.headers(),
            body: self.body(),
        }
    }

    /// Begins the run at clock reading `start`: a scheduler with this
    /// run's duration and rate that has admitted nothing yet.
    pub fn scheduler(&self, start: u64) -> (scheduler: ArrivalScheduler)
        ensures
            scheduler@ == Schedule::fresh(start, self@.duration, self@.rate),
    {
        ArrivalScheduler::new(start, self.duration, self.rate)
    }
}

} // verus!
