//! The order of work for one server.
//!
//! Validating a server is a sequence of actions that only the caller can
//! perform: a probe through the relay, a geolocation lookup, a request for the
//! info page, a write to the registry. `ServerRun` decides which action comes
//! next. The caller performs the pending action, reports what happened as an
//! `Event`, and goes on until the pending action is `Finish`. Servers are
//! handled one after another, each by a run of its own, so that nothing that
//! happens to one server reaches the next.

use crate::database::{Server, ServerStatus, StatusView};
use crate::geoip::{country_of, get_country, tor_country, GeoLookup};
use crate::smp::{
    info_page_url, is_info_page_available, page_url, shows_marker, ProbeError,
    INFO_PAGE_TIMEOUT_SECS,
};
use crate::uri_parser::{
    classify, is_official, is_onion, is_onion_domain, is_recognised, parse_uri, primary_domain,
};
use vstd::prelude::*;
use vstd::string::StringExecFns;

verus! {

/// What a pass is run with.
#[derive(Debug)]
pub struct Settings {
    /// How many probes a server gets at most.
    pub retry_count: u32,
    /// Whether results are computed but not written.
    pub dry: bool,
    /// The SOCKS5 proxy through which info pages of onion hosts are fetched.
    pub tor_socks5_proxy: String,
    /// Whether the registry lets the operator's own servers be deleted.
    pub delete_official: bool,
}

/// Why a server was given up.
#[derive(Clone, Copy, Debug, PartialEq, Eq, Structural)]
pub enum EngineError {
    /// The address of the server has no scheme that is validated.
    InvalidUri,
    /// The last probe that was allowed found no connection to the relay.
    ConnectionFailed,
    /// The registry did not delete the server.
    DeletionFailed,
    /// The registry did not take the status.
    PersistenceFailed,
}

/// How the work on a server ended.
#[derive(Clone, Copy, Debug, PartialEq, Eq, Structural)]
pub enum Outcome {
    /// The server is the operator's own and was deleted from the registry.
    Deleted,
    /// The server is the operator's own and was left alone.
    Excluded,
    /// The status was written.
    Recorded,
    /// The status was computed and, in a dry pass, not written.
    Suppressed,
    /// The server was given up.
    Failed(EngineError),
}

/// Where the work on a server stands.
#[derive(Clone, Copy, Debug, PartialEq, Eq, Structural)]
pub enum Phase {
    /// The deletion of the server is pending.
    Deleting,
    /// A probe is pending.
    Testing,
    /// The lookup of the country is pending.
    Locating,
    /// The request for the info page is pending.
    Checking,
    /// The write of the status is pending.
    Storing,
    /// Nothing is pending.
    Done(Outcome),
}

/// What the caller reports after it has performed an action.
#[derive(Debug)]
pub enum Event {
    /// Whether the registry deleted the server.
    Deleted(bool),
    /// What the probe found, or why it found nothing.
    Probed(Result<bool, ProbeError>),
    /// What the lookup of the country found.
    Located(GeoLookup),
    /// The body of the info page, or `None` where the request failed.
    Fetched(Option<String>),
    /// Whether the registry took the status.
    Stored(bool),
}

/// What the caller is to do next.
#[derive(Debug)]
pub enum Action<'a> {
    /// Delete the server from the registry.
    Delete { uuid: &'a str },
    /// Open a connection to the relay and probe the server.
    Probe { uri: &'a str, attempt: u32 },
    /// Resolve the domain and look its address up.
    Locate { domain: &'a str },
    /// Request the info page.
    Fetch { url: String, proxy: Option<&'a str>, timeout_secs: u64 },
    /// Write the status to the registry.
    Store(ServerStatus<'a>),
    /// Go on to the next server.
    Finish(Outcome),
}

/// An `Action` with its strings as character sequences.
pub enum ActionView {
    Delete { uuid: Seq<char> },
    Probe { uri: Seq<char>, attempt: nat },
    Locate { domain: Seq<char> },
    Fetch { url: Seq<char>, proxy: Option<Seq<char>>, timeout_secs: nat },
    Store(StatusView),
    Finish(Outcome),
}

/// What does not change while a server is worked on.
pub struct Job {
    pub uuid: Seq<char>,
    pub uri: Seq<char>,
    /// The domain that is located and whose info page is fetched.
    pub domain: Seq<char>,
    pub official: bool,
    /// Whether the address has a scheme that is validated.
    pub valid: bool,
    /// Whether that domain is an onion host.
    pub onion: bool,
    pub retry_count: nat,
    pub dry: bool,
    pub delete_official: bool,
    pub proxy: Seq<char>,
}

/// What has been found out about a server so far.
pub struct Progress {
    pub phase: Phase,
    /// How many probes were asked for, the pending one included.
    pub attempts: nat,
    pub status: bool,
    pub country: Option<Seq<char>>,
    pub info_page_available: bool,
}

/// The work on one server.
#[derive(Debug)]
pub struct ServerRun {
    uuid: String,
    uri: String,
    domain: String,
    proxy: String,
    official: bool,
    valid: bool,
    onion: bool,
    retry_count: u32,
    dry: bool,
    delete_official: bool,
    phase: Phase,
    attempts: u32,
    status: bool,
    country: Option<String>,
    info_page_available: bool,
}

impl<'a> View for Action<'a> {
    type V = ActionView;

    open spec fn view(&self) -> ActionView {
        match *self {
            Action::Delete { uuid } => ActionView::Delete { uuid: uuid@ },
            Action::Probe { uri, attempt } => ActionView::Probe { uri: uri@, attempt: attempt as nat },
            Action::Locate { domain } => ActionView::Locate { domain: domain@ },
            Action::Fetch { url, proxy, timeout_secs } => ActionView::Fetch {
                url: url@,
                proxy: match proxy {
                    Some(p) => Some(p@),
                    None => None,
                },
                timeout_secs: timeout_secs as nat,
            },
            Action::Store(record) => ActionView::Store(record@),
            Action::Finish(outcome) => ActionView::Finish(outcome),
        }
    }
}

/// The job that `server` is under `settings`.
pub open spec fn job_of(server: Server, settings: Settings) -> Job {
    Job {
        uuid: server.uuid@,
        uri: server.uri_view(),
        domain: primary_domain(server.host@),
        official: is_official(server.host@),
        valid: is_recognised(server.uri_view()),
        onion: is_onion(primary_domain(server.host@)),
        retry_count: settings.retry_count as nat,
        dry: settings.dry,
        delete_official: settings.delete_official,
        proxy: settings.tor_socks5_proxy@,
    }
}

/// Whether a probe outcome confirms that the server is alive.
pub open spec fn confirms(outcome: Result<bool, ProbeError>) -> bool {
    outcome == Ok::<bool, ProbeError>(true)
}

/// The country that a lookup answer gives a domain, if any.
pub open spec fn located(domain: Seq<char>, lookup: GeoLookup) -> Option<Seq<char>> {
    match country_of(domain, lookup) {
        Ok(code) => Some(code),
        Err(_) => None,
    }
}

/// Whether a fetched body, if any, makes the info page available.
pub open spec fn available(body: Option<String>) -> bool {
    match body {
        Some(text) => shows_marker(text@),
        None => false,
    }
}

/// Where the work stands once the probes are over with `status`: a server
/// whose domain is an onion host has its country without a lookup, every
/// other server is located.
pub open spec fn after_testing(job: Job, attempts: nat, status: bool) -> Progress {
    if job.onion {
        Progress {
            phase: Phase::Checking,
            attempts,
            status,
            country: Some(tor_country()),
            info_page_available: false,
        }
    } else {
        Progress {
            phase: Phase::Locating,
            attempts,
            status,
            country: None,
            info_page_available: false,
        }
    }
}

/// Where the work on a server begins. The operator's own server is deleted
/// or left alone; a server whose address has no validated scheme is given up;
/// every other server is probed, unless no probe is allowed.
pub open spec fn initial(job: Job) -> Progress {
    let blank = Progress {
        phase: Phase::Testing,
        attempts: 0,
        status: false,
        country: None,
        info_page_available: false,
    };
    if job.official {
        if job.delete_official {
            Progress { phase: Phase::Deleting, ..blank }
        } else {
            Progress { phase: Phase::Done(Outcome::Excluded), ..blank }
        }
    } else if !job.valid {
        Progress { phase: Phase::Done(Outcome::Failed(EngineError::InvalidUri)), ..blank }
    } else if job.retry_count == 0 {
        after_testing(job, 0, false)
    } else {
        Progress { attempts: 1, ..blank }
    }
}

/// Where the work stands after `event`. A probe that does not confirm the
/// server uses up one attempt, whether it found the server down or found no
/// connection; after the last allowed one the server is down in the first
/// case and given up in the second. An event that does not answer the
/// pending action changes nothing.
pub open spec fn next(job: Job, at: Progress, event: Event) -> Progress {
    match (at.phase, event) {
        (Phase::Deleting, Event::Deleted(done)) => Progress {
            phase: Phase::Done(
                if done {
                    Outcome::Deleted
                } else {
                    Outcome::Failed(EngineError::DeletionFailed)
                },
            ),
            ..at
        },
        (Phase::Testing, Event::Probed(outcome)) => if confirms(outcome) {
            after_testing(job, at.attempts, true)
        } else if at.attempts < job.retry_count {
            Progress { attempts: at.attempts + 1, ..at }
        } else if outcome is Err {
            Progress { phase: Phase::Done(Outcome::Failed(EngineError::ConnectionFailed)), ..at }
        } else {
            after_testing(job, at.attempts, false)
        },
        (Phase::Locating, Event::Located(lookup)) => Progress {
            phase: Phase::Checking,
            country: located(job.domain, lookup),
            ..at
        },
        (Phase::Checking, Event::Fetched(body)) => Progress {
            phase: if job.dry {
                Phase::Done(Outcome::Suppressed)
            } else {
                Phase::Storing
            },
            info_page_available: available(body),
            ..at
        },
        (Phase::Storing, Event::Stored(done)) => Progress {
            phase: Phase::Done(
                if done {
                    Outcome::Recorded
                } else {
                    Outcome::Failed(EngineError::PersistenceFailed)
                },
            ),
            ..at
        },
        _ => at,
    }
}

/// The status of the server as far as it is known.
pub open spec fn record_of(job: Job, at: Progress) -> StatusView {
    StatusView {
        server_uuid: job.uuid,
        status: at.status,
        country: at.country,
        info_page_available: at.info_page_available,
    }
}

/// Whether the info page is fetched through the proxy: if and only if the
/// country is the sentinel of the anonymized network.
pub open spec fn via_proxy(at: Progress) -> bool {
    at.country == Some(tor_country())
}

/// The action that is pending.
pub open spec fn action_of(job: Job, at: Progress) -> ActionView {
    match at.phase {
        Phase::Deleting => ActionView::Delete { uuid: job.uuid },
        Phase::Testing => ActionView::Probe { uri: job.uri, attempt: at.attempts },
        Phase::Locating => ActionView::Locate { domain: job.domain },
        Phase::Checking => ActionView::Fetch {
            url: page_url(job.domain, via_proxy(at)),
            proxy: if via_proxy(at) {
                Some(job.proxy)
            } else {
                None
            },
            timeout_secs: INFO_PAGE_TIMEOUT_SECS as nat,
        },
        Phase::Storing => ActionView::Store(record_of(job, at)),
        Phase::Done(outcome) => ActionView::Finish(outcome),
    }
}

impl ServerRun {
    /// What does not change while the server is worked on.
    pub closed spec fn job(&self) -> Job {
        Job {
            uuid: self.uuid@,
            uri: self.uri@,
            domain: self.domain@,
            official: self.official,
            valid: self.valid,
            onion: self.onion,
            retry_count: self.retry_count as nat,
            dry: self.dry,
            delete_official: self.delete_official,
            proxy: self.proxy@,
        }
    }

    /// Where the work stands.
    pub closed spec fn progress(&self) -> Progress {
        Progress {
            phase: self.phase,
            attempts: self.attempts as nat,
            status: self.status,
            country: match self.country {
                Some(code) => Some(code@),
                None => None,
            },
            info_page_available: self.info_page_available,
        }
    }

    /// Begins the work on `server`.
    pub fn begin(server: &Server, settings: &Settings) -> (run: ServerRun)
        ensures
            run.job() == job_of(*server, *settings),
            run.progress() == initial(run.job()),
    {
        let uri = server.uri();
        let info = classify(server.host.as_str());
        let valid = parse_uri(uri.as_str()).is_ok();
        let domain = info.hosts[0].clone();
        let onion = is_onion_domain(domain.as_str());
        let official = info.is_official;
        let mut run = ServerRun {
            uuid: server.uuid.clone(),
            uri,
            domain,
            proxy: settings.tor_socks5_proxy.clone(),
            official,
            valid,
            onion,
            retry_count: settings.retry_count,
            dry: settings.dry,
            delete_official: settings.delete_official,
            phase: Phase::Testing,
            attempts: 0,
            status: false,
            country: None,
            info_page_available: false,
        };
        if official {
            if settings.delete_official {
                run.phase = Phase::Deleting;
            } else {
                run.phase = Phase::Done(Outcome::Excluded);
            }
        } else if !valid {
            run.phase = Phase::Done(Outcome::Failed(EngineError::InvalidUri));
        } else if settings.retry_count == 0 {
            run.leave_testing(false);
        } else {
            run.attempts = 1;
        }
        run
    }

    /// Ends the probes with `status`.
    fn leave_testing(&mut self, status: bool)
        ensures
            final(self).job() == old(self).job(),
            final(self).progress() == after_testing(
                old(self).job(),
                old(self).progress().attempts,
                status,
            ),
    {
        self.status = status;
        self.info_page_available = false;
        if self.onion {
            self.phase = Phase::Checking;
            self.country = Some(String::from_str("TOR"));
        } else {
            self.phase = Phase::Locating;
            self.country = None;
        }
    }

    /// Takes in what happened when the caller performed the pending action.
    /// An event that does not answer the pending action changes nothing.
    pub fn advance(&mut self, event: Event)
        ensures
            final(self).job() == old(self).job(),
            final(self).progress() == next(old(self).job(), old(self).progress(), event),
    {
        match event {
            Event::Deleted(done) => {
                if let Phase::Deleting = self.phase {
                    self.phase = Phase::Done(
                        if done {
                            Outcome::Deleted
                        } else {
                            Outcome::Failed(EngineError::DeletionFailed)
                        },
                    );
                }
            },
            Event::Probed(outcome) => {
                if let Phase::Testing = self.phase {
                    let confirmed = match outcome {
                        Ok(alive) => alive,
                        Err(_) => false,
                    };
                    if confirmed {
                        self.leave_testing(true);
                    } else if self.attempts < self.retry_count {
                        self.attempts = self.attempts + 1;
                    } else if outcome.is_err() {
                        self.phase = Phase::Done(Outcome::Failed(EngineError::ConnectionFailed));
                    } else {
                        self.leave_testing(false);
                    }
                }
            },
            Event::Located(lookup) => {
                if let Phase::Locating = self.phase {
                    self.phase = Phase::Checking;
                    self.country = match get_country(self.domain.as_str(), &lookup) {
                        Ok(code) => Some(code),
                        Err(_) => None,
                    };
                }
            },
            Event::Fetched(body) => {
                if let Phase::Checking = self.phase {
                    self.info_page_available = match &body {
                        Some(text) => is_info_page_available(Some(text.as_str())),
                        None => is_info_page_available(None),
                    };
                    if self.dry {
                        self.phase = Phase::Done(Outcome::Suppressed);
                    } else {
                        self.phase = Phase::Storing;
                    }
                }
            },
            Event::Stored(done) => {
                if let Phase::Storing = self.phase {
                    self.phase = Phase::Done(
                        if done {
                            Outcome::Recorded
                        } else {
                            Outcome::Failed(EngineError::PersistenceFailed)
                        },
                    );
                }
            },
        }
    }

    /// The status of the server as far as it is known. It is complete once
    /// the pending action is `Store` or the work has ended after the info
    /// page was fetched.
    pub fn status_record(&self) -> (record: ServerStatus<'_>)
        ensures
            record@ == record_of(self.job(), self.progress()),
    {
        ServerStatus {
            server_uuid: self.uuid.as_str(),
            status: self.status,
            country: match &self.country {
                Some(code) => Some(code.as_str()),
                None => None,
            },
            info_page_available: self.info_page_available,
        }
    }

    /// Whether the country of the server is the sentinel of the anonymized
    /// network.
    fn country_is_tor(&self) -> (r: bool)
        ensures
            r == via_proxy(self.progress()),
    {
        match &self.country {
            Some(code) => {
                let found = crate::text::chars_of(code.as_str());
                let tor = crate::text::chars_of("TOR");
                crate::text::same_chars(&found, &tor)
            },
            None => false,
        }
    }

    /// The action that the caller is to perform next.
    pub fn pending(&self) -> (action: Action<'_>)
        ensures
            action@ == action_of(self.job(), self.progress()),
    {
        match self.phase {
            Phase::Deleting => Action::Delete { uuid: self.uuid.as_str() },
            Phase::Testing => Action::Probe { uri: self.uri.as_str(), attempt: self.attempts },
            Phase::Locating => Action::Locate { domain: self.domain.as_str() },
            Phase::Checking => {
                let proxied = self.country_is_tor();
                Action::Fetch {
                    url: info_page_url(self.domain.as_str(), proxied),
                    proxy: if proxied {
                        Some(self.proxy.as_str())
                    } else {
                        None
                    },
                    timeout_secs: INFO_PAGE_TIMEOUT_SECS,
                }
            },
            Phase::Storing => Action::Store(self.status_record()),
            Phase::Done(outcome) => Action::Finish(outcome),
        }
    }

    /// The identifier of the server in the registry.
    pub fn uuid(&self) -> (uuid: &str)
        ensures
            uuid@ == self.job().uuid,
    {
        self.uuid.as_str()
    }

    /// The canonical address of the server.
    pub fn uri(&self) -> (uri: &str)
        ensures
            uri@ == self.job().uri,
    {
        self.uri.as_str()
    }

    /// Whether the work on the server has ended.
    pub fn is_done(&self) -> (done: bool)
        ensures
            done == (self.progress().phase is Done),
    {
        match self.phase {
            Phase::Done(_) => true,
            _ => false,
        }
    }
}

} // verus!
