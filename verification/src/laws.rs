//! What holds of the work on a server whatever the caller reports.
//!
//! Each law is stated over `initial`, `next` and `action_of`, the functions by
//! which `ServerRun` is specified, so that it holds of every run.

use crate::database::StatusView;
use crate::engine::{
    action_of, after_testing, available, confirms, initial, located, next, record_of, ActionView,
    EngineError, Event, Job, Outcome, Phase, Progress,
};
use crate::geoip::{tor_country, GeoLookup};
use crate::smp::{page_url, ProbeError, INFO_PAGE_TIMEOUT_SECS};
use vstd::prelude::*;

verus! {

/// Where the work stands after each of `events` in turn.
pub open spec fn run(job: Job, at: Progress, events: Seq<Event>) -> Progress
    decreases events.len(),
{
    if events.len() == 0 {
        at
    } else {
        run(job, next(job, at, events[0]), events.drop_first())
    }
}

/// How many of `events` answered a pending probe, that is, how many
/// connections to the relay the caller made.
pub open spec fn probes_made(job: Job, at: Progress, events: Seq<Event>) -> nat
    decreases events.len(),
{
    if events.len() == 0 {
        0
    } else {
        let here: nat = if at.phase is Testing && events[0] is Probed {
            1
        } else {
            0
        };
        here + probes_made(job, next(job, at, events[0]), events.drop_first())
    }
}

/// How many of `events` answered a pending write of the status.
pub open spec fn writes_made(job: Job, at: Progress, events: Seq<Event>) -> nat
    decreases events.len(),
{
    if events.len() == 0 {
        0
    } else {
        let here: nat = if at.phase is Storing && events[0] is Stored {
            1
        } else {
            0
        };
        here + writes_made(job, next(job, at, events[0]), events.drop_first())
    }
}

/// The work on the server went past the lookup of the country.
pub open spec fn located_already(phase: Phase) -> bool {
    match phase {
        Phase::Checking | Phase::Storing => true,
        Phase::Done(Outcome::Recorded) | Phase::Done(Outcome::Suppressed) => true,
        Phase::Done(Outcome::Failed(EngineError::PersistenceFailed)) => true,
        _ => false,
    }
}

/// What holds of the work on a server wherever it stands.
pub open spec fn sound(job: Job, at: Progress) -> bool {
    &&& at.attempts <= job.retry_count
    &&& at.phase is Testing ==> 1 <= at.attempts && !at.status
    &&& job.official <==> (at.phase is Deleting || at.phase == Phase::Done(Outcome::Deleted)
        || at.phase == Phase::Done(Outcome::Excluded) || at.phase == Phase::Done(
        Outcome::Failed(EngineError::DeletionFailed),
    ))
    &&& !job.official && !job.valid <==> at.phase == Phase::Done(
        Outcome::Failed(EngineError::InvalidUri),
    )
    &&& at.phase is Storing || at.phase == Phase::Done(Outcome::Recorded) || at.phase
        == Phase::Done(Outcome::Failed(EngineError::PersistenceFailed)) ==> !job.dry
    &&& at.phase == Phase::Done(Outcome::Suppressed) ==> job.dry
    &&& at.phase is Deleting ==> job.delete_official
    &&& at.phase is Locating ==> !job.onion
    &&& job.onion && located_already(at.phase) ==> at.country == Some(tor_country())
}

/// The work begins sound and every event keeps it sound.
pub proof fn lemma_sound(job: Job, events: Seq<Event>)
    ensures
        sound(job, run(job, initial(job), events)),
{
    lemma_stays_sound(job, initial(job), events);
}

/// From a sound state every sequence of events leads to a sound state.
pub proof fn lemma_stays_sound(job: Job, at: Progress, events: Seq<Event>)
    requires
        sound(job, at),
    ensures
        sound(job, run(job, at, events)),
    decreases events.len(),
{
    if events.len() > 0 {
        lemma_stays_sound(job, next(job, at, events[0]), events.drop_first());
    }
}

/// One of the operator's own servers is never probed, located nor fetched,
/// and gets no status: whatever the caller reports, the pending action is the
/// deletion of the server or the end of the work on it, and that end is never
/// a written or suppressed status.
pub proof fn lemma_official_is_never_examined(job: Job, events: Seq<Event>)
    requires
        job.official,
    ensures
        ({
            let action = action_of(job, run(job, initial(job), events));
            &&& action is Delete || action is Finish
            &&& action is Delete ==> job.delete_official
            &&& action != ActionView::Finish(Outcome::Recorded)
            &&& action != ActionView::Finish(Outcome::Suppressed)
        }),
        probes_made(job, initial(job), events) == 0,
        writes_made(job, initial(job), events) == 0,
{
    lemma_sound(job, events);
    lemma_official_stays(job, initial(job), events);
}

/// The work on one of the operator's own servers stays with its deletion.
proof fn lemma_official_stays(job: Job, at: Progress, events: Seq<Event>)
    requires
        job.official,
        sound(job, at),
    ensures
        probes_made(job, at, events) == 0,
        writes_made(job, at, events) == 0,
    decreases events.len(),
{
    if events.len() > 0 {
        lemma_official_stays(job, next(job, at, events[0]), events.drop_first());
    }
}

/// A server whose domain is an onion host is never located: whatever the
/// caller reports, no lookup is pending, its country is the sentinel once the
/// probes are over, and its info page is fetched through the proxy.
pub proof fn lemma_onion_is_never_located(job: Job, events: Seq<Event>)
    requires
        job.onion,
    ensures
        ({
            let at = run(job, initial(job), events);
            let action = action_of(job, at);
            &&& !(action is Locate)
            &&& action is Fetch ==> action == (ActionView::Fetch {
                url: page_url(job.domain, true),
                proxy: Some(job.proxy),
                timeout_secs: INFO_PAGE_TIMEOUT_SECS as nat,
            })
            &&& action matches ActionView::Store(record) ==> record.country == Some(tor_country())
            &&& located_already(at.phase) ==> record_of(job, at).country == Some(tor_country())
        }),
{
    lemma_sound(job, events);
}

/// No more probes are asked for than the settings allow: whatever the caller
/// reports, a pending probe is the first to the last allowed, and the caller
/// has opened at most that many connections to the relay.
pub proof fn lemma_probes_are_bounded(job: Job, events: Seq<Event>)
    ensures
        action_of(job, run(job, initial(job), events)) matches ActionView::Probe { attempt, .. }
            ==> 1 <= attempt <= job.retry_count,
        probes_made(job, initial(job), events) <= job.retry_count,
{
    lemma_sound(job, events);
    lemma_sound(job, Seq::empty());
    lemma_probes_left(job, initial(job), events);
}

/// The probes that are still to come: none outside the testing phase, and in
/// it the pending one and those after it.
pub open spec fn probes_left(job: Job, at: Progress) -> int {
    if at.phase is Testing {
        job.retry_count - at.attempts + 1
    } else {
        0
    }
}

/// From a sound state no more probes are made than are left.
proof fn lemma_probes_left(job: Job, at: Progress, events: Seq<Event>)
    requires
        sound(job, at),
    ensures
        probes_made(job, at, events) <= probes_left(job, at),
    decreases events.len(),
{
    if events.len() > 0 {
        lemma_probes_left(job, next(job, at, events[0]), events.drop_first());
    }
}

/// The probes stop at the first one that confirms the server: after it the
/// status is set, no probe is pending and none is made, whatever the caller
/// reports.
pub proof fn lemma_stops_at_first_success(
    job: Job,
    earlier: Seq<Event>,
    outcome: Result<bool, ProbeError>,
    later: Seq<Event>,
)
    requires
        run(job, initial(job), earlier).phase is Testing,
        confirms(outcome),
    ensures
        ({
            let confirmed = next(job, run(job, initial(job), earlier), Event::Probed(outcome));
            let at = run(job, confirmed, later);
            &&& confirmed.status
            &&& at.status
            &&& !(action_of(job, at) is Probe)
            &&& probes_made(job, confirmed, later) == 0
        }),
{
    lemma_sound(job, earlier);
    let confirmed = next(job, run(job, initial(job), earlier), Event::Probed(outcome));
    lemma_probes_left(job, confirmed, later);
    lemma_status_stays(job, confirmed, later);
}

/// Once the probes are over, the status does not change again and no probe
/// becomes pending.
proof fn lemma_status_stays(job: Job, at: Progress, events: Seq<Event>)
    requires
        !(at.phase is Testing),
    ensures
        run(job, at, events).status == at.status,
        !(run(job, at, events).phase is Testing),
    decreases events.len(),
{
    if events.len() > 0 {
        lemma_status_stays(job, next(job, at, events[0]), events.drop_first());
    }
}

/// A dry pass never writes: whatever the caller reports, no write is
/// pending, none is made, and the work never ends as written.
pub proof fn lemma_dry_run_never_stores(job: Job, events: Seq<Event>)
    requires
        job.dry,
    ensures
        ({
            let action = action_of(job, run(job, initial(job), events));
            &&& !(action is Store)
            &&& action != ActionView::Finish(Outcome::Recorded)
            &&& action != ActionView::Finish(Outcome::Failed(EngineError::PersistenceFailed))
        }),
        writes_made(job, initial(job), events) == 0,
{
    lemma_sound(job, events);
    lemma_sound(job, Seq::empty());
    lemma_dry_stays(job, initial(job), events);
}

/// In a dry pass no event answers a write.
proof fn lemma_dry_stays(job: Job, at: Progress, events: Seq<Event>)
    requires
        job.dry,
        sound(job, at),
    ensures
        writes_made(job, at, events) == 0,
    decreases events.len(),
{
    if events.len() > 0 {
        lemma_dry_stays(job, next(job, at, events[0]), events.drop_first());
    }
}

/// A server gets at most one status in a pass: whatever the caller reports,
/// at most one write is made.
pub proof fn lemma_writes_at_most_once(job: Job, events: Seq<Event>)
    ensures
        writes_made(job, initial(job), events) <= 1,
{
    lemma_writes_left(job, initial(job), events);
}

/// After the write, no other follows.
proof fn lemma_writes_left(job: Job, at: Progress, events: Seq<Event>)
    ensures
        writes_made(job, at, events) <= 1,
        at.phase is Done ==> writes_made(job, at, events) == 0,
    decreases events.len(),
{
    if events.len() > 0 {
        lemma_writes_left(job, next(job, at, events[0]), events.drop_first());
    }
}

/// The work is over once it has ended: no event changes it.
pub proof fn lemma_done_is_final(job: Job, at: Progress, events: Seq<Event>)
    requires
        at.phase is Done,
    ensures
        run(job, at, events) == at,
    decreases events.len(),
{
    if events.len() > 0 {
        lemma_done_is_final(job, next(job, at, events[0]), events.drop_first());
    }
}

/// A server that is given up for its address or for a broken connection gets
/// no status: wherever a write was made, the work did not end in one of
/// these failures, nor as deleted, excluded or suppressed.
pub proof fn lemma_given_up_server_has_no_status(job: Job, events: Seq<Event>)
    ensures
        writes_made(job, initial(job), events) > 0 ==> {
            let end = run(job, initial(job), events).phase;
            end == Phase::Done(Outcome::Recorded) || end == Phase::Done(
                Outcome::Failed(EngineError::PersistenceFailed),
            )
        },
{
    lemma_write_ends_the_work(job, initial(job), events);
}

/// Wherever a write was made, the work has ended with it.
proof fn lemma_write_ends_the_work(job: Job, at: Progress, events: Seq<Event>)
    ensures
        writes_made(job, at, events) > 0 ==> {
            let end = run(job, at, events).phase;
            end == Phase::Done(Outcome::Recorded) || end == Phase::Done(
                Outcome::Failed(EngineError::PersistenceFailed),
            )
        },
    decreases events.len(),
{
    if events.len() > 0 {
        let after = next(job, at, events[0]);
        lemma_write_ends_the_work(job, after, events.drop_first());
        if at.phase is Storing && events[0] is Stored {
            lemma_done_is_final(job, after, events.drop_first());
        }
    }
}

/// The info page is fetched through the proxy if and only if the country is
/// the sentinel of the anonymized network: wherever the work stands, a
/// pending fetch names the proxy of the settings in that case and none
/// otherwise, and asks for plain HTTP behind the proxy and HTTPS without it.
pub proof fn lemma_proxy_iff_tor(job: Job, at: Progress)
    ensures
        action_of(job, at) matches ActionView::Fetch { url, proxy, timeout_secs } ==> {
            &&& proxy is Some <==> at.country == Some(tor_country())
            &&& proxy is Some ==> proxy == Some(job.proxy)
            &&& url == page_url(job.domain, proxy is Some)
            &&& timeout_secs == 5
        },
{
}

/// The services outside the engine, as functions of what they are asked.
pub struct World {
    /// What the probe of an address finds at a given attempt.
    pub probe: spec_fn(Seq<char>, nat) -> Result<bool, ProbeError>,
    /// What the lookup of a domain finds.
    pub lookup: spec_fn(Seq<char>) -> GeoLookup,
    /// The body that the request for an address brings through a proxy.
    pub page: spec_fn(Seq<char>, Option<Seq<char>>) -> Option<String>,
    /// Whether the registry deletes a server.
    pub deletes: spec_fn(Seq<char>) -> bool,
    /// Whether the registry takes a status.
    pub stores: spec_fn(StatusView) -> bool,
}

/// What a caller in `world` reports after it has performed `action`.
pub open spec fn answer(world: World, action: ActionView) -> Event {
    match action {
        ActionView::Delete { uuid } => Event::Deleted((world.deletes)(uuid)),
        ActionView::Probe { uri, attempt } => Event::Probed((world.probe)(uri, attempt)),
        ActionView::Locate { domain } => Event::Located((world.lookup)(domain)),
        ActionView::Fetch { url, proxy, timeout_secs } => Event::Fetched((world.page)(url, proxy)),
        ActionView::Store(record) => Event::Stored((world.stores)(record)),
        ActionView::Finish(_) => Event::Stored(true),
    }
}

/// Where the work stands after a caller in `world` has performed at most
/// `steps` pending actions, stopping when the work has ended.
pub open spec fn drive(job: Job, at: Progress, world: World, steps: nat) -> Progress
    decreases steps,
{
    if steps == 0 || at.phase is Done {
        at
    } else {
        drive(job, next(job, at, answer(world, action_of(job, at))), world, (steps - 1) as nat)
    }
}

/// One of the first `upto` probes in `world` confirms the server.
pub open spec fn confirmed_within(job: Job, world: World, upto: nat) -> bool
    decreases upto,
{
    upto > 0 && (confirmed_within(job, world, (upto - 1) as nat) || confirms(
        (world.probe)(job.uri, upto),
    ))
}

/// The probes of a server in `world` end on a broken connection: none of
/// the allowed probes confirms the server, and the last finds no connection.
pub open spec fn probes_break(job: Job, world: World) -> bool {
    &&& job.retry_count > 0
    &&& !confirmed_within(job, world, job.retry_count)
    &&& (world.probe)(job.uri, job.retry_count) is Err
}

/// The country that a server has in `world`.
pub open spec fn expected_country(job: Job, world: World) -> Option<Seq<char>> {
    if job.onion {
        Some(tor_country())
    } else {
        located(job.domain, (world.lookup)(job.domain))
    }
}

/// The status that a server has in `world`: alive if and only if one of the
/// allowed probes confirms it, with the country that the lookup gives, and
/// with an info page if and only if the body that the request brings shows
/// the marker.
pub open spec fn expected_record(job: Job, world: World) -> StatusView {
    let country = expected_country(job, world);
    let proxied = country == Some(tor_country());
    StatusView {
        server_uuid: job.uuid,
        status: confirmed_within(job, world, job.retry_count),
        country,
        info_page_available: available(
            (world.page)(
                page_url(job.domain, proxied),
                if proxied {
                    Some(job.proxy)
                } else {
                    None
                },
            ),
        ),
    }
}

/// How the work on a server ends in `world`.
pub open spec fn expected_outcome(job: Job, world: World) -> Outcome {
    if job.official {
        if !job.delete_official {
            Outcome::Excluded
        } else if (world.deletes)(job.uuid) {
            Outcome::Deleted
        } else {
            Outcome::Failed(EngineError::DeletionFailed)
        }
    } else if !job.valid {
        Outcome::Failed(EngineError::InvalidUri)
    } else if probes_break(job, world) {
        Outcome::Failed(EngineError::ConnectionFailed)
    } else if job.dry {
        Outcome::Suppressed
    } else if (world.stores)(expected_record(job, world)) {
        Outcome::Recorded
    } else {
        Outcome::Failed(EngineError::PersistenceFailed)
    }
}

/// The steps after which the work on a server has ended at the latest: one
/// for each allowed probe, and one each for the lookup, the request for the
/// info page and the write.
pub open spec fn enough_steps(job: Job) -> nat {
    job.retry_count + 3
}

/// The work on a server ends, and ends as its world has it: a caller that
/// performs each pending action reaches the end within `enough_steps`, with
/// the outcome and, for a server that is examined to the end, the status that
/// follow from the server, the settings and the answers of the services
/// alone.
pub proof fn lemma_run_settles(job: Job, world: World, steps: nat)
    requires
        steps >= enough_steps(job),
    ensures
        drive(job, initial(job), world, steps).phase == Phase::Done(expected_outcome(job, world)),
        !job.official && job.valid && !probes_break(job, world) ==> record_of(
            job,
            drive(job, initial(job), world, steps),
        ) == expected_record(job, world),
{
    let start = initial(job);
    if job.official {
        if job.delete_official {
            assert(drive(job, start, world, steps) == drive(
                job,
                next(job, start, answer(world, action_of(job, start))),
                world,
                (steps - 1) as nat,
            ));
        }
    } else if !job.valid {
    } else if job.retry_count == 0 {
        lemma_settles_after_testing(job, world, 0, false, steps);
    } else {
        lemma_settles_from_testing(job, world, 1, steps);
    }
}

/// From the `attempt`-th probe on, none before it having confirmed the
/// server, the work ends as its world has it.
proof fn lemma_settles_from_testing(job: Job, world: World, attempt: nat, steps: nat)
    requires
        !job.official,
        job.valid,
        1 <= attempt <= job.retry_count,
        !confirmed_within(job, world, (attempt - 1) as nat),
        steps >= job.retry_count - attempt + 4,
    ensures
        ({
            let at = Progress {
                phase: Phase::Testing,
                attempts: attempt,
                status: false,
                country: None,
                info_page_available: false,
            };
            &&& drive(job, at, world, steps).phase == Phase::Done(expected_outcome(job, world))
            &&& !probes_break(job, world) ==> record_of(job, drive(job, at, world, steps))
                == expected_record(job, world)
        }),
    decreases job.retry_count - attempt,
{
    let at = Progress {
        phase: Phase::Testing,
        attempts: attempt,
        status: false,
        country: None,
        info_page_available: false,
    };
    let after = next(job, at, answer(world, action_of(job, at)));
    assert(drive(job, at, world, steps) == drive(job, after, world, (steps - 1) as nat));
    if confirms((world.probe)(job.uri, attempt)) {
        lemma_confirmed_stays(job, world, attempt, job.retry_count);
        lemma_settles_after_testing(job, world, attempt, true, (steps - 1) as nat);
    } else if attempt < job.retry_count {
        lemma_settles_from_testing(job, world, attempt + 1, (steps - 1) as nat);
    } else if (world.probe)(job.uri, attempt) is Err {
        assert(after.phase == Phase::Done(Outcome::Failed(EngineError::ConnectionFailed)));
        assert(drive(job, after, world, (steps - 1) as nat) == after);
    } else {
        lemma_settles_after_testing(job, world, attempt, false, (steps - 1) as nat);
    }
}

/// A server confirmed within some probes is confirmed within more.
proof fn lemma_confirmed_stays(job: Job, world: World, upto: nat, more: nat)
    requires
        confirmed_within(job, world, upto),
        upto <= more,
    ensures
        confirmed_within(job, world, more),
    decreases more,
{
    if upto < more {
        lemma_confirmed_stays(job, world, upto, (more - 1) as nat);
    }
}

/// Once the probes are over with the status that the world has for the
/// server, the work ends as its world has it.
proof fn lemma_settles_after_testing(
    job: Job,
    world: World,
    attempts: nat,
    status: bool,
    steps: nat,
)
    requires
        !job.official,
        job.valid,
        !probes_break(job, world),
        status == confirmed_within(job, world, job.retry_count),
        steps >= 3,
    ensures
        ({
            let at = after_testing(job, attempts, status);
            &&& drive(job, at, world, steps).phase == Phase::Done(expected_outcome(job, world))
            &&& record_of(job, drive(job, at, world, steps)) == expected_record(job, world)
        }),
{
    let at = after_testing(job, attempts, status);
    let checking = if job.onion {
        at
    } else {
        next(job, at, answer(world, action_of(job, at)))
    };
    let left: nat = if job.onion {
        steps
    } else {
        (steps - 1) as nat
    };
    assert(drive(job, at, world, steps) == drive(job, checking, world, left));
    assert(checking.phase is Checking);
    assert(checking.country == expected_country(job, world));
    let fetched = next(job, checking, answer(world, action_of(job, checking)));
    assert(drive(job, checking, world, left) == drive(job, fetched, world, (left - 1) as nat));
    assert(record_of(job, fetched) == expected_record(job, world));
    if !job.dry {
        let stored = next(job, fetched, answer(world, action_of(job, fetched)));
        assert(drive(job, fetched, world, (left - 1) as nat) == drive(
            job,
            stored,
            world,
            (left - 2) as nat,
        ));
    }
}

/// A pass that is run again on the same server, with the same settings and
/// with services that answer as before, gives the same status: however long
/// the caller goes on, the work ends where it ended before.
pub proof fn lemma_rerun_gives_same_status(job: Job, world: World, once: nat, again: nat)
    requires
        once >= enough_steps(job),
        again >= enough_steps(job),
    ensures
        drive(job, initial(job), world, once) == drive(job, initial(job), world, again),
        drive(job, initial(job), world, once).phase is Done,
{
    lemma_run_settles(job, world, enough_steps(job));
    lemma_drive_is_final(job, initial(job), world, enough_steps(job), once);
    lemma_drive_is_final(job, initial(job), world, enough_steps(job), again);
}

/// Once the work has ended within some steps, more steps change nothing.
proof fn lemma_drive_is_final(job: Job, at: Progress, world: World, steps: nat, more: nat)
    requires
        drive(job, at, world, steps).phase is Done,
        steps <= more,
    ensures
        drive(job, at, world, more) == drive(job, at, world, steps),
    decreases steps,
{
    if steps > 0 && !(at.phase is Done) {
        lemma_drive_is_final(
            job,
            next(job, at, answer(world, action_of(job, at))),
            world,
            (steps - 1) as nat,
            (more - 1) as nat,
        );
    }
}

} // verus!
