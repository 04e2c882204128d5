//! A pass over the servers of the registry.
//!
//! A pass reads the servers once, puts them in a random order and handles
//! them one after another. It ends when every server has been handled.

use crate::database::Server;
use crate::engine::{initial, job_of, Progress, ServerRun, Settings};
use crate::laws::{drive, enough_steps, World};
use vstd::prelude::*;

verus! {

/// Where the work on each of `servers` ends in `world`, in their order.
pub open spec fn pass_results(servers: Seq<Server>, settings: Settings, world: World) -> Seq<
    Progress,
> {
    servers.map_values(
        |server: Server|
            {
                let job = job_of(server, settings);
                drive(job, initial(job), world, enough_steps(job))
            },
    )
}

/// Two sequences with the same members have the same members after a
/// function is applied to each.
pub proof fn lemma_map_keeps_members<A, B>(a: Seq<A>, b: Seq<A>, f: spec_fn(A) -> B)
    requires
        a.to_multiset() == b.to_multiset(),
    ensures
        a.map_values(f).to_multiset() == b.map_values(f).to_multiset(),
    decreases a.len(),
{
    broadcast use vstd::seq_lib::group_to_multiset_ensures;

    if a.len() == 0 {
        assert(b.len() == 0) by {
            vstd::seq_lib::to_multiset_len(a);
            vstd::seq_lib::to_multiset_len(b);
        }
        assert(a.map_values(f) =~= b.map_values(f));
    } else {
        let last = a.len() - 1;
        let x = a[last];
        assert(a.contains(x));
        assert(b.to_multiset().count(x) > 0);
        assert(b.contains(x));
        let j = choose|j: int| 0 <= j < b.len() && b[j] == x;
        assert(a.remove(last).to_multiset() =~= b.remove(j).to_multiset());
        lemma_map_keeps_members(a.remove(last), b.remove(j), f);
        assert(a.remove(last).map_values(f) =~= a.map_values(f).remove(last));
        assert(b.remove(j).map_values(f) =~= b.map_values(f).remove(j));
        let ma = a.map_values(f);
        let mb = b.map_values(f);
        assert(ma[last] == f(x));
        assert(mb[j] == f(x));
        assert(ma.contains(f(x)));
        assert(mb.contains(f(x)));
        assert(ma.to_multiset() =~= ma.remove(last).to_multiset().insert(f(x)));
        assert(mb.to_multiset() =~= mb.remove(j).to_multiset().insert(f(x)));
    }
}

/// The order in which the servers of a pass are handled does not show in
/// its results: two passes over the same servers, with the same settings and
/// with services that answer alike, end with the same results, each as often
/// in one as in the other.
pub proof fn lemma_order_does_not_matter(
    one: Seq<Server>,
    other: Seq<Server>,
    settings: Settings,
    world: World,
)
    requires
        one.to_multiset() == other.to_multiset(),
    ensures
        pass_results(one, settings, world).to_multiset() == pass_results(
            other,
            settings,
            world,
        ).to_multiset(),
{
    lemma_map_keeps_members(
        one,
        other,
        |server: Server|
            {
                let job = job_of(server, settings);
                drive(job, initial(job), world, enough_steps(job))
            },
    );
}

/// `rand::seq::SliceRandom::shuffle` on the slice of the vector, with the
/// generator that `rand::rng` hands out: it swaps members in place. Which
/// order comes out is left open; the members are those that went in, each as
/// often as before.
#[verifier::external_body]
fn shuffle(servers: &mut Vec<Server>)
    ensures
        final(servers)@.to_multiset() == old(servers)@.to_multiset(),
{
    rand::seq::SliceRandom::shuffle(servers.as_mut_slice(), &mut rand::rng());
}

/// The servers of a pass in the order in which they are handled: a random
/// one, so that no server is always last. Every server is handled once.
pub fn processing_order(servers: Vec<Server>) -> (order: Vec<Server>)
    ensures
        order@.to_multiset() == servers@.to_multiset(),
        order@.len() == servers@.len(),
{
    let mut order = servers;
    shuffle(&mut order);
    proof {
        vstd::seq_lib::to_multiset_len(order@);
        vstd::seq_lib::to_multiset_len(servers@);
    }
    order
}

/// Why a pass did not begin.
#[derive(Clone, Copy, Debug, PartialEq, Eq, Structural)]
pub enum PassError {
    /// The servers could not be read from the registry.
    FetchFailed,
}

/// A pass: its servers in the order in which they are handled, and how many
/// of them have been handed out.
#[derive(Debug)]
pub struct Pass {
    queue: Vec<Server>,
    handled: usize,
    settings: Settings,
}

impl Pass {
    /// The servers of the pass in the order in which they are handled.
    pub closed spec fn order(&self) -> Seq<Server> {
        self.queue@
    }

    /// How many servers have been handed out.
    pub closed spec fn handled(&self) -> nat {
        self.handled as nat
    }

    /// What the pass is run with.
    pub closed spec fn settings(&self) -> Settings {
        self.settings
    }

    /// No more servers have been handed out than there are.
    #[verifier::type_invariant]
    spec fn within(&self) -> bool {
        self.handled <= self.queue.len()
    }

    /// Begins a pass over the servers that were read from the registry, or
    /// fails where they could not be read. Every server that was read is in
    /// the pass, once.
    pub fn begin(fetched: Option<Vec<Server>>, settings: Settings) -> (pass: Result<
        Pass,
        PassError,
    >)
        ensures
            match fetched {
                Some(servers) => pass matches Ok(p) && p.handled() == 0 && p.settings()
                    == settings && p.order().to_multiset() == servers@.to_multiset(),
                None => pass matches Err(e) && e == PassError::FetchFailed,
            },
    {
        match fetched {
            Some(servers) => Ok(Pass { queue: processing_order(servers), handled: 0, settings }),
            None => Err(PassError::FetchFailed),
        }
    }

    /// How many servers are still to be handled.
    pub fn remaining(&self) -> (left: usize)
        ensures
            left == self.order().len() - self.handled(),
    {
        proof {
            use_type_invariant(self);
        }
        self.queue.len() - self.handled
    }

    /// Begins the work on the next server, or returns `None` where every
    /// server has been handled. What happened to the servers before does not
    /// enter the work on the next.
    pub fn next_run(&mut self) -> (run: Option<ServerRun>)
        ensures
            final(self).order() == old(self).order(),
            final(self).settings() == old(self).settings(),
            match run {
                Some(r) => {
                    &&& old(self).handled() < old(self).order().len()
                    &&& final(self).handled() == old(self).handled() + 1
                    &&& r.job() == job_of(
                        old(self).order()[old(self).handled() as int],
                        old(self).settings(),
                    )
                    &&& r.progress() == initial(r.job())
                },
                None => {
                    &&& old(self).handled() == old(self).order().len()
                    &&& final(self).handled() == old(self).handled()
                },
            },
    {
        proof {
            use_type_invariant(&*self);
        }
        if self.handled < self.queue.len() {
            let run = ServerRun::begin(&self.queue[self.handled], &self.settings);
            self.handled = self.handled + 1;
            Some(run)
        } else {
            None
        }
    }
}

} // verus!
