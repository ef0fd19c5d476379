//! The decisions of the gateway's event loop.
//!
//! As with the client's loop, the waiting is done elsewhere. Here is which
//! source the loop asks next, and which actions follow from what it gets.

use vstd::prelude::*;
use crate::messages::Relay;
use crate::peer::PeerConfig;
use crate::resource::ResourceDescription;

verus! {

/// The topic under which the gateway talks to the portal.
pub fn phoenix_topic() -> (topic: &'static str)
    ensures
        topic@ == "gateway"@,
{
    "gateway"
}

/// ICE candidates of the gateway for some clients.
#[derive(Debug)]
pub struct BroadcastClientIceCandidates {
    pub client_ids: Vec<u128>,
    pub candidates: Vec<String>,
}

/// ICE candidates of one client.
#[derive(Debug)]
pub struct ClientIceCandidates {
    pub client_id: u128,
    pub candidates: Vec<String>,
}

/// The answer of the gateway to a request for a connection.
#[derive(Debug)]
pub struct ConnectionReady {
    /// The reference under which the request came.
    pub reference: String,
    pub gateway_rtc_session_description: String,
}

/// What the gateway sends to the portal.
#[derive(Debug)]
pub enum EgressMessages {
    ConnectionReady(ConnectionReady),
    BroadcastIceCandidates(BroadcastClientIceCandidates),
}

/// The client that asks for a connection.
#[derive(Debug)]
pub struct Client {
    pub id: u128,
    pub rtc_session_description: String,
    pub peer: PeerConfig,
}

/// A request of a client for a connection to a resource.
#[derive(Debug)]
pub struct RequestConnection {
    pub client: Client,
    pub reference: String,
    pub relays: Vec<Relay>,
    /// When access ends, in seconds since the Unix epoch, if it ends.
    pub expires_at: Option<i64>,
    pub resource: ResourceDescription,
}

/// Leave for a client to reach one more resource.
#[derive(Debug)]
pub struct AllowAccess {
    pub client_id: u128,
    pub resource: ResourceDescription,
    pub expires_at: Option<i64>,
}

/// What the portal sends to the gateway.
#[derive(Debug)]
pub enum IngressMessages {
    Init,
    RequestConnection(RequestConnection),
    AllowAccess(AllowAccess),
    IceCandidates(ClientIceCandidates),
}

/// How the work on a request for a connection ended. `E` is the error of
/// the tunnel.
#[derive(Debug)]
pub enum ConnectionRequestOutcome<E> {
    Established(String),
    Failed(E),
    TimedOut,
}

/// A request for a connection that has been worked off.
#[derive(Debug)]
pub struct ConnectionRequestResult<E> {
    pub client: u128,
    pub reference: String,
    pub outcome: ConnectionRequestOutcome<E>,
}

/// How the work on a candidate of a client ended.
#[derive(Debug)]
pub enum IceCandidateOutcome<E> {
    Added,
    Failed(E),
    TimedOut,
}

/// What the gateway's loop does next.
#[derive(Debug)]
pub enum Action<E> {
    /// Sends `message` to the portal, under the gateway's topic.
    Send(EgressMessages),
    /// Takes down what there is of a connection to the client.
    CleanupConnection(u128),
    /// Calls back with an error.
    OnError(E),
    /// Starts the work on a request for a connection, to be waited for
    /// under the client's id and the request's reference.
    StartConnectionRequest(RequestConnection),
    AllowAccess(AllowAccess),
    /// Starts the work on a candidate of a client. Where too much such work
    /// is under way the candidate is dropped.
    StartAddIceCandidate { client_id: u128, candidate: String },
    /// Writes what the tunnel holds to the log.
    PrintStats,
}

/// The five things that the loop waits on, in the order in which it asks
/// them.
#[derive(Clone, Copy, Debug, PartialEq, Eq, Structural)]
pub enum Source {
    /// The queue of our own candidates.
    Control,
    ConnectionRequests,
    IceCandidates,
    Portal,
    StatsTimer,
}

/// What a source had when it was asked.
#[derive(Clone, Copy, Debug, PartialEq, Eq, Structural)]
pub enum Outcome {
    /// Something to act on.
    Ready,
    /// Something that needs no action: the queue of candidates has ended, or
    /// the portal's channel had an event that is none of ours.
    Ignored,
    /// The portal failed for good.
    Failed,
    /// Nothing yet.
    Pending,
}

/// How the loop goes on after it has asked a source.
#[derive(Clone, Copy, Debug, PartialEq, Eq, Structural)]
pub enum Step {
    /// Act on what the source had, then start over with the first source.
    Handle,
    /// Ask this source next.
    Ask(Source),
    /// Leave the loop for good.
    Finish,
    /// Leave the loop until one of the sources wakes it.
    Yield,
}

/// How the loop goes on after `source` had `outcome`.
///
/// The sources are asked in their order, and after everything that is acted
/// on the loop starts over with the first. It ends when the portal fails,
/// and rests only when all five have nothing.
pub open spec fn spec_step(source: Source, outcome: Outcome) -> Step {
    match (source, outcome) {
        (Source::Portal, Outcome::Failed) => Step::Finish,
        (_, Outcome::Ready) => Step::Handle,
        (Source::Control, _) => Step::Ask(Source::ConnectionRequests),
        (Source::ConnectionRequests, _) => Step::Ask(Source::IceCandidates),
        (Source::IceCandidates, _) => Step::Ask(Source::Portal),
        (Source::Portal, _) => Step::Ask(Source::StatsTimer),
        (Source::StatsTimer, _) => Step::Yield,
    }
}

/// The source that the loop asks after `source` had `outcome`.
pub open spec fn spec_next_source(source: Source, outcome: Outcome) -> Source {
    match spec_step(source, outcome) {
        Step::Ask(next) => next,
        _ => Source::Control,
    }
}

/// Where the loop stands: which of its sources it asks next.
#[derive(Debug)]
pub struct Eventloop {
    asking: Source,
}

impl View for Eventloop {
    type V = Source;

    closed spec fn view(&self) -> Source {
        self.asking
    }
}

impl Eventloop {
    /// A loop that has not asked anything yet.
    pub fn new() -> (eventloop: Self)
        ensures
            eventloop@ == Source::Control,
    {
        Eventloop { asking: Source::Control }
    }

    /// The source to ask next.
    pub fn asking(&self) -> (source: Source)
        ensures
            source == self@,
    {
        self.asking
    }

    /// Takes what the source that was asked had, and returns how the loop
    /// goes on.
    pub fn poll(&mut self, outcome: Outcome) -> (next: Step)
        ensures
            next == spec_step(old(self)@, outcome),
            final(self)@ == spec_next_source(old(self)@, outcome),
    {
        let next = match (self.asking, outcome) {
            (Source::Portal, Outcome::Failed) => Step::Finish,
            (_, Outcome::Ready) => Step::Handle,
            (Source::Control, _) => Step::Ask(Source::ConnectionRequests),
            (Source::ConnectionRequests, _) => Step::Ask(Source::IceCandidates),
            (Source::IceCandidates, _) => Step::Ask(Source::Portal),
            (Source::Portal, _) => Step::Ask(Source::StatsTimer),
            (Source::StatsTimer, _) => Step::Yield,
        };
        self.asking = match next {
            Step::Ask(source) => source,
            _ => Source::Control,
        };
        next
    }
}

fn one_action<E>(action: Action<E>) -> (actions: Vec<Action<E>>)
    ensures
        actions@ == seq![action],
{
    let mut actions: Vec<Action<E>> = Vec::new();
    actions.push(action);
    assert(actions@ =~= seq![action]);
    actions
}

/// What follows from candidates of our own: they go to the portal.
pub fn handle_control<E>(candidates: BroadcastClientIceCandidates) -> (actions: Vec<Action<E>>)
    ensures
        actions@ == seq![Action::<E>::Send(EgressMessages::BroadcastIceCandidates(candidates))],
{
    one_action(Action::Send(EgressMessages::BroadcastIceCandidates(candidates)))
}

/// What follows from a request for a connection that has been worked off.
///
/// A connection that stands is reported to the portal under the reference
/// of the request. One that the tunnel refused is taken down and reported
/// as an error. One that took too long is only noted.
pub open spec fn spec_handle_connection_request_result<E>(result: ConnectionRequestResult<E>) -> Seq<Action<E>> {
    match result.outcome {
        ConnectionRequestOutcome::Established(description) => seq![
            Action::Send(
                EgressMessages::ConnectionReady(
                    ConnectionReady { reference: result.reference, gateway_rtc_session_description: description },
                ),
            ),
        ],
        ConnectionRequestOutcome::Failed(error) => seq![
            Action::CleanupConnection(result.client),
            Action::OnError(error),
        ],
        ConnectionRequestOutcome::TimedOut => Seq::empty(),
    }
}

/// What follows from a request for a connection that has been worked off.
pub fn handle_connection_request_result<E>(result: ConnectionRequestResult<E>) -> (actions: Vec<Action<E>>)
    ensures
        actions@ == spec_handle_connection_request_result(result),
{
    match result.outcome {
        ConnectionRequestOutcome::Established(description) => one_action(
            Action::Send(
                EgressMessages::ConnectionReady(
                    ConnectionReady { reference: result.reference, gateway_rtc_session_description: description },
                ),
            ),
        ),
        ConnectionRequestOutcome::Failed(error) => {
            let mut actions: Vec<Action<E>> = Vec::new();
            actions.push(Action::CleanupConnection(result.client));
            actions.push(Action::OnError(error));
            assert(actions@ =~= spec_handle_connection_request_result(result));
            actions
        },
        ConnectionRequestOutcome::TimedOut => Vec::new(),
    }
}

/// What follows from a candidate that has been worked off: a failure of
/// the tunnel is reported, everything else is let be.
pub open spec fn spec_handle_ice_candidate_result<E>(outcome: IceCandidateOutcome<E>) -> Seq<Action<E>> {
    match outcome {
        IceCandidateOutcome::Failed(error) => seq![Action::OnError(error)],
        _ => Seq::empty(),
    }
}

/// What follows from a candidate that has been worked off.
pub fn handle_ice_candidate_result<E>(outcome: IceCandidateOutcome<E>) -> (actions: Vec<Action<E>>)
    ensures
        actions@ == spec_handle_ice_candidate_result(outcome),
{
    match outcome {
        IceCandidateOutcome::Failed(error) => one_action(Action::OnError(error)),
        _ => Vec::new(),
    }
}

/// Whether `actions` is what follows from `message`, a message of the
/// portal.
pub open spec fn spec_handle_portal_message<E>(message: IngressMessages, actions: Seq<Action<E>>) -> bool {
    match message {
        IngressMessages::Init => actions.len() == 0,
        IngressMessages::RequestConnection(request) => actions == seq![Action::<E>::StartConnectionRequest(request)],
        IngressMessages::AllowAccess(access) => actions == seq![Action::<E>::AllowAccess(access)],
        IngressMessages::IceCandidates(ClientIceCandidates { client_id, candidates }) => {
            &&& actions.len() == candidates@.len()
            &&& forall|i: int|
                0 <= i < candidates@.len() ==> #[trigger] actions[i] == (Action::<E>::StartAddIceCandidate {
                    client_id,
                    candidate: candidates@[i],
                })
        },
    }
}

/// What follows from a message of the portal.
///
/// The portal greets a gateway once, before the loop runs, so the loop is
/// never handed a greeting.
pub fn handle_portal_message<E>(message: IngressMessages) -> (actions: Vec<Action<E>>)
    requires
        !(message is Init),
    ensures
        spec_handle_portal_message(message, actions@),
{
    match message {
        IngressMessages::Init => Vec::new(),
        IngressMessages::RequestConnection(request) => one_action(Action::StartConnectionRequest(request)),
        IngressMessages::AllowAccess(access) => one_action(Action::AllowAccess(access)),
        IngressMessages::IceCandidates(ClientIceCandidates { client_id, candidates }) => {
            let mut actions: Vec<Action<E>> = Vec::new();
            let mut i: usize = 0;
            while i < candidates.len()
                invariant
                    i <= candidates@.len(),
                    actions@.len() == i,
                    forall|j: int|
                        0 <= j < i ==> #[trigger] actions@[j] == (Action::<E>::StartAddIceCandidate {
                            client_id,
                            candidate: candidates@[j],
                        }),
                decreases candidates@.len() - i,
            {
                actions.push(Action::StartAddIceCandidate { client_id, candidate: candidates[i].clone() });
                i += 1;
            }
            actions
        },
    }
}

/// What follows from a tick of the timer for the statistics.
pub fn handle_stats_timer<E>() -> (actions: Vec<Action<E>>)
    ensures
        actions@ == seq![Action::<E>::PrintStats],
{
    one_action(Action::PrintStats)
}

/// The sources are asked in their order: each is asked only when the one
/// before it had nothing to act on, and the loop rests only when the last
/// had nothing.
pub proof fn lemma_sources_in_order(source: Source, outcome: Outcome)
    ensures
        spec_step(source, outcome) == Step::Ask(Source::ConnectionRequests) ==> source == Source::Control,
        spec_step(source, outcome) == Step::Ask(Source::IceCandidates) ==> source == Source::ConnectionRequests,
        spec_step(source, outcome) == Step::Ask(Source::Portal) ==> source == Source::IceCandidates,
        spec_step(source, outcome) == Step::Ask(Source::StatsTimer) ==> source == Source::Portal,
        spec_step(source, outcome) == Step::Yield ==> source == Source::StatsTimer,
        spec_step(source, outcome) is Ask || spec_step(source, outcome) == Step::Yield ==> outcome != Outcome::Ready,
        spec_step(source, outcome) != Step::Ask(Source::Control),
{
}

} // verus!
