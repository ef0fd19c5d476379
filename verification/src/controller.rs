//! What the GUI controller knows of the connection, and which way it turns
//! on what it hears.
//!
//! The controller talks to the tunnel service, to the portal's sign-in page,
//! to the tray and to the disk, and none of that is done here. Here is the
//! state of the connection as the controller tracks it, and what each piece
//! of news makes of it.

use vstd::prelude::*;
use crate::messages::ResourceView;
use crate::time::Instant;

verus! {

/// A failure that the controller can be asked to stage, for testing.
#[derive(Clone, Copy, Debug, PartialEq, Eq, Structural)]
pub enum Failure {
    Crash,
    Error,
    Panic,
}

/// Where the controller stands with the connection.
#[derive(Debug)]
pub enum Status {
    /// Firezone is disconnected.
    Disconnected,
    /// A connection request has failed for want of a network, and we wait
    /// for the network to change before we try again.
    RetryingConnection {
        /// The token to log in to the portal with when we try again.
        token: String,
    },
    /// The user asked to quit and we wait for the tunnel service to let go.
    Quitting,
    /// Firezone is ready to use.
    TunnelReady { resources: Vec<ResourceView> },
    /// Firezone is signing in to the portal.
    WaitingForPortal {
        /// When we sent our most recent connection request.
        start_instant: Instant,
        /// The token to log in to the portal with, in case we have to try
        /// again.
        token: String,
    },
    /// Firezone has reached the portal and is raising the tunnel.
    WaitingForTunnel {
        /// When we sent our most recent connection request.
        start_instant: Instant,
    },
}

/// What the tray shows of the connection.
#[derive(Debug)]
pub enum ConnlibState {
    Quitting,
    RetryingConnection,
    SignedIn { actor_name: String, resources: Vec<ResourceView> },
    SignedOut,
    WaitingForBrowser,
    WaitingForPortal,
    WaitingForTunnel,
}

/// Why a session cannot be started.
#[derive(Clone, Copy, Debug, PartialEq, Eq, Structural)]
pub enum StartSessionError {
    Quitting,
    AlreadyConnected,
    AlreadyConnecting,
}

/// How the tunnel service answered a request to connect.
#[derive(Debug)]
pub enum ConnectResult {
    Connected,
    /// The portal could not be reached; typically there is no network.
    Io(String),
    Other(String),
}

/// What the controller does about the answer to a request to connect.
#[derive(Debug)]
pub enum ConnectOutcome {
    /// The answer came when none was waited for, and is passed over.
    Ignored,
    /// The portal is reached: the controller notes that Firezone has run
    /// once, and redraws the menu.
    RaisingTunnel,
    /// The portal was not reached: the controller redraws the menu and
    /// waits for the network to change.
    WillRetry,
    /// The request failed for good, with this message.
    Failed(String),
}

impl StartSessionError {
    pub open spec fn spec_message(&self) -> Seq<char> {
        match *self {
            StartSessionError::Quitting => "Can't connect to Firezone, we're quitting"@,
            StartSessionError::AlreadyConnected => "Can't connect to Firezone, we're already connected."@,
            StartSessionError::AlreadyConnecting => "Can't connect to Firezone, we're already connecting."@,
        }
    }

    /// The error in words.
    pub fn message(&self) -> (text: String)
        ensures
            text@ == self.spec_message(),
    {
        match self {
            StartSessionError::Quitting => "Can't connect to Firezone, we're quitting".to_owned(),
            StartSessionError::AlreadyConnected => "Can't connect to Firezone, we're already connected.".to_owned(),
            StartSessionError::AlreadyConnecting => "Can't connect to Firezone, we're already connecting.".to_owned(),
        }
    }
}

/// The first of `resources` that stands for the whole internet.
pub open spec fn spec_first_internet_resource(resources: Seq<ResourceView>) -> Option<ResourceView>
    decreases resources.len(),
{
    if resources.len() == 0 {
        None
    } else if resources[0].is_internet_resource {
        Some(resources[0])
    } else {
        spec_first_internet_resource(resources.drop_first())
    }
}

impl Status {
    pub open spec fn spec_needs_network_changes(&self) -> bool {
        *self is TunnelReady || *self is WaitingForPortal || *self is WaitingForTunnel
    }

    /// Whether we want to hear of changes to the network and its resolvers:
    /// while a connection stands or is being made.
    #[verifier::when_used_as_spec(spec_needs_network_changes)]
    pub fn needs_network_changes(&self) -> (needs: bool)
        ensures
            needs == self.spec_needs_network_changes(),
    {
        match self {
            Status::Disconnected | Status::RetryingConnection { .. } => false,
            Status::Quitting => false,
            Status::TunnelReady { .. } | Status::WaitingForPortal { .. } | Status::WaitingForTunnel { .. } => true,
        }
    }

    pub open spec fn spec_needs_resource_updates(&self) -> bool {
        *self is TunnelReady || *self is WaitingForTunnel
    }

    /// Whether we take a new list of resources: once the portal is reached.
    #[verifier::when_used_as_spec(spec_needs_resource_updates)]
    pub fn needs_resource_updates(&self) -> (needs: bool)
        ensures
            needs == self.spec_needs_resource_updates(),
    {
        match self {
            Status::Disconnected
            | Status::RetryingConnection { .. }
            | Status::Quitting
            | Status::WaitingForPortal { .. } => false,
            Status::TunnelReady { .. } | Status::WaitingForTunnel { .. } => true,
        }
    }

    pub open spec fn spec_internet_resource(&self) -> Option<ResourceView> {
        match *self {
            Status::TunnelReady { resources } => spec_first_internet_resource(resources@),
            _ => None,
        }
    }

    /// The resource that stands for the whole internet, where the tunnel is
    /// up and offers one.
    pub fn internet_resource(&self) -> (resource: Option<&ResourceView>)
        ensures
            match resource {
                Some(r) => self.spec_internet_resource() == Some(*r),
                None => self.spec_internet_resource() is None,
            },
    {
        match self {
            Status::TunnelReady { resources } => {
                let mut i: usize = 0;
                assert(resources@.skip(0) =~= resources@);
                while i < resources.len()
                    invariant
                        i <= resources@.len(),
                        self.spec_internet_resource() == spec_first_internet_resource(resources@),
                        spec_first_internet_resource(resources@) == spec_first_internet_resource(
                            resources@.skip(i as int),
                        ),
                    decreases resources@.len() - i,
                {
                    assert(resources@.skip(i as int)[0] == resources@[i as int]);
                    assert(resources@.skip(i as int).drop_first() =~= resources@.skip(i + 1));
                    if resources[i].is_internet_resource {
                        assert(spec_first_internet_resource(resources@.skip(i as int)) == Some(
                            resources@[i as int],
                        ));
                        return Some(&resources[i]);
                    }
                    i += 1;
                }
                None
            },
            _ => None,
        }
    }

    pub open spec fn spec_check_start_session(&self) -> Result<(), StartSessionError> {
        match *self {
            Status::Disconnected | Status::RetryingConnection { .. } => Ok(()),
            Status::Quitting => Err(StartSessionError::Quitting),
            Status::TunnelReady { .. } => Err(StartSessionError::AlreadyConnected),
            Status::WaitingForPortal { .. } | Status::WaitingForTunnel { .. } => Err(
                StartSessionError::AlreadyConnecting,
            ),
        }
    }

    /// Whether a session can be started: only while there is none.
    #[verifier::when_used_as_spec(spec_check_start_session)]
    pub fn check_start_session(&self) -> (check: Result<(), StartSessionError>)
        ensures
            check == self.spec_check_start_session(),
    {
        match self {
            Status::Disconnected | Status::RetryingConnection { .. } => Ok(()),
            Status::Quitting => Err(StartSessionError::Quitting),
            Status::TunnelReady { .. } => Err(StartSessionError::AlreadyConnected),
            Status::WaitingForPortal { .. } | Status::WaitingForTunnel { .. } => Err(
                StartSessionError::AlreadyConnecting,
            ),
        }
    }

    /// The token to try the connection again with, where we wait to do so.
    pub fn retry_token(&self) -> (token: Option<String>)
        ensures
            token == (match *self {
                Status::RetryingConnection { token } => Some(token),
                _ => None,
            }),
    {
        match self {
            Status::RetryingConnection { token } => Some(token.clone()),
            _ => None,
        }
    }

    pub open spec fn spec_can_cancel_sign_in(&self) -> bool {
        !(*self is Quitting) && !(*self is TunnelReady)
    }

    /// Whether a sign-in can still be called off: not while we quit, and not
    /// once the tunnel is up, when there is no sign-in left to call off.
    #[verifier::when_used_as_spec(spec_can_cancel_sign_in)]
    pub fn can_cancel_sign_in(&self) -> (can: bool)
        ensures
            can == self.spec_can_cancel_sign_in(),
    {
        match self {
            Status::Disconnected | Status::RetryingConnection { .. } | Status::WaitingForPortal { .. } => true,
            Status::Quitting => false,
            Status::TunnelReady { .. } => false,
            Status::WaitingForTunnel { .. } => true,
        }
    }

    pub open spec fn spec_after_sign_out(self) -> Status {
        match self {
            Status::Quitting => Status::Quitting,
            _ => Status::Disconnected,
        }
    }

    /// Signs out, and returns whether there was anything to sign out of:
    /// while we quit there is not, and the status stays.
    pub fn sign_out(&mut self) -> (signed_out: bool)
        ensures
            *final(self) == old(self).spec_after_sign_out(),
            signed_out == !(*old(self) is Quitting),
    {
        match self {
            Status::Quitting => false,
            _ => {
                *self = Status::Disconnected;
                true
            },
        }
    }

    /// The status after the answer `result` to a request to connect, and
    /// what is to be done about it.
    ///
    /// The answer counts only while we wait for the portal. Then success
    /// has us wait for the tunnel, a failure to reach the portal has us
    /// wait for the network, and any other failure is passed on.
    pub open spec fn spec_handle_connect_result(self, result: ConnectResult) -> (Status, ConnectOutcome) {
        match self {
            Status::WaitingForPortal { start_instant, token } => match result {
                ConnectResult::Connected => (Status::WaitingForTunnel { start_instant }, ConnectOutcome::RaisingTunnel),
                ConnectResult::Io(_) => (Status::RetryingConnection { token }, ConnectOutcome::WillRetry),
                ConnectResult::Other(error) => (self, ConnectOutcome::Failed(error)),
            },
            _ => (self, ConnectOutcome::Ignored),
        }
    }

    /// Takes the answer to a request to connect.
    pub fn handle_connect_result(&mut self, result: ConnectResult) -> (outcome: ConnectOutcome)
        ensures
            (*final(self), outcome) == old(self).spec_handle_connect_result(result),
    {
        let (start_instant, token) = match self {
            Status::WaitingForPortal { start_instant, token } => (*start_instant, token.clone()),
            _ => {
                return ConnectOutcome::Ignored;
            },
        };
        match result {
            ConnectResult::Connected => {
                *self = Status::WaitingForTunnel { start_instant };
                ConnectOutcome::RaisingTunnel
            },
            ConnectResult::Io(_) => {
                *self = Status::RetryingConnection { token };
                ConnectOutcome::WillRetry
            },
            ConnectResult::Other(error) => ConnectOutcome::Failed(error),
        }
    }

    /// Takes a new list of resources; returns whether it was taken. The
    /// list is taken once the portal is reached, and the tunnel is ready
    /// from then on.
    pub fn update_resources(&mut self, resources: Vec<ResourceView>) -> (taken: bool)
        ensures
            taken == old(self).spec_needs_resource_updates(),
            *final(self) == (if taken {
                Status::TunnelReady { resources }
            } else {
                *old(self)
            }),
    {
        if !self.needs_resource_updates() {
            return false;
        }
        *self = Status::TunnelReady { resources };
        true
    }

    /// Takes the news that the tunnel is up; returns whether the user is to
    /// be told. The news counts only while we wait for the tunnel, and the
    /// tunnel is ready from then on, with no resources yet.
    pub fn tunnel_ready(&mut self) -> (notify: bool)
        ensures
            notify == (*old(self) is WaitingForTunnel),
            match *final(self) {
                Status::TunnelReady { resources } => if notify {
                    resources@.len() == 0
                } else {
                    *final(self) == *old(self)
                },
                _ => !notify && *final(self) == *old(self),
            },
    {
        match self {
            Status::WaitingForTunnel { .. } => {
                *self = Status::TunnelReady { resources: Vec::new() };
                true
            },
            _ => false,
        }
    }
}

/// What the tray shows.
///
/// With a session it shows what the status says, but for a status of
/// "disconnected", which with a session is a fault and shows as signed out.
/// Without a session it shows that we wait for the browser while a sign-in
/// is under way, and that we are signed out otherwise.
pub open spec fn spec_connlib_state(status: Status, actor_name: Option<String>, sign_in_under_way: bool) -> ConnlibState {
    match actor_name {
        Some(actor_name) => match status {
            Status::Disconnected => ConnlibState::SignedOut,
            Status::Quitting => ConnlibState::Quitting,
            Status::RetryingConnection { .. } => ConnlibState::RetryingConnection,
            Status::TunnelReady { resources } => ConnlibState::SignedIn { actor_name, resources },
            Status::WaitingForPortal { .. } => ConnlibState::WaitingForPortal,
            Status::WaitingForTunnel { .. } => ConnlibState::WaitingForTunnel,
        },
        None => if sign_in_under_way {
            ConnlibState::WaitingForBrowser
        } else {
            ConnlibState::SignedOut
        },
    }
}

/// A copy of the resources, where the tunnel is ready.
fn duplicate_resources(resources: &Vec<ResourceView>) -> (copy: Vec<ResourceView>)
    ensures
        copy@ == resources@,
{
    let mut copy: Vec<ResourceView> = Vec::new();
    let mut i: usize = 0;
    while i < resources.len()
        invariant
            i <= resources@.len(),
            copy@ == resources@.subrange(0, i as int),
        decreases resources@.len() - i,
    {
        copy.push(
            ResourceView {
                id: resources[i].id,
                name: resources[i].name.clone(),
                is_internet_resource: resources[i].is_internet_resource,
            },
        );
        assert(copy@ =~= resources@.subrange(0, i + 1));
        i += 1;
    }
    assert(resources@.subrange(0, i as int) =~= resources@);
    copy
}

/// What the tray shows, for the status, the name of who is signed in, if
/// anyone is, and whether a sign-in is under way.
pub fn connlib_state(status: &Status, actor_name: Option<String>, sign_in_under_way: bool) -> (state: ConnlibState)
    ensures
        match (state, spec_connlib_state(*status, actor_name, sign_in_under_way)) {
            (
                ConnlibState::SignedIn { actor_name: a, resources: r },
                ConnlibState::SignedIn { actor_name: b, resources: s },
            ) => a == b && r@ == s@,
            (shown, wanted) => shown == wanted,
        },
{
    match actor_name {
        Some(actor_name) => match status {
            Status::Disconnected => ConnlibState::SignedOut,
            Status::Quitting => ConnlibState::Quitting,
            Status::RetryingConnection { .. } => ConnlibState::RetryingConnection,
            Status::TunnelReady { resources } => ConnlibState::SignedIn {
                actor_name,
                resources: duplicate_resources(resources),
            },
            Status::WaitingForPortal { .. } => ConnlibState::WaitingForPortal,
            Status::WaitingForTunnel { .. } => ConnlibState::WaitingForTunnel,
        },
        None => if sign_in_under_way {
            ConnlibState::WaitingForBrowser
        } else {
            ConnlibState::SignedOut
        },
    }
}

/// The resources that are to be switched off in the tunnel: the resource
/// that stands for the whole internet, unless the user has switched it on.
pub open spec fn spec_disabled_resources(status: Status, internet_resource_enabled: Option<bool>) -> Option<Seq<u128>> {
    match status.spec_internet_resource() {
        None => None,
        Some(resource) => if internet_resource_enabled == Some(true) {
            Some(Seq::empty())
        } else {
            Some(seq![resource.id])
        },
    }
}

/// The resources that are to be switched off in the tunnel; `None` where
/// there is nothing to tell the tunnel, because no resource stands for the
/// whole internet.
pub fn disabled_resources(status: &Status, internet_resource_enabled: Option<bool>) -> (disabled: Option<Vec<u128>>)
    ensures
        match disabled {
            Some(d) => spec_disabled_resources(*status, internet_resource_enabled) == Some(d@),
            None => spec_disabled_resources(*status, internet_resource_enabled) is None,
        },
{
    let resource = match status.internet_resource() {
        Some(r) => r,
        None => {
            return None;
        },
    };
    let mut disabled: Vec<u128> = Vec::new();
    let enabled = match internet_resource_enabled {
        Some(enabled) => enabled,
        None => false,
    };
    if !enabled {
        disabled.push(resource.id);
        assert(disabled@ =~= seq![resource.id]);
    }
    Some(disabled)
}

/// A session can be started exactly while there is none, and starting one
/// is what the controller does when it tries again: a status from which a
/// retry is made always lets a session start.
pub proof fn lemma_retry_can_start_session(status: Status)
    requires
        status is RetryingConnection,
    ensures
        status.spec_check_start_session() is Ok,
{
}

} // verus!
