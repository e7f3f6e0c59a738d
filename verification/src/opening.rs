//! Opening the store of an installation: the manifest's binding, the directory,
//! the identity and the state path are looked at, in this order, before it, and
//! what it holds after it.

use crate::config::{config_verdict, Config, TlsFiles};
use crate::config_error::{refused, verdict, ConfigError, ConfigErrorView, Verdict};
use crate::identity::{
    access_outcome, binding_of, binding_published, check_opened_store, check_state_path,
    create_installation_identity, create_manifest_binding, ensure_installation_identity,
    ensure_manifest_authorizes_state_access, identity_of, identity_outcome, identity_published,
    store_verdict, BindingLook, BindingStep, BindingView, IdentityLook, IdentityStep, IdentityView,
    InstallationIdentity, ManifestBinding, Published,
};
use crate::text::owned;
use vstd::prelude::*;
use vstd::string::*;

verus! {

/// What opening a store asks for next.
#[derive(Clone, Debug)]
pub enum OpeningAction {
    /// Make the installation's directory, for its owner alone.
    MakePrivate,
    /// Look for the binding of a manifest.
    LookForBinding,
    WriteBinding(ManifestBinding),
    /// Look for the identity of the installation.
    LookForIdentity,
    WriteIdentity(InstallationIdentity),
    /// Look whether the state path is a symbolic link.
    LookAtState,
    /// Open the store, and give it the cluster where it has none.
    OpenStore,
    /// Take the state file away from other users.
    Harden,
    /// The store is open.
    Done,
    Fail(ConfigError),
}

/// What happened.
#[derive(Debug)]
pub enum OpeningEvent {
    Done,
    Binding(BindingLook),
    BindingWritten(Published<ManifestBinding>),
    Identity(IdentityLook),
    IdentityWritten(Published<InstallationIdentity>),
    StatePath { is_symlink: bool },
    /// The store is open, and holds the state of this cluster.
    Opened { cluster_id: [u8; 16], cluster_incarnation: u64 },
    Failed(ConfigError),
}

/// Where opening a store stands.
#[derive(Clone, Copy, Debug, PartialEq, Eq, Structural)]
pub enum OpeningPhase {
    /// The directory is made before a binding is looked for in it.
    PreparingBinding,
    LookingForBinding,
    WritingBinding,
    MakingPrivate,
    LookingForIdentity,
    WritingIdentity,
    LookingAtState,
    OpeningStore,
    Hardening,
    Finished,
}

/// A store that is being opened.
pub struct Opening {
    phase: OpeningPhase,
}

impl View for Opening {
    type V = OpeningPhase;

    closed spec fn view(&self) -> OpeningPhase {
        self.phase
    }
}

/// What an [`OpeningAction`] says.
pub enum OpeningActionView {
    MakePrivate,
    LookForBinding,
    WriteBinding(BindingView),
    LookForIdentity,
    WriteIdentity(IdentityView),
    LookAtState,
    OpenStore,
    Harden,
    Done,
    Fail(ConfigErrorView),
}

impl View for OpeningAction {
    type V = OpeningActionView;

    open spec fn view(&self) -> OpeningActionView {
        match self {
            OpeningAction::MakePrivate => OpeningActionView::MakePrivate,
            OpeningAction::LookForBinding => OpeningActionView::LookForBinding,
            OpeningAction::WriteBinding(b) => OpeningActionView::WriteBinding(b@),
            OpeningAction::LookForIdentity => OpeningActionView::LookForIdentity,
            OpeningAction::WriteIdentity(i) => OpeningActionView::WriteIdentity(i@),
            OpeningAction::LookAtState => OpeningActionView::LookAtState,
            OpeningAction::OpenStore => OpeningActionView::OpenStore,
            OpeningAction::Harden => OpeningActionView::Harden,
            OpeningAction::Done => OpeningActionView::Done,
            OpeningAction::Fail(e) => OpeningActionView::Fail(e@),
        }
    }
}

/// What comes next: where opening stands, and what it asks for.
pub type OpeningTurn = (OpeningPhase, OpeningActionView);

/// The store is not opened.
pub open spec fn opening_fails(e: ConfigErrorView) -> OpeningTurn {
    (OpeningPhase::Finished, OpeningActionView::Fail(e))
}

/// What comes of a check: the next step, or the error.
pub open spec fn opening_checked(
    check: Verdict,
    phase: OpeningPhase,
    action: OpeningActionView,
) -> OpeningTurn {
    match check {
        Ok(()) => (phase, action),
        Err(e) => opening_fails(e),
    }
}

/// The binding of the manifest that a configuration was verified with.
pub open spec fn own_binding(config: Config) -> BindingView {
    binding_of(config, config.capability.manifest()->0@)
}

/// What comes of the look for a binding.
pub open spec fn after_binding(config: Config, look: BindingLook) -> OpeningTurn {
    match access_outcome(config, look) {
        Err(e) => opening_fails(e),
        Ok(true) => (
            OpeningPhase::WritingBinding,
            OpeningActionView::WriteBinding(own_binding(config)),
        ),
        Ok(false) => (OpeningPhase::MakingPrivate, OpeningActionView::MakePrivate),
    }
}

/// What comes of the look for an identity.
pub open spec fn after_identity(config: Config, look: IdentityLook) -> OpeningTurn {
    match identity_outcome(config, look) {
        Err(e) => opening_fails(e),
        Ok(true) => (
            OpeningPhase::WritingIdentity,
            OpeningActionView::WriteIdentity(identity_of(config)),
        ),
        Ok(false) => (OpeningPhase::LookingAtState, OpeningActionView::LookAtState),
    }
}

/// What happens next.
pub open spec fn opening_next(config: Config, phase: OpeningPhase, event: OpeningEvent) -> OpeningTurn {
    match (phase, event) {
        (_, OpeningEvent::Failed(e)) => opening_fails(e@),
        (OpeningPhase::PreparingBinding, OpeningEvent::Done) => (
            OpeningPhase::LookingForBinding,
            OpeningActionView::LookForBinding,
        ),
        (OpeningPhase::LookingForBinding, OpeningEvent::Binding(look)) => after_binding(
            config,
            look,
        ),
        (OpeningPhase::WritingBinding, OpeningEvent::BindingWritten(written)) => opening_checked(
            binding_published(own_binding(config), written),
            OpeningPhase::MakingPrivate,
            OpeningActionView::MakePrivate,
        ),
        (OpeningPhase::MakingPrivate, OpeningEvent::Done) => (
            OpeningPhase::LookingForIdentity,
            OpeningActionView::LookForIdentity,
        ),
        (OpeningPhase::LookingForIdentity, OpeningEvent::Identity(look)) => after_identity(
            config,
            look,
        ),
        (OpeningPhase::WritingIdentity, OpeningEvent::IdentityWritten(written)) => opening_checked(
            identity_published(identity_of(config), written),
            OpeningPhase::LookingAtState,
            OpeningActionView::LookAtState,
        ),
        (OpeningPhase::LookingAtState, OpeningEvent::StatePath { is_symlink }) => opening_checked(
            if is_symlink {
                refused("state path must not be a symbolic link"@)
            } else {
                Ok(())
            },
            OpeningPhase::OpeningStore,
            OpeningActionView::OpenStore,
        ),
        (
            OpeningPhase::OpeningStore,
            OpeningEvent::Opened { cluster_id, cluster_incarnation },
        ) => opening_checked(
            store_verdict(config, false, cluster_id@, cluster_incarnation),
            OpeningPhase::Hardening,
            OpeningActionView::Harden,
        ),
        (OpeningPhase::Hardening, OpeningEvent::Done) => (
            OpeningPhase::Finished,
            OpeningActionView::Done,
        ),
        _ => opening_fails(ConfigErrorView::Io("unexpected answer"@)),
    }
}

/// Whether a configuration was verified with the manifest that it carries.
pub open spec fn is_verified(config: Config) -> bool {
    config.bootstrap_manifest is Some && config.capability.manifest() is Some
}

impl Opening {
    fn turn(&mut self, phase: OpeningPhase, action: OpeningAction) -> (same: OpeningAction)
        ensures
            (final(self)@, same@) == (phase, action@),
    {
        self.phase = phase;
        action
    }

    fn fail(&mut self, e: ConfigError) -> (action: OpeningAction)
        ensures
            (final(self)@, action@) == opening_fails(e@),
    {
        self.turn(OpeningPhase::Finished, OpeningAction::Fail(e))
    }

    fn go_on(
        &mut self,
        check: Result<(), ConfigError>,
        phase: OpeningPhase,
        action: OpeningAction,
    ) -> (next: OpeningAction)
        ensures
            (final(self)@, next@) == opening_checked(verdict(check), phase, action@),
    {
        match check {
            Ok(()) => self.turn(phase, action),
            Err(e) => self.fail(e),
        }
    }

    fn take_binding(&mut self, config: &Config, look: BindingLook) -> (action: OpeningAction)
        ensures
            (final(self)@, action@) == after_binding(*config, look),
    {
        match ensure_manifest_authorizes_state_access(config, look) {
            Err(e) => self.fail(e),
            Ok(BindingStep::Create(binding)) => self.turn(
                OpeningPhase::WritingBinding,
                OpeningAction::WriteBinding(binding),
            ),
            Ok(BindingStep::Settled) => self.turn(
                OpeningPhase::MakingPrivate,
                OpeningAction::MakePrivate,
            ),
        }
    }

    fn take_identity(&mut self, config: &Config, look: IdentityLook) -> (action: OpeningAction)
        ensures
            (final(self)@, action@) == after_identity(*config, look),
    {
        match ensure_installation_identity(config, look) {
            Err(e) => self.fail(e),
            Ok(IdentityStep::Create(identity)) => self.turn(
                OpeningPhase::WritingIdentity,
                OpeningAction::WriteIdentity(identity),
            ),
            Ok(IdentityStep::Settled) => self.turn(
                OpeningPhase::LookingAtState,
                OpeningAction::LookAtState,
            ),
        }
    }

    /// Takes what happened, and says what to do next. A binding is written only
    /// for a configuration that was verified with its manifest.
    pub fn step(&mut self, config: &Config, event: OpeningEvent) -> (action: OpeningAction)
        requires
            old(self)@ == OpeningPhase::WritingBinding ==> is_verified(*config),
        ensures
            (final(self)@, action@) == opening_next(*config, old(self)@, event),
            final(self)@ == OpeningPhase::WritingBinding ==> is_verified(*config),
    {
        match (self.phase, event) {
            (_, OpeningEvent::Failed(e)) => self.fail(e),
            (OpeningPhase::PreparingBinding, OpeningEvent::Done) => self.turn(
                OpeningPhase::LookingForBinding,
                OpeningAction::LookForBinding,
            ),
            (OpeningPhase::LookingForBinding, OpeningEvent::Binding(look)) => self.take_binding(
                config,
                look,
            ),
            (OpeningPhase::WritingBinding, OpeningEvent::BindingWritten(written)) => {
                let check = match config.capability.verified() {
                    Some(verified) => create_manifest_binding(
                        &ManifestBinding::of(config, verified),
                        &written,
                    ),
                    None => Err(ConfigError::Io(owned("unexpected answer"))),
                };
                self.go_on(check, OpeningPhase::MakingPrivate, OpeningAction::MakePrivate)
            },
            (OpeningPhase::MakingPrivate, OpeningEvent::Done) => self.turn(
                OpeningPhase::LookingForIdentity,
                OpeningAction::LookForIdentity,
            ),
            (OpeningPhase::LookingForIdentity, OpeningEvent::Identity(look)) => self.take_identity(
                config,
                look,
            ),
            (OpeningPhase::WritingIdentity, OpeningEvent::IdentityWritten(written)) => {
                let check = create_installation_identity(
                    &InstallationIdentity::from_config(config),
                    written,
                );
                self.go_on(check, OpeningPhase::LookingAtState, OpeningAction::LookAtState)
            },
            (OpeningPhase::LookingAtState, OpeningEvent::StatePath { is_symlink }) => self.go_on(
                check_state_path(is_symlink),
                OpeningPhase::OpeningStore,
                OpeningAction::OpenStore,
            ),
            (
                OpeningPhase::OpeningStore,
                OpeningEvent::Opened { cluster_id, cluster_incarnation },
            ) => self.go_on(
                check_opened_store(config, &cluster_id, cluster_incarnation),
                OpeningPhase::Hardening,
                OpeningAction::Harden,
            ),
            (OpeningPhase::Hardening, OpeningEvent::Done) => self.turn(
                OpeningPhase::Finished,
                OpeningAction::Done,
            ),
            _ => self.fail(ConfigError::Io(owned("unexpected answer"))),
        }
    }
}

/// Begins to open the store of an installation under a configuration.
pub fn open_store(config: &Config, files: &TlsFiles) -> (begun: Result<
    (Opening, OpeningAction),
    ConfigError,
>)
    ensures
        match begun {
            Ok(b) => config_verdict(*config, *files) is Ok && (if is_verified(*config) {
                b.0@ == OpeningPhase::PreparingBinding && b.1@ == OpeningActionView::MakePrivate
            } else {
                b.0@ == OpeningPhase::LookingForBinding && b.1@
                    == OpeningActionView::LookForBinding
            }),
            Err(e) => config_verdict(*config, *files) == Err::<(), _>(e@),
        },
{
    match config.validate(files) {
        Ok(()) => {},
        Err(e) => {
            return Err(e);
        },
    }
    if config.bootstrap_manifest.is_some() && config.capability.verified().is_some() {
        Ok((Opening { phase: OpeningPhase::PreparingBinding }, OpeningAction::MakePrivate))
    } else {
        Ok((Opening { phase: OpeningPhase::LookingForBinding }, OpeningAction::LookForBinding))
    }
}

// ---------------------------------------------------------------------------
// Laws
// ---------------------------------------------------------------------------

/// Whether an event settles that the installation's identity is the
/// configuration's: it was found, or it was written.
pub open spec fn identity_settled(config: Config, phase: OpeningPhase, event: OpeningEvent) -> bool {
    match (phase, event) {
        (
            OpeningPhase::LookingForIdentity,
            OpeningEvent::Identity(IdentityLook::Found(Ok(identity))),
        ) => identity@.matches(config) && identity@.verdict() is Ok,
        (OpeningPhase::WritingIdentity, OpeningEvent::IdentityWritten(written)) => {
            identity_published(identity_of(config), written) is Ok
        },
        _ => false,
    }
}

/// Whether an event settles that a binding lets the configuration through: it
/// was found or need not be there, or it was written.
pub open spec fn binding_settled(config: Config, phase: OpeningPhase, event: OpeningEvent) -> bool {
    match (phase, event) {
        (OpeningPhase::LookingForBinding, OpeningEvent::Binding(look)) => access_outcome(
            config,
            look,
        ) == Ok::<_, ConfigErrorView>(false),
        (OpeningPhase::WritingBinding, OpeningEvent::BindingWritten(written)) => {
            binding_published(own_binding(config), written) is Ok
        },
        _ => false,
    }
}

/// A store is opened only behind a look at its path that showed no symbolic
/// link, and that only behind an identity that is the configuration's: one that
/// was found, or one that was written.
pub proof fn stores_open_under_their_identity(
    config: Config,
    phase: OpeningPhase,
    event: OpeningEvent,
)
    ensures
        opening_next(config, phase, event).1 is OpenStore ==> phase == OpeningPhase::LookingAtState
            && event == (OpeningEvent::StatePath { is_symlink: false }),
        opening_next(config, phase, event).0 == OpeningPhase::LookingAtState ==> identity_settled(
            config,
            phase,
            event,
        ),
{
}

/// An identity is looked for only behind a binding that lets the configuration
/// through: one that was found or need not be there, or one that was written.
pub proof fn identities_follow_the_binding(
    config: Config,
    phase: OpeningPhase,
    event: OpeningEvent,
)
    requires
        opening_next(config, phase, event).0 == OpeningPhase::MakingPrivate,
    ensures
        binding_settled(config, phase, event),
{
}

/// Neither a binding nor an identity is written where there is one already, or
/// where there is durable state.
pub proof fn installations_are_marked_once(
    config: Config,
    phase: OpeningPhase,
    event: OpeningEvent,
)
    ensures
        opening_next(config, phase, event).1 is WriteBinding ==> is_verified(config) && (
        event matches OpeningEvent::Binding(BindingLook::Missing(Ok(None)))),
        opening_next(config, phase, event).1 is WriteIdentity ==> (
        event matches OpeningEvent::Identity(IdentityLook::Missing(Ok(None)))),
{
}

/// A store that is kept open holds the state of the configuration's cluster.
pub proof fn opened_stores_belong_to_the_cluster(
    config: Config,
    phase: OpeningPhase,
    event: OpeningEvent,
)
    requires
        opening_next(config, phase, event).1 is Harden,
    ensures
        event matches OpeningEvent::Opened { cluster_id, cluster_incarnation } && store_verdict(
            config,
            false,
            cluster_id@,
            cluster_incarnation,
        ) is Ok && cluster_incarnation == config.cluster_incarnation,
{
}

} // verus!
