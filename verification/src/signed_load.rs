//! Loading a signed configuration: its manifest is verified, then bound to the
//! installation once and for all.

use crate::config::{Config, ManifestCapability, TlsFiles};
use crate::config_error::{ConfigError, ConfigErrorView};
use crate::identity::{
    binding_of, binding_outcome, binding_published, binding_step, create_manifest_binding,
    ensure_manifest_binding, BindingLook, BindingStep, BindingView, ManifestBinding, Published,
};
use crate::manifest::{verification_outcome, VerifiedView};
use vstd::prelude::*;

verus! {

/// What making the installation's directory ready and looking for a binding in
/// it gave.
pub type Looked = Result<BindingLook, ConfigError>;

/// What writing a binding gave. Nothing hangs on it where none is written.
pub type Written = Result<Published<ManifestBinding>, ConfigError>;

/// Whether a binding is to be written for a verified manifest.
pub open spec fn to_bind(config: Config, verified: VerifiedView, looked: Looked) -> Result<
    bool,
    ConfigErrorView,
> {
    match looked {
        Err(e) => Err(e@),
        Ok(look) => binding_outcome(binding_of(config, verified), look),
    }
}

/// The same, by what the verification of the manifest gave.
pub open spec fn load_step(
    config: Config,
    verified: Result<VerifiedView, ConfigErrorView>,
    looked: Looked,
) -> Result<bool, ConfigErrorView> {
    match verified {
        Err(e) => Err(e),
        Ok(v) => to_bind(config, v, looked),
    }
}

/// The verified manifest that a configuration is loaded with, or the error: the
/// manifest's own, then that of the binding that was found, then that of the
/// binding that was written.
pub open spec fn load_outcome(
    config: Config,
    verified: Result<VerifiedView, ConfigErrorView>,
    looked: Looked,
    written: Written,
) -> Result<VerifiedView, ConfigErrorView> {
    match load_step(config, verified, looked) {
        Err(e) => Err(e),
        Ok(false) => verified,
        Ok(true) => match written {
            Err(e) => Err(e@),
            Ok(published) => match binding_published(
                binding_of(config, verified->Ok_0),
                published,
            ) {
                Err(e) => Err(e),
                Ok(()) => verified,
            },
        },
    }
}

/// The binding that the installation has in the end, as far as it is known:
/// the one that was found, or else the one that was written there.
pub open spec fn bound_after(
    looked: Looked,
    expected: BindingView,
    written: Written,
) -> Option<BindingView> {
    match looked {
        Ok(BindingLook::Found(Ok(existing))) => Some(existing@),
        Ok(BindingLook::Missing(Ok(None))) => match written {
            Ok(Published::Linked) => Some(expected),
            Ok(Published::Raced(Ok(existing))) => Some(existing@),
            _ => None,
        },
        _ => None,
    }
}

impl Config {
    /// Decides whether a binding is to be written before a configuration is
    /// loaded, and which: that of its own verified manifest, and only where
    /// there is neither a binding nor durable state.
    pub fn manifest_binding_step(
        &self,
        files: &TlsFiles,
        key: &Result<Vec<u8>, ConfigError>,
        ca: &Result<Vec<u8>, ConfigError>,
        looked: &Looked,
    ) -> (result: Result<BindingStep, ConfigError>)
        ensures
            binding_step(
                load_step(*self, verification_outcome(*self, *files, *key, *ca), *looked),
                binding_of(*self, verification_outcome(*self, *files, *key, *ca)->Ok_0),
                result,
            ),
    {
        let verified = match self.verify_openraft_manifest(files, key, ca) {
            Ok(verified) => verified,
            Err(e) => {
                return Err(e);
            },
        };
        match looked {
            Ok(look) => ensure_manifest_binding(self, &verified, look),
            Err(e) => Err(e.copied()),
        }
    }

    /// Lets a configuration through whose manifest is verified and bound to the
    /// installation, with what reading the files, looking for a binding and
    /// writing one gave.
    pub fn load_openraft_signed(
        self,
        files: &TlsFiles,
        key: &Result<Vec<u8>, ConfigError>,
        ca: &Result<Vec<u8>, ConfigError>,
        looked: &Looked,
        written: &Written,
    ) -> (result: Result<Config, ConfigError>)
        ensures
            match result {
                Ok(c) => {
                    &&& c.capability.manifest() matches Some(v) && {
                        &&& verification_outcome(self, *files, *key, *ca) == Ok::<
                            _,
                            ConfigErrorView,
                        >(v@)
                        &&& load_outcome(self, Ok(v@), *looked, *written) is Ok
                        &&& bound_after(*looked, binding_of(c, v@), *written) == Some(
                            binding_of(c, v@),
                        )
                    }
                    &&& c == (Config { capability: c.capability, ..self })
                },
                Err(e) => load_outcome(
                    self,
                    verification_outcome(self, *files, *key, *ca),
                    *looked,
                    *written,
                ) == Err::<VerifiedView, _>(e@),
            },
    {
        let verified = match self.verify_openraft_manifest(files, key, ca) {
            Ok(verified) => verified,
            Err(e) => {
                return Err(e);
            },
        };
        let look = match looked {
            Ok(look) => look,
            Err(e) => {
                return Err(e.copied());
            },
        };
        match ensure_manifest_binding(&self, &verified, look) {
            Ok(BindingStep::Settled) => {},
            Ok(BindingStep::Create(binding)) => {
                let published = match written {
                    Ok(published) => published,
                    Err(e) => {
                        return Err(e.copied());
                    },
                };
                match create_manifest_binding(&binding, published) {
                    Ok(()) => {},
                    Err(e) => {
                        return Err(e);
                    },
                }
            },
            Err(e) => {
                return Err(e);
            },
        }
        let mut config = self;
        config.capability = ManifestCapability::of(verified);
        Ok(config)
    }
}

// ---------------------------------------------------------------------------
// Laws
// ---------------------------------------------------------------------------

/// A configuration that is loaded is pinned: the binding that the installation
/// has in the end is that of its own manifest.
pub proof fn loaded_manifests_are_pinned(
    config: Config,
    verified: VerifiedView,
    looked: Looked,
    written: Written,
)
    requires
        load_outcome(config, Ok(verified), looked, written) is Ok,
    ensures
        load_outcome(config, Ok(verified), looked, written) == Ok::<_, ConfigErrorView>(verified),
        bound_after(looked, binding_of(config, verified), written) == Some(
            binding_of(config, verified),
        ),
{
}

/// A binding is written only for a manifest that was verified, and only where
/// there is neither a binding nor durable state.
pub proof fn bindings_are_written_once(
    config: Config,
    verified: Result<VerifiedView, ConfigErrorView>,
    looked: Looked,
)
    requires
        load_step(config, verified, looked) == Ok::<_, ConfigErrorView>(true),
    ensures
        verified is Ok,
        looked matches Ok(BindingLook::Missing(Ok(None))),
{
}

/// Where a binding stands, a configuration is loaded exactly if its manifest is
/// verified and the binding is that of its manifest; nothing is written.
pub proof fn standing_bindings_are_kept(
    config: Config,
    verified: Result<VerifiedView, ConfigErrorView>,
    existing: ManifestBinding,
    written: Written,
)
    ensures
        ({
            let looked: Looked = Ok(BindingLook::Found(Ok(existing)));
            &&& load_outcome(config, verified, looked, written) is Ok <==> (verified matches Ok(v)
                && existing@ == binding_of(config, v))
            &&& load_step(config, verified, looked) != Ok::<_, ConfigErrorView>(true)
        }),
{
}

} // verus!
