//! The shared configuration store: the live snapshot, the last persisted
//! snapshot, and the data shared between the pipeline and the control
//! plane.
//!
//! A configuration is replaced wholesale and read as a clone, so a reader
//! always observes one consistent snapshot; the store records what was
//! last persisted so a save can be skipped when nothing changed.
use vstd::prelude::*;

use crate::config::{config_eq, config_ok, Config, ConfigError, ConfigView};
use crate::config_codec::{load_from_content, parse_config_spec, ser_config, serialize_config};
use crate::device::{device_ok, Device};

verus! {

/// The live configuration together with the last persisted snapshot.
pub struct ConfigFile {
    config: Config,
    persisted: Option<Config>,
}

/// Validity of the store: every held configuration satisfies the load
/// policy.
pub open spec fn config_file_ok(f: ConfigFile) -> bool {
    &&& config_ok(f.spec_config())
    &&& match f.spec_persisted() {
        Some(p) => config_ok(p),
        None => true,
    }
}

impl ConfigFile {
    /// The live configuration.
    pub closed spec fn spec_config(&self) -> ConfigView {
        self.config@
    }

    /// The last persisted configuration, if one was ever persisted.
    pub closed spec fn spec_persisted(&self) -> Option<ConfigView> {
        match self.persisted {
            Some(p) => Some(p@),
            None => None,
        }
    }

    /// A store over a configuration that was never persisted.
    pub fn new(config: Config) -> (r: ConfigFile)
        requires
            config_ok(config@),
        ensures
            r.spec_config() == config@,
            r.spec_persisted() == None::<ConfigView>,
            config_file_ok(r),
    {
        ConfigFile { config, persisted: None }
    }

    /// A store over a configuration just loaded from its stored form.
    pub fn from_loaded(config: Config) -> (r: ConfigFile)
        requires
            config_ok(config@),
        ensures
            r.spec_config() == config@,
            r.spec_persisted() == Some(config@),
            config_file_ok(r),
    {
        let persisted = config.duplicate();
        proof {
            assert(persisted@ =~~= config@);
        }
        ConfigFile { config, persisted: Some(persisted) }
    }

    /// The live configuration, by reference.
    pub fn get_config(&self) -> (r: &Config)
        ensures
            r@ == self.spec_config(),
    {
        &self.config
    }

    /// Replace the live configuration; the persisted snapshot is untouched.
    pub fn set_config(&mut self, config: Config)
        requires
            config_ok(config@),
            config_file_ok(*old(self)),
        ensures
            final(self).spec_config() == config@,
            final(self).spec_persisted() == old(self).spec_persisted(),
            config_file_ok(*final(self)),
    {
        self.config = config;
    }

    /// Whether the live configuration differs from what was last
    /// persisted; true when nothing was ever persisted.
    pub fn changed(&self) -> (r: bool)
        ensures
            r == match self.spec_persisted() {
                Some(p) => p != self.spec_config(),
                None => true,
            },
    {
        match &self.persisted {
            Some(p) => !config_eq(p, &self.config),
            None => true,
        }
    }

    /// The bytes that a save writes: the serialized live configuration.
    pub fn save_content(&self) -> (r: Vec<u8>)
        requires
            config_file_ok(*self),
        ensures
            r@ == ser_config(self.spec_config()),
    {
        serialize_config(&self.config)
    }

    /// Record that the live configuration reached the disk.
    pub fn mark_saved(&mut self)
        requires
            config_file_ok(*old(self)),
        ensures
            final(self).spec_config() == old(self).spec_config(),
            final(self).spec_persisted() == Some(old(self).spec_config()),
            config_file_ok(*final(self)),
    {
        let p = self.config.duplicate();
        proof {
            assert(p@ =~~= self.config@);
        }
        self.persisted = Some(p);
    }

    /// Replace the live configuration from the bytes of a stored form,
    /// as a reload from the backing file does. On success both the live
    /// and the persisted snapshot are the parsed value; on any error the
    /// store is unchanged.
    #[verifier::rlimit(50)]
    pub fn reload_from_content(&mut self, content: &[u8]) -> (r: Result<(), ConfigError>)
        requires
            config_file_ok(*old(self)),
        ensures
            config_file_ok(*final(self)),
            content@.len() > crate::config_codec::MAX_CONFIG_LEN ==> r == Err::<(), ConfigError>(
                ConfigError::TooLarge,
            ) && *final(self) == *old(self),
            content@.len() <= crate::config_codec::MAX_CONFIG_LEN ==> match parse_config_spec(
                content@,
            ) {
                Some(c) => r == Ok::<(), ConfigError>(()) && final(self).spec_config() == c && final(self).spec_persisted() == Some(c),
                None => r == Err::<(), ConfigError>(ConfigError::JsonParse) && *final(self) == *old(self),
            },
    {
        match load_from_content(content) {
            Ok(cfg) => {
                let p = cfg.duplicate();
                proof {
                    assert(p@ =~~= cfg@);
                }
                self.config = cfg;
                self.persisted = Some(p);
                Ok(())
            },
            Err(e) => Err(e),
        }
    }
}

/// The data shared between the pipeline and the control plane: the device
/// descriptor and the configuration store.
pub struct SharedData {
    device: Device,
    config_file: ConfigFile,
}

/// Validity of the shared data.
pub open spec fn shared_ok(s: SharedData) -> bool {
    &&& device_ok(s.spec_device())
    &&& config_file_ok(s.spec_config_file())
}

impl SharedData {
    /// The device descriptor.
    pub closed spec fn spec_device(&self) -> crate::device::DeviceView {
        self.device@
    }

    /// The configuration store.
    pub closed spec fn spec_config_file(&self) -> ConfigFile {
        self.config_file
    }

    /// Bundle a device descriptor with a configuration store.
    pub fn new(device: Device, config_file: ConfigFile) -> (r: SharedData)
        requires
            device_ok(device@),
            config_file_ok(config_file),
        ensures
            r.spec_device() == device@,
            r.spec_config_file() == config_file,
            shared_ok(r),
    {
        SharedData { device, config_file }
    }

    /// The device descriptor, by reference.
    pub fn device(&self) -> (r: &Device)
        ensures
            r@ == self.spec_device(),
    {
        &self.device
    }

    /// The configuration store, by reference.
    pub fn get_config_file(&self) -> (r: &ConfigFile)
        ensures
            *r == self.spec_config_file(),
    {
        &self.config_file
    }

    /// Replace the live configuration; the persisted snapshot is untouched.
    pub fn set_config(&mut self, config: Config)
        requires
            config_ok(config@),
            config_file_ok(old(self).spec_config_file()),
        ensures
            final(self).spec_config_file().spec_config() == config@,
            final(self).spec_config_file().spec_persisted() == old(
                self,
            ).spec_config_file().spec_persisted(),
            final(self).spec_device() == old(self).spec_device(),
            config_file_ok(final(self).spec_config_file()),
    {
        self.config_file.set_config(config);
    }

    /// Record that the live configuration reached the disk.
    pub fn mark_saved(&mut self)
        requires
            config_file_ok(old(self).spec_config_file()),
        ensures
            final(self).spec_config_file().spec_config() == old(
                self,
            ).spec_config_file().spec_config(),
            final(self).spec_config_file().spec_persisted() == Some(
                old(self).spec_config_file().spec_config(),
            ),
            final(self).spec_device() == old(self).spec_device(),
            config_file_ok(final(self).spec_config_file()),
    {
        self.config_file.mark_saved();
    }

    /// The live configuration, by reference.
    pub fn config(&self) -> (r: &Config)
        ensures
            r@ == self.spec_config_file().spec_config(),
    {
        self.config_file.get_config()
    }

    /// Replace the configuration store wholesale.
    pub fn set_config_file(&mut self, config_file: ConfigFile)
        requires
            config_file_ok(config_file),
        ensures
            final(self).spec_config_file() == config_file,
            final(self).spec_device() == old(self).spec_device(),
    {
        self.config_file = config_file;
    }
}

} // verus!
