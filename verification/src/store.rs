//! Persistent per-feeder configuration.
//!
//! The dispatcher reads and writes configurations through `ConfigStore`;
//! a missing entry reads as the store's default.  `MemConfigStore` is the
//! library's own verified implementation; a flash-backed one lives
//! outside the library.

use vstd::prelude::*;

use crate::error::Error;
use crate::feeder::FeederConfig;

verus! {

/// Keyed storage of feeder configurations, with a default for indices
/// never written.
pub trait ConfigStore: Sized {
    /// The entries written so far.
    spec fn stored(&self) -> Map<int, FeederConfig>;

    /// What an unwritten index reads as.
    spec fn default_config_spec(&self) -> FeederConfig;

    /// Whether a read of `index` succeeds.
    spec fn get_ok(&self, index: usize) -> bool;

    /// Whether a write of `config` at `index` succeeds.
    spec fn set_ok(&self, index: usize, config: FeederConfig) -> bool;

    /// Reads the configuration at `index`, or the default when none was
    /// ever written there.
    fn get(&mut self, index: usize) -> (r: Result<FeederConfig, Error>)
        ensures
            final(self).stored() == old(self).stored(),
            final(self).default_config_spec() == old(self).default_config_spec(),
            forall|i: usize| final(self).get_ok(i) == old(self).get_ok(i),
            forall|i: usize, c: FeederConfig| final(self).set_ok(i, c) == old(self).set_ok(i, c),
            r is Ok <==> old(self).get_ok(index),
            r is Ok ==> r->Ok_0 == (if old(self).stored().contains_key(index as int) {
                old(self).stored()[index as int]
            } else {
                old(self).default_config_spec()
            }),
            r is Err ==> r->Err_0 == Error::ConfigGetError,
    ;

    /// Writes the configuration at `index`.
    fn set(&mut self, index: usize, config: &FeederConfig) -> (r: Result<(), Error>)
        ensures
            final(self).default_config_spec() == old(self).default_config_spec(),
            forall|i: usize| final(self).get_ok(i) == old(self).get_ok(i),
            forall|i: usize, c: FeederConfig| final(self).set_ok(i, c) == old(self).set_ok(i, c),
            r is Ok <==> old(self).set_ok(index, *config),
            r is Ok ==> final(self).stored() == old(self).stored().insert(index as int, *config),
            r is Err ==> final(self).stored() == old(self).stored() && r->Err_0
                == Error::ConfigSetError,
    ;
}

/// An in-memory configuration store; reads and writes always succeed.
pub struct MemConfigStore {
    entries: Vec<Option<FeederConfig>>,
    default_config: FeederConfig,
}

impl MemConfigStore {
    /// An empty store whose unwritten indices read as `default_config`.
    pub fn new(default_config: FeederConfig) -> (r: MemConfigStore)
        ensures
            r.stored() == Map::<int, FeederConfig>::empty(),
            r.default_config_spec() == default_config,
    {
        let r = MemConfigStore { entries: Vec::new(), default_config };
        proof {
            assert(r.stored() =~= Map::<int, FeederConfig>::empty());
        }
        r
    }
}

impl ConfigStore for MemConfigStore {
    closed spec fn stored(&self) -> Map<int, FeederConfig> {
        Map::new(
            |i: int| 0 <= i < self.entries@.len() && self.entries@[i] is Some,
            |i: int| self.entries@[i]->0,
        )
    }

    closed spec fn default_config_spec(&self) -> FeederConfig {
        self.default_config
    }

    open spec fn get_ok(&self, index: usize) -> bool {
        true
    }

    open spec fn set_ok(&self, index: usize, config: FeederConfig) -> bool {
        true
    }

    fn get(&mut self, index: usize) -> (r: Result<FeederConfig, Error>) {
        if index < self.entries.len() {
            match self.entries[index] {
                Some(config) => Ok(config),
                None => Ok(self.default_config),
            }
        } else {
            Ok(self.default_config)
        }
    }

    fn set(&mut self, index: usize, config: &FeederConfig) -> (r: Result<(), Error>) {
        while self.entries.len() <= index
            invariant
                self.default_config == old(self).default_config,
                forall|i: int|
                    0 <= i < self.entries@.len() ==> self.entries@[i] == (if i < old(
                        self,
                    ).entries@.len() {
                        old(self).entries@[i]
                    } else {
                        None::<FeederConfig>
                    }),
                old(self).entries@.len() <= self.entries@.len(),
            decreases index + 1 - self.entries.len(),
        {
            self.entries.push(None);
        }
        self.entries.set(index, Some(*config));
        proof {
            assert(final(self).stored() =~= old(self).stored().insert(index as int, *config));
        }
        Ok(())
    }
}

} // verus!
