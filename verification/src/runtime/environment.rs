//! The runtime environments that code can be sent to, and the choice of the
//! default among them.
//!
//! Finding out what the machine offers is the caller's work. The manager
//! takes the environments that were found and keeps the choice consistent.
use vstd::prelude::*;
use vstd::string::StringExecFns;

verus! {

/// The kind of a runtime environment.
#[derive(Debug, Clone, Copy, PartialEq, Eq, Structural)]
pub enum RuntimeType {
    LocalCpu,
    LocalGpu,
    CloudAws,
    CloudGcp,
    CloudAzure,
    Kubernetes,
}

/// One runtime environment. `hardware` holds what was measured of the
/// machine; the manager never looks into it.
#[derive(Debug)]
pub struct RuntimeEnvironment<H> {
    pub id: String,
    pub name: String,
    pub runtime_type: RuntimeType,
    pub description: String,
    pub active: bool,
    pub gpu_available: bool,
    pub hardware: H,
}

/// The environments that are available and the identifier of the default.
#[derive(Debug)]
pub struct EnvironmentConfig<H> {
    pub default_environment: String,
    pub available_environments: Vec<RuntimeEnvironment<H>>,
}

/// The request to make another environment the default.
#[derive(Debug)]
pub struct SetDefaultEnvironmentRequest {
    pub environment_id: String,
}

/// Why the default could not be changed.
#[derive(Debug)]
pub enum EnvironmentError {
    /// No available environment has this identifier.
    NotFound(String),
}

/// The index of the first environment with the identifier `id`, if any.
pub open spec fn position_of<H>(environments: Seq<RuntimeEnvironment<H>>, id: Seq<char>) -> Option<
    int,
>
    decreases environments.len(),
{
    if environments.len() == 0 {
        None
    } else if environments[0].id@ == id {
        Some(0)
    } else {
        match position_of(environments.skip(1), id) {
            Some(i) => Some(i + 1),
            None => None,
        }
    }
}

/// The index of the first active environment, if any.
pub open spec fn first_active<H>(environments: Seq<RuntimeEnvironment<H>>) -> Option<int>
    decreases environments.len(),
{
    if environments.len() == 0 {
        None
    } else if environments[0].active {
        Some(0)
    } else {
        match first_active(environments.skip(1)) {
            Some(i) => Some(i + 1),
            None => None,
        }
    }
}

/// The default for a list of environments: the first active one, or
/// `local_cpu` where none is active.
pub open spec fn initial_default<H>(environments: Seq<RuntimeEnvironment<H>>) -> Seq<char> {
    match first_active(environments) {
        Some(i) => environments[i].id@,
        None => "local_cpu"@,
    }
}

/// `position_of` gives the least index with the identifier, and `None` only
/// where no environment has it.
pub proof fn lemma_position_of<H>(environments: Seq<RuntimeEnvironment<H>>, id: Seq<char>)
    ensures
        match position_of(environments, id) {
            Some(i) => {
                &&& 0 <= i < environments.len()
                &&& environments[i].id@ == id
                &&& forall|j: int| 0 <= j < i ==> (#[trigger] environments[j]).id@ != id
            },
            None => forall|j: int|
                0 <= j < environments.len() ==> (#[trigger] environments[j]).id@ != id,
        },
    decreases environments.len(),
{
    if environments.len() > 0 && environments[0].id@ != id {
        let rest = environments.skip(1);
        lemma_position_of(rest, id);
        assert forall|j: int| 1 <= j < environments.len() implies environments[j] == rest[j - 1] by {}
        match position_of(rest, id) {
            Some(i) => {
                assert forall|j: int| 0 <= j < i + 1 implies (#[trigger] environments[j]).id@
                    != id by {
                    if j > 0 {
                        assert(environments[j] == rest[j - 1]);
                    }
                }
            },
            None => {
                assert forall|j: int| 0 <= j < environments.len() implies (
                #[trigger] environments[j]).id@ != id by {
                    if j > 0 {
                        assert(environments[j] == rest[j - 1]);
                    }
                }
            },
        }
    }
}

/// `first_active` gives the least index of an active environment, and
/// `None` only where none is active.
pub proof fn lemma_first_active<H>(environments: Seq<RuntimeEnvironment<H>>)
    ensures
        match first_active(environments) {
            Some(i) => {
                &&& 0 <= i < environments.len()
                &&& environments[i].active
                &&& forall|j: int| 0 <= j < i ==> !(#[trigger] environments[j]).active
            },
            None => forall|j: int|
                0 <= j < environments.len() ==> !(#[trigger] environments[j]).active,
        },
    decreases environments.len(),
{
    if environments.len() > 0 && !environments[0].active {
        let rest = environments.skip(1);
        lemma_first_active(rest);
        match first_active(rest) {
            Some(i) => {
                assert forall|j: int| 0 <= j < i + 1 implies !(#[trigger] environments[j]).active by {
                    if j > 0 {
                        assert(environments[j] == rest[j - 1]);
                    }
                }
            },
            None => {
                assert forall|j: int| 0 <= j < environments.len() implies !(
                #[trigger] environments[j]).active by {
                    if j > 0 {
                        assert(environments[j] == rest[j - 1]);
                    }
                }
            },
        }
    }
}

/// The runtime environments of the process and the default among them.
#[derive(Debug)]
pub struct EnvironmentManager<H> {
    config: EnvironmentConfig<H>,
}

impl<H> EnvironmentManager<H> {
    /// The environments, in the order in which they were found.
    pub closed spec fn environments(&self) -> Seq<RuntimeEnvironment<H>> {
        self.config.available_environments@
    }

    /// The identifier of the default environment.
    pub closed spec fn default_id(&self) -> Seq<char> {
        self.config.default_environment@
    }

    /// A manager of the environments that were found. The default is the
    /// first active one, or `local_cpu` where none is active.
    pub fn with_environments(available_environments: Vec<RuntimeEnvironment<H>>) -> (manager: Self)
        ensures
            manager.environments() == available_environments@,
            manager.default_id() == initial_default(available_environments@),
    {
        let mut chosen: Option<usize> = None;
        let mut i: usize = 0;
        proof {
            lemma_first_active(available_environments@);
        }
        while i < available_environments.len() && chosen.is_none()
            invariant
                i <= available_environments.len(),
                forall|j: int|
                    0 <= j < (if chosen is Some { chosen->Some_0 as int } else { i as int })
                        ==> !(#[trigger] available_environments@[j]).active,
                chosen is Some ==> chosen->Some_0 < available_environments.len()
                    && available_environments@[chosen->Some_0 as int].active,
            decreases available_environments.len() - i + (if chosen is None { 1int } else { 0int }),
        {
            if available_environments[i].active {
                chosen = Some(i);
            } else {
                i += 1;
            }
        }
        let default_environment = match chosen {
            Some(at) => available_environments[at].id.clone(),
            None => String::from_str("local_cpu"),
        };
        EnvironmentManager { config: EnvironmentConfig { default_environment, available_environments } }
    }

    /// The environments, in the order in which they were found.
    pub fn list_environments(&self) -> (environments: &[RuntimeEnvironment<H>])
        ensures
            environments@ == self.environments(),
    {
        self.config.available_environments.as_slice()
    }

    /// The first environment with the identifier `id`, if there is one.
    pub fn get_environment(&self, id: &str) -> (found: Option<&RuntimeEnvironment<H>>)
        ensures
            match found {
                Some(environment) => position_of(self.environments(), id@) is Some
                    && *environment == self.environments()[position_of(
                    self.environments(),
                    id@,
                )->Some_0],
                None => position_of(self.environments(), id@) is None,
            },
    {
        let wanted = String::from_str(id);
        let mut i: usize = 0;
        while i < self.config.available_environments.len()
            invariant
                i <= self.config.available_environments.len(),
                wanted@ == id@,
                forall|j: int| 0 <= j < i ==> (#[trigger] self.environments()[j]).id@ != id@,
            decreases self.config.available_environments.len() - i,
        {
            if self.config.available_environments[i].id == wanted {
                proof {
                    lemma_position_of(self.environments(), id@);
                }
                return Some(&self.config.available_environments[i]);
            }
            i += 1;
        }
        proof {
            lemma_position_of(self.environments(), id@);
        }
        None
    }

    /// The default environment, if the default names one that is available.
    pub fn get_default_environment(&self) -> (found: Option<&RuntimeEnvironment<H>>)
        ensures
            match found {
                Some(environment) => position_of(self.environments(), self.default_id()) is Some
                    && *environment == self.environments()[position_of(
                    self.environments(),
                    self.default_id(),
                )->Some_0],
                None => position_of(self.environments(), self.default_id()) is None,
            },
    {
        self.get_environment(self.config.default_environment.as_str())
    }

    /// Makes the environment `id` the default. `NotFound`, with nothing
    /// changed, where no available environment has that identifier.
    pub fn set_default_environment(&mut self, id: &str) -> (result: Result<(), EnvironmentError>)
        ensures
            final(self).environments() == old(self).environments(),
            match result {
                Ok(_) => {
                    &&& position_of(old(self).environments(), id@) is Some
                    &&& final(self).default_id() == id@
                },
                Err(EnvironmentError::NotFound(missing)) => {
                    &&& position_of(old(self).environments(), id@) is None
                    &&& missing@ == id@
                    &&& final(self).default_id() == old(self).default_id()
                },
            },
    {
        if self.get_environment(id).is_some() {
            self.config.default_environment = String::from_str(id);
            Ok(())
        } else {
            Err(EnvironmentError::NotFound(String::from_str(id)))
        }
    }

    /// The environments and the default, as they are kept.
    pub fn get_environment_config(&self) -> (config: &EnvironmentConfig<H>)
        ensures
            config.available_environments@ == self.environments(),
            config.default_environment@ == self.default_id(),
    {
        &self.config
    }
}

} // verus!
