//! Per-session configuration: agent modes, models and options.

use vstd::prelude::*;
use vstd::string::*;
use crate::capability_probe::AgentCapabilities;
use crate::text::{clone_opt_string, str_eq};

verus! {

/// An agent session mode (e.g., "code", "architect", "plan").
#[derive(Debug, Clone)]
pub struct SessionMode {
    pub mode_id: String,
    pub display_name: String,
    pub description: Option<String>,
    pub icon: Option<String>,
}

/// A selectable model for the ACP agent.
#[derive(Debug, Clone)]
pub struct ModelInfo {
    pub model_id: String,
    pub display_name: String,
    pub description: Option<String>,
    pub is_latest: bool,
    pub cost_info: Option<String>,
}

#[derive(Debug, Clone)]
pub struct ConfigValue {
    pub value_id: String,
    pub display_name: String,
}

/// A configurable option for the session.
#[derive(Debug, Clone)]
pub struct SessionConfigOption {
    pub config_id: String,
    pub display_name: String,
    pub description: Option<String>,
    pub current_value: ConfigValue,
    pub available_values: Vec<ConfigValue>,
}

/// Current session configuration.
#[derive(Debug, Clone)]
pub struct SessionConfig {
    pub session_id: String,
    pub current_mode: Option<SessionMode>,
    pub available_modes: Vec<SessionMode>,
    pub current_model: Option<ModelInfo>,
    pub available_models: Vec<ModelInfo>,
    pub config_options: Vec<SessionConfigOption>,
}

#[derive(Debug, Clone)]
pub enum ConfigError {
    InvalidMode(String),
    InvalidModel(String),
    ModeSelectionNotSupported,
    ModelSelectionNotSupported,
    Protocol(String),
}

/// Index of the first mode of `modes` with id `id`, if any.
pub open spec fn first_mode_with_id(modes: Seq<SessionMode>, id: Seq<char>, i: int) -> bool {
    &&& 0 <= i < modes.len()
    &&& modes[i].mode_id@ == id
    &&& forall|j: int| 0 <= j < i ==> modes[j].mode_id@ != id
}

/// Index of the first model of `models` with id `id`, if any.
pub open spec fn first_model_with_id(models: Seq<ModelInfo>, id: Seq<char>, i: int) -> bool {
    &&& 0 <= i < models.len()
    &&& models[i].model_id@ == id
    &&& forall|j: int| 0 <= j < i ==> models[j].model_id@ != id
}

fn copy_mode(m: &SessionMode) -> (r: SessionMode)
    ensures
        r == *m,
{
    SessionMode {
        mode_id: m.mode_id.clone(),
        display_name: m.display_name.clone(),
        description: clone_opt_string(&m.description),
        icon: clone_opt_string(&m.icon),
    }
}

fn copy_model(m: &ModelInfo) -> (r: ModelInfo)
    ensures
        r == *m,
{
    ModelInfo {
        model_id: m.model_id.clone(),
        display_name: m.display_name.clone(),
        description: clone_opt_string(&m.description),
        is_latest: m.is_latest,
        cost_info: clone_opt_string(&m.cost_info),
    }
}

impl SessionConfig {
    /// The configuration of a session as the agent reports it. Modes and
    /// models are queried only when the agent supports selecting them; until
    /// those queries are wired the configuration starts empty.
    pub fn fetch_from_agent(session_id: &str, agent_capabilities: &AgentCapabilities) -> (r: Result<SessionConfig, ConfigError>)
        ensures
            r matches Ok(c) && c.session_id@ == session_id@ && c.current_mode is None
                && c.available_modes@.len() == 0 && c.current_model is None && c.available_models@.len() == 0
                && c.config_options@.len() == 0,
    {
        let config = SessionConfig {
            session_id: session_id.to_owned(),
            current_mode: None,
            available_modes: Vec::new(),
            current_model: None,
            available_models: Vec::new(),
            config_options: Vec::new(),
        };
        Ok(config)
    }

    /// Set the active mode for a session: the first available mode with the
    /// given id becomes current; an unknown id is `InvalidMode` and changes
    /// nothing.
    pub fn set_mode(&mut self, mode_id: &str) -> (r: Result<(), ConfigError>)
        ensures
            (exists|i: int| 0 <= i < old(self).available_modes@.len() && old(self).available_modes@[i].mode_id@ == mode_id@) ==> (r is Ok
                && exists|i: int| first_mode_with_id(old(self).available_modes@, mode_id@, i)
                    && final(self).current_mode == Some(old(self).available_modes@[i])),
            !(exists|i: int| 0 <= i < old(self).available_modes@.len() && old(self).available_modes@[i].mode_id@ == mode_id@)
                ==> (r matches Err(ConfigError::InvalidMode(m)) && m@ == mode_id@ && final(self).current_mode == old(self).current_mode),
            final(self).session_id == old(self).session_id,
            final(self).available_modes == old(self).available_modes,
            final(self).current_model == old(self).current_model,
            final(self).available_models == old(self).available_models,
            final(self).config_options == old(self).config_options,
    {
        let mut i: usize = 0;
        while i < self.available_modes.len()
            invariant
                *self == *old(self),
                i <= self.available_modes.len(),
                forall|j: int| 0 <= j < i ==> self.available_modes@[j].mode_id@ != mode_id@,
            decreases self.available_modes.len() - i,
        {
            if str_eq(self.available_modes[i].mode_id.as_str(), mode_id) {
                let m = copy_mode(&self.available_modes[i]);
                assert(first_mode_with_id(self.available_modes@, mode_id@, i as int));
                assert(old(self).available_modes@[i as int].mode_id@ == mode_id@);
                self.current_mode = Some(m);
                return Ok(());
            }
            i = i + 1;
        }
        Err(ConfigError::InvalidMode(mode_id.to_owned()))
    }

    /// Set the active model for a session: the first available model with
    /// the given id becomes current; an unknown id is `InvalidModel` and
    /// changes nothing.
    pub fn set_model(&mut self, model_id: &str) -> (r: Result<(), ConfigError>)
        ensures
            (exists|i: int| 0 <= i < old(self).available_models@.len() && old(self).available_models@[i].model_id@ == model_id@) ==> (r is Ok
                && exists|i: int| first_model_with_id(old(self).available_models@, model_id@, i)
                    && final(self).current_model == Some(old(self).available_models@[i])),
            !(exists|i: int| 0 <= i < old(self).available_models@.len() && old(self).available_models@[i].model_id@ == model_id@)
                ==> (r matches Err(ConfigError::InvalidModel(m)) && m@ == model_id@ && final(self).current_model == old(self).current_model),
            final(self).session_id == old(self).session_id,
            final(self).current_mode == old(self).current_mode,
            final(self).available_modes == old(self).available_modes,
            final(self).available_models == old(self).available_models,
            final(self).config_options == old(self).config_options,
    {
        let mut i: usize = 0;
        while i < self.available_models.len()
            invariant
                *self == *old(self),
                i <= self.available_models.len(),
                forall|j: int| 0 <= j < i ==> self.available_models@[j].model_id@ != model_id@,
            decreases self.available_models.len() - i,
        {
            if str_eq(self.available_models[i].model_id.as_str(), model_id) {
                let m = copy_model(&self.available_models[i]);
                assert(first_model_with_id(self.available_models@, model_id@, i as int));
                assert(old(self).available_models@[i as int].model_id@ == model_id@);
                self.current_model = Some(m);
                return Ok(());
            }
            i = i + 1;
        }
        Err(ConfigError::InvalidModel(model_id.to_owned()))
    }
}

proof fn lemma_first_mode_from(modes: Seq<SessionMode>, id: Seq<char>, k: int)
    requires
        0 <= k < modes.len(),
        modes[k].mode_id@ == id,
    ensures
        exists|i: int| first_mode_with_id(modes, id, i),
    decreases k,
{
    if exists|j: int| 0 <= j < k && modes[j].mode_id@ == id {
        let j = choose|j: int| 0 <= j < k && modes[j].mode_id@ == id;
        lemma_first_mode_from(modes, id, j);
    } else {
        assert(first_mode_with_id(modes, id, k));
    }
}

/// A mode is set exactly when one with that id is available; the first such
/// mode wins.
pub proof fn lemma_mode_selection_iff_available(modes: Seq<SessionMode>, id: Seq<char>)
    ensures
        (exists|i: int| 0 <= i < modes.len() && modes[i].mode_id@ == id) <==> (exists|i: int|
            first_mode_with_id(modes, id, i)),
{
    if exists|i: int| 0 <= i < modes.len() && modes[i].mode_id@ == id {
        let k = choose|i: int| 0 <= i < modes.len() && modes[i].mode_id@ == id;
        lemma_first_mode_from(modes, id, k);
    }
}

} // verus!
