//! The data model of the backend's model catalog, as plain values: what the
//! list, running-list and detail endpoints return. The calls themselves are
//! stateless proxies and live outside the library; these types carry their
//! results.

use vstd::prelude::*;

verus! {

/// Details of one locally stored model.
pub struct ModelDetails {
    pub format: String,
    pub family: String,
    pub families: Vec<String>,
    pub parameter_size: String,
    pub quantization_level: String,
}

/// One locally stored model.
pub struct Model {
    pub name: String,
    pub model: String,
    pub modified_at: String,
    pub size: u64,
    pub digest: String,
    pub details: ModelDetails,
}

/// The catalog of locally stored models.
pub struct ModelsResponse {
    pub models: Vec<Model>,
}

impl ModelsResponse {
    /// The catalog's models, as the listing returns them.
    pub fn into_models(self) -> (r: Vec<Model>)
        ensures
            r == self.models,
    {
        self.models
    }
}

/// Details of one currently loaded model.
pub struct RunningModelDetails {
    pub parent_model: String,
    pub format: String,
    pub family: String,
    pub families: Vec<String>,
    pub parameter_size: String,
    pub quantization_level: String,
}

/// One currently loaded model.
pub struct RunningModel {
    pub name: String,
    pub model: String,
    pub size: u64,
    pub digest: String,
    pub details: RunningModelDetails,
    pub expires_at: String,
    pub size_vram: u64,
    pub context_length: u64,
}

/// The currently loaded models.
pub struct RunningModelsResponse {
    pub models: Vec<RunningModel>,
}

impl RunningModelsResponse {
    /// The loaded models, as the listing returns them.
    pub fn into_models(self) -> (r: Vec<RunningModel>)
        ensures
            r == self.models,
    {
        self.models
    }
}

/// The status a model pull returns.
pub struct PullModelResponse {
    pub status: String,
}

/// The status a model push returns.
pub struct PushModelResponse {
    pub status: String,
}

/// The status a model copy returns.
pub struct CopyModelResponse {
    pub status: String,
}

/// The status a model creation returns.
pub struct CreateModelResponse {
    pub status: String,
}

/// The status a model deletion returns.
pub struct DeleteModelResponse {
    pub status: String,
}

/// Details of one model as the detail endpoint reports them.
pub struct ShowModelDetails {
    pub parent_model: String,
    pub format: String,
    pub family: String,
    pub families: Vec<String>,
    pub parameter_size: String,
    pub quantization_level: String,
}

} // verus!
