//! What the model list shows for each model.

use crate::text::returns_on_text;
use crate::transcription::models::{get_model_registry, registry_entries, ModelEntry, WhisperModel};
use vstd::prelude::*;

verus! {

/// A model as the list shows it: its description and whether it is on disk.
#[derive(Debug, Clone)]
pub struct ModelInfo {
    pub id: String,
    pub display_name: String,
    pub filename: String,
    pub size_bytes: u64,
    pub vram_mb: u16,
    pub downloaded: bool,
}

/// A list entry as plain values.
pub struct ModelInfoView {
    pub id: Seq<char>,
    pub display_name: Seq<char>,
    pub filename: Seq<char>,
    pub size_bytes: u64,
    pub vram_mb: u16,
    pub downloaded: bool,
}

impl View for ModelInfo {
    type V = ModelInfoView;

    open spec fn view(&self) -> ModelInfoView {
        ModelInfoView {
            id: self.id@,
            display_name: self.display_name@,
            filename: self.filename@,
            size_bytes: self.size_bytes,
            vram_mb: self.vram_mb,
            downloaded: self.downloaded,
        }
    }
}

/// The list entry for `entry`.
pub open spec fn info_of(entry: ModelEntry, downloaded: bool) -> ModelInfoView {
    ModelInfoView {
        id: entry.id,
        display_name: entry.display_name,
        filename: entry.filename,
        size_bytes: entry.size_bytes,
        vram_mb: entry.vram_mb,
        downloaded,
    }
}

impl ModelInfo {
    /// The list entry for `model`.
    pub fn describe(model: &WhisperModel, downloaded: bool) -> (info: ModelInfo)
        ensures
            info@ == info_of(model@, downloaded),
    {
        ModelInfo {
            id: model.id.clone(),
            display_name: model.display_name.clone(),
            filename: model.filename.clone(),
            size_bytes: model.size_bytes,
            vram_mb: model.vram_mb,
            downloaded,
        }
    }
}

/// One entry per registered model, in registry order; `file_present` is
/// asked about each model's file name to fill in `downloaded`.
pub fn list_models<F: Fn(&str) -> bool>(file_present: F) -> (list: Vec<ModelInfo>)
    requires
        forall|name: &str| call_requires(file_present, (name,)),
    ensures
        list.len() == registry_entries().len(),
        forall|i: int|
            0 <= i < list.len() ==> {
                &&& (#[trigger] list[i])@ == info_of(registry_entries()[i], list[i].downloaded)
                &&& returns_on_text(file_present, registry_entries()[i].filename, list[i].downloaded)
            },
{
    let models: Vec<WhisperModel> = get_model_registry();
    let mut list: Vec<ModelInfo> = Vec::with_capacity(models.len());
    let mut i: usize = 0;
    while i < models.len()
        invariant
            i <= models.len(),
            list.len() == i,
            models.len() == registry_entries().len(),
            forall|k: int|
                0 <= k < models.len() ==> (#[trigger] models[k])@ == registry_entries()[k],
            forall|name: &str| call_requires(file_present, (name,)),
            forall|k: int|
                0 <= k < i ==> {
                    &&& (#[trigger] list[k])@ == info_of(registry_entries()[k], list[k].downloaded)
                    &&& returns_on_text(
                        file_present,
                        registry_entries()[k].filename,
                        list[k].downloaded,
                    )
                },
        decreases models.len() - i,
    {
        let downloaded: bool = file_present(models[i].filename.as_str());
        list.push(ModelInfo::describe(&models[i], downloaded));
        i = i + 1;
    }
    list
}

} // verus!
