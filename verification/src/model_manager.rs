//! Which models are present on this machine, and what to do to fetch, load
//! or forget one.

use crate::text::{returns_on_text, same_text};
use crate::transcription::models::{find_model, registered, ModelEntry, WhisperModel};
use vstd::prelude::*;

verus! {

/// Why nothing can be done with a model.
#[derive(Debug, Clone, Copy, PartialEq, Eq, Structural)]
pub enum ModelError {
    /// No model of this id is registered.
    UnknownModel,
    /// The model's file is not on disk.
    NotDownloaded,
}

/// Whether the model with this id has been downloaded.
///
/// An id outside the registry is never downloaded, and nothing is looked up
/// for it. For a registered model, `file_present` is asked once about the
/// model's file name and its answer is returned.
pub fn is_model_downloaded<F: Fn(&str) -> bool>(model_id: &str, file_present: F) -> (present: bool)
    requires
        forall|name: &str| call_requires(file_present, (name,)),
    ensures
        match registered(model_id@) {
            Some(entry) => returns_on_text(file_present, entry.filename, present),
            None => !present,
        },
{
    match find_model(model_id) {
        Some(model) => file_present(model.filename.as_str()),
        None => false,
    }
}

/// The model to load: the registered model of this id, provided its file is on disk.
pub fn model_to_load<F: Fn(&str) -> bool>(model_id: &str, file_present: F) -> (found: Result<
    WhisperModel,
    ModelError,
>)
    requires
        forall|name: &str| call_requires(file_present, (name,)),
    ensures
        match found {
            Ok(model) => registered(model_id@) == Some(model@) && returns_on_text(
                file_present,
                model@.filename,
                true,
            ),
            Err(ModelError::UnknownModel) => registered(model_id@) is None,
            Err(ModelError::NotDownloaded) => registered(model_id@) is Some && returns_on_text(
                file_present,
                registered(model_id@)->0.filename,
                false,
            ),
        },
{
    match find_model(model_id) {
        Some(model) => {
            if file_present(model.filename.as_str()) {
                Ok(model)
            } else {
                Err(ModelError::NotDownloaded)
            }
        },
        None => Err(ModelError::UnknownModel),
    }
}

/// What a download has to do.
#[derive(Debug, Clone)]
pub enum DownloadPlan {
    /// The model's file is there and not empty: nothing is fetched.
    AlreadyPresent(WhisperModel),
    /// The file is to be fetched from the model's URL.
    Fetch(WhisperModel),
}

/// Whether a file of this size, or no file for `None`, has to be fetched again.
pub open spec fn needs_fetch(size_on_disk: Option<u64>) -> bool {
    match size_on_disk {
        Some(size) => size == 0,
        None => true,
    }
}

/// `plan` is what follows for the registered model `entry` from the size of its file.
pub open spec fn planned(
    plan: Result<DownloadPlan, ModelError>,
    entry: ModelEntry,
    size_on_disk: Option<u64>,
) -> bool {
    match plan {
        Ok(DownloadPlan::Fetch(model)) => model@ == entry && needs_fetch(size_on_disk),
        Ok(DownloadPlan::AlreadyPresent(model)) => model@ == entry && !needs_fetch(size_on_disk),
        Err(_) => false,
    }
}

/// Decides whether the model of this id has to be fetched. `file_size` is
/// asked once for the size of the model's file, `None` standing for no file;
/// an empty file counts as missing.
pub fn plan_download<F: Fn(&str) -> Option<u64>>(model_id: &str, file_size: F) -> (plan: Result<
    DownloadPlan,
    ModelError,
>)
    requires
        forall|name: &str| call_requires(file_size, (name,)),
    ensures
        registered(model_id@) is None ==> (plan matches Err(error) && error
            == ModelError::UnknownModel),
        registered(model_id@) is Some ==> exists|size: Option<u64>|
            {
                &&& #[trigger] returns_on_text(file_size, registered(model_id@)->0.filename, size)
                &&& planned(plan, registered(model_id@)->0, size)
            },
{
    match find_model(model_id) {
        None => Err(ModelError::UnknownModel),
        Some(model) => {
            let size: Option<u64> = file_size(model.filename.as_str());
            assert(returns_on_text(file_size, model@.filename, size));
            let fetch: bool = match size {
                Some(size) => size == 0,
                None => true,
            };
            let ghost entry = model@;
            let plan = if fetch {
                Ok(DownloadPlan::Fetch(model))
            } else {
                Ok(DownloadPlan::AlreadyPresent(model))
            };
            assert(returns_on_text(file_size, registered(model_id@)->0.filename, size) && planned(
                plan,
                registered(model_id@)->0,
                size,
            ));
            plan
        },
    }
}

/// How far a download has come.
#[derive(Debug, Clone, Copy, PartialEq, Eq, Structural)]
pub struct DownloadProgress {
    pub downloaded_bytes: u64,
    pub total_bytes: u64,
}

/// `a + b`, held at the largest value a `u64` has.
pub open spec fn saturating_sum(a: u64, b: nat) -> u64 {
    if a + b <= u64::MAX {
        (a + b) as u64
    } else {
        u64::MAX
    }
}

impl DownloadProgress {
    /// Progress before the first byte. The total is what the server
    /// announced, else the size the registry gives for the model.
    pub fn begin(content_length: Option<u64>, model: &WhisperModel) -> (progress: Self)
        ensures
            progress.downloaded_bytes == 0,
            progress.total_bytes == match content_length {
                Some(length) => length,
                None => model.size_bytes,
            },
    {
        let total_bytes: u64 = match content_length {
            Some(length) => length,
            None => model.size_bytes,
        };
        DownloadProgress { downloaded_bytes: 0, total_bytes }
    }

    /// Counts a piece of `len` bytes that was written.
    pub fn record(&mut self, len: usize)
        ensures
            final(self).total_bytes == old(self).total_bytes,
            final(self).downloaded_bytes == saturating_sum(old(self).downloaded_bytes, len as nat),
    {
        let room: u64 = u64::MAX - self.downloaded_bytes;
        if len as u64 <= room {
            self.downloaded_bytes = self.downloaded_bytes + len as u64;
        } else {
            self.downloaded_bytes = u64::MAX;
        }
    }
}

/// Whether `ids` holds `id`.
pub open spec fn lists(ids: Seq<String>, id: Seq<char>) -> bool {
    exists|i: int| 0 <= i < ids.len() && (#[trigger] ids[i])@ == id
}

/// `ids` without every entry that reads `id`, the rest in order.
pub open spec fn without(ids: Seq<String>, id: Seq<char>) -> Seq<String>
    decreases ids.len(),
{
    if ids.len() == 0 {
        Seq::empty()
    } else if ids.last()@ == id {
        without(ids.drop_last(), id)
    } else {
        without(ids.drop_last(), id).push(ids.last())
    }
}

/// Notes a model as downloaded: its id is appended unless the list holds it
/// already. Returns whether the list changed.
pub fn remember_model(downloaded: &mut Vec<String>, model_id: &str) -> (changed: bool)
    ensures
        changed == !lists(old(downloaded)@, model_id@),
        !changed ==> final(downloaded)@ == old(downloaded)@,
        changed ==> final(downloaded)@.len() == old(downloaded)@.len() + 1,
        changed ==> final(downloaded)@.drop_last() == old(downloaded)@,
        changed ==> final(downloaded)@.last()@ == model_id@,
{
    let mut i: usize = 0;
    while i < downloaded.len()
        invariant
            i <= downloaded.len(),
            downloaded@ == old(downloaded)@,
            forall|k: int| 0 <= k < i ==> (#[trigger] downloaded@[k])@ != model_id@,
        decreases downloaded.len() - i,
    {
        if same_text(downloaded[i].as_str(), model_id) {
            return false;
        }
        i = i + 1;
    }
    downloaded.push(model_id.to_owned());
    assert(downloaded@.drop_last() =~= old(downloaded)@);
    true
}

/// Forgets a model: every entry that reads `model_id` leaves the list.
pub fn forget_model(downloaded: &mut Vec<String>, model_id: &str)
    ensures
        final(downloaded)@ == without(old(downloaded)@, model_id@),
{
    let mut kept: Vec<String> = Vec::new();
    let mut i: usize = 0;
    let ghost all = downloaded@;
    while i < downloaded.len()
        invariant
            i <= downloaded.len(),
            downloaded@ == all,
            kept@ == without(all.take(i as int), model_id@),
        decreases downloaded.len() - i,
    {
        proof {
            assert(all.take(i as int + 1).drop_last() =~= all.take(i as int));
            assert(all.take(i as int + 1).last() == all[i as int]);
        }
        if !same_text(downloaded[i].as_str(), model_id) {
            kept.push(downloaded[i].clone());
        }
        i = i + 1;
    }
    proof {
        assert(all.take(i as int) =~= all);
    }
    *downloaded = kept;
}

/// Whether the active model has to be unloaded before the model of this id is deleted.
pub fn must_unload_before_delete(active_model: Option<&str>, model_id: &str) -> (unload: bool)
    ensures
        unload == match active_model {
            Some(active) => active@ == model_id@,
            None => false,
        },
{
    match active_model {
        Some(active) => same_text(active, model_id),
        None => false,
    }
}

} // verus!
