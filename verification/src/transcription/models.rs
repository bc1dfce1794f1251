//! The speech models the application knows about.

use crate::text::same_text;
use vstd::prelude::*;

verus! {

/// One downloadable speech model.
#[derive(Debug, Clone)]
pub struct WhisperModel {
    pub id: String,
    pub display_name: String,
    pub filename: String,
    pub url: String,
    pub size_bytes: u64,
    pub vram_mb: u16,
}

/// A model as plain values.
pub struct ModelEntry {
    pub id: Seq<char>,
    pub display_name: Seq<char>,
    pub filename: Seq<char>,
    pub url: Seq<char>,
    pub size_bytes: u64,
    pub vram_mb: u16,
}

impl View for WhisperModel {
    type V = ModelEntry;

    open spec fn view(&self) -> ModelEntry {
        ModelEntry {
            id: self.id@,
            display_name: self.display_name@,
            filename: self.filename@,
            url: self.url@,
            size_bytes: self.size_bytes,
            vram_mb: self.vram_mb,
        }
    }
}

/// The registry, smallest model first.
pub open spec fn registry_entries() -> Seq<ModelEntry> {
    seq![
        ModelEntry {
            id: "tiny"@,
            display_name: "Tiny (~75 MB)"@,
            filename: "ggml-tiny.bin"@,
            url: "https://huggingface.co/ggerganov/whisper.cpp/resolve/main/ggml-tiny.bin"@,
            size_bytes: 77_691_713,
            vram_mb: 1000,
        },
        ModelEntry {
            id: "base"@,
            display_name: "Base (~150 MB)"@,
            filename: "ggml-base.bin"@,
            url: "https://huggingface.co/ggerganov/whisper.cpp/resolve/main/ggml-base.bin"@,
            size_bytes: 147_951_465,
            vram_mb: 1000,
        },
        ModelEntry {
            id: "small"@,
            display_name: "Small (~500 MB)"@,
            filename: "ggml-small.bin"@,
            url: "https://huggingface.co/ggerganov/whisper.cpp/resolve/main/ggml-small.bin"@,
            size_bytes: 487_601_967,
            vram_mb: 1500,
        },
        ModelEntry {
            id: "medium"@,
            display_name: "Medium (~1.5 GB)"@,
            filename: "ggml-medium.bin"@,
            url: "https://huggingface.co/ggerganov/whisper.cpp/resolve/main/ggml-medium.bin"@,
            size_bytes: 1_533_774_781,
            vram_mb: 3000,
        },
        ModelEntry {
            id: "large-v3"@,
            display_name: "Large V3 (~3 GB)"@,
            filename: "ggml-large-v3.bin"@,
            url: "https://huggingface.co/ggerganov/whisper.cpp/resolve/main/ggml-large-v3.bin"@,
            size_bytes: 3_093_846_125,
            vram_mb: 6000,
        },
    ]
}

/// Position of the first entry of `entries` whose id reads `id`, if there is one.
pub open spec fn position_of(entries: Seq<ModelEntry>, id: Seq<char>) -> Option<int>
    decreases entries.len(),
{
    if entries.len() == 0 {
        None
    } else if position_of(entries.drop_last(), id) is Some {
        position_of(entries.drop_last(), id)
    } else if entries.last().id == id {
        Some(entries.len() - 1)
    } else {
        None
    }
}

/// The registered model with the given id, if there is one.
pub open spec fn registered(id: Seq<char>) -> Option<ModelEntry> {
    match position_of(registry_entries(), id) {
        Some(at) => Some(registry_entries()[at]),
        None => None,
    }
}

fn model(id: &str, display_name: &str, filename: &str, url: &str, size_bytes: u64, vram_mb: u16) -> (m:
    WhisperModel)
    ensures
        m@ == (ModelEntry {
            id: id@,
            display_name: display_name@,
            filename: filename@,
            url: url@,
            size_bytes,
            vram_mb,
        }),
{
    WhisperModel {
        id: id.to_owned(),
        display_name: display_name.to_owned(),
        filename: filename.to_owned(),
        url: url.to_owned(),
        size_bytes,
        vram_mb,
    }
}

/// All known models, smallest first.
pub fn get_model_registry() -> (models: Vec<WhisperModel>)
    ensures
        models.len() == registry_entries().len(),
        forall|i: int| 0 <= i < models.len() ==> (#[trigger] models[i])@ == registry_entries()[i],
{
    let mut models: Vec<WhisperModel> = Vec::with_capacity(5);
    models.push(
        model(
            "tiny",
            "Tiny (~75 MB)",
            "ggml-tiny.bin",
            "https://huggingface.co/ggerganov/whisper.cpp/resolve/main/ggml-tiny.bin",
            77_691_713,
            1000,
        ),
    );
    models.push(
        model(
            "base",
            "Base (~150 MB)",
            "ggml-base.bin",
            "https://huggingface.co/ggerganov/whisper.cpp/resolve/main/ggml-base.bin",
            147_951_465,
            1000,
        ),
    );
    models.push(
        model(
            "small",
            "Small (~500 MB)",
            "ggml-small.bin",
            "https://huggingface.co/ggerganov/whisper.cpp/resolve/main/ggml-small.bin",
            487_601_967,
            1500,
        ),
    );
    models.push(
        model(
            "medium",
            "Medium (~1.5 GB)",
            "ggml-medium.bin",
            "https://huggingface.co/ggerganov/whisper.cpp/resolve/main/ggml-medium.bin",
            1_533_774_781,
            3000,
        ),
    );
    models.push(
        model(
            "large-v3",
            "Large V3 (~3 GB)",
            "ggml-large-v3.bin",
            "https://huggingface.co/ggerganov/whisper.cpp/resolve/main/ggml-large-v3.bin",
            3_093_846_125,
            6000,
        ),
    );
    models
}

/// Looks a model up by its id.
pub fn find_model(model_id: &str) -> (found: Option<WhisperModel>)
    ensures
        match found {
            Some(model) => registered(model_id@) == Some(model@),
            None => registered(model_id@) is None,
        },
{
    let mut models: Vec<WhisperModel> = get_model_registry();
    let ghost entries = registry_entries();
    let mut i: usize = 0;
    while i < models.len()
        invariant
            i <= models.len(),
            models.len() == entries.len(),
            entries == registry_entries(),
            forall|k: int| 0 <= k < models.len() ==> (#[trigger] models[k])@ == entries[k],
            position_of(entries.take(i as int), model_id@) is None,
        decreases models.len() - i,
    {
        let hit: bool = same_text(models[i].id.as_str(), model_id);
        proof {
            assert(entries.take(i as int + 1).drop_last() =~= entries.take(i as int));
            assert(entries.take(i as int + 1).last() == models[i as int]@);
            if hit {
                lemma_position_extends(entries, model_id@, i as int + 1);
            }
        }
        if hit {
            let model: WhisperModel = models.swap_remove(i);
            return Some(model);
        }
        i = i + 1;
    }
    proof {
        assert(entries.take(i as int) =~= entries);
    }
    None
}

/// A match found in a prefix of the entries is the match in all of them.
proof fn lemma_position_extends(entries: Seq<ModelEntry>, id: Seq<char>, upto: int)
    requires
        0 <= upto <= entries.len(),
        position_of(entries.take(upto), id) is Some,
    ensures
        position_of(entries, id) == position_of(entries.take(upto), id),
    decreases entries.len() - upto,
{
    if upto < entries.len() {
        assert(entries.take(upto + 1).drop_last() =~= entries.take(upto));
        lemma_position_extends(entries, id, upto + 1);
    } else {
        assert(entries.take(upto) =~= entries);
    }
}

/// The five ids differ from one another, so every id has at most one model.
pub proof fn lemma_registry_ids_distinct()
    ensures
        registry_entries().len() == 5,
        forall|i: int, j: int|
            0 <= i < j < 5 ==> registry_entries()[i].id != registry_entries()[j].id,
{
    reveal_strlit("tiny");
    reveal_strlit("base");
    reveal_strlit("small");
    reveal_strlit("medium");
    reveal_strlit("large-v3");
    let e = registry_entries();
    assert(e[0].id.len() == 4 && e[1].id.len() == 4 && e[2].id.len() == 5 && e[3].id.len() == 6
        && e[4].id.len() == 8);
    assert(e[0].id[0] == 't' && e[1].id[0] == 'b');
}

/// What a lookup finds: the entry with that id, for each of the five ids, and nothing for any other.
pub proof fn lemma_registry_lookup(id: Seq<char>)
    ensures
        registered(id) == if id == "tiny"@ {
            Some(registry_entries()[0])
        } else if id == "base"@ {
            Some(registry_entries()[1])
        } else if id == "small"@ {
            Some(registry_entries()[2])
        } else if id == "medium"@ {
            Some(registry_entries()[3])
        } else if id == "large-v3"@ {
            Some(registry_entries()[4])
        } else {
            None
        },
{
    let e = registry_entries();
    let e4 = e.drop_last();
    let e3 = e4.drop_last();
    let e2 = e3.drop_last();
    let e1 = e2.drop_last();
    let e0 = e1.drop_last();
    assert(e0.len() == 0);
    assert(position_of(e0, id) is None);
    assert(e1.last() == e[0] && e2.last() == e[1] && e3.last() == e[2] && e4.last() == e[3]
        && e.last() == e[4]);
    assert(position_of(e1, id) == if id == "tiny"@ {
        Some(0int)
    } else {
        None
    });
    assert(position_of(e2, id) == if id == "tiny"@ {
        Some(0int)
    } else if id == "base"@ {
        Some(1int)
    } else {
        None
    });
    assert(position_of(e3, id) == if id == "tiny"@ {
        Some(0int)
    } else if id == "base"@ {
        Some(1int)
    } else if id == "small"@ {
        Some(2int)
    } else {
        None
    });
    assert(position_of(e4, id) == if id == "tiny"@ {
        Some(0int)
    } else if id == "base"@ {
        Some(1int)
    } else if id == "small"@ {
        Some(2int)
    } else if id == "medium"@ {
        Some(3int)
    } else {
        None
    });
}

} // verus!
