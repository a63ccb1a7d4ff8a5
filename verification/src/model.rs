//! Where the engine's model comes from.

use vstd::prelude::*;

verus! {

/// Where the default model is fetched from when the configuration names
/// none.
pub const DEFAULT_MODEL_REPO: &'static str = "ggerganov/whisper.cpp";

/// The file of the default model.
pub const DEFAULT_MODEL_FILE: &'static str = "ggml-small-q8_0.bin";

/// Where the engine's model comes from.
#[derive(Debug, PartialEq, Eq)]
pub enum ModelSource {
    /// The configuration names no model: the default one is fetched.
    Default,
    /// The model file the configuration names.
    Path(String),
}

/// Where to take the model from for a configuration that names
/// `model_path`.
pub fn setup_whisper_manager(model_path: &String) -> (source: ModelSource)
    ensures
        model_path@.len() == 0 ==> source is Default,
        model_path@.len() != 0 ==> source == ModelSource::Path(*model_path),
{
    if *model_path == String::new() {
        ModelSource::Default
    } else {
        assert(model_path@.len() != 0) by {
            if model_path@.len() == 0 {
                assert(model_path@ =~= Seq::<char>::empty());
            }
        }
        ModelSource::Path(model_path.clone())
    }
}

/// One entry of the directory in which models are kept.
#[derive(Debug, PartialEq, Eq)]
pub struct ModelCandidate {
    /// The path of the entry.
    pub path: String,
    /// The entry is a regular file.
    pub is_file: bool,
    /// The extension of the entry's name, if it has one.
    pub extension: Option<String>,
}

/// The entry is a model: a regular file whose name ends in `.bin`.
pub open spec fn is_model_file(candidate: ModelCandidate) -> bool {
    candidate.is_file && (candidate.extension matches Some(extension) && extension@ == "bin"@)
}

/// The position of the first model among the entries of a directory, if
/// there is one.
pub fn find_model_file(entries: &Vec<ModelCandidate>) -> (found: Option<usize>)
    ensures
        match found {
            Some(at) => {
                &&& at < entries.len()
                &&& is_model_file(entries[at as int])
                &&& forall|j: int| 0 <= j < at ==> !is_model_file(#[trigger] entries[j])
            },
            None => forall|j: int| 0 <= j < entries.len() ==> !is_model_file(#[trigger] entries[j]),
        },
{
    let mut i: usize = 0;
    while i < entries.len()
        invariant
            i <= entries.len(),
            forall|j: int| 0 <= j < i ==> !is_model_file(#[trigger] entries[j]),
        decreases entries.len() - i,
    {
        if entries[i].is_file {
            match &entries[i].extension {
                Some(extension) => {
                    if *extension == "bin".to_owned() {
                        return Some(i);
                    }
                },
                None => {},
            }
        }
        i += 1;
    }
    None
}

} // verus!
