//! What is known of each supported speech model: its requirement profile and
//! the files it consists of.

use crate::text::{is_text, prefixed, to_chars};
use vstd::prelude::*;
use vstd::string::*;

verus! {

/// A file of a model with its size in bytes.
pub type FileSize = (&'static str, u64);

/// What is known of a model.
#[derive(Debug)]
pub struct ModelInfo {
    pub name: &'static str,
    /// The name of the requirement profile that the model needs.
    pub profile: &'static str,
    pub required_files: Vec<&'static str>,
    pub file_sizes: Vec<FileSize>,
}

/// The names of the supported models, the default first.
pub open spec fn supported_names() -> Seq<Seq<char>> {
    seq![
        "mlx-community/parakeet-tdt-0.6b-v3"@,
        "mlx-community/parakeet-tdt-1.1b"@,
        "mlx-community/parakeet-ctc-0.6b"@,
        "mlx-community/parakeet-ctc-1.1b"@,
        "nvidia/canary-1b-v2"@,
    ]
}

/// The position of `name` among the supported models.
pub open spec fn model_index(name: Seq<char>) -> Option<int> {
    if name == supported_names()[0] {
        Some(0)
    } else if name == supported_names()[1] {
        Some(1)
    } else if name == supported_names()[2] {
        Some(2)
    } else if name == supported_names()[3] {
        Some(3)
    } else if name == supported_names()[4] {
        Some(4)
    } else {
        None
    }
}

/// The requirement profile of the model at `index`.
pub open spec fn profile_at(index: int) -> Seq<char> {
    if index == 4 {
        "canary"@
    } else {
        "parakeet"@
    }
}

/// The error for a model that is not supported.
pub open spec fn not_found_text(name: Seq<char>) -> Seq<char> {
    "Model '"@ + name + "' not found in supported models"@
}

fn parakeet(name: &'static str, config_size: u64, weights: u64, model_size: u64, vocab: u64) -> (m:
    ModelInfo)
    ensures
        m.name@ == name@,
        m.profile@ == "parakeet"@,
        m.required_files@.len() == 4,
        m.file_sizes@.len() == 4,
        m.file_sizes@[1].1 == weights,
{
    let mut required_files: Vec<&'static str> = Vec::new();
    required_files.push("config.json");
    required_files.push("model.safetensors");
    required_files.push("tokenizer.model");
    required_files.push("tokenizer.vocab");
    let mut file_sizes: Vec<FileSize> = Vec::new();
    file_sizes.push(("config.json", config_size));
    file_sizes.push(("model.safetensors", weights));
    file_sizes.push(("tokenizer.model", model_size));
    file_sizes.push(("tokenizer.vocab", vocab));
    ModelInfo { name, profile: "parakeet", required_files, file_sizes }
}

fn canary() -> (m: ModelInfo)
    ensures
        m.name@ == "nvidia/canary-1b-v2"@,
        m.profile@ == "canary"@,
        m.required_files@.len() == 1,
        m.file_sizes@.len() == 1,
        m.file_sizes@[0].1 == 6358958080,
{
    let mut required_files: Vec<&'static str> = Vec::new();
    required_files.push("canary-1b-v2.nemo");
    let mut file_sizes: Vec<FileSize> = Vec::new();
    file_sizes.push(("canary-1b-v2.nemo", 6358958080));
    ModelInfo { name: "nvidia/canary-1b-v2", profile: "canary", required_files, file_sizes }
}

/// What is known of `model_name`, or an error that names it.
pub fn get_model_info(model_name: &str) -> (r: Result<ModelInfo, String>)
    ensures
        match r {
            Ok(info) => model_index(model_name@) matches Some(i) && info.name@ == model_name@
                && info.profile@ == profile_at(i),
            Err(e) => model_index(model_name@) is None && e@ == not_found_text(model_name@),
        },
{
    let name = to_chars(model_name);
    if is_text(name.as_slice(), "mlx-community/parakeet-tdt-0.6b-v3") {
        Ok(parakeet("mlx-community/parakeet-tdt-0.6b-v3", 244093, 2508288736, 360916, 101024))
    } else if is_text(name.as_slice(), "mlx-community/parakeet-tdt-1.1b") {
        Ok(parakeet("mlx-community/parakeet-tdt-1.1b", 37693, 4282259416, 259162, 11383))
    } else if is_text(name.as_slice(), "mlx-community/parakeet-ctc-0.6b") {
        Ok(parakeet("mlx-community/parakeet-ctc-0.6b", 22393, 2435504684, 259162, 11383))
    } else if is_text(name.as_slice(), "mlx-community/parakeet-ctc-1.1b") {
        Ok(parakeet("mlx-community/parakeet-ctc-1.1b", 22393, 4250695964, 259162, 11383))
    } else if is_text(name.as_slice(), "nvidia/canary-1b-v2") {
        Ok(canary())
    } else {
        let mut text = prefixed("Model '", model_name);
        text.append("' not found in supported models");
        Err(text)
    }
}

/// The name of the model used when none is named: the first of the list.
pub fn get_default_model() -> (name: String)
    ensures
        name@ == supported_names()[0],
{
    String::from_str("mlx-community/parakeet-tdt-0.6b-v3")
}

/// Whether `model_name` is a supported model.
pub fn is_model_supported(model_name: &str) -> (b: bool)
    ensures
        b == (model_index(model_name@) is Some),
{
    get_model_info(model_name).is_ok()
}

/// The requirement profile of `model_name`, or the error of
/// [`get_model_info`].
pub fn get_model_profile(model_name: &str) -> (r: Result<&'static str, String>)
    ensures
        match r {
            Ok(profile) => model_index(model_name@) matches Some(i) && profile@ == profile_at(i),
            Err(e) => model_index(model_name@) is None && e@ == not_found_text(model_name@),
        },
{
    match get_model_info(model_name) {
        Ok(info) => Ok(info.profile),
        Err(e) => Err(e),
    }
}

} // verus!
