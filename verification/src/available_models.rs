//! The speech models that a configuration may name without forcing.

use crate::text::{is_text, to_chars};
use vstd::prelude::*;
use vstd::string::*;

verus! {

/// The model used when none is named.
pub const DEFAULT_MODEL: &'static str = "mlx-community/parakeet-tdt-0.6b-v3";

/// The names of the models that may be configured.
pub open spec fn available_models() -> Seq<Seq<char>> {
    seq![
        "mlx-community/parakeet-tdt-0.6b-v3"@,
        "mlx-community/parakeet-tdt-1.1b"@,
        "mlx-community/parakeet-ctc-0.6b"@,
        "mlx-community/parakeet-ctc-1.1b"@,
    ]
}

/// The name of the model used when none is named: the first of the list.
pub fn get_default_model() -> (name: String)
    ensures
        name@ == available_models()[0],
{
    String::from_str("mlx-community/parakeet-tdt-0.6b-v3")
}

/// Whether `model_name` is one of the models that may be configured.
pub fn is_model_supported(model_name: &str) -> (b: bool)
    ensures
        b == available_models().contains(model_name@),
{
    let name = to_chars(model_name);
    let found = is_text(name.as_slice(), "mlx-community/parakeet-tdt-0.6b-v3") || is_text(
        name.as_slice(),
        "mlx-community/parakeet-tdt-1.1b",
    ) || is_text(name.as_slice(), "mlx-community/parakeet-ctc-0.6b") || is_text(
        name.as_slice(),
        "mlx-community/parakeet-ctc-1.1b",
    );
    proof {
        let models = available_models();
        if found {
            assert(models[0] == model_name@ || models[1] == model_name@ || models[2]
                == model_name@ || models[3] == model_name@);
        }
    }
    found
}

} // verus!
