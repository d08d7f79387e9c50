//! The names of the predefined rulesets.

use crate::error::SondaError;
use vstd::prelude::*;
use vstd::string::StringExecFns;

verus! {

/// The name of the preset that stands for the hazard evaluation.
pub open spec fn hp_preset() -> Seq<char> {
    "fa"@
}

/// Whether a preset stands for the hazard evaluation rather than for a
/// ruleset of thresholds.
pub fn is_hp_preset(name: &str) -> (r: bool)
    ensures
        r == (name@ == hp_preset()),
{
    crate::text::same_text(name, "fa")
}

/// The names of all presets: the guideline values for soil, the limits
/// for asphalt, and the hazard evaluation.
pub fn presets() -> (r: Vec<String>)
    ensures
        crate::text::texts(r@) == seq!["nv"@, "asfalt"@, "fa"@],
{
    let mut names: Vec<String> = Vec::new();
    names.push(String::from_str("nv"));
    names.push(String::from_str("asfalt"));
    names.push(String::from_str("fa"));
    assert(crate::text::texts(names@) =~= seq!["nv"@, "asfalt"@, "fa"@]);
    names
}

/// Where the ruleset of a preset is kept, or why the preset has none: the
/// preset of the hazard evaluation is no ruleset, and other names are
/// unknown.
pub open spec fn preset_source(name: Seq<char>) -> Result<Seq<char>, Seq<char>> {
    if name == "nv"@ {
        Ok("nv-riktvarden.json"@)
    } else if name == "asfalt"@ {
        Ok("asfalt-pah16.json"@)
    } else if name == "fa"@ {
        Err(
            "'fa' is an HP-based preset. Use ClassifyOptions.include_hp instead of loading as a ruleset."@,
        )
    } else {
        Err("unknown preset '"@ + name + "'. Available: nv, asfalt, fa"@)
    }
}

/// The name of the file that holds the ruleset of a preset.
pub fn preset_file(name: &str) -> (r: Result<String, SondaError>)
    ensures
        match preset_source(name@) {
            Ok(file) => r matches Ok(f) && f@ == file,
            Err(complaint) => r matches Err(SondaError::RulesetInvalid(m)) && m@ == complaint,
        },
{
    if crate::text::same_text(name, "nv") {
        Ok(String::from_str("nv-riktvarden.json"))
    } else if crate::text::same_text(name, "asfalt") {
        Ok(String::from_str("asfalt-pah16.json"))
    } else if crate::text::same_text(name, "fa") {
        Err(
            SondaError::RulesetInvalid(
                String::from_str(
                    "'fa' is an HP-based preset. Use ClassifyOptions.include_hp instead of loading as a ruleset.",
                ),
            ),
        )
    } else {
        let mut message = String::from_str("unknown preset '");
        message.append(name);
        message.append("'. Available: nv, asfalt, fa");
        Err(SondaError::RulesetInvalid(message))
    }
}

} // verus!
