//! Collector plugins: the bundled plugin's identity and the merging of what
//! the loaded plugins produced into a snapshot's plugin data.

use vstd::prelude::*;

verus! {

/// Name under which the bundled active-users plugin reports.
pub fn info() -> (r: String)
    ensures
        r@ == "active_users"@,
{
    String::from_str("active_users")
}

/// Whether `serde_json` accepts a text as one JSON value.
pub uninterp spec fn json_well_formed(s: Seq<char>) -> bool;

/// Relies on `serde_json::from_str::<serde_json::Value>`: whether the text
/// parses as a JSON value.
#[verifier::external_body]
fn parses_as_json(s: &str) -> (r: bool)
    ensures
        r == json_well_formed(s@),
{
    serde_json::from_str::<serde_json::Value>(s).is_ok()
}

/// The JSON text `serde_json` writes for a list of strings.
pub uninterp spec fn json_string_list(names: Seq<Seq<char>>) -> Seq<char>;

/// Relies on `serde_json::to_string` for `Vec<String>`: the list as a JSON
/// array of strings. Serialization fails only when a `Serialize` impl fails
/// or a map has non-string keys, neither of which a list of strings has, so
/// the call succeeds.
#[verifier::external_body]
fn strings_to_json(names: &Vec<String>) -> (r: Option<String>)
    ensures
        r is Some,
        r matches Some(s) ==> s@ == json_string_list(names@.map_values(|n: String| n@)),
{
    serde_json::to_string(names).ok()
}

/// The active-users plugin's payload: the logged-in users as a JSON array.
pub fn encode_users(users: &Vec<String>) -> (r: Option<String>)
    ensures
        r is Some,
        r matches Some(s) ==> s@ == json_string_list(users@.map_values(|n: String| n@)),
{
    strings_to_json(users)
}

/// What happened to one plugin module during a harvest.
pub enum PluginOutcome {
    /// The module could not be loaded or lacks a required entry point.
    Unloadable,
    /// The module loaded and named itself, but its collection failed.
    Failed { name: String },
    /// The module produced this text.
    Produced { name: String, output: String },
}

/// One plugin's contribution to a snapshot: its name and its JSON output.
pub struct PluginEntry {
    pub name: String,
    pub json: String,
}

impl View for PluginEntry {
    type V = (Seq<char>, Seq<char>);

    open spec fn view(&self) -> Self::V {
        (self.name@, self.json@)
    }
}

/// What a plugin outcome contributes: a name and output, if it produced
/// well-formed JSON.
pub open spec fn contribution(o: PluginOutcome) -> Option<(Seq<char>, Seq<char>)> {
    match o {
        PluginOutcome::Produced { name, output } => if json_well_formed(output@) {
            Some((name@, output@))
        } else {
            None
        },
        _ => None,
    }
}

/// The contributions of a run of outcomes, in order.
pub open spec fn contributions(os: Seq<PluginOutcome>) -> Seq<(Seq<char>, Seq<char>)>
    decreases os.len(),
{
    if os.len() == 0 {
        Seq::empty()
    } else {
        let rest = contributions(os.drop_last());
        match contribution(os.last()) {
            Some(e) => rest.push(e),
            None => rest,
        }
    }
}

/// Keeps, in order, what the plugins that succeeded produced; unloadable
/// modules, failed collections and output that is not JSON are left out.
pub fn collect_plugin_data(outcomes: &Vec<PluginOutcome>) -> (r: Vec<PluginEntry>)
    ensures
        r@.map_values(|e: PluginEntry| e@) == contributions(outcomes@),
{
    let mut out: Vec<PluginEntry> = Vec::new();
    let mut i: usize = 0;
    while i < outcomes.len()
        invariant
            i <= outcomes@.len(),
            out@.map_values(|e: PluginEntry| e@) == contributions(outcomes@.subrange(0, i as int)),
        decreases outcomes@.len() - i,
    {
        let ghost before = out@.map_values(|e: PluginEntry| e@);
        proof {
            let pre = outcomes@.subrange(0, i as int + 1);
            assert(pre.drop_last() =~= outcomes@.subrange(0, i as int));
            assert(pre.last() == outcomes@[i as int]);
        }
        match &outcomes[i] {
            PluginOutcome::Produced { name, output } => {
                if parses_as_json(output.as_str()) {
                    let e = PluginEntry { name: name.clone(), json: output.clone() };
                    out.push(e);
                    assert(out@.map_values(|e: PluginEntry| e@) =~= before.push((name@, output@)));
                }
            },
            _ => {},
        }
        i = i + 1;
    }
    assert(outcomes@.subrange(0, outcomes@.len() as int) =~= outcomes@);
    out
}

} // verus!
