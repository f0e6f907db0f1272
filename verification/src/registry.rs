//! The registry: a process-wide, read-only catalog of tool definitions,
//! indexed by name.
//!
//! A registry is built exactly once, before any dispatch, from the
//! definitions that packaging produced.  Building rejects two definitions
//! that share a name — the collision is reported with the offending name —
//! so a registry's entries always carry distinct names.  After that the
//! registry is never mutated; lookups only read it.

use vstd::prelude::*;
use crate::json::Json;
use crate::json::JsonValue;
use crate::json::arr_view;
use crate::json::string_eq_str;
use crate::tool::ToolDefinition;

verus! {

broadcast use vstd::std_specs::vec::group_vec_axioms;

/// Why a registry could not be built.
#[derive(Debug, PartialEq, Eq)]
pub enum RegistryError {
    /// Two definitions share this name; the first such collision is
    /// reported.
    DuplicateName(String),
}

/// No two definitions share a name.
pub open spec fn distinct_names(tools: Seq<ToolDefinition>) -> bool {
    forall|i: int, j: int|
        0 <= i < j < tools.len() ==> (#[trigger] tools[i]).name@ != (#[trigger] tools[j]).name@
}

/// Whether the definition at `j` repeats a name seen earlier.
pub open spec fn repeats_earlier_name(tools: Seq<ToolDefinition>, j: int) -> bool {
    exists|i: int| 0 <= i < j && (#[trigger] tools[i]).name@ == tools[j].name@
}

/// Whether `i` is the first entry carrying `name`.
pub open spec fn is_first_tool_match(tools: Seq<ToolDefinition>, name: Seq<char>, i: int) -> bool {
    &&& 0 <= i < tools.len()
    &&& tools[i].name@ == name
    &&& forall|k: int| 0 <= k < i ==> (#[trigger] tools[k]).name@ != name
}

/// Whether some entry carries `name`.
pub open spec fn found_tool(tools: Seq<ToolDefinition>, name: Seq<char>) -> bool {
    exists|i: int| is_first_tool_match(tools, name, i)
}

/// The index of the first entry carrying `name`.
pub open spec fn tool_index(tools: Seq<ToolDefinition>, name: Seq<char>) -> int {
    choose|i: int| is_first_tool_match(tools, name, i)
}

/// At most one index is the first match for a name.
pub proof fn lemma_first_match_unique(
    tools: Seq<ToolDefinition>,
    name: Seq<char>,
    i: int,
    j: int,
)
    requires
        is_first_tool_match(tools, name, i),
        is_first_tool_match(tools, name, j),
    ensures
        i == j,
{
}

/// The read-only catalog of tools.
pub struct Registry {
    pub tools: Vec<ToolDefinition>,
}

impl Registry {
    /// Builds the registry from the packaged definitions, rejecting the
    /// first name that two definitions share.  Duplicate registration is a
    /// build-time error, never a silent overwrite.
    #[verifier::loop_isolation(false)]
    pub fn build(defs: Vec<ToolDefinition>) -> (r: Result<Registry, RegistryError>)
        ensures
            match r {
                Ok(reg) => reg.tools == defs && distinct_names(defs@),
                Err(e) => {
                    &&& !distinct_names(defs@)
                    &&& e matches RegistryError::DuplicateName(s) && exists|j: int|
                        {
                            &&& 0 <= j < defs@.len()
                            &&& #[trigger] repeats_earlier_name(defs@, j)
                            &&& forall|k: int| 0 <= k < j ==> !repeats_earlier_name(defs@, k)
                            &&& s@ == defs@[j].name@
                        }
                },
            },
    {
        let mut j: usize = 0;
        while j < defs.len()
            invariant
                j <= defs.len(),
                forall|k: int| 0 <= k < j ==> !repeats_earlier_name(defs@, k),
            decreases defs.len() - j,
        {
            let mut i: usize = 0;
            while i < j
                invariant
                    i <= j < defs.len(),
                    forall|k: int| 0 <= k < i ==> (#[trigger] defs@[k]).name@ != defs@[j as int].name@,
                decreases j - i,
            {
                if defs[i].name == defs[j].name {
                    proof {
                        assert(repeats_earlier_name(defs@, j as int));
                    }
                    return Err(RegistryError::DuplicateName(defs[j].name.clone()));
                }
                i += 1;
            }
            j += 1;
        }
        proof {
            assert forall|a: int, b: int|
                0 <= a < b < defs@.len() implies (#[trigger] defs@[a]).name@
                != (#[trigger] defs@[b]).name@ by {
                assert(!repeats_earlier_name(defs@, b));
            }
        }
        Ok(Registry { tools: defs })
    }

    /// Looks a tool up by exact, case-sensitive name; the first entry wins.
    #[verifier::loop_isolation(false)]
    pub fn find_tool(&self, name: &str) -> (r: Option<usize>)
        ensures
            match r {
                Some(i) => is_first_tool_match(self.tools@, name@, i as int),
                None => !found_tool(self.tools@, name@),
            },
    {
        let mut i: usize = 0;
        while i < self.tools.len()
            invariant
                i <= self.tools.len(),
                forall|k: int| 0 <= k < i ==> (#[trigger] self.tools@[k]).name@ != name@,
            decreases self.tools.len() - i,
        {
            if string_eq_str(&self.tools[i].name, name) {
                return Some(i);
            }
            i += 1;
        }
        proof {
            assert forall|k: int| !is_first_tool_match(self.tools@, name@, k) by {}
        }
        None
    }

    /// The schema catalog: one `{name, description, parameters}` object per
    /// registered tool, in registry order.  Callers must not read meaning
    /// into the order.
    #[verifier::loop_isolation(false)]
    pub fn tools_to_schema(&self) -> (r: JsonValue)
        ensures
            r.deep_view() matches Json::Arr(schemas) && schemas.len() == self.tools@.len()
                && forall|i: int|
                0 <= i < self.tools@.len() ==> schemas[i]
                    == self.tools@[i].json_schema.deep_view(),
    {
        let mut out: Vec<JsonValue> = Vec::new();
        let mut i: usize = 0;
        while i < self.tools.len()
            invariant
                i <= self.tools.len(),
                out@.len() == i,
                forall|k: int|
                    0 <= k < i ==> crate::json::view_of(#[trigger] out@[k])
                        == self.tools@[k].json_schema.deep_view(),
            decreases self.tools.len() - i,
        {
            let copy = self.tools[i].json_schema.duplicate();
            out.push(copy);
            i += 1;
        }
        let r = JsonValue::Arr(out);
        proof {
            assert(r.deep_view() == Json::Arr(arr_view(r->Arr_0@)));
        }
        r
    }
}

} // verus!
