//! Codec for the persisted activation document.
//!
//! A tenant's activation record is persisted as one JSON document holding a
//! flat list of module-id strings; absence of the document is equivalent to
//! an empty list. serde_json does the encoding and decoding behind trusted
//! wrappers; everything around the calls is verified.

use vstd::prelude::*;
use crate::activation::{sanitized_record, ModuleManager};
use crate::errors::ConfigError;
use crate::text::clone_strings;

verus! {

/// The list of strings that a JSON text denotes as a `Vec<String>`
/// document, if it denotes one.
pub uninterp spec fn json_id_list(s: Seq<char>) -> Option<Seq<Seq<char>>>;

/// Relies on serde_json::from_str::<Vec<String>>: whether the text parses,
/// and what it parses to, depend on the text alone.
#[verifier::external_body]
fn parse_id_list(s: &str) -> (r: Result<Vec<String>, String>)
    ensures
        (r is Ok) == (json_id_list(s@) is Some),
        r matches Ok(v) ==> json_id_list(s@) == Some(v.deep_view()),
{
    serde_json::from_str::<Vec<String>>(s).map_err(|e| e.to_string())
}

/// Relies on serde_json::to_string: serializing a `Vec<String>` cannot
/// fail (per its documentation, serialization fails only for a failing
/// `Serialize` impl or a map with non-string keys), and parsing the
/// produced document with serde_json::from_str returns the same list.
#[verifier::external_body]
fn encode_id_list(v: &Vec<String>) -> (r: String)
    ensures
        json_id_list(r@) == Some(v.deep_view()),
{
    serde_json::to_string(v).unwrap()
}

impl ModuleManager {
    /// Load one tenant's persisted activation document. Unknown, repeated
    /// and orchestration-module ids inside the list are dropped rather than
    /// failing the tenant; a document that does not parse at all is fatal
    /// for this one tenant and leaves the store unchanged.
    pub fn init_tenant_from_json(&mut self, tenant: u64, raw: &str) -> (r: Result<
        (),
        ConfigError,
    >)
        requires
            old(self).wf(),
        ensures
            final(self).wf(),
            json_id_list(raw@) matches Some(ids) ==> (r is Ok && final(self).spec_active_set(
                tenant,
            ) == sanitized_record(ids) && (forall|u: u64|
                u != tenant ==> #[trigger] final(self).spec_active_set(u) == old(
                    self,
                ).spec_active_set(u))),
            json_id_list(raw@) is None ==> (r matches Err(ConfigError::SerdeError(_))
                && *final(self) == *old(self)),
    {
        match parse_id_list(raw) {
            Ok(ids) => {
                self.init_tenant(tenant, &ids);
                Ok(())
            },
            Err(e) => Err(ConfigError::SerdeError(e)),
        }
    }

    /// The JSON document to persist for a tenant: its current activation
    /// record, encoded as a flat list of id strings.
    pub fn activation_document(&self, tenant: u64) -> (r: String)
        requires
            self.wf(),
        ensures
            json_id_list(r@) == Some(self.spec_active_set(tenant)),
    {
        let v: Vec<String> = match self.find_tenant(tenant) {
            Some(i) => {
                proof {
                    self.lemma_active_set_at(i as int);
                }
                clone_strings(&self.records[i].config.active)
            },
            None => {
                proof {
                    self.lemma_active_set_absent(tenant);
                }
                Vec::new()
            },
        };
        proof {
            assert(v.deep_view() =~= self.spec_active_set(tenant));
        }
        encode_id_list(&v)
    }
}

} // verus!
