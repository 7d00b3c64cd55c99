//! Credentials that come from environment variables.

use vstd::prelude::*;

use crate::config::plan::pairs;
use crate::rows::{ascending, names_of};
use crate::text::{concat3, quoted, quoted_text};

verus! {

/// Why a credential cannot be had.
#[derive(Debug, PartialEq, Eq)]
#[allow(inconsistent_fields)]
pub enum CredentialResolveError {
    NotFound { key: String },
    Backend { key: String, message: String },
}

/// Which environment variable each credential is kept in.
#[derive(Debug, PartialEq, Eq)]
pub struct EnvironmentCredentialResolver {
    pub variables: Vec<(String, String)>,
}

/// The variable of the first entry for `key`.
pub open spec fn variable_of(s: Seq<(Seq<char>, Seq<char>)>, key: Seq<char>) -> Option<Seq<char>>
    decreases s.len(),
{
    if s.len() == 0 {
        None
    } else if s[0].0 == key {
        Some(s[0].1)
    } else {
        variable_of(s.skip(1), key)
    }
}

impl EnvironmentCredentialResolver {
    /// Whether the entries ascend by their keys.
    pub open spec fn in_order(&self) -> bool {
        ascending(names_of(self.variables@))
    }

    pub fn new(variables: Vec<(String, String)>) -> (r: Self)
        requires
            ascending(names_of(variables@)),
        ensures
            r.variables == variables,
            r.in_order(),
    {
        EnvironmentCredentialResolver { variables }
    }

    pub fn len(&self) -> (r: usize)
        ensures
            r == self.variables@.len(),
    {
        self.variables.len()
    }

    pub fn is_empty(&self) -> (r: bool)
        ensures
            r == (self.variables@.len() == 0),
    {
        self.variables.len() == 0
    }

    /// The variable that holds a credential.
    pub fn variable(&self, key: &String) -> (r: Result<&String, CredentialResolveError>)
        ensures
            match r {
                Ok(variable) => variable_of(pairs(self.variables@), key@) == Some(variable@),
                Err(e) => variable_of(pairs(self.variables@), key@) is None && (e matches
                    CredentialResolveError::NotFound { key: k } && k@ == key@),
            },
    {
        let ghost all = pairs(self.variables@);
        let mut i: usize = 0;
        assert(all.skip(0) =~= all);
        while i < self.variables.len()
            invariant
                i <= self.variables@.len(),
                all == pairs(self.variables@),
                variable_of(all, key@) == variable_of(all.skip(i as int), key@),
            decreases self.variables@.len() - i,
        {
            assert(all.skip(i as int)[0] == all[i as int]);
            if self.variables[i].0 == *key {
                return Ok(&self.variables[i].1);
            }
            assert(all.skip(i as int).skip(1) =~= all.skip(i + 1));
            i = i + 1;
        }
        Err(CredentialResolveError::NotFound { key: key.clone() })
    }

    /// What a credential is, given what its variable holds, or why it cannot be had.
    pub fn resolve(&self, key: &String, value: Option<String>) -> (r: Result<
        String,
        CredentialResolveError,
    >)
        ensures
            match variable_of(pairs(self.variables@), key@) {
                None => r matches Err(CredentialResolveError::NotFound { key: k }) && k@ == key@,
                Some(variable) => match value {
                    Some(secret) => r == Ok::<String, CredentialResolveError>(secret),
                    None => r matches Err(CredentialResolveError::Backend { key: k, message })
                        && k@ == key@ && message@ == "environment variable "@ + quoted(variable)
                        + " is not set"@,
                },
            },
    {
        match self.variable(key) {
            Ok(variable) => match value {
                Some(secret) => Ok(secret),
                None => Err(
                    CredentialResolveError::Backend {
                        key: key.clone(),
                        message: concat3(
                            "environment variable ",
                            quoted_text(variable.as_str()).as_str(),
                            " is not set",
                        ),
                    },
                ),
            },
            Err(error) => Err(error),
        }
    }
}

/// The variable of a credential is that of the first entry for its key, and a key without an
/// entry has none.
pub proof fn law_variables_are_found_by_key(s: Seq<(Seq<char>, Seq<char>)>, key: Seq<char>)
    ensures
        match variable_of(s, key) {
            Some(variable) => s.contains((key, variable)),
            None => forall|i: int| 0 <= i < s.len() ==> (#[trigger] s[i]).0 != key,
        },
    decreases s.len(),
{
    if s.len() > 0 {
        let rest = s.skip(1);
        law_variables_are_found_by_key(rest, key);
        if s[0].0 == key {
            assert(s[0] == (key, s[0].1));
        } else if let Some(variable) = variable_of(rest, key) {
            let i = choose|i: int| 0 <= i < rest.len() && rest[i] == (key, variable);
            assert(s[i + 1] == (key, variable));
        } else {
            assert forall|i: int| 0 <= i < s.len() implies (#[trigger] s[i]).0 != key by {
                if i > 0 {
                    assert(rest[i - 1] == s[i]);
                }
            }
        }
    }
}

} // verus!
