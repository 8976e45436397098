//! Who is calling, and what they may do.

use vstd::prelude::*;
use crate::Id;
use crate::errors::BigNeonError;
use crate::errors::ErrorView;

verus! {

/// A capability that a caller has or lacks.
#[derive(Clone, Copy, Debug, PartialEq, Eq, Structural)]
pub enum Scopes {
    OrderMakeExternalPayment,
    OrgAdmin,
    SettlementRead,
    SettlementReadEarly,
    SettlementWrite,
}

/// A caller: an identity and the capabilities that were granted to it.
#[derive(Debug, PartialEq, Eq)]
pub struct User {
    pub id: Id,
    pub scopes: Vec<Scopes>,
}

impl User {
    /// Whether `scope` is among the caller's capabilities.
    pub open spec fn spec_has_scope(&self, scope: Scopes) -> bool {
        self.scopes@.contains(scope)
    }

    pub fn id(&self) -> (r: Id)
        ensures
            r == self.id,
    {
        self.id
    }

    #[verifier::when_used_as_spec(spec_has_scope)]
    pub fn has_scope(&self, scope: Scopes) -> (r: bool)
        ensures
            r == self.spec_has_scope(scope),
    {
        let mut i: usize = 0;
        while i < self.scopes.len()
            invariant
                i <= self.scopes.len(),
                forall|k: int| 0 <= k < i ==> self.scopes@[k] != scope,
            decreases self.scopes.len() - i,
        {
            if self.scopes[i] == scope {
                return true;
            }
            i += 1;
        }
        false
    }

    /// Fails with `Forbidden` exactly if the caller lacks `scope`.
    pub fn requires_scope(&self, scope: Scopes) -> (r: Result<(), BigNeonError>)
        ensures
            r is Ok <==> self.has_scope(scope),
            r matches Err(e) ==> e@ == ErrorView::Forbidden,
    {
        if self.has_scope(scope) {
            Ok(())
        } else {
            Err(BigNeonError::Forbidden)
        }
    }
}

} // verus!
