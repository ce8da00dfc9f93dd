//! What is known about the reader.

use vstd::prelude::*;

verus! {

/// What is known about the reader.
#[derive(Debug, Clone, PartialEq, Eq)]
pub struct UserFeatures {
    pub muted_keywords: Vec<String>,
    pub blocked_user_ids: Vec<i64>,
    pub muted_user_ids: Vec<i64>,
    pub followed_user_ids: Vec<i64>,
    pub subscribed_user_ids: Vec<i64>,
}

impl UserFeatures {
    /// Nothing is known.
    pub open spec fn is_empty(self) -> bool {
        &&& self.muted_keywords@.len() == 0
        &&& self.blocked_user_ids@.len() == 0
        &&& self.muted_user_ids@.len() == 0
        &&& self.followed_user_ids@.len() == 0
        &&& self.subscribed_user_ids@.len() == 0
    }

    /// Both hold the same.
    pub open spec fn same_as(self, other: UserFeatures) -> bool {
        &&& self.muted_keywords@ == other.muted_keywords@
        &&& self.blocked_user_ids@ == other.blocked_user_ids@
        &&& self.muted_user_ids@ == other.muted_user_ids@
        &&& self.followed_user_ids@ == other.followed_user_ids@
        &&& self.subscribed_user_ids@ == other.subscribed_user_ids@
    }

    /// A second value that holds the same.
    pub fn copied(&self) -> (copy: UserFeatures)
        ensures
            copy.same_as(*self),
    {
        let copy = UserFeatures {
            muted_keywords: self.muted_keywords.clone(),
            blocked_user_ids: self.blocked_user_ids.clone(),
            muted_user_ids: self.muted_user_ids.clone(),
            followed_user_ids: self.followed_user_ids.clone(),
            subscribed_user_ids: self.subscribed_user_ids.clone(),
        };
        assert(copy.muted_keywords@ =~= self.muted_keywords@);
        assert(copy.blocked_user_ids@ =~= self.blocked_user_ids@);
        assert(copy.muted_user_ids@ =~= self.muted_user_ids@);
        assert(copy.followed_user_ids@ =~= self.followed_user_ids@);
        assert(copy.subscribed_user_ids@ =~= self.subscribed_user_ids@);
        copy
    }
}

impl Default for UserFeatures {
    /// Nothing is known.
    fn default() -> (features: UserFeatures)
        ensures
            features.is_empty(),
    {
        UserFeatures {
            muted_keywords: Vec::new(),
            blocked_user_ids: Vec::new(),
            muted_user_ids: Vec::new(),
            followed_user_ids: Vec::new(),
            subscribed_user_ids: Vec::new(),
        }
    }
}

} // verus!
