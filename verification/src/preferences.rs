//! What is kept between runs: the refresh token, the day to look at next,
//! and the most recent adjustments.

use vstd::prelude::*;
use vstd::string::StringExecFns;
use crate::ai::UserAdjustment;
use crate::date::Date;

verus! {

/// The most adjustments that are kept.
pub const MAX_ADJUSTMENTS: usize = 100;

/// The stored record. It is read whole and written whole.
#[derive(Debug)]
pub struct Preferences {
    adjustments: Vec<UserAdjustment>,
    last_day_selected: Option<Date>,
    token: Option<String>,
}

/// The last `n` entries of `entries`, or all of them where there are fewer.
pub open spec fn most_recent(entries: Seq<UserAdjustment>, n: int) -> Seq<UserAdjustment> {
    if entries.len() > n {
        entries.subrange(entries.len() - n, entries.len() as int)
    } else {
        entries
    }
}

/// A copy of an adjustment.
pub fn copy_adjustment(adjustment: &UserAdjustment) -> (r: UserAdjustment)
    ensures
        r == *adjustment,
{
    let reason = match &adjustment.reason {
        Some(text) => Some(text.clone()),
        None => None,
    };
    UserAdjustment {
        from: adjustment.from.clone(),
        to: adjustment.to.clone(),
        reason,
        date: adjustment.date,
    }
}

impl Preferences {
    /// The adjustments kept, oldest first.
    pub closed spec fn adjustments(&self) -> Seq<UserAdjustment> {
        self.adjustments@
    }

    /// The day to look at next, if one is stored.
    pub closed spec fn next_day(&self) -> Option<Date> {
        self.last_day_selected
    }

    /// The refresh token, if one is stored.
    pub closed spec fn stored_token(&self) -> Option<Seq<char>> {
        match self.token {
            Some(token) => Some(token@),
            None => None,
        }
    }

    /// Whether no more adjustments are kept than `MAX_ADJUSTMENTS`.
    pub open spec fn bounded(&self) -> bool {
        self.adjustments().len() <= MAX_ADJUSTMENTS
    }

    /// The record with the given content, as it was read from the store.
    pub fn new(
        adjustments: Vec<UserAdjustment>,
        last_day_selected: Option<Date>,
        token: Option<String>,
    ) -> (r: Self)
        ensures
            r.adjustments() == adjustments@,
            r.next_day() == last_day_selected,
            r.stored_token() == token.deep_view(),
    {
        Preferences { adjustments, last_day_selected, token }
    }

    /// The content of the record, to be written to the store.
    pub fn into_parts(self) -> (r: (Vec<UserAdjustment>, Option<Date>, Option<String>))
        ensures
            r.0@ == self.adjustments(),
            r.1 == self.next_day(),
            r.2.deep_view() == self.stored_token(),
    {
        (self.adjustments, self.last_day_selected, self.token)
    }

    /// Appends the given adjustments and keeps the most recent
    /// `MAX_ADJUSTMENTS` of all, in their order.
    pub fn add_new_preferences(&mut self, adjustment: Vec<UserAdjustment>)
        ensures
            final(self).adjustments() == most_recent(
                old(self).adjustments() + adjustment@,
                MAX_ADJUSTMENTS as int,
            ),
            final(self).bounded(),
            final(self).next_day() == old(self).next_day(),
            final(self).stored_token() == old(self).stored_token(),
    {
        let mut added = adjustment;
        self.adjustments.append(&mut added);
        let len = self.adjustments.len();
        if len > MAX_ADJUSTMENTS {
            let kept = self.adjustments.split_off(len - MAX_ADJUSTMENTS);
            self.adjustments = kept;
        }
    }

    /// The adjustments kept, oldest first.
    pub fn get_preferences(&self) -> (r: Vec<UserAdjustment>)
        ensures
            r@ == self.adjustments(),
    {
        let mut out: Vec<UserAdjustment> = Vec::new();
        let mut i: usize = 0;
        while i < self.adjustments.len()
            invariant
                i <= self.adjustments@.len(),
                out@ == self.adjustments@.take(i as int),
            decreases self.adjustments@.len() - i,
        {
            out.push(copy_adjustment(&self.adjustments[i]));
            assert(out@ =~= self.adjustments@.take(i + 1));
            i += 1;
        }
        assert(self.adjustments@.take(i as int) =~= self.adjustments@);
        out
    }

    /// The day to look at next, if one is stored.
    pub fn next_day_to_check(&self) -> (r: Option<Date>)
        ensures
            r == self.next_day(),
    {
        self.last_day_selected
    }

    /// Stores the day to look at next.
    pub fn set_next_day_to_check(&mut self, date: Date)
        ensures
            final(self).next_day() == Some(date),
            final(self).adjustments() == old(self).adjustments(),
            final(self).stored_token() == old(self).stored_token(),
    {
        self.last_day_selected = Some(date);
    }

    /// Stores the refresh token.
    pub fn save_token(&mut self, token: &str)
        ensures
            final(self).stored_token() == Some(token@),
            final(self).adjustments() == old(self).adjustments(),
            final(self).next_day() == old(self).next_day(),
    {
        self.token = Some(String::from_str(token));
    }

    /// The refresh token, if one is stored.
    pub fn token(&self) -> (r: Option<String>)
        ensures
            r.deep_view() == self.stored_token(),
    {
        match &self.token {
            Some(token) => Some(token.clone()),
            None => None,
        }
    }
}

impl Default for Preferences {
    /// The record of a store that does not exist yet: nothing is kept.
    fn default() -> (r: Self)
        ensures
            r.adjustments().len() == 0,
            r.next_day() is None,
            r.stored_token() is None,
    {
        Preferences { adjustments: Vec::new(), last_day_selected: None, token: None }
    }
}

/// Whatever is kept and whatever is appended, no more than
/// `MAX_ADJUSTMENTS` entries are kept afterwards, and they are the last ones
/// of the old entries followed by the new, in that order.
pub proof fn law_most_recent_are_kept(kept: Seq<UserAdjustment>, added: Seq<UserAdjustment>)
    ensures
        ({
            let all = kept + added;
            let after = most_recent(all, MAX_ADJUSTMENTS as int);
            &&& after.len() <= MAX_ADJUSTMENTS
            &&& after.len() == if all.len() <= MAX_ADJUSTMENTS {
                all.len()
            } else {
                MAX_ADJUSTMENTS as nat
            }
            &&& forall|k: int|
                0 <= k < after.len() ==> after[k] == all[all.len() - after.len() + k]
        }),
{
}

} // verus!
