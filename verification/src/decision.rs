//! The membership decision engine and the reconciliation sweep.
//!
//! Every verdict is fail-closed: whenever a paid subscription cannot be
//! positively confirmed — no link, a failed or empty lookup, a lapsed
//! subscription — the outcome is a decline or a revocation, never an
//! approval. The functions here are pure decisions over plain values; the
//! lookups themselves happen outside and their outcomes are handed in.

use vstd::prelude::*;

use crate::sat_add_u64;
use crate::subscribers::{spec_is_paid, ApiError, BasicSubscriber, Subscriber};
use crate::users::{
    spec_boosty_id_taken_by_other, spec_has_boosty_id, spec_has_id, LinkStore, User,
};

verus! {

/// Thirty days of seconds: how far a successful verification extends the
/// cached expiry hint past the payment time.
pub const THIRTY_DAYS_SECS: u64 = 30 * 86400;

/// Why a join request or a link attempt was declined.
#[derive(Clone, Copy, Debug, PartialEq, Eq, Structural)]
pub enum DeclineReason {
    /// The requesting user holds no membership link.
    NotLinked,
    /// The subscriber lookup failed or returned nothing.
    LookupFailed,
    /// The linked subscription is no longer paid.
    Lapsed,
    /// The search gave no candidate whose email equals the input verbatim.
    NoMatch,
    /// The subscriber is already linked to a different user.
    AlreadyLinked,
    /// The matched subscriber holds no paid subscription.
    NotSubscribed,
}

/// The outcome of one verification attempt.
#[derive(Clone, Copy, Debug, PartialEq, Eq, Structural)]
pub enum Verdict {
    Approve,
    Decline(DeclineReason),
}

/// The requester's current standing in the gated space.
#[derive(Clone, Copy, Debug, PartialEq, Eq, Structural)]
pub enum MemberRole {
    Absent,
    Member,
    Administrator,
}

/// The verdict on a join request: declined without a link, declined when
/// the lookup failed or returned an empty page, declined when the found
/// record is unpaid, approved otherwise. The page's last record is the one
/// judged, as the lookup of a single id returns it.
pub open spec fn spec_join_verdict(has_link: bool, page: Option<Seq<Subscriber>>) -> Verdict {
    if !has_link {
        Verdict::Decline(DeclineReason::NotLinked)
    } else {
        match page {
            None => Verdict::Decline(DeclineReason::LookupFailed),
            Some(subs) => if subs.len() == 0 {
                Verdict::Decline(DeclineReason::LookupFailed)
            } else if !spec_is_paid(subs.last()) {
                Verdict::Decline(DeclineReason::Lapsed)
            } else {
                Verdict::Approve
            },
        }
    }
}

/// Evaluate a pending join request. `page` is the outcome of the batched
/// lookup of the linked subscriber; every failure counts the same. Fail
/// closed: only a present link together with a non-empty page whose record
/// is paid yields approval.
pub fn join_verdict(store: &LinkStore, user_id: i64, page: Result<&Vec<Subscriber>, ApiError>) -> (r:
    Verdict)
    ensures
        page is Err ==> r == spec_join_verdict(
            spec_has_id(store.links@, user_id),
            None::<Seq<Subscriber>>,
        ),
        page matches Ok(p) ==> r == spec_join_verdict(
            spec_has_id(store.links@, user_id),
            Some(p@),
        ),
{
    if !store.has_id(user_id) {
        return Verdict::Decline(DeclineReason::NotLinked);
    }
    match page {
        Err(_) => Verdict::Decline(DeclineReason::LookupFailed),
        Ok(subs) => {
            if subs.len() == 0 {
                Verdict::Decline(DeclineReason::LookupFailed)
            } else if !subs[subs.len() - 1].is_paid() {
                Verdict::Decline(DeclineReason::Lapsed)
            } else {
                Verdict::Approve
            }
        },
    }
}

/// A user with no membership link is always declined, whatever the
/// provider returned or failed to return — never approved.
pub proof fn lemma_unlinked_join_declines(page: Option<Seq<Subscriber>>)
    ensures
        spec_join_verdict(false, page) == Verdict::Decline(DeclineReason::NotLinked),
        spec_join_verdict(false, page) != Verdict::Approve,
{
}

/// What a profile enquiry finds for a user.
#[derive(Clone, Copy, Debug, PartialEq, Eq, Structural)]
pub enum ProfileStatus {
    /// A linked, priced subscription: the profile can be shown.
    Available,
    /// The user holds no membership link.
    NotLinked,
    /// The lookup succeeded but found no priced subscription.
    NoSubscription,
    /// The lookup failed.
    ApiError,
}

/// The status a profile enquiry resolves to.
pub open spec fn spec_profile_status(has_link: bool, page: Option<Seq<Subscriber>>) -> ProfileStatus {
    if !has_link {
        ProfileStatus::NotLinked
    } else {
        match page {
            None => ProfileStatus::ApiError,
            Some(subs) => if subs.len() > 0 && subs.last().price > 0 {
                ProfileStatus::Available
            } else {
                ProfileStatus::NoSubscription
            },
        }
    }
}

/// Evaluate a profile enquiry: without a link there is no profile; a
/// failed lookup is reported as such; a non-empty page whose last record
/// carries a price yields the profile, anything else a missing
/// subscription.
pub fn profile_status(store: &LinkStore, user_id: i64, page: Result<&Vec<Subscriber>, ApiError>) -> (r:
    ProfileStatus)
    ensures
        page is Err ==> r == spec_profile_status(
            spec_has_id(store.links@, user_id),
            None::<Seq<Subscriber>>,
        ),
        page matches Ok(p) ==> r == spec_profile_status(
            spec_has_id(store.links@, user_id),
            Some(p@),
        ),
{
    if !store.has_id(user_id) {
        return ProfileStatus::NotLinked;
    }
    match page {
        Err(_) => ProfileStatus::ApiError,
        Ok(subs) => {
            if subs.len() > 0 && subs[subs.len() - 1].price > 0 {
                ProfileStatus::Available
            } else {
                ProfileStatus::NoSubscription
            }
        },
    }
}

/// The external id the search settles on: the last candidate's, and only
/// when that candidate's email equals the queried one verbatim.
pub open spec fn spec_search_match(email: Seq<char>, candidates: Seq<BasicSubscriber>) -> Option<
    u64,
> {
    if candidates.len() > 0 && candidates.last().email@ == email {
        Some(candidates.last().id)
    } else {
        None
    }
}

/// Judge a search result. The provider may return zero, one or several
/// candidates for a chunk; the match is the last candidate, and only when
/// its email equals the input exactly — no local case folding or other
/// normalisation is applied.
pub fn evaluate_search(email: &String, candidates: &Vec<BasicSubscriber>) -> (r: Option<u64>)
    ensures
        r == spec_search_match(email@, candidates@),
{
    if candidates.len() == 0 {
        return None;
    }
    let last = &candidates[candidates.len() - 1];
    if last.email == *email {
        Some(last.id)
    } else {
        None
    }
}

/// The link that a successful verification writes for `requester_id`:
/// bound to the record's external id, expiring thirty days past the
/// payment time.
pub open spec fn spec_new_link(requester_id: i64, s: Subscriber) -> User {
    User {
        id: requester_id,
        boosty_id: s.basic_info.id,
        expires_at: sat_add_u64(s.on_time, THIRTY_DAYS_SECS),
    }
}

/// Complete a link attempt for `requester_id`, after the matched
/// subscriber's full record has been fetched. `page` is that lookup's
/// outcome.
///
/// Declined — and the store left untouched — when the lookup failed or
/// came back empty, when the record's external id is linked to a different
/// user (no overwrite), and when the record is not paid. Otherwise the
/// link is created, or the requester's own link replaced, and the attempt
/// approved.
pub fn process_link(
    store: &mut LinkStore,
    requester_id: i64,
    page: Result<&Vec<Subscriber>, ApiError>,
) -> (r: Verdict)
    requires
        old(store).wf(),
    ensures
        final(store).wf(),
        page is Err ==> r == Verdict::Decline(DeclineReason::LookupFailed) && *final(store)
            == *old(store),
        page matches Ok(p) && p@.len() == 0 ==> r == Verdict::Decline(DeclineReason::LookupFailed)
            && *final(store) == *old(store),
        page matches Ok(p) && p@.len() > 0 && spec_boosty_id_taken_by_other(
            old(store).links@,
            p@.last().basic_info.id,
            requester_id,
        ) ==> r == Verdict::Decline(DeclineReason::AlreadyLinked) && *final(store) == *old(store),
        page matches Ok(p) && p@.len() > 0 && !spec_boosty_id_taken_by_other(
            old(store).links@,
            p@.last().basic_info.id,
            requester_id,
        ) && !spec_is_paid(p@.last()) ==> r == Verdict::Decline(DeclineReason::NotSubscribed)
            && *final(store) == *old(store),
        page matches Ok(p) ==> (p@.len() > 0 && !spec_boosty_id_taken_by_other(
            old(store).links@,
            p@.last().basic_info.id,
            requester_id,
        ) && spec_is_paid(p@.last()) ==> r == Verdict::Approve && (!spec_has_id(
            old(store).links@,
            requester_id,
        ) ==> final(store).links@ == old(store).links@.push(
            spec_new_link(requester_id, p@.last()),
        )) && (spec_has_id(old(store).links@, requester_id)
            ==> final(store).links@.len() == old(store).links@.len()
            && (forall|k: int|
                0 <= k < old(store).links@.len() && old(store).links@[k].id != requester_id
                    ==> final(store).links@[k] == old(store).links@[k])
            && (forall|k: int|
                0 <= k < old(store).links@.len() && old(store).links@[k].id == requester_id
                    ==> final(store).links@[k] == spec_new_link(requester_id, p@.last())))),
{
    let subs = match page {
        Err(_) => {
            return Verdict::Decline(DeclineReason::LookupFailed);
        },
        Ok(subs) => subs,
    };
    if subs.len() == 0 {
        return Verdict::Decline(DeclineReason::LookupFailed);
    }
    let record = &subs[subs.len() - 1];
    let boosty_id = record.basic_info.id;
    let has_own = store.has_id(requester_id);
    if store.has_boosty_id(boosty_id) {
        let holder = match store.get_user_by_boosty_id(boosty_id) {
            Ok(u) => u,
            Err(_) => unreached(),
        };
        if holder.id != requester_id {
            proof {
                let s = store.links@;
                let w = choose|i: int| 0 <= i < s.len() && s[i] == holder;
                assert(spec_boosty_id_taken_by_other(s, boosty_id, requester_id));
            }
            return Verdict::Decline(DeclineReason::AlreadyLinked);
        }
    }
    proof {
        assert(!spec_boosty_id_taken_by_other(store.links@, boosty_id, requester_id)) by {
            if spec_boosty_id_taken_by_other(store.links@, boosty_id, requester_id) {
                let w = choose|i: int|
                    0 <= i < store.links@.len() && store.links@[i].boosty_id == boosty_id
                        && store.links@[i].id != requester_id;
                assert(spec_has_boosty_id(store.links@, boosty_id));
            }
        }
    }
    if !record.is_paid() {
        return Verdict::Decline(DeclineReason::NotSubscribed);
    }
    let on_time = record.on_time;
    let expires_at: u64 = if on_time <= u64::MAX - THIRTY_DAYS_SECS {
        on_time + THIRTY_DAYS_SECS
    } else {
        u64::MAX
    };
    let link = User { id: requester_id, boosty_id, expires_at };
    if has_own {
        let res = store.update_user(link);
        proof {
            assert(res is Ok);
        }
    } else {
        proof {
            assert(!spec_has_boosty_id(store.links@, boosty_id)) by {
                if spec_has_boosty_id(store.links@, boosty_id) {
                    let w = choose|i: int|
                        0 <= i < store.links@.len() && store.links@[i].boosty_id == boosty_id;
                    assert(store.links@[w].id != requester_id);
                    assert(spec_boosty_id_taken_by_other(store.links@, boosty_id, requester_id));
                }
            }
        }
        let res = store.create_user(link);
        proof {
            assert(res is Ok);
        }
    }
    Verdict::Approve
}

/// A subscriber with this external id is present in the page and paid.
pub open spec fn spec_page_paid(page: Seq<Subscriber>, boosty_id: u64) -> bool {
    exists|i: int|
        0 <= i < page.len() && page[i].basic_info.id == boosty_id && spec_is_paid(page[i])
}

/// Whether the page holds a paid record for the external id.
pub fn page_has_paid(page: &Vec<Subscriber>, boosty_id: u64) -> (r: bool)
    ensures
        r == spec_page_paid(page@, boosty_id),
{
    let n = page.len();
    let mut i: usize = 0;
    while i < n
        invariant
            i <= n,
            n == page@.len(),
            forall|k: int|
                0 <= k < i ==> !(page@[k].basic_info.id == boosty_id && spec_is_paid(page@[k])),
        decreases n - i,
    {
        if page[i].basic_info.id == boosty_id && page[i].is_paid() {
            return true;
        }
        i = i + 1;
    }
    false
}

/// Run the reconciliation sweep against one fetched page covering every
/// linked external id. Every link whose record is missing from the page or
/// no longer paid is deleted, and returned as a revocation to act on; the
/// links of paid subscribers are kept untouched, in order.
pub fn sweep_lapsed(store: &mut LinkStore, page: &Vec<Subscriber>) -> (revoked: Vec<User>)
    requires
        old(store).wf(),
    ensures
        final(store).wf(),
        final(store).links@ == old(store).links@.filter(
            |u: User| spec_page_paid(page@, u.boosty_id),
        ),
        revoked@ == old(store).links@.filter(|u: User| !spec_page_paid(page@, u.boosty_id)),
{
    let ghost paid = |u: User| spec_page_paid(page@, u.boosty_id);
    let ghost lapsed = |u: User| !spec_page_paid(page@, u.boosty_id);
    let mut kept: Vec<User> = Vec::new();
    let mut revoked: Vec<User> = Vec::new();
    let n = store.links.len();
    let mut i: usize = 0;
    proof {
        reveal(Seq::filter);
    }
    while i < n
        invariant
            i <= n,
            *store == *old(store),
            n == store.links@.len(),
            kept@ == store.links@.subrange(0, i as int).filter(paid),
            revoked@ == store.links@.subrange(0, i as int).filter(lapsed),
            paid == (|u: User| spec_page_paid(page@, u.boosty_id)),
            lapsed == (|u: User| !spec_page_paid(page@, u.boosty_id)),
        decreases n - i,
    {
        let u = store.links[i];
        if page_has_paid(page, u.boosty_id) {
            kept.push(u);
        } else {
            revoked.push(u);
        }
        proof {
            reveal(Seq::filter);
            let pre = store.links@.subrange(0, i as int);
            let full = store.links@.subrange(0, i + 1 as int);
            assert(full.drop_last() =~= pre);
            assert(full.last() == store.links@[i as int]);
        }
        i = i + 1;
    }
    proof {
        assert(store.links@.subrange(0, n as int) =~= store.links@);
        lemma_filter_keeps_distinct(store.links@, paid);
    }
    store.links = kept;
    revoked
}

/// Filtering a sequence of links whose ids are pairwise distinct keeps
/// them pairwise distinct.
proof fn lemma_filter_keeps_distinct(s: Seq<User>, pred: spec_fn(User) -> bool)
    requires
        forall|i: int, j: int|
            #![trigger s[i], s[j]]
            0 <= i < s.len() && 0 <= j < s.len() && i != j ==> (s[i].id != s[j].id
                && s[i].boosty_id != s[j].boosty_id),
    ensures
        forall|i: int, j: int|
            #![trigger s.filter(pred)[i], s.filter(pred)[j]]
            0 <= i < s.filter(pred).len() && 0 <= j < s.filter(pred).len() && i != j ==> (s.filter(
                pred,
            )[i].id != s.filter(pred)[j].id && s.filter(pred)[i].boosty_id != s.filter(
                pred,
            )[j].boosty_id),
    decreases s.len(),
{
    reveal(Seq::filter);
    if s.len() > 0 {
        let d = s.drop_last();
        let l = s.last();
        assert(forall|i: int, j: int|
            #![trigger d[i], d[j]]
            0 <= i < d.len() && 0 <= j < d.len() && i != j ==> (d[i].id != d[j].id && d[i].boosty_id
                != d[j].boosty_id));
        lemma_filter_keeps_distinct(d, pred);
        let fd = d.filter(pred);
        assert forall|k: int| 0 <= k < fd.len() implies (fd[k].id != l.id && fd[k].boosty_id
            != l.boosty_id) by {
            assert(fd.contains(fd[k]));
            d.lemma_filter_contains_rev(pred, fd[k]);
            let w = choose|m: int| 0 <= m < d.len() && d[m] == fd[k];
            assert(s[w] == d[w] && s[s.len() - 1] == l);
        }
        if pred(l) {
            assert(s.filter(pred) == fd.push(l));
        } else {
            assert(s.filter(pred) == fd);
        }
    }
}

/// Counting law of the sweep: over links whose paid status splits into
/// kept and lapsed, exactly the lapsed ones are revoked and exactly the
/// paid ones are kept — the two counts always add up to the number of
/// links swept.
pub proof fn lemma_sweep_counts(links: Seq<User>, page: Seq<Subscriber>)
    ensures
        links.filter(|u: User| spec_page_paid(page, u.boosty_id)).len() + links.filter(
            |u: User| !spec_page_paid(page, u.boosty_id),
        ).len() == links.len(),
    decreases links.len(),
{
    reveal(Seq::filter);
    if links.len() > 0 {
        lemma_sweep_counts(links.drop_last(), page);
    }
}

/// Whether a revocation must also remove the member from the gated space:
/// only an ordinary member is kicked. Administrators are exempt from
/// removal whatever their subscription state, and an absent member needs
/// none; the link itself is dropped in every case, so a later demotion
/// triggers re-verification.
pub fn should_kick(role: MemberRole) -> (r: bool)
    ensures
        r == (role is Member),
{
    match role {
        MemberRole::Member => true,
        MemberRole::Absent => false,
        MemberRole::Administrator => false,
    }
}

/// Split the ids into batches of at most `limit`, in order: the provider
/// accepts only so many ids per lookup. Every batch is non-empty and the
/// batches together are exactly the ids.
pub fn chunk_ids(ids: &Vec<u64>, limit: usize) -> (r: Vec<Vec<u64>>)
    requires
        limit >= 1,
    ensures
        r@.map_values(|v: Vec<u64>| v@).flatten() == ids@,
        forall|c: int| 0 <= c < r@.len() ==> 1 <= (#[trigger] r@[c])@.len() <= limit,
{
    let mut out: Vec<Vec<u64>> = Vec::new();
    let mut cur: Vec<u64> = Vec::new();
    let n = ids.len();
    let mut i: usize = 0;
    while i < n
        invariant
            i <= n,
            n == ids@.len(),
            cur@.len() < limit,
            out@.map_values(|v: Vec<u64>| v@).flatten() + cur@ == ids@.subrange(0, i as int),
            forall|c: int| 0 <= c < out@.len() ==> 1 <= (#[trigger] out@[c])@.len() <= limit,
        decreases n - i,
    {
        let ghost cur_pre = cur@;
        let ghost flat_pre = out@.map_values(|v: Vec<u64>| v@).flatten();
        let ghost i0 = i as int;
        cur.push(ids[i]);
        i = i + 1;
        proof {
            assert(cur@ == cur_pre.push(ids@[i0]));
            assert(flat_pre + cur_pre == ids@.subrange(0, i0));
            assert(ids@.subrange(0, i0 + 1) =~= ids@.subrange(0, i0).push(ids@[i0]));
            assert(flat_pre + cur@ =~= (flat_pre + cur_pre).push(ids@[i0]));
            assert(flat_pre + cur@ =~= ids@.subrange(0, i0 + 1));
        }
        if cur.len() == limit {
            let full = cur;
            cur = Vec::new();
            let ghost out_pre = out@;
            out.push(full);
            proof {
                assert(out@ == out_pre.push(full));
                assert(out@.map_values(|v: Vec<u64>| v@) =~= out_pre.map_values(
                    |v: Vec<u64>| v@,
                ).push(full@));
                out_pre.map_values(|v: Vec<u64>| v@).lemma_flatten_push(full@);
                assert(out@.map_values(|v: Vec<u64>| v@).flatten() == flat_pre + full@);
                assert(out@.map_values(|v: Vec<u64>| v@).flatten() + cur@ =~= flat_pre + full@);
                assert(flat_pre + full@ =~= ids@.subrange(0, i as int));
            }
        }
    }
    if cur.len() > 0 {
        let ghost flat_pre = out@.map_values(|v: Vec<u64>| v@).flatten();
        let ghost tail = cur@;
        let ghost out_pre = out@;
        out.push(cur);
        proof {
            assert(out@ == out_pre.push(out@.last()));
            assert(out@.map_values(|v: Vec<u64>| v@) =~= out_pre.map_values(
                |v: Vec<u64>| v@,
            ).push(tail));
            out_pre.map_values(|v: Vec<u64>| v@).lemma_flatten_push(tail);
            assert(out@.map_values(|v: Vec<u64>| v@).flatten() == flat_pre + tail);
        }
    }
    proof {
        assert(ids@.subrange(0, n as int) =~= ids@);
        assert(out@.map_values(|v: Vec<u64>| v@).flatten() =~= ids@);
    }
    out
}

} // verus!
