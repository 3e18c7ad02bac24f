//! Properties of link creation and cleanup that hold over every input.
use vstd::prelude::*;

use crate::config::{LinkConfig, Settings};
use crate::link::{link_expired, Link};
use crate::store::{
    active, clean_post, live_at, create_post, holds_id, live_rows, slot, LinkError,
};
use crate::text::{byte_len, sanitized, with_scheme};

verus! {

broadcast use vstd::seq_lib::group_filter_ensures;

/// Filtering twice by the same predicate filters once.
proof fn lemma_filter_twice(s: Seq<Link>, pred: spec_fn(Link) -> bool)
    ensures
        s.filter(pred).filter(pred) == s.filter(pred),
    decreases s.len(),
{
    reveal(Seq::filter);
    if s.len() > 0 {
        let f = s.drop_last().filter(pred);
        lemma_filter_twice(s.drop_last(), pred);
        if pred(s.last()) {
            f.lemma_filter_push(s.last(), pred);
        }
    }
}

/// Creating a link under a custom identifier that an active link holds fails
/// with a conflict and leaves the rows as they were, provided the custom
/// identifier and the target, once given its scheme, pass validation (which is
/// checked first).
pub proof fn lemma_create_on_active_conflicts(
    old_rows: Seq<Link>,
    new_rows: Seq<Link>,
    config: LinkConfig,
    cands: Seq<Seq<char>>,
    settings: Settings,
    now: int,
    r: Result<Link, LinkError>,
)
    requires
        config.custom_id is Some,
        byte_len(config.custom_id->0@) <= settings.max_custom_id_length,
        0 < config.link@.len(),
        byte_len(with_scheme(config.link@)) <= settings.max_link_length,
        active(old_rows, sanitized(config.custom_id->0@), now),
        create_post(old_rows, new_rows, config, cands, settings, now, r),
    ensures
        r == Err::<Link, LinkError>(LinkError::IdentifierConflict),
        new_rows == old_rows,
{
}

/// Creating a valid, not born-expired link under a custom identifier that only
/// an expired row holds succeeds: the new link replaces that row in place,
/// with its invocation count back at zero.
pub proof fn lemma_create_replaces_stale(
    old_rows: Seq<Link>,
    new_rows: Seq<Link>,
    config: LinkConfig,
    cands: Seq<Seq<char>>,
    settings: Settings,
    now: int,
    r: Result<Link, LinkError>,
)
    requires
        config.custom_id is Some,
        byte_len(config.custom_id->0@) <= settings.max_custom_id_length,
        0 < config.link@.len(),
        byte_len(with_scheme(config.link@)) <= settings.max_link_length,
        !link_expired(config.max_uses as int, 0, now, config.valid_for as int, now),
        holds_id(old_rows, sanitized(config.custom_id->0@)),
        !active(old_rows, sanitized(config.custom_id->0@), now),
        create_post(old_rows, new_rows, config, cands, settings, now, r),
    ensures
        r is Ok,
        new_rows.len() == old_rows.len(),
        new_rows == old_rows.update(slot(old_rows, sanitized(config.custom_id->0@)), r->Ok_0),
        new_rows[slot(old_rows, sanitized(config.custom_id->0@))].invocations == 0,
{
}

/// Cleanup at `now` keeps exactly the rows not expired at `now`, each as it
/// was; the count it returns is the number of rows before less the number
/// after; and a second cleanup at the same time removes nothing.
pub proof fn lemma_clean_exact(
    old_rows: Seq<Link>,
    new_rows: Seq<Link>,
    now: int,
    r: usize,
    again: Seq<Link>,
    r_again: usize,
)
    requires
        clean_post(old_rows, new_rows, now, r),
        clean_post(new_rows, again, now, r_again),
    ensures
        forall|i: int| 0 <= i < new_rows.len() ==> !(#[trigger] new_rows[i]).expired_at(now),
        forall|i: int| 0 <= i < new_rows.len() ==> old_rows.contains(#[trigger] new_rows[i]),
        forall|i: int|
            0 <= i < old_rows.len() && !(#[trigger] old_rows[i]).expired_at(now)
                ==> new_rows.contains(old_rows[i]),
        r == old_rows.len() - new_rows.len(),
        again == new_rows,
        r_again == 0,
{
    let pred = live_at(now);
    assert forall|i: int| 0 <= i < new_rows.len() implies !(#[trigger] new_rows[i]).expired_at(
        now,
    ) && old_rows.contains(new_rows[i]) by {
        old_rows.lemma_filter_pred(pred, i);
        assert(new_rows[i] == old_rows.filter(pred)[i]);
        assert(pred(new_rows[i]));
        assert(old_rows.filter(pred).contains(new_rows[i]));
        old_rows.lemma_filter_contains_rev(pred, new_rows[i]);
    }
    assert forall|i: int|
        0 <= i < old_rows.len() && !(#[trigger] old_rows[i]).expired_at(now) implies new_rows.contains(
        old_rows[i],
    ) by {
        assert(pred(old_rows[i]));
    }
    lemma_filter_twice(old_rows, pred);
}

} // verus!
