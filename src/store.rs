//! A table of links, keyed by identifier, with the operations that create,
//! resolve and clean up links.
use vstd::prelude::*;

use crate::clock::time_now;
use crate::config::{LinkConfig, Settings};
use crate::ident::{
    alphabet_only, candidate_ids, draw_rows, generated_ids, lemma_draw_ids_shape,
};
use crate::link::{link_expired, Link};
use crate::text::{
    byte_count, byte_len, char_count, ensure_http_prefix, has_explicit_scheme, has_scheme, lemma_with_scheme_has_scheme,
    replace_illegal_url_chars, sanitized, with_scheme,
};

verus! {

/// Why a link could not be created.
#[derive(Debug, PartialEq, Eq, Clone, Copy)]
pub enum LinkError {
    /// The custom identifier is longer than the configured maximum.
    CustomIdentifierTooLong,
    /// The target is empty.
    EmptyTarget,
    /// The target is longer than the configured maximum.
    TargetTooLong,
    /// An active link already holds the identifier.
    IdentifierConflict,
    /// The link would be expired as soon as it is created.
    ExpiredLinkProvided,
    /// The backing storage failed.
    StorageFailure,
    /// No candidate identifier was free.
    IdentifierGenerationExhausted,
}

/// A stored row: its target is non-empty, carries an explicit scheme, and is
/// no longer than `max_link_length` bytes.
pub open spec fn row_ok(l: Link, max_link_length: int) -> bool {
    0 < l.redirect_to@.len() && byte_len(l.redirect_to@) <= max_link_length && has_scheme(
        l.redirect_to@,
    )
}

/// Every row is a well-formed stored row.
pub open spec fn rows_ok(rows: Seq<Link>, max_link_length: int) -> bool {
    forall|i: int| 0 <= i < rows.len() ==> row_ok(#[trigger] rows[i], max_link_length)
}

/// No two rows share an identifier.
pub open spec fn unique_ids(rows: Seq<Link>) -> bool {
    forall|i: int, j: int|
        0 <= i < rows.len() && 0 <= j < rows.len() && i != j ==> rows[i].id@ != rows[j].id@
}

/// Some row holds identifier `id`.
pub open spec fn holds_id(rows: Seq<Link>, id: Seq<char>) -> bool {
    exists|i: int| 0 <= i < rows.len() && rows[i].id@ == id
}

/// The position of the row that holds `id`, where one does.
pub open spec fn slot(rows: Seq<Link>, id: Seq<char>) -> int {
    choose|i: int| 0 <= i < rows.len() && rows[i].id@ == id
}

/// A row that is not expired at `now` holds `id`.
pub open spec fn active(rows: Seq<Link>, id: Seq<char>, now: int) -> bool {
    holds_id(rows, id) && !rows[slot(rows, id)].expired_at(now)
}

/// The rows after an upsert of `l`: it replaces the row with its identifier,
/// or is added where there is none.
pub open spec fn placed(rows: Seq<Link>, l: Link) -> Seq<Link> {
    if holds_id(rows, l.id@) {
        rows.update(slot(rows, l.id@), l)
    } else {
        rows.push(l)
    }
}

/// The first candidate that no active row holds at `now`.
pub open spec fn first_free(rows: Seq<Link>, cands: Seq<Seq<char>>, now: int) -> Option<
    Seq<char>,
>
    decreases cands.len(),
{
    if cands.len() == 0 {
        None
    } else if !active(rows, cands[0], now) {
        Some(cands[0])
    } else {
        first_free(rows, cands.drop_first(), now)
    }
}

/// The identifiers of a list of candidates.
pub open spec fn texts(cands: Seq<String>) -> Seq<Seq<char>> {
    cands.map_values(|s: String| s@)
}

/// The identifier a creation resolves to: the sanitised custom identifier,
/// or else the first free candidate.
pub open spec fn resolved_id(
    rows: Seq<Link>,
    config: LinkConfig,
    cands: Seq<Seq<char>>,
    now: int,
) -> Option<Seq<char>> {
    match config.custom_id {
        Some(c) => Some(sanitized(c@)),
        None => first_free(rows, cands, now),
    }
}

/// The error a creation at `now` fails with, or `None` where it succeeds.
pub open spec fn create_error(
    rows: Seq<Link>,
    config: LinkConfig,
    cands: Seq<Seq<char>>,
    settings: Settings,
    now: int,
) -> Option<LinkError> {
    if config.custom_id is Some && byte_len(config.custom_id->0@) > settings.max_custom_id_length {
        Some(LinkError::CustomIdentifierTooLong)
    } else if resolved_id(rows, config, cands, now) is None {
        Some(LinkError::IdentifierGenerationExhausted)
    } else if config.link@.len() == 0 {
        Some(LinkError::EmptyTarget)
    } else if byte_len(with_scheme(config.link@)) > settings.max_link_length {
        Some(LinkError::TargetTooLong)
    } else if active(rows, resolved_id(rows, config, cands, now)->0, now) {
        Some(LinkError::IdentifierConflict)
    } else if link_expired(config.max_uses as int, 0, now, config.valid_for as int, now) {
        Some(LinkError::ExpiredLinkProvided)
    } else {
        None
    }
}

/// What a creation at `now` does: it fails with `create_error` and changes
/// nothing, or it returns the new link and upserts it.
pub open spec fn create_post(
    old_rows: Seq<Link>,
    new_rows: Seq<Link>,
    config: LinkConfig,
    cands: Seq<Seq<char>>,
    settings: Settings,
    now: int,
    r: Result<Link, LinkError>,
) -> bool {
    match create_error(old_rows, config, cands, settings, now) {
        Some(e) => r == Err::<Link, LinkError>(e) && new_rows == old_rows,
        None => r is Ok && {
            let l = r->Ok_0;
            &&& l.id@ == resolved_id(old_rows, config, cands, now)->0
            &&& l.redirect_to@ == with_scheme(config.link@)
            &&& l.max_uses == config.max_uses
            &&& l.invocations == 0
            &&& l.created_at == now
            &&& l.valid_for == config.valid_for
            &&& new_rows == placed(old_rows, l)
        },
    }
}

/// The candidate identifiers a creation draws from `draws`.
pub open spec fn drawn(draws: Seq<Vec<u64>>, settings: Settings) -> Seq<Seq<char>> {
    generated_ids(draw_rows(draws), settings.id_length as int, settings.id_attempts as int)
}

/// A link created without a custom identifier has a generated one:
/// `id_length` characters, all of the identifier alphabet.
pub open spec fn generated_shape(
    custom_id: Option<String>,
    r: Result<Link, LinkError>,
    settings: Settings,
) -> bool {
    (custom_id is None && r is Ok) ==> (r->Ok_0.id@.len() == settings.id_length && alphabet_only(
        r->Ok_0.id@,
    ))
}

/// The first free candidate is one of the candidates.
pub proof fn lemma_first_free_in(rows: Seq<Link>, cands: Seq<Seq<char>>, now: int)
    ensures
        first_free(rows, cands, now) is Some ==> exists|k: int|
            0 <= k < cands.len() && cands[k] == first_free(rows, cands, now)->0,
    decreases cands.len(),
{
    if cands.len() > 0 && active(rows, cands[0], now) {
        lemma_first_free_in(rows, cands.drop_first(), now);
        if first_free(rows, cands, now) is Some {
            let k = choose|k: int|
                0 <= k < cands.drop_first().len() && cands.drop_first()[k] == first_free(
                    rows,
                    cands,
                    now,
                )->0;
            assert(cands[k + 1] == first_free(rows, cands, now)->0);
        }
    } else if cands.len() > 0 {
        assert(cands[0] == first_free(rows, cands, now)->0);
    }
}

/// One more invocation, saturating at the largest count.
pub open spec fn bump(n: i64) -> i64 {
    if n < i64::MAX {
        (n + 1) as i64
    } else {
        n
    }
}

/// `l` after one more invocation.
pub open spec fn bumped(l: Link) -> Link {
    Link {
        id: l.id,
        redirect_to: l.redirect_to,
        max_uses: l.max_uses,
        invocations: bump(l.invocations),
        created_at: l.created_at,
        valid_for: l.valid_for,
    }
}

/// What a resolution of `id` at `now` does: the row that holds `id` counts one
/// more invocation, and the row as it was read is returned unless it was
/// already expired. A link limited to `n` uses thus resolves `n` times.
pub open spec fn get_post(
    old_rows: Seq<Link>,
    new_rows: Seq<Link>,
    id: Seq<char>,
    now: int,
    r: Option<Link>,
) -> bool {
    if holds_id(old_rows, id) {
        let l = old_rows[slot(old_rows, id)];
        &&& new_rows == old_rows.update(slot(old_rows, id), bumped(l))
        &&& r == if l.expired_at(now) {
            None
        } else {
            Some(l)
        }
    } else {
        new_rows == old_rows && r is None
    }
}

/// Whether a link is not expired at `now`.
pub open spec fn live_at(now: int) -> spec_fn(Link) -> bool {
    |l: Link| !l.expired_at(now)
}

/// The rows that are not expired at `now`, in their order.
pub open spec fn live_rows(rows: Seq<Link>, now: int) -> Seq<Link> {
    rows.filter(live_at(now))
}

/// What a cleanup at `now` does: the rows expired at `now` go, the others
/// stay as they were, and the number of rows removed is returned.
pub open spec fn clean_post(old_rows: Seq<Link>, new_rows: Seq<Link>, now: int, r: usize) -> bool {
    new_rows == live_rows(old_rows, now) && r == old_rows.len() - new_rows.len()
}

/// A table of links with unique identifiers.
pub struct LinkStore {
    rows: Vec<Link>,
    settings: Settings,
}

impl View for LinkStore {
    type V = Seq<Link>;

    closed spec fn view(&self) -> Seq<Link> {
        self.rows@
    }
}

impl LinkStore {
    /// The settings the store was built with.
    pub closed spec fn config(&self) -> Settings {
        self.settings
    }

    /// The store's invariant: identifiers are unique, and every target is
    /// non-empty, carries a scheme and fits the configured maximum length.
    pub open spec fn wf(&self) -> bool {
        unique_ids(self@) && rows_ok(self@, self.config().max_link_length as int)
    }

    /// An empty store.
    pub fn new(settings: Settings) -> (r: LinkStore)
        ensures
            r.wf(),
            r@ == Seq::<Link>::empty(),
            r.config() == settings,
    {
        LinkStore { rows: Vec::new(), settings }
    }

    /// The settings the store was built with.
    pub fn settings(&self) -> (r: &Settings)
        ensures
            *r == self.config(),
    {
        &self.settings
    }

    /// The rows, in the order they were added.
    pub fn rows(&self) -> (r: &Vec<Link>)
        ensures
            r@ == self@,
    {
        &self.rows
    }

    /// The number of rows.
    pub fn len(&self) -> (r: usize)
        ensures
            r == self@.len(),
    {
        self.rows.len()
    }

    /// The position of the row that holds `id`.
    fn find(&self, id: &String) -> (r: Option<usize>)
        requires
            self.wf(),
        ensures
            r is None <==> !holds_id(self@, id@),
            r is Some ==> r->0 == slot(self@, id@) && r->0 < self@.len(),
    {
        let mut i: usize = 0;
        while i < self.rows.len()
            invariant
                self.wf(),
                0 <= i <= self.rows@.len(),
                forall|k: int| 0 <= k < i ==> self.rows@[k].id@ != id@,
            decreases self.rows.len() - i,
        {
            if self.rows[i].id == *id {
                assert(holds_id(self@, id@));
                let ghost j = slot(self@, id@);
                assert(self.rows@[j].id@ == id@);
                assert(j == i);
                return Some(i);
            }
            i = i + 1;
        }
        None
    }

    /// Whether a row not expired at `now` holds `id`.
    fn is_active_at(&self, id: &String, now: i64) -> (r: bool)
        requires
            self.wf(),
        ensures
            r == active(self@, id@, now as int),
    {
        match self.find(id) {
            Some(i) => !self.rows[i].is_expired_at(now),
            None => false,
        }
    }

    /// The first of `candidates` that no row active at `now` holds.
    pub fn allocate_id(&self, candidates: &Vec<String>, now: i64) -> (r: Result<String, LinkError>)
        requires
            self.wf(),
        ensures
            match first_free(self@, texts(candidates@), now as int) {
                Some(id) => r is Ok && r->Ok_0@ == id,
                None => r == Err::<String, LinkError>(LinkError::IdentifierGenerationExhausted),
            },
    {
        let ghost cands = texts(candidates@);
        assert(cands.subrange(0, cands.len() as int) =~= cands);
        let mut i: usize = 0;
        while i < candidates.len()
            invariant
                self.wf(),
                cands == texts(candidates@),
                0 <= i <= candidates@.len(),
                first_free(self@, cands, now as int) == first_free(
                    self@,
                    cands.subrange(i as int, cands.len() as int),
                    now as int,
                ),
            decreases candidates.len() - i,
        {
            let ghost rest = cands.subrange(i as int, cands.len() as int);
            assert(rest.drop_first() =~= cands.subrange(i + 1, cands.len() as int));
            assert(rest[0] == candidates@[i as int]@);
            if !self.is_active_at(&candidates[i], now) {
                return Ok(candidates[i].clone());
            }
            i = i + 1;
        }
        assert(cands.subrange(i as int, cands.len() as int).len() == 0);
        Err(LinkError::IdentifierGenerationExhausted)
    }

    /// Creates a link from `config` at time `now`. Without a custom identifier
    /// the first identifier drawn from `draws` that no active link holds is
    /// taken: each row of numbers is one candidate, at most `id_attempts` rows
    /// are tried, and a row without exactly `id_length` numbers is skipped.
    pub fn create_link_with_config_at(
        &mut self,
        config: LinkConfig,
        draws: &Vec<Vec<u64>>,
        now: i64,
    ) -> (r: Result<Link, LinkError>)
        requires
            old(self).wf(),
        ensures
            final(self).wf(),
            final(self).config() == old(self).config(),
            generated_shape(config.custom_id, r, old(self).config()),
            create_post(
                old(self)@,
                final(self)@,
                config,
                drawn(draws@, old(self).config()),
                old(self).config(),
                now as int,
                r,
            ),
    {
        let ghost cfg = config;
        let candidates = candidate_ids(draws, self.settings.id_length, self.settings.id_attempts);
        let ghost cands = texts(candidates@);
        proof {
            lemma_first_free_in(self@, cands, now as int);
            lemma_draw_ids_shape(draw_rows(draws@), self.settings.id_length as int);
            lemma_draw_ids_shape(
                draw_rows(draws@).take(self.settings.id_attempts as int),
                self.settings.id_length as int,
            );
        }
        let id: String = match &config.custom_id {
            Some(c) => {
                if byte_count(c.as_str()) > self.settings.max_custom_id_length {
                    return Err(LinkError::CustomIdentifierTooLong);
                }
                replace_illegal_url_chars(c.as_str())
            },
            None => match self.allocate_id(&candidates, now) {
                Ok(id) => id,
                Err(e) => {
                    return Err(e);
                },
            },
        };
        assert(id@ == resolved_id(self@, cfg, cands, now as int)->0);
        if char_count(config.link.as_str()) == 0 {
            return Err(LinkError::EmptyTarget);
        }
        let redirect_to = ensure_http_prefix(config.link);
        if byte_count(redirect_to.as_str()) > self.settings.max_link_length {
            return Err(LinkError::TargetTooLong);
        }
        let existing = self.find(&id);
        if let Some(i) = existing {
            if !self.rows[i].is_expired_at(now) {
                return Err(LinkError::IdentifierConflict);
            }
        }
        let shortened = Link {
            id,
            redirect_to,
            max_uses: config.max_uses,
            invocations: 0,
            created_at: now,
            valid_for: config.valid_for,
        };
        if shortened.is_expired_at(now) {
            return Err(LinkError::ExpiredLinkProvided);
        }
        let ghost before = self@;
        proof {
            lemma_with_scheme_has_scheme(cfg.link@);
        }
        assert(row_ok(shortened, self.settings.max_link_length as int));
        match existing {
            Some(i) => {
                self.rows.set(i, shortened.clone());
                assert forall|a: int, b: int|
                    0 <= a < self@.len() && 0 <= b < self@.len() && a != b implies self@[a].id@
                    != self@[b].id@ by {
                    assert(before[a].id@ != before[b].id@);
                }
            },
            None => {
                self.rows.push(shortened.clone());
                assert forall|a: int, b: int|
                    0 <= a < self@.len() && 0 <= b < self@.len() && a != b implies self@[a].id@
                    != self@[b].id@ by {
                    if a < before.len() && b < before.len() {
                        assert(before[a].id@ != before[b].id@);
                    } else if a < before.len() {
                        assert(before[a].id@ != shortened.id@);
                    } else {
                        assert(before[b].id@ != shortened.id@);
                    }
                }
            },
        }
        assert(self@ == placed(before, shortened));
        Ok(shortened)
    }

    /// Creates a link from `config` at the current time.
    pub fn create_link_with_config(&mut self, config: LinkConfig, draws: &Vec<Vec<u64>>) -> (r:
        Result<Link, LinkError>)
        requires
            old(self).wf(),
        ensures
            final(self).wf(),
            final(self).config() == old(self).config(),
            generated_shape(config.custom_id, r, old(self).config()),
            exists|now: i64|
                create_post(
                    old(self)@,
                    final(self)@,
                    config,
                    drawn(draws@, old(self).config()),
                    old(self).config(),
                    now as int,
                    r,
                ),
    {
        let now = time_now();
        self.create_link_with_config_at(config, draws, now)
    }

    /// Creates a link to `link` at time `now`, with a generated identifier and
    /// the default limits.
    pub fn create_link_at(&mut self, link: String, draws: &Vec<Vec<u64>>, now: i64) -> (r:
        Result<Link, LinkError>)
        requires
            old(self).wf(),
        ensures
            final(self).wf(),
            final(self).config() == old(self).config(),
            generated_shape(None::<String>, r, old(self).config()),
            create_post(
                old(self)@,
                final(self)@,
                (LinkConfig {
                    link,
                    custom_id: None,
                    max_uses: old(self).config().default_max_uses,
                    valid_for: old(self).config().default_valid_for,
                }),
                drawn(draws@, old(self).config()),
                old(self).config(),
                now as int,
                r,
            ),
    {
        let config = LinkConfig::with_defaults(link, None, None, None, &self.settings);
        self.create_link_with_config_at(config, draws, now)
    }

    /// Creates a link to `link` at the current time, with a generated
    /// identifier and the default limits.
    pub fn create_link(&mut self, link: String, draws: &Vec<Vec<u64>>) -> (r: Result<
        Link,
        LinkError,
    >)
        requires
            old(self).wf(),
        ensures
            final(self).wf(),
            final(self).config() == old(self).config(),
            generated_shape(None::<String>, r, old(self).config()),
            exists|now: i64|
                create_post(
                    old(self)@,
                    final(self)@,
                    (LinkConfig {
                        link,
                        custom_id: None,
                        max_uses: old(self).config().default_max_uses,
                        valid_for: old(self).config().default_valid_for,
                    }),
                    drawn(draws@, old(self).config()),
                    old(self).config(),
                    now as int,
                    r,
                ),
    {
        let now = time_now();
        self.create_link_at(link, draws, now)
    }

    /// Adds a row read back from storage. It is taken only where its target is
    /// non-empty, carries a scheme and fits the maximum length, and no row
    /// holds its identifier yet; the result says whether it was taken.
    pub fn restore(&mut self, row: Link) -> (r: bool)
        requires
            old(self).wf(),
        ensures
            final(self).wf(),
            final(self).config() == old(self).config(),
            r == (row_ok(row, old(self).config().max_link_length as int) && !holds_id(
                old(self)@,
                row.id@,
            )),
            final(self)@ == if r {
                old(self)@.push(row)
            } else {
                old(self)@
            },
    {
        if char_count(row.redirect_to.as_str()) == 0 || byte_count(row.redirect_to.as_str())
            > self.settings.max_link_length || !has_explicit_scheme(
            row.redirect_to.as_str(),
        ) {
            return false;
        }
        if self.find(&row.id).is_some() {
            return false;
        }
        let ghost before = self@;
        self.rows.push(row);
        assert forall|a: int, b: int|
            0 <= a < self@.len() && 0 <= b < self@.len() && a != b implies self@[a].id@
            != self@[b].id@ by {
            if a < before.len() && b < before.len() {
                assert(before[a].id@ != before[b].id@);
            }
        }
        true
    }

    /// Removes the row that holds `id`, where one does, and returns it.
    pub fn remove(&mut self, id: &str) -> (r: Option<Link>)
        requires
            old(self).wf(),
        ensures
            final(self).wf(),
            final(self).config() == old(self).config(),
            if holds_id(old(self)@, id@) {
                &&& r == Some(old(self)@[slot(old(self)@, id@)])
                &&& final(self)@ == old(self)@.remove(slot(old(self)@, id@))
            } else {
                r is None && final(self)@ == old(self)@
            },
    {
        let key = id.to_owned();
        match self.find(&key) {
            None => None,
            Some(i) => {
                let ghost before = self@;
                let row = self.rows.remove(i);
                assert forall|a: int, b: int|
                    0 <= a < self@.len() && 0 <= b < self@.len() && a != b implies self@[a].id@
                    != self@[b].id@ by {
                    let a0 = if a < i {
                        a
                    } else {
                        a + 1
                    };
                    let b0 = if b < i {
                        b
                    } else {
                        b + 1
                    };
                    assert(self@[a] == before[a0]);
                    assert(self@[b] == before[b0]);
                }
                assert forall|k: int| 0 <= k < self@.len() implies row_ok(
                    #[trigger] self@[k],
                    self.settings.max_link_length as int,
                ) by {
                    if k < i {
                        assert(self@[k] == before[k]);
                    } else {
                        assert(self@[k] == before[k + 1]);
                    }
                }
                Some(row)
            },
        }
    }

    /// Reads the row that holds `id`, without counting an invocation.
    pub fn peek(&self, id: &str) -> (r: Option<Link>)
        requires
            self.wf(),
        ensures
            r == if holds_id(self@, id@) {
                Some(self@[slot(self@, id@)])
            } else {
                None::<Link>
            },
    {
        let key = id.to_owned();
        match self.find(&key) {
            Some(i) => Some(self.rows[i].clone()),
            None => None,
        }
    }

    /// Resolves `id` at time `now`: the row that holds it counts one more
    /// invocation, and the row as read is returned unless it was expired.
    pub fn get_at(&mut self, id: &str, now: i64) -> (r: Option<Link>)
        requires
            old(self).wf(),
        ensures
            final(self).wf(),
            final(self).config() == old(self).config(),
            get_post(old(self)@, final(self)@, id@, now as int, r),
            r is Some ==> !r->0.expired_at(now as int),
    {
        let key = id.to_owned();
        match self.find(&key) {
            None => None,
            Some(i) => {
                let ghost before = self@;
                let link = self.rows[i].clone();
                let mut counted = link.clone();
                if counted.invocations < i64::MAX {
                    counted.invocations = counted.invocations + 1;
                }
                assert(counted == bumped(before[i as int]));
                self.rows.set(i, counted);
                assert forall|a: int, b: int|
                    0 <= a < self@.len() && 0 <= b < self@.len() && a != b implies self@[a].id@
                    != self@[b].id@ by {
                    assert(before[a].id@ != before[b].id@);
                }
                if link.is_expired_at(now) {
                    None
                } else {
                    Some(link)
                }
            },
        }
    }

    /// Resolves `id` at the current time.
    pub fn get(&mut self, id: &str) -> (r: Option<Link>)
        requires
            old(self).wf(),
        ensures
            final(self).wf(),
            final(self).config() == old(self).config(),
            exists|now: i64| get_post(old(self)@, final(self)@, id@, now as int, r),
    {
        let now = time_now();
        self.get_at(id, now)
    }

    /// Removes every row expired at time `now` and returns how many went.
    pub fn clean_at(&mut self, now: i64) -> (r: usize)
        requires
            old(self).wf(),
        ensures
            final(self).wf(),
            final(self).config() == old(self).config(),
            clean_post(old(self)@, final(self)@, now as int, r),
    {
        let ghost pred = live_at(now as int);
        let ghost rows = self.rows@;
        let ghost mut origin: Seq<int> = Seq::empty();
        let mut kept: Vec<Link> = Vec::new();
        let mut i: usize = 0;
        while i < self.rows.len()
            invariant
                self.rows@ == rows,
                pred == live_at(now as int),
                unique_ids(rows),
                rows_ok(rows, self.settings.max_link_length as int),
                0 <= i <= rows.len(),
                kept@ == rows.subrange(0, i as int).filter(pred),
                kept@.len() <= i,
                origin.len() == kept@.len(),
                forall|k: int| 0 <= k < kept@.len() ==> 0 <= #[trigger] origin[k] < i,
                forall|k: int| 0 <= k < kept@.len() ==> kept@[k] == rows[#[trigger] origin[k]],
                forall|a: int, b: int|
                    0 <= a < b < kept@.len() ==> #[trigger] origin[a] < #[trigger] origin[b],
            decreases rows.len() - i,
        {
            assert(rows.subrange(0, i + 1) =~= rows.subrange(0, i as int).push(rows[i as int]));
            proof {
                rows.subrange(0, i as int).lemma_filter_push(rows[i as int], pred);
            }
            assert(pred(rows[i as int]) == !rows[i as int].expired_at(now as int));
            if !self.rows[i].is_expired_at(now) {
                kept.push(self.rows[i].clone());
                proof {
                    origin = origin.push(i as int);
                }
            }
            i = i + 1;
        }
        assert(rows.subrange(0, rows.len() as int) =~= rows);
        assert forall|a: int, b: int|
            0 <= a < kept@.len() && 0 <= b < kept@.len() && a != b implies kept@[a].id@
            != kept@[b].id@ by {
            if a < b {
                assert(origin[a] < origin[b]);
            } else {
                assert(origin[b] < origin[a]);
            }
            assert(rows[origin[a]].id@ != rows[origin[b]].id@);
        }
        assert forall|k: int| 0 <= k < kept@.len() implies row_ok(
            #[trigger] kept@[k],
            self.settings.max_link_length as int,
        ) by {
            assert(kept@[k] == rows[origin[k]]);
        }
        let removed = self.rows.len() - kept.len();
        self.rows = kept;
        removed
    }

    /// Removes every row expired at the current time and returns how many went.
    pub fn clean(&mut self) -> (r: usize)
        requires
            old(self).wf(),
        ensures
            final(self).wf(),
            final(self).config() == old(self).config(),
            exists|now: i64| clean_post(old(self)@, final(self)@, now as int, r),
    {
        let now = time_now();
        self.clean_at(now)
    }
}

impl Link {
    /// Whether some row of `store` holds `id`, expired or not.
    pub fn link_exists(id: &str, store: &LinkStore) -> (r: bool)
        requires
            store.wf(),
        ensures
            r == holds_id(store@, id@),
    {
        store.peek(id).is_some()
    }
}

} // verus!
