//! In-memory registry of temporary notes.
//!
//! Temporary notes live in this process only, and are gone on restart or expiry,
//! whichever comes first. Times are nanoseconds on a clock that does not go back;
//! the caller passes the present time.

use vstd::prelude::*;
use crate::id::{gen, spelled_in, ALPHABET};
use crate::table::Table;
use crate::text::same;

verus! {

/// What marks a note id as temporary.
pub const TEMP_PREFIX: &'static str = "t_";

/// The length of a note id without its prefix.
pub const NOTE_ID_LEN: usize = 16;

/// The time to live of a note whose creator specifies none: a day.
pub const DEFAULT_TTL: u128 = 86_400_000_000_000;

/// The shortest time to live: a minute.
pub const MIN_TTL: u128 = 60_000_000_000;

/// The longest time to live: 30 days.
pub const MAX_TTL: u128 = 2_592_000_000_000_000;

/// The most live notes that one hook may have.
pub const MAX_TEMP_NOTES_PER_HOOK: usize = 500;

/// A temporary note. `S` is `String` in running code and `Seq<char>` in its model.
#[derive(Debug)]
pub struct TempNote<S = String> {
    pub hook_id: S,
    pub content: S,
    pub expires_at: u128,
}

impl View for TempNote {
    type V = TempNote<Seq<char>>;

    open spec fn view(&self) -> TempNote<Seq<char>> {
        TempNote {
            hook_id: self.hook_id@,
            content: self.content@,
            expires_at: self.expires_at,
        }
    }
}

/// The temporary notes, by their ids.
#[derive(Debug)]
pub struct TempNotes {
    notes: Table<TempNote>,
}

impl View for TempNotes {
    type V = Map<Seq<char>, TempNote<Seq<char>>>;

    closed spec fn view(&self) -> Map<Seq<char>, TempNote<Seq<char>>> {
        self.notes@.map_values(|n: TempNote| n@)
    }
}

/// Whether a note belongs to `hook_id` and has not expired.
pub open spec fn is_live(note: TempNote<Seq<char>>, hook_id: Seq<char>, now: u128) -> bool {
    note.hook_id == hook_id && note.expires_at > now
}

/// The ids of the live notes of a hook.
pub open spec fn live_ids(
    notes: Map<Seq<char>, TempNote<Seq<char>>>,
    hook_id: Seq<char>,
    now: u128,
) -> Set<Seq<char>> {
    notes.dom().filter(|id: Seq<char>| is_live(notes[id], hook_id, now))
}

/// Whether a hook may have one more note.
pub open spec fn has_room(
    notes: Map<Seq<char>, TempNote<Seq<char>>>,
    hook_id: Seq<char>,
    now: u128,
) -> bool {
    live_ids(notes, hook_id, now).len() < MAX_TEMP_NOTES_PER_HOOK
}

/// The notes after one more was created under `id`, if the hook may have it.
pub open spec fn created(
    notes: Map<Seq<char>, TempNote<Seq<char>>>,
    id: Seq<char>,
    hook_id: Seq<char>,
    content: Seq<char>,
    ttl: u128,
    now: u128,
) -> Map<Seq<char>, TempNote<Seq<char>>> {
    if has_room(notes, hook_id, now) {
        notes.insert(id, TempNote { hook_id, content, expires_at: (now + ttl) as u128 })
    } else {
        notes
    }
}

/// What a hook reads under `id`: the content of its own live note.
pub open spec fn read(
    notes: Map<Seq<char>, TempNote<Seq<char>>>,
    id: Seq<char>,
    hook_id: Seq<char>,
    now: u128,
) -> Option<Seq<char>> {
    if notes.dom().contains(id) && is_live(notes[id], hook_id, now) {
        Some(notes[id].content)
    } else {
        None
    }
}

/// The notes after a read: a hook's own expired note is gone.
pub open spec fn after_read(
    notes: Map<Seq<char>, TempNote<Seq<char>>>,
    id: Seq<char>,
    hook_id: Seq<char>,
    now: u128,
) -> Map<Seq<char>, TempNote<Seq<char>>> {
    if notes.dom().contains(id) && notes[id].hook_id == hook_id && notes[id].expires_at <= now {
        notes.remove(id)
    } else {
        notes
    }
}

/// The notes that have not expired.
pub open spec fn unexpired(notes: Map<Seq<char>, TempNote<Seq<char>>>, now: u128) -> Map<
    Seq<char>,
    TempNote<Seq<char>>,
> {
    notes.restrict(notes.dom().filter(|id: Seq<char>| notes[id].expires_at > now))
}

/// A time to live in seconds, kept between [`MIN_TTL`] and [`MAX_TTL`].
pub open spec fn clamped(secs: u64) -> u128 {
    if secs * 1_000_000_000 < MIN_TTL {
        MIN_TTL
    } else if secs * 1_000_000_000 > MAX_TTL {
        MAX_TTL
    } else {
        (secs * 1_000_000_000) as u128
    }
}

impl TempNotes {
    /// No id occurs twice.
    pub closed spec fn wf(self) -> bool {
        self.notes.wf()
    }

    /// A registry holds finitely many notes.
    pub proof fn law_finite(self)
        requires
            self.wf(),
        ensures
            self@.dom().finite(),
    {
        self.notes.lemma_keys();
        assert(self@.dom() =~= self.notes@.dom());
    }

    /// A registry without notes.
    pub fn new() -> (r: TempNotes)
        ensures
            r.wf(),
            r@ == Map::<Seq<char>, TempNote<Seq<char>>>::empty(),
    {
        let r = TempNotes { notes: Table::new() };
        assert(r@ =~= Map::<Seq<char>, TempNote<Seq<char>>>::empty());
        r
    }

    /// Clamps a time to live in seconds into the bounds.
    pub fn clamp_ttl(requested_secs: u64) -> (r: u128)
        ensures
            r == clamped(requested_secs),
    {
        let ttl: u128 = requested_secs as u128 * 1_000_000_000;
        if ttl < MIN_TTL {
            MIN_TTL
        } else if ttl > MAX_TTL {
            MAX_TTL
        } else {
            ttl
        }
    }

    /// The number of notes, expired ones that are still held among them.
    pub fn len(&self) -> (n: usize)
        requires
            self.wf(),
        ensures
            n == self@.dom().len(),
    {
        assert(self@.dom() =~= self.notes@.dom());
        self.notes.len()
    }

    fn count_live(&self, hook_id: &str, now: u128) -> (n: usize)
        requires
            self.wf(),
        ensures
            n == live_ids(self@, hook_id@, now).len(),
    {
        let ghost keys = self.notes.keys();
        let ghost mut seen: Set<Seq<char>> = Set::empty();
        let mut n: usize = 0;
        let mut i: usize = 0;
        let len = self.notes.len();
        proof {
            self.notes.lemma_keys();
        }
        while i < len
            invariant
                self.wf(),
                self.notes.wf(),
                keys == self.notes.keys(),
                keys.no_duplicates(),
                len == keys.len(),
                i <= len,
                n <= i,
                seen.finite(),
                n == seen.len(),
                forall|k: Seq<char>| #[trigger]
                    seen.contains(k) <==> keys.take(i as int).contains(k) && is_live(
                        self@[k],
                        hook_id@,
                        now,
                    ),
            decreases len - i,
        {
            let (key, note) = self.notes.at(i);
            assert(keys.take(i + 1) =~= keys.take(i as int).push(key@));
            assert(!keys.take(i as int).contains(key@)) by {
                if keys.take(i as int).contains(key@) {
                    let j = choose|j: int| 0 <= j < i && keys.take(i as int)[j] == key@;
                    assert(keys[j] == keys[i as int]);
                }
            }
            assert forall|k: Seq<char>|
                keys.take(i + 1).contains(k) <==> keys.take(i as int).contains(k) || k == key@ by {
                let a = keys.take(i as int);
                if a.push(key@).contains(k) && k != key@ {
                    let j = choose|j: int| 0 <= j < a.push(key@).len() && a.push(key@)[j] == k;
                    assert(a[j] == k);
                }
                if a.contains(k) {
                    let j = choose|j: int| 0 <= j < a.len() && a[j] == k;
                    assert(a.push(key@)[j] == k);
                }
                assert(a.push(key@)[a.len() as int] == key@);
            }
            assert(self@[key@] == note@);
            if same(note.hook_id.as_str(), hook_id) && note.expires_at > now {
                n += 1;
                proof {
                    seen = seen.insert(key@);
                }
            }
            i += 1;
        }
        proof {
            self.notes.lemma_keys();
            assert(keys.take(i as int) =~= keys);
            assert(self@.dom() =~= self.notes@.dom());
            assert(seen =~= live_ids(self@, hook_id@, now));
        }
        n
    }

    /// Creates a note under `hook_id` with a given id, which expires after `ttl`.
    /// Returns whether it was created: it is not where the hook has
    /// [`MAX_TEMP_NOTES_PER_HOOK`] live notes.
    pub fn create_with(&mut self, id: &str, hook_id: &str, content: String, ttl: u128, now: u128) -> (r:
        bool)
        requires
            old(self).wf(),
            now + ttl <= u128::MAX,
        ensures
            final(self).wf(),
            r == has_room(old(self)@, hook_id@, now),
            final(self)@ == created(old(self)@, id@, hook_id@, content@, ttl, now),
    {
        if self.count_live(hook_id, now) >= MAX_TEMP_NOTES_PER_HOOK {
            return false;
        }
        let note = TempNote { hook_id: hook_id.to_owned(), content, expires_at: now + ttl };
        let ghost model = note@;
        self.notes.insert(id, note);
        assert(self@ =~= old(self)@.insert(id@, model));
        true
    }

    /// Creates a note under `hook_id` with a fresh id, which expires after `ttl`.
    /// Returns the id, or nothing where the hook has [`MAX_TEMP_NOTES_PER_HOOK`]
    /// live notes.
    pub fn create(&mut self, hook_id: &str, content: String, ttl: u128, now: u128) -> (r: Option<
        String,
    >)
        requires
            old(self).wf(),
            now + ttl <= u128::MAX,
        ensures
            final(self).wf(),
            match r {
                Some(id) => {
                    &&& has_room(old(self)@, hook_id@, now)
                    &&& exists|tail: Seq<char>|
                        tail.len() == NOTE_ID_LEN && spelled_in(ALPHABET@, tail) && id@
                            == #[trigger] (TEMP_PREFIX@ + tail)
                    &&& final(self)@ == created(
                        old(self)@,
                        id@,
                        hook_id@,
                        content@,
                        ttl,
                        now,
                    )
                },
                None => !has_room(old(self)@, hook_id@, now) && final(self)@ == old(self)@,
            },
    {
        let tail = gen(NOTE_ID_LEN);
        let id = TEMP_PREFIX.to_owned().concat(tail.as_str());
        if self.create_with(id.as_str(), hook_id, content, ttl, now) {
            Some(id)
        } else {
            None
        }
    }

    /// Reads a hook's own note. An expired one is evicted.
    pub fn get(&mut self, id: &str, hook_id: &str, now: u128) -> (r: Option<String>)
        requires
            old(self).wf(),
        ensures
            final(self).wf(),
            match r {
                Some(text) => read(old(self)@, id@, hook_id@, now) == Some(text@),
                None => read(old(self)@, id@, hook_id@, now) is None,
            },
            final(self)@ == after_read(old(self)@, id@, hook_id@, now),
    {
        let expired = match self.notes.get(id) {
            Some(note) => {
                assert(self@[id@] == note@);
                if same(note.hook_id.as_str(), hook_id) {
                    if note.expires_at > now {
                        return Some(note.content.clone());
                    }
                    true
                } else {
                    false
                }
            },
            None => false,
        };
        if expired {
            let _ = self.notes.remove(id);
            assert(self@ =~= old(self)@.remove(id@));
        }
        None
    }

    /// Removes every expired note. Returns how many there were.
    pub fn sweep(&mut self, now: u128) -> (removed: usize)
        requires
            old(self).wf(),
        ensures
            final(self).wf(),
            final(self)@ == unexpired(old(self)@, now),
            removed == old(self)@.dom().len() - final(self)@.dom().len(),
    {
        let before = self.notes.len();
        let mut i: usize = 0;
        while i < self.notes.len()
            invariant
                self.notes.wf(),
                i <= self.notes.keys().len() <= before,
                self.notes@.submap_of(old(self).notes@),
                forall|k: Seq<char>| #[trigger]
                    old(self).notes@.dom().contains(k) && old(self).notes@[k].expires_at > now
                        ==> self.notes@.dom().contains(k),
                forall|j: int|
                    0 <= j < i ==> self.notes@[#[trigger] self.notes.keys()[j]].expires_at > now,
            decreases self.notes.keys().len() - i,
        {
            let ghost kept = self.notes;
            let (key, note) = self.notes.at(i);
            let live = note.expires_at > now;
            if live {
                i += 1;
            } else {
                proof {
                    self.notes.lemma_keys();
                }
                let _ = self.notes.remove_at(i);
                assert forall|j: int| 0 <= j < i implies self.notes@[#[trigger] self.notes.keys()[j]].expires_at
                    > now by {
                    assert(self.notes.keys()[j] == kept.keys()[j]);
                    assert(kept.keys()[j] != kept.keys()[i as int]);
                }
            }
        }
        let after = self.notes.len();
        proof {
            self.notes.lemma_keys();
            assert forall|k: Seq<char>| self.notes@.dom().contains(k) implies self.notes@[k].expires_at
                > now by {
                assert(self.notes.keys().contains(k));
                let j = choose|j: int|
                    0 <= j < self.notes.keys().len() && self.notes.keys()[j] == k;
                assert(self.notes@[self.notes.keys()[j]].expires_at > now);
            }
            assert(self@ =~= unexpired(old(self)@, now));
            assert(self@.dom() =~= self.notes@.dom());
            assert(old(self)@.dom() =~= old(self).notes@.dom());
        }
        before - after
    }
}

impl Default for TempNotes {
    fn default() -> (r: TempNotes)
        ensures
            r.wf(),
            r@ == Map::<Seq<char>, TempNote<Seq<char>>>::empty(),
    {
        TempNotes::new()
    }
}

/// A note that was created is read back by its hook until it expires, and by no
/// other hook; once it has expired nobody reads it.
pub proof fn law_created_note_is_read_back(
    notes: Map<Seq<char>, TempNote<Seq<char>>>,
    id: Seq<char>,
    hook_id: Seq<char>,
    content: Seq<char>,
    ttl: u128,
    now: u128,
    reader: Seq<char>,
    later: u128,
)
    requires
        has_room(notes, hook_id, now),
        now + ttl <= u128::MAX,
    ensures
        read(created(notes, id, hook_id, content, ttl, now), id, reader, later) == (if reader
            == hook_id && later < now + ttl {
            Some(content)
        } else {
            None
        }),
{
}

/// A note stays as it is whatever is created under other ids and whatever is read.
pub proof fn law_notes_do_not_interfere(
    notes: Map<Seq<char>, TempNote<Seq<char>>>,
    id: Seq<char>,
    hook_id: Seq<char>,
    now: u128,
    other_id: Seq<char>,
    other_hook: Seq<char>,
    content: Seq<char>,
    ttl: u128,
    earlier: u128,
)
    requires
        earlier <= now,
    ensures
        other_id != id ==> read(
            created(notes, other_id, other_hook, content, ttl, earlier),
            id,
            hook_id,
            now,
        ) == read(notes, id, hook_id, now),
        read(after_read(notes, other_id, other_hook, earlier), id, hook_id, now) == read(
            notes,
            id,
            hook_id,
            now,
        ),
{
}

/// A sweep changes no read, then or later; and after it no expired note is held.
pub proof fn law_sweeping_is_invisible(
    notes: Map<Seq<char>, TempNote<Seq<char>>>,
    swept: u128,
    id: Seq<char>,
    hook_id: Seq<char>,
    now: u128,
)
    requires
        swept <= now,
    ensures
        read(unexpired(notes, swept), id, hook_id, now) == read(notes, id, hook_id, now),
        unexpired(notes, swept).dom().contains(id) ==> unexpired(notes, swept)[id].expires_at
            > swept,
{
}

/// Whether no hook has more than [`MAX_TEMP_NOTES_PER_HOOK`] live notes.
pub open spec fn within_cap(notes: Map<Seq<char>, TempNote<Seq<char>>>, now: u128) -> bool {
    forall|hook_id: Seq<char>|
        (#[trigger] live_ids(notes, hook_id, now)).len() <= MAX_TEMP_NOTES_PER_HOOK
}

/// No hook ever has more than [`MAX_TEMP_NOTES_PER_HOOK`] live notes: that holds of
/// no notes at all, and creating, reading, sweeping and the passing of time keep
/// it.
pub proof fn law_cap_is_kept(
    notes: Map<Seq<char>, TempNote<Seq<char>>>,
    id: Seq<char>,
    hook_id: Seq<char>,
    content: Seq<char>,
    ttl: u128,
    now: u128,
    later: u128,
)
    requires
        notes.dom().finite(),
        within_cap(notes, now),
        now + ttl <= u128::MAX,
        now <= later,
    ensures
        within_cap(Map::<Seq<char>, TempNote<Seq<char>>>::empty(), now),
        within_cap(created(notes, id, hook_id, content, ttl, now), now),
        within_cap(after_read(notes, id, hook_id, now), now),
        within_cap(unexpired(notes, now), now),
        within_cap(notes, later),
{
    let none = Map::<Seq<char>, TempNote<Seq<char>>>::empty();
    let more = created(notes, id, hook_id, content, ttl, now);
    let read = after_read(notes, id, hook_id, now);
    let kept = unexpired(notes, now);
    assert forall|h: Seq<char>| (#[trigger] live_ids(none, h, now)).len()
        <= MAX_TEMP_NOTES_PER_HOOK by {
        assert(live_ids(none, h, now) =~= Set::empty());
    }
    assert forall|h: Seq<char>| (#[trigger] live_ids(more, h, now)).len()
        <= MAX_TEMP_NOTES_PER_HOOK by {
        let had = live_ids(notes, h, now);
        if h == hook_id && has_room(notes, hook_id, now) {
            assert(live_ids(more, h, now).subset_of(had.insert(id)));
            vstd::set_lib::lemma_len_subset(live_ids(more, h, now), had.insert(id));
        } else {
            assert(live_ids(more, h, now).subset_of(had));
            vstd::set_lib::lemma_len_subset(live_ids(more, h, now), had);
        }
    }
    assert forall|h: Seq<char>| (#[trigger] live_ids(read, h, now)).len()
        <= MAX_TEMP_NOTES_PER_HOOK by {
        let had = live_ids(notes, h, now);
        assert(live_ids(read, h, now).subset_of(had));
        vstd::set_lib::lemma_len_subset(live_ids(read, h, now), had);
    }
    assert forall|h: Seq<char>| (#[trigger] live_ids(kept, h, now)).len()
        <= MAX_TEMP_NOTES_PER_HOOK by {
        let had = live_ids(notes, h, now);
        assert(live_ids(kept, h, now).subset_of(had));
        vstd::set_lib::lemma_len_subset(live_ids(kept, h, now), had);
    }
    assert forall|h: Seq<char>| (#[trigger] live_ids(notes, h, later)).len()
        <= MAX_TEMP_NOTES_PER_HOOK by {
        let had = live_ids(notes, h, now);
        assert(live_ids(notes, h, later).subset_of(had));
        vstd::set_lib::lemma_len_subset(live_ids(notes, h, later), had);
    }
}

/// A clamped time to live lies between the bounds, and is the requested one where
/// that does.
pub proof fn law_ttl_is_bounded(secs: u64)
    ensures
        MIN_TTL <= clamped(secs) <= MAX_TTL,
        MIN_TTL <= secs * 1_000_000_000 <= MAX_TTL ==> clamped(secs) == secs * 1_000_000_000,
        MIN_TTL <= DEFAULT_TTL <= MAX_TTL,
{
}

/// The live notes of a hook are those of the hook whose time is not up; a hook may have
/// one more while it has fewer than five hundred of them.
pub proof fn law_live_notes(
    notes: Map<Seq<char>, TempNote<Seq<char>>>,
    id: Seq<char>,
    hook_id: Seq<char>,
    now: u128,
)
    ensures
        live_ids(notes, hook_id, now).contains(id) <==> notes.dom().contains(id) && notes[id].hook_id
            == hook_id && now < notes[id].expires_at,
        has_room(notes, hook_id, now) <==> live_ids(notes, hook_id, now).len() < 500,
{
}

/// A note that is created is held with all that it was given; where there is no room for
/// it, nothing changes; and no other note does in any case.
pub proof fn law_creation_is_exact(
    notes: Map<Seq<char>, TempNote<Seq<char>>>,
    id: Seq<char>,
    hook_id: Seq<char>,
    content: Seq<char>,
    ttl: u128,
    now: u128,
    other: Seq<char>,
)
    requires
        now + ttl <= u128::MAX,
        other != id,
    ensures
        ({
            let more = created(notes, id, hook_id, content, ttl, now);
            &&& live_ids(notes, hook_id, now).len() >= 500 ==> more == notes
            &&& live_ids(notes, hook_id, now).len() < 500 ==> {
                &&& more.dom().contains(id)
                &&& more[id].hook_id == hook_id && more[id].content == content
                &&& more[id].expires_at == now + ttl
            }
            &&& more.dom().contains(other) == notes.dom().contains(other)
            &&& more[other] == notes[other]
        }),
{
}

/// A read evicts the reader's own note once its time is up, and nothing else; a sweep
/// evicts every such note, and keeps the others as they are.
pub proof fn law_eviction_is_exact(
    notes: Map<Seq<char>, TempNote<Seq<char>>>,
    id: Seq<char>,
    hook_id: Seq<char>,
    now: u128,
    other: Seq<char>,
)
    ensures
        after_read(notes, id, hook_id, now).dom().contains(other) <==> notes.dom().contains(other)
            && !(other == id && notes[id].hook_id == hook_id && notes[id].expires_at <= now),
        after_read(notes, id, hook_id, now).dom().contains(other) ==> after_read(
            notes,
            id,
            hook_id,
            now,
        )[other] == notes[other],
        unexpired(notes, now).dom().contains(other) <==> notes.dom().contains(other)
            && notes[other].expires_at > now,
        unexpired(notes, now).dom().contains(other) ==> unexpired(notes, now)[other] == notes[other],
{
}

/// A longer request never gives a shorter time to live; the bounds are a minute and
/// thirty days, and a day where nothing is asked for.
pub proof fn law_ttl_grows(a: u64, b: u64)
    requires
        a <= b,
    ensures
        clamped(a) <= clamped(b),
        clamped(0) == 60 * 1_000_000_000,
        clamped(u64::MAX) == 30 * 24 * 3600 * 1_000_000_000,
        DEFAULT_TTL == 24 * 3600 * 1_000_000_000,
{
}

} // verus!
