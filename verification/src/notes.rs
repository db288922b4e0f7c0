//! Free-text notes, cleaned of unsafe markup before they are shown.
//!
//! Cleaning is left to the `ammonia` crate. It is not cheap, and the same few
//! notes come again and again, so what cleaning made of a note is remembered.
//! The memory is bounded: once it holds more than a fixed number of notes,
//! the older half of that number is forgotten.

use crate::text::owned_text_of;
use crate::dash::{
    cleaned_notes, cleaned_notes_get, cleaned_notes_insert, cleaned_notes_new,
    cleaned_notes_remove,
};
use dashmap::DashMap;
use foldhash::fast::RandomState;
use std::collections::VecDeque;
use vstd::prelude::*;

verus! {

/// Notes remembered before the older ones are forgotten.
pub const AMMONIA_FILTERED_KEYS_LIMIT: usize = 8192;

/// What `ammonia` makes of a note with its default settings.
pub uninterp spec fn sanitized(note: Seq<char>) -> Seq<char>;

/// `ammonia::clean`: parses the note as an HTML fragment, removes what the
/// default settings do not allow, and writes the rest out again. The result
/// depends on the note alone.
#[verifier::external_body]
fn ammonia_clean(note: &str) -> (clean: String)
    ensures
        clean@ == sanitized(note@),
{
    ammonia::clean(note)
}

/// The answer for a note: the cleaned text, or `None` if cleaning leaves the
/// note as it is.
pub open spec fn filtered(note: Seq<char>) -> Option<Seq<char>> {
    if sanitized(note) == note {
        None
    } else {
        Some(sanitized(note))
    }
}

/// The characters of each string of a queue.
pub open spec fn key_views(keys: Seq<String>) -> Seq<Seq<char>> {
    keys.map_values(|key: String| key@)
}

/// The memory as a value.
pub struct NotesState {
    /// The answers remembered, by note.
    pub cache: Map<Seq<char>, Option<Seq<char>>>,
    /// The notes remembered, the latest first.
    pub keys: Seq<Seq<char>>,
}

impl NotesState {
    /// The memory that holds nothing.
    pub open spec fn empty() -> NotesState {
        NotesState { cache: Map::empty(), keys: Seq::empty() }
    }

    /// Every answer remembered is the right one, and the notes remembered
    /// are those of the queue, each once.
    pub open spec fn sound(self) -> bool {
        &&& forall|note: Seq<char>| #[trigger]
            self.cache.contains_key(note) ==> self.cache[note] == filtered(note)
        &&& self.keys.no_duplicates()
        &&& self.keys.to_set() == self.cache.dom()
    }

    /// The memory is sound and within its bound.
    pub open spec fn wf(self) -> bool {
        self.sound() && self.keys.len() <= AMMONIA_FILTERED_KEYS_LIMIT
    }

    /// Forgets the `n` oldest notes.
    pub open spec fn forget_oldest(self, n: nat) -> NotesState
        decreases n,
    {
        if n == 0 || self.keys.len() == 0 {
            self
        } else {
            (NotesState {
                cache: self.cache.remove(self.keys.last()),
                keys: self.keys.drop_last(),
            }).forget_oldest((n - 1) as nat)
        }
    }

    /// The memory after a note was asked for. A note that is remembered
    /// changes nothing. A new one is remembered; if that makes more than the
    /// limit, the older half of the limit is forgotten.
    pub open spec fn get_filtered_note(self, note: Seq<char>) -> NotesState {
        if self.cache.contains_key(note) {
            self
        } else {
            let grown = NotesState {
                cache: self.cache.insert(note, filtered(note)),
                keys: seq![note] + self.keys,
            };
            if grown.keys.len() > AMMONIA_FILTERED_KEYS_LIMIT {
                grown.forget_oldest((AMMONIA_FILTERED_KEYS_LIMIT / 2) as nat)
            } else {
                grown
            }
        }
    }
}

/// The memory that holds nothing is sound and within its bound.
pub proof fn empty_memory_is_sound()
    ensures
        NotesState::empty().wf(),
{
    assert(NotesState::empty().keys.to_set() =~= NotesState::empty().cache.dom());
}

/// Forgetting keeps the memory well formed, and shortens it by what was
/// asked, as far as there is anything to forget.
pub proof fn forgetting_keeps_order(state: NotesState, n: nat)
    requires
        state.sound(),
    ensures
        state.forget_oldest(n).sound(),
        state.forget_oldest(n).keys.len() == (if n <= state.keys.len() {
            state.keys.len() - n
        } else {
            0
        }),
        state.forget_oldest(n).keys == state.keys.take(state.forget_oldest(n).keys.len() as int),
    decreases n,
{
    if n == 0 || state.keys.len() == 0 {
        assert(state.keys.take(state.keys.len() as int) =~= state.keys);
    } else {
        let next = NotesState {
            cache: state.cache.remove(state.keys.last()),
            keys: state.keys.drop_last(),
        };
        shorter_by_one(state);
        forgetting_keeps_order(next, (n - 1) as nat);
        let last = state.forget_oldest(n);
        assert(next.keys.take(last.keys.len() as int) =~= state.keys.take(last.keys.len() as int));
    }
}

/// Dropping the oldest note from both the queue and the answers keeps the
/// memory well formed.
proof fn shorter_by_one(state: NotesState)
    requires
        state.sound(),
        state.keys.len() > 0,
    ensures
        (NotesState {
            cache: state.cache.remove(state.keys.last()),
            keys: state.keys.drop_last(),
        }).sound(),
{
    let oldest = state.keys.last();
    let keys = state.keys.drop_last();
    let cache = state.cache.remove(oldest);
    assert(keys.no_duplicates());
    assert forall|note: Seq<char>| keys.to_set().contains(note) <==> cache.dom().contains(
        note,
    ) by {
        if keys.to_set().contains(note) {
            let i = choose|i: int| 0 <= i < keys.len() && keys[i] == note;
            assert(state.keys[i] == note);
            assert(state.keys.to_set().contains(note));
            assert(state.keys[state.keys.len() - 1] == oldest);
            assert(note != oldest);
        }
        if cache.dom().contains(note) {
            assert(state.keys.to_set().contains(note));
            let i = choose|i: int| 0 <= i < state.keys.len() && state.keys[i] == note;
            assert(i < state.keys.len() - 1);
            assert(keys[i] == note);
        }
    }
    assert(keys.to_set() =~= cache.dom());
}

/// Remembering a note that was not remembered keeps the memory well formed.
proof fn longer_by_one(state: NotesState, note: Seq<char>)
    requires
        state.sound(),
        !state.cache.contains_key(note),
    ensures
        (NotesState {
            cache: state.cache.insert(note, filtered(note)),
            keys: seq![note] + state.keys,
        }).sound(),
{
    let keys = seq![note] + state.keys;
    let cache = state.cache.insert(note, filtered(note));
    assert forall|i: int, j: int| 0 <= i < keys.len() && 0 <= j < keys.len() && i != j implies keys[i]
        != keys[j] by {
        if i > 0 {
            assert(keys[i] == state.keys[i - 1]);
            assert(state.keys.to_set().contains(state.keys[i - 1]));
        }
        if j > 0 {
            assert(keys[j] == state.keys[j - 1]);
            assert(state.keys.to_set().contains(state.keys[j - 1]));
        }
    }
    assert forall|other: Seq<char>| keys.to_set().contains(other) <==> cache.dom().contains(
        other,
    ) by {
        if keys.to_set().contains(other) {
            let i = choose|i: int| 0 <= i < keys.len() && keys[i] == other;
            if i > 0 {
                assert(state.keys[i - 1] == other);
                assert(state.keys.to_set().contains(other));
            }
        }
        if cache.dom().contains(other) {
            if other == note {
                assert(keys[0] == other);
            } else {
                assert(state.keys.to_set().contains(other));
                let i = choose|i: int| 0 <= i < state.keys.len() && state.keys[i] == other;
                assert(keys[i + 1] == other);
            }
        }
    }
    assert(keys.to_set() =~= cache.dom());
}

/// Asking keeps the memory well formed and within its bound: it never holds
/// more notes than the limit.
pub proof fn memory_stays_bounded(state: NotesState, note: Seq<char>)
    requires
        state.wf(),
    ensures
        state.get_filtered_note(note).wf(),
        state.get_filtered_note(note).cache.dom().finite(),
        state.get_filtered_note(note).cache.dom().len() == state.get_filtered_note(
            note,
        ).keys.len(),
{
    let after = state.get_filtered_note(note);
    if !state.cache.contains_key(note) {
        longer_by_one(state, note);
        let grown = NotesState {
            cache: state.cache.insert(note, filtered(note)),
            keys: seq![note] + state.keys,
        };
        if grown.keys.len() > AMMONIA_FILTERED_KEYS_LIMIT {
            forgetting_keeps_order(grown, (AMMONIA_FILTERED_KEYS_LIMIT / 2) as nat);
        }
    }
    after.keys.unique_seq_to_set();
}

/// The two collections of the memory: the answers by note, and the notes in
/// the order in which they were remembered.
struct Memory {
    cache: DashMap<String, Option<String>, RandomState>,
    keys: VecDeque<String>,
}

impl View for Memory {
    type V = NotesState;

    closed spec fn view(&self) -> NotesState {
        NotesState { cache: cleaned_notes(self.cache), keys: key_views(self.keys@) }
    }
}

impl Memory {
    /// A memory that holds nothing.
    fn new() -> (filter: Memory)
        ensures
            filter@.wf(),
            filter@ == NotesState::empty(),
    {
        let filter = Memory { cache: cleaned_notes_new(), keys: VecDeque::new() };
        assert(key_views(filter.keys@) =~= Seq::empty());
        assert(filter@.keys.to_set() =~= filter@.cache.dom());
        filter
    }

    /// Cleans a note, or recalls what cleaning made of it.
    fn get_filtered_note(&mut self, note: &str) -> (clean: Option<String>)
        requires
            old(self)@.wf(),
        ensures
            final(self)@.wf(),
            owned_text_of(clean) == filtered(note@),
            final(self)@ == old(self)@.get_filtered_note(note@),
    {
        match cleaned_notes_get(&self.cache, note) {
            Some(remembered) => remembered,
            None => {
                let text: String = ammonia_clean(note);
                let clean: Option<String> = if crate::text::same_text(text.as_str(), note) {
                    None
                } else {
                    Some(text)
                };
                let answer: Option<String> = match &clean {
                    Some(text) => Some(text.clone()),
                    None => None,
                };
                cleaned_notes_insert(&mut self.cache, note.to_owned(), answer);
                self.keys.push_front(note.to_owned());
                assert(key_views(self.keys@) =~= seq![note@] + old(self)@.keys);
                proof {
                    longer_by_one(old(self)@, note@);
                    memory_stays_bounded(old(self)@, note@);
                }
                if self.keys.len() > AMMONIA_FILTERED_KEYS_LIMIT {
                    self.forget(AMMONIA_FILTERED_KEYS_LIMIT / 2);
                }
                clean
            },
        }
    }

    /// Forgets the `n` oldest notes.
    fn forget(&mut self, n: usize)
        requires
            old(self)@.sound(),
        ensures
            final(self)@.sound(),
            final(self)@ == old(self)@.forget_oldest(n as nat),
    {
        let mut left: usize = n;
        while left > 0
            invariant
                self@.sound(),
                self@.forget_oldest(left as nat) == old(self)@.forget_oldest(n as nat),
            decreases left,
        {
            let ghost before = self@;
            match self.keys.pop_back() {
                None => {
                    assert(before.keys.len() == 0);
                    left = 0;
                },
                Some(oldest) => {
                    cleaned_notes_remove(&mut self.cache, oldest.as_str());
                    proof {
                        assert(before.keys.last() == oldest@);
                        assert(self@.keys =~= before.keys.drop_last());
                        assert(self@.cache == before.cache.remove(before.keys.last()));
                        shorter_by_one(before);
                    }
                    left -= 1;
                },
            }
        }
    }

    /// The number of notes remembered.
    fn len(&self) -> (len: usize)
        ensures
            len == self@.keys.len(),
    {
        self.keys.len()
    }
}

/// The notes and what cleaning made of them. Whatever is remembered is
/// right, and no more is remembered than the limit allows: the type keeps
/// both, so that callers have nothing to show.
pub struct NoteFilter {
    memory: Option<Memory>,
}

impl View for NoteFilter {
    type V = NotesState;

    closed spec fn view(&self) -> NotesState {
        match self.memory {
            Some(memory) => memory@,
            None => NotesState::empty(),
        }
    }
}

impl NoteFilter {
    /// What is remembered is sound and within its bound.
    #[verifier::type_invariant]
    spec fn memory_is_sound(&self) -> bool {
        self@.wf()
    }

    /// A memory that holds nothing.
    pub fn new() -> (filter: NoteFilter)
        ensures
            filter@ == NotesState::empty(),
    {
        NoteFilter { memory: Some(Memory::new()) }
    }

    /// Cleans a note. `None` says that the note is clean as it stands;
    /// otherwise the cleaned text comes back. What is remembered never
    /// changes the answer.
    pub fn get_filtered_note(&mut self, note: &str) -> (clean: Option<String>)
        ensures
            owned_text_of(clean) == filtered(note@),
            final(self)@ == old(self)@.get_filtered_note(note@),
            final(self)@.wf(),
    {
        proof {
            use_type_invariant(&*self);
            empty_memory_is_sound();
        }
        let mut slot: Option<Memory> = None;
        std::mem::swap(&mut self.memory, &mut slot);
        let mut memory: Memory = match slot {
            Some(memory) => memory,
            None => Memory::new(),
        };
        let clean: Option<String> = memory.get_filtered_note(note);
        let mut slot: Option<Memory> = Some(memory);
        std::mem::swap(&mut self.memory, &mut slot);
        clean
    }

    /// The number of notes remembered, which is never above the limit.
    pub fn len(&self) -> (len: usize)
        ensures
            len == self@.keys.len(),
            len <= AMMONIA_FILTERED_KEYS_LIMIT,
    {
        proof {
            use_type_invariant(self);
        }
        match &self.memory {
            Some(memory) => memory.len(),
            None => 0,
        }
    }
}

} // verus!
