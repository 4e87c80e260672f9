//! The comment log of a ticket: notes keyed by identifier and kept in the
//! order of their keys, which is the order in which they are shown.

use crate::order::{lemma_filter_drops, lemma_filter_keeps};
use vstd::prelude::*;

verus! {

/// A user's display name.
#[derive(Debug, PartialEq, Eq)]
pub struct Name(pub String);

/// The body of a comment.
#[derive(Debug, PartialEq, Eq)]
pub struct Comment(pub String);

impl View for Name {
    type V = Seq<char>;

    open spec fn view(&self) -> Seq<char> {
        self.0@
    }
}

impl View for Comment {
    type V = Seq<char>;

    open spec fn view(&self) -> Seq<char> {
        self.0@
    }
}

impl Clone for Name {
    fn clone(&self) -> (copy: Name)
        ensures
            copy == *self,
    {
        Name(self.0.clone())
    }
}

impl Clone for Comment {
    fn clone(&self) -> (copy: Comment)
        ensures
            copy == *self,
    {
        Comment(self.0.clone())
    }
}

/// One entry of a comment log: its key, who wrote it, under which name, and
/// what was written.
#[derive(Debug, PartialEq, Eq)]
pub struct Note {
    pub id: u128,
    pub author_id: u128,
    pub author: Name,
    pub body: Comment,
}

/// A [`Note`] with its texts as sequences of characters.
pub ghost struct NoteView {
    pub id: u128,
    pub author_id: u128,
    pub author: Seq<char>,
    pub body: Seq<char>,
}

impl View for Note {
    type V = NoteView;

    open spec fn view(&self) -> NoteView {
        NoteView { id: self.id, author_id: self.author_id, author: self.author@, body: self.body@ }
    }
}

impl Clone for Note {
    fn clone(&self) -> (copy: Note)
        ensures
            copy == *self,
    {
        Note {
            id: self.id,
            author_id: self.author_id,
            author: self.author.clone(),
            body: self.body.clone(),
        }
    }
}

/// The views of a sequence of notes.
pub open spec fn note_views(notes: Seq<Note>) -> Seq<NoteView> {
    notes.map_values(|n: Note| n@)
}

/// Keys grow strictly from each note to the next.
pub open spec fn increasing(s: Seq<NoteView>) -> bool {
    forall|i: int, j: int| 0 <= i < j < s.len() ==> s[i].id < s[j].id
}

/// The notes whose key is smaller than `id`.
pub open spec fn below(id: u128) -> spec_fn(NoteView) -> bool {
    |n: NoteView| n.id < id
}

/// The notes whose key is larger than `id`.
pub open spec fn above(id: u128) -> spec_fn(NoteView) -> bool {
    |n: NoteView| n.id > id
}

/// The keys of a log, in its order.
pub open spec fn keys_of(s: Seq<NoteView>) -> Seq<u128> {
    s.map_values(|n: NoteView| n.id)
}

/// Whether some note of `s` has the key `id`.
pub open spec fn has_key(s: Seq<NoteView>, id: u128) -> bool {
    exists|i: int| 0 <= i < s.len() && s[i].id == id
}

/// The log `s` after `note` was written to it: the notes with smaller keys,
/// then `note`, then the notes with larger keys. A note that had the same key
/// is replaced.
pub open spec fn inserted(s: Seq<NoteView>, note: NoteView) -> Seq<NoteView> {
    s.filter(below(note.id)).push(note) + s.filter(above(note.id))
}

/// In a log with growing keys, the notes below a key are a prefix and those
/// above it a suffix.
pub proof fn lemma_split_at(s: Seq<NoteView>, id: u128, pos: int)
    requires
        increasing(s),
        0 <= pos <= s.len(),
        forall|j: int| 0 <= j < pos ==> s[j].id < id,
        pos < s.len() ==> s[pos].id >= id,
    ensures
        s.filter(below(id)) == s.take(pos),
        s.filter(above(id)) == s.skip(
            if pos < s.len() && s[pos].id == id {
                pos + 1
            } else {
                pos
            },
        ),
{
    let rest = if pos < s.len() && s[pos].id == id {
        pos + 1
    } else {
        pos
    };
    let head = s.take(pos);
    let mid = s.subrange(pos, rest);
    let tail = s.skip(rest);
    assert(s =~= head + (mid + tail));
    assert forall|i: int| 0 <= i < tail.len() implies above(id)(tail[i]) && !below(id)(tail[i]) by {
        assert(tail[i] == s[rest + i]);
        if pos < s.len() && rest + i > pos {
            assert(s[pos].id < s[rest + i].id);
        }
    }
    assert forall|i: int| 0 <= i < mid.len() implies !above(id)(mid[i]) && !below(id)(mid[i]) by {
        assert(mid[i] == s[pos + i]);
    }
    assert forall|i: int| 0 <= i < head.len() implies below(id)(head[i]) && !above(id)(head[i]) by {
        assert(head[i] == s[i]);
    }
    lemma_filter_keeps(head, below(id));
    lemma_filter_drops(head, above(id));
    lemma_filter_drops(mid, below(id));
    lemma_filter_drops(mid, above(id));
    lemma_filter_drops(tail, below(id));
    lemma_filter_keeps(tail, above(id));
    Seq::filter_distributes_over_add(head, mid + tail, below(id));
    Seq::filter_distributes_over_add(mid, tail, below(id));
    Seq::filter_distributes_over_add(head, mid + tail, above(id));
    Seq::filter_distributes_over_add(mid, tail, above(id));
    assert(s.filter(below(id)) =~= head);
    assert(s.filter(above(id)) =~= tail);
}

/// Writing a note to a log with growing keys leaves the keys growing.
pub proof fn lemma_inserted_increasing(s: Seq<NoteView>, note: NoteView)
    requires
        increasing(s),
    ensures
        increasing(inserted(s, note)),
{
    let lo = s.filter(below(note.id));
    let out = inserted(s, note);
    assert forall|i: int, j: int| 0 <= i < j < out.len() implies out[i].id < out[j].id by {
        lemma_filter_sorted(s, below(note.id));
        lemma_filter_sorted(s, above(note.id));
        if i < lo.len() {
            s.lemma_filter_pred(below(note.id), i);
        }
        if j > lo.len() {
            s.lemma_filter_pred(above(note.id), j - lo.len() - 1);
        }
    }
}

/// Writing a note under a key that a log with growing keys does not hold
/// yet makes the log one note longer and loses none of its notes.
pub proof fn lemma_inserted_is_one_more(s: Seq<NoteView>, note: NoteView)
    requires
        increasing(s),
        !has_key(s, note.id),
    ensures
        inserted(s, note).len() == s.len() + 1,
        has_key(inserted(s, note), note.id),
        forall|i: int| 0 <= i < s.len() ==> inserted(s, note).contains(#[trigger] s[i]),
        forall|i: int|
            0 <= i < inserted(s, note).len() ==> (#[trigger] inserted(s, note)[i]) == note
                || s.contains(inserted(s, note)[i]),
{
    let pos = rank(s, note.id);
    lemma_rank(s, note.id);
    lemma_split_at(s, note.id, pos);
    let out = inserted(s, note);
    assert(out =~= s.take(pos).push(note) + s.skip(pos));
    assert(out[pos].id == note.id);
    assert forall|i: int| 0 <= i < s.len() implies out.contains(#[trigger] s[i]) by {
        if i < pos {
            assert(out[i] == s[i]);
        } else {
            assert(out[i + 1] == s[i]);
        }
    }
    assert forall|i: int| 0 <= i < out.len() implies (#[trigger] out[i]) == note || s.contains(
        out[i],
    ) by {
        if i < pos {
            assert(out[i] == s[i]);
        } else if i > pos {
            assert(out[i] == s[i - 1]);
        }
    }
}

/// How many notes of `s` come before the first whose key is not below `id`.
pub open spec fn rank(s: Seq<NoteView>, id: u128) -> int
    decreases s.len(),
{
    if s.len() == 0 || s[0].id >= id {
        0
    } else {
        1 + rank(s.drop_first(), id)
    }
}

/// `rank` is the place where the keys stop being below `id`.
pub proof fn lemma_rank(s: Seq<NoteView>, id: u128)
    ensures
        0 <= rank(s, id) <= s.len(),
        forall|j: int| 0 <= j < rank(s, id) ==> s[j].id < id,
        rank(s, id) < s.len() ==> s[rank(s, id)].id >= id,
    decreases s.len(),
{
    if s.len() > 0 && s[0].id < id {
        let rest = s.drop_first();
        lemma_rank(rest, id);
        assert forall|j: int| 0 <= j < rank(s, id) implies s[j].id < id by {
            if j > 0 {
                assert(s[j] == rest[j - 1]);
            }
        }
        if rank(s, id) < s.len() {
            assert(s[rank(s, id)] == rest[rank(rest, id)]);
        }
    }
}

/// Filtering keeps growing keys growing.
pub proof fn lemma_filter_sorted(s: Seq<NoteView>, pred: spec_fn(NoteView) -> bool)
    requires
        increasing(s),
    ensures
        increasing(s.filter(pred)),
        forall|i: int|
            0 <= i < s.filter(pred).len() ==> exists|j: int|
                0 <= j < s.len() && s[j] == #[trigger] s.filter(pred)[i],
        s.len() > 0 ==> forall|i: int|
            0 <= i < s.filter(pred).len() ==> (#[trigger] s.filter(pred)[i]).id <= s.last().id,
    decreases s.len(),
{
    reveal(Seq::filter);
    if s.len() > 0 {
        let init = s.drop_last();
        lemma_filter_sorted(init, pred);
        let sub = init.filter(pred);
        assert forall|i: int| 0 <= i < sub.len() implies (#[trigger] sub[i]).id < s.last().id by {
            let j = choose|j: int| 0 <= j < init.len() && init[j] == sub[i];
            assert(s[j] == init[j]);
        }
        assert forall|i: int| 0 <= i < s.filter(pred).len() implies exists|j: int|
            0 <= j < s.len() && s[j] == #[trigger] s.filter(pred)[i] by {
            if i < sub.len() {
                let j = choose|j: int| 0 <= j < init.len() && init[j] == sub[i];
                assert(s[j] == init[j]);
            } else {
                assert(s[s.len() - 1] == s.filter(pred)[i]);
            }
        }
    }
}

/// A comment log: notes with pairwise different keys, in the order of the keys.
#[derive(Debug, PartialEq, Eq)]
pub struct Comments {
    entries: Vec<Note>,
}

impl View for Comments {
    type V = Seq<NoteView>;

    closed spec fn view(&self) -> Seq<NoteView> {
        note_views(self.entries@)
    }
}

impl Clone for Comments {
    fn clone(&self) -> (copy: Comments)
        ensures
            copy@ == self@,
    {
        proof {
            use_type_invariant(self);
        }
        let mut entries: Vec<Note> = Vec::new();
        let mut i: usize = 0;
        while i < self.entries.len()
            invariant
                i <= self.entries.len(),
                entries@ == self.entries@.take(i as int),
            decreases self.entries.len() - i,
        {
            entries.push(self.entries[i].clone());
            assert(self.entries@.take(i + 1) =~= self.entries@.take(i as int).push(
                self.entries@[i as int],
            ));
            i += 1;
        }
        assert(self.entries@.take(self.entries.len() as int) =~= self.entries@);
        Comments { entries }
    }
}

impl Comments {
    #[verifier::type_invariant]
    closed spec fn ordered(&self) -> bool {
        increasing(note_views(self.entries@))
    }

    /// The empty log.
    pub fn new() -> (log: Comments)
        ensures
            log@ == Seq::<NoteView>::empty(),
    {
        let log = Comments { entries: Vec::new() };
        assert(log@ =~= Seq::<NoteView>::empty());
        log
    }

    /// How many notes the log holds. Their keys grow from each to the next.
    pub fn len(&self) -> (n: usize)
        ensures
            n == self@.len(),
            increasing(self@),
    {
        proof {
            use_type_invariant(self);
        }
        self.entries.len()
    }

    /// Whether the log holds no note.
    pub fn is_empty(&self) -> (b: bool)
        ensures
            b == (self@.len() == 0),
    {
        self.entries.len() == 0
    }

    /// The note at position `i` in the order of the keys.
    pub fn get(&self, i: usize) -> (note: &Note)
        requires
            i < self@.len(),
        ensures
            note@ == self@[i as int],
            increasing(self@),
    {
        proof {
            use_type_invariant(self);
        }
        &self.entries[i]
    }

    /// The keys of the log in the order in which its notes are gone through:
    /// each key is larger than the one before it.
    pub fn keys(&self) -> (keys: Vec<u128>)
        ensures
            keys@ == keys_of(self@),
            forall|i: int, j: int| 0 <= i < j < keys.len() ==> keys@[i] < keys@[j],
    {
        proof {
            use_type_invariant(self);
        }
        let mut keys: Vec<u128> = Vec::new();
        let mut i: usize = 0;
        while i < self.entries.len()
            invariant
                i <= self.entries.len(),
                keys.len() == i,
                forall|j: int| 0 <= j < i ==> keys@[j] == self@[j].id,
            decreases self.entries.len() - i,
        {
            keys.push(self.entries[i].id);
            i += 1;
        }
        assert(keys@ =~= keys_of(self@));
        keys
    }

    /// The position of the note with key `id`, if the log holds one.
    pub fn position(&self, id: u128) -> (at: Option<usize>)
        ensures
            match at {
                Some(i) => i < self@.len() && self@[i as int].id == id,
                None => !has_key(self@, id),
            },
    {
        let mut i: usize = 0;
        while i < self.entries.len()
            invariant
                i <= self.entries.len(),
                forall|j: int| 0 <= j < i ==> self@[j].id != id,
            decreases self.entries.len() - i,
        {
            if self.entries[i].id == id {
                return Some(i);
            }
            i += 1;
        }
        None
    }

    /// Writes `note` to the log, in the place of its key. A note that had the
    /// same key is replaced; every other note stays.
    pub fn insert(&mut self, note: Note)
        ensures
            final(self)@ == inserted(old(self)@, note@),
            increasing(final(self)@),
    {
        proof {
            use_type_invariant(&*self);
        }
        let ghost before = self@;
        let mut entries: Vec<Note> = Vec::new();
        core::mem::swap(&mut self.entries, &mut entries);
        let mut i: usize = 0;
        while i < entries.len() && entries[i].id < note.id
            invariant
                i <= entries.len(),
                note_views(entries@) == before,
                forall|j: int| 0 <= j < i ==> before[j].id < note.id,
            decreases entries.len() - i,
        {
            i += 1;
        }
        proof {
            lemma_split_at(before, note.id, i as int);
            lemma_inserted_increasing(before, note@);
        }
        if i < entries.len() && entries[i].id == note.id {
            let ghost after = before.take(i as int).push(note@) + before.skip(i + 1);
            assert(note_views(entries@.update(i as int, note)) =~= after);
            entries.set(i, note);
        } else {
            let ghost after = before.take(i as int).push(note@) + before.skip(i as int);
            assert(note_views(entries@.insert(i as int, note)) =~= after);
            entries.insert(i, note);
        }
        self.entries = entries;
    }
}

} // verus!
