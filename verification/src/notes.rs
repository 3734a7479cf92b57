//! The `Note` record and the `Index`: a name-sorted, name-unique collection
//! of notes.
//!
//! A note's identity within an index is its name alone; the index keeps its
//! notes strictly sorted by name, which both enforces uniqueness and fixes
//! the iteration order.

use vstd::prelude::*;
use vstd::string::StringExecFns;

use crate::errors::CmdError;
use crate::order::{
    lex_lt, lemma_lex_lt_asym, lemma_lex_lt_connex, lemma_lex_lt_irrefl, lemma_lex_lt_trans,
    str_eq, str_lt,
};

verus! {

/// Data that points to and uniquely identifies a plaintext file.
#[derive(Debug, Clone)]
pub struct Note {
    /// A unique identifier that is used to refer to the note.
    pub name: String,
    /// An absolute path pointing to the corresponding file.
    pub path: String,
    /// An optional list of strings to enable categorization of notes.
    pub tags: Option<Vec<String>>,
}

/// Whether two notes agree on every field, at the level of the characters
/// they hold.
pub open spec fn note_abs_eq(a: Note, b: Note) -> bool {
    a.name@ == b.name@ && a.path@ == b.path@ && a.tags.deep_view() == b.tags.deep_view()
}

/// The notes are in strictly ascending name order, so no name repeats.
pub open spec fn sorted_by_name(s: Seq<Note>) -> bool {
    forall|i: int, j: int| 0 <= i < j < s.len() ==> lex_lt(s[i].name@, s[j].name@)
}

/// Whether some note in `s` carries the given name.
pub open spec fn contains_name(s: Seq<Note>, name: Seq<char>) -> bool {
    exists|i: int| 0 <= i < s.len() && s[i].name@ == name
}

/// The first note in `s` with the given name, if any.
pub open spec fn spec_lookup(s: Seq<Note>, name: Seq<char>) -> Option<Note>
    decreases s.len(),
{
    if s.len() == 0 {
        None
    } else if s[0].name@ == name {
        Some(s[0])
    } else {
        spec_lookup(s.skip(1), name)
    }
}

/// `s` with `nt` placed at its name-ordered position.
pub open spec fn spec_insert(s: Seq<Note>, nt: Note) -> Seq<Note>
    decreases s.len(),
{
    if s.len() == 0 {
        seq![nt]
    } else if lex_lt(nt.name@, s[0].name@) {
        seq![nt] + s
    } else {
        seq![s[0]] + spec_insert(s.skip(1), nt)
    }
}

/// Copies an optional tag list, preserving its contents.
pub fn clone_tags(tags: &Option<Vec<String>>) -> (r: Option<Vec<String>>)
    ensures
        r.deep_view() == tags.deep_view(),
        r is Some <==> *tags is Some,
{
    match tags {
        Option::None => Option::None,
        Option::Some(v) => {
            let c = v.clone();
            proof {
                assert(c@ =~= v@);
                assert(c.deep_view() =~= v.deep_view());
            }
            Option::Some(c)
        },
    }
}

impl Note {
    /// Creates a note from a name, an already resolved path, and tags.
    ///
    /// Resolving a caller-supplied path to a canonical one is the caller's
    /// part: it takes the file system, which the library never touches.
    pub fn new(name: &str, path: &str, tags: &Option<Vec<String>>) -> (r: Note)
        ensures
            r.name@ == name@,
            r.path@ == path@,
            r.tags.deep_view() == tags.deep_view(),
    {
        Note { name: String::from_str(name), path: String::from_str(path), tags: clone_tags(tags) }
    }

    /// Returns the note's name.
    pub fn name(&self) -> (r: &str)
        ensures
            r@ == self.name@,
    {
        self.name.as_str()
    }

    /// Returns the note's path.
    pub fn path(&self) -> (r: &str)
        ensures
            r@ == self.path@,
    {
        self.path.as_str()
    }

    /// Returns the note's tags: `None` if there are none.
    pub fn tags(&self) -> (r: &Option<Vec<String>>)
        ensures
            *r == self.tags,
    {
        &self.tags
    }
}

/// An index of notes in ascending name order, at most one per name.
#[derive(Debug)]
pub struct Index {
    notes: Vec<Note>,
}

impl View for Index {
    type V = Seq<Note>;

    closed spec fn view(&self) -> Seq<Note> {
        self.notes@
    }
}

impl Index {
    /// The index invariant: strictly sorted by name.
    pub open spec fn wf(self) -> bool {
        sorted_by_name(self@)
    }

    /// Whether a note with the given name is in the index.
    pub open spec fn spec_contains(self, name: Seq<char>) -> bool {
        contains_name(self@, name)
    }

    /// Creates an empty index.
    pub fn new() -> (r: Index)
        ensures
            r@ == Seq::<Note>::empty(),
            r.wf(),
    {
        Index { notes: Vec::new() }
    }

    /// Returns `true` if the index contains a note with the given `name`,
    /// and `false` otherwise.
    pub fn contains(&self, name: &str) -> (r: bool)
        ensures
            r == self.spec_contains(name@),
    {
        let mut i: usize = 0;
        while i < self.notes.len()
            invariant
                i <= self.notes.len(),
                forall|k: int| 0 <= k < i ==> self.notes@[k].name@ != name@,
            decreases self.notes.len() - i,
        {
            if str_eq(self.notes[i].name.as_str(), name) {
                return true;
            }
            i = i + 1;
        }
        false
    }

    /// Returns a reference to the note with the given `name`, if any.
    pub fn get(&self, name: &str) -> (r: Option<&Note>)
        ensures
            match r {
                Some(nt) => spec_lookup(self@, name@) == Some(*nt) && nt.name@ == name@
                    && self.spec_contains(name@),
                None => !self.spec_contains(name@),
            },
    {
        let mut i: usize = 0;
        while i < self.notes.len()
            invariant
                i <= self.notes.len(),
                forall|k: int| 0 <= k < i ==> self.notes@[k].name@ != name@,
            decreases self.notes.len() - i,
        {
            if str_eq(self.notes[i].name.as_str(), name) {
                proof {
                    lemma_lookup_skip(self@, name@, i as int);
                    assert(self@.skip(i as int)[0] == self@[i as int]);
                }
                return Some(&self.notes[i]);
            }
            i = i + 1;
        }
        proof {
            if self.spec_contains(name@) {
                let w = choose|k: int| 0 <= k < self@.len() && self@[k].name@ == name@;
                assert(self@[w].name@ != name@);
            }
        }
        None
    }

    /// Places a note at its sorted position; fails if its name is taken.
    pub fn insert_note(&mut self, nt: Note) -> (r: Result<(), CmdError>)
        requires
            old(self).wf(),
        ensures
            final(self).wf(),
            match r {
                Ok(()) => !old(self).spec_contains(nt.name@) && final(self)@ == spec_insert(
                    old(self)@,
                    nt,
                ) && final(self).spec_contains(nt.name@),
                Err(e) => old(self).spec_contains(nt.name@) && final(self)@ == old(self)@ && (
                e matches CmdError::AlreadyExists(n) && n@ == nt.name@),
            },
    {
        let ghost s = self.notes@;
        let mut i: usize = 0;
        loop
            invariant
                i <= self.notes.len(),
                self.notes@ == s,
                forall|k: int| 0 <= k < i ==> lex_lt(self.notes@[k].name@, nt.name@),
            decreases self.notes.len() - i,
        {
            if i == self.notes.len() {
                break ;
            }
            if !str_lt(self.notes[i].name.as_str(), nt.name.as_str()) {
                break ;
            }
            i = i + 1;
        }
        if i < self.notes.len() && str_eq(self.notes[i].name.as_str(), nt.name.as_str()) {
            return Err(CmdError::AlreadyExists(nt.name));
        }
        proof {
            // No note carries this name: earlier ones are strictly below it,
            // later ones strictly above it.
            if i < s.len() && !lex_lt(nt.name@, s[i as int].name@) {
                // Unordered either way would mean equal names, which the
                // duplicate check just ruled out.
                lemma_lex_lt_connex(nt.name@, s[i as int].name@);
            }
            assert forall|k: int| 0 <= k < s.len() implies s[k].name@ != nt.name@ by {
                if k < i {
                    lemma_lex_lt_asym(s[k].name@, nt.name@);
                } else {
                    if k > i {
                        lemma_lex_lt_trans(nt.name@, s[i as int].name@, s[k].name@);
                    }
                    lemma_lex_lt_asym(nt.name@, s[k].name@);
                }
            }
            lemma_insert_at_position(s, nt, i as int);
            lemma_insert_sorted(s, nt, i as int);
        }
        let ghost inserted = nt;
        self.notes.insert(i, nt);
        proof {
            assert(self.notes@ == s.insert(i as int, inserted));
            assert(contains_name(self.notes@, inserted.name@)) by {
                s.insert_ensures(i as int, inserted);
                assert(self.notes@[i as int] == inserted);
            }
        }
        Ok(())
    }

    /// Creates a note and adds it to the index; fails if the name is taken.
    pub fn add(&mut self, name: &str, path: &str, tags: &Option<Vec<String>>) -> (r: Result<
        (),
        CmdError,
    >)
        requires
            old(self).wf(),
        ensures
            final(self).wf(),
            match r {
                Ok(()) => !old(self).spec_contains(name@) && final(self).spec_contains(name@)
                    && exists|nt: Note|
                    final(self)@ == #[trigger] spec_insert(old(self)@, nt) && nt.name@ == name@
                        && nt.path@ == path@ && nt.tags.deep_view() == tags.deep_view(),
                Err(e) => old(self).spec_contains(name@) && final(self)@ == old(self)@ && (
                e matches CmdError::AlreadyExists(n) && n@ == name@),
            },
    {
        let nt = Note::new(name, path, tags);
        let ghost gnt = nt;
        match self.insert_note(nt) {
            Ok(()) => {
                proof {
                    assert(self@ == spec_insert(old(self)@, gnt));
                }
                Ok(())
            },
            Err(e) => Err(e),
        }
    }

    /// Removes the note with the given `name`; returns whether one existed.
    pub fn remove(&mut self, name: &str) -> (r: bool)
        requires
            old(self).wf(),
        ensures
            final(self).wf(),
            r == old(self).spec_contains(name@),
            !r ==> final(self)@ == old(self)@,
            r ==> exists|k: int|
                0 <= k < old(self)@.len() && old(self)@[k].name@ == name@ && final(self)@ == old(
                    self,
                )@.remove(k),
            !final(self).spec_contains(name@),
    {
        let ghost s = self.notes@;
        let mut i: usize = 0;
        while i < self.notes.len()
            invariant
                i <= self.notes.len(),
                self.notes@ == s,
                forall|k: int| 0 <= k < i ==> self.notes@[k].name@ != name@,
            decreases self.notes.len() - i,
        {
            if str_eq(self.notes[i].name.as_str(), name) {
                self.notes.remove(i);
                proof {
                    s.remove_ensures(i as int);
                    assert(sorted_by_name(s.remove(i as int))) by {
                        assert forall|p: int, q: int|
                            0 <= p < q < s.remove(i as int).len() implies lex_lt(
                            s.remove(i as int)[p].name@,
                            s.remove(i as int)[q].name@,
                        ) by {
                            let p0: int = if p < i { p } else { p + 1 };
                            let q0: int = if q < i { q } else { q + 1 };
                            assert(s.remove(i as int)[p] == s[p0]);
                            assert(s.remove(i as int)[q] == s[q0]);
                        }
                    }
                    // The removed name was unique, so it is gone entirely.
                    assert(!contains_name(s.remove(i as int), name@)) by {
                        assert forall|k: int| 0 <= k < s.len() && k != i implies s[k].name@
                            != name@ by {
                            if k < i {
                                lemma_lex_lt_asym(s[k].name@, s[i as int].name@);
                            } else {
                                lemma_lex_lt_asym(s[i as int].name@, s[k].name@);
                            }
                        }
                        if contains_name(s.remove(i as int), name@) {
                            let w = choose|w: int|
                                0 <= w < s.remove(i as int).len() && s.remove(i as int)[w].name@
                                    == name@;
                            let w0: int = if w < i { w } else { w + 1 };
                            assert(s.remove(i as int)[w] == s[w0]);
                        }
                    }
                }
                return true;
            }
            i = i + 1;
        }
        proof {
            if contains_name(s, name@) {
                let w = choose|k: int| 0 <= k < s.len() && s[k].name@ == name@;
                assert(s[w].name@ != name@);
            }
        }
        false
    }

    /// Returns a reference to the index's notes, in ascending name order.
    pub fn notes(&self) -> (r: &Vec<Note>)
        ensures
            r@ == self@,
    {
        &self.notes
    }
}

/// Whether two optional tag lists hold the same strings in the same order.
pub fn tags_eq(a: &Option<Vec<String>>, b: &Option<Vec<String>>) -> (r: bool)
    ensures
        r == (a.deep_view() == b.deep_view()),
{
    match (a, b) {
        (Option::None, Option::None) => true,
        (Option::Some(x), Option::Some(y)) => {
            if x.len() != y.len() {
                proof {
                    assert(x.deep_view().len() == x@.len());
                    assert(y.deep_view().len() == y@.len());
                }
                return false;
            }
            let mut i: usize = 0;
            while i < x.len()
                invariant
                    i <= x.len(),
                    x.len() == y.len(),
                    forall|k: int| 0 <= k < i ==> x@[k]@ == y@[k]@,
                decreases x.len() - i,
            {
                if !str_eq(x[i].as_str(), y[i].as_str()) {
                    assert(x.deep_view()[i as int] != y.deep_view()[i as int]);
                    return false;
                }
                i = i + 1;
            }
            assert(x.deep_view() =~= y.deep_view());
            true
        },
        _ => false,
    }
}

impl PartialEq for Note {
    /// Note equality is by name alone: two notes with the same name denote
    /// the same entry, whatever their paths or tags.
    fn eq(&self, other: &Self) -> bool {
        str_eq(self.name.as_str(), other.name.as_str())
    }
}

impl vstd::std_specs::cmp::PartialEqSpecImpl for Note {
    open spec fn obeys_eq_spec() -> bool {
        true
    }

    open spec fn eq_spec(&self, other: &Self) -> bool {
        self.name@ == other.name@
    }
}

impl PartialEq for Index {
    /// Index equality is element-wise structural equality of the sorted
    /// notes: same names, same paths, same tag lists.
    fn eq(&self, other: &Self) -> bool {
        if self.notes.len() != other.notes.len() {
            return false;
        }
        let mut i: usize = 0;
        while i < self.notes.len()
            invariant
                i <= self.notes.len(),
                self.notes.len() == other.notes.len(),
                forall|k: int| 0 <= k < i ==> note_abs_eq(self.notes@[k], other.notes@[k]),
            decreases self.notes.len() - i,
        {
            let a = &self.notes[i];
            let b = &other.notes[i];
            if !str_eq(a.name.as_str(), b.name.as_str()) {
                return false;
            }
            if !str_eq(a.path.as_str(), b.path.as_str()) {
                return false;
            }
            if !tags_eq(&a.tags, &b.tags) {
                return false;
            }
            i = i + 1;
        }
        true
    }
}

impl vstd::std_specs::cmp::PartialEqSpecImpl for Index {
    open spec fn obeys_eq_spec() -> bool {
        true
    }

    open spec fn eq_spec(&self, other: &Self) -> bool {
        index_abs_eq(self@, other@)
    }
}

/// Whether two note sequences agree element by element on every field.
pub open spec fn index_abs_eq(a: Seq<Note>, b: Seq<Note>) -> bool {
    a.len() == b.len() && forall|i: int| 0 <= i < a.len() ==> note_abs_eq(a[i], b[i])
}

/// The result of inserting each record in turn into an empty index,
/// skipping any whose name was already taken.
pub open spec fn spec_insert_all(s: Seq<Note>) -> Seq<Note>
    decreases s.len(),
{
    if s.len() == 0 {
        Seq::empty()
    } else {
        let prev = spec_insert_all(s.drop_last());
        if contains_name(prev, s.last().name@) {
            prev
        } else {
            spec_insert(prev, s.last())
        }
    }
}

impl Index {
    /// Rebuilds an index from loaded records, inserting each in turn and
    /// keeping the first record of any repeated name.
    pub fn from_notes(records: Vec<Note>) -> (r: Index)
        ensures
            r.wf(),
            r@ == spec_insert_all(records@),
    {
        let ghost all = records@;
        let mut records = records;
        let mut idx = Index::new();
        proof {
            assert(all.take(0) =~= Seq::<Note>::empty());
        }
        while records.len() > 0
            invariant
                records.len() <= all.len(),
                records@ == all.skip(all.len() - records.len()),
                idx.wf(),
                idx@ == spec_insert_all(all.take(all.len() - records.len())),
            decreases records.len(),
        {
            let ghost k = all.len() - records.len();
            let nt = records.remove(0);
            proof {
                assert(nt == all[k]);
                assert(records@ =~= all.skip(k + 1));
                assert(all.take(k + 1).drop_last() =~= all.take(k));
                assert(all.take(k + 1).last() == all[k]);
            }
            if !idx.contains(nt.name.as_str()) {
                let res = idx.insert_note(nt);
                proof {
                    if res is Err {
                        assert(false);
                    }
                }
            }
        }
        proof {
            assert(all.take(all.len() as int) =~= all);
        }
        idx
    }
}

/// Adding a note and then looking its name up returns that very note,
/// fields and all.
pub proof fn lemma_insert_then_lookup(s: Seq<Note>, nt: Note)
    requires
        sorted_by_name(s),
        !contains_name(s, nt.name@),
    ensures
        spec_lookup(spec_insert(s, nt), nt.name@) == Some(nt),
    decreases s.len(),
{
    if s.len() == 0 {
        let t = spec_insert(s, nt);
        assert(t == seq![nt]);
        assert(t[0] == nt);
    } else if lex_lt(nt.name@, s[0].name@) {
        let t = seq![nt] + s;
        assert(t[0] == nt);
    } else {
        let t = seq![s[0]] + spec_insert(s.skip(1), nt);
        assert(s[0].name@ != nt.name@);
        assert(t[0] == s[0]);
        assert forall|k: int| 0 <= k < s.skip(1).len() implies s.skip(1)[k].name@ != nt.name@ by {
            assert(s.skip(1)[k] == s[k + 1]);
        }
        assert forall|p: int, q: int| 0 <= p < q < s.skip(1).len() implies lex_lt(
            s.skip(1)[p].name@,
            s.skip(1)[q].name@,
        ) by {
            assert(s.skip(1)[p] == s[p + 1]);
            assert(s.skip(1)[q] == s[q + 1]);
        }
        lemma_insert_then_lookup(s.skip(1), nt);
        assert(t.skip(1) =~= spec_insert(s.skip(1), nt));
    }
}

/// A freshly inserted name is contained.
pub proof fn lemma_insert_contains(s: Seq<Note>, nt: Note)
    ensures
        contains_name(spec_insert(s, nt), nt.name@),
    decreases s.len(),
{
    if s.len() == 0 {
        assert(spec_insert(s, nt)[0] == nt);
    } else if lex_lt(nt.name@, s[0].name@) {
        assert((seq![nt] + s)[0] == nt);
    } else {
        lemma_insert_contains(s.skip(1), nt);
        let w = choose|w: int|
            0 <= w < spec_insert(s.skip(1), nt).len() && spec_insert(s.skip(1), nt)[w].name@
                == nt.name@;
        assert((seq![s[0]] + spec_insert(s.skip(1), nt))[w + 1].name@ == nt.name@);
    }
}

/// A note sequence seen as a set.
pub open spec fn note_set(s: Seq<Note>) -> Set<Note> {
    Set::new(|nt: Note| s.contains(nt))
}

/// Two sorted note sequences holding the same set of notes are the same
/// sequence: an index is determined by its contents alone, not by the
/// order in which they were inserted.
pub proof fn lemma_sorted_unique(a: Seq<Note>, b: Seq<Note>)
    requires
        sorted_by_name(a),
        sorted_by_name(b),
        note_set(a) == note_set(b),
    ensures
        a == b,
    decreases a.len(),
{
    if a.len() == 0 {
        if b.len() > 0 {
            assert(b.contains(b[0]));
            assert(note_set(b).contains(b[0]));
            assert(a.contains(b[0]));
        }
        assert(a =~= b);
    } else {
        assert(a.contains(a[0]));
        assert(note_set(a).contains(a[0]));
        assert(b.contains(a[0]));
        if b.len() == 0 {
            assert(false);
        }
        assert(b.contains(b[0]));
        assert(note_set(b).contains(b[0]));
        assert(a.contains(b[0]));
        let j = choose|j: int| 0 <= j < b.len() && b[j] == a[0];
        let i = choose|i: int| 0 <= i < a.len() && a[i] == b[0];
        if j > 0 && i > 0 {
            lemma_lex_lt_asym(b[0].name@, b[j].name@);
            assert(lex_lt(a[0].name@, a[i].name@));
        }
        assert(a[0] == b[0]);
        assert forall|x: Note| a.skip(1).contains(x) == b.skip(1).contains(x) by {
            lemma_tail_contains(a, x);
            lemma_tail_contains(b, x);
            assert(note_set(a).contains(x) == a.contains(x));
            assert(note_set(b).contains(x) == b.contains(x));
            assert(a.contains(x) == b.contains(x));
        }
        assert(note_set(a.skip(1)) =~= note_set(b.skip(1)));
        assert forall|p: int, q: int| 0 <= p < q < a.skip(1).len() implies lex_lt(
            a.skip(1)[p].name@,
            a.skip(1)[q].name@,
        ) by {
            assert(a.skip(1)[p] == a[p + 1]);
            assert(a.skip(1)[q] == a[q + 1]);
        }
        assert forall|p: int, q: int| 0 <= p < q < b.skip(1).len() implies lex_lt(
            b.skip(1)[p].name@,
            b.skip(1)[q].name@,
        ) by {
            assert(b.skip(1)[p] == b[p + 1]);
            assert(b.skip(1)[q] == b[q + 1]);
        }
        lemma_sorted_unique(a.skip(1), b.skip(1));
        assert forall|k: int| 0 <= k < a.len() implies a[k] == b[k] by {
            if k > 0 {
                assert(a[k] == a.skip(1)[k - 1]);
                assert(b[k] == b.skip(1)[k - 1]);
            }
        }
        assert(a =~= b);
    }
}

/// In a sorted sequence, the tail holds exactly the elements other than
/// the head.
proof fn lemma_tail_contains(s: Seq<Note>, x: Note)
    requires
        sorted_by_name(s),
        s.len() > 0,
    ensures
        s.skip(1).contains(x) == (s.contains(x) && x != s[0]),
{
    if s.skip(1).contains(x) {
        let k = choose|k: int| 0 <= k < s.skip(1).len() && s.skip(1)[k] == x;
        assert(s.skip(1)[k] == s[k + 1]);
        assert(s.contains(x));
        assert(lex_lt(s[0].name@, s[k + 1].name@));
        if x == s[0] {
            lemma_lex_lt_irrefl(s[0].name@);
        }
    }
    if s.contains(x) && x != s[0] {
        let k = choose|k: int| 0 <= k < s.len() && s[k] == x;
        assert(k > 0);
        assert(s.skip(1)[k - 1] == x);
        assert(s.skip(1).contains(x));
    }
}

/// An index is determined by the set of notes it contains.
pub proof fn lemma_index_determined_by_contents(a: Index, b: Index)
    requires
        a.wf(),
        b.wf(),
        note_set(a@) == note_set(b@),
    ensures
        a@ == b@,
{
    lemma_sorted_unique(a@, b@);
}

/// Storing a well-formed index as its record sequence and rebuilding an
/// index from those records gives the original back, note for note.
pub proof fn lemma_notes_round_trip(s: Seq<Note>)
    requires
        sorted_by_name(s),
    ensures
        spec_insert_all(s) == s,
    decreases s.len(),
{
    if s.len() > 0 {
        let init = s.drop_last();
        let last = s.last();
        assert forall|p: int, q: int| 0 <= p < q < init.len() implies lex_lt(
            init[p].name@,
            init[q].name@,
        ) by {
            assert(init[p] == s[p]);
            assert(init[q] == s[q]);
        }
        lemma_notes_round_trip(init);
        assert(!contains_name(init, last.name@)) by {
            if contains_name(init, last.name@) {
                let w = choose|w: int| 0 <= w < init.len() && init[w].name@ == last.name@;
                assert(init[w] == s[w]);
                assert(lex_lt(s[w].name@, last.name@));
                lemma_lex_lt_irrefl(last.name@);
            }
        }
        lemma_insert_at_position(init, last, init.len() as int);
        assert(init.insert(init.len() as int, last) =~= s);
    }
}

/// Rebuilding an index from its own notes changes nothing.
pub proof fn lemma_index_round_trip(ix: Index)
    requires
        ix.wf(),
    ensures
        spec_insert_all(ix@) == ix@,
{
    lemma_notes_round_trip(ix@);
}

/// Looking a name up below the first `i` notes, none of which carry it,
/// looks it up in the rest.
proof fn lemma_lookup_skip(s: Seq<Note>, name: Seq<char>, i: int)
    requires
        0 <= i <= s.len(),
        forall|k: int| 0 <= k < i ==> s[k].name@ != name,
    ensures
        spec_lookup(s, name) == spec_lookup(s.skip(i), name),
    decreases i,
{
    if i > 0 {
        assert forall|k: int| 0 <= k < i - 1 implies s.skip(1)[k].name@ != name by {
            assert(s.skip(1)[k] == s[k + 1]);
        }
        lemma_lookup_skip(s.skip(1), name, i - 1);
        assert(s.skip(1).skip(i - 1) =~= s.skip(i));
    } else {
        assert(s.skip(0) =~= s);
    }
}

/// Inserting a note whose name falls between positions `i - 1` and `i`
/// places it exactly at position `i`.
proof fn lemma_insert_at_position(s: Seq<Note>, nt: Note, i: int)
    requires
        sorted_by_name(s),
        0 <= i <= s.len(),
        forall|k: int| 0 <= k < i ==> lex_lt(s[k].name@, nt.name@),
        i < s.len() ==> lex_lt(nt.name@, s[i].name@),
    ensures
        spec_insert(s, nt) == s.insert(i, nt),
    decreases s.len(),
{
    if s.len() == 0 {
        assert(spec_insert(s, nt) =~= s.insert(0, nt));
    } else if i == 0 {
        assert(spec_insert(s, nt) == seq![nt] + s);
        assert(seq![nt] + s =~= s.insert(0, nt));
    } else {
        lemma_lex_lt_asym(s[0].name@, nt.name@);
        assert(!lex_lt(nt.name@, s[0].name@));
        assert forall|k: int| 0 <= k < i - 1 implies lex_lt(s.skip(1)[k].name@, nt.name@) by {
            assert(s.skip(1)[k] == s[k + 1]);
        }
        assert forall|p: int, q: int| 0 <= p < q < s.skip(1).len() implies lex_lt(
            s.skip(1)[p].name@,
            s.skip(1)[q].name@,
        ) by {
            assert(s.skip(1)[p] == s[p + 1]);
            assert(s.skip(1)[q] == s[q + 1]);
        }
        if i - 1 < s.skip(1).len() {
            assert(s.skip(1)[i - 1] == s[i]);
        }
        lemma_insert_at_position(s.skip(1), nt, i - 1);
        assert(seq![s[0]] + s.skip(1).insert(i - 1, nt) =~= s.insert(i, nt));
    }
}

/// Inserting between positions `i - 1` and `i` keeps the index sorted.
proof fn lemma_insert_sorted(s: Seq<Note>, nt: Note, i: int)
    requires
        sorted_by_name(s),
        0 <= i <= s.len(),
        forall|k: int| 0 <= k < i ==> lex_lt(s[k].name@, nt.name@),
        i < s.len() ==> lex_lt(nt.name@, s[i].name@),
    ensures
        sorted_by_name(s.insert(i, nt)),
{
    s.insert_ensures(i, nt);
    let t = s.insert(i, nt);
    assert forall|p: int, q: int| 0 <= p < q < t.len() implies lex_lt(t[p].name@, t[q].name@) by {
        if p < i && q == i {
            assert(t[p] == s[p]);
        } else if p == i && q > i {
            assert(t[q] == s[q - 1]);
            if q - 1 > i {
                lemma_lex_lt_trans(nt.name@, s[i].name@, s[q - 1].name@);
            }
        } else if p < i && q > i {
            assert(t[p] == s[p]);
            assert(t[q] == s[q - 1]);
            if q - 1 == i {
                assert(i < s.len());
                lemma_lex_lt_trans(s[p].name@, nt.name@, s[i].name@);
            }
        } else if q < i {
            assert(t[p] == s[p]);
            assert(t[q] == s[q]);
        } else if p > i {
            assert(t[p] == s[p - 1]);
            assert(t[q] == s[q - 1]);
        }
    }
}

} // verus!
