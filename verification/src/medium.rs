//! A model of one storage area on a medium: a directory that may or may not
//! exist, holding one file per field or flag directly under it.
//!
//! The executable representation keeps two parallel vectors (file names and
//! file contents); the specification view is a finite map from name to
//! content, together with one bit saying whether the directory itself exists.

use vstd::prelude::*;

verus! {

/// Specification-level picture of a storage area.
pub struct AreaView {
    /// Whether the area's directory exists on the medium.
    pub present: bool,
    /// The files directly under the directory: name to text content.
    pub files: Map<Seq<char>, Seq<char>>,
}

impl AreaView {
    /// A directory that does not exist holds no files.
    pub open spec fn wf(self) -> bool {
        !self.present ==> self.files == Map::<Seq<char>, Seq<char>>::empty()
    }

    /// The state of a medium on which nothing was ever stored.
    pub open spec fn empty() -> AreaView {
        AreaView { present: false, files: Map::empty() }
    }

    /// The effect of initializing the medium: the directory exists afterwards
    /// and the files are exactly what they were.
    pub open spec fn initialized(self) -> AreaView {
        AreaView { present: true, files: self.files }
    }
}

/// The map described by two parallel sequences of names and contents, later
/// entries shadowing earlier ones of the same name.
pub open spec fn entries_map(names: Seq<Seq<char>>, vals: Seq<Seq<char>>) -> Map<
    Seq<char>,
    Seq<char>,
>
    decreases names.len(),
{
    if names.len() == 0 || vals.len() != names.len() {
        Map::empty()
    } else {
        entries_map(names.drop_last(), vals.drop_last()).insert(names.last(), vals.last())
    }
}

/// A name is in the map exactly when it occurs in the name sequence.
pub proof fn lemma_entries_map_dom(names: Seq<Seq<char>>, vals: Seq<Seq<char>>)
    requires
        names.len() == vals.len(),
    ensures
        forall|k: Seq<char>| #[trigger]
            entries_map(names, vals).dom().contains(k) <==> names.contains(k),
    decreases names.len(),
{
    if names.len() == 0 {
        assert forall|k: Seq<char>| !names.contains(k) by {
            if names.contains(k) {
                let i = choose|i: int| 0 <= i < names.len() && names[i] == k;
            }
        }
    } else {
        lemma_entries_map_dom(names.drop_last(), vals.drop_last());
        let m0 = entries_map(names.drop_last(), vals.drop_last());
        assert(entries_map(names, vals) == m0.insert(names.last(), vals.last()));
        assert forall|k: Seq<char>| #[trigger]
            entries_map(names, vals).dom().contains(k) <==> names.contains(k) by {
            if entries_map(names, vals).dom().contains(k) {
                if k == names.last() {
                    assert(names[names.len() - 1] == k);
                    assert(names.contains(k));
                } else {
                    assert(m0.dom().contains(k));
                    assert(names.drop_last().contains(k));
                    let i = choose|i: int|
                        0 <= i < names.drop_last().len() && names.drop_last()[i] == k;
                    assert(names.drop_last()[i] == names[i]);
                    assert(names.contains(k));
                }
            }
            if names.contains(k) {
                let i = choose|i: int| 0 <= i < names.len() && names[i] == k;
                if i < names.len() - 1 {
                    assert(names.drop_last()[i] == k);
                    assert(names.drop_last().contains(k));
                    assert(m0.dom().contains(k));
                } else {
                    assert(k == names.last());
                }
                assert(entries_map(names, vals).dom().contains(k));
            }
        }
    }
}

/// With distinct names, looking up the `i`-th name yields the `i`-th content.
pub proof fn lemma_entries_map_index(names: Seq<Seq<char>>, vals: Seq<Seq<char>>, i: int)
    requires
        names.len() == vals.len(),
        names.no_duplicates(),
        0 <= i < names.len(),
    ensures
        entries_map(names, vals).dom().contains(names[i]),
        entries_map(names, vals)[names[i]] == vals[i],
    decreases names.len(),
{
    if i == names.len() - 1 {
        assert(names.last() == names[i]);
    } else {
        assert(names.drop_last()[i] == names[i]);
        assert(names.drop_last().no_duplicates());
        lemma_entries_map_index(names.drop_last(), vals.drop_last(), i);
        assert(names[i] != names.last());
    }
}

/// With distinct names, removing the `i`-th entry from the sequences removes
/// exactly the `i`-th name from the map.
pub proof fn lemma_entries_map_remove(names: Seq<Seq<char>>, vals: Seq<Seq<char>>, i: int)
    requires
        names.len() == vals.len(),
        names.no_duplicates(),
        0 <= i < names.len(),
    ensures
        entries_map(names.remove(i), vals.remove(i)) == entries_map(names, vals).remove(names[i]),
    decreases names.len(),
{
    lemma_entries_map_dom(names.drop_last(), vals.drop_last());
    if i == names.len() - 1 {
        assert(names.remove(i) =~= names.drop_last());
        assert(vals.remove(i) =~= vals.drop_last());
        assert(!names.drop_last().contains(names[i]));
        assert(entries_map(names.drop_last(), vals.drop_last()) =~= entries_map(
            names,
            vals,
        ).remove(names[i]));
    } else {
        assert(names.drop_last()[i] == names[i]);
        assert(names.drop_last().no_duplicates());
        lemma_entries_map_remove(names.drop_last(), vals.drop_last(), i);
        assert(names.remove(i).drop_last() =~= names.drop_last().remove(i));
        assert(vals.remove(i).drop_last() =~= vals.drop_last().remove(i));
        assert(names.remove(i).last() == names.last());
        assert(vals.remove(i).last() == vals.last());
        assert(names.remove(i).len() == names.len() - 1);
        assert(entries_map(names.remove(i), vals.remove(i)) == entries_map(
            names.drop_last().remove(i),
            vals.drop_last().remove(i),
        ).insert(names.last(), vals.last()));
        assert(names[i] != names.last());
        assert(entries_map(names.drop_last(), vals.drop_last()).remove(names[i]).insert(
            names.last(),
            vals.last(),
        ) =~= entries_map(names.drop_last(), vals.drop_last()).insert(
            names.last(),
            vals.last(),
        ).remove(names[i]));
    }
}

/// The executable storage area: a directory-presence bit and the files under
/// the directory, kept as parallel vectors of names and contents.
pub struct StorageArea {
    present: bool,
    names: Vec<String>,
    vals: Vec<String>,
}

impl View for StorageArea {
    type V = AreaView;

    closed spec fn view(&self) -> AreaView {
        AreaView { present: self.present, files: entries_map(self.names_seq(), self.vals_seq()) }
    }
}

impl StorageArea {
    spec fn names_seq(&self) -> Seq<Seq<char>> {
        self.names@.map_values(|s: String| s@)
    }

    spec fn vals_seq(&self) -> Seq<Seq<char>> {
        self.vals@.map_values(|s: String| s@)
    }

    /// The representation invariant: one content per name, no name twice, and
    /// no file at all while the directory does not exist.
    pub closed spec fn wf(&self) -> bool {
        &&& self.names.len() == self.vals.len()
        &&& self.names_seq().no_duplicates()
        &&& !self.present ==> self.names.len() == 0
    }

    /// A well-formed area's view is itself well-formed.
    pub proof fn lemma_wf_view(&self)
        requires
            self.wf(),
        ensures
            self@.wf(),
    {
        if !self.present {
            assert(self@.files =~= Map::<Seq<char>, Seq<char>>::empty());
        }
    }

    /// An area on which nothing was ever stored.
    pub fn new() -> (r: StorageArea)
        ensures
            r.wf(),
            r@ == AreaView::empty(),
    {
        let r = StorageArea { present: false, names: Vec::new(), vals: Vec::new() };
        proof {
            assert(r.names_seq() =~= Seq::<Seq<char>>::empty());
            assert(r@.files =~= Map::<Seq<char>, Seq<char>>::empty());
            assert(r@ == AreaView::empty());
        }
        r
    }

    /// Whether the area's directory exists.
    pub fn dir_present(&self) -> (r: bool)
        ensures
            r == self@.present,
    {
        self.present
    }

    /// Makes the directory exist; the files are untouched. Creating a
    /// directory that already exists changes nothing.
    pub fn create_dir(&mut self)
        requires
            old(self).wf(),
        ensures
            final(self).wf(),
            final(self)@ == old(self)@.initialized(),
    {
        self.present = true;
    }

    /// The index of the entry for `name`, if there is one.
    fn find(&self, name: &str) -> (r: Option<usize>)
        requires
            self.wf(),
        ensures
            match r {
                Some(i) => i < self.names@.len() && self.names_seq()[i as int] == name@,
                None => !self.names_seq().contains(name@),
            },
    {
        let key = name.to_owned();
        let n = self.names.len();
        let mut i: usize = 0;
        while i < n
            invariant
                n == self.names.len(),
                i <= n,
                key@ == name@,
                forall|j: int| 0 <= j < i ==> self.names_seq()[j] != name@,
            decreases n - i,
        {
            if self.names[i] == key {
                assert(self.names_seq()[i as int] == name@);
                return Some(i);
            }
            assert(self.names_seq()[i as int] != name@);
            i += 1;
        }
        assert forall|j: int| 0 <= j < self.names_seq().len() implies self.names_seq()[j] != name@
            by {}
        None
    }

    /// Whether a file of that name exists in the area.
    pub fn has_file(&self, name: &str) -> (r: bool)
        requires
            self.wf(),
        ensures
            r == self@.files.dom().contains(name@),
    {
        proof {
            lemma_entries_map_dom(self.names_seq(), self.vals_seq());
        }
        self.find(name).is_some()
    }

    /// The content of the file of that name, if it exists.
    pub fn read_file(&self, name: &str) -> (r: Option<&String>)
        requires
            self.wf(),
        ensures
            match r {
                Some(c) => self@.files.dom().contains(name@) && c@ == self@.files[name@],
                None => !self@.files.dom().contains(name@),
            },
    {
        proof {
            lemma_entries_map_dom(self.names_seq(), self.vals_seq());
        }
        match self.find(name) {
            Some(i) => {
                proof {
                    lemma_entries_map_index(self.names_seq(), self.vals_seq(), i as int);
                }
                Some(&self.vals[i])
            },
            None => None,
        }
    }

    /// Writes the file of that name, replacing any previous content.
    pub fn write_file(&mut self, name: &str, content: &str)
        requires
            old(self).wf(),
            old(self)@.present,
        ensures
            final(self).wf(),
            final(self)@.present,
            final(self)@.files == old(self)@.files.insert(name@, content@),
    {
        let ghost pre = *self;
        match self.find(name) {
            Some(i) => {
                proof {
                    lemma_entries_map_remove(pre.names_seq(), pre.vals_seq(), i as int);
                    lemma_entries_map_dom(pre.names_seq(), pre.vals_seq());
                }
                self.names.remove(i);
                self.vals.remove(i);
                proof {
                    assert(self.names_seq() =~= pre.names_seq().remove(i as int));
                    assert(self.vals_seq() =~= pre.vals_seq().remove(i as int));
                }
            },
            None => {
                proof {
                    lemma_entries_map_dom(pre.names_seq(), pre.vals_seq());
                }
            },
        }
        let ghost mid = *self;
        proof {
            assert(mid.names_seq().no_duplicates());
            assert(!mid.names_seq().contains(name@)) by {
                lemma_entries_map_dom(mid.names_seq(), mid.vals_seq());
                assert(!mid@.files.dom().contains(name@));
            }
            assert(mid@.files == pre@.files.remove(name@) || mid@.files == pre@.files);
            assert(mid@.files.remove(name@) =~= pre@.files.remove(name@));
        }
        self.names.push(name.to_owned());
        self.vals.push(content.to_owned());
        proof {
            assert(self.names_seq() =~= mid.names_seq().push(name@));
            assert(self.vals_seq() =~= mid.vals_seq().push(content@));
            assert(self.names_seq().drop_last() =~= mid.names_seq());
            assert(self.vals_seq().drop_last() =~= mid.vals_seq());
            assert(self.names_seq().no_duplicates()) by {
                assert(forall|j: int|
                    0 <= j < mid.names_seq().len() ==> self.names_seq()[j] == mid.names_seq()[j]);
            }
            assert(self@.files == entries_map(mid.names_seq(), mid.vals_seq()).insert(
                name@,
                content@,
            ));
            assert(self@.files =~= pre@.files.insert(name@, content@));
        }
    }

    /// Removes the file of that name; reports whether it was there to remove.
    pub fn remove_file(&mut self, name: &str) -> (r: bool)
        requires
            old(self).wf(),
        ensures
            final(self).wf(),
            r == old(self)@.files.dom().contains(name@),
            r ==> final(self)@.files == old(self)@.files.remove(name@),
            !r ==> final(self)@.files == old(self)@.files,
            final(self)@.present == old(self)@.present,
    {
        let ghost pre = *self;
        proof {
            lemma_entries_map_dom(pre.names_seq(), pre.vals_seq());
        }
        match self.find(name) {
            Some(i) => {
                proof {
                    lemma_entries_map_remove(pre.names_seq(), pre.vals_seq(), i as int);
                }
                self.names.remove(i);
                self.vals.remove(i);
                proof {
                    assert(self.names_seq() =~= pre.names_seq().remove(i as int));
                    assert(self.vals_seq() =~= pre.vals_seq().remove(i as int));
                }
                true
            },
            None => false,
        }
    }

    /// Removes every file in the area; the directory itself stays.
    pub fn clear_files(&mut self)
        requires
            old(self).wf(),
        ensures
            final(self).wf(),
            final(self)@.present == old(self)@.present,
            final(self)@.files == Map::<Seq<char>, Seq<char>>::empty(),
    {
        self.names.clear();
        self.vals.clear();
        proof {
            assert(self.names_seq() =~= Seq::<Seq<char>>::empty());
            assert(self@.files =~= Map::<Seq<char>, Seq<char>>::empty());
        }
    }

    /// Removes the directory itself together with everything in it.
    pub fn remove_dir(&mut self)
        requires
            old(self).wf(),
        ensures
            final(self).wf(),
            final(self)@ == AreaView::empty(),
    {
        self.present = false;
        self.names.clear();
        self.vals.clear();
        proof {
            assert(self.names_seq() =~= Seq::<Seq<char>>::empty());
            assert(self@.files =~= Map::<Seq<char>, Seq<char>>::empty());
            assert(self@ == AreaView::empty());
        }
    }

    /// The names of the files in the area, each exactly once.
    pub fn file_names(&self) -> (r: Vec<String>)
        requires
            self.wf(),
        ensures
            r@.map_values(|s: String| s@).no_duplicates(),
            forall|k: Seq<char>| #[trigger]
                self@.files.dom().contains(k) <==> r@.map_values(|s: String| s@).contains(k),
            r@.len() == self@.files.dom().len(),
    {
        proof {
            lemma_entries_map_dom(self.names_seq(), self.vals_seq());
        }
        let mut r: Vec<String> = Vec::new();
        let n = self.names.len();
        let mut i: usize = 0;
        while i < n
            invariant
                n == self.names.len(),
                self.wf(),
                i <= n,
                r@.len() == i,
                forall|j: int| 0 <= j < i ==> r@.map_values(|s: String| s@)[j] == self.names_seq()[j],
            decreases n - i,
        {
            r.push(self.names[i].clone());
            i += 1;
        }
        proof {
            assert(r@.map_values(|s: String| s@) =~= self.names_seq());
            lemma_no_duplicates_set_len(self.names_seq());
            assert(self@.files.dom() =~= self.names_seq().to_set());
        }
        r
    }
}

/// A sequence without duplicates has as many elements as its set of values.
pub proof fn lemma_no_duplicates_set_len(s: Seq<Seq<char>>)
    requires
        s.no_duplicates(),
    ensures
        s.to_set().len() == s.len(),
    decreases s.len(),
{
    if s.len() == 0 {
        assert(s.to_set() =~= Set::<Seq<char>>::empty());
    } else {
        assert(s.drop_last().no_duplicates());
        lemma_no_duplicates_set_len(s.drop_last());
        assert(!s.drop_last().contains(s.last())) by {
            if s.drop_last().contains(s.last()) {
                let i = choose|i: int| 0 <= i < s.drop_last().len() && s.drop_last()[i] == s.last();
                assert(s[i] == s[s.len() - 1]);
            }
        }
        assert(s.to_set() =~= s.drop_last().to_set().insert(s.last())) by {
            assert forall|k: Seq<char>| s.contains(k) implies s.drop_last().contains(k) || k
                == s.last() by {
                let i = choose|i: int| 0 <= i < s.len() && s[i] == k;
                if i < s.len() - 1 {
                    assert(s.drop_last()[i] == k);
                }
            }
            assert forall|k: Seq<char>| s.drop_last().contains(k) implies s.contains(k) by {
                let i = choose|i: int| 0 <= i < s.drop_last().len() && s.drop_last()[i] == k;
                assert(s[i] == k);
            }
            assert(s.contains(s.last()));
        }
        assert(s.drop_last().to_set().finite());
    }
}

} // verus!

