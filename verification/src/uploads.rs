//! The directory tree built from a list of uploaded files and their paths.

use vstd::prelude::*;

verus! {

/// A file of the tree: its name and its content.
#[derive(Debug)]
pub struct FileNode<T> {
    pub name: String,
    pub content: T,
}

/// A directory of the tree: its name and its entries, in the order in
/// which they were added.
#[derive(Debug)]
pub struct DirNode<T> {
    pub name: String,
    pub entries: Vec<TreeNode<T>>,
}

/// An entry of a directory.
#[derive(Debug)]
pub enum TreeNode<T> {
    File(FileNode<T>),
    Dir(DirNode<T>),
}

/// Whether `e` is a directory named `name`.
pub open spec fn is_dir_named<T>(e: TreeNode<T>, name: Seq<char>) -> bool {
    e matches TreeNode::Dir(d) && d.name@ == name
}

/// The first of `entries` that is a directory named `name`, if any is.
pub open spec fn first_dir_named<T>(entries: Seq<TreeNode<T>>, name: Seq<char>) -> Option<int> {
    if exists|i: int| 0 <= i < entries.len() && is_dir_named(#[trigger] entries[i], name) {
        Some(
            choose|i: int|
                0 <= i < entries.len() && is_dir_named(#[trigger] entries[i], name) && forall|j: int|
                    0 <= j < i ==> !is_dir_named(#[trigger] entries[j], name),
        )
    } else {
        None
    }
}


/// A file of a tree, by its path (the names of the directories that lead
/// to it, then its own name) and its content.
pub type FileEntry<T> = (Seq<Seq<char>>, T);

/// `files`, with their paths put under the directory `name`.
pub open spec fn under_dir<T>(name: Seq<char>, files: Seq<FileEntry<T>>) -> Seq<FileEntry<T>> {
    files.map_values(|f: FileEntry<T>| (seq![name] + f.0, f.1))
}

/// The files held by `entries` and all their subdirectories, in depth-first
/// order, with paths relative to the directory whose entries they are.
pub open spec fn entries_files<T>(entries: Seq<TreeNode<T>>) -> Seq<FileEntry<T>>
    decreases entries,
{
    if entries.len() == 0 {
        Seq::empty()
    } else {
        entries_files(entries.drop_last()) + match entries.last() {
            TreeNode::File(f) => seq![(seq![f.name@], f.content)],
            TreeNode::Dir(d) => under_dir(d.name@, entries_files(d.entries@)),
        }
    }
}

/// No two directories among `entries` share a name, and the same holds in
/// every subdirectory.
pub open spec fn entries_wf<T>(entries: Seq<TreeNode<T>>) -> bool
    decreases entries,
{
    &&& forall|i: int, j: int|
        0 <= i < j < entries.len() ==> (#[trigger] entries[i] matches TreeNode::Dir(a)
            ==> !is_dir_named(#[trigger] entries[j], a.name@))
    &&& forall|i: int|
        0 <= i < entries.len() ==> match #[trigger] entries[i] {
            TreeNode::Dir(d) => entries_wf(d.entries@),
            TreeNode::File(_) => true,
        }
}

/// The names that a list of path parts holds.
pub open spec fn part_names(parts: Seq<String>) -> Seq<Seq<char>> {
    parts.map_values(|p: String| p@)
}

/// `after` is what the entries `before` of a directory become once the file
/// `content` is put at the path `names` below that directory: a file named
/// by the last part is added after the entries of the directory named by the
/// other parts, and each such directory is the first one of that name
/// already there or, where there is none, an empty one added after its
/// siblings.
pub open spec fn places_file<T>(
    before: Seq<TreeNode<T>>,
    after: Seq<TreeNode<T>>,
    names: Seq<Seq<char>>,
    content: T,
) -> bool
    decreases names.len(),
{
    if names.len() == 0 {
        false
    } else if names.len() == 1 {
        &&& after.len() == before.len() + 1
        &&& after.take(before.len() as int) == before
        &&& after.last() matches TreeNode::File(f) && f.name@ == names[0] && f.content == content
    } else {
        match first_dir_named(before, names[0]) {
            Some(k) => {
                &&& after.len() == before.len()
                &&& forall|j: int| 0 <= j < before.len() && j != k ==> after[j] == before[j]
                &&& before[k] matches TreeNode::Dir(bd)
                &&& after[k] matches TreeNode::Dir(ad)
                &&& ad.name == bd.name
                &&& places_file(bd.entries@, ad.entries@, names.skip(1), content)
            },
            None => {
                &&& after.len() == before.len() + 1
                &&& after.take(before.len() as int) == before
                &&& after.last() matches TreeNode::Dir(ad)
                &&& ad.name@ == names[0]
                &&& places_file(Seq::<TreeNode<T>>::empty(), ad.entries@, names.skip(1), content)
            },
        }
    }
}

proof fn lemma_entries_files_concat<T>(a: Seq<TreeNode<T>>, b: Seq<TreeNode<T>>)
    ensures
        entries_files(a + b) == entries_files(a) + entries_files(b),
    decreases b.len(),
{
    if b.len() == 0 {
        assert(a + b =~= a);
        assert(entries_files(a) + entries_files(b) =~= entries_files(a));
    } else {
        assert((a + b).drop_last() =~= a + b.drop_last());
        assert((a + b).last() == b.last());
        lemma_entries_files_concat(a, b.drop_last());
        assert(entries_files(a + b) =~= entries_files(a) + entries_files(b));
    }
}

proof fn lemma_entries_files_single<T>(e: TreeNode<T>)
    ensures
        entries_files(seq![e]) == match e {
            TreeNode::File(f) => seq![(seq![f.name@], f.content)],
            TreeNode::Dir(d) => under_dir(d.name@, entries_files(d.entries@)),
        },
{
    assert(seq![e].drop_last() =~= Seq::<TreeNode<T>>::empty());
    assert(seq![e].last() == e);
    assert(entries_files(Seq::<TreeNode<T>>::empty()) == Seq::<FileEntry<T>>::empty());
    let tail = match e {
        TreeNode::File(f) => seq![(seq![f.name@], f.content)],
        TreeNode::Dir(d) => under_dir(d.name@, entries_files(d.entries@)),
    };
    assert(Seq::<FileEntry<T>>::empty() + tail =~= tail);
    assert(entries_files(seq![e]) =~= match e {
        TreeNode::File(f) => seq![(seq![f.name@], f.content)],
        TreeNode::Dir(d) => under_dir(d.name@, entries_files(d.entries@)),
    });
}

proof fn lemma_under_dir_split<T>(
    name: Seq<char>,
    a: Seq<FileEntry<T>>,
    x: FileEntry<T>,
    b: Seq<FileEntry<T>>,
)
    ensures
        under_dir(name, a + seq![x] + b) == under_dir(name, a) + seq![(seq![name] + x.0, x.1)]
            + under_dir(name, b),
{
    assert(under_dir(name, a + seq![x] + b) =~= under_dir(name, a) + seq![(seq![name] + x.0, x.1)]
        + under_dir(name, b));
}


proof fn lemma_places_leaf<T>(
    before: Seq<TreeNode<T>>,
    after: Seq<TreeNode<T>>,
    names: Seq<Seq<char>>,
    content: T,
)
    requires
        names.len() == 1,
        places_file(before, after, names, content),
    ensures
        entries_files(after) == entries_files(before) + seq![(names, content)],
        entries_wf(before) ==> entries_wf(after),
{
    assert(after =~= before.push(after.last()));
    assert(after.drop_last() =~= before);
    let f = after.last()->File_0;
    assert(seq![f.name@] =~= names);
    if entries_wf(before) {
        assert forall|i: int, j: int|
            0 <= i < j < after.len() implies (#[trigger] after[i] matches TreeNode::Dir(a)
            ==> !is_dir_named(#[trigger] after[j], a.name@)) by {
            if j < before.len() {
                assert(after[i] == before[i] && after[j] == before[j]);
            }
        }
        assert forall|i: int| 0 <= i < after.len() implies match #[trigger] after[i] {
            TreeNode::Dir(d) => entries_wf(d.entries@),
            TreeNode::File(_) => true,
        } by {
            if i < before.len() {
                assert(after[i] == before[i]);
            }
        }
    }
}

proof fn lemma_places_new_dir_wf<T>(
    before: Seq<TreeNode<T>>,
    after: Seq<TreeNode<T>>,
    name: Seq<char>,
)
    requires
        entries_wf(before),
        after.len() == before.len() + 1,
        after.take(before.len() as int) == before,
        after.last() matches TreeNode::Dir(ad) && ad.name@ == name && entries_wf(ad.entries@),
        forall|j: int| 0 <= j < before.len() ==> !is_dir_named(#[trigger] before[j], name),
    ensures
        entries_wf(after),
{
    assert forall|i: int, j: int|
        0 <= i < j < after.len() implies (#[trigger] after[i] matches TreeNode::Dir(a)
        ==> !is_dir_named(#[trigger] after[j], a.name@)) by {
        assert(after[i] == before[i]);
        if j < before.len() {
            assert(after[j] == before[j]);
        } else {
            if after[i] matches TreeNode::Dir(a) {
                assert(!is_dir_named(before[i], name));
            }
        }
    }
    assert forall|i: int| 0 <= i < after.len() implies match #[trigger] after[i] {
        TreeNode::Dir(d) => entries_wf(d.entries@),
        TreeNode::File(_) => true,
    } by {
        if i < before.len() {
            assert(after[i] == before[i]);
        }
    }
}

proof fn lemma_places_existing_dir_wf<T>(
    before: Seq<TreeNode<T>>,
    after: Seq<TreeNode<T>>,
    k: int,
)
    requires
        entries_wf(before),
        0 <= k < before.len(),
        after.len() == before.len(),
        forall|j: int| 0 <= j < before.len() && j != k ==> after[j] == before[j],
        before[k] matches TreeNode::Dir(bd),
        after[k] matches TreeNode::Dir(ad),
        after[k]->Dir_0.name == before[k]->Dir_0.name,
        entries_wf(before[k]->Dir_0.entries@) ==> entries_wf(after[k]->Dir_0.entries@),
    ensures
        entries_wf(after),
{
    assert(entries_wf(before[k]->Dir_0.entries@)) by {
        assert(match before[k] {
            TreeNode::Dir(d) => entries_wf(d.entries@),
            TreeNode::File(_) => true,
        });
    }
    assert forall|i: int, j: int|
        0 <= i < j < after.len() implies (#[trigger] after[i] matches TreeNode::Dir(a)
        ==> !is_dir_named(#[trigger] after[j], a.name@)) by {
        assert(before[i] matches TreeNode::Dir(a) ==> !is_dir_named(before[j], a.name@));
    }
    assert forall|i: int| 0 <= i < after.len() implies match #[trigger] after[i] {
        TreeNode::Dir(d) => entries_wf(d.entries@),
        TreeNode::File(_) => true,
    } by {
        if i != k {
            assert(after[i] == before[i]);
        }
    }
}

proof fn lemma_files_replace_one<T>(
    before: Seq<TreeNode<T>>,
    after: Seq<TreeNode<T>>,
    k: int,
)
    requires
        0 <= k < before.len(),
        after.len() == before.len(),
        forall|j: int| 0 <= j < before.len() && j != k ==> after[j] == before[j],
    ensures
        entries_files(before) == entries_files(before.take(k)) + entries_files(seq![before[k]])
            + entries_files(before.skip(k + 1)),
        entries_files(after) == entries_files(before.take(k)) + entries_files(seq![after[k]])
            + entries_files(before.skip(k + 1)),
{
    let p = before.take(k);
    let q = before.skip(k + 1);
    assert(before =~= p + seq![before[k]] + q);
    assert(after =~= p + seq![after[k]] + q);
    lemma_entries_files_concat(p + seq![before[k]], q);
    lemma_entries_files_concat(p, seq![before[k]]);
    lemma_entries_files_concat(p + seq![after[k]], q);
    lemma_entries_files_concat(p, seq![after[k]]);
}

/// Putting a file in a directory adds exactly that file: listed depth
/// first, the files of the directory after are those before with the new
/// file, at the path it was put at, standing at one place among them. And
/// the directory keeps distinct names for sibling directories.
proof fn lemma_places_file<T>(
    before: Seq<TreeNode<T>>,
    after: Seq<TreeNode<T>>,
    names: Seq<Seq<char>>,
    content: T,
) -> (split: (Seq<FileEntry<T>>, Seq<FileEntry<T>>))
    requires
        places_file(before, after, names, content),
    ensures
        entries_files(before) == split.0 + split.1,
        entries_files(after) == split.0 + seq![(names, content)] + split.1,
        entries_wf(before) ==> entries_wf(after),
    decreases names.len(),
{
    if names.len() == 1 {
        lemma_places_leaf(before, after, names, content);
        let split = (entries_files(before), Seq::<FileEntry<T>>::empty());
        assert(entries_files(before) =~= split.0 + split.1);
        assert(entries_files(after) =~= split.0 + seq![(names, content)] + split.1);
        split
    } else {
        let rest = names.skip(1);
        assert(seq![names[0]] + rest =~= names);
        lemma_first_dir_named_found(before, names[0]);
        match first_dir_named(before, names[0]) {
            Some(k) => {
                let bd = before[k]->Dir_0;
                let ad = after[k]->Dir_0;
                let inner = lemma_places_file(bd.entries@, ad.entries@, rest, content);
                lemma_files_replace_one(before, after, k);
                lemma_entries_files_single(before[k]);
                lemma_entries_files_single(after[k]);
                lemma_under_dir_split(bd.name@, inner.0, (rest, content), inner.1);
                assert(under_dir(bd.name@, inner.0 + inner.1) =~= under_dir(bd.name@, inner.0)
                    + under_dir(bd.name@, inner.1));
                let split = (
                    entries_files(before.take(k)) + under_dir(bd.name@, inner.0),
                    under_dir(bd.name@, inner.1) + entries_files(before.skip(k + 1)),
                );
                assert(entries_files(before) =~= split.0 + split.1);
                assert(entries_files(after) =~= split.0 + seq![(names, content)] + split.1);
                if entries_wf(before) {
                    lemma_places_existing_dir_wf(before, after, k);
                }
                split
            },
            None => {
                assert(after =~= before.push(after.last()));
                assert(after.drop_last() =~= before);
                let ad = after.last()->Dir_0;
                let inner = lemma_places_file(
                    Seq::<TreeNode<T>>::empty(),
                    ad.entries@,
                    rest,
                    content,
                );
                assert(inner.0 =~= Seq::<FileEntry<T>>::empty());
                assert(inner.1 =~= Seq::<FileEntry<T>>::empty());
                assert(entries_files(ad.entries@) =~= seq![(rest, content)]);
                assert(under_dir(ad.name@, seq![(rest, content)]) =~= seq![(names, content)]);
                let split = (entries_files(before), Seq::<FileEntry<T>>::empty());
                assert(entries_files(before) =~= split.0 + split.1);
                assert(entries_files(after) =~= split.0 + seq![(names, content)] + split.1);
                if entries_wf(before) {
                    lemma_places_new_dir_wf(before, after, names[0]);
                }
                split
            },
        }
    }
}

/// Putting a file in a tree adds exactly that file, once, at the path it
/// was put at: listed depth first, the files after are those before with
/// the new one standing at one place among them, and counted with their
/// paths and contents, they are those before and the new one. The tree
/// keeps distinct names for sibling directories.
pub proof fn lemma_put_file_adds_one_file<T>(
    before: Seq<TreeNode<T>>,
    after: Seq<TreeNode<T>>,
    names: Seq<Seq<char>>,
    content: T,
)
    requires
        places_file(before, after, names, content),
    ensures
        exists|a: Seq<FileEntry<T>>, b: Seq<FileEntry<T>>|
            entries_files(before) == a + b && entries_files(after) == a + seq![(names, content)]
                + b,
        entries_files(after).to_multiset() == entries_files(before).to_multiset().insert(
            (names, content),
        ),
        entries_wf(before) ==> entries_wf(after),
{
    broadcast use vstd::seq_lib::group_to_multiset_ensures;

    let (a, b) = lemma_places_file(before, after, names, content);
    vstd::seq_lib::lemma_multiset_commutative(a, b);
    vstd::seq_lib::lemma_multiset_commutative(a + seq![(names, content)], b);
    vstd::seq_lib::lemma_multiset_commutative(a, seq![(names, content)]);
    assert(seq![(names, content)] =~= Seq::<FileEntry<T>>::empty().push((names, content)));
    assert(a + seq![(names, content)] =~= a.push((names, content)));
}

proof fn lemma_first_named_below<T>(entries: Seq<TreeNode<T>>, name: Seq<char>, i: int) -> (m: int)
    requires
        0 <= i < entries.len(),
        is_dir_named(entries[i], name),
    ensures
        0 <= m <= i,
        is_dir_named(entries[m], name),
        forall|j: int| 0 <= j < m ==> !is_dir_named(#[trigger] entries[j], name),
    decreases i,
{
    if exists|j: int| 0 <= j < i && is_dir_named(#[trigger] entries[j], name) {
        let j = choose|j: int| 0 <= j < i && is_dir_named(#[trigger] entries[j], name);
        lemma_first_named_below(entries, name, j)
    } else {
        i
    }
}

/// What `first_dir_named` gives is the first directory of that name.
proof fn lemma_first_dir_named_found<T>(entries: Seq<TreeNode<T>>, name: Seq<char>)
    ensures
        match first_dir_named(entries, name) {
            Some(k) => {
                &&& 0 <= k < entries.len()
                &&& is_dir_named(entries[k], name)
                &&& forall|j: int| 0 <= j < k ==> !is_dir_named(#[trigger] entries[j], name)
            },
            None => forall|j: int| 0 <= j < entries.len() ==> !is_dir_named(#[trigger] entries[j], name),
        },
{
    if exists|i: int| 0 <= i < entries.len() && is_dir_named(#[trigger] entries[i], name) {
        let i = choose|i: int| 0 <= i < entries.len() && is_dir_named(#[trigger] entries[i], name);
        let m = lemma_first_named_below(entries, name, i);
        lemma_first_dir_named(entries, name, m);
    }
}

proof fn lemma_first_dir_named<T>(entries: Seq<TreeNode<T>>, name: Seq<char>, i: int)
    requires
        0 <= i < entries.len(),
        is_dir_named(entries[i], name),
        forall|j: int| 0 <= j < i ==> !is_dir_named(#[trigger] entries[j], name),
    ensures
        first_dir_named(entries, name) == Some(i),
{
    assert(exists|i: int| 0 <= i < entries.len() && is_dir_named(#[trigger] entries[i], name));
    let k = first_dir_named(entries, name)->0;
    if k < i {
        assert(!is_dir_named(entries[k], name));
    }
    if k > i {
        assert(!is_dir_named(entries[i], name));
    }
}

impl<T> DirNode<T> {
    /// The unnamed directory at the top of a tree, with no entries.
    pub fn root() -> (d: Self)
        ensures
            d.name@ == Seq::<char>::empty(),
            d.entries@ == Seq::<TreeNode<T>>::empty(),
    {
        DirNode { name: String::new(), entries: Vec::new() }
    }

    /// Where the first subdirectory named `name` stands among the entries,
    /// if there is one.
    pub fn subdir_index(&self, name: &str) -> (r: Option<usize>)
        ensures
            match r {
                Some(i) => {
                    &&& i < self.entries@.len()
                    &&& is_dir_named(self.entries@[i as int], name@)
                    &&& forall|j: int| 0 <= j < i ==> !is_dir_named(#[trigger] self.entries@[j], name@)
                },
                None => forall|j: int|
                    0 <= j < self.entries@.len() ==> !is_dir_named(#[trigger] self.entries@[j], name@),
            },
    {
        let wanted = name.to_owned();
        let mut i: usize = 0;
        while i < self.entries.len()
            invariant
                wanted@ == name@,
                i <= self.entries@.len(),
                forall|j: int| 0 <= j < i ==> !is_dir_named(#[trigger] self.entries@[j], name@),
            decreases self.entries@.len() - i,
        {
            if let TreeNode::Dir(dir) = &self.entries[i] {
                if dir.name == wanted {
                    return Some(i);
                }
            }
            i = i + 1;
        }
        None
    }

    /// Adds an empty subdirectory named `name` after the entries, and gives
    /// where it stands.
    pub fn add_subdir(&mut self, name: &str) -> (index: usize)
        ensures
            final(self).name == old(self).name,
            index == old(self).entries@.len(),
            final(self).entries@.len() == old(self).entries@.len() + 1,
            final(self).entries@.take(index as int) == old(self).entries@,
            final(self).entries@[index as int] matches TreeNode::Dir(d) && d.name@ == name@
                && d.entries@.len() == 0,
    {
        self.entries.push(TreeNode::Dir(DirNode { name: name.to_owned(), entries: Vec::new() }));
        self.entries.len() - 1
    }


    /// Puts `content` in the tree as a file at the path `names` below this
    /// directory, making the directories on the way that are not there yet.
    pub fn ensure_subdirs_and_file(&mut self, names: Vec<String>, content: T)
        requires
            names@.len() >= 1,
        ensures
            final(self).name == old(self).name,
            places_file(old(self).entries@, final(self).entries@, part_names(names@), content),
            entries_files(final(self).entries@).to_multiset() == entries_files(
                old(self).entries@,
            ).to_multiset().insert((part_names(names@), content)),
            entries_wf(old(self).entries@) ==> entries_wf(final(self).entries@),
        decreases names@.len(),
    {
        let ghost before_all = self.entries@;
        let ghost names_all = part_names(names@);
        self.place_file(names, content);
        proof {
            lemma_put_file_adds_one_file(before_all, self.entries@, names_all, content);
        }
    }

    fn place_file(&mut self, names: Vec<String>, content: T)
        requires
            names@.len() >= 1,
        ensures
            final(self).name == old(self).name,
            places_file(old(self).entries@, final(self).entries@, part_names(names@), content),
        decreases names@.len(),
    {
        if names.len() == 1 {
            let name = names[0].clone();
            let ghost before = self.entries@;
            self.add_file(FileNode { name, content });
            assert(self.entries@.take(before.len() as int) =~= before);
            return;
        }
        let ghost before = self.entries@;
        let ghost all_names = part_names(names@);
        let mut names = names;
        let name = names.remove(0);
        assert(part_names(names@) =~= all_names.skip(1));
        let index = match self.subdir_index(name.as_str()) {
            Some(i) => {
                proof {
                    lemma_first_dir_named(before, name@, i as int);
                }
                i
            },
            None => self.add_subdir(name.as_str()),
        };
        let ghost widened = self.entries@;
        let entry = self.entries.remove(index);
        match entry {
            TreeNode::Dir(mut dir) => {
                let ghost sub_before = dir.entries@;
                dir.place_file(names, content);
                self.entries.insert(index, TreeNode::Dir(dir));
                assert(self.entries@ =~= widened.update(index as int, self.entries@[index as int]));
                proof {
                    if index < before.len() {
                        assert(first_dir_named(before, all_names[0]) == Some(index as int));
                    } else {
                        assert(sub_before =~= Seq::<TreeNode<T>>::empty());
                        assert(self.entries@.take(before.len() as int) =~= before);
                    }
                }
            },
            TreeNode::File(file) => {
                self.entries.insert(index, TreeNode::File(file));
            },
        }
    }

    /// Adds `file` after the entries.
    pub fn add_file(&mut self, file: FileNode<T>)
        ensures
            final(self).name == old(self).name,
            final(self).entries@ == old(self).entries@.push(TreeNode::File(file)),
    {
        self.entries.push(TreeNode::File(file));
    }
}

/// The parts of `s` between its slashes, in order: `"a/b"` has the parts
/// `"a"` and `"b"`, `"a/"` has `"a"` and `""`, and `""` has the one part `""`.
pub open spec fn split_slash(s: Seq<char>) -> Seq<Seq<char>>
    decreases s.len(),
{
    if s.len() == 0 {
        seq![Seq::<char>::empty()]
    } else {
        let parts = split_slash(s.drop_last());
        if s.last() == '/' {
            parts.push(Seq::<char>::empty())
        } else {
            parts.update(parts.len() - 1, parts.last().push(s.last()))
        }
    }
}

/// The parts, with a slash between each two of them.
pub open spec fn join_slash(parts: Seq<Seq<char>>) -> Seq<char>
    decreases parts.len(),
{
    if parts.len() == 0 {
        Seq::empty()
    } else if parts.len() == 1 {
        parts[0]
    } else {
        join_slash(parts.drop_last()) + seq!['/'] + parts.last()
    }
}

/// Splitting at the slashes gives at least one part, no part holds a
/// slash, and the parts joined with slashes give back what was split.
pub proof fn lemma_split_slash_joins_back(s: Seq<char>)
    ensures
        split_slash(s).len() >= 1,
        forall|i: int| 0 <= i < split_slash(s).len() ==> !(#[trigger] split_slash(s)[i]).contains('/'),
        join_slash(split_slash(s)) == s,
    decreases s.len(),
{
    if s.len() > 0 {
        let init = s.drop_last();
        lemma_split_slash_joins_back(init);
        let parts = split_slash(init);
        let c = s.last();
        if c == '/' {
            let new_parts = parts.push(Seq::<char>::empty());
            assert(new_parts.drop_last() =~= parts);
            assert forall|i: int| 0 <= i < new_parts.len() implies !(
            #[trigger] new_parts[i]).contains('/') by {
                if i < parts.len() {
                    assert(new_parts[i] == parts[i]);
                }
            }
            assert(join_slash(new_parts) =~= init + seq!['/'] + Seq::<char>::empty());
            assert(s =~= init + seq!['/'] + Seq::<char>::empty());
        } else {
            let n = parts.len();
            let new_parts = parts.update(n - 1, parts.last().push(c));
            assert forall|i: int| 0 <= i < new_parts.len() implies !(
            #[trigger] new_parts[i]).contains('/') by {
                if i < n - 1 {
                    assert(new_parts[i] == parts[i]);
                } else {
                    assert(!parts[n - 1].contains('/'));
                    if new_parts[i].contains('/') {
                        let k = choose|k: int| 0 <= k < new_parts[i].len() && new_parts[i][k] == '/';
                        if k < parts[n - 1].len() {
                            assert(parts[n - 1][k] == '/');
                        }
                    }
                }
            }
            if n == 1 {
                assert(parts[0] =~= init);
                assert(join_slash(new_parts) =~= s);
            } else {
                assert(new_parts.drop_last() =~= parts.drop_last());
                assert(join_slash(parts) == join_slash(parts.drop_last()) + seq!['/'] + parts.last());
                assert(new_parts.last() == parts.last().push(c));
                assert(join_slash(new_parts) == join_slash(parts.drop_last()) + seq!['/']
                    + parts.last().push(c));
                assert(join_slash(parts.drop_last()) + seq!['/'] + parts.last().push(c) =~= init.push(
                    c,
                ));
                assert(s =~= init.push(c));
            }
        }
    }
}

/// Splits `path` at its slashes.
pub fn split_path(path: &str) -> (parts: Vec<String>)
    ensures
        part_names(parts@) == split_slash(path@),
{
    let n = path.unicode_len();
    let mut parts: Vec<String> = Vec::new();
    let mut start: usize = 0;
    let mut i: usize = 0;
    assert(path@.take(0) =~= Seq::<char>::empty());
    assert(part_names(parts@).push(path@.subrange(0, 0)) =~= split_slash(path@.take(0)));
    while i < n
        invariant
            n == path@.len(),
            start <= i <= n,
            part_names(parts@).push(path@.subrange(start as int, i as int)) == split_slash(
                path@.take(i as int),
            ),
        decreases n - i,
    {
        let c = path.get_char(i);
        let ghost prev = path@.take(i as int);
        assert(path@.take(i + 1).drop_last() =~= prev);
        assert(path@.take(i + 1).last() == c);
        if c == '/' {
            let part = path.substring_char(start, i).to_owned();
            parts.push(part);
            start = i + 1;
            assert(path@.subrange(start as int, (i + 1) as int) =~= Seq::<char>::empty());
            assert(part_names(parts@) =~= split_slash(prev));
        } else {
            let ghost cur = path@.subrange(start as int, i as int);
            assert(path@.subrange(start as int, (i + 1) as int) =~= cur.push(c));
            assert(part_names(parts@).push(cur.push(c)) =~= split_slash(prev).update(
                split_slash(prev).len() - 1,
                split_slash(prev).last().push(c),
            ));
        }
        i = i + 1;
    }
    let last = path.substring_char(start, n).to_owned();
    parts.push(last);
    assert(path@.take(n as int) =~= path@);
    assert(part_names(parts@) =~= split_slash(path@));
    parts
}

/// The files of an upload, with their paths split into parts.
pub open spec fn upload_files<T>(files: Seq<(T, String)>) -> Seq<FileEntry<T>> {
    files.map_values(|f: (T, String)| (split_slash(f.1@), f.0))
}

/// `steps` are the entries of the root as the uploaded `files` are put in
/// it one after the other, in order, each at its path split at the
/// slashes: the root starts empty, and each step puts the next file.
pub open spec fn build_steps<T>(files: Seq<(T, String)>, steps: Seq<Seq<TreeNode<T>>>) -> bool {
    &&& steps.len() == files.len() + 1
    &&& steps[0].len() == 0
    &&& forall|i: int|
        0 <= i < files.len() ==> places_file(
            #[trigger] steps[i],
            steps[i + 1],
            split_slash(files[i].1@),
            files[i].0,
        )
}

/// `entries` are what an empty root holds once the uploaded `files` have
/// been put in it one after the other.
pub open spec fn built_from<T>(files: Seq<(T, String)>, entries: Seq<TreeNode<T>>) -> bool {
    exists|steps: Seq<Seq<TreeNode<T>>>| build_steps(files, steps) && steps.last() == entries
}

/// Builds the directory tree that holds the uploaded `files`, each given
/// by its content and its path with `/` between the names. Every file lands
/// once at its path, in the unnamed root; the directories on the way are
/// made as needed, and no directory has two subdirectories of one name.
pub fn build_tree_from_file_list<T>(files: Vec<(T, String)>) -> (root: DirNode<T>)
    ensures
        root.name@ == Seq::<char>::empty(),
        built_from(files@, root.entries@),
        entries_wf(root.entries@),
        entries_files(root.entries@).to_multiset() == upload_files(files@).to_multiset(),
{
    broadcast use vstd::seq_lib::group_to_multiset_ensures;

    let mut root = DirNode::root();
    let ghost all = files@;
    let mut rest = files;
    let mut done: usize = 0;
    let total = rest.len();
    assert(all.len() == total);
    assert(entries_files(root.entries@) =~= Seq::<FileEntry<T>>::empty());
    assert(upload_files(all.take(0)) =~= Seq::<FileEntry<T>>::empty());
    let ghost mut steps: Seq<Seq<TreeNode<T>>> = seq![root.entries@];
    while rest.len() > 0
        invariant
            root.name@ == Seq::<char>::empty(),
            entries_wf(root.entries@),
            all.len() <= usize::MAX,
            done + rest@.len() == all.len(),
            rest@ == all.skip(done as int),
            build_steps(all.take(done as int), steps),
            steps.last() == root.entries@,
            entries_files(root.entries@).to_multiset() == upload_files(
                all.take(done as int),
            ).to_multiset(),
        decreases rest@.len(),
    {
        let (content, path) = rest.remove(0);
        let parts = split_path(path.as_str());
        proof {
            lemma_split_slash_joins_back(path@);
        }
        let ghost before = entries_files(root.entries@);
        let ghost prev_entries = root.entries@;
        assert(parts@.len() == split_slash(path@).len());
        if !parts.is_empty() {
            root.ensure_subdirs_and_file(parts, content);
        }
        proof {
            assert(entries_files(root.entries@).to_multiset() == before.to_multiset().insert(
                (split_slash(path@), content),
            ));
            assert(all[done as int] == (content, path));
            assert(upload_files(all.take(done + 1)) =~= upload_files(all.take(done as int)).push(
                (split_slash(path@), content),
            ));
            assert(rest@ =~= all.skip(done + 1));
            assert(places_file(prev_entries, root.entries@, split_slash(path@), content));
            let grown = all.take(done + 1);
            let new_steps = steps.push(root.entries@);
            assert forall|k: int| 0 <= k < grown.len() implies places_file(
                #[trigger] new_steps[k],
                new_steps[k + 1],
                split_slash(grown[k].1@),
                grown[k].0,
            ) by {
                if k < done {
                    assert(grown[k] == all.take(done as int)[k]);
                    assert(new_steps[k] == steps[k] && new_steps[k + 1] == steps[k + 1]);
                } else {
                    assert(grown[k] == (content, path));
                }
            }
            steps = new_steps;
            let u = upload_files(all.take(done as int));
            vstd::seq_lib::to_multiset_build(u, (split_slash(path@), content));
            assert(upload_files(all.take(done + 1)).to_multiset() == upload_files(
                all.take(done as int),
            ).to_multiset().insert((split_slash(path@), content)));
        }
        done = done + 1;
    }
    assert(all.take(done as int) =~= all);
    assert(build_steps(all, steps) && steps.last() == root.entries@);
    root
}

} // verus!
