use vstd::prelude::*;

use crate::file::{file_eq, File};

verus! {

/// A container node of the tree: an identity (name and path) and two child
/// collections, files and nested directories, each kept in insertion order.
/// A directory owns its children exclusively; the structure is a tree.
pub struct Directory {
    pub name: String,
    pub path: String,
    pub files: Vec<File>,
    pub directories: Vec<Directory>,
}

/// Directory equality: the names and the paths match. Children are not
/// compared: two directories with the same identity and different contents
/// are equal. This shallow rule is deliberate and callers rely on it.
pub open spec fn dir_eq(a: Directory, b: Directory) -> bool {
    a.name@ == b.name@ && a.path@ == b.path@
}

/// Some file structurally equal to `f` (name, path and size) occurs in `s`.
pub open spec fn file_in(s: Seq<File>, f: File) -> bool {
    exists|i: int| 0 <= i < s.len() && file_eq(s[i], f)
}

/// Some directory equal to `d` (name and path) occurs in `s`.
pub open spec fn dir_in(s: Seq<Directory>, d: Directory) -> bool {
    exists|i: int| 0 <= i < s.len() && dir_eq(s[i], d)
}

/// The first file in `s`, in order, whose name reads `n`; nothing when no
/// name in `s` reads `n`.
pub open spec fn first_file_named(s: Seq<File>, n: Seq<char>) -> Option<File>
    decreases s.len(),
{
    if s.len() == 0 {
        None
    } else if s[0].name@ == n {
        Some(s[0])
    } else {
        first_file_named(s.drop_first(), n)
    }
}

/// The first directory in `s`, in order, whose name reads `n`; nothing when
/// no name in `s` reads `n`.
pub open spec fn first_directory_named(s: Seq<Directory>, n: Seq<char>) -> Option<Directory>
    decreases s.len(),
{
    if s.len() == 0 {
        None
    } else if s[0].name@ == n {
        Some(s[0])
    } else {
        first_directory_named(s.drop_first(), n)
    }
}

/// The files of `l`, in order, with every file removed that occurs
/// (structurally, by name, path and size) somewhere in `r`.
pub open spec fn files_minus(l: Seq<File>, r: Seq<File>) -> Seq<File>
    decreases l.len(),
{
    if l.len() == 0 {
        Seq::empty()
    } else {
        let rest = files_minus(l.drop_last(), r);
        if file_in(r, l.last()) {
            rest
        } else {
            rest.push(l.last())
        }
    }
}

/// The directories of `l`, in order, with every directory removed that is
/// equal (by name and path) to some directory in `r`.
pub open spec fn dirs_minus(l: Seq<Directory>, r: Seq<Directory>) -> Seq<Directory>
    decreases l.len(),
{
    if l.len() == 0 {
        Seq::empty()
    } else {
        let rest = dirs_minus(l.drop_last(), r);
        if dir_in(r, l.last()) {
            rest
        } else {
            rest.push(l.last())
        }
    }
}

proof fn lemma_first_file_named_skip(s: Seq<File>, n: Seq<char>, i: int)
    requires
        0 <= i <= s.len(),
        forall|j: int| 0 <= j < i ==> s[j].name@ != n,
    ensures
        first_file_named(s, n) == first_file_named(s.subrange(i, s.len() as int), n),
    decreases i,
{
    if i == 0 {
        assert(s.subrange(0, s.len() as int) =~= s);
    } else {
        let t = s.drop_first();
        assert forall|j: int| 0 <= j < i - 1 implies t[j].name@ != n by {
            assert(t[j] == s[j + 1]);
        }
        lemma_first_file_named_skip(t, n, i - 1);
        assert(t.subrange(i - 1, t.len() as int) =~= s.subrange(i, s.len() as int));
    }
}

proof fn lemma_first_directory_named_skip(s: Seq<Directory>, n: Seq<char>, i: int)
    requires
        0 <= i <= s.len(),
        forall|j: int| 0 <= j < i ==> s[j].name@ != n,
    ensures
        first_directory_named(s, n) == first_directory_named(s.subrange(i, s.len() as int), n),
    decreases i,
{
    if i == 0 {
        assert(s.subrange(0, s.len() as int) =~= s);
    } else {
        let t = s.drop_first();
        assert forall|j: int| 0 <= j < i - 1 implies t[j].name@ != n by {
            assert(t[j] == s[j + 1]);
        }
        lemma_first_directory_named_skip(t, n, i - 1);
        assert(t.subrange(i - 1, t.len() as int) =~= s.subrange(i, s.len() as int));
    }
}

/// Whether some file of `s` is structurally equal to `f`.
fn contains_file(s: &Vec<File>, f: &File) -> (r: bool)
    ensures
        r == file_in(s@, *f),
{
    let mut i: usize = 0;
    while i < s.len()
        invariant
            i <= s@.len(),
            forall|j: int| 0 <= j < i ==> !file_eq(s@[j], *f),
        decreases s@.len() - i,
    {
        if s[i].eq(f) {
            assert(file_eq(s@[i as int], *f));
            return true;
        }
        i += 1;
    }
    false
}

/// Whether some directory of `s` is equal (by name and path) to `d`.
fn contains_directory(s: &Vec<Directory>, d: &Directory) -> (r: bool)
    ensures
        r == dir_in(s@, *d),
{
    let mut i: usize = 0;
    while i < s.len()
        invariant
            i <= s@.len(),
            forall|j: int| 0 <= j < i ==> !dir_eq(s@[j], *d),
        decreases s@.len() - i,
    {
        if s[i].eq(d) {
            assert(dir_eq(s@[i as int], *d));
            return true;
        }
        i += 1;
    }
    false
}

impl Directory {
    /// A directory with the given identity and no children.
    pub fn new(name: String, path: String) -> (r: Directory)
        ensures
            r.name == name,
            r.path == path,
            r.files@ == Seq::<File>::empty(),
            r.directories@ == Seq::<Directory>::empty(),
    {
        Directory { name, path, files: Vec::new(), directories: Vec::new() }
    }

    /// The directory's display name.
    pub fn name(&self) -> (r: &str)
        ensures
            r@ == self.name@,
    {
        self.name.as_str()
    }

    /// The directory's path text.
    pub fn path(&self) -> (r: &str)
        ensures
            r@ == self.path@,
    {
        self.path.as_str()
    }

    /// The child files, in insertion order.
    pub fn files(&self) -> (r: &Vec<File>)
        ensures
            r == &self.files,
    {
        &self.files
    }

    /// The child directories, in insertion order.
    pub fn directories(&self) -> (r: &Vec<Directory>)
        ensures
            r == &self.directories,
    {
        &self.directories
    }

    /// Appends a file to the child files. Duplicates are not detected.
    pub fn add_file(&mut self, file: File)
        ensures
            final(self).name == old(self).name,
            final(self).path == old(self).path,
            final(self).files@ == old(self).files@.push(file),
            final(self).directories == old(self).directories,
    {
        self.files.push(file);
    }

    /// Appends a directory to the child directories. Duplicates are not detected.
    pub fn add_directory(&mut self, directory: Directory)
        ensures
            final(self).name == old(self).name,
            final(self).path == old(self).path,
            final(self).files == old(self).files,
            final(self).directories@ == old(self).directories@.push(directory),
    {
        self.directories.push(directory);
    }

    /// The first child file, in insertion order, whose name equals `name`;
    /// nothing when no child file's name matches. Only the name is compared,
    /// never the path, and grandchildren are never searched.
    pub fn get_file(&self, name: &str) -> (r: Option<&File>)
        ensures
            (match r {
                Some(f) => first_file_named(self.files@, name@) == Some(*f),
                None => first_file_named(self.files@, name@) is None,
            }),
    {
        let target: String = name.to_owned();
        let mut i: usize = 0;
        while i < self.files.len()
            invariant
                i <= self.files@.len(),
                target@ == name@,
                forall|j: int| 0 <= j < i ==> self.files@[j].name@ != name@,
            decreases self.files@.len() - i,
        {
            if self.files[i].name == target {
                proof {
                    lemma_first_file_named_skip(self.files@, name@, i as int);
                    let sub = self.files@.subrange(i as int, self.files@.len() as int);
                    assert(sub[0] == self.files@[i as int]);
                }
                return Some(&self.files[i]);
            }
            i += 1;
        }
        proof {
            lemma_first_file_named_skip(self.files@, name@, i as int);
        }
        None
    }

    /// The first child directory, in insertion order, whose name equals
    /// `name`; nothing when no child directory's name matches. Direct
    /// children only: the search never recurses.
    pub fn get_directory(&self, name: &str) -> (r: Option<&Directory>)
        ensures
            (match r {
                Some(d) => first_directory_named(self.directories@, name@) == Some(*d),
                None => first_directory_named(self.directories@, name@) is None,
            }),
    {
        let target: String = name.to_owned();
        let mut i: usize = 0;
        while i < self.directories.len()
            invariant
                i <= self.directories@.len(),
                target@ == name@,
                forall|j: int| 0 <= j < i ==> self.directories@[j].name@ != name@,
            decreases self.directories@.len() - i,
        {
            if self.directories[i].name == target {
                proof {
                    lemma_first_directory_named_skip(self.directories@, name@, i as int);
                    let sub = self.directories@.subrange(
                        i as int,
                        self.directories@.len() as int,
                    );
                    assert(sub[0] == self.directories@[i as int]);
                }
                return Some(&self.directories[i]);
            }
            i += 1;
        }
        proof {
            lemma_first_directory_named_skip(self.directories@, name@, i as int);
        }
        None
    }

    /// The directory compared against bare text: true when the text equals
    /// the name or the path. Note the asymmetry with directory-to-directory
    /// equality, which asks that name and path both match.
    pub fn eq_text(&self, text: &str) -> (r: bool)
        ensures
            r == (self.name@ == text@ || self.path@ == text@),
    {
        let t: String = text.to_owned();
        self.name == t || self.path == t
    }

    /// Consumes the directory and yields its path text, discarding the name
    /// and the children.
    pub fn into_path(self) -> (r: String)
        ensures
            r == self.path,
    {
        self.path
    }

    /// Union: a directory with `self`'s name and path whose children are
    /// `self`'s followed by `other`'s, files and directories alike. Plain
    /// concatenation: duplicates are kept, and the result's identity always
    /// comes from the left operand.
    pub fn union(self, other: Directory) -> (r: Directory)
        ensures
            r.name == self.name,
            r.path == self.path,
            r.files@ == self.files@ + other.files@,
            r.directories@ == self.directories@ + other.directories@,
    {
        let mut a = self;
        let mut b = other;
        a.files.append(&mut b.files);
        a.directories.append(&mut b.directories);
        a
    }

    /// Difference: a directory with `self`'s name and path whose child files
    /// are `self`'s with every file removed that occurs structurally in
    /// `other`, and whose child directories are `self`'s with every directory
    /// removed that is equal (by name and path) to one of `other`'s.
    pub fn difference(self, other: Directory) -> (r: Directory)
        ensures
            r.name == self.name,
            r.path == self.path,
            r.files@ == files_minus(self.files@, other.files@),
            r.directories@ == dirs_minus(self.directories@, other.directories@),
    {
        let ghost g = self;
        let mut a = self;

        let mut kept_files: Vec<File> = Vec::new();
        proof {
            assert(files_minus(g.files@, other.files@) + kept_files@
                =~= files_minus(g.files@, other.files@));
        }
        while a.files.len() > 0
            invariant
                a.name == g.name,
                a.path == g.path,
                a.directories == g.directories,
                files_minus(g.files@, other.files@)
                    == files_minus(a.files@, other.files@) + kept_files@,
            decreases a.files@.len(),
        {
            let ghost before = a.files@;
            let ghost kept_before = kept_files@;
            let f = a.files.pop().unwrap();
            proof {
                assert(a.files@ =~= before.drop_last());
                assert(f == before.last());
            }
            if contains_file(&other.files, &f) {
                proof {
                    assert(files_minus(before, other.files@)
                        == files_minus(a.files@, other.files@));
                }
            } else {
                kept_files.insert(0, f);
                proof {
                    assert(kept_files@ =~= seq![f] + kept_before);
                    assert(files_minus(before, other.files@)
                        == files_minus(a.files@, other.files@).push(f));
                    assert(files_minus(a.files@, other.files@).push(f) + kept_before
                        =~= files_minus(a.files@, other.files@) + (seq![f] + kept_before));
                }
            }
        }
        proof {
            assert(files_minus(a.files@, other.files@) + kept_files@ =~= kept_files@);
        }

        let mut kept_dirs: Vec<Directory> = Vec::new();
        proof {
            assert(dirs_minus(g.directories@, other.directories@) + kept_dirs@
                =~= dirs_minus(g.directories@, other.directories@));
        }
        while a.directories.len() > 0
            invariant
                a.name == g.name,
                a.path == g.path,
                dirs_minus(g.directories@, other.directories@)
                    == dirs_minus(a.directories@, other.directories@) + kept_dirs@,
            decreases a.directories@.len(),
        {
            let ghost before = a.directories@;
            let ghost kept_before = kept_dirs@;
            let d = a.directories.pop().unwrap();
            proof {
                assert(a.directories@ =~= before.drop_last());
                assert(d == before.last());
            }
            if contains_directory(&other.directories, &d) {
                proof {
                    assert(dirs_minus(before, other.directories@)
                        == dirs_minus(a.directories@, other.directories@));
                }
            } else {
                kept_dirs.insert(0, d);
                proof {
                    assert(kept_dirs@ =~= seq![d] + kept_before);
                    assert(dirs_minus(before, other.directories@)
                        == dirs_minus(a.directories@, other.directories@).push(d));
                    assert(dirs_minus(a.directories@, other.directories@).push(d) + kept_before
                        =~= dirs_minus(a.directories@, other.directories@) + (seq![d]
                        + kept_before));
                }
            }
        }
        proof {
            assert(dirs_minus(a.directories@, other.directories@) + kept_dirs@ =~= kept_dirs@);
        }

        a.files = kept_files;
        a.directories = kept_dirs;
        a
    }

    /// Union in place: appends `other`'s children to `self`'s, keeping
    /// `self`'s identity. This compound form really mutates the receiver —
    /// the combined value is written back to `self`, as the ensures state.
    pub fn union_assign(&mut self, other: Directory)
        ensures
            final(self).name == old(self).name,
            final(self).path == old(self).path,
            final(self).files@ == old(self).files@ + other.files@,
            final(self).directories@ == old(self).directories@ + other.directories@,
    {
        let mut b = other;
        self.files.append(&mut b.files);
        self.directories.append(&mut b.directories);
    }

    /// Difference in place: removes from `self`'s children everything that
    /// occurs in `other`, keeping `self`'s identity. This compound form
    /// really mutates the receiver — the reduced value is written back to
    /// `self`, as the ensures state.
    pub fn difference_assign(&mut self, other: Directory)
        ensures
            final(self).name == old(self).name,
            final(self).path == old(self).path,
            final(self).files@ == files_minus(old(self).files@, other.files@),
            final(self).directories@ == dirs_minus(old(self).directories@, other.directories@),
    {
        let mut taken = Directory::new(String::new(), String::new());
        core::mem::swap(self, &mut taken);
        let mut result = taken.difference(other);
        core::mem::swap(self, &mut result);
    }
}

impl PartialEq for Directory {
    fn eq(&self, other: &Directory) -> (r: bool) {
        self.name == other.name && self.path == other.path
    }
}

impl vstd::std_specs::cmp::PartialEqSpecImpl for Directory {
    open spec fn obeys_eq_spec() -> bool {
        true
    }

    open spec fn eq_spec(&self, other: &Directory) -> bool {
        dir_eq(*self, *other)
    }
}

/// A fluent, consuming builder: accumulates an identity and children, then
/// produces the directory in one finalizing call.
pub struct DirectoryBuilder {
    pub name: String,
    pub path: String,
    pub files: Vec<File>,
    pub directories: Vec<Directory>,
}

impl DirectoryBuilder {
    /// A builder holding the given identity and no children yet.
    pub fn new(name: String, path: String) -> (r: DirectoryBuilder)
        ensures
            r.name == name,
            r.path == path,
            r.files@ == Seq::<File>::empty(),
            r.directories@ == Seq::<Directory>::empty(),
    {
        DirectoryBuilder { name, path, files: Vec::new(), directories: Vec::new() }
    }

    /// Appends one file, returning the builder for chaining.
    pub fn add_file(self, file: File) -> (r: DirectoryBuilder)
        ensures
            r.name == self.name,
            r.path == self.path,
            r.files@ == self.files@.push(file),
            r.directories == self.directories,
    {
        let mut b = self;
        b.files.push(file);
        b
    }

    /// Appends one directory, returning the builder for chaining.
    pub fn add_directory(self, directory: Directory) -> (r: DirectoryBuilder)
        ensures
            r.name == self.name,
            r.path == self.path,
            r.files == self.files,
            r.directories@ == self.directories@.push(directory),
    {
        let mut b = self;
        b.directories.push(directory);
        b
    }

    /// Replaces the accumulated files wholesale with the given collection —
    /// unlike the singular `add_file`, which appends one.
    pub fn add_files(self, files: Vec<File>) -> (r: DirectoryBuilder)
        ensures
            r.name == self.name,
            r.path == self.path,
            r.files == files,
            r.directories == self.directories,
    {
        let mut b = self;
        b.files = files;
        b
    }

    /// Replaces the accumulated directories wholesale with the given
    /// collection — unlike the singular `add_directory`, which appends one.
    pub fn add_directories(self, directories: Vec<Directory>) -> (r: DirectoryBuilder)
        ensures
            r.name == self.name,
            r.path == self.path,
            r.files == self.files,
            r.directories == directories,
    {
        let mut b = self;
        b.directories = directories;
        b
    }

    /// Finalizes the builder: a directory with exactly the accumulated
    /// identity and children. Cannot fail.
    pub fn build(self) -> (r: Directory)
        ensures
            r.name == self.name,
            r.path == self.path,
            r.files == self.files,
            r.directories == self.directories,
    {
        Directory {
            name: self.name,
            path: self.path,
            files: self.files,
            directories: self.directories,
        }
    }
}

} // verus!
