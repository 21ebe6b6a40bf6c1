use vstd::prelude::*;

verus! {

/// A leaf node of the tree: an identity (name and path, both opaque text)
/// and a size in bytes. A `File` is value data: built once, then only read.
pub struct File {
    pub name: String,
    pub path: String,
    pub size: u64,
}

/// Structural equality on files: name, path and size all match. This is the
/// notion of "the same file" that difference uses for its membership test.
pub open spec fn file_eq(a: File, b: File) -> bool {
    a.name@ == b.name@ && a.path@ == b.path@ && a.size == b.size
}

impl File {
    /// Pure constructor. No validation: empty text and a zero size are accepted.
    pub fn new(name: String, path: String, size: u64) -> (r: File)
        ensures
            r.name == name,
            r.path == path,
            r.size == size,
    {
        File { name, path, size }
    }
}

impl PartialEq for File {
    fn eq(&self, other: &File) -> (r: bool) {
        self.name == other.name && self.path == other.path && self.size == other.size
    }
}

impl vstd::std_specs::cmp::PartialEqSpecImpl for File {
    open spec fn obeys_eq_spec() -> bool {
        true
    }

    open spec fn eq_spec(&self, other: &File) -> bool {
        file_eq(*self, *other)
    }
}

} // verus!
