use vstd::prelude::*;

use crate::directory::{dir_eq, first_directory_named, first_file_named, Directory};
use crate::file::File;

verus! {

/// The sequence reached from `init` by appending the items of `added` one at
/// a time, in order — the effect of repeated single additions, whether made
/// through `Directory::add_file`/`add_directory` or through the builder's
/// `add_file`/`add_directory`, each of which pushes exactly one item.
pub open spec fn added_one_by_one<T>(init: Seq<T>, added: Seq<T>) -> Seq<T>
    decreases added.len(),
{
    if added.len() == 0 {
        init
    } else {
        added_one_by_one(init.push(added[0]), added.drop_first())
    }
}

/// Law: single additions append in order. Repeatedly adding the items of
/// `added` leaves the initial contents followed by exactly those items; since
/// `DirectoryBuilder::build` hands the accumulated collections over
/// unchanged, a directory assembled with `new` + `add_*` and one built by the
/// builder from the same identity and the same additions hold equal children
/// in the same order.
pub proof fn lemma_additions_append_in_order<T>(init: Seq<T>, added: Seq<T>)
    ensures
        added_one_by_one(init, added) == init + added,
    decreases added.len(),
{
    if added.len() == 0 {
        assert(init + added =~= init);
    } else {
        lemma_additions_append_in_order(init.push(added[0]), added.drop_first());
        assert(init.push(added[0]) + added.drop_first() =~= init + added);
    }
}

/// Law: directory equality is an equivalence relation — reflexive, symmetric
/// and transitive.
pub proof fn lemma_dir_eq_equivalence(a: Directory, b: Directory, c: Directory)
    ensures
        dir_eq(a, a),
        dir_eq(a, b) ==> dir_eq(b, a),
        dir_eq(a, b) && dir_eq(b, c) ==> dir_eq(a, c),
{
}

/// Law: directory equality depends only on name and path. Whatever the two
/// directories hold as children, matching identities make them equal.
pub proof fn lemma_dir_eq_ignores_children(a: Directory, b: Directory)
    requires
        a.name@ == b.name@,
        a.path@ == b.path@,
    ensures
        dir_eq(a, b),
{
}

/// Law: the lookup specification picks the lowest-index match. It yields
/// nothing exactly when no file of `s` is named `n`, and otherwise a file of
/// `s` named `n` before which no file of `s` is named `n`. `get_file`
/// returns precisely this value, so the first match in insertion order.
pub proof fn lemma_first_file_named_is_first(s: Seq<File>, n: Seq<char>)
    ensures
        (first_file_named(s, n) is None) <==> (forall|i: int|
            0 <= i < s.len() ==> s[i].name@ != n),
        first_file_named(s, n) matches Some(f) ==> exists|i: int|
            0 <= i < s.len() && s[i] == f && s[i].name@ == n && (forall|j: int|
                0 <= j < i ==> s[j].name@ != n),
    decreases s.len(),
{
    if s.len() == 0 {
    } else if s[0].name@ == n {
        assert(0 <= 0 < s.len() && s[0] == s[0] && s[0].name@ == n && (forall|j: int|
            0 <= j < 0 ==> s[j].name@ != n));
    } else {
        let t = s.drop_first();
        lemma_first_file_named_is_first(t, n);
        if first_file_named(s, n) is None {
            assert forall|i: int| 0 <= i < s.len() implies s[i].name@ != n by {
                if i > 0 {
                    assert(t[i - 1] == s[i]);
                }
            }
        }
        if forall|i: int| 0 <= i < s.len() ==> s[i].name@ != n {
            assert forall|i: int| 0 <= i < t.len() implies t[i].name@ != n by {
                assert(t[i] == s[i + 1]);
            }
        }
        if first_file_named(s, n) is Some {
            let f = first_file_named(s, n)->Some_0;
            let ip = choose|ip: int|
                0 <= ip < t.len() && t[ip] == f && t[ip].name@ == n && (forall|j: int|
                    0 <= j < ip ==> t[j].name@ != n);
            let i = ip + 1;
            assert(s[i] == t[ip]);
            assert forall|j: int| 0 <= j < i implies s[j].name@ != n by {
                if j > 0 {
                    assert(t[j - 1] == s[j]);
                }
            }
            assert(0 <= i < s.len() && s[i] == f && s[i].name@ == n && (forall|j: int|
                0 <= j < i ==> s[j].name@ != n));
        }
    }
}

/// Law: the lookup specification for child directories picks the
/// lowest-index match, exactly as `lemma_first_file_named_is_first` states
/// for files. `get_directory` returns precisely this value, and searches
/// direct children only.
pub proof fn lemma_first_directory_named_is_first(s: Seq<Directory>, n: Seq<char>)
    ensures
        (first_directory_named(s, n) is None) <==> (forall|i: int|
            0 <= i < s.len() ==> s[i].name@ != n),
        first_directory_named(s, n) matches Some(d) ==> exists|i: int|
            0 <= i < s.len() && s[i] == d && s[i].name@ == n && (forall|j: int|
                0 <= j < i ==> s[j].name@ != n),
    decreases s.len(),
{
    if s.len() == 0 {
    } else if s[0].name@ == n {
        assert(0 <= 0 < s.len() && s[0] == s[0] && s[0].name@ == n && (forall|j: int|
            0 <= j < 0 ==> s[j].name@ != n));
    } else {
        let t = s.drop_first();
        lemma_first_directory_named_is_first(t, n);
        if first_directory_named(s, n) is None {
            assert forall|i: int| 0 <= i < s.len() implies s[i].name@ != n by {
                if i > 0 {
                    assert(t[i - 1] == s[i]);
                }
            }
        }
        if forall|i: int| 0 <= i < s.len() ==> s[i].name@ != n {
            assert forall|i: int| 0 <= i < t.len() implies t[i].name@ != n by {
                assert(t[i] == s[i + 1]);
            }
        }
        if first_directory_named(s, n) is Some {
            let d = first_directory_named(s, n)->Some_0;
            let ip = choose|ip: int|
                0 <= ip < t.len() && t[ip] == d && t[ip].name@ == n && (forall|j: int|
                    0 <= j < ip ==> t[j].name@ != n);
            let i = ip + 1;
            assert(s[i] == t[ip]);
            assert forall|j: int| 0 <= j < i implies s[j].name@ != n by {
                if j > 0 {
                    assert(t[j - 1] == s[j]);
                }
            }
            assert(0 <= i < s.len() && s[i] == d && s[i].name@ == n && (forall|j: int|
                0 <= j < i ==> s[j].name@ != n));
        }
    }
}

/// Law: union keeps the left operand's identity, so it is not commutative in
/// general. With `ab` named and placed as a union with `a` on the left, and
/// `ba` as a union with `b` on the left, the two results are equal
/// directories only when the operands' identities already agree.
pub proof fn lemma_union_keeps_left_identity(a: Directory, b: Directory, ab: Directory, ba: Directory)
    requires
        ab.name@ == a.name@ && ab.path@ == a.path@,
        ba.name@ == b.name@ && ba.path@ == b.path@,
    ensures
        dir_eq(ab, ba) <==> dir_eq(a, b),
{
}

/// Law: path round trip. A fresh directory made from a directory's own name
/// and its path text — what `into_path` yields — is equal to the directory
/// it came from, by the name-and-path equality rule.
pub proof fn lemma_path_round_trip(d: Directory, rebuilt: Directory)
    requires
        rebuilt.name@ == d.name@,
        rebuilt.path@ == d.path@,
    ensures
        dir_eq(rebuilt, d),
{
}

} // verus!
