//! The descriptor set: which packages of the workspace are commands, and in
//! which order their descriptors stand. A package named `humility-cmd-` and a
//! name is the command of that name; the commands are taken once each, in
//! ascending order, so that help and documentation do not depend on the order
//! in which the packages are found.

use vstd::prelude::*;
use crate::text::{chars_of, text_of};

verus! {

/// What the name of a command's package begins with.
pub open spec fn package_prefix() -> Seq<char> {
    "humility-cmd-"@
}

/// The command that a package holds, if its name says that it holds one.
pub open spec fn command_of(package: Seq<char>) -> Option<Seq<char>> {
    let n = package_prefix().len() as int;
    if package.len() >= n && package.take(n) == package_prefix() {
        Some(package.skip(n))
    } else {
        None
    }
}

/// Whether `a` stands before `b`: at the first place where they differ `a`
/// has ended or has the lesser character.
pub open spec fn precedes(a: Seq<char>, b: Seq<char>) -> bool {
    exists|k: int| differ_at(a, b, k)
}

/// `a` and `b` agree before place `k`, and there `a` has ended or has the
/// lesser character.
pub open spec fn differ_at(a: Seq<char>, b: Seq<char>, k: int) -> bool {
    &&& 0 <= k <= a.len()
    &&& k < b.len()
    &&& a.take(k) == b.take(k)
    &&& k < a.len() ==> a[k] < b[k]
}

/// Each name stands before the names behind it: ascending, and none twice.
pub open spec fn ascending(names: Seq<Seq<char>>) -> bool {
    forall|i: int, j: int| 0 <= i < j < names.len() ==> precedes(names[i], names[j])
}

/// Whether the command `name` is among the first `n` packages.
pub open spec fn found_in(packages: Seq<Seq<char>>, n: int, name: Seq<char>) -> bool {
    exists|i: int| 0 <= i < n && i < packages.len() && #[trigger] command_of(packages[i]) == Some(name)
}

/// The names of the packages.
pub open spec fn views(packages: Seq<String>) -> Seq<Seq<char>> {
    Seq::new(packages.len(), |i: int| packages[i]@)
}

/// The characters of the names.
pub open spec fn texts(names: Seq<Vec<char>>) -> Seq<Seq<char>> {
    Seq::new(names.len(), |i: int| names[i]@)
}

/// The order is transitive.
pub proof fn lemma_precedes_transitive(a: Seq<char>, b: Seq<char>, c: Seq<char>)
    requires
        precedes(a, b),
        precedes(b, c),
    ensures
        precedes(a, c),
{
    let k1 = choose|k: int| differ_at(a, b, k);
    let k2 = choose|k: int| differ_at(b, c, k);
    let k = if k1 < k2 { k1 } else { k2 };
    assert(a.take(k) =~= c.take(k)) by {
        assert forall|i: int| 0 <= i < k implies a[i] == c[i] by {
            assert(a.take(k1)[i] == b.take(k1)[i]);
            assert(b.take(k2)[i] == c.take(k2)[i]);
        }
    }
    if k1 < k2 {
        assert(b.take(k2)[k1] == c.take(k2)[k1]);
    } else if k2 < k1 {
        assert(a.take(k1)[k2] == b.take(k1)[k2]);
    }
    assert(differ_at(a, c, k));
}

/// Compares two names: whether the first stands before the second, and
/// whether they are the same. Where neither holds the second stands before
/// the first.
fn compare(a: &Vec<char>, b: &Vec<char>) -> (r: (bool, bool))
    ensures
        r.0 == precedes(a@, b@),
        r.1 == (a@ == b@),
        !r.0 && !r.1 ==> precedes(b@, a@),
        !(r.0 && r.1),
{
    let mut i: usize = 0;
    assert(a@.take(0) =~= b@.take(0));
    while i < a.len() && i < b.len() && a[i] == b[i]
        invariant
            i <= a@.len(),
            i <= b@.len(),
            a@.take(i as int) == b@.take(i as int),
        decreases a@.len() - i,
    {
        assert(a@.take(i + 1) =~= a@.take(i as int).push(a@[i as int]));
        assert(b@.take(i + 1) =~= b@.take(i as int).push(b@[i as int]));
        i += 1;
    }
    let less: bool = if i == a.len() {
        i < b.len()
    } else if i == b.len() {
        false
    } else {
        let left: char = a[i];
        let right: char = b[i];
        left < right
    };
    let same: bool = i == a.len() && i == b.len();
    proof {
        let n = i as int;
        if same {
            assert(a@.take(n) =~= a@);
            assert(b@.take(n) =~= b@);
        }
        if less {
            assert(differ_at(a@, b@, n));
        } else {
            assert forall|k: int| !differ_at(a@, b@, k) by {
                if differ_at(a@, b@, k) {
                    if k < n {
                        assert(a@.take(n)[k] == b@.take(n)[k]);
                    } else if k > n {
                        if n < a@.len() && n < b@.len() {
                            assert(a@.take(k)[n] == b@.take(k)[n]);
                        } else if n == b@.len() {
                        } else {
                        }
                    }
                }
            }
        }
        if !less && !same {
            assert(differ_at(b@, a@, n));
        }
        if less {
            assert(a@.len() != b@.len() || a@[n] != b@[n]);
        }
    }
    (less, same)
}

/// The command of a package, if its name says that it holds one.
fn strip(package: &Vec<char>) -> (r: Option<Vec<char>>)
    ensures
        match r {
            Some(name) => command_of(package@) == Some(name@),
            None => command_of(package@) is None,
        },
{
    let prefix: Vec<char> = chars_of("humility-cmd-");
    let n: usize = prefix.len();
    if package.len() < n {
        return None;
    }
    let mut i: usize = 0;
    assert(package@.take(0) =~= prefix@.take(0));
    while i < n
        invariant
            n == prefix@.len(),
            prefix@ == package_prefix(),
            n <= package@.len(),
            i <= n,
            package@.take(i as int) == prefix@.take(i as int),
        decreases n - i,
    {
        if package[i] != prefix[i] {
            assert(package@.take(n as int)[i as int] != package_prefix()[i as int]);
            return None;
        }
        assert(package@.take(i + 1) =~= package@.take(i as int).push(package@[i as int]));
        assert(prefix@.take(i + 1) =~= prefix@.take(i as int).push(prefix@[i as int]));
        i += 1;
    }
    assert(prefix@.take(n as int) =~= prefix@);
    let mut name: Vec<char> = Vec::new();
    let mut j: usize = n;
    assert(name@ =~= package@.subrange(n as int, n as int));
    while j < package.len()
        invariant
            n <= j <= package@.len(),
            name@ == package@.subrange(n as int, j as int),
        decreases package@.len() - j,
    {
        name.push(package[j]);
        j += 1;
        assert(name@ =~= package@.subrange(n as int, j as int));
    }
    assert(name@ =~= package@.skip(n as int));
    Some(name)
}

/// Puts a name into an ascending list, unless it is there.
fn insert(names: &mut Vec<Vec<char>>, name: Vec<char>)
    requires
        ascending(texts(old(names)@)),
    ensures
        ascending(texts(final(names)@)),
        forall|other: Seq<char>|
            texts(final(names)@).contains(other) <==> (texts(old(names)@).contains(other) || other
                == name@),
{
    let ghost given = texts(names@);
    let mut i: usize = 0;
    let mut here: bool = false;
    while i < names.len() && !here
        invariant
            names@ == old(names)@,
            given == texts(names@),
            ascending(given),
            i <= names@.len(),
            here ==> i < names@.len() && precedes(name@, given[i as int]),
            forall|j: int| 0 <= j < i ==> precedes(#[trigger] given[j], name@),
        decreases names@.len() - i + (if here { 0int } else { 1int }),
    {
        let (less, same) = compare(&names[i], &name);
        assert(given[i as int] == names@[i as int]@);
        if same {
            assert(given.contains(name@));
            return ;
        }
        if less {
            i += 1;
        } else {
            here = true;
        }
    }
    let ghost x = name@;
    proof {
        if i < names@.len() {
            assert(precedes(x, given[i as int]));
            assert forall|j: int| i < j < given.len() implies precedes(x, #[trigger] given[j]) by {
                lemma_precedes_transitive(x, given[i as int], given[j]);
            }
        }
    }
    names.insert(i, name);
    proof {
        let now = texts(names@);
        assert(now.len() == given.len() + 1);
        assert forall|j: int| 0 <= j < now.len() implies #[trigger] now[j] == (if j < i {
            given[j]
        } else if j == i {
            x
        } else {
            given[j - 1]
        }) by {
            assert(now[j] == names@[j]@);
            if j < i {
                assert(given[j] == old(names)@[j]@);
            } else if j > i {
                assert(given[j - 1] == old(names)@[j - 1]@);
            }
        }
        assert forall|a: int, b: int| 0 <= a < b < now.len() implies precedes(now[a], now[b]) by {
            assert(now[a] == (if a < i { given[a] } else if a == i { x } else { given[a - 1] }));
            assert(now[b] == (if b < i { given[b] } else if b == i { x } else { given[b - 1] }));
        }
        assert forall|other: Seq<char>| now.contains(other) <==> (given.contains(other) || other
            == x) by {
            if now.contains(other) {
                let j = choose|j: int| 0 <= j < now.len() && now[j] == other;
                if j < i {
                    assert(given[j] == other);
                } else if j > i {
                    assert(given[j - 1] == other);
                }
            }
            if given.contains(other) {
                let j = choose|j: int| 0 <= j < given.len() && given[j] == other;
                if j < i {
                    assert(now[j] == other);
                } else {
                    assert(now[j + 1] == other);
                }
            }
            if other == x {
                assert(now[i as int] == other);
            }
        }
    }
}

/// The commands among the packages of a workspace: the name of each package
/// that holds one, once each, in ascending order.
pub fn command_names(packages: &Vec<String>) -> (names: Vec<String>)
    ensures
        ascending(views(names@)),
        forall|name: Seq<char>|
            views(names@).contains(name) <==> found_in(views(packages@), packages@.len() as int, name),
{
    let ghost all = views(packages@);
    let mut sorted: Vec<Vec<char>> = Vec::new();
    let mut i: usize = 0;
    assert forall|name: Seq<char>| texts(sorted@).contains(name) <==> found_in(all, 0, name) by {
        assert(texts(sorted@).len() == 0);
    }
    while i < packages.len()
        invariant
            i <= packages@.len(),
            all == views(packages@),
            ascending(texts(sorted@)),
            forall|name: Seq<char>| texts(sorted@).contains(name) <==> found_in(all, i as int, name),
        decreases packages@.len() - i,
    {
        let ghost before = texts(sorted@);
        let package: Vec<char> = chars_of(packages[i].as_str());
        assert(package@ == all[i as int]);
        match strip(&package) {
            Some(name) => {
                let ghost x = name@;
                insert(&mut sorted, name);
                assert forall|other: Seq<char>| texts(sorted@).contains(other) <==> found_in(
                    all,
                    i + 1,
                    other,
                ) by {
                    if found_in(all, i + 1, other) {
                        let j = choose|j: int|
                            0 <= j < i + 1 && j < all.len() && #[trigger] command_of(all[j]) == Some(
                                other,
                            );
                        if j < i {
                            assert(found_in(all, i as int, other));
                        }
                    }
                    if before.contains(other) {
                        assert(found_in(all, i as int, other));
                        let j = choose|j: int|
                            0 <= j < i && j < all.len() && #[trigger] command_of(all[j]) == Some(other);
                        assert(command_of(all[j]) == Some(other));
                    }
                    if other == x {
                        assert(command_of(all[i as int]) == Some(other));
                    }
                }
            },
            None => {
                assert forall|other: Seq<char>| found_in(all, i + 1, other) implies found_in(
                    all,
                    i as int,
                    other,
                ) by {
                    let j = choose|j: int|
                        0 <= j < i + 1 && j < all.len() && #[trigger] command_of(all[j]) == Some(other);
                    assert(j < i);
                }
                assert forall|other: Seq<char>| found_in(all, i as int, other) implies found_in(
                    all,
                    i + 1,
                    other,
                ) by {
                    let j = choose|j: int|
                        0 <= j < i && j < all.len() && #[trigger] command_of(all[j]) == Some(other);
                    assert(command_of(all[j]) == Some(other));
                }
                assert forall|other: Seq<char>| texts(sorted@).contains(other) <==> found_in(
                    all,
                    i + 1,
                    other,
                ) by {
                    assert(texts(sorted@).contains(other) <==> found_in(all, i as int, other));
                }
            },
        }
        i += 1;
    }
    let mut names: Vec<String> = Vec::new();
    let mut k: usize = 0;
    while k < sorted.len()
        invariant
            k <= sorted@.len(),
            names@.len() == k,
            forall|j: int| 0 <= j < k ==> (#[trigger] names@[j])@ == sorted@[j]@,
        decreases sorted@.len() - k,
    {
        names.push(text_of(&sorted[k]));
        k += 1;
    }
    assert(views(names@) =~= texts(sorted@));
    names
}

} // verus!
