//! Which packages a package needs at run time.

use crate::config::package::Package;
use std::sync::Arc;
use vstd::prelude::*;

verus! {

/// A package and all that it needs at run time: the package itself, then, in the order in which
/// it names them, each package that it needs, with all that those need in turn.
pub open spec fn runtime_closure(pkg: Arc<Package>) -> Seq<Arc<Package>>
    decreases pkg, 1nat, 0nat,
{
    seq![pkg] + closures(pkg, pkg.runtime_dependencies@.len())
}

/// What the first `count` runtime dependencies of a package need, themselves among it.
pub open spec fn closures(pkg: Arc<Package>, count: nat) -> Seq<Arc<Package>>
    decreases pkg, 0nat, count,
{
    if count == 0 || count > pkg.runtime_dependencies@.len() {
        Seq::empty()
    } else {
        closures(pkg, (count - 1) as nat) + runtime_closure(
            pkg.runtime_dependencies@[count - 1],
        )
    }
}

/// A package only needs packages for its own platform at run time, and so do those.
pub open spec fn same_platform(pkg: Arc<Package>) -> bool
    decreases pkg, 1nat, 0nat,
{
    same_platforms(pkg, pkg.runtime_dependencies@.len())
}

/// The first `count` runtime dependencies of a package are for its platform, and so on.
pub open spec fn same_platforms(pkg: Arc<Package>, count: nat) -> bool
    decreases pkg, 0nat, count,
{
    if count == 0 || count > pkg.runtime_dependencies@.len() {
        true
    } else {
        &&& same_platforms(pkg, (count - 1) as nat)
        &&& pkg.runtime_dependencies@[count - 1].platform == pkg.platform
        &&& same_platform(pkg.runtime_dependencies@[count - 1])
    }
}

/// Whether a package only needs packages for its own platform at run time, and so do those.
pub fn check_platforms(pkg: &Arc<Package>) -> (r: bool)
    ensures
        r == same_platform(*pkg),
    decreases pkg,
{
    let mut i: usize = 0;
    let mut fine: bool = true;
    while i < pkg.runtime_dependencies.len()
        invariant
            0 <= i <= pkg.runtime_dependencies@.len(),
            fine == same_platforms(*pkg, i as nat),
        decreases pkg.runtime_dependencies@.len() - i,
    {
        let dep: &Arc<Package> = &pkg.runtime_dependencies[i];
        proof {
            assert(decreases_to!(pkg => pkg.runtime_dependencies@[i as int]));
        }
        let below: bool = check_platforms(dep);
        fine = fine && dep.platform == pkg.platform && below;
        i = i + 1;
    }
    fine
}

/// The packages that have to be processed for a package to be installed, in the order in which
/// they are processed.
pub fn resolve_package_runtime_dependencies(pkg: &Arc<Package>) -> (r: Vec<Arc<Package>>)
    requires
        same_platform(*pkg),
    ensures
        r@ == runtime_closure(*pkg),
    decreases pkg,
{
    let mut out: Vec<Arc<Package>> = Vec::new();
    out.push(pkg.clone());
    let mut i: usize = 0;
    assert(out@ =~= seq![*pkg] + closures(*pkg, 0));
    assert(same_platforms(*pkg, pkg.runtime_dependencies@.len()));
    while i < pkg.runtime_dependencies.len()
        invariant
            0 <= i <= pkg.runtime_dependencies@.len(),
            same_platforms(*pkg, pkg.runtime_dependencies@.len()),
            out@ == seq![*pkg] + closures(*pkg, i as nat),
        decreases pkg.runtime_dependencies@.len() - i,
    {
        proof {
            lemma_same_platforms(*pkg, pkg.runtime_dependencies@.len(), i as int);
            assert(decreases_to!(pkg => pkg.runtime_dependencies@[i as int]));
        }
        let ghost before = out@;
        let mut below: Vec<Arc<Package>> = resolve_package_runtime_dependencies(
            &pkg.runtime_dependencies[i],
        );
        let ghost added = below@;
        out.append(&mut below);
        proof {
            assert(out@ =~= before + added);
            assert(out@ =~= seq![*pkg] + closures(*pkg, (i + 1) as nat));
        }
        i = i + 1;
    }
    out
}

proof fn lemma_same_platforms(pkg: Arc<Package>, count: nat, i: int)
    requires
        same_platforms(pkg, count),
        0 <= i < count <= pkg.runtime_dependencies@.len(),
    ensures
        pkg.runtime_dependencies@[i].platform == pkg.platform,
        same_platform(pkg.runtime_dependencies@[i]),
    decreases count,
{
    if i < count - 1 {
        lemma_same_platforms(pkg, (count - 1) as nat, i);
    }
}

// ---------------------------------------------------------------------------
// Laws
// ---------------------------------------------------------------------------

proof fn lemma_closures_contain(pkg: Arc<Package>, count: nat, i: int, x: Arc<Package>)
    requires
        0 <= i < count <= pkg.runtime_dependencies@.len(),
        runtime_closure(pkg.runtime_dependencies@[i]).contains(x),
    ensures
        closures(pkg, count).contains(x),
    decreases count,
{
    let front = closures(pkg, (count - 1) as nat);
    let back = runtime_closure(pkg.runtime_dependencies@[count - 1]);
    if i == count - 1 {
        let k = back.index_of(x);
        assert((front + back)[front.len() + k] == x);
    } else {
        lemma_closures_contain(pkg, (count - 1) as nat, i, x);
        let k = front.index_of(x);
        assert((front + back)[k] == x);
    }
}

proof fn lemma_closures_closed(pkg: Arc<Package>, count: nat, x: Arc<Package>, j: int)
    requires
        count <= pkg.runtime_dependencies@.len(),
        closures(pkg, count).contains(x),
        0 <= j < x.runtime_dependencies@.len(),
    ensures
        closures(pkg, count).contains(x.runtime_dependencies@[j]),
    decreases pkg, 0nat, count,
{
    if count > 0 {
        let front = closures(pkg, (count - 1) as nat);
        let back = runtime_closure(pkg.runtime_dependencies@[count - 1]);
        let all = front + back;
        let y = x.runtime_dependencies@[j];
        let k = all.index_of(x);
        if k < front.len() {
            assert(front[k] == x);
            lemma_closures_closed(pkg, (count - 1) as nat, x, j);
            let m = front.index_of(y);
            assert(all[m] == y);
        } else {
            assert(back[k - front.len()] == x);
            assert(decreases_to!(pkg => pkg.runtime_dependencies@[count - 1]));
            lemma_closure_is_closed(pkg.runtime_dependencies@[count - 1], x, j);
            let m = back.index_of(y);
            assert(all[front.len() + m] == y);
        }
    }
}

/// Whatever a package in the list needs at run time is in the list, too.
pub proof fn lemma_closure_is_closed(pkg: Arc<Package>, x: Arc<Package>, j: int)
    requires
        runtime_closure(pkg).contains(x),
        0 <= j < x.runtime_dependencies@.len(),
    ensures
        runtime_closure(pkg).contains(x.runtime_dependencies@[j]),
    decreases pkg, 1nat, 0nat,
{
    let count = pkg.runtime_dependencies@.len();
    let all = runtime_closure(pkg);
    let below = closures(pkg, count);
    let y = x.runtime_dependencies@[j];
    let k = all.index_of(x);
    if k == 0 {
        assert(all[0] == pkg);
        assert(runtime_closure(y)[0] == y);
        assert(runtime_closure(pkg.runtime_dependencies@[j]).contains(y));
        lemma_closures_contain(pkg, count, j, y);
    } else {
        assert(below[k - 1] == x);
        lemma_closures_closed(pkg, count, x, j);
    }
    let m = below.index_of(y);
    assert(all[m + 1] == y);
}

proof fn lemma_closures_platform(pkg: Arc<Package>, count: nat, k: int)
    requires
        count <= pkg.runtime_dependencies@.len(),
        same_platforms(pkg, count),
        0 <= k < closures(pkg, count).len(),
    ensures
        closures(pkg, count)[k].platform == pkg.platform,
    decreases pkg, 0nat, count,
{
    if count > 0 {
        let front = closures(pkg, (count - 1) as nat);
        if k < front.len() {
            lemma_closures_platform(pkg, (count - 1) as nat, k);
        } else {
            assert(decreases_to!(pkg => pkg.runtime_dependencies@[count - 1]));
            lemma_closure_platform(pkg.runtime_dependencies@[count - 1], k - front.len());
        }
    }
}

/// All packages in the list are for the platform of the package that needs them.
pub proof fn lemma_closure_platform(pkg: Arc<Package>, k: int)
    requires
        same_platform(pkg),
        0 <= k < runtime_closure(pkg).len(),
    ensures
        runtime_closure(pkg)[k].platform == pkg.platform,
    decreases pkg, 1nat, 0nat,
{
    if k > 0 {
        lemma_closures_platform(pkg, pkg.runtime_dependencies@.len(), k - 1);
    }
}

/// The package itself is the first in the list.
pub proof fn lemma_closure_starts_with_package(pkg: Arc<Package>)
    ensures
        runtime_closure(pkg).len() > 0,
        runtime_closure(pkg)[0] == pkg,
{
}

/// A package in a list is needed at run time by one that comes before it.
pub open spec fn is_needed_before(list: Seq<Arc<Package>>, k: int) -> bool {
    exists|j: int|
        0 <= j < k && (#[trigger] list[j]).runtime_dependencies@.contains(list[k])
}

proof fn lemma_needed_within(a: Seq<Arc<Package>>, b: Seq<Arc<Package>>, c: Seq<Arc<Package>>, k: int)
    requires
        0 <= k < b.len(),
        is_needed_before(b, k),
    ensures
        is_needed_before(a + b + c, a.len() + k),
{
    let all = a + b + c;
    let j = choose|j: int| 0 <= j < k && (#[trigger] b[j]).runtime_dependencies@.contains(b[k]);
    assert(all[a.len() + j] == b[j]);
    assert(all[a.len() + k] == b[k]);
}

proof fn lemma_closures_are_needed(pkg: Arc<Package>, count: nat, k: int)
    requires
        count <= pkg.runtime_dependencies@.len(),
        0 <= k < closures(pkg, count).len(),
    ensures
        is_needed_before(seq![pkg] + closures(pkg, count), k + 1),
    decreases pkg, 0nat, count,
{
    let front = closures(pkg, (count - 1) as nat);
    let dep = pkg.runtime_dependencies@[count - 1];
    let back = runtime_closure(dep);
    let all = seq![pkg] + closures(pkg, count);
    let none = Seq::<Arc<Package>>::empty();
    if k < front.len() {
        lemma_closures_are_needed(pkg, (count - 1) as nat, k);
        lemma_needed_within(none, seq![pkg] + front, back, k + 1);
        assert(none + (seq![pkg] + front) + back =~= all);
    } else if k == front.len() {
        assert(back[0] == dep);
        assert(all[0] == pkg);
        assert(all[k + 1] == dep);
        assert(all[0].runtime_dependencies@.contains(all[k + 1]));
    } else {
        assert(decreases_to!(pkg => pkg.runtime_dependencies@[count - 1]));
        lemma_closure_is_needed(dep, k - front.len());
        lemma_needed_within(seq![pkg] + front, back, none, k - front.len());
        assert(seq![pkg] + front + back + none =~= all);
    }
}

/// Nothing is in the list that is not needed: every package in it but the first is needed at run time by
/// one that comes before it.
pub proof fn lemma_closure_is_needed(pkg: Arc<Package>, k: int)
    requires
        0 < k < runtime_closure(pkg).len(),
    ensures
        is_needed_before(runtime_closure(pkg), k),
    decreases pkg, 1nat, 0nat,
{
    lemma_closures_are_needed(pkg, pkg.runtime_dependencies@.len(), k - 1);
}

} // verus!
