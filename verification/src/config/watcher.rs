//! Which file-system changes concern the configuration files.

use vstd::prelude::*;

use crate::chars::{chars_eq, str_to_chars};
use crate::paths::{components, path_components, Comp, CompKind};

verus! {

/// `a` is a leading part of `b`, component by component (`Path::starts_with`).
pub open spec fn comps_prefix(a: Seq<Comp>, b: Seq<Comp>) -> bool {
    a.len() <= b.len() && b.take(a.len() as int) == a
}

/// The last component where it is a normal name (`Path::file_name`).
pub open spec fn file_name_of(cs: Seq<Comp>) -> Option<Seq<char>> {
    if cs.len() > 0 && cs.last().0 == CompKind::Normal {
        Some(cs.last().1)
    } else {
        None
    }
}

/// All but the last component, unless there is none or it is the root
/// (`Path::parent`).
pub open spec fn parent_of(cs: Seq<Comp>) -> Option<Seq<Comp>> {
    if cs.len() > 0 && cs.last().0 != CompKind::RootDir {
        Some(cs.drop_last())
    } else {
        None
    }
}

/// A change at `changed` concerns `target`: the same path, a directory that
/// holds it, or an entry of the same name in the same directory.
pub open spec fn change_targets(changed: Seq<char>, target: Seq<char>) -> bool {
    let c = components(changed);
    let t = components(target);
    ||| c == t
    ||| comps_prefix(c, t)
    ||| (file_name_of(c) == file_name_of(t) && parent_of(c) == parent_of(t))
}

/// Some changed path concerns some target.
pub open spec fn changes_target(changed: Seq<Seq<char>>, targets: Seq<Seq<char>>) -> bool {
    exists|i: int, j: int|
        0 <= i < changed.len() && 0 <= j < targets.len() && #[trigger] change_targets(changed[i], targets[j])
}

pub open spec fn views(v: Seq<String>) -> Seq<Seq<char>> {
    v.map_values(|s: String| s@)
}

/// The first `n` components of `a` and `b` are the same.
fn same_comps(a: &Vec<(CompKind, Vec<char>)>, b: &Vec<(CompKind, Vec<char>)>, n: usize) -> (r: bool)
    requires
        n <= a@.len(),
        n <= b@.len(),
    ensures
        r == forall|k: int| 0 <= k < n ==> a@[k].0 == b@[k].0 && a@[k].1@ == b@[k].1@,
{
    let mut k: usize = 0;
    while k < n
        invariant
            k <= n <= a@.len(),
            n <= b@.len(),
            forall|m: int| 0 <= m < k ==> a@[m].0 == b@[m].0 && a@[m].1@ == b@[m].1@,
        decreases n - k,
    {
        if a[k].0 != b[k].0 || !chars_eq(&a[k].1, &b[k].1) {
            return false;
        }
        k = k + 1;
    }
    true
}

fn change_targets_exec(changed: &str, target: &str) -> (r: bool)
    ensures
        r == change_targets(changed@, target@),
{
    let a = path_components(&str_to_chars(changed));
    let b = path_components(&str_to_chars(target));
    let ghost c = components(changed@);
    let ghost t = components(target@);
    let prefix = a.len() <= b.len() && same_comps(&a, &b, a.len());
    let equal = prefix && a.len() == b.len();
    let na = a.len();
    let nb = b.len();
    let name_a = na > 0 && a[na - 1].0 == CompKind::Normal;
    let name_b = nb > 0 && b[nb - 1].0 == CompKind::Normal;
    let same_name = if name_a && name_b {
        chars_eq(&a[na - 1].1, &b[nb - 1].1)
    } else {
        !name_a && !name_b
    };
    let parent_a = na > 0 && a[na - 1].0 != CompKind::RootDir;
    let parent_b = nb > 0 && b[nb - 1].0 != CompKind::RootDir;
    let same_parent = if parent_a && parent_b {
        na == nb && same_comps(&a, &b, na - 1)
    } else {
        !parent_a && !parent_b
    };
    proof {
        assert forall|k: int| 0 <= k < a@.len() implies a@[k].0 == c[k].0 && a@[k].1@ == c[k].1 by {
            assert(a@[k] == a@[k]);
        }
        assert forall|k: int| 0 <= k < b@.len() implies b@[k].0 == t[k].0 && b@[k].1@ == t[k].1 by {
            assert(b@[k] == b@[k]);
        }
        assert(prefix == comps_prefix(c, t)) by {
            if a@.len() <= b@.len() {
                if prefix {
                    assert forall|k: int| 0 <= k < c.len() implies t.take(c.len() as int)[k] == c[k] by {
                        assert(a@[k].0 == b@[k].0 && a@[k].1@ == b@[k].1@);
                    }
                    assert(t.take(c.len() as int) =~= c);
                } else if t.take(c.len() as int) == c {
                    let k = choose|k: int| 0 <= k < a@.len() && !(a@[k].0 == b@[k].0 && a@[k].1@ == b@[k].1@);
                    assert(t.take(c.len() as int)[k] == c[k]);
                }
            }
        }
        assert(equal == (c == t)) by {
            if equal {
                assert(t =~= t.take(c.len() as int));
            }
        }
        assert(same_name == (file_name_of(c) == file_name_of(t)));
        assert(same_parent == (parent_of(c) == parent_of(t))) by {
            if parent_a && parent_b {
                if same_parent {
                    assert forall|k: int| 0 <= k < na - 1 implies c.drop_last()[k] == t.drop_last()[k] by {
                        assert(a@[k].0 == b@[k].0 && a@[k].1@ == b@[k].1@);
                    }
                    assert(c.drop_last() =~= t.drop_last());
                } else if na == nb && c.drop_last() == t.drop_last() {
                    let k = choose|k: int| 0 <= k < na - 1 && !(a@[k].0 == b@[k].0 && a@[k].1@ == b@[k].1@);
                    assert(c.drop_last()[k] == c[k]);
                } else if c.drop_last() == t.drop_last() {
                    assert(c.drop_last().len() == t.drop_last().len());
                }
            }
        }
    }
    equal || prefix || (same_name && same_parent)
}

/// Whether a watcher event concerns the configuration files: `None` for a
/// watcher error, which concerns nothing; otherwise the changed paths, of
/// which one must be a target, a directory holding one, or a sibling entry
/// of a target's name.
pub fn event_targets_config(event_paths: Option<Vec<String>>, targets: &Vec<String>) -> (r: bool)
    ensures
        r == match event_paths {
            None => false,
            Some(changed) => changes_target(views(changed@), views(targets@)),
        },
{
    let ghost event = event_paths;
    let changed = match event_paths {
        None => return false,
        Some(changed) => changed,
    };
    assert(event == Some(changed));
    let ghost cv = views(changed@);
    let ghost tv = views(targets@);
    let mut i: usize = 0;
    while i < changed.len()
        invariant
            i <= changed@.len(),
            cv == views(changed@),
            tv == views(targets@),
            event == Some(changed),
            event == event_paths,
            forall|x: int, y: int| 0 <= x < i && 0 <= y < tv.len() ==> !change_targets(cv[x], tv[y]),
        decreases changed.len() - i,
    {
        let mut j: usize = 0;
        while j < targets.len()
            invariant
                i < changed@.len(),
                j <= targets@.len(),
                cv == views(changed@),
                tv == views(targets@),
                event == Some(changed),
                event == event_paths,
                forall|x: int, y: int| 0 <= x < i && 0 <= y < tv.len() ==> !change_targets(cv[x], tv[y]),
                forall|y: int| 0 <= y < j ==> !change_targets(cv[i as int], tv[y]),
            decreases targets.len() - j,
        {
            if change_targets_exec(changed[i].as_str(), targets[j].as_str()) {
                assert(change_targets(cv[i as int], tv[j as int]));
                assert(changes_target(views(changed@), views(targets@)));
                return true;
            }
            j = j + 1;
        }
        i = i + 1;
    }
    false
}

} // verus!
