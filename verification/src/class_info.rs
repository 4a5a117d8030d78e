use vstd::prelude::*;
use crate::sendtables::Serializer;
use crate::strings::str_eq;

verus! {

/// One class of the class-info message: its id and network name, each of
/// which may be missing.
#[derive(Debug)]
pub struct ClassEntry {
    pub class_id: Option<i32>,
    pub network_name: Option<String>,
}

/// The class-info message: every entity class of the demo.
#[derive(Debug)]
pub struct ClassInfoMsg {
    pub classes: Vec<ClassEntry>,
}

/// The id of a class, 0 where it is missing.
pub open spec fn class_id_of(c: ClassEntry) -> i32 {
    match c.class_id {
        Some(x) => x,
        None => 0,
    }
}

/// The network name of a class, empty where it is missing.
pub open spec fn class_name_of(c: ClassEntry) -> Seq<char> {
    match c.network_name {
        Some(n) => n@,
        None => Seq::empty(),
    }
}

/// The position of the last serializer named `name`: the one a map from
/// names, filled in order, holds.
pub open spec fn last_named(sers: Seq<Serializer>, name: Seq<char>) -> Option<int>
    decreases sers.len(),
{
    if sers.len() == 0 {
        None
    } else if sers.last().name@ == name {
        Some(sers.len() - 1)
    } else {
        last_named(sers.drop_last(), name)
    }
}

/// The last serializer of a name is named so, and none after it is.
proof fn lemma_last_named(sers: Seq<Serializer>, name: Seq<char>)
    ensures
        match last_named(sers, name) {
            Some(j) => 0 <= j < sers.len() && sers[j].name@ == name
                && forall|t: int| j < t < sers.len() ==> #[trigger] sers[t].name@ != name,
            None => forall|t: int| 0 <= t < sers.len() ==> #[trigger] sers[t].name@ != name,
        },
    decreases sers.len(),
{
    if sers.len() > 0 {
        lemma_last_named(sers.drop_last(), name);
        assert forall|t: int| 0 <= t < sers.len() - 1 implies #[trigger] sers[t] == sers.drop_last()[t] by {}
    }
}

/// Some class before position `n` has network name `name`.
pub open spec fn name_seen(classes: Seq<ClassEntry>, n: int, name: Seq<char>) -> bool {
    exists|i: int| 0 <= i < n && #[trigger] class_name_of(classes[i]) == name
}

/// Class `i` takes a serializer: one has its name, and no earlier class
/// took it (a serializer is taken out when a class first names it).
pub open spec fn takes_serializer(classes: Seq<ClassEntry>, sers: Seq<Serializer>, i: int) -> bool {
    last_named(sers, class_name_of(classes[i])) is Some && !name_seen(classes, i, class_name_of(classes[i]))
}

/// The serializer that slot `k` holds after the first `n` classes: that of
/// the last of them to take one with id `k`.
pub open spec fn slot_source(classes: Seq<ClassEntry>, sers: Seq<Serializer>, n: int, k: int) -> Option<int>
    decreases n,
{
    if n <= 0 {
        None
    } else if takes_serializer(classes, sers, n - 1) && class_id_of(classes[n - 1]) as int == k {
        last_named(sers, class_name_of(classes[n - 1]))
    } else {
        slot_source(classes, sers, n - 1, k)
    }
}

/// A serializer with no name and no fields.
pub open spec fn is_empty_serializer(s: Serializer) -> bool {
    s.name@.len() == 0 && s.fields@.len() == 0
}

/// A serializer with no name and no fields.
pub fn empty_serializer() -> (r: Serializer)
    ensures
        is_empty_serializer(r),
{
    Serializer { name: String::new(), fields: Vec::new() }
}

/// The position of the last serializer named `name`, found by the names
/// `names` of the serializers.
fn find_last_named(names: &Vec<String>, name: &str, Ghost(sers): Ghost<Seq<Serializer>>) -> (r: Option<usize>)
    requires
        names@.len() == sers.len(),
        forall|j: int| 0 <= j < sers.len() ==> #[trigger] names@[j]@ == sers[j].name@,
    ensures
        match r {
            Some(j) => last_named(sers, name@) == Some(j as int),
            None => last_named(sers, name@) is None,
        },
{
    let mut t: usize = names.len();
    assert(sers.take(t as int) =~= sers);
    while t > 0
        invariant
            t <= sers.len(),
            names@.len() == sers.len(),
            forall|j: int| 0 <= j < sers.len() ==> #[trigger] names@[j]@ == sers[j].name@,
            last_named(sers, name@) == last_named(sers.take(t as int), name@),
        decreases t,
    {
        let s = t - 1;
        assert(sers.take(t as int).last() == sers[s as int]);
        assert(sers.take(t as int).drop_last() =~= sers.take(s as int));
        if str_eq(names[s].as_str(), name) {
            return Some(s);
        }
        t = s;
    }
    None
}

/// The serializer of each class id: one slot per class, holding the
/// serializer whose name the class has, as `slot_source` says, and an
/// empty serializer where no class gave it one. Each serializer goes to the
/// first class that names it; the ids of the classes that take one must
/// be slots.
pub fn parse_class_info(msg: &ClassInfoMsg, serializers: Vec<Serializer>) -> (r: Vec<Serializer>)
    requires
        forall|i: int| 0 <= i < msg.classes@.len() && #[trigger] takes_serializer(msg.classes@, serializers@, i)
            ==> 0 <= class_id_of(msg.classes@[i]) < msg.classes@.len(),
    ensures
        r@.len() == msg.classes@.len(),
        forall|k: int| 0 <= k < r@.len() ==> match slot_source(msg.classes@, serializers@, msg.classes@.len() as int, k) {
            Some(j) => #[trigger] r@[k] == serializers@[j],
            None => is_empty_serializer(r@[k]),
        },
{
    let ghost sers0 = serializers@;
    let ghost classes = msg.classes@;
    let mut serializers = serializers;
    let n = msg.classes.len();
    let mut out: Vec<Serializer> = Vec::new();
    while out.len() < n
        invariant
            out@.len() <= n,
            n == classes.len(),
            forall|k: int| 0 <= k < out@.len() ==> is_empty_serializer(#[trigger] out@[k]),
        decreases n - out@.len(),
    {
        out.push(empty_serializer());
    }
    let mut used: Vec<bool> = Vec::new();
    let mut names: Vec<String> = Vec::new();
    while used.len() < serializers.len()
        invariant
            used@.len() <= serializers@.len(),
            names@.len() == used@.len(),
            serializers@ == sers0,
            forall|j: int| 0 <= j < used@.len() ==> !#[trigger] used@[j],
            forall|j: int| 0 <= j < names@.len() ==> #[trigger] names@[j]@ == sers0[j].name@,
        decreases serializers@.len() - used@.len(),
    {
        names.push(serializers[used.len()].name.clone());
        used.push(false);
    }
    let mut i: usize = 0;
    while i < n
        invariant
            i <= n,
            n == classes.len(),
            classes == msg.classes@,
            out@.len() == n,
            serializers@.len() == sers0.len(),
            used@.len() == sers0.len(),
            names@.len() == sers0.len(),
            forall|j: int| 0 <= j < sers0.len() ==> #[trigger] names@[j]@ == sers0[j].name@,
            forall|ii: int| 0 <= ii < classes.len() && #[trigger] takes_serializer(classes, sers0, ii)
                ==> 0 <= class_id_of(classes[ii]) < classes.len(),
            forall|j: int| 0 <= j < sers0.len() && !used@[j] ==> #[trigger] serializers@[j] == sers0[j],
            forall|j: int| 0 <= j < sers0.len() ==> (#[trigger] used@[j] <==>
                (last_named(sers0, sers0[j].name@) == Some(j) && name_seen(classes, i as int, sers0[j].name@))),
            forall|k: int| 0 <= k < n ==> match slot_source(classes, sers0, i as int, k) {
                Some(j) => #[trigger] out@[k] == sers0[j],
                None => is_empty_serializer(out@[k]),
            },
        decreases n - i,
    {
        let entry = &msg.classes[i];
        let cls_id: i32 = match entry.class_id {
            Some(x) => x,
            None => 0,
        };
        let name: &str = match &entry.network_name {
            Some(s) => s.as_str(),
            None => "",
        };
        let ghost nm = class_name_of(classes[i as int]);
        proof {
            if entry.network_name is None {
                reveal_strlit("");
            }
            assert(name@ == nm);
            lemma_last_named(sers0, nm);
        }
        let found = find_last_named(&names, name, Ghost(sers0));
        let ghost old_used = used@;
        let ghost old_out = out@;
        proof {
            assert forall|x: Seq<char>| #[trigger] name_seen(classes, i + 1, x) <==> (name_seen(classes, i as int, x) || nm == x) by {
                if name_seen(classes, i + 1, x) && !name_seen(classes, i as int, x) {
                    let w = choose|w: int| 0 <= w < i + 1 && #[trigger] class_name_of(classes[w]) == x;
                    assert(w == i);
                }
                if nm == x {
                    assert(class_name_of(classes[i as int]) == x);
                }
            }
        }
        match found {
            Some(j) => {
                proof {
                    lemma_last_named(sers0, sers0[j as int].name@);
                    assert(sers0[j as int].name@ == nm);
                    assert(used@[j as int] == (last_named(sers0, nm) == Some(j as int) && name_seen(classes, i as int, nm)));
                }
                if !used[j] {
                    assert(takes_serializer(classes, sers0, i as int));
                    let mut taken = empty_serializer();
                    std::mem::swap(&mut taken, &mut serializers[j]);
                    used.set(j, true);
                    let slot = cls_id as usize;
                    out.set(slot, taken);
                    proof {
                        assert forall|jj: int| 0 <= jj < sers0.len() implies (#[trigger] used@[jj] <==>
                            (last_named(sers0, sers0[jj].name@) == Some(jj) && name_seen(classes, i + 1, sers0[jj].name@))) by {
                            if jj != j {
                                if sers0[jj].name@ == nm && last_named(sers0, sers0[jj].name@) == Some(jj) {
                                    assert(false);
                                }
                            }
                        }
                        assert forall|k: int| 0 <= k < n implies match slot_source(classes, sers0, i + 1, k) {
                            Some(jj) => #[trigger] out@[k] == sers0[jj],
                            None => is_empty_serializer(out@[k]),
                        } by {
                            if k != slot as int {
                                assert(out@[k] == old_out[k]);
                            }
                        }
                    }
                } else {
                    proof {
                        assert(!takes_serializer(classes, sers0, i as int));
                        assert forall|jj: int| 0 <= jj < sers0.len() implies (#[trigger] used@[jj] <==>
                            (last_named(sers0, sers0[jj].name@) == Some(jj) && name_seen(classes, i + 1, sers0[jj].name@))) by {
                            if jj != j {
                                if sers0[jj].name@ == nm && last_named(sers0, sers0[jj].name@) == Some(jj) {
                                    assert(false);
                                }
                            }
                        }
                        assert forall|k: int| 0 <= k < n implies match slot_source(classes, sers0, i + 1, k) {
                            Some(jj) => #[trigger] out@[k] == sers0[jj],
                            None => is_empty_serializer(out@[k]),
                        } by {
                        }
                    }
                }
            },
            None => {
                proof {
                    assert(!takes_serializer(classes, sers0, i as int));
                    assert forall|jj: int| 0 <= jj < sers0.len() implies (#[trigger] used@[jj] <==>
                        (last_named(sers0, sers0[jj].name@) == Some(jj) && name_seen(classes, i + 1, sers0[jj].name@))) by {
                        if sers0[jj].name@ == nm {
                            assert(false);
                        }
                    }
                    assert forall|k: int| 0 <= k < n implies match slot_source(classes, sers0, i + 1, k) {
                        Some(jj) => #[trigger] out@[k] == sers0[jj],
                        None => is_empty_serializer(out@[k]),
                    } by {
                    }
                }
            },
        }
        i += 1;
    }
    out
}

} // verus!
