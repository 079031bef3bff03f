use vstd::prelude::*;
use crate::target::{
    all_spec, default_key_spec, lookup_spec, Target, TargetInvalid,
};
use crate::text::str_eq;
use crate::device::{chosen_spec, pick_spec, DevicePick};

verus! {

/// The characters of each string.
pub open spec fn views(keys: Seq<String>) -> Seq<Seq<char>> {
    keys.map_values(|s: String| s@)
}

/// No explicit choice was made: the list is empty or holds the default key
/// alone (once or more).
pub open spec fn falls_back(keys: Seq<Seq<char>>) -> bool {
    forall|i: int| 0 <= i < keys.len() ==> keys[i] == default_key_spec()
}

/// Every key names a registry target.
pub open spec fn all_valid(keys: Seq<Seq<char>>) -> bool {
    forall|i: int| 0 <= i < keys.len() ==> lookup_spec(keys[i]) is Some
}

/// The targets that `keys` name, each kept at its first occurrence; `None`
/// when some key names none.
pub open spec fn resolve_spec(keys: Seq<Seq<char>>) -> Option<Seq<Target>>
    decreases keys.len(),
{
    if keys.len() == 0 {
        Some(Seq::empty())
    } else {
        match (resolve_spec(keys.drop_last()), lookup_spec(keys.last())) {
            (Some(acc), Some(t)) => Some(if acc.contains(t) { acc } else { acc.push(t) }),
            _ => None,
        }
    }
}

/// What selection yields for `keys`, given the target of the device that
/// was detected, if any: the detected target, else the whole registry, when
/// no explicit choice was made; else the targets that the keys name.
pub open spec fn select_spec(keys: Seq<Seq<char>>, detected: Option<Target>) -> Option<Seq<Target>> {
    if falls_back(keys) {
        match detected {
            Some(t) => Some(seq![t]),
            None => Some(all_spec()),
        }
    } else {
        resolve_spec(keys)
    }
}

/// `resolve_spec` fails exactly when some key is invalid.
pub proof fn lemma_resolve_some(keys: Seq<Seq<char>>)
    ensures
        resolve_spec(keys) is Some <==> all_valid(keys),
    decreases keys.len(),
{
    if keys.len() > 0 {
        lemma_resolve_some(keys.drop_last());
        if all_valid(keys) {
            assert(all_valid(keys.drop_last()));
            assert(lookup_spec(keys[keys.len() - 1]) is Some);
        }
        if resolve_spec(keys) is Some {
            assert forall|i: int| 0 <= i < keys.len() implies lookup_spec(keys[i]) is Some by {
                if i < keys.len() - 1 {
                    assert(keys.drop_last()[i] == keys[i]);
                }
            }
        }
    }
}

/// Whether selection should ask which device is connected before choosing:
/// true when no explicit choice was made.
pub fn needs_device(keys: &Vec<String>) -> (r: bool)
    ensures
        r == falls_back(views(keys@)),
{
    let default = Target::default_key();
    let mut i: usize = 0;
    while i < keys.len()
        invariant
            i <= keys.len(),
            default@ == default_key_spec(),
            forall|j: int| 0 <= j < i ==> views(keys@)[j] == default_key_spec(),
        decreases keys.len() - i,
    {
        if !str_eq(keys[i].as_str(), default) {
            assert(views(keys@)[i as int] == keys@[i as int]@);
            return false;
        }
        i = i + 1;
    }
    true
}

fn contains_target(v: &Vec<Target>, t: Target) -> (r: bool)
    ensures
        r == v@.contains(t),
{
    let mut i: usize = 0;
    while i < v.len()
        invariant
            i <= v.len(),
            forall|j: int| 0 <= j < i ==> v@[j] != t,
        decreases v.len() - i,
    {
        if v[i] == t {
            assert(v@[i as int] == t);
            return true;
        }
        i = i + 1;
    }
    false
}

/// The targets that `keys` name, in the order given, each once; the first
/// key that names no target is the error.
pub fn resolve(keys: &Vec<String>) -> (r: Result<Vec<Target>, TargetInvalid>)
    ensures
        match r {
            Ok(v) => resolve_spec(views(keys@)) == Some(v@),
            Err(e) => exists|i: int|
                0 <= i < keys@.len() && lookup_spec(keys@[i]@) is None && e.name@ == keys@[i]@
                    && all_valid(views(keys@).take(i)),
        },
        r is Ok <==> all_valid(views(keys@)),
{
    let ghost ks = views(keys@);
    let mut out: Vec<Target> = Vec::new();
    let mut i: usize = 0;
    assert(ks.take(0) =~= Seq::<Seq<char>>::empty());
    while i < keys.len()
        invariant
            i <= keys.len(),
            ks == views(keys@),
            resolve_spec(ks.take(i as int)) == Some(out@),
            all_valid(ks.take(i as int)),
        decreases keys.len() - i,
    {
        assert(ks.take(i as int + 1).drop_last() =~= ks.take(i as int));
        assert(ks[i as int] == keys@[i as int]@);
        match Target::for_name(keys[i].as_str()) {
            Ok(t) => {
                if !contains_target(&out, t) {
                    out.push(t);
                }
            },
            Err(e) => {
                proof {
                    lemma_resolve_some(ks);
                }
                return Err(e);
            },
        }
        assert(all_valid(ks.take(i as int + 1))) by {
            assert forall|j: int| 0 <= j < i + 1 implies lookup_spec(#[trigger] ks.take(i as int + 1)[j]) is Some by {
                if j < i {
                    assert(ks.take(i as int + 1)[j] == ks.take(i as int)[j]);
                }
            }
        }
        i = i + 1;
    }
    assert(ks.take(i as int) =~= ks);
    Ok(out)
}

/// Selects the targets of one operation. `detected` is the target of the
/// connected device that was found (or chosen), if any; it counts only where
/// `keys` make no explicit choice.
pub fn select(keys: &Vec<String>, detected: Option<Target>) -> (r: Result<Vec<Target>, TargetInvalid>)
    ensures
        match r {
            Ok(v) => select_spec(views(keys@), detected) == Some(v@),
            Err(e) => !falls_back(views(keys@)) && exists|i: int|
                0 <= i < keys@.len() && lookup_spec(keys@[i]@) is None && e.name@ == keys@[i]@,
        },
        r is Ok <==> select_spec(views(keys@), detected) is Some,
        r is Err <==> !all_valid(views(keys@)),
{
    proof {
        lemma_resolve_some(views(keys@));
        reveal_strlit("aarch64");
        if falls_back(views(keys@)) {
            assert forall|i: int| 0 <= i < views(keys@).len() implies lookup_spec(views(keys@)[i]) is Some by {
                assert(views(keys@)[i] == default_key_spec());
            }
        }
    }
    if needs_device(keys) {
        match detected {
            Some(t) => {
                let v = vec![t];
                assert(v@ =~= seq![t]);
                Ok(v)
            },
            None => Ok(Target::all()),
        }
    } else {
        resolve(keys)
    }
}

} // verus!

verus! {

/// With no explicit choice and exactly one connected device, that device is
/// taken without a prompt and selection yields its target alone.
pub proof fn lemma_single_device_selected(
    keys: Seq<Seq<char>>,
    device: Target,
    non_interactive: bool,
    prompted: Option<usize>,
)
    requires
        falls_back(keys),
    ensures
        pick_spec(1, non_interactive) == DevicePick::Chosen(0),
        chosen_spec(pick_spec(1, non_interactive), seq![device], prompted) == Some(device),
        select_spec(
            keys,
            chosen_spec(pick_spec(1, non_interactive), seq![device], prompted),
        ) == Some(seq![device]),
{
}

/// With no explicit keys and no connected device, selection yields every
/// target of the registry in canonical order.
pub proof fn lemma_no_device_all_targets(
    keys: Seq<Seq<char>>,
    non_interactive: bool,
    prompted: Option<usize>,
)
    requires
        keys.len() == 0,
    ensures
        pick_spec(0, non_interactive) == DevicePick::NoDevice,
        select_spec(keys, chosen_spec(pick_spec(0, non_interactive), Seq::empty(), prompted))
            == Some(all_spec()),
{
}

} // verus!

verus! {

/// The targets named by valid `keys`, as `resolve_spec` yields them, are
/// free of duplicates, hold the target of every key and nothing else, and
/// stand in the order in which each first occurs among the keys.
pub open spec fn first_occurrence_order(keys: Seq<Seq<char>>, r: Seq<Target>) -> bool {
    &&& forall|i: int, j: int| 0 <= i < j < r.len() ==> r[i] != r[j]
    &&& forall|k: int| 0 <= k < keys.len() ==> r.contains(lookup_spec(#[trigger] keys[k])->Some_0)
    &&& forall|i: int| 0 <= i < r.len() ==> occurs_before(keys, keys.len() as int, #[trigger] r[i])
    &&& forall|i: int, j: int, k: int|
        0 <= i < j < r.len() && 0 <= k < keys.len() && lookup_spec(#[trigger] keys[k]) == Some(
            #[trigger] r[j],
        ) ==> occurs_before(keys, k, #[trigger] r[i])
}

/// Some key before index `k` names `t`.
pub open spec fn occurs_before(keys: Seq<Seq<char>>, k: int, t: Target) -> bool {
    exists|k2: int| 0 <= k2 < k && lookup_spec(#[trigger] keys[k2]) == Some(t)
}

proof fn lemma_occurs_before_extends(keys: Seq<Seq<char>>, k: int, t: Target)
    requires
        keys.len() > 0,
        k <= keys.len() - 1,
        occurs_before(keys.drop_last(), k, t),
    ensures
        occurs_before(keys, k, t),
{
    let k2 = choose|k2: int| 0 <= k2 < k && lookup_spec(#[trigger] keys.drop_last()[k2]) == Some(t);
    assert(keys.drop_last()[k2] == keys[k2]);
}

proof fn lemma_order_step_kept(keys: Seq<Seq<char>>, acc: Seq<Target>, t: Target)
    requires
        keys.len() > 0,
        first_occurrence_order(keys.drop_last(), acc),
        lookup_spec(keys.last()) == Some(t),
        acc.contains(t),
    ensures
        first_occurrence_order(keys, acc),
{
    let pre = keys.drop_last();
    let n = keys.len() - 1;
    let r = acc;
    assert forall|k: int| 0 <= k < n implies #[trigger] keys[k] == pre[k] by {}
    assert forall|k: int| 0 <= k < keys.len() implies r.contains(lookup_spec(#[trigger] keys[k])->Some_0) by {
        if k < n {
            assert(pre[k] == keys[k]);
        }
    }
    assert forall|i: int| 0 <= i < r.len() implies occurs_before(keys, keys.len() as int, #[trigger] r[i]) by {
        lemma_occurs_before_extends(keys, n, r[i]);
    }
    assert forall|i: int, j: int, k: int|
        0 <= i < j < r.len() && 0 <= k < keys.len() && lookup_spec(#[trigger] keys[k]) == Some(
            #[trigger] r[j],
        ) implies occurs_before(keys, k, #[trigger] r[i]) by {
        let kk = if k < n {
            assert(pre[k] == keys[k]);
            k
        } else {
            assert(occurs_before(pre, n, acc[j]));
            choose|k1: int| 0 <= k1 < n && lookup_spec(#[trigger] pre[k1]) == Some(acc[j])
        };
        assert(lookup_spec(pre[kk]) == Some(acc[j]));
        assert(occurs_before(pre, kk, acc[i]));
        lemma_occurs_before_extends(keys, kk, r[i]);
        assert(kk <= k);
        let k2 = choose|k2: int| 0 <= k2 < kk && lookup_spec(#[trigger] keys[k2]) == Some(r[i]);
        assert(0 <= k2 < k);
    }
}

proof fn lemma_order_step_pushed(keys: Seq<Seq<char>>, acc: Seq<Target>, t: Target)
    requires
        keys.len() > 0,
        first_occurrence_order(keys.drop_last(), acc),
        lookup_spec(keys.last()) == Some(t),
        !acc.contains(t),
    ensures
        first_occurrence_order(keys, acc.push(t)),
{
    let pre = keys.drop_last();
    let n = keys.len() - 1;
    let r = acc.push(t);
    assert forall|i: int| 0 <= i < acc.len() implies #[trigger] r[i] == acc[i] by {}
    assert(r[n - n + acc.len()] == t);
    assert forall|k: int| 0 <= k < keys.len() implies r.contains(lookup_spec(#[trigger] keys[k])->Some_0) by {
        if k < n {
            assert(pre[k] == keys[k]);
            assert(acc.contains(lookup_spec(pre[k])->Some_0));
            let i = choose|i: int| 0 <= i < acc.len() && acc[i] == lookup_spec(pre[k])->Some_0;
            assert(r[i] == acc[i]);
        } else {
            assert(r[acc.len() as int] == t);
        }
    }
    assert forall|i: int| 0 <= i < r.len() implies occurs_before(keys, keys.len() as int, #[trigger] r[i]) by {
        if i < acc.len() {
            assert(occurs_before(pre, n, acc[i]));
            lemma_occurs_before_extends(keys, n, acc[i]);
        } else {
            assert(lookup_spec(keys[n]) == Some(r[i]));
        }
    }
    assert forall|i: int, j: int| 0 <= i < j < r.len() implies r[i] != r[j] by {
        if j == acc.len() {
            assert(acc[i] != t);
        }
    }
    assert forall|i: int, j: int, k: int|
        0 <= i < j < r.len() && 0 <= k < keys.len() && lookup_spec(#[trigger] keys[k]) == Some(
            #[trigger] r[j],
        ) implies occurs_before(keys, k, #[trigger] r[i]) by {
        if k < n {
            assert(pre[k] == keys[k]);
            if j < acc.len() {
                assert(occurs_before(pre, k, acc[i]));
                lemma_occurs_before_extends(keys, k, acc[i]);
            } else {
                assert(acc.contains(lookup_spec(pre[k])->Some_0));
            }
        } else {
            if j < acc.len() {
                assert(acc[j] == t);
            }
            assert(occurs_before(pre, n, acc[i]));
            lemma_occurs_before_extends(keys, n, acc[i]);
        }
    }
}

proof fn lemma_resolve_order(keys: Seq<Seq<char>>)
    requires
        all_valid(keys),
    ensures
        resolve_spec(keys) is Some,
        first_occurrence_order(keys, resolve_spec(keys)->Some_0),
    decreases keys.len(),
{
    lemma_resolve_some(keys);
    if keys.len() == 0 {
        assert(first_occurrence_order(keys, Seq::<Target>::empty()));
    } else {
        let pre = keys.drop_last();
        assert(all_valid(pre)) by {
            assert forall|k: int| 0 <= k < pre.len() implies lookup_spec(pre[k]) is Some by {
                assert(pre[k] == keys[k]);
            }
        }
        lemma_resolve_order(pre);
        let acc = resolve_spec(pre)->Some_0;
        let t = lookup_spec(keys.last())->Some_0;
        if acc.contains(t) {
            lemma_order_step_kept(keys, acc, t);
        } else {
            lemma_order_step_pushed(keys, acc, t);
        }
    }
}

/// Explicit valid keys, other than the default key alone, select exactly the
/// targets they name, each once, in the order of first occurrence; a detected
/// device plays no part.
pub proof fn lemma_explicit_keys_selected(keys: Seq<Seq<char>>, detected: Option<Target>)
    requires
        keys.len() > 0,
        !falls_back(keys),
        all_valid(keys),
    ensures
        select_spec(keys, detected) is Some,
        select_spec(keys, detected) == select_spec(keys, None),
        first_occurrence_order(keys, select_spec(keys, detected)->Some_0),
{
    lemma_resolve_order(keys);
}

/// A key that names no target makes selection fail, whatever was detected.
pub proof fn lemma_invalid_key_rejected(keys: Seq<Seq<char>>, detected: Option<Target>, k: int)
    requires
        0 <= k < keys.len(),
        lookup_spec(keys[k]) is None,
    ensures
        select_spec(keys, detected) is None,
{
    reveal_strlit("aarch64");
    lemma_resolve_some(keys);
    if falls_back(keys) {
        assert(keys[k] == default_key_spec());
    }
}

} // verus!
