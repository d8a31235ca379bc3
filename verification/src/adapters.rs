use vstd::prelude::*;
use crate::file_tree::{find_string, strings_view};

verus! {

/// Where a debug-adapter configuration just read goes among those kept so far.
#[derive(Clone, Copy, Debug, PartialEq, Eq, Structural)]
pub enum ConfigSlot {
    /// It is dropped.
    Skip,
    /// It takes the place of the kept configuration at this index.
    Replace(usize),
    /// It is added after those kept.
    Append,
}

/// Configurations are read from the user's directory first, then from the
/// default directory. A configuration whose id is already kept replaces the
/// first one with that id, unless it comes from the default directory: user
/// configurations win over defaults. A new id is added.
pub open spec fn config_slot_of(kept: Seq<Seq<char>>, id: Seq<char>, is_default: bool) -> ConfigSlot {
    match kept.index_of_first(id) {
        Some(i) => if is_default {
            ConfigSlot::Skip
        } else {
            ConfigSlot::Replace(i as usize)
        },
        None => ConfigSlot::Append,
    }
}

/// Where the configuration with id `id` goes, given the ids `kept` of those
/// kept so far (see `config_slot_of`).
pub fn config_slot(kept: &Vec<String>, id: &String, is_default: bool) -> (slot: ConfigSlot)
    ensures
        slot == config_slot_of(strings_view(kept@), id@, is_default),
{
    match find_string(kept, id) {
        Some(i) => if is_default {
            ConfigSlot::Skip
        } else {
            ConfigSlot::Replace(i)
        },
        None => ConfigSlot::Append,
    }
}

} // verus!

verus! {

/// The ids of the configurations at indices `m`.
pub open spec fn ids_at(ids: Seq<Seq<char>>, m: Seq<usize>) -> Seq<Seq<char>> {
    m.map_values(|j: usize| ids[j as int])
}

/// The configurations kept after reading the first `k` of those whose ids
/// are `ids` (the first `user` of them from the user's directory, the rest
/// from the default directory), as indices into the ones read, in the order
/// their ids were first seen; each read configuration is placed as
/// `config_slot_of` says.
pub open spec fn merged(ids: Seq<Seq<char>>, user: int, k: int) -> Seq<usize>
    decreases k,
{
    if k <= 0 {
        Seq::<usize>::empty()
    } else {
        let prev = merged(ids, user, k - 1);
        let i = k - 1;
        match config_slot_of(ids_at(ids, prev), ids[i], i >= user) {
            ConfigSlot::Skip => prev,
            ConfigSlot::Replace(p) => prev.update(p as int, i as usize),
            ConfigSlot::Append => prev.push(i as usize),
        }
    }
}

/// What holds of the configurations kept after reading the first `k`.
pub open spec fn merge_holds(ids: Seq<Seq<char>>, user: int, k: int, m: Seq<usize>) -> bool {
    // every kept index names one read so far
    &&& m.len() <= k
    &&& forall|r: int| 0 <= r < m.len() ==> #[trigger] m[r] < k
    // kept ids are distinct
    &&& forall|r1: int, r2: int|
        #![trigger m[r1], m[r2]]
        0 <= r1 < m.len() && 0 <= r2 < m.len() && r1 != r2 ==> ids[m[r1] as int] != ids[m[r2] as int]
    // every id read is kept
    &&& forall|i: int| 0 <= i < k ==> #[trigger] ids_at(ids, m).contains(ids[i])
    // a user configuration kept is the last one read with its id
    &&& forall|r: int, i: int|
        #![trigger m[r], ids[i]]
        0 <= r < m.len() && m[r] < user && m[r] < i < k && i < user ==> ids[i] != ids[m[r] as int]
    // a default configuration is kept only when no earlier one has its id
    &&& forall|r: int, i: int|
        #![trigger m[r], ids[i]]
        0 <= r < m.len() && m[r] >= user && 0 <= i < m[r] ==> ids[i] != ids[m[r] as int]
}

proof fn lemma_merged(ids: Seq<Seq<char>>, user: int, k: int)
    requires
        0 <= k <= ids.len(),
        k <= usize::MAX,
    ensures
        merge_holds(ids, user, k, merged(ids, user, k)),
    decreases k,
{
    if k > 0 {
        lemma_merged(ids, user, k - 1);
        let m = merged(ids, user, k - 1);
        let i = k - 1;
        let x = ids[i];
        let kids = ids_at(ids, m);
        kids.index_of_first_ensures(x);
        let m2 = merged(ids, user, k);
        assert forall|r: int| 0 <= r < m.len() implies #[trigger] kids[r] == ids[m[r] as int] by {}
        match kids.index_of_first(x) {
            Some(p) => {
                assert(ids[m[p] as int] == x);
                if i >= user {
                    assert(m2 == m);
                    assert forall|j: int| 0 <= j < k implies #[trigger] ids_at(ids, m2).contains(ids[j]) by {
                        if j == i {
                            assert(kids[p] == x);
                        }
                    }
                } else {
                    assert(m2 == m.update(p, i as usize));
                    assert forall|r: int| 0 <= r < m2.len() implies #[trigger] ids_at(ids, m2)[r]
                        == kids[r] by {
                        if r == p {
                            assert(m2[r] == i as usize);
                        }
                    }
                    assert(ids_at(ids, m2) =~= kids);
                }
            },
            None => {
                assert(m2 == m.push(i as usize));
                assert(ids_at(ids, m2) =~= kids.push(x));
                assert forall|j: int| 0 <= j < k implies #[trigger] ids_at(ids, m2).contains(ids[j]) by {
                    if j < i {
                        assert(kids.contains(ids[j]));
                        let r = choose|r: int| 0 <= r < kids.len() && kids[r] == ids[j];
                        assert(ids_at(ids, m2)[r] == ids[j]);
                    } else {
                        assert(ids_at(ids, m2)[m.len() as int] == x);
                    }
                }
                assert forall|r: int, j: int|
                    #![trigger m2[r], ids[j]]
                    0 <= r < m2.len() && m2[r] >= user && 0 <= j < m2[r] implies ids[j] != ids[m2[r] as int] by {
                    if r == m.len() {
                        if ids[j] == x {
                            assert(kids.contains(x));
                        }
                    } else {
                        assert(m2[r] == m[r]);
                    }
                }
                assert forall|r1: int, r2: int|
                    #![trigger m2[r1], m2[r2]]
                    0 <= r1 < m2.len() && 0 <= r2 < m2.len() && r1 != r2 implies ids[m2[r1] as int]
                    != ids[m2[r2] as int] by {
                    if r1 == m.len() {
                        assert(kids[r2] == ids[m[r2] as int]);
                    } else if r2 == m.len() {
                        assert(kids[r1] == ids[m[r1] as int]);
                    } else {
                        assert(m2[r1] == m[r1]);
                        assert(m2[r2] == m[r2]);
                    }
                }
            },
        }
    }
}

/// Merges the configurations read, in reading order, whose ids are `ids`:
/// the first `user` of them come from the user's directory, the rest from
/// the default directory. Returns, in the order their ids were first seen,
/// the index of the configuration kept for each id (see `merged`): the ids
/// kept are distinct, every id read is kept, a user configuration wins over
/// defaults (the last one read with its id), and otherwise the first default
/// with the id is kept.
pub fn merge_config_ids(ids: &Vec<String>, user: usize) -> (kept: Vec<usize>)
    ensures
        kept@ == merged(strings_view(ids@), user as int, ids@.len() as int),
        merge_holds(strings_view(ids@), user as int, ids@.len() as int, kept@),
{
    let ghost iv = strings_view(ids@);
    let mut kept: Vec<usize> = Vec::new();
    let mut names: Vec<String> = Vec::new();
    let mut i: usize = 0;
    assert(strings_view(names@) =~= ids_at(iv, kept@));
    while i < ids.len()
        invariant
            i <= ids@.len(),
            iv == strings_view(ids@),
            kept@ == merged(iv, user as int, i as int),
            strings_view(names@) == ids_at(iv, kept@),
        decreases ids.len() - i,
    {
        let ghost before = kept@;
        let ghost names_before = strings_view(names@);
        let slot = config_slot(&names, &ids[i], i >= user);
        assert(iv[i as int] == ids@[i as int]@);
        assert(names@.len() == kept@.len()) by {
            assert(strings_view(names@).len() == ids_at(iv, kept@).len());
        }
        proof {
            names_before.index_of_first_ensures(iv[i as int]);
        }
        match slot {
            ConfigSlot::Skip => {},
            ConfigSlot::Replace(p) => {
                kept.set(p, i);
                names.set(p, ids[i].clone());
                assert(ids_at(iv, kept@) =~= ids_at(iv, before).update(p as int, iv[i as int]));
                assert(strings_view(names@) =~= names_before.update(p as int, iv[i as int]));
                assert(strings_view(names@) =~= ids_at(iv, kept@));
            },
            ConfigSlot::Append => {
                kept.push(i);
                names.push(ids[i].clone());
                assert(kept@ == before.push(i));
                assert(ids_at(iv, kept@) =~= ids_at(iv, before).push(iv[i as int]));
                assert(strings_view(names@) =~= names_before.push(iv[i as int]));
                assert(strings_view(names@) =~= ids_at(iv, kept@));
            },
        }
        i = i + 1;
    }
    proof {
        lemma_merged(iv, user as int, ids@.len() as int);
    }
    kept
}

} // verus!
