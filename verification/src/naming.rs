//! Fresh names for particle types created in the editor: the base name, or
//! the base name followed by the smallest counter that makes it unused.
use vstd::prelude::*;

use crate::text::{decimal, lemma_decimal_injective, lemma_decimal_len, owned, push_decimal, str_eq, views};

verus! {

/// The `k`-th name tried for `base`: `base` itself first, then `base 2`,
/// `base 3`, and so on.
pub open spec fn candidate_name(base: Seq<char>, k: nat) -> Seq<char> {
    if k <= 1 {
        base
    } else {
        base + seq![' '] + decimal(k)
    }
}

/// `name` is the first candidate for `base` that `taken` does not hold.
pub open spec fn is_first_free_name(taken: Seq<Seq<char>>, base: Seq<char>, name: Seq<char>) -> bool {
    exists|k: nat|
        k >= 1 && name == #[trigger] candidate_name(base, k) && !taken.contains(name) && (forall|
            j: nat,
        | 1 <= j < k ==> taken.contains(#[trigger] candidate_name(base, j)))
}

/// Different counters give different candidates.
pub proof fn lemma_candidate_injective(base: Seq<char>, i: nat, j: nat)
    requires
        i >= 1,
        j >= 1,
        candidate_name(base, i) == candidate_name(base, j),
    ensures
        i == j,
{
    lemma_decimal_len(i);
    lemma_decimal_len(j);
    if i >= 2 && j >= 2 {
        let off: int = base.len() + 1int;
        assert(candidate_name(base, i).skip(off) =~= decimal(i));
        assert(candidate_name(base, j).skip(off) =~= decimal(j));
        lemma_decimal_injective(i, j);
    } else if i >= 2 || j >= 2 {
        assert(candidate_name(base, i).len() != candidate_name(base, j).len());
    }
}

/// Whether one of `names` equals `name`.
pub fn contains_name(names: &Vec<String>, name: &str) -> (res: bool)
    ensures
        res == views(names@).contains(name@),
{
    let ghost all = views(names@);
    let mut i: usize = 0;
    while i < names.len()
        invariant
            i <= names@.len(),
            all == views(names@),
            forall|k: int| 0 <= k < i ==> all[k] != name@,
        decreases names@.len() - i,
    {
        if str_eq(names[i].as_str(), name) {
            assert(all[i as int] == name@);
            return true;
        }
        i += 1;
    }
    false
}

proof fn lemma_candidates_bounded(taken: Seq<Seq<char>>, base: Seq<char>, c: nat)
    requires
        forall|j: nat| 1 <= j <= c ==> taken.contains(#[trigger] candidate_name(base, j)),
    ensures
        c <= taken.len(),
{
    let cands = Seq::new(c, |i: int| candidate_name(base, (i + 1) as nat));
    assert(cands.no_duplicates()) by {
        assert forall|a: int, b: int| 0 <= a < cands.len() && 0 <= b < cands.len() && a != b implies cands[a]
            != cands[b] by {
            if cands[a] == cands[b] {
                lemma_candidate_injective(base, (a + 1) as nat, (b + 1) as nat);
            }
        }
    }
    cands.unique_seq_to_set();
    assert(cands.to_set().subset_of(taken.to_set())) by {
        assert forall|n: Seq<char>| cands.to_set().contains(n) implies taken.to_set().contains(n) by {
            let i = choose|i: int| 0 <= i < cands.len() && cands[i] == n;
            assert(taken.contains(candidate_name(base, (i + 1) as nat)));
        }
    }
    vstd::set_lib::lemma_len_subset(cands.to_set(), taken.to_set());
    taken.lemma_cardinality_of_set();
}

/// The first unused name among `base_name`, `base_name 2`,
/// `base_name 3`, ...; `existing_names` are the names already registered.
pub fn generate_unique_particle_name_with_base(existing_names: &Vec<String>, base_name: &str) -> (res:
    String)
    ensures
        is_first_free_name(views(existing_names@), base_name@, res@),
{
    let ghost taken = views(existing_names@);
    let count = existing_names.len();
    let mut counter: u128 = 1;
    let mut name = owned(base_name);
    while contains_name(existing_names, name.as_str())
        invariant
            taken == views(existing_names@),
            counter >= 1,
            name@ == candidate_name(base_name@, counter as nat),
            forall|j: nat| 1 <= j < counter ==> taken.contains(#[trigger] candidate_name(base_name@, j)),
            counter <= taken.len() + 1,
            taken.len() == existing_names@.len(),
            count == existing_names@.len(),
        decreases taken.len() + 1 - counter,
    {
        proof {
            assert forall|j: nat| 1 <= j <= counter implies taken.contains(
                #[trigger] candidate_name(base_name@, j),
            ) by {
                if j == counter {
                }
            }
            lemma_candidates_bounded(taken, base_name@, counter as nat);
        }
        counter += 1;
        let mut next = owned(base_name);
        next = next.concat(" ");
        push_decimal(&mut next, counter);
        proof {
            reveal_strlit(" ");
            assert(next@ =~= candidate_name(base_name@, counter as nat));
        }
        name = next;
    }
    assert(is_first_free_name(taken, base_name@, name@)) by {
        assert(name@ == candidate_name(base_name@, counter as nat));
    }
    name
}

} // verus!
