//! The particle list of the editor, grouped by category: categories are
//! kept in a fixed order (known material categories first, then the others
//! alphabetically, "Other" last).
use vstd::prelude::*;

use crate::text::{chars_of, owned, str_eq, views};

verus! {

/// A category name and the names of its particles.
pub type LabelView = (Seq<char>, Seq<Seq<char>>);

/// The view of one category entry.
pub open spec fn label_view(e: (String, Vec<String>)) -> LabelView {
    (e.0@, views(e.1@))
}

/// The views of all category entries.
pub open spec fn labels_view(s: Seq<(String, Vec<String>)>) -> Seq<LabelView> {
    s.map_values(|e: (String, Vec<String>)| label_view(e))
}

/// The entries after recording particle `name` under `category`: it joins
/// the first entry of that category, or a new entry is appended.
pub open spec fn label_pushed(s: Seq<LabelView>, category: Seq<char>, name: Seq<char>) -> Seq<
    LabelView,
>
    decreases s.len(),
{
    if s.len() == 0 {
        seq![(category, seq![name])]
    } else if s[0].0 == category {
        s.update(0, (category, s[0].1.push(name)))
    } else {
        seq![s[0]] + label_pushed(s.drop_first(), category, name)
    }
}

/// Where a category sorts: the known categories "Wall", "Solid",
/// "Movable Solid", "Liquid" and "Gas" first, in that order, then the others,
/// then "Other".
pub open spec fn category_rank(c: Seq<char>) -> (int, int) {
    if c == "Wall"@ {
        (0, 0)
    } else if c == "Solid"@ {
        (0, 1)
    } else if c == "Movable Solid"@ {
        (0, 2)
    } else if c == "Liquid"@ {
        (0, 3)
    } else if c == "Gas"@ {
        (0, 4)
    } else if c == "Other"@ {
        (2, 0)
    } else {
        (1, 0)
    }
}

/// Strict lexicographic order of strings, character by character.
pub open spec fn lex_less(a: Seq<char>, b: Seq<char>) -> bool
    decreases a.len(),
{
    if b.len() == 0 {
        false
    } else if a.len() == 0 {
        true
    } else if a[0] != b[0] {
        (a[0] as u32) < (b[0] as u32)
    } else {
        lex_less(a.drop_first(), b.drop_first())
    }
}

/// Whether category `a` sorts strictly before category `b`.
pub open spec fn category_before(a: Seq<char>, b: Seq<char>) -> bool {
    let (ra, rb) = (category_rank(a), category_rank(b));
    ra.0 < rb.0 || (ra.0 == rb.0 && ra.1 < rb.1) || (ra == rb && lex_less(a, b))
}

/// `x` placed into `t` just before the first entry that it sorts before.
pub open spec fn insert_by_category(t: Seq<LabelView>, x: LabelView) -> Seq<LabelView>
    decreases t.len(),
{
    if t.len() == 0 {
        seq![x]
    } else if category_before(x.0, t[0].0) {
        seq![x] + t
    } else {
        seq![t[0]] + insert_by_category(t.drop_first(), x)
    }
}

/// The entries stably sorted by category.
pub open spec fn sorted_by_category(s: Seq<LabelView>) -> Seq<LabelView>
    decreases s.len(),
{
    if s.len() == 0 {
        s
    } else {
        insert_by_category(sorted_by_category(s.drop_last()), s.last())
    }
}

proof fn lemma_label_pushed_found(s: Seq<LabelView>, category: Seq<char>, name: Seq<char>, i: int)
    requires
        0 <= i < s.len(),
        s[i].0 == category,
        forall|k: int| 0 <= k < i ==> s[k].0 != category,
    ensures
        label_pushed(s, category, name) == s.update(i, (category, s[i].1.push(name))),
    decreases i,
{
    if i > 0 {
        lemma_label_pushed_found(s.drop_first(), category, name, i - 1);
        assert(label_pushed(s, category, name) =~= s.update(i, (category, s[i].1.push(name))));
    }
}

proof fn lemma_label_pushed_absent(s: Seq<LabelView>, category: Seq<char>, name: Seq<char>)
    requires
        forall|k: int| 0 <= k < s.len() ==> s[k].0 != category,
    ensures
        label_pushed(s, category, name) == s.push((category, seq![name])),
    decreases s.len(),
{
    if s.len() > 0 {
        lemma_label_pushed_absent(s.drop_first(), category, name);
        assert(label_pushed(s, category, name) =~= s.push((category, seq![name])));
    }
}

proof fn lemma_insert_at(t: Seq<LabelView>, x: LabelView, p: int)
    requires
        0 <= p <= t.len(),
        forall|k: int| 0 <= k < p ==> !category_before(x.0, #[trigger] t[k].0),
        p < t.len() ==> category_before(x.0, t[p].0),
    ensures
        insert_by_category(t, x) == t.take(p) + seq![x] + t.skip(p),
    decreases p,
{
    if p == 0 {
        assert(t.take(0) + seq![x] + t.skip(0) =~= seq![x] + t);
        if t.len() == 0 {
            assert(seq![x] + t =~= seq![x]);
        }
    } else {
        let u = t.drop_first();
        assert forall|k: int| 0 <= k < p - 1 implies !category_before(x.0, #[trigger] u[k].0) by {
            assert(u[k] == t[k + 1]);
        }
        lemma_insert_at(u, x, p - 1);
        assert(t.take(p) + seq![x] + t.skip(p) =~= seq![t[0]] + (u.take(p - 1) + seq![x] + u.skip(
            p - 1,
        )));
    }
}

/// The category order never places an entry before itself.
pub proof fn lemma_lex_less_irreflexive(a: Seq<char>)
    ensures
        !lex_less(a, a),
    decreases a.len(),
{
    if a.len() > 0 {
        lemma_lex_less_irreflexive(a.drop_first());
    }
}

/// Lexicographic order is transitive.
pub proof fn lemma_lex_less_transitive(a: Seq<char>, b: Seq<char>, c: Seq<char>)
    requires
        lex_less(a, b),
        lex_less(b, c),
    ensures
        lex_less(a, c),
    decreases a.len(),
{
    if a.len() > 0 && b.len() > 0 && c.len() > 0 && a[0] == b[0] && b[0] == c[0] {
        lemma_lex_less_transitive(a.drop_first(), b.drop_first(), c.drop_first());
    }
}

/// Lexicographic order relates any two different strings.
pub proof fn lemma_lex_less_total(a: Seq<char>, b: Seq<char>)
    requires
        a != b,
    ensures
        lex_less(a, b) || lex_less(b, a),
    decreases a.len(),
{
    if a.len() > 0 && b.len() > 0 && a[0] == b[0] {
        if a.drop_first() == b.drop_first() {
            assert(a =~= seq![a[0]] + a.drop_first());
            assert(b =~= seq![b[0]] + b.drop_first());
        }
        lemma_lex_less_total(a.drop_first(), b.drop_first());
    } else if a.len() == 0 && b.len() == 0 {
        assert(a =~= b);
    } else if a.len() > 0 && b.len() > 0 {
        if (a[0] as u32) == (b[0] as u32) {
            vstd::utf8::char_u32_cast(a[0], a[0] as u32);
            vstd::utf8::char_u32_cast(b[0], b[0] as u32);
        }
    }
}

/// The category order is a strict total order: irreflexive, transitive,
/// and it relates any two different names.
pub proof fn law_category_order_is_strict_total(a: Seq<char>, b: Seq<char>, c: Seq<char>)
    ensures
        !category_before(a, a),
        category_before(a, b) && category_before(b, c) ==> category_before(a, c),
        a != b ==> category_before(a, b) || category_before(b, a),
{
    lemma_lex_less_irreflexive(a);
    if category_before(a, b) && category_before(b, c) && category_rank(a) == category_rank(b)
        && category_rank(b) == category_rank(c) {
        lemma_lex_less_transitive(a, b, c);
    }
    if a != b {
        lemma_lex_less_total(a, b);
    }
}

/// Only "Wall", "Solid", "Movable Solid", "Liquid" and "Gas" sort ahead of
/// the other categories, in that order; any two categories outside that list
/// and other than "Other" sort alphabetically; "Other" sorts after every
/// other category.
pub proof fn law_category_order_by_name(a: Seq<char>, b: Seq<char>)
    ensures
        ({
            let known_a = a == "Wall"@ || a == "Solid"@ || a == "Movable Solid"@ || a == "Liquid"@
                || a == "Gas"@;
            let known_b = b == "Wall"@ || b == "Solid"@ || b == "Movable Solid"@ || b == "Liquid"@
                || b == "Gas"@;
            &&& !known_a && !known_b && a != "Other"@ && b != "Other"@ ==> category_before(a, b)
                == lex_less(a, b)
            &&& known_a && !known_b ==> category_before(a, b)
            &&& a != "Other"@ ==> category_before(a, "Other"@)
        }),
        category_before("Wall"@, "Solid"@),
        category_before("Solid"@, "Movable Solid"@),
        category_before("Movable Solid"@, "Liquid"@),
        category_before("Liquid"@, "Gas"@),
{
    reveal_strlit("Wall");
    reveal_strlit("Solid");
    reveal_strlit("Movable Solid");
    reveal_strlit("Liquid");
    reveal_strlit("Gas");
    reveal_strlit("Other");
    assert("Wall"@.len() == 4 && "Solid"@.len() == 5 && "Movable Solid"@.len() == 13
        && "Liquid"@.len() == 6 && "Gas"@.len() == 3 && "Other"@.len() == 5);
    assert("Solid"@[0] != "Other"@[0]);
}

proof fn lemma_insert_position(t: Seq<LabelView>, x: LabelView) -> (p: int)
    ensures
        0 <= p <= t.len(),
        insert_by_category(t, x) == t.insert(p, x),
        forall|k: int| 0 <= k < p ==> !category_before(x.0, #[trigger] t[k].0),
        p < t.len() ==> category_before(x.0, t[p].0),
    decreases t.len(),
{
    if t.len() == 0 {
        assert(t.insert(0, x) =~= seq![x]);
        0
    } else if category_before(x.0, t[0].0) {
        assert(t.insert(0, x) =~= seq![x] + t);
        0
    } else {
        let u = t.drop_first();
        let q = lemma_insert_position(u, x);
        assert(t.insert(q + 1, x) =~= seq![t[0]] + u.insert(q, x));
        assert forall|k: int| 0 <= k < q + 1 implies !category_before(x.0, #[trigger] t[k].0) by {
            if k > 0 {
                assert(t[k] == u[k - 1]);
            }
        }
        q + 1
    }
}

/// Whether no entry sorts before an earlier one.
pub open spec fn in_category_order(s: Seq<LabelView>) -> bool {
    forall|i: int, j: int| 0 <= i < j < s.len() ==> !category_before(s[j].0, s[i].0)
}

/// Whether no two entries share a category name.
pub open spec fn distinct_categories(s: Seq<LabelView>) -> bool {
    forall|i: int, j: int| 0 <= i < j < s.len() ==> s[i].0 != s[j].0
}

proof fn lemma_sorted_facts(s: Seq<LabelView>)
    ensures
        sorted_by_category(s).to_multiset() == s.to_multiset(),
        in_category_order(sorted_by_category(s)),
    decreases s.len(),
{
    broadcast use vstd::seq_lib::group_to_multiset_ensures;

    if s.len() > 0 {
        let t = sorted_by_category(s.drop_last());
        let x = s.last();
        lemma_sorted_facts(s.drop_last());
        let p = lemma_insert_position(t, x);
        assert(s =~= s.drop_last().push(x));
        let r = t.insert(p, x);
        assert forall|i: int, j: int| 0 <= i < j < r.len() implies !category_before(
            r[j].0,
            r[i].0,
        ) by {
            if i == p {
                let e = t[j - 1];
                assert(r[j] == e);
                if category_before(e.0, x.0) {
                    law_category_order_is_strict_total(e.0, x.0, t[p].0);
                    if j - 1 == p {
                        law_category_order_is_strict_total(e.0, e.0, e.0);
                    }
                }
            } else if j == p {
                assert(r[i] == t[i]);
            } else {
                let ti = if i < p {
                    i
                } else {
                    i - 1
                };
                let tj = if j < p {
                    j
                } else {
                    j - 1
                };
                assert(r[i] == t[ti]);
                assert(r[j] == t[tj]);
            }
        }
    }
}

/// Sorting by category keeps every entry and only reorders them.
pub proof fn law_sort_is_permutation(s: Seq<LabelView>)
    ensures
        sorted_by_category(s).to_multiset() == s.to_multiset(),
        sorted_by_category(s).len() == s.len(),
{
    broadcast use vstd::seq_lib::group_to_multiset_ensures;

    lemma_sorted_facts(s);
    assert(sorted_by_category(s).to_multiset().len() == s.to_multiset().len());
}

/// After sorting, no category comes after one it sorts before: known
/// categories lead in their fixed order, the rest follow alphabetically,
/// and "Other" is last.
pub proof fn law_sort_orders_categories(s: Seq<LabelView>)
    ensures
        in_category_order(sorted_by_category(s)),
{
    lemma_sorted_facts(s);
}

/// Recording a particle never creates a second entry for a category.
pub proof fn law_push_keeps_categories_distinct(
    s: Seq<LabelView>,
    category: Seq<char>,
    name: Seq<char>,
)
    requires
        distinct_categories(s),
    ensures
        distinct_categories(label_pushed(s, category, name)),
        exists|i: int|
            0 <= i < label_pushed(s, category, name).len() && #[trigger] label_pushed(
                s,
                category,
                name,
            )[i].0 == category && label_pushed(s, category, name)[i].1.last() == name,
    decreases s.len(),
{
    let r = label_pushed(s, category, name);
    if s.len() == 0 {
        assert(r[0].1 == seq![name]);
        assert(r[0].0 == category && r[0].1.last() == name);
    } else if s[0].0 == category {
        assert(r[0].1.last() == name);
        assert(r[0].0 == category && r[0].1.last() == name);
        assert forall|i: int, j: int| 0 <= i < j < r.len() implies r[i].0 != r[j].0 by {
            assert(r[i].0 == s[i].0 && r[j].0 == s[j].0);
        }
    } else {
        let u = s.drop_first();
        assert(distinct_categories(u)) by {
            assert forall|i: int, j: int| 0 <= i < j < u.len() implies u[i].0 != u[j].0 by {
                assert(u[i] == s[i + 1] && u[j] == s[j + 1]);
            }
        }
        law_push_keeps_categories_distinct(u, category, name);
        let ru = label_pushed(u, category, name);
        assert(r =~= seq![s[0]] + ru);
        lemma_pushed_keys(u, category, name);
        let w = choose|i: int|
            0 <= i < ru.len() && #[trigger] ru[i].0 == category && ru[i].1.last() == name;
        assert(r[w + 1] == ru[w]);
        assert(r[w + 1].0 == category && r[w + 1].1.last() == name);
        assert forall|i: int, j: int| 0 <= i < j < r.len() implies r[i].0 != r[j].0 by {
            if i == 0 {
                assert(r[j] == ru[j - 1]);
                if ru[j - 1].0 != category {
                    let k = choose|k: int| 0 <= k < u.len() && u[k].0 == ru[j - 1].0;
                    assert(u[k] == s[k + 1]);
                }
            } else {
                assert(r[i] == ru[i - 1] && r[j] == ru[j - 1]);
            }
        }
    }
}

proof fn lemma_pushed_keys(s: Seq<LabelView>, category: Seq<char>, name: Seq<char>)
    ensures
        forall|i: int|
            0 <= i < label_pushed(s, category, name).len() && #[trigger] label_pushed(
                s,
                category,
                name,
            )[i].0 != category ==> exists|k: int| 0 <= k < s.len() && s[k].0 == label_pushed(
                s,
                category,
                name,
            )[i].0,
    decreases s.len(),
{
    let r = label_pushed(s, category, name);
    if s.len() > 0 && s[0].0 != category {
        let u = s.drop_first();
        lemma_pushed_keys(u, category, name);
        let ru = label_pushed(u, category, name);
        assert(r =~= seq![s[0]] + ru);
        assert forall|i: int| 0 <= i < r.len() && #[trigger] r[i].0 != category implies exists|
            k: int,
        | 0 <= k < s.len() && s[k].0 == r[i].0 by {
            if i == 0 {
                assert(s[0].0 == r[0].0);
            } else {
                assert(r[i] == ru[i - 1]);
                let k = choose|k: int| 0 <= k < u.len() && u[k].0 == ru[i - 1].0;
                assert(u[k] == s[k + 1]);
            }
        }
    } else if s.len() > 0 {
        assert forall|i: int| 0 <= i < r.len() && #[trigger] r[i].0 != category implies exists|
            k: int,
        | 0 <= k < s.len() && s[k].0 == r[i].0 by {
            assert(s[i].0 == r[i].0);
        }
    }
}

/// Decides whether category `a` sorts strictly before category `b`.
pub fn category_sorts_before(a: &str, b: &str) -> (res: bool)
    ensures
        res == category_before(a@, b@),
{
    let ra = category_rank_of(a);
    let rb = category_rank_of(b);
    if ra.0 != rb.0 {
        return ra.0 < rb.0;
    }
    if ra.1 != rb.1 {
        return ra.1 < rb.1;
    }
    lexicographically_less(a, b)
}

fn category_rank_of(c: &str) -> (res: (u8, u8))
    ensures
        res.0 as int == category_rank(c@).0,
        res.1 as int == category_rank(c@).1,
{
    if str_eq(c, "Wall") {
        (0, 0)
    } else if str_eq(c, "Solid") {
        (0, 1)
    } else if str_eq(c, "Movable Solid") {
        (0, 2)
    } else if str_eq(c, "Liquid") {
        (0, 3)
    } else if str_eq(c, "Gas") {
        (0, 4)
    } else if str_eq(c, "Other") {
        (2, 0)
    } else {
        (1, 0)
    }
}

/// Decides the strict lexicographic order of two strings.
pub fn lexicographically_less(a: &str, b: &str) -> (res: bool)
    ensures
        res == lex_less(a@, b@),
{
    let x = chars_of(a);
    let y = chars_of(b);
    let mut i: usize = 0;
    assert(x@.skip(0) =~= x@);
    assert(y@.skip(0) =~= y@);
    while i < x.len() && i < y.len()
        invariant
            x@ == a@,
            y@ == b@,
            i <= x@.len(),
            i <= y@.len(),
            lex_less(a@, b@) == lex_less(x@.skip(i as int), y@.skip(i as int)),
        decreases x@.len() - i,
    {
        let ghost xs = x@.skip(i as int);
        let ghost ys = y@.skip(i as int);
        assert(xs[0] == x@[i as int]);
        assert(ys[0] == y@[i as int]);
        if x[i] != y[i] {
            return (x[i] as u32) < (y[i] as u32);
        }
        assert(xs.drop_first() =~= x@.skip(i + 1));
        assert(ys.drop_first() =~= y@.skip(i + 1));
        i += 1;
    }
    i < y.len()
}

/// The particles of the editor grouped by category, in display order.
pub struct ParticleCategoryLabels {
    /// Ordered list of (category name, particle names).
    pub categories: Vec<(String, Vec<String>)>,
}

impl ParticleCategoryLabels {
    /// No categories yet.
    pub fn new() -> (res: Self)
        ensures
            res.categories@.len() == 0,
    {
        ParticleCategoryLabels { categories: Vec::new() }
    }

    /// Records particle `name` under `category`: it joins that category's
    /// entry, or a new entry is appended for the category.
    pub fn push(&mut self, category: &str, name: String)
        ensures
            labels_view(final(self).categories@) == label_pushed(
                labels_view(old(self).categories@),
                category@,
                name@,
            ),
    {
        let ghost s = labels_view(self.categories@);
        let n = self.categories.len();
        let mut i: usize = 0;
        while i < n
            invariant
                n == self.categories@.len(),
                s == labels_view(self.categories@),
                self.categories == old(self).categories,
                i <= n,
                forall|k: int| 0 <= k < i ==> s[k].0 != category@,
            decreases n - i,
        {
            if str_eq(self.categories[i].0.as_str(), category) {
                proof {
                    lemma_label_pushed_found(s, category@, name@, i as int);
                }
                let (key, mut names) = self.categories.remove(i);
                let ghost before = names@;
                names.push(name);
                self.categories.insert(i, (key, names));
                proof {
                    assert(views(names@) =~= views(before).push(name@));
                    assert(labels_view(self.categories@) =~= s.update(
                        i as int,
                        (category@, s[i as int].1.push(name@)),
                    ));
                }
                return ;
            }
            i += 1;
        }
        proof {
            lemma_label_pushed_absent(s, category@, name@);
        }
        let mut names: Vec<String> = Vec::new();
        names.push(name);
        self.categories.push((owned(category), names));
        proof {
            assert(views(names@) =~= seq![name@]);
            assert(labels_view(self.categories@) =~= s.push((category@, seq![name@])));
        }
    }

    /// Sorts the categories, keeping the relative order of entries with the
    /// same name: known categories first in their fixed order, then the
    /// remaining ones alphabetically, with "Other" last.
    pub fn sort(&mut self)
        ensures
            labels_view(final(self).categories@) == sorted_by_category(
                labels_view(old(self).categories@),
            ),
    {
        let mut items: Vec<(String, Vec<String>)> = Vec::new();
        std::mem::swap(&mut items, &mut self.categories);
        let ghost orig = labels_view(items@);
        let total = items.len();
        let mut sorted: Vec<(String, Vec<String>)> = Vec::new();
        let mut done: usize = 0;
        while items.len() > 0
            invariant
                orig.len() == total,
                done + items@.len() == total,
                labels_view(items@) == orig.skip(done as int),
                labels_view(sorted@) == sorted_by_category(orig.take(done as int)),
            decreases items@.len(),
        {
            let ghost before_items = items@;
            let x = items.remove(0);
            let ghost xv = label_view(x);
            assert(labels_view(before_items)[0] == label_view(before_items[0]));
            assert(orig.skip(done as int)[0] == orig[done as int]);
            assert(xv == orig[done as int]);
            assert(items@ =~= before_items.drop_first());
            assert forall|k: int| 0 <= k < items@.len() implies labels_view(items@)[k] == orig.skip(
                done + 1,
            )[k] by {
                assert(labels_view(before_items)[k + 1] == label_view(before_items[k + 1]));
                assert(orig.skip(done as int)[k + 1] == orig.skip(done + 1)[k]);
            }
            assert(labels_view(items@) =~= orig.skip(done + 1));
            let m = sorted.len();
            let mut p: usize = 0;
            let ghost t = labels_view(sorted@);
            while p < m && !category_sorts_before(x.0.as_str(), sorted[p].0.as_str())
                invariant
                    m == sorted@.len(),
                    t == labels_view(sorted@),
                    xv == label_view(x),
                    p <= m,
                    forall|k: int| 0 <= k < p ==> !category_before(xv.0, #[trigger] t[k].0),
                decreases m - p,
            {
                p += 1;
            }
            proof {
                lemma_insert_at(t, xv, p as int);
                assert(orig.take(done + 1).drop_last() =~= orig.take(done as int));
                assert(orig.take(done + 1).last() == xv);
            }
            sorted.insert(p, x);
            proof {
                assert(labels_view(sorted@) =~= t.take(p as int) + seq![xv] + t.skip(p as int));
            }
            done += 1;
        }
        assert(orig.take(total as int) =~= orig);
        self.categories = sorted;
    }

    /// The categories in order, each with its particle names.
    pub fn categories(&self) -> (res: &Vec<(String, Vec<String>)>)
        ensures
            res@ == self.categories@,
    {
        &self.categories
    }
}

/// The category under which a particle is listed: its own, or "Other".
pub open spec fn category_or_other(category: Option<Seq<char>>) -> Seq<char> {
    match category {
        Some(c) => c,
        None => "Other"@,
    }
}

/// The category entries after recording each particle of `particles`
/// (optional category, name) in turn.
pub open spec fn labels_recorded(particles: Seq<(Option<Seq<char>>, Seq<char>)>) -> Seq<LabelView>
    decreases particles.len(),
{
    if particles.len() == 0 {
        Seq::empty()
    } else {
        let last = particles.last();
        label_pushed(labels_recorded(particles.drop_last()), category_or_other(last.0), last.1)
    }
}

/// The views of (optional category, name) pairs.
pub open spec fn particle_views(particles: Seq<(Option<String>, String)>) -> Seq<(Option<Seq<char>>, Seq<char>)> {
    particles.map_values(
        |p: (Option<String>, String)|
            (
                match p.0 {
                    Some(c) => Some(c@),
                    None => None,
                },
                p.1@,
            ),
    )
}

/// The labels of the particle list, rebuilt from every particle type's
/// category (none means "Other") and name, then sorted.
pub fn refresh_particle_labels(particles: &Vec<(Option<String>, String)>) -> (res: ParticleCategoryLabels)
    ensures
        labels_view(res.categories@) == sorted_by_category(labels_recorded(particle_views(particles@))),
{
    let ghost all = particle_views(particles@);
    let mut labels = ParticleCategoryLabels::new();
    proof {
        assert(labels_view(labels.categories@) =~= labels_recorded(all.take(0)));
    }
    let mut i: usize = 0;
    while i < particles.len()
        invariant
            i <= particles@.len(),
            all == particle_views(particles@),
            labels_view(labels.categories@) == labels_recorded(all.take(i as int)),
        decreases particles@.len() - i,
    {
        let ghost before = all.take(i as int);
        proof {
            assert(all.take(i + 1).drop_last() =~= before);
            assert(all.take(i + 1).last() == all[i as int]);
        }
        let name = owned(particles[i].1.as_str());
        match &particles[i].0 {
            Some(c) => labels.push(c.as_str(), name),
            None => labels.push("Other", name),
        }
        i += 1;
    }
    assert(all.take(particles@.len() as int) =~= all);
    labels.sort();
    labels
}

} // verus!
