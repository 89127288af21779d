//! The console's completion cache: for every command path that has
//! sub-commands, a trie of the UTF-8 bytes of their names.
//!
//! The command registry is modelled by its completion tree: each node has a
//! name and the nodes that may follow it on the command line.
use vstd::prelude::*;
use vstd::utf8::encode_utf8;

use crate::commands::copy_strings;
use crate::text::{owned, str_eq, views};

use trie_rs::{Trie, TrieBuilder};

verus! {

/// `trie_rs::Trie`, held opaquely: what it answers is named by `trie_words`.
#[verifier::external_type_specification]
#[verifier::external_body]
#[verifier::reject_recursive_types(Label)]
pub struct ExTrie<Label>(Trie<Label>);

/// `trie_rs::TrieBuilder`, held opaquely: what it holds is named by
/// `builder_words`.
#[verifier::external_type_specification]
#[verifier::external_body]
#[verifier::reject_recursive_types(Label)]
pub struct ExTrieBuilder<Label>(TrieBuilder<Label>);

/// The words (byte strings) that a byte trie answers as exact matches.
pub uninterp spec fn trie_words(t: Trie<u8>) -> Set<Seq<u8>>;

/// The words pushed so far into a byte trie builder.
pub uninterp spec fn builder_words(b: TrieBuilder<u8>) -> Set<Seq<u8>>;

/// `TrieBuilder::new` of trie_rs: a builder that holds no word yet.
#[verifier::external_body]
fn new_trie_builder() -> (res: TrieBuilder<u8>)
    ensures
        builder_words(res) == Set::<Seq<u8>>::empty(),
{
    TrieBuilder::new()
}

/// `TrieBuilder::push` of trie_rs: adds one word. The crate panics on an
/// empty word, which is therefore excluded.
#[verifier::external_body]
fn push_trie_word(builder: &mut TrieBuilder<u8>, word: &[u8])
    requires
        word@.len() > 0,
    ensures
        builder_words(*final(builder)) == builder_words(*old(builder)).insert(word@),
{
    builder.push(word)
}

/// `TrieBuilder::build` of trie_rs: the trie whose exact matches are the
/// words that were pushed.
#[verifier::external_body]
fn build_trie(builder: TrieBuilder<u8>) -> (res: Trie<u8>)
    ensures
        trie_words(res) == builder_words(builder),
{
    builder.build()
}

/// A node of the command tree: a command or sub-command name and the names
/// that may follow it.
pub struct CompletionNode {
    pub name: String,
    pub children: Vec<CompletionNode>,
}

/// The first of `nodes` with the given name.
pub open spec fn child_named(nodes: Seq<CompletionNode>, name: Seq<char>) -> Option<CompletionNode>
    decreases nodes.len(),
{
    if nodes.len() == 0 {
        None
    } else if nodes[0].name@ == name {
        Some(nodes[0])
    } else {
        child_named(nodes.drop_first(), name)
    }
}

/// The nodes that may follow the command path `path`, starting among `nodes`
/// (empty where the path leads nowhere). Each step follows the first node of
/// that name.
pub open spec fn nodes_after(nodes: Seq<CompletionNode>, path: Seq<Seq<char>>) -> Seq<CompletionNode>
    decreases path.len(),
{
    if path.len() == 0 {
        nodes
    } else {
        match child_named(nodes, path[0]) {
            Some(n) => nodes_after(n.children@, path.drop_first()),
            None => Seq::empty(),
        }
    }
}

/// The UTF-8 encodings of the names of `nodes`.
pub open spec fn completion_words(nodes: Seq<CompletionNode>) -> Set<Seq<u8>> {
    Set::new(|w: Seq<u8>| exists|i: int| 0 <= i < nodes.len() && w == encode_utf8(#[trigger] nodes[i].name@))
}

/// Every name that can be offered as a completion is non-empty.
pub open spec fn completion_names_nonempty(nodes: Seq<CompletionNode>) -> bool {
    forall|path: Seq<Seq<char>>, i: int|
        0 <= i < nodes_after(nodes, path).len() ==> (#[trigger] nodes_after(nodes, path)[i]).name@.len() > 0
}

/// The tries at and below the command path `base`, whose completions are
/// `nodes`: one for `base` and for each path extending it, where the
/// completions are not empty.
pub open spec fn tries_below(base: Seq<Seq<char>>, nodes: Seq<CompletionNode>) -> Map<Seq<Seq<char>>, Set<Seq<u8>>> {
    Map::new(
        |p: Seq<Seq<char>>|
            p.len() >= base.len() && p.take(base.len() as int) == base && nodes_after(
                nodes,
                p.skip(base.len() as int),
            ).len() > 0,
        |p: Seq<Seq<char>>| completion_words(nodes_after(nodes, p.skip(base.len() as int))),
    )
}

/// The tries of a command tree whose top-level commands are `commands`: for
/// every command path with completions, the words of those completions.
pub open spec fn context_tries_of(commands: Seq<CompletionNode>) -> Map<Seq<Seq<char>>, Set<Seq<u8>>> {
    Map::new(
        |p: Seq<Seq<char>>| nodes_after(commands, p).len() > 0,
        |p: Seq<Seq<char>>| completion_words(nodes_after(commands, p)),
    )
}

/// The names of `nodes`, in order.
pub open spec fn node_names(nodes: Seq<CompletionNode>) -> Seq<Seq<char>> {
    nodes.map_values(|n: CompletionNode| n.name@)
}

/// The encodings of the names of the first `count` of `nodes`.
spec fn words_upto(nodes: Seq<CompletionNode>, count: int) -> Set<Seq<u8>> {
    Set::new(|w: Seq<u8>| exists|i: int| 0 <= i < count && w == encode_utf8(#[trigger] nodes[i].name@))
}

proof fn lemma_encode_nonempty(s: Seq<char>)
    requires
        s.len() > 0,
    ensures
        encode_utf8(s).len() > 0,
{
    assert(encode_utf8(s) == vstd::utf8::encode_scalar(s[0] as u32) + encode_utf8(s.drop_first()));
}

proof fn lemma_child_named_first(nodes: Seq<CompletionNode>, name: Seq<char>, k: int)
    requires
        0 <= k < nodes.len(),
        nodes[k].name@ == name,
        forall|i: int| 0 <= i < k ==> nodes[i].name@ != name,
    ensures
        child_named(nodes, name) == Some(nodes[k]),
    decreases k,
{
    if k > 0 {
        lemma_child_named_first(nodes.drop_first(), name, k - 1);
    }
}

proof fn lemma_child_named_found(nodes: Seq<CompletionNode>, name: Seq<char>)
    requires
        child_named(nodes, name) is Some,
    ensures
        exists|k: int| 0 <= k < nodes.len() && nodes[k].name@ == name,
        child_named(nodes, name)->0.name@ == name,
    decreases nodes.len(),
{
    if nodes[0].name@ != name {
        lemma_child_named_found(nodes.drop_first(), name);
        let k = choose|k: int| 0 <= k < nodes.drop_first().len() && nodes.drop_first()[k].name@ == name;
        assert(nodes[k + 1].name@ == name);
    }
}

proof fn lemma_nodes_after_step(nodes: Seq<CompletionNode>, name: Seq<char>, rest: Seq<Seq<char>>)
    requires
        child_named(nodes, name) is Some,
    ensures
        nodes_after(nodes, seq![name] + rest) == nodes_after(child_named(nodes, name)->0.children@, rest),
{
    let p = seq![name] + rest;
    assert(p[0] == name);
    assert(p.drop_first() =~= rest);
}

/// The names of `nodes`, as the completions offered after their parent.
fn context_completions(nodes: &Vec<CompletionNode>) -> (res: Vec<String>)
    ensures
        views(res@) == node_names(nodes@),
{
    let mut res: Vec<String> = Vec::new();
    let mut i: usize = 0;
    while i < nodes.len()
        invariant
            i <= nodes@.len(),
            views(res@) == node_names(nodes@).take(i as int),
        decreases nodes@.len() - i,
    {
        let ghost before = res@;
        res.push(owned(nodes[i].name.as_str()));
        proof {
            assert(views(res@) =~= views(before).push(nodes@[i as int].name@));
            assert(node_names(nodes@).take(i + 1) =~= node_names(nodes@).take(i as int).push(
                nodes@[i as int].name@,
            ));
        }
        i += 1;
    }
    assert(node_names(nodes@).take(nodes@.len() as int) =~= node_names(nodes@));
    res
}

/// The index of the first of `nodes` named `name`.
fn first_named(nodes: &Vec<CompletionNode>, name: &str) -> (res: Option<usize>)
    ensures
        match res {
            Some(k) => k < nodes@.len() && nodes@[k as int].name@ == name@ && forall|i: int|
                0 <= i < k ==> nodes@[i].name@ != name@,
            None => forall|i: int| 0 <= i < nodes@.len() ==> nodes@[i].name@ != name@,
        },
{
    let mut i: usize = 0;
    while i < nodes.len()
        invariant
            i <= nodes@.len(),
            forall|k: int| 0 <= k < i ==> nodes@[k].name@ != name@,
        decreases nodes@.len() - i,
    {
        if str_eq(nodes[i].name.as_str(), name) {
            return Some(i);
        }
        i += 1;
    }
    None
}

/// The tries held for each command path: a later entry for a path replaces
/// an earlier one.
pub open spec fn tries_map(entries: Seq<(Vec<String>, Trie<u8>)>) -> Map<Seq<Seq<char>>, Set<Seq<u8>>>
    decreases entries.len(),
{
    if entries.len() == 0 {
        Map::empty()
    } else {
        tries_map(entries.drop_last()).insert(views(entries.last().0@), trie_words(entries.last().1))
    }
}

/// No command path has two entries.
pub open spec fn paths_distinct(entries: Seq<(Vec<String>, Trie<u8>)>) -> bool {
    forall|a: int, b: int| 0 <= a < b < entries.len() ==> views(entries[a].0@) != views(entries[b].0@)
}

proof fn lemma_tries_map_keys(entries: Seq<(Vec<String>, Trie<u8>)>, p: Seq<Seq<char>>)
    ensures
        tries_map(entries).contains_key(p) <==> exists|i: int|
            0 <= i < entries.len() && views(#[trigger] entries[i].0@) == p,
    decreases entries.len(),
{
    if entries.len() > 0 {
        let init = entries.drop_last();
        lemma_tries_map_keys(init, p);
        if tries_map(init).contains_key(p) {
            let i = choose|i: int| 0 <= i < init.len() && views(#[trigger] init[i].0@) == p;
            assert(entries[i] == init[i]);
        }
        if exists|i: int| 0 <= i < entries.len() && views(#[trigger] entries[i].0@) == p {
            let i = choose|i: int| 0 <= i < entries.len() && views(#[trigger] entries[i].0@) == p;
            if i < entries.len() - 1 {
                assert(init[i] == entries[i]);
            }
        }
    }
}

proof fn lemma_tries_map_at(entries: Seq<(Vec<String>, Trie<u8>)>, i: int)
    requires
        paths_distinct(entries),
        0 <= i < entries.len(),
    ensures
        tries_map(entries).contains_key(views(entries[i].0@)),
        tries_map(entries)[views(entries[i].0@)] == trie_words(entries[i].1),
    decreases entries.len(),
{
    if i < entries.len() - 1 {
        let init = entries.drop_last();
        assert(init[i] == entries[i]);
        lemma_tries_map_at(init, i);
    }
}

proof fn lemma_tries_map_update(
    entries: Seq<(Vec<String>, Trie<u8>)>,
    i: int,
    entry: (Vec<String>, Trie<u8>),
)
    requires
        paths_distinct(entries),
        0 <= i < entries.len(),
        views(entry.0@) == views(entries[i].0@),
    ensures
        tries_map(entries.update(i, entry)) == tries_map(entries).insert(views(entry.0@), trie_words(entry.1)),
    decreases entries.len(),
{
    let updated = entries.update(i, entry);
    let init = entries.drop_last();
    if i == entries.len() - 1 {
        assert(updated.drop_last() =~= init);
        assert(tries_map(updated) =~= tries_map(entries).insert(views(entry.0@), trie_words(entry.1)));
    } else {
        lemma_tries_map_update(init, i, entry);
        assert(updated.drop_last() =~= init.update(i, entry));
        assert(views(entries.last().0@) != views(entry.0@));
        assert(tries_map(updated) =~= tries_map(entries).insert(views(entry.0@), trie_words(entry.1)));
    }
}

/// `p` lies below `base` and is either `base` itself or continues with the
/// name of one of the first `count` nodes.
spec fn covered(base: Seq<Seq<char>>, nodes: Seq<CompletionNode>, count: int, p: Seq<Seq<char>>) -> bool {
    &&& tries_below(base, nodes).contains_key(p)
    &&& (p.len() == base.len() || exists|k: int| 0 <= k < count && #[trigger] nodes[k].name@ == p[base.len() as int])
}

proof fn lemma_children_names_nonempty(nodes: Seq<CompletionNode>, name: Seq<char>)
    requires
        completion_names_nonempty(nodes),
        child_named(nodes, name) is Some,
    ensures
        completion_names_nonempty(child_named(nodes, name)->0.children@),
{
    let children = child_named(nodes, name)->0.children@;
    assert forall|q: Seq<Seq<char>>, i: int| 0 <= i < nodes_after(children, q).len() implies (
    #[trigger] nodes_after(children, q)[i]).name@.len() > 0 by {
        lemma_nodes_after_step(nodes, name, q);
        assert(nodes_after(nodes, seq![name] + q)[i] == nodes_after(children, q)[i]);
    }
}

/// The tries below a child path are the tries below its parent path that
/// continue with the child's name.
proof fn lemma_below_child(base: Seq<Seq<char>>, nodes: Seq<CompletionNode>, k: int, p: Seq<Seq<char>>)
    requires
        0 <= k < nodes.len(),
        child_named(nodes, nodes[k].name@) == Some(nodes[k]),
    ensures
        tries_below(base.push(nodes[k].name@), nodes[k].children@).contains_key(p) <==> (
        tries_below(base, nodes).contains_key(p) && p.len() > base.len() && p[base.len() as int]
            == nodes[k].name@),
        tries_below(base.push(nodes[k].name@), nodes[k].children@).contains_key(p) ==> tries_below(
            base.push(nodes[k].name@),
            nodes[k].children@,
        )[p] == tries_below(base, nodes)[p],
{
    let c = nodes[k].name@;
    let child_base = base.push(c);
    let n = base.len() as int;
    if p.len() > base.len() {
        let r = p.skip(n);
        let rest = p.skip(n + 1);
        assert(r =~= seq![p[n]] + rest);
        assert(child_base.len() == n + 1);
        if p[n] == c {
            lemma_nodes_after_step(nodes, c, rest);
            if p.take(n) == base {
                assert(p.take(n + 1) =~= child_base);
            }
            if p.take(n + 1) == child_base {
                assert(p.take(n) =~= base);
            }
        } else {
            assert(p.take(n + 1)[n] != child_base[n]);
        }
    }
}

proof fn lemma_covered_step(
    base: Seq<Seq<char>>,
    nodes: Seq<CompletionNode>,
    j: int,
    k: int,
    start: Map<Seq<Seq<char>>, Set<Seq<u8>>>,
    prev: Map<Seq<Seq<char>>, Set<Seq<u8>>>,
    next: Map<Seq<Seq<char>>, Set<Seq<u8>>>,
)
    requires
        0 <= k <= j < nodes.len(),
        nodes[k].name@ == nodes[j].name@,
        child_named(nodes, nodes[k].name@) == Some(nodes[k]),
        forall|p: Seq<Seq<char>>| #[trigger] prev.contains_key(p) <==> (start.contains_key(p) || covered(base, nodes, j, p)),
        forall|p: Seq<Seq<char>>| #[trigger] prev.contains_key(p) ==> prev[p] == (if covered(base, nodes, j, p) {
            tries_below(base, nodes)[p]
        } else {
            start[p]
        }),
        next == prev.union_prefer_right(tries_below(base.push(nodes[j].name@), nodes[k].children@)),
    ensures
        forall|p: Seq<Seq<char>>| #[trigger] next.contains_key(p) <==> (start.contains_key(p) || covered(base, nodes, j + 1, p)),
        forall|p: Seq<Seq<char>>| #[trigger] next.contains_key(p) ==> next[p] == (if covered(base, nodes, j + 1, p) {
            tries_below(base, nodes)[p]
        } else {
            start[p]
        }),
{
    let below = tries_below(base, nodes);
    let sub = tries_below(base.push(nodes[j].name@), nodes[k].children@);
    assert forall|p: Seq<Seq<char>>| #[trigger] covered(base, nodes, j + 1, p) <==> (covered(base, nodes, j, p) || sub.contains_key(p)) by {
        lemma_below_child(base, nodes, k, p);
        if covered(base, nodes, j + 1, p) && !covered(base, nodes, j, p) {
            let w = choose|w: int| 0 <= w < j + 1 && #[trigger] nodes[w].name@ == p[base.len() as int];
            assert(w == j);
        }
        if sub.contains_key(p) {
            assert(nodes[j].name@ == p[base.len() as int]);
        }
        if covered(base, nodes, j, p) && p.len() != base.len() {
            let w = choose|w: int| 0 <= w < j && #[trigger] nodes[w].name@ == p[base.len() as int];
            assert(nodes[w].name@ == p[base.len() as int]);
        }
    }
    assert forall|p: Seq<Seq<char>>| #[trigger] next.contains_key(p) implies next[p] == (if covered(base, nodes, j + 1, p) {
        below[p]
    } else {
        start[p]
    }) by {
        lemma_below_child(base, nodes, k, p);
        if !sub.contains_key(p) {
            assert(prev.contains_key(p));
        }
    }
}

proof fn lemma_covered_all(
    base: Seq<Seq<char>>,
    nodes: Seq<CompletionNode>,
    start: Map<Seq<Seq<char>>, Set<Seq<u8>>>,
    fin: Map<Seq<Seq<char>>, Set<Seq<u8>>>,
)
    requires
        forall|p: Seq<Seq<char>>| #[trigger] fin.contains_key(p) <==> (start.contains_key(p) || covered(base, nodes, nodes.len() as int, p)),
        forall|p: Seq<Seq<char>>| #[trigger] fin.contains_key(p) ==> fin[p] == (if covered(base, nodes, nodes.len() as int, p) {
            tries_below(base, nodes)[p]
        } else {
            start[p]
        }),
    ensures
        fin == start.union_prefer_right(tries_below(base, nodes)),
{
    let below = tries_below(base, nodes);
    let n = base.len() as int;
    assert forall|p: Seq<Seq<char>>| #[trigger] covered(base, nodes, nodes.len() as int, p) <==> below.contains_key(p) by {
        if below.contains_key(p) && p.len() != base.len() {
            let r = p.skip(n);
            assert(r[0] == p[n]);
            if child_named(nodes, p[n]) is Some {
                lemma_child_named_found(nodes, p[n]);
                let w = choose|w: int| 0 <= w < nodes.len() && nodes[w].name@ == p[n];
                assert(nodes[w].name@ == p[n]);
            }
        }
    }
    assert(fin =~= start.union_prefer_right(below));
}

/// Whether two command paths are the same.
fn paths_equal(a: &Vec<String>, b: &Vec<String>) -> (res: bool)
    ensures
        res == (views(a@) == views(b@)),
{
    if a.len() != b.len() {
        return false;
    }
    let mut i: usize = 0;
    while i < a.len()
        invariant
            a@.len() == b@.len(),
            i <= a@.len(),
            forall|k: int| 0 <= k < i ==> a@[k]@ == b@[k]@,
        decreases a@.len() - i,
    {
        if !str_eq(a[i].as_str(), b[i].as_str()) {
            assert(views(a@)[i as int] != views(b@)[i as int]);
            return false;
        }
        i += 1;
    }
    assert(views(a@) =~= views(b@));
    true
}

/// The index of the entry for `path`.
fn path_index(entries: &Vec<(Vec<String>, Trie<u8>)>, path: &Vec<String>) -> (res: Option<usize>)
    ensures
        match res {
            Some(k) => k < entries@.len() && views(entries@[k as int].0@) == views(path@),
            None => forall|k: int| 0 <= k < entries@.len() ==> views(entries@[k].0@) != views(path@),
        },
{
    let mut i: usize = 0;
    while i < entries.len()
        invariant
            i <= entries@.len(),
            forall|k: int| 0 <= k < i ==> views(entries@[k].0@) != views(path@),
        decreases entries@.len() - i,
    {
        if paths_equal(&entries[i].0, path) {
            return Some(i);
        }
        i += 1;
    }
    None
}

/// The completion tries of the console, one for each command path that has
/// completions.
pub struct ConsoleCache {
    context_tries: Vec<(Vec<String>, Trie<u8>)>,
}

impl View for ConsoleCache {
    type V = Map<Seq<Seq<char>>, Set<Seq<u8>>>;

    closed spec fn view(&self) -> Map<Seq<Seq<char>>, Set<Seq<u8>>> {
        tries_map(self.context_tries@)
    }
}

impl ConsoleCache {
    #[verifier::type_invariant]
    spec fn paths_unique(self) -> bool {
        paths_distinct(self.context_tries@)
    }

    /// A cache with no tries.
    pub fn new() -> (res: Self)
        ensures
            res@ == Map::<Seq<Seq<char>>, Set<Seq<u8>>>::empty(),
    {
        ConsoleCache { context_tries: Vec::new() }
    }

    /// The (command path, trie) entries, one per path.
    pub fn context_tries(&self) -> (res: &Vec<(Vec<String>, Trie<u8>)>)
        ensures
            tries_map(res@) == self@,
            paths_distinct(res@),
    {
        proof {
            use_type_invariant(self);
        }
        &self.context_tries
    }

    /// Rebuilds every trie from the command tree whose top-level commands are
    /// `commands`. Every name that can be offered as a completion must be
    /// non-empty: a trie cannot hold the empty word.
    pub fn rebuild_tries(&mut self, commands: &Vec<CompletionNode>)
        requires
            completion_names_nonempty(commands@),
        ensures
            final(self)@ == context_tries_of(commands@),
    {
        self.context_tries = Vec::new();
        let root: Vec<String> = Vec::new();
        self.build_context_tries_recursive(&root, commands);
        proof {
            let base = views(root@);
            assert(base =~= Seq::<Seq<char>>::empty());
            assert forall|p: Seq<Seq<char>>| #[trigger] tries_below(base, commands@).contains_key(p) <==> context_tries_of(commands@).contains_key(p) by {
                assert(p.take(0) =~= base);
                assert(p.skip(0) =~= p);
            }
            assert forall|p: Seq<Seq<char>>| #[trigger] tries_below(base, commands@).contains_key(p) implies tries_below(base, commands@)[p] == context_tries_of(commands@)[p] by {
                assert(p.skip(0) =~= p);
            }
            assert(Map::<Seq<Seq<char>>, Set<Seq<u8>>>::empty().union_prefer_right(tries_below(base, commands@)) =~= context_tries_of(commands@));
        }
    }

    /// Adds the tries below `current_path`, whose completions are `nodes`.
    fn build_context_tries_recursive(&mut self, current_path: &Vec<String>, nodes: &Vec<CompletionNode>)
        requires
            completion_names_nonempty(nodes@),
        ensures
            final(self)@ == old(self)@.union_prefer_right(tries_below(views(current_path@), nodes@)),
        decreases nodes@,
    {
        let ghost base = views(current_path@);
        let ghost below = tries_below(base, nodes@);
        let ghost start = self@;
        let completions = context_completions(nodes);
        proof {
            assert(views(completions@).len() == completions@.len());
            assert(completions@.len() == nodes@.len());
            assert(nodes_after(nodes@, Seq::empty()) == nodes@);
            assert(base.skip(base.len() as int) =~= Seq::<Seq<char>>::empty());
            assert(base.take(base.len() as int) =~= base);
        }
        if completions.len() > 0 {
            let mut builder = new_trie_builder();
            let mut i: usize = 0;
            while i < completions.len()
                invariant
                    i <= completions@.len(),
                    completions@.len() == nodes@.len(),
                    views(completions@) == node_names(nodes@),
                    completion_names_nonempty(nodes@),
                    builder_words(builder) == words_upto(nodes@, i as int),
                decreases completions@.len() - i,
            {
                let ghost before = builder_words(builder);
                proof {
                    assert(nodes_after(nodes@, Seq::empty())[i as int] == nodes@[i as int]);
                    assert(views(completions@)[i as int] == node_names(nodes@)[i as int]);
                    assert(completions@[i as int]@ == nodes@[i as int].name@);
                    lemma_encode_nonempty(completions@[i as int]@);
                }
                push_trie_word(&mut builder, completions[i].as_str().as_bytes());
                proof {
                    assert(words_upto(nodes@, i + 1) =~= before.insert(encode_utf8(nodes@[i as int].name@)));
                }
                i += 1;
            }
            let trie = build_trie(builder);
            proof {
                assert(words_upto(nodes@, nodes@.len() as int) =~= completion_words(nodes@));
            }
            self.set_trie(copy_strings(current_path.as_slice(), 0, current_path.len()), trie);
            proof {
                assert(current_path@.subrange(0, current_path@.len() as int) =~= current_path@);
            }
        }
        proof {
            assert forall|p: Seq<Seq<char>>| #[trigger] covered(base, nodes@, 0, p) <==> (nodes@.len() > 0 && p == base) by {
                if p.len() == base.len() && p.take(base.len() as int) == base {
                    assert(p.take(p.len() as int) =~= p);
                }
            }
        }
        let mut j: usize = 0;
        while j < completions.len()
            invariant
                j <= completions@.len(),
                completions@.len() == nodes@.len(),
                views(completions@) == node_names(nodes@),
                completion_names_nonempty(nodes@),
                base == views(current_path@),
                below == tries_below(base, nodes@),
                forall|p: Seq<Seq<char>>| #[trigger] self@.contains_key(p) <==> (start.contains_key(p) || covered(base, nodes@, j as int, p)),
                forall|p: Seq<Seq<char>>| #[trigger] self@.contains_key(p) ==> self@[p] == (if covered(base, nodes@, j as int, p) { below[p] } else { start[p] }),
            decreases completions@.len() - j,
        {
            let ghost prev = self@;
            let name = completions[j].as_str();
            proof {
                assert(views(completions@)[j as int] == node_names(nodes@)[j as int]);
                assert(name@ == nodes@[j as int].name@);
            }
            let mut next_path = copy_strings(current_path.as_slice(), 0, current_path.len());
            let ghost path_before = next_path@;
            next_path.push(owned(name));
            proof {
                assert(current_path@.subrange(0, current_path@.len() as int) =~= current_path@);
                assert(views(next_path@) =~= views(path_before).push(name@));
            }
            match first_named(nodes, name) {
                Some(k) => {
                    proof {
                        lemma_child_named_first(nodes@, name@, k as int);
                        lemma_children_names_nonempty(nodes@, name@);
                    }
                    self.build_context_tries_recursive(&next_path, &nodes[k].children);
                    proof {
                        lemma_covered_step(base, nodes@, j as int, k as int, start, prev, self@);
                    }
                },
                None => {
                    proof {
                        assert(nodes@[j as int].name@ == name@);
                    }
                },
            }
            j += 1;
        }
        proof {
            lemma_covered_all(base, nodes@, start, self@);
        }
    }

    /// Stores `trie` for `path`, replacing what was held for it.
    fn set_trie(&mut self, path: Vec<String>, trie: Trie<u8>)
        ensures
            final(self)@ == old(self)@.insert(views(path@), trie_words(trie)),
    {
        proof {
            use_type_invariant(&*self);
        }
        let ghost old_entries = self.context_tries@;
        let found = path_index(&self.context_tries, &path);
        let mut entries: Vec<(Vec<String>, Trie<u8>)> = Vec::new();
        std::mem::swap(&mut entries, &mut self.context_tries);
        match found {
            Some(k) => {
                let ghost entry = (path, trie);
                proof {
                    lemma_tries_map_update(old_entries, k as int, entry);
                }
                entries[k] = (path, trie);
                proof {
                    assert(entries@ =~= old_entries.update(k as int, entry));
                    assert forall|a: int, b: int| 0 <= a < b < entries@.len() implies views(entries@[a].0@)
                        != views(entries@[b].0@) by {
                        if a != k {
                            assert(entries@[a] == old_entries[a]);
                        }
                        if b != k {
                            assert(entries@[b] == old_entries[b]);
                        }
                    }
                }
                self.context_tries = entries;
            },
            None => {
                let ghost entry = (path, trie);
                entries.push((path, trie));
                proof {
                    assert(entries@.drop_last() =~= old_entries);
                    assert forall|a: int, b: int| 0 <= a < b < entries@.len() implies views(entries@[a].0@)
                        != views(entries@[b].0@) by {
                        if b < old_entries.len() {
                            assert(entries@[a] == old_entries[a]);
                            assert(entries@[b] == old_entries[b]);
                        } else {
                            assert(entries@[a] == old_entries[a]);
                        }
                    }
                }
                self.context_tries = entries;
            },
        }
    }
}

} // verus!
