//! The usage index: for each fragment name, the fragments that refer to it.

use crate::document::{
    block_name, CodeBlock, Document, Node, NodeView, SourceLine, SourceLineView,
};
use crate::text::texts;
use vstd::hash_map::StringHashMap;
use vstd::prelude::*;

verus! {

/// The names that the macro lines of a fragment refer to, in order.
pub open spec fn macro_names(source: Seq<SourceLineView>) -> Seq<Seq<char>>
    decreases source.len(),
{
    if source.len() == 0 {
        Seq::empty()
    } else {
        let front = macro_names(source.drop_last());
        match source.last() {
            SourceLineView::Macro(name) => front.push(name),
            SourceLineView::Text(_) => front,
        }
    }
}

/// How often a name occurs among names.
pub open spec fn occurrences(names: Seq<Seq<char>>, name: Seq<char>) -> nat
    decreases names.len(),
{
    if names.len() == 0 {
        0
    } else {
        occurrences(names.drop_last(), name) + if names.last() == name {
            1nat
        } else {
            0nat
        }
    }
}

/// A name, the given number of times.
pub open spec fn repeated(name: Seq<char>, times: nat) -> Seq<Seq<char>> {
    Seq::new(times, |i: int| name)
}

/// What one node adds to the usage of a target: the name of the fragment,
/// once for each of its macro lines that refers to the target.
pub open spec fn node_referrers(node: NodeView, target: Seq<char>) -> Seq<Seq<char>> {
    match node {
        NodeView::Code(block) => repeated(
            block_name(block),
            occurrences(macro_names(block.source), target),
        ),
        _ => Seq::empty(),
    }
}

/// The names of the fragments that refer to a target, one entry for each
/// macro line that does, in the order of the document.
pub open spec fn referrers(nodes: Seq<NodeView>, target: Seq<char>) -> Seq<Seq<char>>
    decreases nodes.len(),
{
    if nodes.len() == 0 {
        Seq::empty()
    } else {
        referrers(nodes.drop_last(), target) + node_referrers(nodes.last(), target)
    }
}

/// The usage index of a document: an entry for each name that some macro line
/// refers to, and none for any other.
pub open spec fn usage_index(nodes: Seq<NodeView>) -> Map<Seq<char>, Seq<Seq<char>>> {
    Map::new(
        |target: Seq<char>| referrers(nodes, target).len() > 0,
        |target: Seq<char>| referrers(nodes, target),
    )
}

/// How many macro lines of fragments called `from` refer to `to`.
pub open spec fn reference_count(nodes: Seq<NodeView>, from: Seq<char>, to: Seq<char>) -> nat
    decreases nodes.len(),
{
    if nodes.len() == 0 {
        0
    } else {
        reference_count(nodes.drop_last(), from, to) + match nodes.last() {
            NodeView::Code(block) => if block_name(block) == from {
                occurrences(macro_names(block.source), to)
            } else {
                0nat
            },
            _ => 0nat,
        }
    }
}

/// The names that the macro lines of a fragment refer to, in order.
pub fn macros(block: &CodeBlock) -> (names: Vec<String>)
    ensures
        texts(names@) == macro_names(block@.source),
{
    let mut names: Vec<String> = Vec::new();
    let mut i: usize = 0;
    while i < block.source.len()
        invariant
            i <= block.source.len(),
            texts(names@) == macro_names(block@.source.take(i as int)),
        decreases block.source.len() - i,
    {
        proof {
            let next = block@.source.take(i + 1);
            assert(next.drop_last() == block@.source.take(i as int));
            assert(next.last() == block.source@[i as int]@);
        }
        match &block.source[i] {
            SourceLine::Macro(name) => {
                let name = name.clone();
                proof {
                    assert(texts(names@.push(name)) == texts(names@).push(name@));
                }
                names.push(name);
            },
            SourceLine::Text(_) => {},
        }
        i = i + 1;
    }
    proof {
        assert(block@.source.take(block.source.len() as int) == block@.source);
    }
    names
}

/// A mapping from fragment names to the names of the fragments that refer to
/// them. A name that nothing refers to has no entry.
pub struct UsageIndex {
    /// For each name with an entry, the place of its list.
    slots: StringHashMap<usize>,
    /// The lists of referring names.
    lists: Vec<Vec<String>>,
}

impl UsageIndex {
    /// Every entry has a list of its own, and no list is empty.
    pub closed spec fn wf(&self) -> bool {
        &&& forall|name: Seq<char>| #[trigger]
            self.slots@.contains_key(name) ==> self.slots@[name] < self.lists@.len()
                && self.lists@[self.slots@[name] as int]@.len() > 0
        &&& forall|a: Seq<char>, b: Seq<char>|
            self.slots@.contains_key(a) && self.slots@.contains_key(b) && a != b
                ==> #[trigger] self.slots@[a] != #[trigger] self.slots@[b]
    }

    /// The names that refer to a target, in the order in which they were
    /// recorded; empty where the target has no entry.
    spec fn users(&self, target: Seq<char>) -> Seq<Seq<char>> {
        if self.slots@.contains_key(target) {
            texts(self.lists@[self.slots@[target] as int]@)
        } else {
            Seq::empty()
        }
    }

    /// Whether a target has an entry.
    spec fn has_entry(&self, target: Seq<char>) -> bool {
        self.slots@.contains_key(target)
    }

    /// An index without entries.
    pub fn new() -> (index: UsageIndex)
        ensures
            index.wf(),
            index@ == Map::<Seq<char>, Seq<Seq<char>>>::empty(),
    {
        let index = UsageIndex { slots: StringHashMap::new(), lists: Vec::new() };
        proof {
            assert(index@ =~= Map::<Seq<char>, Seq<Seq<char>>>::empty());
        }
        index
    }

    /// Records that the fragment called `user` refers to `target`.
    pub fn record(&mut self, target: &str, user: String)
        requires
            old(self).wf(),
        ensures
            final(self).wf(),
            final(self)@ == old(self)@.insert(
                target@,
                if old(self)@.contains_key(target@) {
                    old(self)@[target@].push(user@)
                } else {
                    seq![user@]
                },
            ),
    {
        let found = match self.slots.get(target) {
            Some(slot) => Some(*slot),
            None => None,
        };
        match found {
            Some(slot) => {
                let ghost before = self.lists@[slot as int]@;
                self.lists[slot].push(user);
                proof {
                    assert(texts(before.push(user)) == texts(before).push(user@));
                }
            },
            None => {
                let slot = self.lists.len();
                let mut list: Vec<String> = Vec::new();
                list.push(user);
                proof {
                    assert(texts(list@) == seq![user@]);
                }
                self.lists.push(list);
                self.slots.insert(String::from_str(target), slot);
            },
        }
        proof {
            assert(final(self)@ =~= old(self)@.insert(
                target@,
                if old(self)@.contains_key(target@) {
                    old(self)@[target@].push(user@)
                } else {
                    seq![user@]
                },
            ));
        }
    }

    /// The names of the fragments that refer to a target, or nothing where
    /// none does.
    pub fn get(&self, target: &str) -> (users: Option<&Vec<String>>)
        requires
            self.wf(),
        ensures
            match users {
                Some(names) => self@.contains_key(target@) && texts(names@) == self@[target@],
                None => !self@.contains_key(target@),
            },
    {
        match self.slots.get(target) {
            Some(slot) => Some(&self.lists[*slot]),
            None => None,
        }
    }
}

impl View for UsageIndex {
    type V = Map<Seq<char>, Seq<Seq<char>>>;

    closed spec fn view(&self) -> Map<Seq<char>, Seq<Seq<char>>> {
        Map::new(|target: Seq<char>| self.has_entry(target), |target: Seq<char>| self.users(target))
    }
}

/// The usage of a target after the nodes in `before` and, of one more
/// fragment called `user`, the macro lines that refer to the names in `seen`.
spec fn referrers_so_far(
    before: Seq<NodeView>,
    user: Seq<char>,
    seen: Seq<Seq<char>>,
    target: Seq<char>,
) -> Seq<Seq<char>> {
    referrers(before, target) + repeated(user, occurrences(seen, target))
}

/// An index holds, for every target, the usage so far, and an entry only
/// where that usage is not empty.
spec fn holds_usage_so_far(
    index: Map<Seq<char>, Seq<Seq<char>>>,
    before: Seq<NodeView>,
    user: Seq<char>,
    seen: Seq<Seq<char>>,
) -> bool {
    forall|target: Seq<char>|
        {
            &&& #[trigger] index.contains_key(target) <==> referrers_so_far(
                before,
                user,
                seen,
                target,
            ).len() > 0
            &&& index.contains_key(target) ==> index[target] == referrers_so_far(
                before,
                user,
                seen,
                target,
            )
        }
}

proof fn lemma_record_step(
    index: Map<Seq<char>, Seq<Seq<char>>>,
    before: Seq<NodeView>,
    user: Seq<char>,
    seen: Seq<Seq<char>>,
    target: Seq<char>,
)
    requires
        holds_usage_so_far(index, before, user, seen),
    ensures
        holds_usage_so_far(
            index.insert(
                target,
                if index.contains_key(target) {
                    index[target].push(user)
                } else {
                    seq![user]
                },
            ),
            before,
            user,
            seen.push(target),
        ),
{
    let after = index.insert(
        target,
        if index.contains_key(target) {
            index[target].push(user)
        } else {
            seq![user]
        },
    );
    assert(seen.push(target).drop_last() == seen);
    assert forall|other: Seq<char>|
        {
            &&& #[trigger] after.contains_key(other) <==> referrers_so_far(
                before,
                user,
                seen.push(target),
                other,
            ).len() > 0
            &&& after.contains_key(other) ==> after[other] == referrers_so_far(
                before,
                user,
                seen.push(target),
                other,
            )
        } by {
        let old_usage = referrers_so_far(before, user, seen, other);
        let new_usage = referrers_so_far(before, user, seen.push(target), other);
        assert(index.contains_key(other) <==> old_usage.len() > 0);
        if other == target {
            let k = occurrences(seen, other);
            assert(repeated(user, k + 1) == repeated(user, k).push(user));
            assert(new_usage == old_usage.push(user));
            if !index.contains_key(target) {
                assert(old_usage == Seq::<Seq<char>>::empty());
                assert(new_usage == seq![user]);
            }
        } else {
            assert(new_usage == old_usage);
        }
    }
}

proof fn lemma_usage_index_holds(nodes: Seq<NodeView>)
    ensures
        holds_usage_so_far(usage_index(nodes), nodes, Seq::empty(), Seq::empty()),
{
    assert forall|target: Seq<char>|
        referrers_so_far(nodes, Seq::empty(), Seq::empty(), target) == referrers(
            nodes,
            target,
        ) by {
        assert(repeated(Seq::empty(), 0) == Seq::<Seq<char>>::empty());
        assert(referrers(nodes, target) + Seq::<Seq<char>>::empty() == referrers(nodes, target));
    }
}

/// Builds the usage index of a document in one pass over its nodes.
pub fn block_usage(document: &Document) -> (index: UsageIndex)
    ensures
        index.wf(),
        index@ == usage_index(document@.nodes),
{
    let mut index = UsageIndex::new();
    let ghost nodes = document@.nodes;
    let mut i: usize = 0;
    proof {
        assert(nodes.take(0) == Seq::<NodeView>::empty());
        assert(index@ =~= usage_index(nodes.take(0)));
    }
    while i < document.nodes.len()
        invariant
            i <= document.nodes.len(),
            nodes == document@.nodes,
            index.wf(),
            index@ == usage_index(nodes.take(i as int)),
        decreases document.nodes.len() - i,
    {
        let ghost before = nodes.take(i as int);
        proof {
            let next = nodes.take(i + 1);
            assert(next.drop_last() == before);
            assert(next.last() == document.nodes@[i as int]@);
        }
        match &document.nodes[i] {
            Node::Code(block) => {
                let user = block.resolved_name();
                let mut j: usize = 0;
                proof {
                    lemma_usage_index_holds(before);
                    assert(block@.source.take(0) == Seq::<SourceLineView>::empty());
                    assert forall|target: Seq<char>|
                        referrers_so_far(before, user@, Seq::empty(), target)
                            == referrers_so_far(
                            before,
                            Seq::empty(),
                            Seq::empty(),
                            target,
                        ) by {
                        assert(repeated(user@, 0) == repeated(Seq::empty(), 0));
                    }
                }
                while j < block.source.len()
                    invariant
                        j <= block.source.len(),
                        index.wf(),
                        user@ == block_name(block@),
                        holds_usage_so_far(
                            index@,
                            before,
                            user@,
                            macro_names(block@.source.take(j as int)),
                        ),
                    decreases block.source.len() - j,
                {
                    proof {
                        let next = block@.source.take(j + 1);
                        assert(next.drop_last() == block@.source.take(j as int));
                        assert(next.last() == block.source@[j as int]@);
                    }
                    match &block.source[j] {
                        SourceLine::Macro(target) => {
                            proof {
                                lemma_record_step(
                                    index@,
                                    before,
                                    user@,
                                    macro_names(block@.source.take(j as int)),
                                    target@,
                                );
                            }
                            index.record(target.as_str(), user.clone());
                        },
                        SourceLine::Text(_) => {},
                    }
                    j = j + 1;
                }
                proof {
                    assert(block@.source.take(block.source.len() as int) == block@.source);
                    let next = nodes.take(i + 1);
                    assert forall|target: Seq<char>|
                        referrers_so_far(before, user@, macro_names(block@.source), target)
                            == referrers(next, target) by {}
                    assert(index@ =~= usage_index(next));
                }
            },
            _ => {
                proof {
                    let next = nodes.take(i + 1);
                    assert forall|target: Seq<char>|
                        referrers(before, target) == referrers(next, target) by {
                        assert(referrers(before, target) + Seq::<Seq<char>>::empty()
                            == referrers(before, target));
                    }
                    assert(index@ =~= usage_index(next));
                }
            },
        }
        i = i + 1;
    }
    proof {
        assert(nodes.take(document.nodes.len() as int) == nodes);
    }
    index
}

proof fn lemma_occurrences_concat(a: Seq<Seq<char>>, b: Seq<Seq<char>>, name: Seq<char>)
    ensures
        occurrences(a + b, name) == occurrences(a, name) + occurrences(b, name),
    decreases b.len(),
{
    if b.len() == 0 {
        assert(a + b == a);
    } else {
        assert((a + b).drop_last() == a + b.drop_last());
        assert((a + b).last() == b.last());
        lemma_occurrences_concat(a, b.drop_last(), name);
    }
}

proof fn lemma_occurrences_repeated(item: Seq<char>, times: nat, name: Seq<char>)
    ensures
        occurrences(repeated(item, times), name) == if item == name {
            times
        } else {
            0
        },
    decreases times,
{
    if times > 0 {
        assert(repeated(item, times).drop_last() == repeated(item, (times - 1) as nat));
        lemma_occurrences_repeated(item, (times - 1) as nat, name);
    }
}

/// Every reference is recorded, and nothing else: the fragments called `from`
/// stand in the usage of `to` once for each of their macro lines that refers
/// to `to`. References of a fragment to itself and repeated references count
/// like any other.
pub proof fn lemma_usage_complete(nodes: Seq<NodeView>, from: Seq<char>, to: Seq<char>)
    ensures
        occurrences(referrers(nodes, to), from) == reference_count(nodes, from, to),
        reference_count(nodes, from, to) > 0 ==> usage_index(nodes).contains_key(to)
            && occurrences(usage_index(nodes)[to], from) == reference_count(nodes, from, to),
    decreases nodes.len(),
{
    if nodes.len() > 0 {
        lemma_usage_complete(nodes.drop_last(), from, to);
        lemma_occurrences_concat(
            referrers(nodes.drop_last(), to),
            node_referrers(nodes.last(), to),
            from,
        );
        match nodes.last() {
            NodeView::Code(block) => {
                lemma_occurrences_repeated(
                    block_name(block),
                    occurrences(macro_names(block.source), to),
                    from,
                );
            },
            _ => {},
        }
    }
    if reference_count(nodes, from, to) > 0 {
        assert(referrers(nodes, to).len() > 0) by {
            if referrers(nodes, to).len() == 0 {
                assert(occurrences(referrers(nodes, to), from) == 0);
            }
        }
    }
}


} // verus!
