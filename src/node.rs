use vstd::prelude::*;

verus! {

/// The local view of the network: this peer's identifier and its direct
/// children, each a leaf keyed by its own identifier.
#[derive(Debug)]
pub struct Node {
    pub id: String,
    pub children: Vec<Node>,
}

impl Node {
    /// The identifiers of the children, in insertion order.
    pub open spec fn child_ids(self) -> Seq<Seq<char>> {
        self.children@.map_values(|c: Node| c.id@)
    }

    /// The set of peer identifiers that are known children.
    pub open spec fn members(self) -> Set<Seq<char>> {
        self.child_ids().to_set()
    }

    /// Each identifier appears as a child at most once, and every child is a
    /// leaf: the tree is one level deep.
    pub open spec fn wf(self) -> bool {
        &&& self.child_ids().no_duplicates()
        &&& forall|i: int|
            0 <= i < self.children@.len() ==> (#[trigger] self.children@[i]).children@.len() == 0
    }

    pub fn new(id: String) -> (r: Node)
        ensures
            r.wf(),
            r.id@ == id@,
            r.children@.len() == 0,
            r.members() == Set::<Seq<char>>::empty(),
    {
        let r = Node { id, children: Vec::new() };
        assert(r.child_ids() =~= Seq::<Seq<char>>::empty());
        r
    }

    /// Whether `id` is a known child.
    pub fn has_child(&self, id: String) -> (r: bool)
        ensures
            r == self.members().contains(id@),
    {
        let mut i: usize = 0;
        while i < self.children.len()
            invariant
                0 <= i <= self.children@.len(),
                forall|j: int| 0 <= j < i ==> self.children@[j].id@ != id@,
            decreases self.children@.len() - i,
        {
            if self.children[i].id == id {
                assert(self.child_ids()[i as int] == id@);
                return true;
            }
            i = i + 1;
        }
        proof {
            if self.members().contains(id@) {
                let k = self.child_ids().index_of(id@);
                assert(self.children@[k].id@ == id@);
            }
        }
        false
    }

    /// Records `id` as a child. Adding a known child changes nothing.
    pub fn add_child(&mut self, id: String)
        requires
            old(self).wf(),
        ensures
            final(self).wf(),
            final(self).id == old(self).id,
            final(self).members() == old(self).members().insert(id@),
            old(self).members().contains(id@) ==> final(self).children@ == old(self).children@,
    {
        if !self.has_child(id.clone()) {
            let child = Node::new(id);
            let ghost before = self.children@;
            self.children.push(child);
            assert(self.child_ids() =~= before.map_values(|c: Node| c.id@).push(id@));
            assert(self.members() =~= before.map_values(|c: Node| c.id@).to_set().insert(id@)) by {
                before.map_values(|c: Node| c.id@).lemma_push_to_set_commute(id@);
            }
        } else {
            assert(self.members() =~= self.members().insert(id@));
        }
    }

    /// The number of direct children.
    pub fn len(&self) -> (r: usize)
        requires
            self.wf(),
        ensures
            r == self.members().len(),
    {
        proof {
            self.child_ids().unique_seq_to_set();
        }
        self.children.len()
    }

    /// A copy of this node and of its children.
    pub fn snapshot(&self) -> (r: Node)
        requires
            self.wf(),
        ensures
            r.wf(),
            r.id@ == self.id@,
            r.child_ids() == self.child_ids(),
    {
        let mut children: Vec<Node> = Vec::new();
        let mut i: usize = 0;
        while i < self.children.len()
            invariant
                0 <= i <= self.children@.len(),
                self.wf(),
                children@.len() == i,
                forall|j: int| 0 <= j < i ==> (#[trigger] children@[j]).id@ == self.children@[j].id@,
                forall|j: int| 0 <= j < i ==> (#[trigger] children@[j]).children@.len() == 0,
            decreases self.children@.len() - i,
        {
            let child = Node::new(self.children[i].id.clone());
            children.push(child);
            i = i + 1;
        }
        let r = Node { id: self.id.clone(), children };
        assert(r.child_ids() =~= self.child_ids());
        r
    }
}

/// Adding the same child twice leaves the membership that adding it once
/// leaves: starting from no children, that is exactly one member.
pub proof fn lemma_add_child_idempotent(members: Set<Seq<char>>, id: Seq<char>)
    ensures
        members.insert(id).insert(id) == members.insert(id),
        members.insert(id).contains(id),
        Set::<Seq<char>>::empty().insert(id).insert(id).len() == 1,
{
    assert(members.insert(id).insert(id) =~= members.insert(id));
    assert(Set::<Seq<char>>::empty().insert(id).insert(id) =~= Set::<Seq<char>>::empty().insert(
        id,
    ));
}

} // verus!
