//! Translation units: labelled basic blocks with an entry point.
use vstd::prelude::*;
use crate::block::{is_terminated, BasicBlock};
use crate::ops::Operation;
use crate::types::BlockLabel;

verus! {

/// Why a translation unit refused a request.
#[derive(Debug)]
pub enum UnitError {
    /// The block does not end in a branch or an exit.
    InvalidBlock,
    /// No block was added under this label.
    UnknownLabel(BlockLabel),
}

/// The mathematical content of a translation unit.
pub struct UnitModel {
    /// Each label and the position of the block it names.
    pub labels: Map<Seq<char>, nat>,
    /// The operations of each block, by position.
    pub blocks: Seq<Seq<Operation>>,
    /// The position of the entry block, once set.
    pub entry: Option<nat>,
}

/// A labelled control-flow graph of basic blocks with an optional entry point.
///
/// Blocks are stored by position; each label names one position. Adding a block
/// under a label that is already taken makes the label name the new block.
pub struct TranslationUnit {
    names: Vec<BlockLabel>,
    targets: Vec<usize>,
    blocks: Vec<BasicBlock>,
    entrypoint: Option<usize>,
    label_map: Ghost<Map<Seq<char>, nat>>,
}

impl View for TranslationUnit {
    type V = UnitModel;

    open spec fn view(&self) -> UnitModel {
        UnitModel { labels: self.labels(), blocks: self.blocks(), entry: self.entry() }
    }
}

impl TranslationUnit {
    /// The label table, the ghost map and the positions agree.
    pub closed spec fn wf(self) -> bool {
        &&& self.names@.len() == self.targets@.len()
        &&& forall|i: int, j: int|
            0 <= i < self.names@.len() && 0 <= j < self.names@.len() && i != j
                ==> #[trigger] self.names@[i]@ != #[trigger] self.names@[j]@
        &&& forall|i: int|
            0 <= i < self.names@.len() ==> {
                &&& self.label_map@.contains_key(#[trigger] self.names@[i]@)
                &&& self.label_map@[self.names@[i]@] == self.targets@[i]
                &&& self.targets@[i] < self.blocks@.len()
            }
        &&& forall|k: Seq<char>| #[trigger]
            self.label_map@.contains_key(k) ==> exists|i: int|
                0 <= i < self.names@.len() && #[trigger] self.names@[i]@ == k
        &&& self.entrypoint matches Some(e) ==> e < self.blocks@.len()
        &&& forall|i: int| 0 <= i < self.blocks@.len() ==> is_terminated(#[trigger] self.blocks@[i]@)
    }

    /// Each label and the position of the block it names.
    pub closed spec fn labels(self) -> Map<Seq<char>, nat> {
        self.label_map@
    }

    /// The blocks, by position.
    pub closed spec fn blocks(self) -> Seq<Seq<Operation>> {
        self.blocks@.map_values(|b: BasicBlock| b@)
    }

    /// The position of the entry block, once set.
    pub closed spec fn entry(self) -> Option<nat> {
        match self.entrypoint {
            Some(e) => Some(e as nat),
            None => None,
        }
    }

    /// Whether every label and the entry point name an existing block and every
    /// block is terminated.
    pub open spec fn well_formed(self) -> bool {
        &&& forall|k: Seq<char>| #[trigger]
            self.labels().contains_key(k) ==> self.labels()[k] < self.blocks().len()
        &&& self.entry() matches Some(e) ==> e < self.blocks().len()
        &&& forall|i: int| 0 <= i < self.blocks().len() ==> is_terminated(#[trigger] self.blocks()[i])
    }

    /// In a unit that keeps its invariant, every label and the entry point name
    /// an existing block, and every block is terminated.
    pub proof fn lemma_well_formed(self)
        requires
            self.wf(),
        ensures
            self.well_formed(),
    {
        assert forall|k: Seq<char>| #[trigger] self.labels().contains_key(k) implies self.labels()[k]
            < self.blocks().len() by {
            let i = choose|i: int| 0 <= i < self.names@.len() && #[trigger] self.names@[i]@ == k;
            assert(self.names@[i]@ == k);
        }
    }

    /// An empty unit with no entry point.
    pub fn new() -> (r: Self)
        ensures
            r.wf(),
            r.labels() == Map::<Seq<char>, nat>::empty(),
            r.blocks() == Seq::<Seq<Operation>>::empty(),
            r.entry() == None::<nat>,
    {
        let r = TranslationUnit {
            names: Vec::new(),
            targets: Vec::new(),
            blocks: Vec::new(),
            entrypoint: None,
            label_map: Ghost(Map::empty()),
        };
        assert(r.blocks() =~= Seq::<Seq<Operation>>::empty());
        r
    }

    /// The position of the label in the label table, if it is there.
    fn find_label(&self, label: &BlockLabel) -> (r: Option<usize>)
        requires
            self.wf(),
        ensures
            match r {
                Some(i) => i < self.names@.len() && self.names@[i as int]@ == label@,
                None => forall|i: int| 0 <= i < self.names@.len() ==> self.names@[i]@ != label@,
            },
    {
        let mut i: usize = 0;
        while i < self.names.len()
            invariant
                i <= self.names@.len(),
                forall|j: int| 0 <= j < i ==> self.names@[j]@ != label@,
            decreases self.names@.len() - i,
        {
            if self.names[i] == *label {
                return Some(i);
            }
            i += 1;
        }
        None
    }

    /// The position of the block that `label` names.
    pub fn lookup(&self, label: &BlockLabel) -> (r: Option<usize>)
        requires
            self.wf(),
        ensures
            r == (if self.labels().contains_key(label@) {
                Some(self.labels()[label@] as usize)
            } else {
                None::<usize>
            }),
            r matches Some(i) ==> i < self.blocks().len(),
    {
        match self.find_label(label) {
            Some(i) => Some(self.targets[i]),
            None => {
                proof {
                    if self.label_map@.contains_key(label@) {
                        let i = choose|i: int|
                            0 <= i < self.names@.len() && #[trigger] self.names@[i]@ == label@;
                        assert(self.names@[i]@ == label@);
                    }
                }
                None
            },
        }
    }

    /// Number of blocks.
    pub fn num_blocks(&self) -> (r: usize)
        requires
            self.wf(),
        ensures
            r == self.blocks().len(),
    {
        self.blocks.len()
    }

    /// The block at position `i`.
    pub fn block(&self, i: usize) -> (r: &BasicBlock)
        requires
            self.wf(),
            i < self.blocks().len(),
        ensures
            r@ == self.blocks()[i as int],
    {
        &self.blocks[i]
    }

    /// The position of the entry block, once set.
    pub fn entrypoint(&self) -> (r: Option<usize>)
        requires
            self.wf(),
        ensures
            r matches Some(e) ==> self.entry() == Some(e as nat) && e < self.blocks().len(),
            r is None ==> self.entry() is None,
    {
        self.entrypoint
    }

    /// Appends `block` and makes `label` name it. A block that does not end in a
    /// terminator is refused with `InvalidBlock`; one made by the builder never is.
    pub fn add_basic_block(&mut self, label: BlockLabel, block: BasicBlock) -> (r: Result<
        (),
        UnitError,
    >)
        requires
            old(self).wf(),
        ensures
            final(self).wf(),
            r is Ok,
            final(self).blocks() == old(self).blocks().push(block@),
            final(self).labels() == old(self).labels().insert(label@, old(self).blocks().len()),
            final(self).entry() == old(self).entry(),
    {
        if !block.validate() {
            return Err(UnitError::InvalidBlock);
        }
        let n = self.blocks.len();
        let ghost old_map = self.label_map@;
        let ghost old_names = self.names@;
        let ghost old_blocks = self.blocks@;
        let found = self.find_label(&label);
        let ghost new_map = old_map.insert(label@, n as nat);
        match found {
            Some(i) => {
                self.targets.set(i, n);
                self.blocks.push(block);
                self.label_map = Ghost(new_map);
                proof {
                    assert(self.names@ == old_names);
                    assert forall|j: int| 0 <= j < self.names@.len() implies {
                        &&& self.label_map@.contains_key(#[trigger] self.names@[j]@)
                        &&& self.label_map@[self.names@[j]@] == self.targets@[j]
                        &&& self.targets@[j] < self.blocks@.len()
                    } by {
                        if j != i {
                            assert(self.names@[j]@ != self.names@[i as int]@);
                        }
                    }
                    assert forall|k: Seq<char>| #[trigger]
                        self.label_map@.contains_key(k) implies exists|j: int|
                        0 <= j < self.names@.len() && #[trigger] self.names@[j]@ == k by {
                        if k != label@ {
                            assert(old_map.contains_key(k));
                            let j = choose|j: int|
                                0 <= j < old_names.len() && #[trigger] old_names[j]@ == k;
                            assert(self.names@[j]@ == k);
                        } else {
                            assert(self.names@[i as int]@ == k);
                        }
                    }
                }
            },
            None => {
                self.names.push(label);
                self.targets.push(n);
                self.blocks.push(block);
                self.label_map = Ghost(new_map);
                proof {
                    let len = self.names@.len();
                    assert(self.names@[len - 1]@ == label@);
                    assert forall|j: int| 0 <= j < len - 1 implies #[trigger] self.names@[j]
                        == old_names[j] by {}
                    assert forall|a: int, b: int|
                        0 <= a < len && 0 <= b < len && a != b implies #[trigger] self.names@[a]@
                        != #[trigger] self.names@[b]@ by {
                        if a < len - 1 && b < len - 1 {
                            assert(old_names[a]@ != old_names[b]@);
                        }
                    }
                    assert forall|j: int| 0 <= j < len implies {
                        &&& self.label_map@.contains_key(#[trigger] self.names@[j]@)
                        &&& self.label_map@[self.names@[j]@] == self.targets@[j]
                        &&& self.targets@[j] < self.blocks@.len()
                    } by {
                        if j < len - 1 {
                            assert(self.names@[j]@ != label@);
                        }
                    }
                    assert forall|k: Seq<char>| #[trigger]
                        self.label_map@.contains_key(k) implies exists|j: int|
                        0 <= j < self.names@.len() && #[trigger] self.names@[j]@ == k by {
                        if k != label@ {
                            assert(old_map.contains_key(k));
                            let j = choose|j: int|
                                0 <= j < old_names.len() && #[trigger] old_names[j]@ == k;
                            assert(self.names@[j]@ == k);
                        } else {
                            assert(self.names@[len - 1]@ == k);
                        }
                    }
                }
            },
        }
        proof {
            assert(self.blocks@ == old_blocks.push(block));
            assert(self.blocks() =~= old(self).blocks().push(block@));
        }
        Ok(())
    }

    /// Makes the block that `label` names the entry block. An unknown label is
    /// refused with `UnknownLabel`, and the unit is left as it was.
    pub fn set_entry(&mut self, label: BlockLabel) -> (r: Result<(), UnitError>)
        requires
            old(self).wf(),
        ensures
            final(self).wf(),
            r is Ok <==> old(self).labels().contains_key(label@),
            final(self).blocks() == old(self).blocks(),
            final(self).labels() == old(self).labels(),
            match r {
                Ok(()) => final(self).entry() == Some(old(self).labels()[label@]),
                Err(e) => final(self).entry() == old(self).entry() && e == UnitError::UnknownLabel(
                    label,
                ),
            },
    {
        match self.lookup(&label) {
            Some(idx) => {
                let ghost names = self.names@;
                self.entrypoint = Some(idx);
                proof {
                    assert(self.names@ == names);
                    assert forall|k: Seq<char>| #[trigger]
                        self.label_map@.contains_key(k) implies exists|j: int|
                        0 <= j < self.names@.len() && #[trigger] self.names@[j]@ == k by {
                        let j = choose|j: int| 0 <= j < names.len() && #[trigger] names[j]@ == k;
                        assert(self.names@[j]@ == k);
                    }
                }
                Ok(())
            },
            None => Err(UnitError::UnknownLabel(label)),
        }
    }
}

impl Default for TranslationUnit {
    fn default() -> (r: Self)
        ensures
            r.wf(),
            r.labels() == Map::<Seq<char>, nat>::empty(),
            r.blocks() == Seq::<Seq<Operation>>::empty(),
            r.entry() == None::<nat>,
    {
        TranslationUnit::new()
    }
}

impl Clone for TranslationUnit {
    fn clone(&self) -> (r: Self)
        ensures
            self.wf() ==> r.wf(),
            r.labels() == self.labels(),
            r.blocks() == self.blocks(),
            r.entry() == self.entry(),
    {
        let mut names: Vec<BlockLabel> = Vec::new();
        let mut i: usize = 0;
        while i < self.names.len()
            invariant
                i <= self.names@.len(),
                names@.len() == i,
                forall|j: int| 0 <= j < i ==> #[trigger] names@[j] == self.names@[j],
            decreases self.names@.len() - i,
        {
            names.push(self.names[i].clone());
            i += 1;
        }
        assert(names@ =~= self.names@);
        let mut targets: Vec<usize> = Vec::new();
        let mut i: usize = 0;
        while i < self.targets.len()
            invariant
                i <= self.targets@.len(),
                targets@ == self.targets@.subrange(0, i as int),
            decreases self.targets@.len() - i,
        {
            targets.push(self.targets[i]);
            i += 1;
        }
        assert(targets@ =~= self.targets@);
        let mut blocks: Vec<BasicBlock> = Vec::new();
        let mut i: usize = 0;
        while i < self.blocks.len()
            invariant
                i <= self.blocks@.len(),
                blocks@.len() == i,
                forall|j: int| 0 <= j < i ==> (#[trigger] blocks@[j])@ == self.blocks@[j]@,
            decreases self.blocks@.len() - i,
        {
            blocks.push(self.blocks[i].clone());
            i += 1;
        }
        let r = TranslationUnit {
            names,
            targets,
            blocks,
            entrypoint: self.entrypoint,
            label_map: Ghost(self.label_map@),
        };
        assert(r.blocks() =~= self.blocks());
        r
    }
}

} // verus!
