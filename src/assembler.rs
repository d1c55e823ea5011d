//! The script assembler: a sequence of segments, each a run of encoded opcodes
//! or a whole assembler embedded by value.
use crate::script_buf::{
    copy_script, empty_script, push_code, script_as_bytes, script_bytes, script_from_bytes,
};
use bitcoin::ScriptBuf;
use vstd::prelude::*;

verus! {

broadcast use vstd::std_specs::vec::group_vec_axioms;

/// One segment of an assembler.
#[derive(Debug)]
enum Block {
    /// An embedded assembler, expanded in full wherever it occurs.
    Call(BetterScript),
    /// A run of encoded opcodes.
    Script(ScriptBuf),
}

/// A script under construction.
#[derive(Debug)]
pub struct BetterScript {
    size: usize,
    blocks: Vec<Block>,
}

/// The bytes of the first `n` blocks of `bs`, every embedded assembler expanded.
spec fn blocks_bytes(bs: Seq<Block>, n: int) -> Seq<u8>
    decreases bs, n,
{
    if n <= 0 || n > bs.len() {
        Seq::empty()
    } else {
        blocks_bytes(bs, n - 1) + match bs[n - 1] {
            Block::Script(s) => script_bytes(s),
            Block::Call(sub) => blocks_bytes(sub.blocks@, sub.blocks@.len() as int),
        }
    }
}

/// No two runs of opcodes are adjacent among the first `n` blocks of `bs`, and
/// every embedded assembler is well formed.
spec fn blocks_wf(bs: Seq<Block>, n: int) -> bool
    decreases bs, n,
{
    if n <= 0 || n > bs.len() {
        true
    } else {
        &&& blocks_wf(bs, n - 1)
        &&& !(n >= 2 && bs[n - 2] is Script && bs[n - 1] is Script)
        &&& match bs[n - 1] {
            Block::Script(_) => true,
            Block::Call(sub) => {
                &&& sub.size == blocks_bytes(sub.blocks@, sub.blocks@.len() as int).len()
                &&& blocks_wf(sub.blocks@, sub.blocks@.len() as int)
            },
        }
    }
}

/// Two blocks that flatten alike: of one kind, with the same bytes, and an embedded
/// assembler with the same count and well formed where the first one is.
spec fn block_copy(a: Block, b: Block) -> bool {
    match (a, b) {
        (Block::Script(x), Block::Script(y)) => script_bytes(x) == script_bytes(y),
        (Block::Call(x), Block::Call(y)) => {
            &&& x.size == y.size
            &&& x.bytes() == y.bytes()
            &&& x.wf() ==> y.wf()
        },
        _ => false,
    }
}

/// The first `k` blocks decide what the first `k` blocks flatten to, and whether
/// they are well formed.
proof fn lemma_prefix(bs: Seq<Block>, cs: Seq<Block>, k: int)
    requires
        0 <= k <= bs.len(),
        k <= cs.len(),
        forall|j: int| 0 <= j < k ==> bs[j] == cs[j],
    ensures
        blocks_bytes(bs, k) == blocks_bytes(cs, k),
        blocks_wf(bs, k) == blocks_wf(cs, k),
    decreases k,
{
    if k > 0 {
        lemma_prefix(bs, cs, k - 1);
    }
}

/// Blocks copied one for one flatten alike, and stay well formed.
proof fn lemma_copied(bs: Seq<Block>, cs: Seq<Block>, k: int)
    requires
        0 <= k <= bs.len(),
        k <= cs.len(),
        forall|j: int| 0 <= j < k ==> block_copy(#[trigger] bs[j], cs[j]),
    ensures
        blocks_bytes(bs, k) == blocks_bytes(cs, k),
        blocks_wf(bs, k) ==> blocks_wf(cs, k),
    decreases k,
{
    if k > 0 {
        lemma_copied(bs, cs, k - 1);
        assert(block_copy(bs[k - 1], cs[k - 1]));
        if k >= 2 {
            assert(block_copy(bs[k - 2], cs[k - 2]));
        }
    }
}

impl BetterScript {
    /// The count matches the flattened script, no two runs of opcodes are
    /// adjacent, and every embedded assembler is well formed.
    pub closed spec fn wf(&self) -> bool {
        &&& self.size == self.bytes().len()
        &&& blocks_wf(self.blocks@, self.blocks@.len() as int)
    }

    /// The number of segments.
    pub closed spec fn segments(&self) -> nat {
        self.blocks@.len()
    }

    /// Whether the last segment is a run of opcodes, which the next opcode extends.
    pub closed spec fn ends_with_literal(&self) -> bool {
        self.blocks@.len() > 0 && self.blocks@.last() is Script
    }

    /// The flattened script: the bytes of every segment in order, each embedded
    /// assembler expanded in place.
    pub closed spec fn bytes(&self) -> Seq<u8> {
        blocks_bytes(self.blocks@, self.blocks@.len() as int)
    }

    /// The number of opcodes counted so far, across every level of embedding.
    pub closed spec fn count(&self) -> nat {
        self.size as nat
    }

    /// Every opcode encodes to one byte: a well-formed assembler's count is the
    /// length of its flattened script.
    pub proof fn lemma_count_is_length(&self)
        requires
            self.wf(),
        ensures
            self.count() == self.bytes().len(),
    {
    }

    /// An empty assembler.
    pub fn new() -> (r: Self)
        ensures
            r.wf(),
            r.bytes() == Seq::<u8>::empty(),
            r.count() == 0,
            r.segments() == 0,
    {
        let blocks = Vec::new();
        BetterScript { size: 0, blocks }
    }

    /// The number of opcodes counted so far.
    pub fn size(&self) -> (r: usize)
        ensures
            r == self.count(),
    {
        self.size
    }

    /// Takes the trailing run of opcodes out of the segments, or gives an empty one
    /// where the segments are empty or end with an embedded assembler.
    fn take_script_block(&mut self) -> (r: ScriptBuf)
        ensures
            final(self).size == old(self).size,
            old(self).ends_with_literal() ==> {
                &&& final(self).blocks@ == old(self).blocks@.drop_last()
                &&& old(self).blocks@.last() == Block::Script(r)
            },
            !old(self).ends_with_literal() ==> {
                &&& final(self).blocks@ == old(self).blocks@
                &&& script_bytes(r) == Seq::<u8>::empty()
            },
    {
        match self.blocks.pop() {
            Some(Block::Script(script)) => script,
            Some(other) => {
                self.blocks.push(other);
                empty_script()
            },
            None => empty_script(),
        }
    }

    /// Appends one opcode, given by its encoding, extending the trailing run of
    /// opcodes or opening a new one.
    pub fn push_opcode(&mut self, data: u8)
        requires
            old(self).wf(),
            old(self).count() < usize::MAX,
        ensures
            final(self).wf(),
            final(self).bytes() == old(self).bytes().push(data),
            final(self).count() == old(self).count() + 1,
            final(self).ends_with_literal(),
            old(self).ends_with_literal() ==> final(self).segments() == old(self).segments(),
            !old(self).ends_with_literal() ==> final(self).segments() == old(self).segments() + 1,
    {
        self.size = self.size + 1;
        let ghost before = self.blocks@;
        let mut script = self.take_script_block();
        let ghost kept = self.blocks@;
        push_code(&mut script, data);
        self.blocks.push(Block::Script(script));
        proof {
            let n = kept.len() as int;
            lemma_prefix(kept, self.blocks@, n);
            if n < before.len() {
                lemma_prefix(kept, before, n);
            }
            assert(self.blocks@.drop_last() =~= kept);
        }
    }

    /// Appends `data` as one segment, by value: the count grows by its count, and
    /// its flattened script follows the current one.
    pub fn push_environment_script(&mut self, data: BetterScript)
        requires
            old(self).wf(),
            data.wf(),
            old(self).count() + data.count() <= usize::MAX,
        ensures
            final(self).wf(),
            final(self).bytes() == old(self).bytes() + data.bytes(),
            final(self).count() == old(self).count() + data.count(),
            final(self).segments() == old(self).segments() + 1,
            !final(self).ends_with_literal(),
    {
        self.size = self.size + data.size;
        let ghost before = self.blocks@;
        self.blocks.push(Block::Call(data));
        proof {
            lemma_prefix(before, self.blocks@, before.len() as int);
        }
    }

    /// Appends the flattened script to `script`.
    pub fn compile_to_bytes(&self, script: &mut Vec<u8>)
        ensures
            final(script)@ == old(script)@ + self.bytes(),
        decreases self,
    {
        let n = self.blocks.len();
        let mut i: usize = 0;
        while i < n
            invariant
                n == self.blocks@.len(),
                0 <= i <= n,
                script@ == old(script)@ + blocks_bytes(self.blocks@, i as int),
            decreases n - i,
        {
            match &self.blocks[i] {
                Block::Call(call) => {
                    assert(decreases_to!(self => *call));
                    call.compile_to_bytes(script);
                },
                Block::Script(block_script) => {
                    script.extend_from_slice(script_as_bytes(block_script));
                },
            }
            assert(script@ =~= old(script)@ + blocks_bytes(self.blocks@, i + 1));
            i = i + 1;
        }
    }

    /// Flattens the assembler into one script.
    pub fn compile(self) -> (r: ScriptBuf)
        ensures
            script_bytes(r) == self.bytes(),
    {
        let mut script = Vec::with_capacity(self.size);
        self.compile_to_bytes(&mut script);
        script_from_bytes(script)
    }

    /// An independent copy: every segment copied, every embedded assembler copied in turn.
    fn deep_copy(&self) -> (r: Self)
        ensures
            r.bytes() == self.bytes(),
            r.count() == self.count(),
            r.segments() == self.segments(),
            r.ends_with_literal() == self.ends_with_literal(),
            self.wf() ==> r.wf(),
        decreases self,
    {
        let n = self.blocks.len();
        let mut blocks: Vec<Block> = Vec::with_capacity(n);
        let mut i: usize = 0;
        while i < n
            invariant
                n == self.blocks@.len(),
                0 <= i <= n,
                blocks@.len() == i,
                forall|j: int| 0 <= j < i ==> block_copy(#[trigger] self.blocks@[j], blocks@[j]),
            decreases n - i,
        {
            let block = match &self.blocks[i] {
                Block::Call(call) => {
                    assert(decreases_to!(self => *call));
                    Block::Call(call.deep_copy())
                },
                Block::Script(script) => Block::Script(copy_script(script)),
            };
            blocks.push(block);
            i = i + 1;
        }
        proof {
            lemma_copied(self.blocks@, blocks@, n as int);
            if n > 0 {
                assert(block_copy(self.blocks@[n - 1], blocks@[n - 1]));
            }
        }
        BetterScript { size: self.size, blocks }
    }
}

impl Clone for BetterScript {
    /// A copy that flattens to the same script and counts the same opcodes; later
    /// changes to either leave the other as it was.
    fn clone(&self) -> (r: Self)
        ensures
            r.bytes() == self.bytes(),
            r.count() == self.count(),
            r.segments() == self.segments(),
            r.ends_with_literal() == self.ends_with_literal(),
            self.wf() ==> r.wf(),
    {
        self.deep_copy()
    }
}

} // verus!
