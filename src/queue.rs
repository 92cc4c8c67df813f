use vstd::prelude::*;
use vstd::seq_lib::to_multiset_insert;
use crate::resource::DepthTest;
use crate::scene::RenderQueue;

verus! {

/// One surface to draw this frame: its vertex buffer, its material's index,
/// the index of the object's slot and the object's squared camera distance.
#[derive(Clone, Copy, Debug, PartialEq, Eq, Structural)]
pub struct RenderCommand {
    pub buffer: u64,
    pub material: usize,
    pub object: usize,
    pub cam_distance: u64,
}

/// Depth configuration of one queue and its commands for the current frame.
pub struct RenderQueueState {
    pub depth_write: bool,
    pub depth_test: bool,
    pub depth_func: DepthTest,
    pub commands: Vec<RenderCommand>,
}

/// `x` placed before the first command of `s` that is nearer than it.
pub open spec fn insert_desc(s: Seq<RenderCommand>, x: RenderCommand) -> Seq<RenderCommand>
    decreases s.len(),
{
    if s.len() == 0 {
        seq![x]
    } else if s[0].cam_distance < x.cam_distance {
        seq![x] + s
    } else {
        seq![s[0]] + insert_desc(s.drop_first(), x)
    }
}

/// The commands of `s` from farthest to nearest; commands at equal distance
/// keep their order.
pub open spec fn sort_desc(s: Seq<RenderCommand>) -> Seq<RenderCommand>
    decreases s.len(),
{
    if s.len() == 0 {
        s
    } else {
        insert_desc(sort_desc(s.drop_last()), s.last())
    }
}

pub open spec fn sorted_desc(s: Seq<RenderCommand>) -> bool {
    forall|i: int, j: int| 0 <= i < j < s.len() ==> s[i].cam_distance >= s[j].cam_distance
}

proof fn lemma_insert_at(s: Seq<RenderCommand>, x: RenderCommand, p: int)
    requires
        0 <= p <= s.len(),
        forall|j: int| 0 <= j < p ==> s[j].cam_distance >= x.cam_distance,
        p < s.len() ==> s[p].cam_distance < x.cam_distance,
    ensures
        insert_desc(s, x) == s.insert(p, x),
    decreases s.len(),
{
    if s.len() == 0 {
        assert(s.insert(p, x) =~= seq![x]);
    } else if p == 0 {
        assert(s.insert(p, x) =~= seq![x] + s);
    } else {
        let t = s.drop_first();
        lemma_insert_at(t, x, p - 1);
        assert(s.insert(p, x) =~= seq![s[0]] + t.insert(p - 1, x));
    }
}

proof fn lemma_insert_sorted(s: Seq<RenderCommand>, x: RenderCommand)
    requires
        sorted_desc(s),
    ensures
        sorted_desc(insert_desc(s, x)),
{
    lemma_insert_pos(s, x);
    let p = insert_pos(s, x);
    lemma_insert_at(s, x, p);
    let r = s.insert(p, x);
    assert forall|i: int, j: int| 0 <= i < j < r.len() implies r[i].cam_distance >= r[j].cam_distance by {
        if i < p {
            assert(r[i] == s[i]);
            if j > p {
                assert(r[j] == s[j - 1]);
            }
        } else if i == p {
            assert(r[j] == s[j - 1]);
            assert(s[p].cam_distance >= s[j - 1].cam_distance);
        } else {
            assert(r[i] == s[i - 1]);
            assert(r[j] == s[j - 1]);
        }
    }
}

/// Sorting orders commands from farthest to nearest and keeps every command:
/// the result holds the same commands, each as many times.
pub proof fn lemma_sort_desc(s: Seq<RenderCommand>)
    ensures
        sorted_desc(sort_desc(s)),
        sort_desc(s).to_multiset() == s.to_multiset(),
    decreases s.len(),
{
    if s.len() > 0 {
        let t = sort_desc(s.drop_last());
        lemma_sort_desc(s.drop_last());
        lemma_insert_sorted(t, s.last());
        let x = s.last();
        let p = insert_pos(t, x);
        lemma_insert_pos(t, x);
        lemma_insert_at(t, x, p);
        to_multiset_insert(t, p, x);
        assert(s =~= s.drop_last().push(x));
        vstd::seq_lib::to_multiset_build(s.drop_last(), x);
    }
}

/// Position of the first command of `s` nearer than `x`, or the length.
pub open spec fn insert_pos(s: Seq<RenderCommand>, x: RenderCommand) -> int
    decreases s.len(),
{
    if s.len() == 0 {
        0
    } else if s[0].cam_distance < x.cam_distance {
        0
    } else {
        1 + insert_pos(s.drop_first(), x)
    }
}

proof fn lemma_insert_pos(s: Seq<RenderCommand>, x: RenderCommand)
    ensures
        0 <= insert_pos(s, x) <= s.len(),
        forall|j: int| 0 <= j < insert_pos(s, x) ==> s[j].cam_distance >= x.cam_distance,
        insert_pos(s, x) < s.len() ==> s[insert_pos(s, x)].cam_distance < x.cam_distance,
    decreases s.len(),
{
    if s.len() > 0 && s[0].cam_distance >= x.cam_distance {
        lemma_insert_pos(s.drop_first(), x);
        assert forall|j: int| 0 <= j < insert_pos(s, x) implies s[j].cam_distance >= x.cam_distance by {
            if j > 0 {
                assert(s[j] == s.drop_first()[j - 1]);
            }
        }
    }
}

impl RenderQueueState {
    /// An empty queue with the given depth configuration.
    pub fn new(depth_write: bool, depth_test: bool, depth_func: DepthTest) -> (r: RenderQueueState)
        ensures
            r.depth_write == depth_write,
            r.depth_test == depth_test,
            r.depth_func == depth_func,
            r.commands@ == Seq::<RenderCommand>::empty(),
    {
        RenderQueueState { depth_write, depth_test, depth_func, commands: Vec::new() }
    }

    /// Orders the commands from farthest to nearest for back-to-front blending.
    pub fn sort_by_cam_distance(&mut self)
        ensures
            final(self).commands@ == sort_desc(old(self).commands@),
            sorted_desc(final(self).commands@),
            final(self).commands@.to_multiset() == old(self).commands@.to_multiset(),
            final(self).depth_write == old(self).depth_write,
            final(self).depth_test == old(self).depth_test,
            final(self).depth_func == old(self).depth_func,
    {
        let ghost s = self.commands@;
        let mut out: Vec<RenderCommand> = Vec::new();
        let mut i: usize = 0;
        assert(s.take(0) =~= Seq::<RenderCommand>::empty());
        while i < self.commands.len()
            invariant
                i <= s.len(),
                s == self.commands@,
                out@ == sort_desc(s.take(i as int)),
            decreases s.len() - i,
        {
            let x = self.commands[i];
            let ghost before = out@;
            let mut p: usize = 0;
            while p < out.len() && out[p].cam_distance >= x.cam_distance
                invariant
                    p <= out.len(),
                    out@ == before,
                    forall|j: int| 0 <= j < p ==> out@[j].cam_distance >= x.cam_distance,
                decreases out.len() - p,
            {
                p = p + 1;
            }
            proof {
                lemma_insert_at(before, x, p as int);
                assert(s.take(i + 1).drop_last() =~= s.take(i as int));
            }
            out.insert(p, x);
            i = i + 1;
        }
        assert(s.take(s.len() as int) =~= s);
        self.commands = out;
        proof {
            lemma_sort_desc(s);
        }
    }
}

/// The three queues of a frame, each with its fixed depth configuration.
pub struct RenderQueueList {
    pub opaque: RenderQueueState,
    pub skybox: RenderQueueState,
    pub transparent: RenderQueueState,
}

impl RenderQueueList {
    /// The queue state for `tag`.
    pub open spec fn queue(&self, tag: RenderQueue) -> &RenderQueueState {
        match tag {
            RenderQueue::Opaque => &self.opaque,
            RenderQueue::Skybox => &self.skybox,
            RenderQueue::Transparent => &self.transparent,
        }
    }

    /// Each queue's depth configuration: opaque writes and tests depth with the
    /// default comparison; the skybox tests with less-or-equal and does not
    /// write; transparent tests with the default comparison and does not write.
    pub open spec fn configured(&self) -> bool {
        &&& self.opaque.depth_write && self.opaque.depth_test && self.opaque.depth_func == DepthTest::Less
        &&& !self.skybox.depth_write && self.skybox.depth_test && self.skybox.depth_func == DepthTest::LessEqual
        &&& !self.transparent.depth_write && self.transparent.depth_test
            && self.transparent.depth_func == DepthTest::Less
    }

    /// The three queues, configured and empty.
    pub fn new() -> (r: RenderQueueList)
        ensures
            r.configured(),
            r.opaque.commands@ == Seq::<RenderCommand>::empty(),
            r.skybox.commands@ == Seq::<RenderCommand>::empty(),
            r.transparent.commands@ == Seq::<RenderCommand>::empty(),
    {
        RenderQueueList {
            opaque: RenderQueueState::new(true, true, DepthTest::default_func()),
            skybox: RenderQueueState::new(false, true, DepthTest::LessEqual),
            transparent: RenderQueueState::new(false, true, DepthTest::default_func()),
        }
    }

    /// Appends `cmd` to the queue named `tag`.
    pub fn push(&mut self, tag: RenderQueue, cmd: RenderCommand)
        ensures
            final(self).configured() == old(self).configured(),
            final(self).queue(tag).commands@ == old(self).queue(tag).commands@.push(cmd),
            forall|o: RenderQueue| o != tag ==> final(self).queue(o).commands@ == old(self).queue(o).commands@,
    {
        match tag {
            RenderQueue::Opaque => self.opaque.commands.push(cmd),
            RenderQueue::Skybox => self.skybox.commands.push(cmd),
            RenderQueue::Transparent => self.transparent.commands.push(cmd),
        }
    }
}

} // verus!
