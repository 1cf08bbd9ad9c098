//! Fetching all the blocks under a block, depth first: the decisions of
//! the walk, as a state that says which page of children to fetch next and
//! takes each page that comes back.
use crate::models::block::Block;
use vstd::prelude::*;

verus! {

broadcast use vstd::std_specs::vec::group_vec_axioms;

/// One level of the walk: the children of `parent` received and not yet
/// visited (the next one last), and whether another page of them is to be
/// fetched (`Some(cursor)`) or not (`None`).
pub struct WalkFrame {
    pub parent: String,
    pub pending: Vec<Block>,
    pub next: Option<Option<String>>,
}

/// The content of a [`WalkFrame`].
pub struct SpecFrame {
    pub parent: Seq<char>,
    pub pending: Seq<Block>,
    pub next: Option<Option<Seq<char>>>,
}

/// The content of an optional cursor.
pub open spec fn cursor_view(c: Option<String>) -> Option<Seq<char>> {
    match c {
        Some(s) => Some(s@),
        None => None,
    }
}

impl WalkFrame {
    pub open spec fn view(&self) -> SpecFrame {
        SpecFrame {
            parent: self.parent@,
            pending: self.pending@,
            next: match self.next {
                Some(c) => Some(cursor_view(c)),
                None => None,
            },
        }
    }
}

/// The contents of a stack of frames.
pub open spec fn frames_view(fs: Seq<WalkFrame>) -> Seq<SpecFrame> {
    Seq::new(fs.len(), |i: int| fs[i].view())
}

/// A fetch the walk asks for: the children of `block_id`, from `cursor`.
#[derive(Debug)]
pub enum WalkStep {
    Fetch { block_id: String, cursor: Option<String> },
    Done,
}

/// What is left to do: for each frame, its pending blocks and the frame
/// itself.
pub open spec fn work(fs: Seq<SpecFrame>) -> nat
    decreases fs.len(),
{
    if fs.len() == 0 {
        0
    } else {
        work(fs.drop_last()) + fs.last().pending.len() + 1
    }
}

/// The top frame with its next block taken off.
pub open spec fn without_next(fs: Seq<SpecFrame>) -> Seq<SpecFrame>
    recommends
        fs.len() > 0,
{
    let top = fs.last();
    fs.update(fs.len() - 1, SpecFrame { parent: top.parent, pending: top.pending.drop_last(), next: top.next })
}

/// Where the walk stands once it has visited every block it can without
/// fetching: the frames, the blocks visited in order, and the fetch it
/// needs next (`None` when it is done). A visited block with children is
/// followed by a fetch of its first page of children, before its
/// siblings.
pub open spec fn settle(fs: Seq<SpecFrame>, out: Seq<Block>) -> (Seq<SpecFrame>, Seq<Block>, Option<(Seq<char>, Option<Seq<char>>)>)
    decreases work(fs),
{
    if fs.len() == 0 {
        (fs, out, None)
    } else {
        let top = fs.last();
        if top.pending.len() > 0 {
            let b = top.pending.last();
            let fs1 = without_next(fs);
            if b.has_children {
                (fs1.push(SpecFrame { parent: b.id@, pending: seq![], next: Some(None) }), out.push(b), Some((b.id@, None)))
            } else {
                proof {
                    assert(fs1.drop_last() =~= fs.drop_last());
                }
                settle(fs1, out.push(b))
            }
        } else {
            match top.next {
                Some(c) => (fs, out, Some((top.parent, c))),
                None => settle(fs.drop_last(), out),
            }
        }
    }
}

/// The frame a page of children leaves on top: the page's blocks, and the
/// next page when there is more.
pub open spec fn received(top: SpecFrame, results: Seq<Block>, has_more: bool, next_cursor: Option<Seq<char>>) -> SpecFrame {
    SpecFrame {
        parent: top.parent,
        pending: results.reverse(),
        next: if has_more {
            Some(next_cursor)
        } else {
            None
        },
    }
}

/// The walk over all the blocks under a block: the frames still open, the
/// innermost last, and the blocks visited so far, each before its
/// children.
pub struct ChildrenWalk {
    pub frames: Vec<WalkFrame>,
    pub out: Vec<Block>,
}

impl ChildrenWalk {
    /// A walk under `block_id` that has fetched nothing yet.
    pub fn new(block_id: &str) -> (w: Self)
        ensures
            frames_view(w.frames@) == seq![SpecFrame { parent: block_id@, pending: seq![], next: Some(None) }],
            w.out@.len() == 0,
    {
        let mut frames = Vec::new();
        frames.push(WalkFrame { parent: String::from_str(block_id), pending: Vec::new(), next: Some(None) });
        let w = ChildrenWalk { frames, out: Vec::new() };
        assert(frames_view(w.frames@) =~= seq![SpecFrame { parent: block_id@, pending: seq![], next: Some(None) }]);
        w
    }

    /// Visits the blocks it can and says what to fetch next, or that the
    /// walk is done (see [`settle`]).
    pub fn next_step(&mut self) -> (step: WalkStep)
        ensures
            ({
                let (fs, out, fetch) = settle(frames_view(old(self).frames@), old(self).out@);
                &&& frames_view(final(self).frames@) == fs
                &&& final(self).out@ == out
                &&& match fetch {
                    Some((id, c)) => step matches WalkStep::Fetch { block_id, cursor } && block_id@ == id
                        && cursor_view(cursor) == c,
                    None => step is Done,
                }
            }),
    {
        loop
            invariant
                settle(frames_view(self.frames@), self.out@) == settle(frames_view(old(self).frames@), old(self).out@),
            decreases work(frames_view(self.frames@)),
        {
            let ghost fs = frames_view(self.frames@);
            let n = self.frames.len();
            if n == 0 {
                return WalkStep::Done;
            }
            assert(fs.last() == self.frames@[n - 1].view());
            if self.frames[n - 1].pending.len() > 0 {
                let mut top = self.frames.pop().unwrap();
                let b = top.pending.pop().unwrap();
                let ghost fs1 = without_next(fs);
                proof {
                    assert(frames_view(self.frames@).push(top.view()) =~= fs1);
                }
                if b.has_children {
                    let id = b.id.clone();
                    let child = b.id.clone();
                    self.frames.push(top);
                    self.frames.push(WalkFrame { parent: child, pending: Vec::new(), next: Some(None) });
                    self.out.push(b);
                    assert(frames_view(self.frames@) =~= fs1.push(
                        SpecFrame { parent: id@, pending: seq![], next: Some(None) },
                    ));
                    return WalkStep::Fetch { block_id: id, cursor: None };
                }
                self.frames.push(top);
                self.out.push(b);
                assert(frames_view(self.frames@) =~= fs1);
                assert(fs1.drop_last() =~= fs.drop_last());
            } else {
                match &self.frames[n - 1].next {
                    Some(c) => {
                        let cursor = match c {
                            Some(s) => Some(s.clone()),
                            None => None,
                        };
                        return WalkStep::Fetch { block_id: self.frames[n - 1].parent.clone(), cursor };
                    },
                    None => {
                        self.frames.pop();
                        assert(frames_view(self.frames@) =~= fs.drop_last());
                    },
                }
            }
        }
    }

    /// Takes a page of children of the block last fetched: the top frame
    /// now holds them, and the next page when there is more. With no frame
    /// open nothing changes.
    pub fn receive(&mut self, results: Vec<Block>, has_more: bool, next_cursor: Option<String>)
        ensures
            final(self).out@ == old(self).out@,
            old(self).frames@.len() == 0 ==> frames_view(final(self).frames@) == frames_view(old(self).frames@),
            old(self).frames@.len() > 0 ==> frames_view(final(self).frames@) == frames_view(old(self).frames@).update(
                old(self).frames@.len() - 1,
                received(old(self).frames@.last().view(), results@, has_more, cursor_view(next_cursor)),
            ),
    {
        let ghost fs = frames_view(self.frames@);
        let ghost res = results@;
        match self.frames.pop() {
            Some(top) => {
                let mut pending: Vec<Block> = Vec::new();
                let mut rest = results;
                while rest.len() > 0
                    invariant
                        rest@.len() <= res.len(),
                        rest@ == res.take(rest@.len() as int),
                        pending@ == res.skip(rest@.len() as int).reverse(),
                    decreases rest.len(),
                {
                    let ghost k = rest@.len();
                    let b = rest.pop().unwrap();
                    pending.push(b);
                    assert(res.skip(k - 1) =~= seq![b] + res.skip(k as int));
                    assert(pending@ =~= res.skip(k - 1).reverse());
                }
                assert(res.skip(0) =~= res);
                let next = if has_more {
                    Some(next_cursor)
                } else {
                    None
                };
                self.frames.push(WalkFrame { parent: top.parent, pending, next });
                assert(frames_view(self.frames@) =~= fs.update(
                    fs.len() - 1,
                    received(fs.last(), res, has_more, cursor_view(next_cursor)),
                ));
            },
            None => {},
        }
    }
}

/// Settling keeps what was visited, in order, adding blocks after it; and
/// the walk says it is done only once no frame is left open.
pub proof fn lemma_settle_extends(fs: Seq<SpecFrame>, out: Seq<Block>)
    ensures
        settle(fs, out).1.len() >= out.len(),
        settle(fs, out).1.take(out.len() as int) == out,
        settle(fs, out).2 is None ==> settle(fs, out).0.len() == 0,
    decreases work(fs),
{
    if fs.len() > 0 {
        let top = fs.last();
        if top.pending.len() > 0 {
            let b = top.pending.last();
            let fs1 = without_next(fs);
            if b.has_children {
                assert(out.push(b).take(out.len() as int) =~= out);
            } else {
                assert(fs1.drop_last() =~= fs.drop_last());
                lemma_settle_extends(fs1, out.push(b));
                let r = settle(fs1, out.push(b)).1;
                assert(r.take(out.len() as int) =~= r.take((out.len() + 1) as int).take(out.len() as int));
                assert(out.push(b).take(out.len() as int) =~= out);
            }
        } else {
            match top.next {
                Some(c) => {
                    assert(out.take(out.len() as int) =~= out);
                },
                None => {
                    lemma_settle_extends(fs.drop_last(), out);
                },
            }
        }
    } else {
        assert(out.take(out.len() as int) =~= out);
    }
}

/// The blocks of a forest in pre-order, each block before the blocks under
/// it: `bs` in order, each followed by the pre-order of its children
/// (`answer` of its id) when it has any and `d` levels are left.
pub open spec fn preorder(answer: spec_fn(Seq<char>) -> Seq<Block>, bs: Seq<Block>, d: int) -> Seq<Block>
    decreases d, bs.len(),
{
    if bs.len() == 0 {
        seq![]
    } else {
        let b = bs[0];
        seq![b] + (if b.has_children && d > 0 {
            preorder(answer, answer(b.id@), d - 1)
        } else {
            seq![]
        }) + preorder(answer, bs.drop_first(), d)
    }
}

/// Whether no block of the forest under `bs` that has children lies `d`
/// levels down or deeper.
pub open spec fn depth_ok(answer: spec_fn(Seq<char>) -> Seq<Block>, bs: Seq<Block>, d: int) -> bool
    decreases d,
{
    forall|i: int|
        0 <= i < bs.len() ==> (#[trigger] bs[i]).has_children ==> d > 0 && depth_ok(answer, answer(bs[i].id@), d - 1)
}

/// The pre-order of a forest split in two is the pre-order of each part.
proof fn lemma_preorder_concat(answer: spec_fn(Seq<char>) -> Seq<Block>, a: Seq<Block>, b: Seq<Block>, d: int)
    ensures
        preorder(answer, a + b, d) == preorder(answer, a, d) + preorder(answer, b, d),
    decreases a.len(),
{
    if a.len() == 0 {
        assert(a + b =~= b);
    } else {
        assert((a + b)[0] == a[0]);
        assert((a + b).drop_first() =~= a.drop_first() + b);
        lemma_preorder_concat(answer, a.drop_first(), b, d);
    }
}

/// What a frame `e` levels above the depth bound still has to visit: its
/// pending blocks, then `rem`, its block's children not fetched yet.
pub open spec fn frame_todo(answer: spec_fn(Seq<char>) -> Seq<Block>, f: SpecFrame, rem: Seq<Block>, e: int) -> Seq<Block> {
    preorder(answer, f.pending.reverse(), e) + preorder(answer, rem, e)
}

/// What the open frames still have to visit, the innermost first, with
/// `rems` the children each frame's block has not had fetched yet; the
/// bottom frame is `e0` levels above the depth bound.
pub open spec fn todo(answer: spec_fn(Seq<char>) -> Seq<Block>, fs: Seq<SpecFrame>, rems: Seq<Seq<Block>>, e0: int) -> Seq<Block>
    decreases fs.len(),
{
    if fs.len() == 0 {
        seq![]
    } else {
        frame_todo(answer, fs.last(), rems.last(), e0 - (fs.len() - 1)) + todo(answer, fs.drop_last(), rems.drop_last(), e0)
    }
}

/// A frame `e` levels above the depth bound whose block has `rem` children
/// still to fetch: both respect the bound, and a frame with nothing more to
/// fetch has no such children.
pub open spec fn frame_ok(answer: spec_fn(Seq<char>) -> Seq<Block>, f: SpecFrame, rem: Seq<Block>, e: int) -> bool {
    &&& e >= 0
    &&& depth_ok(answer, f.pending, e)
    &&& depth_ok(answer, rem, e)
    &&& f.next is None ==> rem.len() == 0
}

/// The state of a walk under `root` over the children that `answer` gives:
/// with `rems` the children of each open frame's block not fetched yet, the
/// blocks visited followed by what the open frames still have to visit are
/// the pre-order of the tree under `root`.
pub open spec fn walk_inv(
    answer: spec_fn(Seq<char>) -> Seq<Block>,
    root: Seq<char>,
    e0: int,
    fs: Seq<SpecFrame>,
    rems: Seq<Seq<Block>>,
    out: Seq<Block>,
) -> bool {
    &&& rems.len() == fs.len()
    &&& forall|k: int| 0 <= k < fs.len() ==> frame_ok(answer, #[trigger] fs[k], rems[k], e0 - k)
    &&& out + todo(answer, fs, rems, e0) == preorder(answer, answer(root), e0)
}

/// The children not fetched yet, frame by frame, once the walk has
/// settled: a frame opened for a block starts with all its children.
pub open spec fn settled_rems(answer: spec_fn(Seq<char>) -> Seq<Block>, fs: Seq<SpecFrame>, rems: Seq<Seq<Block>>) -> Seq<Seq<Block>>
    decreases work(fs),
{
    if fs.len() == 0 {
        rems
    } else {
        let top = fs.last();
        if top.pending.len() > 0 {
            let b = top.pending.last();
            let fs1 = without_next(fs);
            if b.has_children {
                rems.push(answer(b.id@))
            } else {
                proof {
                    assert(fs1.drop_last() =~= fs.drop_last());
                }
                settled_rems(answer, fs1, rems)
            }
        } else {
            match top.next {
                Some(c) => rems,
                None => settled_rems(answer, fs.drop_last(), rems.drop_last()),
            }
        }
    }
}

/// Whether `page`, with `has_more`, is a page the API may give of the
/// children `rem` not fetched yet: the next of them in order, all the rest
/// when there is no more.
pub open spec fn next_page(rem: Seq<Block>, page: Seq<Block>, has_more: bool) -> bool {
    &&& page.len() <= rem.len()
    &&& page == rem.take(page.len() as int)
    &&& !has_more ==> page.len() == rem.len()
}

/// A reversed sequence starts with the last element, and the rest is the
/// reversed sequence without it.
proof fn lemma_reverse_first<A>(s: Seq<A>)
    requires
        s.len() > 0,
    ensures
        s.reverse()[0] == s.last(),
        s.reverse().drop_first() == s.drop_last().reverse(),
{
    assert(s.reverse().drop_first() =~= s.drop_last().reverse());
}

/// The depth bound does not depend on the order of the blocks, and holds
/// of a part of them.
proof fn lemma_depth_ok_part(answer: spec_fn(Seq<char>) -> Seq<Block>, bs: Seq<Block>, d: int, n: int)
    requires
        depth_ok(answer, bs, d),
        0 <= n <= bs.len(),
    ensures
        depth_ok(answer, bs.reverse(), d),
        depth_ok(answer, bs.take(n), d),
        depth_ok(answer, bs.skip(n), d),
{
    let r = bs.reverse();
    assert forall|i: int| 0 <= i < r.len() implies (#[trigger] r[i]).has_children ==> d > 0 && depth_ok(
        answer,
        answer(r[i].id@),
        d - 1,
    ) by {
        assert(r[i] == bs[bs.len() - 1 - i]);
    }
    let t = bs.take(n);
    assert forall|i: int| 0 <= i < t.len() implies (#[trigger] t[i]).has_children ==> d > 0 && depth_ok(
        answer,
        answer(t[i].id@),
        d - 1,
    ) by {
        assert(t[i] == bs[i]);
    }
    let k = bs.skip(n);
    assert forall|i: int| 0 <= i < k.len() implies (#[trigger] k[i]).has_children ==> d > 0 && depth_ok(
        answer,
        answer(k[i].id@),
        d - 1,
    ) by {
        assert(k[i] == bs[n + i]);
    }
}

/// Settling keeps the walk's pre-order state, and a fetch it asks for is
/// of the innermost frame's block, with nothing pending there.
proof fn lemma_settle_keeps_walk_inv(
    answer: spec_fn(Seq<char>) -> Seq<Block>,
    root: Seq<char>,
    e0: int,
    fs: Seq<SpecFrame>,
    rems: Seq<Seq<Block>>,
    out: Seq<Block>,
)
    requires
        walk_inv(answer, root, e0, fs, rems, out),
    ensures
        walk_inv(answer, root, e0, settle(fs, out).0, settled_rems(answer, fs, rems), settle(fs, out).1),
        settle(fs, out).2 matches Some((id, c)) ==> {
            let fs2 = settle(fs, out).0;
            &&& fs2.len() > 0
            &&& fs2.last().parent == id
            &&& fs2.last().pending.len() == 0
            &&& fs2.last().next == Some(c)
        },
    decreases work(fs),
{
    if fs.len() > 0 {
        let n = fs.len() - 1;
        let top = fs.last();
        let rem = rems.last();
        let e = e0 - n;
        assert(frame_ok(answer, fs[n], rems[n], e0 - n));
        let rest = todo(answer, fs.drop_last(), rems.drop_last(), e0);
        assert(todo(answer, fs, rems, e0) == frame_todo(answer, top, rem, e) + rest);
        if top.pending.len() > 0 {
            let b = top.pending.last();
            let fs1 = without_next(fs);
            let top1 = fs1.last();
            let bs = top.pending.reverse();
            lemma_reverse_first(top.pending);
            assert(bs.len() > 0);
            assert(preorder(answer, bs, e) == seq![b] + (if b.has_children && e > 0 {
                preorder(answer, answer(b.id@), e - 1)
            } else {
                seq![]
            }) + preorder(answer, bs.drop_first(), e));
            assert(top.pending[top.pending.len() - 1] == b);
            assert(fs1.drop_last() =~= fs.drop_last());
            assert(top1.pending == top.pending.drop_last());
            assert(top1.pending =~= top.pending.take(top.pending.len() - 1));
            lemma_depth_ok_part(answer, top.pending, e, top.pending.len() - 1);
            assert forall|k: int| 0 <= k < fs1.len() implies frame_ok(answer, #[trigger] fs1[k], rems[k], e0 - k) by {
                if k < n {
                    assert(fs1[k] == fs[k]);
                }
            }
            assert(todo(answer, fs1, rems, e0) == frame_todo(answer, top1, rem, e) + rest);
            if b.has_children {
                let nf = SpecFrame { parent: b.id@, pending: seq![], next: Some(None) };
                let fs2 = fs1.push(nf);
                let rems2 = rems.push(answer(b.id@));
                assert(e > 0 && depth_ok(answer, answer(b.id@), e - 1));
                assert(fs2.drop_last() =~= fs1);
                assert(rems2.drop_last() =~= rems);
                assert(preorder(answer, nf.pending.reverse(), e - 1) == Seq::<Block>::empty()) by {
                    assert(nf.pending.reverse().len() == 0);
                }
                assert(frame_todo(answer, nf, answer(b.id@), e - 1) =~= preorder(answer, answer(b.id@), e - 1));
                assert(todo(answer, fs2, rems2, e0) == frame_todo(answer, nf, answer(b.id@), e0 - (fs2.len() - 1))
                    + todo(answer, fs1, rems, e0));
                assert forall|k: int| 0 <= k < fs2.len() implies frame_ok(answer, #[trigger] fs2[k], rems2[k], e0 - k) by {
                    if k < fs1.len() {
                        assert(fs2[k] == fs1[k]);
                        assert(rems2[k] == rems[k]);
                    }
                }
                assert(out.push(b) + todo(answer, fs2, rems2, e0) =~= out + todo(answer, fs, rems, e0));
            } else {
                assert(out.push(b) + todo(answer, fs1, rems, e0) =~= out + todo(answer, fs, rems, e0));
                lemma_settle_keeps_walk_inv(answer, root, e0, fs1, rems, out.push(b));
            }
        } else {
            match top.next {
                Some(c) => {},
                None => {
                    assert(top.pending.reverse().len() == 0);
                    assert(rem.len() == 0);
                    assert(frame_todo(answer, top, rem, e) =~= Seq::<Block>::empty());
                    assert(out + todo(answer, fs.drop_last(), rems.drop_last(), e0) =~= out + todo(answer, fs, rems, e0));
                    assert forall|k: int| 0 <= k < fs.drop_last().len() implies frame_ok(
                        answer,
                        #[trigger] fs.drop_last()[k],
                        rems.drop_last()[k],
                        e0 - k,
                    ) by {
                        assert(fs.drop_last()[k] == fs[k]);
                        assert(rems.drop_last()[k] == rems[k]);
                    }
                    lemma_settle_keeps_walk_inv(answer, root, e0, fs.drop_last(), rems.drop_last(), out);
                },
            }
        }
    }
}

/// The walk visits the blocks under its root in pre-order, every block once
/// and before the blocks under it, for a tree whose blocks with children lie
/// less than `e0 + 1` levels down, whatever pages the API splits each
/// block's children into. From a state where `walk_inv` holds (as it does
/// at the start, `lemma_walk_starts`), settling keeps it; a fetch asks for
/// more children of the innermost open block, and taking any page of them
/// that the API may give (`next_page`) keeps it; and when the walk says it
/// is done, the blocks visited are the pre-order of the tree.
pub proof fn lemma_walk_preorder(
    answer: spec_fn(Seq<char>) -> Seq<Block>,
    root: Seq<char>,
    e0: int,
    fs: Seq<SpecFrame>,
    rems: Seq<Seq<Block>>,
    out: Seq<Block>,
)
    requires
        walk_inv(answer, root, e0, fs, rems, out),
    ensures
        ({
            let (fs2, out2, fetch) = settle(fs, out);
            let rems2 = settled_rems(answer, fs, rems);
            &&& walk_inv(answer, root, e0, fs2, rems2, out2)
            &&& match fetch {
                None => out2 == preorder(answer, answer(root), e0),
                Some((id, c)) => fs2.len() > 0 && fs2.last().parent == id && forall|
                    page: Seq<Block>,
                    has_more: bool,
                    cursor: Option<Seq<char>>,
                |
                    #![trigger received(fs2.last(), page, has_more, cursor)]
                    next_page(rems2.last(), page, has_more) ==> walk_inv(
                        answer,
                        root,
                        e0,
                        fs2.update(fs2.len() - 1, received(fs2.last(), page, has_more, cursor)),
                        rems2.update(fs2.len() - 1, rems2.last().skip(page.len() as int)),
                        out2,
                    ),
            }
        }),
{
    lemma_settle_keeps_walk_inv(answer, root, e0, fs, rems, out);
    lemma_settle_extends(fs, out);
    let (fs2, out2, fetch) = settle(fs, out);
    let rems2 = settled_rems(answer, fs, rems);
    match fetch {
        None => {
            assert(fs2.len() == 0);
            assert(out2 + todo(answer, fs2, rems2, e0) =~= out2);
        },
        Some((id, c)) => {
            let n = fs2.len() - 1;
            let top = fs2.last();
            let rem = rems2.last();
            let e = e0 - n;
            assert(frame_ok(answer, fs2[n], rems2[n], e0 - n));
            assert forall|page: Seq<Block>, has_more: bool, cursor: Option<Seq<char>>|
                #![trigger received(fs2.last(), page, has_more, cursor)]
                next_page(rem, page, has_more) implies walk_inv(
                answer,
                root,
                e0,
                fs2.update(n, received(top, page, has_more, cursor)),
                rems2.update(n, rem.skip(page.len() as int)),
                out2,
            ) by {
                let r = received(top, page, has_more, cursor);
                let fs3 = fs2.update(n, r);
                let rem3 = rem.skip(page.len() as int);
                let rems3 = rems2.update(n, rem3);
                lemma_depth_ok_part(answer, rem, e, page.len() as int);
                lemma_depth_ok_part(answer, page, e, 0);
                assert(rem =~= page + rem3);
                assert(page.reverse().reverse() =~= page);
                lemma_preorder_concat(answer, page, rem3, e);
                assert(top.pending.reverse().len() == 0);
                assert(frame_todo(answer, top, rem, e) =~= preorder(answer, rem, e));
                assert(frame_todo(answer, r, rem3, e) =~= preorder(answer, page, e) + preorder(answer, rem3, e));
                assert(fs3.drop_last() =~= fs2.drop_last());
                assert(rems3.drop_last() =~= rems2.drop_last());
                assert(todo(answer, fs3, rems3, e0) == todo(answer, fs2, rems2, e0));
                assert(!has_more ==> rem3.len() == 0);
                assert forall|k: int| 0 <= k < fs3.len() implies frame_ok(answer, #[trigger] fs3[k], rems3[k], e0 - k) by {
                    if k < n {
                        assert(fs3[k] == fs2[k]);
                        assert(rems3[k] == rems2[k]);
                    }
                }
            }
        },
    }
}

/// A walk that has fetched nothing starts in the pre-order state, with all
/// the root's children still to fetch, for a tree whose blocks with
/// children lie less than `e0 + 1` levels down.
pub proof fn lemma_walk_starts(answer: spec_fn(Seq<char>) -> Seq<Block>, root: Seq<char>, e0: int)
    requires
        e0 >= 0,
        depth_ok(answer, answer(root), e0),
    ensures
        walk_inv(
            answer,
            root,
            e0,
            seq![SpecFrame { parent: root, pending: seq![], next: Some(None) }],
            seq![answer(root)],
            seq![],
        ),
{
    let f = SpecFrame { parent: root, pending: seq![], next: Some(None) };
    let fs = seq![f];
    let rems = seq![answer(root)];
    assert(fs.drop_last() =~= Seq::<SpecFrame>::empty());
    assert(fs.last() == f);
    assert(rems.last() == answer(root));
    assert(todo(answer, fs.drop_last(), rems.drop_last(), e0) == Seq::<Block>::empty());
    assert(f.pending.reverse().len() == 0);
    assert(frame_todo(answer, f, answer(root), e0) =~= preorder(answer, answer(root), e0));
    assert(todo(answer, fs, rems, e0) =~= preorder(answer, answer(root), e0));
    assert(Seq::<Block>::empty() + todo(answer, fs, rems, e0) =~= todo(answer, fs, rems, e0));
    assert(fs[0] == f);
    assert(rems[0] == answer(root));
}

} // verus!
