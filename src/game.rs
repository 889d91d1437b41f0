use vstd::prelude::*;
use crate::colour::TurnDirection;
use crate::geometry::SUBPIXELS;
use crate::snake::{Snake, PLAYER_MAX, trail_entries};
use crate::trails::{TrailBitmap, TrailEntry, TrailQueue, add_trails_from_buffer, marked_all, ripe};

verus! {

/// What one frame of play came to.
#[derive(Clone, Copy, Debug, PartialEq, Eq, Structural)]
pub enum FrameOutcome {
    /// The game is paused; nothing moved.
    Paused,
    /// Two or more snakes are still alive.
    Running,
    /// At most one snake is left alive: the round is over, won by the
    /// survivor if there is one.
    Ended { survivor: Option<usize> },
}

/// The snake after one frame of play: a step along its heading, then the
/// requested turn.
pub open spec fn moved(s: Snake, intent: Option<TurnDirection>) -> Snake {
    match intent {
        Some(d) => s.translated().turned(d),
        None => s.translated(),
    }
}

/// Whether a snake dies where it now stands: its centre is on promoted trail
/// or outside the play area.
pub open spec fn dies(s: Snake, trails: TrailBitmap) -> bool {
    s.hits_trail(trails) || !s.center().in_bounds()
}

/// Number of snakes still alive.
pub open spec fn live_count(dead: Seq<bool>) -> nat
    decreases dead.len(),
{
    if dead.len() == 0 {
        0
    } else {
        live_count(dead.drop_last()) + if dead.last() { 0nat } else { 1nat }
    }
}

/// The trail that the first `n` snakes leave on `frame`, live ones only, in
/// player order.
pub open spec fn frame_trail(snakes: Seq<Snake>, dead: Seq<bool>, frame: u64, n: int) -> Seq<TrailEntry>
    decreases n,
{
    if n <= 0 {
        Seq::empty()
    } else {
        frame_trail(snakes, dead, frame, n - 1) + if dead[n - 1] {
            Seq::empty()
        } else {
            trail_entries(snakes[n - 1].body(), frame)
        }
    }
}

/// Fewest players a match can hold.
pub const PLAYER_MIN: usize = 2;

/// Why a player count cannot start a match.
#[derive(Clone, Copy, Debug, PartialEq, Eq, Structural)]
pub enum PlayerCountError {
    TooFew,
    TooMany,
}

/// Accepts a player count from `PLAYER_MIN` to `PLAYER_MAX`.
pub fn validate_player_count(count: usize) -> (r: Result<usize, PlayerCountError>)
    ensures
        count < PLAYER_MIN <==> r == Err::<usize, PlayerCountError>(PlayerCountError::TooFew),
        count > PLAYER_MAX <==> r == Err::<usize, PlayerCountError>(PlayerCountError::TooMany),
        PLAYER_MIN <= count <= PLAYER_MAX <==> r == Ok::<usize, PlayerCountError>(count),
{
    if count < PLAYER_MIN {
        Err(PlayerCountError::TooFew)
    } else if count > PLAYER_MAX {
        Err(PlayerCountError::TooMany)
    } else {
        Ok(count)
    }
}

/// The turn a player asks for with the two keys of their pair: both keys
/// or neither mean no turn.
pub fn intent_from_keys(left: bool, right: bool) -> (r: Option<TurnDirection>)
    ensures
        r == (if left && !right {
            Some(TurnDirection::Left)
        } else if right && !left {
            Some(TurnDirection::Right)
        } else {
            None::<TurnDirection>
        }),
{
    match (left, right) {
        (true, false) => Some(TurnDirection::Left),
        (false, true) => Some(TurnDirection::Right),
        _ => None,
    }
}

/// The first snake still alive at index `i` or later, if any.
pub open spec fn first_live_from(dead: Seq<bool>, i: int) -> Option<usize>
    decreases dead.len() - i,
{
    if i < 0 || i >= dead.len() {
        None
    } else if !dead[i] {
        Some(i as usize)
    } else {
        first_live_from(dead, i + 1)
    }
}

/// The first snake still alive, if any.
pub open spec fn first_live(dead: Seq<bool>) -> Option<usize> {
    first_live_from(dead, 0)
}

/// A live snake is in the play area with a valid heading.
pub open spec fn live_ok(s: Snake) -> bool {
    s.wf() && s.center().in_bounds()
}

proof fn lemma_live_moved(s: Snake, intent: Option<TurnDirection>)
    requires
        live_ok(s),
    ensures
        s.translated().wf(),
        moved(s, intent).wf(),
{
    let x = s.position.x as int;
    let y = s.position.y as int;
    assert(-251 * SUBPIXELS < x < 250 * SUBPIXELS);
    assert(-250 * SUBPIXELS < y < 251 * SUBPIXELS);
    crate::snake::lemma_step_bounds(s.heading as int);
}

/// Plays one frame for a live snake: moves and turns it, queues its trail,
/// and reports whether it dies.
fn play_snake(
    s: Snake,
    intent: Option<TurnDirection>,
    frame: u64,
    queue: &mut TrailQueue,
    trails: &TrailBitmap,
) -> (r: (Snake, bool))
    requires
        live_ok(s),
        trails.wf(),
        old(queue).wf(),
        old(queue).accepts(frame),
    ensures
        r.0 == moved(s, intent),
        r.1 == dies(r.0, *trails),
        !r.1 ==> live_ok(r.0),
        final(queue).wf(),
        final(queue).accepts(frame),
        final(queue)@ == old(queue)@ + trail_entries(r.0.body(), frame),
{
    let mut s = s;
    proof {
        lemma_live_moved(s, intent);
    }
    s.translate();
    match intent {
        Some(d) => s.turn(d),
        None => {},
    }
    s.add_trail_to_queue(frame, queue);
    let hit = s.detect_trail_hit(trails);
    let p = s.position.to_pixel();
    (s, hit || !p.is_in_bounds())
}

/// One round: the snakes, which of them are dead, the trail that can be hit
/// and the trail still waiting in the queue.
pub struct Round {
    pub frame_count: u64,
    pub snakes: Vec<Snake>,
    pub dead: Vec<bool>,
    pub paused: bool,
    pub trails: TrailBitmap,
    pub queue: TrailQueue,
}

impl Round {
    pub open spec fn wf(&self) -> bool {
        &&& self.snakes@.len() == self.dead@.len()
        &&& self.trails.wf()
        &&& self.queue.wf()
        &&& self.queue.accepts(self.frame_count)
        &&& forall|i: int|
            0 <= i < self.snakes@.len() && !self.dead@[i] ==> live_ok(#[trigger] self.snakes@[i])
    }

    /// How one frame takes the round from `pre` to `post` with outcome `r`.
    ///
    /// The pause toggle is applied first; a paused round changes nothing
    /// else. Otherwise every live snake steps along its heading and then turns
    /// as asked, its body is queued as trail for the current frame, and it dies
    /// if its centre is on promoted trail or outside the play area. If at most
    /// one snake is left the round ends, won by the survivor if any. Otherwise
    /// the ripe front of the queue is promoted into the bitmap, oldest first,
    /// and the frame count advances.
    pub open spec fn stepped(
        pre: Round,
        intents: Seq<Option<TurnDirection>>,
        toggle_pause: bool,
        post: Round,
        r: FrameOutcome,
    ) -> bool {
        let n = pre.snakes@.len();
        &&& post.paused == (pre.paused != toggle_pause)
        &&& post.paused ==> {
            &&& r == FrameOutcome::Paused
            &&& post.frame_count == pre.frame_count
            &&& post.snakes@ == pre.snakes@
            &&& post.dead@ == pre.dead@
            &&& post.trails@ == pre.trails@
            &&& post.queue@ == pre.queue@
        }
        &&& !post.paused ==> {
            let queued = pre.queue@ + frame_trail(post.snakes@, pre.dead@, pre.frame_count, n as int);
            &&& post.snakes@.len() == n
            &&& post.dead@.len() == n
            &&& forall|i: int| 0 <= i < n ==> {
                &&& #[trigger] post.snakes@[i] == if pre.dead@[i] {
                    pre.snakes@[i]
                } else {
                    moved(pre.snakes@[i], intents[i])
                }
                &&& post.dead@[i] == (pre.dead@[i] || dies(post.snakes@[i], pre.trails))
            }
            &&& if live_count(post.dead@) <= 1 {
                &&& r == FrameOutcome::Ended { survivor: first_live(post.dead@) }
                &&& post.frame_count == pre.frame_count
                &&& post.trails@ == pre.trails@
                &&& post.queue@ == queued
            } else {
                let k = queued.len() - post.queue@.len();
                &&& r == FrameOutcome::Running
                &&& post.frame_count == pre.frame_count + 1
                &&& 0 <= k <= queued.len()
                &&& post.queue@ == queued.subrange(k, queued.len() as int)
                &&& forall|i: int| 0 <= i < k ==> ripe(#[trigger] queued[i], pre.frame_count)
                &&& post.trails@ == marked_all(pre.trails@, queued.subrange(0, k))
                &&& forall|i: int|
                    0 <= i < post.queue@.len() ==> !ripe(#[trigger] post.queue@[i], pre.frame_count)
            }
        }
    }

    /// Plays one frame: see `stepped`.
    pub fn frame(&mut self, intents: &Vec<Option<TurnDirection>>, toggle_pause: bool) -> (r: FrameOutcome)
        requires
            old(self).wf(),
            intents@.len() == old(self).snakes@.len(),
            old(self).frame_count < u64::MAX,
        ensures
            final(self).wf(),
            Round::stepped(*old(self), intents@, toggle_pause, *final(self), r),
    {
        if toggle_pause {
            self.paused = !self.paused;
        }
        if self.paused {
            return FrameOutcome::Paused;
        }
        self.move_snakes(intents);
        let alive = self.alive_count();
        if alive <= 1 {
            let survivor = self.survivor();
            return FrameOutcome::Ended { survivor };
        }
        add_trails_from_buffer(self.frame_count, &mut self.queue, &mut self.trails);
        self.frame_count = self.frame_count + 1;
        FrameOutcome::Running
    }

    /// The first snake still alive, if any.
    pub fn survivor(&self) -> (r: Option<usize>)
        ensures
            r == first_live(self.dead@),
    {
        let mut i: usize = 0;
        while i < self.dead.len()
            invariant
                i <= self.dead@.len(),
                first_live(self.dead@) == first_live_from(self.dead@, i as int),
            decreases self.dead@.len() - i,
        {
            if !self.dead[i] {
                return Some(i);
            }
            i = i + 1;
        }
        None
    }

    /// A fresh round with the given snakes, all alive, on an empty bitmap.
    pub fn new(snakes: Vec<Snake>) -> (r: Round)
        requires
            forall|i: int| 0 <= i < snakes@.len() ==> live_ok(#[trigger] snakes@[i]),
        ensures
            r.wf(),
            r.frame_count == 0,
            r.snakes@ == snakes@,
            r.dead@.len() == snakes@.len(),
            forall|i: int| 0 <= i < snakes@.len() ==> !(#[trigger] r.dead@[i]),
            !r.paused,
            r.trails.is_empty(),
            r.queue@.len() == 0,
    {
        let mut dead: Vec<bool> = Vec::with_capacity(snakes.len());
        let mut i: usize = 0;
        while i < snakes.len()
            invariant
                i <= snakes@.len(),
                dead@.len() == i,
                forall|j: int| 0 <= j < i ==> !(#[trigger] dead@[j]),
            decreases snakes@.len() - i,
        {
            dead.push(false);
            i = i + 1;
        }
        Round {
            frame_count: 0,
            snakes,
            dead,
            paused: false,
            trails: TrailBitmap::new(),
            queue: TrailQueue::new(),
        }
    }

    /// Number of snakes still alive.
    pub fn alive_count(&self) -> (r: usize)
        requires
            self.snakes@.len() == self.dead@.len(),
        ensures
            r == live_count(self.dead@),
    {
        let mut count: usize = 0;
        let mut i: usize = 0;
        while i < self.dead.len()
            invariant
                i <= self.dead@.len(),
                count == live_count(self.dead@.subrange(0, i as int)),
                count <= i,
            decreases self.dead@.len() - i,
        {
            proof {
                assert(self.dead@.subrange(0, i + 1).drop_last() == self.dead@.subrange(0, i as int));
            }
            if !self.dead[i] {
                count = count + 1;
            }
            i = i + 1;
        }
        proof {
            assert(self.dead@.subrange(0, self.dead@.len() as int) == self.dead@);
        }
        count
    }

    /// Moves every live snake one frame, queues its trail, and marks it dead
    /// if its centre is on promoted trail or outside the play area.
    #[verifier::rlimit(60)]
    fn move_snakes(&mut self, intents: &Vec<Option<TurnDirection>>)
        requires
            old(self).wf(),
            intents@.len() == old(self).snakes@.len(),
        ensures
            final(self).snakes@.len() == old(self).snakes@.len(),
            final(self).dead@.len() == old(self).dead@.len(),
            final(self).frame_count == old(self).frame_count,
            final(self).paused == old(self).paused,
            final(self).trails == old(self).trails,
            final(self).queue.wf(),
            final(self).queue.accepts(final(self).frame_count),
            forall|i: int| 0 <= i < old(self).snakes@.len() ==> {
                &&& #[trigger] final(self).snakes@[i] == if old(self).dead@[i] {
                    old(self).snakes@[i]
                } else {
                    moved(old(self).snakes@[i], intents@[i])
                }
                &&& final(self).dead@[i] == (old(self).dead@[i] || dies(final(self).snakes@[i], old(self).trails))
                &&& !final(self).dead@[i] ==> live_ok(final(self).snakes@[i])
            },
            final(self).queue@ == old(self).queue@ + frame_trail(
                final(self).snakes@,
                old(self).dead@,
                old(self).frame_count,
                old(self).snakes@.len() as int,
            ),
    {
        let ghost s0 = self.snakes@;
        let ghost d0 = self.dead@;
        let ghost q0 = self.queue@;
        let n = self.snakes.len();
        let frame = self.frame_count;
        let mut i: usize = 0;
        while i < n
            invariant
                n == s0.len(),
                d0.len() == n,
                intents@.len() == n,
                i <= n,
                frame == self.frame_count,
                self.frame_count == old(self).frame_count,
                self.paused == old(self).paused,
                self.trails == old(self).trails,
                self.trails.wf(),
                self.snakes@.len() == n,
                self.dead@.len() == n,
                self.queue.wf(),
                self.queue.accepts(frame),
                forall|j: int| i <= j < n ==> #[trigger] self.snakes@[j] == s0[j],
                forall|j: int| i <= j < n ==> #[trigger] self.dead@[j] == d0[j],
                forall|j: int| i <= j < n && !d0[j] ==> live_ok(#[trigger] s0[j]),
                forall|j: int| 0 <= j < i ==> {
                    &&& #[trigger] self.snakes@[j] == if d0[j] { s0[j] } else { moved(s0[j], intents@[j]) }
                    &&& self.dead@[j] == (d0[j] || dies(self.snakes@[j], self.trails))
                    &&& !self.dead@[j] ==> live_ok(self.snakes@[j])
                },
                self.queue@ == q0 + frame_trail(self.snakes@, d0, frame, i as int),
            decreases n - i,
        {
            if !self.dead[i] {
                let ghost before = self.snakes@;
                let (s, died) = play_snake(self.snakes[i], intents[i], frame, &mut self.queue, &self.trails);
                self.snakes.set(i, s);
                proof {
                    lemma_frame_trail_prefix(before, self.snakes@, d0, frame, i as int);
                }
                if died {
                    self.dead.set(i, true);
                }
                proof {
                    assert(frame_trail(self.snakes@, d0, frame, i + 1) == frame_trail(
                        self.snakes@, d0, frame, i as int) + trail_entries(s.body(), frame));
                    assert(q0 + frame_trail(self.snakes@, d0, frame, i + 1) =~= q0 + frame_trail(
                        self.snakes@, d0, frame, i as int) + trail_entries(s.body(), frame));
                }
            } else {
                let ghost s_now = self.snakes@;
                assert(frame_trail(s_now, d0, frame, i + 1) == frame_trail(s_now, d0, frame, i as int)
                    + Seq::<TrailEntry>::empty());
                assert(frame_trail(s_now, d0, frame, i as int) + Seq::<TrailEntry>::empty()
                    =~= frame_trail(s_now, d0, frame, i as int));
            }
            i = i + 1;
        }
    }
}

/// A match: scores that persist across rounds, and the round in play.
pub struct Match {
    pub scores: Vec<u64>,
    pub round: Round,
}

impl Match {
    pub open spec fn wf(&self) -> bool {
        self.round.wf() && self.scores@.len() == self.round.snakes@.len()
    }

    /// Scores after a frame: one more point for the survivor of an ended
    /// round, none for anyone otherwise.
    pub open spec fn scored(scores: Seq<u64>, r: FrameOutcome) -> Seq<u64> {
        match r {
            FrameOutcome::Ended { survivor: Some(i) } => scores.update(i as int, (scores[i as int] + 1) as u64),
            _ => scores,
        }
    }

    /// A match whose first round starts with the given snakes, every score at
    /// zero.
    pub fn new(snakes: Vec<Snake>) -> (r: Match)
        requires
            forall|i: int| 0 <= i < snakes@.len() ==> live_ok(#[trigger] snakes@[i]),
        ensures
            r.wf(),
            r.scores@.len() == snakes@.len(),
            forall|i: int| 0 <= i < snakes@.len() ==> #[trigger] r.scores@[i] == 0,
            r.round.frame_count == 0,
            r.round.snakes@ == snakes@,
            forall|i: int| 0 <= i < snakes@.len() ==> !(#[trigger] r.round.dead@[i]),
            !r.round.paused,
            r.round.trails.is_empty(),
            r.round.queue@.len() == 0,
    {
        let mut scores: Vec<u64> = Vec::with_capacity(snakes.len());
        let mut i: usize = 0;
        while i < snakes.len()
            invariant
                i <= snakes@.len(),
                scores@.len() == i,
                forall|j: int| 0 <= j < i ==> #[trigger] scores@[j] == 0,
            decreases snakes@.len() - i,
        {
            scores.push(0);
            i = i + 1;
        }
        Match { scores, round: Round::new(snakes) }
    }

    /// Plays one frame of the current round and awards the point of a round
    /// that ends with a survivor.
    pub fn frame(&mut self, intents: &Vec<Option<TurnDirection>>, toggle_pause: bool) -> (r: FrameOutcome)
        requires
            old(self).wf(),
            intents@.len() == old(self).scores@.len(),
            old(self).round.frame_count < u64::MAX,
            forall|i: int| 0 <= i < old(self).scores@.len() ==> #[trigger] old(self).scores@[i] < u64::MAX,
        ensures
            final(self).wf(),
            Round::stepped(old(self).round, intents@, toggle_pause, final(self).round, r),
            final(self).scores@ == Match::scored(old(self).scores@, r),
    {
        let r = self.round.frame(intents, toggle_pause);
        let players = self.round.dead.len();
        match r {
            FrameOutcome::Ended { survivor: Some(i) } => {
                proof {
                    assert(players == self.round.dead@.len());
                    lemma_first_live_from_live(self.round.dead@, 0);
                }
                let s = self.scores[i];
                self.scores.set(i, s + 1);
            },
            _ => {},
        }
        r
    }

    /// Starts the next round with new snakes; the scores carry over.
    pub fn start_round(&mut self, snakes: Vec<Snake>)
        requires
            old(self).wf(),
            snakes@.len() == old(self).scores@.len(),
            forall|i: int| 0 <= i < snakes@.len() ==> live_ok(#[trigger] snakes@[i]),
        ensures
            final(self).wf(),
            final(self).scores@ == old(self).scores@,
            final(self).round.frame_count == 0,
            final(self).round.snakes@ == snakes@,
            forall|i: int| 0 <= i < snakes@.len() ==> !(#[trigger] final(self).round.dead@[i]),
            !final(self).round.paused,
            final(self).round.trails.is_empty(),
            final(self).round.queue@.len() == 0,
    {
        self.round = Round::new(snakes);
    }
}

proof fn lemma_first_live_from_live(dead: Seq<bool>, i: int)
    requires
        0 <= i,
        dead.len() <= usize::MAX,
    ensures
        first_live_from(dead, i) matches Some(j) ==> i <= j < dead.len() && !dead[j as int],
    decreases dead.len() - i,
{
    if i < dead.len() && dead[i] {
        lemma_first_live_from_live(dead, i + 1);
    }
}

proof fn lemma_live_counts(dead: Seq<bool>, i: int, j: int)
    requires
        0 <= i < dead.len(),
        0 <= j < dead.len(),
        !dead[i],
        !dead[j],
    ensures
        live_count(dead) >= 1,
        i != j ==> live_count(dead) >= 2,
    decreases dead.len(),
{
    let last = dead.len() - 1;
    if i < last {
        lemma_live_counts(dead.drop_last(), i, i);
    }
    if j < last {
        lemma_live_counts(dead.drop_last(), j, j);
    }
    if i < last && j < last {
        lemma_live_counts(dead.drop_last(), i, j);
    }
}

/// A frame played while paused, without the toggle, changes nothing: the
/// frame count, the snakes, the dead flags, the bitmap and the queue are all
/// kept, so play resumes from exactly the paused state.
pub proof fn lemma_pause_freezes(
    pre: Round,
    intents: Seq<Option<TurnDirection>>,
    post: Round,
    r: FrameOutcome,
)
    requires
        pre.paused,
        Round::stepped(pre, intents, false, post, r),
    ensures
        post.paused,
        r == FrameOutcome::Paused,
        post.frame_count == pre.frame_count,
        post.snakes@ == pre.snakes@,
        post.dead@ == pre.dead@,
        post.trails@ == pre.trails@,
        post.queue@ == pre.queue@,
{
}

/// Only promoted trail kills: a live snake whose new centre is in the play
/// area on a cell that the bitmap holds empty survives the frame, whatever
/// the queue holds (including pixels drawn this very frame by any snake).
pub proof fn lemma_unpromoted_trail_is_harmless(
    pre: Round,
    intents: Seq<Option<TurnDirection>>,
    toggle_pause: bool,
    post: Round,
    r: FrameOutcome,
    i: int,
)
    requires
        Round::stepped(pre, intents, toggle_pause, post, r),
        !post.paused,
        0 <= i < pre.snakes@.len(),
        !pre.dead@[i],
        post.snakes@[i].center().in_bounds(),
        pre.trails.cell(post.snakes@[i].center()) is None,
    ensures
        !post.dead@[i],
{
}

proof fn lemma_all_dead_count(dead: Seq<bool>)
    requires
        forall|j: int| 0 <= j < dead.len() ==> #[trigger] dead[j],
    ensures
        live_count(dead) == 0,
    decreases dead.len(),
{
    if dead.len() > 0 {
        assert(forall|j: int| 0 <= j < dead.drop_last().len() ==> #[trigger] dead.drop_last()[j] == dead[j]);
        lemma_all_dead_count(dead.drop_last());
    }
}

proof fn lemma_all_dead_first(dead: Seq<bool>, k: int)
    requires
        0 <= k,
        forall|j: int| 0 <= j < dead.len() ==> #[trigger] dead[j],
    ensures
        first_live_from(dead, k) is None,
    decreases dead.len() - k,
{
    if k < dead.len() {
        lemma_all_dead_first(dead, k + 1);
    }
}

/// A frame in which every snake ends up dead ends the round with no
/// survivor, and the scores stay as they were.
pub proof fn lemma_no_survivor_no_point(
    pre: Round,
    intents: Seq<Option<TurnDirection>>,
    toggle_pause: bool,
    post: Round,
    r: FrameOutcome,
    scores: Seq<u64>,
)
    requires
        Round::stepped(pre, intents, toggle_pause, post, r),
        !post.paused,
        forall|j: int| 0 <= j < post.dead@.len() ==> #[trigger] post.dead@[j],
    ensures
        r == (FrameOutcome::Ended { survivor: None }),
        Match::scored(scores, r) == scores,
{
    lemma_all_dead_count(post.dead@);
    lemma_all_dead_first(post.dead@, 0);
}

/// A round that ends with one snake alive names that snake as its
/// survivor, and one that ends with none names nobody.
pub proof fn lemma_survivor_is_last_alive(dead: Seq<bool>, i: int)
    requires
        dead.len() <= usize::MAX,
        live_count(dead) <= 1,
        0 <= i < dead.len(),
    ensures
        !dead[i] <==> first_live(dead) == Some(i as usize),
        live_count(dead) == 0 ==> first_live(dead) is None,
{
    lemma_first_live_from_live(dead, 0);
    if !dead[i] {
        match first_live(dead) {
            Some(j) => {
                lemma_live_counts(dead, i, j as int);
            },
            None => {
                lemma_first_live_none(dead, 0, i);
            },
        }
    }
    match first_live(dead) {
        Some(j) => {
            lemma_live_counts(dead, j as int, j as int);
        },
        None => {},
    }
}

proof fn lemma_first_live_none(dead: Seq<bool>, k: int, i: int)
    requires
        0 <= k <= i < dead.len(),
        !dead[i],
    ensures
        first_live_from(dead, k) is Some,
    decreases i - k,
{
    if dead[k] {
        lemma_first_live_none(dead, k + 1, i);
    }
}

/// The trail of the first `n` snakes depends on those snakes alone.
proof fn lemma_frame_trail_prefix(a: Seq<Snake>, b: Seq<Snake>, dead: Seq<bool>, frame: u64, n: int)
    requires
        0 <= n <= a.len(),
        a.len() == b.len(),
        forall|j: int| 0 <= j < n ==> a[j] == b[j],
    ensures
        frame_trail(a, dead, frame, n) == frame_trail(b, dead, frame, n),
    decreases n,
{
    if n > 0 {
        lemma_frame_trail_prefix(a, b, dead, frame, n - 1);
    }
}

} // verus!
