//! Ball possession: the ball, who holds it, catching, throwing, the return
//! timer, and players joining and leaving.

use vstd::prelude::*;
use crate::geometry::{normalize, normalized, scale, scaled, zero_vec, Vec2};
use crate::indicator::{aim_indicator, aimed, fresh_indicator, spawn_indicator, DirectionIndicator};
use crate::player::{new_player, spawn_player, Player, STARTING_LIVES};
use crate::state::{AppState, CountdownTimer, GameState, ROUND_COUNTDOWN};

verus! {

/// Speed of a thrown ball along its aim, in world units per second.
pub const THROW_SPEED: i32 = 500;

/// Milliseconds a ball stays in flight before it is removed.
pub const BALL_DESPAWN_MS: u64 = 4000;

/// A ball in the world: where it is, the impulse it was spawned with (in
/// milli-units per second), its remaining flight time and whether it is in
/// flight (thrown) or lying free.
#[derive(Clone, Copy, Debug, PartialEq, Eq, Structural)]
pub struct Ball {
    pub translation: Vec2,
    pub impulse: Vec2,
    pub despawn_timer: u64,
    pub in_flight: bool,
}

/// The indicator together with the player entity it is attached to.
#[derive(Clone, Copy, Debug, PartialEq, Eq, Structural)]
pub struct AttachedIndicator {
    pub parent: u64,
    pub indicator: DirectionIndicator,
}

/// A collider taking part in a collision.
#[derive(Clone, Copy, Debug, PartialEq, Eq, Structural)]
pub enum Body {
    Ball,
    Player(u64),
    Enemy,
    Wall,
}

/// A collision reported by the physics for one step.
#[derive(Clone, Copy, Debug, PartialEq, Eq, Structural)]
pub enum CollisionEvent {
    Started(Body, Body),
    Stopped(Body, Body),
}

/// Where the ball is. `Absent`: a ball timed out and nobody holds one;
/// the round puts a new ball down with `Arena::respawn_ball`.
#[derive(Clone, Copy, Debug, PartialEq, Eq, Structural)]
pub enum BallState {
    Free,
    Held,
    InFlight,
    Absent,
}

/// The players, the ball (absent while held) and the holder's indicator.
pub struct Arena {
    pub players: Vec<Player>,
    pub ball: Option<Ball>,
    pub indicator: Option<AttachedIndicator>,
}

pub struct ArenaView {
    pub players: Seq<Player>,
    pub ball: Option<Ball>,
    pub indicator: Option<AttachedIndicator>,
}

impl View for Arena {
    type V = ArenaView;

    open spec fn view(&self) -> ArenaView {
        ArenaView { players: self.players@, ball: self.ball, indicator: self.indicator }
    }
}

/// The ball as it lies at the start of a round: at the origin, at rest.
pub open spec fn resting_ball() -> Ball {
    Ball { translation: zero_vec(), impulse: zero_vec(), despawn_timer: BALL_DESPAWN_MS, in_flight: false }
}

/// The ball thrown from `at` along `aim`: its impulse is `THROW_SPEED`
/// times the normalised aim, none for a zero aim.
pub open spec fn thrown_ball(at: Vec2, aim: Vec2) -> Ball {
    Ball {
        translation: at,
        impulse: scaled(normalized(aim.x as int, aim.y as int), THROW_SPEED as int),
        despawn_timer: BALL_DESPAWN_MS,
        in_flight: true,
    }
}

pub open spec fn with_ball(p: Player, have_ball: bool) -> Player {
    Player { have_ball, ..p }
}

/// `players` with the flag of the one at `i` set to `b`.
pub open spec fn flag_set(players: Seq<Player>, i: int, b: bool) -> Seq<Player> {
    players.update(i, with_ball(players[i], b))
}

pub open spec fn holds_at(players: Seq<Player>, i: int) -> bool {
    0 <= i < players.len() && players[i].have_ball
}

pub open spec fn has_holder(players: Seq<Player>) -> bool {
    exists|i: int| holds_at(players, i)
}

pub open spec fn at_most_one_holder(players: Seq<Player>) -> bool {
    forall|i: int, j: int| holds_at(players, i) && holds_at(players, j) ==> i == j
}

pub open spec fn has_entity(players: Seq<Player>, e: u64) -> bool {
    exists|i: int| 0 <= i < players.len() && players[i].entity == e
}

pub open spec fn has_gamepad(players: Seq<Player>, g: usize) -> bool {
    exists|i: int| 0 <= i < players.len() && players[i].gamepad == g
}

/// The position of entity `e` among `players`.
pub open spec fn index_of(players: Seq<Player>, e: u64) -> int {
    choose|i: int| 0 <= i < players.len() && players[i].entity == e
}

/// The position of the player joined with gamepad `g`.
pub open spec fn index_of_gamepad(players: Seq<Player>, g: usize) -> int {
    choose|i: int| 0 <= i < players.len() && players[i].gamepad == g
}

/// The position of the holder.
pub open spec fn holder_index(players: Seq<Player>) -> int {
    choose|i: int| holds_at(players, i)
}

pub open spec fn players_distinct(players: Seq<Player>) -> bool {
    forall|i: int, j: int|
        0 <= i < players.len() && 0 <= j < players.len() && i != j ==> players[i].entity
            != players[j].entity && players[i].gamepad != players[j].gamepad
}

/// The player entity that a collision pairs with the ball, if any.
pub open spec fn ball_contact(ev: CollisionEvent) -> Option<u64> {
    match ev {
        CollisionEvent::Started(Body::Ball, Body::Player(e)) => Some(e),
        CollisionEvent::Started(Body::Player(e), Body::Ball) => Some(e),
        _ => None,
    }
}

/// The collision makes a player who is not holding catch the ball.
pub open spec fn catches(players: Seq<Player>, ev: CollisionEvent) -> bool {
    match ball_contact(ev) {
        Some(e) => has_entity(players, e) && !players[index_of(players, e)].have_ball,
        None => false,
    }
}

/// The player who catches the ball: the one of the first catching
/// collision at or after position `from`.
pub open spec fn first_catch(players: Seq<Player>, events: Seq<CollisionEvent>, from: int) -> Option<u64>
    decreases events.len() - from,
{
    if from < 0 || from >= events.len() {
        None
    } else if catches(players, events[from]) {
        ball_contact(events[from])
    } else {
        first_catch(players, events, from + 1)
    }
}

impl ArenaView {
    /// Well-formed: players are told apart by entity and gamepad; at most
    /// one holds the ball; no ball exists while somebody holds it; the
    /// indicator exists exactly when somebody holds the ball, attached to
    /// the holder.
    pub open spec fn wf(self) -> bool {
        &&& players_distinct(self.players)
        &&& at_most_one_holder(self.players)
        &&& (has_holder(self.players) ==> self.ball is None)
        &&& (self.indicator is Some <==> has_holder(self.players))
        &&& (self.indicator is Some ==> self.players[holder_index(self.players)].entity
            == self.indicator->0.parent)
    }

    pub open spec fn state(self) -> BallState {
        if has_holder(self.players) {
            BallState::Held
        } else if self.ball is Some {
            if self.ball->0.in_flight {
                BallState::InFlight
            } else {
                BallState::Free
            }
        } else {
            BallState::Absent
        }
    }

    /// `e` holds the ball.
    pub open spec fn is_holder(self, e: u64) -> bool {
        has_entity(self.players, e) && self.players[index_of(self.players, e)].have_ball
    }

    /// The arena after player `e` catches the ball: `e` holds it, the ball
    /// leaves the world and a new indicator is attached to `e`.
    pub open spec fn caught_by(self, e: u64) -> ArenaView {
        let i = index_of(self.players, e);
        ArenaView {
            players: flag_set(self.players, i, true),
            ball: None,
            indicator: Some(AttachedIndicator { parent: e, indicator: fresh_indicator() }),
        }
    }

    /// The arena after one step's collisions: while a ball exists, the
    /// first collision between it and a player who is not holding hands
    /// the ball to that player; everything else leaves the arena as it is.
    pub open spec fn after_collisions(self, events: Seq<CollisionEvent>) -> ArenaView {
        if self.ball is Some {
            match first_catch(self.players, events, 0) {
                Some(e) => self.caught_by(e),
                None => self,
            }
        } else {
            self
        }
    }

    /// `e` may throw: `e` holds the ball and no ball exists.
    pub open spec fn can_throw(self, e: u64) -> bool {
        self.ball is None && self.indicator is Some && self.is_holder(e)
    }

    /// The arena after `e` presses throw: if `e` may throw, a ball is
    /// thrown from `e`'s position along the indicator's normalised direction, `e`'s
    /// flag is cleared and the indicator removed; otherwise nothing changes.
    pub open spec fn after_throw(self, e: u64) -> ArenaView {
        if self.can_throw(e) {
            let i = index_of(self.players, e);
            ArenaView {
                players: flag_set(self.players, i, false),
                ball: Some(thrown_ball(self.players[i].translation, self.indicator->0.indicator.direction)),
                indicator: None,
            }
        } else {
            self
        }
    }

    /// The arena after `dt_ms` milliseconds: a ball in flight counts down,
    /// and once its time is used up it is removed.
    pub open spec fn after_tick(self, dt_ms: u64) -> ArenaView {
        match self.ball {
            Some(b) => if b.in_flight {
                if b.despawn_timer <= dt_ms {
                    ArenaView { ball: None, ..self }
                } else {
                    ArenaView { ball: Some(Ball { despawn_timer: (b.despawn_timer - dt_ms) as u64, ..b }), ..self }
                }
            } else {
                self
            },
            None => self,
        }
    }

    /// A new ball may be put down: there is none and nobody holds one.
    pub open spec fn can_respawn(self) -> bool {
        self.ball is None && !has_holder(self.players)
    }

    /// The arena after the round puts a ball down: if it may, the ball lies
    /// at rest at the origin; otherwise nothing changes.
    pub open spec fn after_respawn(self) -> ArenaView {
        if self.can_respawn() {
            ArenaView { ball: Some(resting_ball()), ..self }
        } else {
            self
        }
    }

    /// The indicator attached to `e`, fresh.
    pub open spec fn attached(self, e: u64) -> ArenaView {
        ArenaView { indicator: Some(AttachedIndicator { parent: e, indicator: fresh_indicator() }), ..self }
    }

    /// The indicator removed.
    pub open spec fn detached(self) -> ArenaView {
        ArenaView { indicator: None, ..self }
    }

    /// The arena after `e` aims with stick `axis`: if `e` carries the
    /// indicator, it points along the axis; otherwise nothing changes.
    pub open spec fn after_aim(self, e: u64, axis: Vec2) -> ArenaView {
        if self.indicator is Some && self.indicator->0.parent == e {
            ArenaView { indicator: Some(AttachedIndicator { parent: e, indicator: aimed(axis) }), ..self }
        } else {
            self
        }
    }

    /// The arena after `e` is made to let go of the ball: if `e` holds it,
    /// its flag is cleared, the indicator removed and the ball put back at
    /// rest at the origin; otherwise nothing changes.
    pub open spec fn after_release(self, e: u64) -> ArenaView {
        if self.is_holder(e) {
            let i = index_of(self.players, e);
            ArenaView {
                players: flag_set(self.players, i, false),
                ball: Some(resting_ball()),
                indicator: None,
            }
        } else {
            self
        }
    }

    /// The players after the enemy touches those whose entities are in
    /// `contacts`: each of them loses a life, down to zero.
    pub open spec fn after_enemy_contacts(self, contacts: Seq<u64>) -> ArenaView {
        ArenaView { players: self.players.map_values(|p: Player| hit_player(p, contacts)), ..self }
    }

    /// Some player touches the enemy.
    pub open spec fn enemy_contact(self, contacts: Seq<u64>) -> bool {
        exists|i: int| 0 <= i < self.players.len() && contacts.contains(#[trigger] self.players[i].entity)
    }

    /// Some player has no lives left.
    pub open spec fn someone_out(self) -> bool {
        exists|i: int| 0 <= i < self.players.len() && #[trigger] self.players[i].lives == 0
    }

    /// All players back at the starting number of lives.
    pub open spec fn lives_reset(self) -> ArenaView {
        ArenaView { players: self.players.map_values(|p: Player| Player { lives: STARTING_LIVES, ..p }), ..self }
    }

    /// Gamepad `g` may join as entity `e`: neither is in use yet.
    pub open spec fn can_join(self, g: usize, e: u64) -> bool {
        !has_gamepad(self.players, g) && !has_entity(self.players, e)
    }

    pub open spec fn after_join(self, g: usize, e: u64) -> ArenaView {
        if self.can_join(g, e) {
            ArenaView { players: self.players.push(new_player(g, e)), ..self }
        } else {
            self
        }
    }

    /// The arena after the player of gamepad `g` leaves: it lets go of the
    /// ball and is removed.
    pub open spec fn after_disconnect(self, g: usize) -> ArenaView {
        if has_gamepad(self.players, g) {
            let i = index_of_gamepad(self.players, g);
            let released = self.after_release(self.players[i].entity);
            ArenaView { players: released.players.remove(i), ..released }
        } else {
            self
        }
    }
}

/// `p` after the enemy's touch, if its entity is in `contacts`.
pub open spec fn hit_player(p: Player, contacts: Seq<u64>) -> Player {
    if contacts.contains(p.entity) {
        Player { lives: if p.lives > 0 { (p.lives - 1) as u32 } else { 0 }, ..p }
    } else {
        p
    }
}

proof fn lemma_index_of(players: Seq<Player>, i: int)
    requires
        players_distinct(players),
        0 <= i < players.len(),
    ensures
        has_entity(players, players[i].entity),
        index_of(players, players[i].entity) == i,
        has_gamepad(players, players[i].gamepad),
        index_of_gamepad(players, players[i].gamepad) == i,
{
}

/// Setting one player's flag keeps the players apart and changes no other
/// player's flag.
proof fn lemma_set_flag(players: Seq<Player>, i: int, b: bool)
    requires
        players_distinct(players),
        0 <= i < players.len(),
    ensures
        players_distinct(flag_set(players, i, b)),
        holds_at(flag_set(players, i, b), i) == b,
        forall|j: int| j != i ==> holds_at(flag_set(players, i, b), j) == holds_at(players, j),
        forall|e: u64| has_entity(flag_set(players, i, b), e) == has_entity(players, e),
        forall|e: u64| has_entity(players, e) ==> index_of(flag_set(players, i, b), e) == index_of(players, e),
        !has_holder(players) ==> at_most_one_holder(flag_set(players, i, b)),
        !b && at_most_one_holder(players) && holds_at(players, i) ==> !has_holder(flag_set(players, i, b)),
{
    let q = flag_set(players, i, b);
    assert forall|e: u64| has_entity(q, e) == has_entity(players, e) by {
        if has_entity(players, e) {
            let j = index_of(players, e);
            assert(q[j].entity == e);
        }
        if has_entity(q, e) {
            let j = index_of(q, e);
            assert(players[j].entity == e);
        }
    }
    assert forall|e: u64| has_entity(players, e) implies index_of(q, e) == index_of(players, e) by {
        if has_entity(players, e) {
            let j = index_of(players, e);
            let k = index_of(q, e);
            assert(q[j].entity == e);
            assert(players[k].entity == e);
        }
    }
    if !has_holder(players) {
        assert forall|j: int, k: int| holds_at(q, j) && holds_at(q, k) implies j == k by {
            assert(!holds_at(players, j));
            assert(!holds_at(players, k));
        }
    }
    if !b && at_most_one_holder(players) && holds_at(players, i) {
        assert forall|j: int| !holds_at(q, j) by {
            if holds_at(q, j) {
                assert(holds_at(players, j));
                assert(holds_at(players, i));
            }
        }
    }
}

/// Players whose possession flags match those of `p` index for index, and
/// who hold nothing past `p`'s end, have the same holder as `p`.
proof fn lemma_same_holders(p: Seq<Player>, q: Seq<Player>)
    requires
        at_most_one_holder(p),
        p.len() <= q.len(),
        forall|j: int| 0 <= j < p.len() ==> #[trigger] q[j].have_ball == p[j].have_ball,
        forall|j: int| p.len() <= j < q.len() ==> !(#[trigger] q[j].have_ball),
    ensures
        at_most_one_holder(q),
        has_holder(q) == has_holder(p),
        has_holder(p) ==> holder_index(q) == holder_index(p),
{
    assert forall|j: int| holds_at(q, j) <==> holds_at(p, j) by {
        if p.len() <= j < q.len() {
            assert(!q[j].have_ball);
        }
    }
    if has_holder(p) {
        let h = holder_index(p);
        assert(holds_at(q, h));
        lemma_holder_index(q, h);
    }
    if has_holder(q) {
        assert(holds_at(p, holder_index(q)));
    }
}

proof fn lemma_holder_index(players: Seq<Player>, i: int)
    requires
        at_most_one_holder(players),
        holds_at(players, i),
    ensures
        has_holder(players),
        holder_index(players) == i,
{
}

/// Index of the player with entity `e`.
fn find_entity(players: &Vec<Player>, e: u64) -> (r: Option<usize>)
    ensures
        match r {
            Some(i) => i < players@.len() && players@[i as int].entity == e,
            None => !has_entity(players@, e),
        },
{
    let mut i: usize = 0;
    while i < players.len()
        invariant
            i <= players@.len(),
            forall|j: int| 0 <= j < i ==> players@[j].entity != e,
        decreases players@.len() - i,
    {
        if players[i].entity == e {
            return Some(i);
        }
        i = i + 1;
    }
    None
}

/// Index of the player joined with gamepad `g`.
fn find_gamepad(players: &Vec<Player>, g: usize) -> (r: Option<usize>)
    ensures
        match r {
            Some(i) => i < players@.len() && players@[i as int].gamepad == g,
            None => !has_gamepad(players@, g),
        },
{
    let mut i: usize = 0;
    while i < players.len()
        invariant
            i <= players@.len(),
            forall|j: int| 0 <= j < i ==> players@[j].gamepad != g,
        decreases players@.len() - i,
    {
        if players[i].gamepad == g {
            return Some(i);
        }
        i = i + 1;
    }
    None
}

/// Index of the player that collision `ev` makes catch the ball.
fn catching_player(players: &Vec<Player>, ev: &CollisionEvent) -> (r: Option<usize>)
    requires
        players_distinct(players@),
    ensures
        catches(players@, *ev) <==> r is Some,
        r matches Some(i) ==> i < players@.len() && ball_contact(*ev) == Some(players@[i as int].entity),
{
    let contact = match ev {
        CollisionEvent::Started(Body::Ball, Body::Player(e)) => Some(*e),
        CollisionEvent::Started(Body::Player(e), Body::Ball) => Some(*e),
        _ => None,
    };
    match contact {
        Some(e) => match find_entity(players, e) {
            Some(i) => {
                proof {
                    lemma_index_of(players@, i as int);
                }
                if players[i].have_ball {
                    None
                } else {
                    Some(i)
                }
            },
            None => None,
        },
        None => None,
    }
}

impl Arena {
    /// The arena at the start of a round: no players, the ball at rest at
    /// the origin.
    pub fn new() -> (r: Arena)
        ensures
            r@.wf(),
            r@.players.len() == 0,
            r@.ball == Some(resting_ball()),
            r@.indicator is None,
            r@.state() == BallState::Free,
    {
        Arena { players: Vec::new(), ball: Some(spawn_ball()), indicator: None }
    }

    pub fn state(&self) -> (r: BallState)
        requires
            self@.wf(),
        ensures
            r == self@.state(),
    {
        match &self.ball {
            None => if self.holder().is_some() {
                BallState::Held
            } else {
                BallState::Absent
            },
            Some(b) => if b.in_flight {
                BallState::InFlight
            } else {
                BallState::Free
            },
        }
    }

    /// Index of the ball holder, if any.
    pub fn holder(&self) -> (r: Option<usize>)
        requires
            self@.wf(),
        ensures
            match r {
                Some(i) => holds_at(self@.players, i as int) && holder_index(self@.players) == i,
                None => !has_holder(self@.players),
            },
    {
        let mut i: usize = 0;
        while i < self.players.len()
            invariant
                i <= self@.players.len(),
                at_most_one_holder(self@.players),
                forall|j: int| 0 <= j < i ==> !holds_at(self@.players, j),
            decreases self@.players.len() - i,
        {
            if self.players[i].have_ball {
                proof {
                    lemma_holder_index(self@.players, i as int);
                }
                return Some(i);
            }
            i = i + 1;
        }
        None
    }

    /// Hands the ball to the first player that one of `events` pairs with
    /// it, as `after_collisions` describes.
    pub fn snap_to_player(&mut self, events: &Vec<CollisionEvent>)
        requires
            old(self)@.wf(),
        ensures
            final(self)@.wf(),
            final(self)@ == old(self)@.after_collisions(events@),
    {
        if self.ball.is_none() {
            return;
        }
        let ghost v_start = self@;
        let mut k: usize = 0;
        while k < events.len()
            invariant
                k <= events@.len(),
                self@ == v_start,
                v_start == old(self)@,
                self@.wf(),
                self.ball is Some,
                first_catch(self@.players, events@, 0) == first_catch(self@.players, events@, k as int),
            decreases events@.len() - k,
        {
            match catching_player(&self.players, &events[k]) {
                Some(i) => {
                    let ghost v0 = self@;
                    let e = self.players[i].entity;
                    assert(events@[k as int] == events[k as int]);
                    assert(first_catch(v0.players, events@, k as int) == Some(e));
                    proof {
                        lemma_index_of(self@.players, i as int);
                        lemma_set_flag(self@.players, i as int, true);
                        assert(!has_holder(self@.players));
                    }
                    let mut p = self.players[i];
                    p.have_ball = true;
                    self.players.set(i, p);
                    self.ball = None;
                    self.attach_indicator(e);
                    proof {
                        assert(self@.players =~= flag_set(v0.players, i as int, true));
                        assert(holds_at(self@.players, i as int));
                        lemma_holder_index(self@.players, i as int);
                        assert(self@ == v0.caught_by(e));

                    }
                    return;
                },
                None => {},
            }
            k = k + 1;
        }
    }

    /// Player `e`'s throw press: throws the ball if `e` may, as
    /// `after_throw` describes. Returns whether a ball was thrown.
    pub fn throw_ball(&mut self, e: u64) -> (thrown: bool)
        requires
            old(self)@.wf(),
        ensures
            final(self)@.wf(),
            final(self)@ == old(self)@.after_throw(e),
            thrown == old(self)@.can_throw(e),
    {
        if self.ball.is_some() {
            return false;
        }
        let direction = match &self.indicator {
            Some(a) => a.indicator.direction,
            None => {
                return false;
            },
        };
        match find_entity(&self.players, e) {
            Some(i) => {
                proof {
                    lemma_index_of(self@.players, i as int);
                }
                if !self.players[i].have_ball {
                    return false;
                }
                let ghost v0 = self@;
                proof {
                    lemma_set_flag(self@.players, i as int, false);
                    lemma_holder_index(self@.players, i as int);
                }
                let aim = normalize(direction.x as i64, direction.y as i64);
                let mut p = self.players[i];
                p.have_ball = false;
                let at = p.translation;
                self.players.set(i, p);
                self.ball = Some(
                    Ball {
                        translation: at,
                        impulse: scale(aim, THROW_SPEED),
                        despawn_timer: BALL_DESPAWN_MS,
                        in_flight: true,
                    },
                );
                self.detach_indicator();
                proof {
                    assert(self@.players =~= flag_set(v0.players, i as int, false));
                }
                true
            },
            None => false,
        }
    }

    /// Counts down a ball in flight by `dt_ms`, removing it once its time
    /// is used up.
    pub fn return_ball(&mut self, dt_ms: u64)
        requires
            old(self)@.wf(),
        ensures
            final(self)@.wf(),
            final(self)@ == old(self)@.after_tick(dt_ms),
    {
        match self.ball {
            Some(b) => {
                if b.in_flight {
                    if b.despawn_timer <= dt_ms {
                        self.ball = None;
                    } else {
                        self.ball = Some(Ball { despawn_timer: b.despawn_timer - dt_ms, ..b });
                    }
                }
            },
            None => {},
        }
    }

    /// Puts a new ball at rest at the origin, when there is none and
    /// nobody holds one. Returns whether it did.
    pub fn respawn_ball(&mut self) -> (spawned: bool)
        requires
            old(self)@.wf(),
        ensures
            final(self)@.wf(),
            final(self)@ == old(self)@.after_respawn(),
            spawned == old(self)@.can_respawn(),
    {
        if self.ball.is_some() || self.holder().is_some() {
            return false;
        }
        self.ball = Some(spawn_ball());
        true
    }

    /// Attaches a fresh indicator to player entity `e`.
    pub fn attach_indicator(&mut self, e: u64)
        ensures
            final(self)@ == old(self)@.attached(e),
    {
        self.indicator = Some(AttachedIndicator { parent: e, indicator: spawn_indicator() });
    }

    /// Removes the indicator.
    pub fn detach_indicator(&mut self)
        ensures
            final(self)@ == old(self)@.detached(),
    {
        self.indicator = None;
    }

    /// Player `e` aims with stick `axis`; only the holder's aim moves the
    /// indicator. Without a new aim the indicator keeps its direction.
    pub fn move_indicator(&mut self, e: u64, axis: Vec2)
        requires
            old(self)@.wf(),
        ensures
            final(self)@.wf(),
            final(self)@ == old(self)@.after_aim(e, axis),
    {
        match self.indicator {
            Some(a) => {
                if a.parent == e {
                    self.indicator = Some(AttachedIndicator { parent: e, indicator: aim_indicator(axis) });
                }
            },
            None => {},
        }
    }

    /// Makes player `e` let go of the ball, as when it leaves the game.
    pub fn release_possession(&mut self, e: u64)
        requires
            old(self)@.wf(),
        ensures
            final(self)@.wf(),
            final(self)@ == old(self)@.after_release(e),
    {
        match find_entity(&self.players, e) {
            Some(i) => {
                proof {
                    lemma_index_of(self@.players, i as int);
                }
                if !self.players[i].have_ball {
                    return;
                }
                let ghost v0 = self@;
                proof {
                    lemma_set_flag(self@.players, i as int, false);
                }
                let mut p = self.players[i];
                p.have_ball = false;
                self.players.set(i, p);
                self.ball = Some(spawn_ball());
                self.detach_indicator();
                proof {
                    assert(self@.players =~= flag_set(v0.players, i as int, false));
                }
            },
            None => {},
        }
    }

    /// Gamepad `g` joins as entity `e`, unless either is in use already.
    /// Returns whether the player was added.
    pub fn join(&mut self, g: usize, e: u64) -> (joined: bool)
        requires
            old(self)@.wf(),
        ensures
            final(self)@.wf(),
            final(self)@ == old(self)@.after_join(g, e),
            joined == old(self)@.can_join(g, e),
    {
        if find_gamepad(&self.players, g).is_some() {
            return false;
        }
        if find_entity(&self.players, e).is_some() {
            return false;
        }
        let ghost v0 = self@;
        self.players.push(spawn_player(g, e));
        proof {
            let q = self@.players;
            assert(q =~= v0.players.push(new_player(g, e)));
            lemma_same_holders(v0.players, q);
        }
        true
    }

    /// The player of gamepad `g` leaves: it lets go of the ball and is
    /// removed. Returns its entity, or `None` if no player has `g`.
    pub fn disconnect(&mut self, g: usize) -> (left: Option<u64>)
        requires
            old(self)@.wf(),
        ensures
            final(self)@.wf(),
            final(self)@ == old(self)@.after_disconnect(g),
            left == (if has_gamepad(old(self)@.players, g) {
                Some(old(self)@.players[index_of_gamepad(old(self)@.players, g)].entity)
            } else {
                None
            }),
    {
        match find_gamepad(&self.players, g) {
            Some(i) => {
                proof {
                    lemma_index_of(self@.players, i as int);
                }
                let e = self.players[i].entity;
                self.release_possession(e);
                let ghost v1 = self@;
                let _ = self.players.remove(i);
                proof {
                    let q = self@.players;
                    assert(q =~= v1.players.remove(i as int));
                    assert(v1.players[i as int].entity == e);
                    assert(!v1.players[i as int].have_ball);
                    assert forall|j: int| holds_at(q, j) implies holds_at(
                        v1.players,
                        if j < i { j } else { j + 1 },
                    ) by {}
                    assert forall|j: int| holds_at(v1.players, j) implies j != i && holds_at(
                        q,
                        if j < i { j } else { j - 1 },
                    ) by {}
                    if has_holder(v1.players) {
                        let h = holder_index(v1.players);
                        let hq = if h < i { h } else { h - 1 };
                        assert(holds_at(q, hq));
                        lemma_holder_index(q, hq);
                    }
                    if has_holder(q) {
                        let hq = holder_index(q);
                        assert(holds_at(v1.players, if hq < i { hq } else { hq + 1 }));
                    }
                }
                Some(e)
            },
            None => None,
        }
    }

    /// The enemy touches the players whose entities are in `contacts`:
    /// each loses a life. If any was touched the round pauses and the
    /// countdown is set; the result is then the state to switch to.
    pub fn collision_with_enemy(
        &mut self,
        contacts: &Vec<u64>,
        countdown: &mut CountdownTimer,
    ) -> (next: Option<GameState>)
        requires
            old(self)@.wf(),
        ensures
            final(self)@.wf(),
            final(self)@ == old(self)@.after_enemy_contacts(contacts@),
            old(self)@.enemy_contact(contacts@) ==> next == Some(GameState::Paused)
                && *final(countdown) == (CountdownTimer { duration: ROUND_COUNTDOWN, ..*old(countdown) }),
            !old(self)@.enemy_contact(contacts@) ==> next is None && *final(countdown) == *old(countdown),
    {
        let ghost v0 = self@;
        let mut hit = false;
        let mut i: usize = 0;
        while i < self.players.len()
            invariant
                i <= self@.players.len(),
                self@.players.len() == v0.players.len(),
                self.ball == v0.ball,
                self.indicator == v0.indicator,
                forall|j: int| 0 <= j < i ==> self@.players[j] == hit_player(v0.players[j], contacts@),
                forall|j: int| i <= j < self@.players.len() ==> self@.players[j] == v0.players[j],
                hit <==> exists|j: int| 0 <= j < i && contacts@.contains(#[trigger] v0.players[j].entity),
            decreases self@.players.len() - i,
        {
            let mut p = self.players[i];
            let touched = vec_contains(contacts, p.entity);
            proof {
                assert(p == v0.players[i as int]);
                if touched {
                    assert(contacts@.contains(v0.players[i as int].entity));
                }
            }
            if touched {
                hit = true;
                if p.lives > 0 {
                    p.lives = p.lives - 1;
                }
                self.players.set(i, p);
            }
            i = i + 1;
        }
        proof {
            let q = self@.players;
            assert(q =~= v0.players.map_values(|p: Player| hit_player(p, contacts@)));
            assert forall|j: int| 0 <= j < q.len() implies q[j].entity == v0.players[j].entity
                && q[j].gamepad == v0.players[j].gamepad && q[j].have_ball == v0.players[j].have_ball by {}
            lemma_same_holders(v0.players, q);
            if v0.enemy_contact(contacts@) {
                let j = choose|j: int| 0 <= j < v0.players.len() && contacts@.contains(#[trigger] v0.players[j].entity);
                assert(contacts@.contains(v0.players[j].entity));
            }
        }
        if hit {
            countdown.duration = ROUND_COUNTDOWN;
            Some(GameState::Paused)
        } else {
            None
        }
    }

    /// Once a player has no lives left the round pauses and the game is
    /// over; the result is then the pair of states to switch to.
    pub fn update_lives(&self) -> (next: Option<(GameState, AppState)>)
        ensures
            next == (if self@.someone_out() {
                Some((GameState::Paused, AppState::GameOver))
            } else {
                None
            }),
    {
        let mut i: usize = 0;
        while i < self.players.len()
            invariant
                i <= self@.players.len(),
                forall|j: int| 0 <= j < i ==> self@.players[j].lives != 0,
            decreases self@.players.len() - i,
        {
            if self.players[i].lives == 0 {
                return Some((GameState::Paused, AppState::GameOver));
            }
            i = i + 1;
        }
        None
    }

    /// Every player starts over with `STARTING_LIVES`.
    pub fn reset_lives(&mut self)
        requires
            old(self)@.wf(),
        ensures
            final(self)@.wf(),
            final(self)@ == old(self)@.lives_reset(),
    {
        let ghost v0 = self@;
        let mut i: usize = 0;
        while i < self.players.len()
            invariant
                i <= self@.players.len(),
                self@.players.len() == v0.players.len(),
                self.ball == v0.ball,
                self.indicator == v0.indicator,
                forall|j: int| 0 <= j < i ==> self@.players[j] == (Player { lives: STARTING_LIVES, ..v0.players[j] }),
                forall|j: int| i <= j < self@.players.len() ==> self@.players[j] == v0.players[j],
            decreases self@.players.len() - i,
        {
            let mut p = self.players[i];
            p.lives = STARTING_LIVES;
            self.players.set(i, p);
            i = i + 1;
        }
        proof {
            let q = self@.players;
            assert(q =~= v0.players.map_values(|p: Player| Player { lives: STARTING_LIVES, ..p }));
            lemma_same_holders(v0.players, q);
        }
    }
}

/// Number of players holding the ball.
pub open spec fn holder_count(players: Seq<Player>) -> nat
    decreases players.len(),
{
    if players.len() == 0 {
        0
    } else {
        holder_count(players.drop_last()) + if players.last().have_ball { 1nat } else { 0nat }
    }
}

proof fn lemma_count_has_holder(players: Seq<Player>)
    ensures
        holder_count(players) > 0 ==> has_holder(players),
    decreases players.len(),
{
    if players.len() > 0 {
        let init = players.drop_last();
        lemma_count_has_holder(init);
        if holder_count(init) > 0 {
            let i = choose|i: int| holds_at(init, i);
            assert(holds_at(players, i));
        } else if players.last().have_ball {
            assert(holds_at(players, players.len() - 1));
        }
    }
}

/// At most one player holds the ball: in a well-formed arena the number
/// of players with the possession flag is zero or one.
pub proof fn lemma_at_most_one_holder(a: ArenaView)
    requires
        a.wf(),
    ensures
        holder_count(a.players) <= 1,
{
    lemma_count_bound(a.players);
}

proof fn lemma_count_bound(players: Seq<Player>)
    requires
        at_most_one_holder(players),
    ensures
        holder_count(players) <= 1,
    decreases players.len(),
{
    if players.len() > 0 {
        let init = players.drop_last();
        assert forall|i: int, j: int| holds_at(init, i) && holds_at(init, j) implies i == j by {
            assert(holds_at(players, i) && holds_at(players, j));
        }
        lemma_count_bound(init);
        lemma_count_has_holder(init);
        if holder_count(init) > 0 && players.last().have_ball {
            let i = choose|i: int| holds_at(init, i);
            assert(holds_at(players, i));
            assert(holds_at(players, players.len() - 1));
        }
    }
}

/// While the ball is held no ball exists in the world; while it is free
/// or in flight exactly one does; a timed-out ball leaves none behind
/// until a new one is put down.
pub proof fn lemma_ball_exists_unless_held(a: ArenaView)
    requires
        a.wf(),
    ensures
        a.state() == BallState::Held ==> a.ball is None,
        a.state() == BallState::Free ==> a.ball is Some && !a.ball->0.in_flight,
        a.state() == BallState::InFlight ==> a.ball is Some && a.ball->0.in_flight,
        a.state() == BallState::Absent ==> a.ball is None && !has_holder(a.players),
{
}

/// Time adds up: a tick of `d1` then one of `d2` leave the arena as one
/// tick of `d1 + d2`. So a ball in flight with `t` milliseconds left is
/// counted down by exactly the time passed, and is gone once ticks
/// totalling `t` or more have passed.
pub proof fn lemma_ticks_add_up(a: ArenaView, d1: u64, d2: u64)
    requires
        d1 + d2 <= u64::MAX,
    ensures
        a.after_tick(d1).after_tick(d2) == a.after_tick((d1 + d2) as u64),
{
}

/// A ball in flight with `t` milliseconds left is removed by a tick of
/// `t` milliseconds or more, and is otherwise still there with the time
/// passed taken off, once per tick.
pub proof fn lemma_flight_times_out(a: ArenaView, dt: u64)
    requires
        a.wf(),
        a.state() == BallState::InFlight,
    ensures
        a.ball->0.despawn_timer <= dt ==> a.after_tick(dt).ball is None
            && a.after_tick(dt).state() == BallState::Absent,
        a.ball->0.despawn_timer > dt ==> a.after_tick(dt).ball == Some(
            Ball { despawn_timer: (a.ball->0.despawn_timer - dt) as u64, ..a.ball->0 },
        ),
{
}

/// A player on their last life whom the enemy touches is out, and the
/// game is then over.
pub proof fn lemma_last_life_ends_game(a: ArenaView, contacts: Seq<u64>, i: int)
    requires
        0 <= i < a.players.len(),
        a.players[i].lives == 1,
        contacts.contains(a.players[i].entity),
    ensures
        a.after_enemy_contacts(contacts).players[i].lives == 0,
        a.after_enemy_contacts(contacts).someone_out(),
{
    let b = a.after_enemy_contacts(contacts);
    assert(b.players[i].lives == 0);
}

/// Attaching an indicator to a player and removing it right away leaves
/// the arena, that player included, as it was.
pub proof fn lemma_attach_detach_round_trip(a: ArenaView, e: u64)
    requires
        a.indicator is None,
    ensures
        a.attached(e).detached() == a,
{
}

/// Handling the same collisions a second time changes nothing: once a
/// player has caught the ball, its further contacts with the ball are no-ops.
pub proof fn lemma_collisions_idempotent(a: ArenaView, events: Seq<CollisionEvent>)
    requires
        a.wf(),
    ensures
        a.after_collisions(events).after_collisions(events) == a.after_collisions(events),
{
}

/// A collision between the ball and the player holding it changes nothing.
pub proof fn lemma_holder_contact_is_noop(a: ArenaView, e: u64)
    requires
        a.wf(),
        a.is_holder(e),
    ensures
        a.after_collisions(seq![CollisionEvent::Started(Body::Ball, Body::Player(e))]) == a,
        a.after_collisions(seq![CollisionEvent::Started(Body::Player(e), Body::Ball)]) == a,
{
    assert(holds_at(a.players, index_of(a.players, e)));
}

/// While the ball is held, no collision moves it to another player.
pub proof fn lemma_no_transfer_while_held(a: ArenaView, events: Seq<CollisionEvent>)
    requires
        a.wf(),
        a.state() == BallState::Held,
    ensures
        a.after_collisions(events) == a,
{
}

proof fn lemma_first_catch_is_player(players: Seq<Player>, events: Seq<CollisionEvent>, from: int)
    ensures
        first_catch(players, events, from) matches Some(e) ==> has_entity(players, e)
            && !players[index_of(players, e)].have_ball,
    decreases events.len() - from,
{
    if 0 <= from < events.len() && !catches(players, events[from]) {
        lemma_first_catch_is_player(players, events, from + 1);
    }
}

/// When a collision hands over a free or flying ball, the catcher becomes
/// the one holder, the ball leaves the world and the indicator is the
/// catcher's.
pub proof fn lemma_catch_makes_holder(a: ArenaView, events: Seq<CollisionEvent>, e: u64)
    requires
        a.wf(),
        a.ball is Some,
        first_catch(a.players, events, 0) == Some(e),
    ensures
        a.after_collisions(events).wf(),
        a.after_collisions(events).state() == BallState::Held,
        a.after_collisions(events).is_holder(e),
        a.after_collisions(events).ball is None,
        a.after_collisions(events).indicator == Some(AttachedIndicator { parent: e, indicator: fresh_indicator() }),
{
    lemma_first_catch_is_player(a.players, events, 0);
    let i = index_of(a.players, e);
    lemma_set_flag(a.players, i, true);
    let b = a.after_collisions(events);
    assert(holds_at(b.players, i));
    lemma_holder_index(b.players, i);
}

/// A throw by the holder puts the ball in flight from the holder's
/// position, and nobody holds it any more.
pub proof fn lemma_throw_puts_ball_in_flight(a: ArenaView, e: u64)
    requires
        a.wf(),
        a.can_throw(e),
    ensures
        a.after_throw(e).wf(),
        a.after_throw(e).state() == BallState::InFlight,
        !has_holder(a.after_throw(e).players),
        a.after_throw(e).ball->0.translation == a.players[index_of(a.players, e)].translation,
{
    let i = index_of(a.players, e);
    lemma_set_flag(a.players, i, false);
}

fn vec_contains(v: &Vec<u64>, x: u64) -> (r: bool)
    ensures
        r == v@.contains(x),
{
    let mut i: usize = 0;
    while i < v.len()
        invariant
            i <= v@.len(),
            forall|j: int| 0 <= j < i ==> v@[j] != x,
        decreases v@.len() - i,
    {
        if v[i] == x {
            assert(v@[i as int] == x);
            return true;
        }
        i = i + 1;
    }
    false
}

/// The ball at rest at the origin, as a round starts.
pub fn spawn_ball() -> (r: Ball)
    ensures
        r == resting_ball(),
{
    Ball {
        translation: Vec2 { x: 0, y: 0 },
        impulse: Vec2 { x: 0, y: 0 },
        despawn_timer: BALL_DESPAWN_MS,
        in_flight: false,
    }
}

} // verus!
