//! One running session: the per-tick pipeline over the scene — input
//! intent, scripted-mover and player kinematics, collision resolution,
//! camera follow, and the interaction / scoring / outcome pass.

use vstd::prelude::*;

use crate::camera::{follow_offset, follow_player};
use crate::components::{speed_bounded, track_bounded, track_speed, MovableComp, ObjectType, PlayerComp};
use crate::map::{initialized_scene, wf_map, GameMap};
use crate::rect::{anchor_dir, anchor_to_tuple, classify, compare, Anchor, Rect};
use crate::scene::{
    find_player, has_player, is_first_player, name_in, remove_entities_named, remove_names_spec,
    wf_entity, wf_rect, wf_scene, Entity, Scene,
};
use crate::states::{GameStatus, StateEvent, StateKind, Trans};
use crate::{COORD_LIMIT, GRAVITY, LOWER_BOUND, PLAYER_JUMP, PLAYER_SPEED};

verus! {

/// The directional and jump intent sampled for one tick.
#[derive(Clone, Copy, Debug, PartialEq, Eq, Structural)]
pub struct InputState {
    pub left: bool,
    pub right: bool,
    pub jump: bool,
}

/// The per-session score counter.
pub struct Scoreboard {
    pub score: i32,
}

impl Default for Scoreboard {
    /// A fresh scoreboard counts from zero.
    fn default() -> (r: Self)
        ensures
            r.score == 0,
    {
        Scoreboard { score: 0 }
    }
}

impl Scoreboard {
    /// Add to the score.
    pub fn add_score(&mut self, add: i32)
        requires
            i32::MIN <= old(self).score + add <= i32::MAX,
        ensures
            final(self).score == old(self).score + add,
    {
        self.score = self.score + add;
    }
}

/// What the input pass does to the player: horizontal speed is rebuilt
/// from the held directions; gravity lowers the vertical speed every
/// tick unconditionally, before jump arbitration; a jump then fires
/// only on a fresh press (`can_jump`) with jumps left and sets the
/// vertical speed to the undamped impulse.  The jump off the ground is
/// free, a mid-air jump consumes the budget, and releasing the key
/// re-arms it.
pub open spec fn intent_spec(p: PlayerComp, inp: InputState) -> PlayerComp {
    let sx: i32 = if inp.left && inp.right {
        0i32
    } else if inp.left {
        (-PLAYER_SPEED) as i32
    } else if inp.right {
        PLAYER_SPEED
    } else {
        0i32
    };
    let vy: i32 = (p.speed.1 - GRAVITY) as i32;
    if inp.jump {
        if p.can_jump && p.jump_count > 0 {
            PlayerComp {
                speed: (sx, PLAYER_JUMP),
                can_jump: false,
                jump_count: if !p.on_ground {
                    (p.jump_count - 1) as i32
                } else {
                    p.jump_count
                },
                ..p
            }
        } else {
            PlayerComp { speed: (sx, vy), ..p }
        }
    } else {
        PlayerComp { speed: (sx, vy), can_jump: true, ..p }
    }
}

/// Apply one tick of input intent and gravity to the player, as
/// [`intent_spec`] describes.
pub fn update_player_intent(p: &mut PlayerComp, input: &InputState)
    requires
        i32::MIN <= old(p).speed.1 - GRAVITY,
    ensures
        *final(p) == intent_spec(*old(p), *input),
{
    let mut sx: i32 = 0;
    if input.left {
        sx = sx - PLAYER_SPEED;
    }
    if input.right {
        sx = sx + PLAYER_SPEED;
    }
    p.speed = (sx, p.speed.1 - GRAVITY);
    if input.jump {
        if p.can_jump && p.jump_count > 0 {
            p.speed = (sx, PLAYER_JUMP);
            p.can_jump = false;
            if !p.on_ground {
                p.jump_count = p.jump_count - 1;
            }
        }
    } else {
        p.can_jump = true;
    }
}

/// Jump arbitration: a firing jump ends the pass at the undamped
/// impulse (gravity came first and was overwritten); a grounded
/// player's first jump fires without spending the mid-air budget; an
/// airborne jump with budget spends it; with the budget at zero a
/// press is rejected and only gravity acts on the vertical speed.
pub proof fn lemma_jump_arbitration(p: PlayerComp, inp: InputState)
    requires
        inp.jump,
    ensures
        p.can_jump && p.on_ground && p.jump_count == 1 ==> {
            let q = intent_spec(p, inp);
            q.speed.1 == PLAYER_JUMP && q.jump_count == 1 && !q.can_jump
        },
        p.can_jump && !p.on_ground && p.jump_count == 1 ==> {
            let q = intent_spec(p, inp);
            q.speed.1 == PLAYER_JUMP && q.jump_count == 0 && !q.can_jump
        },
        p.jump_count == 0 ==> {
            let q = intent_spec(p, inp);
            q.speed.1 == (p.speed.1 - GRAVITY) as i32 && q.jump_count == 0
        },
{
}

/// One kinematics step of a scripted mover's entity: the speed looked
/// up from the track at the current position (kept when no waypoint
/// matches), then the rectangle advanced by it.  Entities without a
/// mover record are untouched.
pub open spec fn movable_stepped(e: Entity) -> Entity {
    match e.movable {
        Some(m) => {
            let sp = track_speed(m.track@, e.rect.x, e.rect.y, m.speed);
            Entity {
                movable: Some(MovableComp { speed: sp, ..m }),
                rect: Rect {
                    x: (e.rect.x + sp.0) as i32,
                    y: (e.rect.y + sp.1) as i32,
                    ..e.rect
                },
                ..e
            }
        },
        None => e,
    }
}

/// Bounds that hold of every entity right after the kinematics pass:
/// the rectangle has moved at most one coordinate bound away from a
/// well-formed position.
pub open spec fn post_move_bounded(e: Entity) -> bool {
    &&& -3 * COORD_LIMIT <= e.rect.x <= 3 * COORD_LIMIT
    &&& -3 * COORD_LIMIT <= e.rect.y <= 3 * COORD_LIMIT
    &&& 0 < e.rect.w <= COORD_LIMIT
    &&& 0 < e.rect.h <= COORD_LIMIT
}

/// What the mover pass needs of every entity: a well-formed rectangle
/// and bounded mover data.  The player's transient post-intent speed
/// is bounded separately by its own pass.
pub open spec fn kin_entity_ok(e: Entity) -> bool {
    &&& wf_rect(e.rect)
    &&& (e.movable matches Some(m) ==> track_bounded(m.track@) && speed_bounded(m.speed))
}

/// Advance every scripted mover by one tick, in entity order.
pub fn move_movables(entities: &mut Vec<Entity>)
    requires
        forall|i: int| 0 <= i < old(entities)@.len() ==> kin_entity_ok(#[trigger] old(entities)@[i]),
    ensures
        final(entities)@.len() == old(entities)@.len(),
        forall|i: int| 0 <= i < old(entities)@.len() ==> final(entities)@[i] == movable_stepped(
            #[trigger] old(entities)@[i],
        ),
        forall|i: int| 0 <= i < final(entities)@.len() ==> post_move_bounded(
            #[trigger] final(entities)@[i],
        ),
{
    let ghost orig = old(entities)@;
    let n = entities.len();
    let mut i: usize = 0;
    while i < n
        invariant
            n == orig.len(),
            entities@.len() == n,
            0 <= i <= n,
            forall|j: int| 0 <= j < orig.len() ==> kin_entity_ok(#[trigger] orig[j]),
            forall|j: int| 0 <= j < i ==> entities@[j] == movable_stepped(#[trigger] orig[j]),
            forall|j: int| 0 <= j < i ==> post_move_bounded(#[trigger] entities@[j]),
            forall|j: int| i <= j < n ==> entities@[j] == orig[j],
        decreases n - i,
    {
        let ghost before = entities@;
        let mut e = entities.remove(i);
        let mo = e.movable.take();
        match mo {
            Some(mut m) => {
                proof {
                    crate::components::lemma_track_speed_bounded(m.track@, e.rect.x, e.rect.y, m.speed);
                }
                m.move_(&mut e.rect);
                e.movable = Some(m);
            },
            None => {},
        }
        entities.insert(i, e);
        proof {
            assert(entities@ =~= before.update(i as int, entities@[i as int]));
            assert(entities@[i as int] == movable_stepped(orig[i as int]));
        }
        i = i + 1;
    }
}

/// The player record of an entity that carries one.
pub open spec fn player_of(e: Entity) -> PlayerComp
    recommends
        e.player is Some,
{
    e.player->0
}

/// The vertical position that puts the player (top-left pivot) flush
/// against the collidable: on its top face when the player came from
/// above (`dy == 1`), under its bottom face otherwise.
pub open spec fn snap_y(c: Rect, p: Rect, dy: i32) -> int {
    if dy == 1 {
        c.y + p.h
    } else {
        c.y - c.h
    }
}

/// The horizontal position that puts the player flush against the
/// collidable: at its right face when the player came from the right
/// (`dx == 1`), at its left face otherwise.
pub open spec fn snap_x(c: Rect, p: Rect, dx: i32) -> int {
    if dx == 1 {
        c.x + c.w
    } else {
        c.x - p.w
    }
}

/// One collidable's contribution to the resolution accumulator
/// `(x, y, vx, vy, on_ground, jump_count)`: an overlapping blocker
/// snaps the axis its pre-tick direction names and zeroes that axis's
/// speed; bottom contact grounds the player and refills the jump
/// budget.  Later blockers overwrite earlier ones per axis.
pub open spec fn resolve_step(
    acc: (int, int, int, int, bool, int),
    e: Entity,
    rel: Anchor,
    prect: Rect,
) -> (int, int, int, int, bool, int) {
    if e.collidable is Some && classify(prect, e.rect) == Anchor::Middle {
        let dir = anchor_dir(rel);
        if dir.1 != 0 {
            (
                acc.0,
                snap_y(e.rect, prect, dir.1),
                acc.2,
                0,
                if dir.1 == 1 {
                    true
                } else {
                    acc.4
                },
                if dir.1 == 1 {
                    1int
                } else {
                    acc.5
                },
            )
        } else if dir.0 != 0 {
            (snap_x(e.rect, prect, dir.0), acc.1, 0, acc.3, acc.4, acc.5)
        } else {
            acc
        }
    } else {
        acc
    }
}

/// The resolution accumulator after every entity, in entity order, has
/// contributed.
pub open spec fn resolve_fold(
    ents: Seq<Entity>,
    rel: Seq<Anchor>,
    prect: Rect,
    acc: (int, int, int, int, bool, int),
) -> (int, int, int, int, bool, int)
    decreases ents.len(),
{
    if ents.len() == 0 {
        acc
    } else {
        resolve_fold(
            ents.drop_first(),
            rel.drop_first(),
            prect,
            resolve_step(acc, ents[0], rel[0], prect),
        )
    }
}

/// Rectangle bounds loose enough to cover every entity handed to the
/// collision resolver, the moved player included.
pub open spec fn resolve_bounded(e: Entity) -> bool {
    &&& -4 * COORD_LIMIT <= e.rect.x <= 4 * COORD_LIMIT
    &&& -4 * COORD_LIMIT <= e.rect.y <= 4 * COORD_LIMIT
    &&& 0 < e.rect.w <= COORD_LIMIT
    &&& 0 < e.rect.h <= COORD_LIMIT
}

/// Resolve the player against every overlapping blocker, in entity
/// order, using the pre-tick relative positions `rel` to pick the face
/// to resolve.  Ground contact is re-established only by an actual
/// bottom contact this tick.
pub fn resolve_collisions(entities: &mut Vec<Entity>, rel: &Vec<Anchor>, pidx: usize)
    requires
        rel@.len() == old(entities)@.len(),
        is_first_player(old(entities)@, pidx as int),
        forall|i: int| 0 <= i < old(entities)@.len() ==> resolve_bounded(
            #[trigger] old(entities)@[i],
        ),
        ({
            let p = player_of(old(entities)@[pidx as int]);
            &&& -2 * COORD_LIMIT <= p.speed.0 <= 2 * COORD_LIMIT
            &&& -2 * COORD_LIMIT <= p.speed.1 <= 2 * COORD_LIMIT
            &&& 0 <= p.jump_count
        }),
    ensures
        final(entities)@.len() == old(entities)@.len(),
        forall|i: int| 0 <= i < old(entities)@.len() && i != pidx ==> final(entities)@[i] == old(
            entities,
        )@[i],
        ({
            let e = old(entities)@[pidx as int];
            let p = player_of(e);
            let acc = resolve_fold(
                old(entities)@,
                rel@,
                e.rect,
                (e.rect.x as int, e.rect.y as int, p.speed.0 as int, p.speed.1 as int, false, p.jump_count as int),
            );
            final(entities)@[pidx as int] == (Entity {
                rect: Rect { x: acc.0 as i32, y: acc.1 as i32, ..e.rect },
                player: Some(
                    PlayerComp {
                        speed: (acc.2 as i32, acc.3 as i32),
                        on_ground: acc.4,
                        jump_count: acc.5 as i32,
                        ..p
                    },
                ),
                ..e
            })
        }),
{
    let prect: Rect = entities[pidx].rect;
    let pspeed: (i32, i32);
    let pjump: i32;
    match &entities[pidx].player {
        Some(p) => {
            pspeed = p.speed;
            pjump = p.jump_count;
        },
        None => {
            proof {
                assert(false);
            }
            pspeed = (0, 0);
            pjump = 0;
        },
    }

    let ghost orig = old(entities)@;
    let ghost acc0 = (
        prect.x as int,
        prect.y as int,
        pspeed.0 as int,
        pspeed.1 as int,
        false,
        pjump as int,
    );

    let mut tx: i32 = prect.x;
    let mut ty: i32 = prect.y;
    let mut vx: i32 = pspeed.0;
    let mut vy: i32 = pspeed.1;
    let mut og: bool = false;
    let mut jc: i32 = pjump;

    let n = entities.len();
    let mut i: usize = 0;
    proof {
        assert(orig.skip(0) =~= orig);
        assert(rel@.skip(0) =~= rel@);
    }
    while i < n
        invariant
            n == orig.len(),
            entities@ == orig,
            rel@.len() == n,
            0 <= i <= n,
            forall|j: int| 0 <= j < n ==> resolve_bounded(#[trigger] orig[j]),
            0 < prect.w <= COORD_LIMIT,
            0 < prect.h <= COORD_LIMIT,
            -5 * COORD_LIMIT <= tx <= 5 * COORD_LIMIT,
            -5 * COORD_LIMIT <= ty <= 5 * COORD_LIMIT,
            -2 * COORD_LIMIT <= vx <= 2 * COORD_LIMIT,
            -2 * COORD_LIMIT <= vy <= 2 * COORD_LIMIT,
            0 <= jc,
            resolve_fold(orig, rel@, prect, acc0) == resolve_fold(
                orig.skip(i as int),
                rel@.skip(i as int),
                prect,
                (tx as int, ty as int, vx as int, vy as int, og, jc as int),
            ),
        decreases n - i,
    {
        proof {
            assert(orig.skip(i as int)[0] == orig[i as int]);
            assert(rel@.skip(i as int)[0] == rel@[i as int]);
            assert(orig.skip(i as int).drop_first() =~= orig.skip(i as int + 1));
            assert(rel@.skip(i as int).drop_first() =~= rel@.skip(i as int + 1));
        }
        if entities[i].collidable.is_some() && matches!(compare(prect, entities[i].rect), Anchor::Middle) {
            let dir = anchor_to_tuple(rel[i]);
            if dir.1 != 0 {
                if dir.1 == 1 {
                    ty = entities[i].rect.y + prect.h;
                    og = true;
                    jc = 1;
                } else {
                    ty = entities[i].rect.y - entities[i].rect.h;
                }
                vy = 0;
            } else if dir.0 != 0 {
                if dir.0 == 1 {
                    tx = entities[i].rect.x + entities[i].rect.w;
                } else {
                    tx = entities[i].rect.x - prect.w;
                }
                vx = 0;
            }
        }
        i = i + 1;
    }
    proof {
        assert(orig.skip(n as int).len() == 0);
    }

    let mut e = entities.remove(pidx);
    let po = e.player.take();
    let mut p = po.unwrap();
    p.speed = (vx, vy);
    p.on_ground = og;
    p.jump_count = jc;
    e.player = Some(p);
    e.rect.x = tx;
    e.rect.y = ty;
    entities.insert(pidx, e);
    proof {
        assert(entities@ =~= orig.update(pidx as int, entities@[pidx as int]));
    }
}

/// The classification of the player's rectangle against every entity's
/// rectangle, in entity order.
pub open spec fn rel_spec(ents: Seq<Entity>, prect: Rect) -> Seq<Anchor> {
    Seq::new(ents.len(), |i: int| classify(prect, ents[i].rect))
}

/// An interactable monster or target the player overlaps: the contacts
/// that end the level.
pub open spec fn is_outcome_hit(e: Entity, prect: Rect) -> bool {
    &&& e.interactable is Some
    &&& (e.obj.type_ == ObjectType::Monster || e.obj.type_ == ObjectType::Target)
    &&& classify(prect, e.rect) == Anchor::Middle
}

/// `i` is the first level-ending contact in entity order.
pub open spec fn is_first_outcome_hit(ents: Seq<Entity>, prect: Rect, i: int) -> bool {
    &&& 0 <= i < ents.len()
    &&& is_outcome_hit(ents[i], prect)
    &&& forall|j: int| 0 <= j < i ==> !is_outcome_hit(#[trigger] ents[j], prect)
}

/// Some entity is a level-ending contact.
pub open spec fn some_outcome_hit(ents: Seq<Entity>, prect: Rect) -> bool {
    exists|i: int| 0 <= i < ents.len() && is_outcome_hit(#[trigger] ents[i], prect)
}

/// An interactable coin the player overlaps.
pub open spec fn is_touched_coin(e: Entity, prect: Rect) -> bool {
    &&& e.interactable is Some
    &&& e.obj.type_ == ObjectType::Coin
    &&& classify(prect, e.rect) == Anchor::Middle
}

/// The names of the touched coins, in entity order.
pub open spec fn coin_names(ents: Seq<Entity>, prect: Rect) -> Seq<Seq<char>>
    decreases ents.len(),
{
    if ents.len() == 0 {
        Seq::empty()
    } else {
        let init = coin_names(ents.drop_last(), prect);
        if is_touched_coin(ents.last(), prect) {
            init.push(ents.last().obj.name@)
        } else {
            init
        }
    }
}

/// One session of one level: the level number, its score counter and
/// the loaded level data.
pub struct GameState {
    pub level: u32,
    pub scoreboard: Scoreboard,
    pub map: Option<GameMap>,
}

impl GameState {
    pub fn new(level: u32) -> (g: GameState)
        ensures
            g.level == level,
            g.scoreboard.score == 0,
            g.map is None,
    {
        GameState { level, scoreboard: Scoreboard::default(), map: None }
    }

    /// The win / lose / scoring pass: falling below the lower bound or
    /// touching a monster loses, touching a target wins (first contact
    /// in entity order decides), and otherwise every touched coin is
    /// queued, removed after the scan, and scored.
    pub fn check_win(&mut self, scene: &mut Scene, pidx: usize) -> (t: Trans)
        requires
            is_first_player(old(scene).entities@, pidx as int),
        ensures
            final(self).level == old(self).level,
            final(self).map == old(self).map,
            final(scene).size == old(scene).size,
            final(scene).offset == old(scene).offset,
            ({
                let ents = old(scene).entities@;
                let prect = ents[pidx as int].rect;
                let score0 = old(self).scoreboard.score;
                let level = old(self).level;
                if prect.y < LOWER_BOUND {
                    &&& final(scene).entities == old(scene).entities
                    &&& final(self).scoreboard.score == score0
                    &&& t == Trans::Push(
                        StateKind::Pause { level, status: GameStatus::Lose, score: score0 },
                    )
                } else if some_outcome_hit(ents, prect) {
                    &&& final(scene).entities == old(scene).entities
                    &&& final(self).scoreboard.score == score0
                    &&& forall|h: int|
                        is_first_outcome_hit(ents, prect, h) ==> t == Trans::Push(
                            StateKind::Pause {
                                level,
                                status: if ents[h].obj.type_ == ObjectType::Monster {
                                    GameStatus::Lose
                                } else {
                                    GameStatus::Win
                                },
                                score: score0,
                            },
                        )
                } else {
                    let names = coin_names(ents, prect);
                    let fits = names.len() <= i32::MAX && score0 + names.len() <= i32::MAX;
                    &&& final(scene).entities@ == remove_names_spec(ents, names)
                    &&& (fits ==> final(self).scoreboard.score == score0 + names.len())
                    &&& (!fits ==> final(self).scoreboard.score == score0)
                    &&& t == Trans::Stay
                }
            }),
    {
        let prect: Rect = scene.entities[pidx].rect;
        if prect.y < LOWER_BOUND {
            return Trans::Push(
                StateKind::Pause {
                    level: self.level,
                    status: GameStatus::Lose,
                    score: self.scoreboard.score,
                },
            );
        }

        let n = scene.entities.len();
        let mut i: usize = 0;
        while i < n
            invariant
                n == scene.entities@.len(),
                0 <= i <= n,
                *self == *old(self),
                *scene == *old(scene),
                is_first_player(old(scene).entities@, pidx as int),
                prect == old(scene).entities@[pidx as int].rect,
                !(prect.y < LOWER_BOUND),
                forall|j: int| 0 <= j < i ==> !is_outcome_hit(#[trigger] scene.entities@[j], prect),
            decreases n - i,
        {
            let hit = scene.entities[i].interactable.is_some() && matches!(
                scene.entities[i].obj.type_,
                ObjectType::Monster | ObjectType::Target,
            ) && matches!(compare(prect, scene.entities[i].rect), Anchor::Middle);
            if hit {
                let lose = matches!(scene.entities[i].obj.type_, ObjectType::Monster);
                proof {
                    assert(is_first_outcome_hit(scene.entities@, prect, i as int));
                    assert forall|h: int|
                        is_first_outcome_hit(scene.entities@, prect, h) implies h == i as int by {
                        if h < i as int {
                            assert(is_outcome_hit(scene.entities@[h], prect));
                        } else if h > i as int {
                            assert(!is_outcome_hit(scene.entities@[i as int], prect));
                        }
                    }
                }
                return Trans::Push(
                    StateKind::Pause {
                        level: self.level,
                        status: if lose {
                            GameStatus::Lose
                        } else {
                            GameStatus::Win
                        },
                        score: self.scoreboard.score,
                    },
                );
            }
            i = i + 1;
        }

        let mut names: Vec<String> = Vec::new();
        let mut i: usize = 0;
        while i < n
            invariant
                n == scene.entities@.len(),
                0 <= i <= n,
                *self == *old(self),
                *scene == *old(scene),
                is_first_player(old(scene).entities@, pidx as int),
                prect == old(scene).entities@[pidx as int].rect,
                !(prect.y < LOWER_BOUND),
                forall|j: int| 0 <= j < n ==> !is_outcome_hit(#[trigger] scene.entities@[j], prect),
                names.deep_view() == coin_names(scene.entities@.take(i as int), prect),
            decreases n - i,
        {
            proof {
                assert(scene.entities@.take(i as int + 1).drop_last() =~= scene.entities@.take(
                    i as int,
                ));
                assert(scene.entities@.take(i as int + 1).last() == scene.entities@[i as int]);
            }
            let touched = scene.entities[i].interactable.is_some() && matches!(
                scene.entities[i].obj.type_,
                ObjectType::Coin,
            ) && matches!(compare(prect, scene.entities[i].rect), Anchor::Middle);
            if touched {
                names.push(scene.entities[i].obj.name.clone());
                proof {
                    assert(names.deep_view() =~= coin_names(
                        scene.entities@.take(i as int + 1),
                        prect,
                    ));
                }
            } else {
                proof {
                    assert(names.deep_view() =~= coin_names(
                        scene.entities@.take(i as int + 1),
                        prect,
                    ));
                }
            }
            i = i + 1;
        }
        proof {
            assert(scene.entities@.take(n as int) =~= scene.entities@);
        }

        let count = names.len();
        if count <= i32::MAX as usize && (self.scoreboard.score as i64) + (count as i64)
            <= i32::MAX as i64 {
            self.scoreboard.add_score(count as i32);
        }
        remove_entities_named(&mut scene.entities, &names);
        Trans::Stay
    }
}

/// Classify the player's rectangle against every entity, in entity
/// order; the collision resolver disambiguates push-out directions with
/// this pre-tick snapshot.
pub fn get_rel_pos(entities: &Vec<Entity>, prect: Rect) -> (r: Vec<Anchor>)
    ensures
        r@ == rel_spec(entities@, prect),
{
    let n = entities.len();
    let mut r: Vec<Anchor> = Vec::new();
    let mut i: usize = 0;
    while i < n
        invariant
            n == entities@.len(),
            0 <= i <= n,
            r@.len() == i,
            forall|j: int| 0 <= j < i ==> r@[j] == classify(prect, (#[trigger] entities@[j]).rect),
        decreases n - i,
    {
        r.push(compare(prect, entities[i].rect));
        i = i + 1;
    }
    proof {
        assert(r@ =~= rel_spec(entities@, prect));
    }
    r
}

/// One mover step keeps the entity within twice the coordinate bound
/// of a well-formed position and touches nothing but its own rectangle
/// and speed.
proof fn lemma_movable_stepped_close(e: Entity)
    requires
        kin_entity_ok(e),
    ensures
        ({
            let e2 = movable_stepped(e);
            &&& -2 * COORD_LIMIT <= e2.rect.x <= 2 * COORD_LIMIT
            &&& -2 * COORD_LIMIT <= e2.rect.y <= 2 * COORD_LIMIT
            &&& e2.rect.w == e.rect.w
            &&& e2.rect.h == e.rect.h
            &&& e2.player == e.player
        }),
{
    match e.movable {
        Some(m) => {
            crate::components::lemma_track_speed_bounded(m.track@, e.rect.x, e.rect.y, m.speed);
        },
        None => {},
    }
}

/// The kinematics stages of one tick: input intent, gravity and jump
/// arbitration on the player, every scripted mover advanced, then the
/// player's position update by the arbitrated speed.
pub open spec fn kinematics_spec(ents: Seq<Entity>, pidx: int, inp: InputState) -> Seq<Entity> {
    let e0 = ents[pidx];
    let e1 = Entity { player: Some(intent_spec(player_of(e0), inp)), ..e0 };
    let s1 = ents.update(pidx, e1);
    let s2 = Seq::new(s1.len(), |i: int| movable_stepped(s1[i]));
    let e2 = s2[pidx];
    let p2 = player_of(e2);
    let e3 = Entity {
        player: Some(PlayerComp { last_pos: Some((e2.rect.x, e2.rect.y)), ..p2 }),
        rect: Rect {
            x: (e2.rect.x + p2.speed.0) as i32,
            y: (e2.rect.y + p2.speed.1) as i32,
            ..e2.rect
        },
        ..e2
    };
    s2.update(pidx, e3)
}

/// The entity list after collision resolution: only the player entity
/// changes, to the folded accumulator's position, speeds and ground
/// state.
pub open spec fn resolved_entities(ents: Seq<Entity>, rel: Seq<Anchor>, pidx: int) -> Seq<Entity> {
    let e = ents[pidx];
    let p = player_of(e);
    let acc = resolve_fold(
        ents,
        rel,
        e.rect,
        (e.rect.x as int, e.rect.y as int, p.speed.0 as int, p.speed.1 as int, false, p.jump_count as int),
    );
    ents.update(
        pidx,
        Entity {
            rect: Rect { x: acc.0 as i32, y: acc.1 as i32, ..e.rect },
            player: Some(
                PlayerComp {
                    speed: (acc.2 as i32, acc.3 as i32),
                    on_ground: acc.4,
                    jump_count: acc.5 as i32,
                    ..p
                },
            ),
            ..e
        },
    )
}

/// The whole entity pipeline of one tick: relative positions are
/// snapshotted first, then kinematics runs, then collision resolution
/// against that snapshot.
pub open spec fn tick_entities(ents: Seq<Entity>, pidx: int, inp: InputState) -> Seq<Entity> {
    let rel = rel_spec(ents, ents[pidx].rect);
    resolved_entities(kinematics_spec(ents, pidx, inp), rel, pidx)
}

/// Everything one successful tick promises: the camera-followed offset,
/// and the outcome pass over the post-kinematics entities — a fall or a
/// monster contact loses, a target contact wins, otherwise the touched
/// coins are removed and scored and the session stays.
pub open spec fn fixed_update_post(
    level: u32,
    score0: i32,
    s0: Scene,
    pidx: int,
    inp: InputState,
    view_w: u32,
    view_h: u32,
    sf: Scene,
    scoref: i32,
    t: Trans,
) -> bool {
    let te = tick_entities(s0.entities@, pidx, inp);
    let prect = te[pidx].rect;
    let off = follow_offset(view_w, view_h, s0.size.0, s0.size.1, s0.offset, prect);
    &&& sf.size == s0.size
    &&& sf.offset.0 == off.0 && sf.offset.1 == off.1
    &&& if prect.y < LOWER_BOUND {
        &&& sf.entities@ == te
        &&& scoref == score0
        &&& t == Trans::Push(StateKind::Pause { level, status: GameStatus::Lose, score: score0 })
    } else if some_outcome_hit(te, prect) {
        &&& sf.entities@ == te
        &&& scoref == score0
        &&& forall|h: int|
            is_first_outcome_hit(te, prect, h) ==> t == Trans::Push(
                StateKind::Pause {
                    level,
                    status: if te[h].obj.type_ == ObjectType::Monster {
                        GameStatus::Lose
                    } else {
                        GameStatus::Win
                    },
                    score: score0,
                },
            )
    } else {
        let names = coin_names(te, prect);
        let fits = names.len() <= i32::MAX && score0 + names.len() <= i32::MAX;
        &&& sf.entities@ == remove_names_spec(te, names)
        &&& (fits ==> scoref == score0 + names.len())
        &&& (!fits ==> scoref == score0)
        &&& t == Trans::Stay
    }
}

impl GameState {
    /// One simulation tick: pre-tick relative positions, input intent,
    /// mover and player kinematics, collision resolution, camera
    /// follow, then the win / lose / scoring pass.  A malformed scene,
    /// a missing player or an oversized viewport aborts the tick
    /// without touching anything, as a session invariant violation.
    #[verifier::rlimit(100)]
    pub fn fixed_update(
        &mut self,
        scene: &mut Scene,
        input: &InputState,
        view_w: u32,
        view_h: u32,
    ) -> (t: Trans)
        ensures
            final(self).level == old(self).level,
            final(self).map == old(self).map,
            ({
                let s0 = *old(scene);
                let ok = 1 <= view_w <= COORD_LIMIT && 1 <= view_h <= COORD_LIMIT && wf_scene(s0)
                    && has_player(s0.entities@);
                if !ok {
                    &&& *final(scene) == s0
                    &&& final(self).scoreboard.score == old(self).scoreboard.score
                    &&& t == Trans::Stay
                } else {
                    forall|pi: int|
                        is_first_player(s0.entities@, pi) ==> fixed_update_post(
                            old(self).level,
                            old(self).scoreboard.score,
                            s0,
                            pi,
                            *input,
                            view_w,
                            view_h,
                            *final(scene),
                            final(self).scoreboard.score,
                            t,
                        )
                }
            }),
    {
        if !(1 <= view_w && view_w <= COORD_LIMIT as u32 && 1 <= view_h && view_h
            <= COORD_LIMIT as u32) {
            return Trans::Stay;
        }
        if !scene.check_wf() {
            return Trans::Stay;
        }
        let pidx = match find_player(&scene.entities) {
            Some(i) => i,
            None => {
                return Trans::Stay;
            },
        };
        let ghost s0 = *scene;
        let ghost pi = pidx as int;
        let ghost ents0 = scene.entities@;

        // snapshot the relative position of the player against everything
        let prect0: Rect = scene.entities[pidx].rect;
        let rel = get_rel_pos(&scene.entities, prect0);

        // input intent on the player
        let mut pent = scene.entities.remove(pidx);
        let po = pent.player.take();
        let mut pcomp = po.unwrap();
        update_player_intent(&mut pcomp, input);
        pent.player = Some(pcomp);
        scene.entities.insert(pidx, pent);
        let ghost s1 = ents0.update(pi, Entity { player: Some(intent_spec(player_of(ents0[pi]), *input)), ..ents0[pi] });
        proof {
            assert(scene.entities@ =~= s1);
            assert forall|j: int| 0 <= j < s1.len() implies kin_entity_ok(#[trigger] s1[j]) by {
                assert(wf_entity(ents0[j]));
            }
        }

        // scripted movers
        move_movables(&mut scene.entities);
        let ghost s2 = Seq::new(s1.len(), |i: int| movable_stepped(s1[i]));
        proof {
            assert(scene.entities@ =~= s2);
        }

        // the player's position update
        let mut pent = scene.entities.remove(pidx);
        let po = pent.player.take();
        let mut pcomp = po.unwrap();
        proof {
            assert(s2[pi] == movable_stepped(s1[pi]));
            assert(post_move_bounded(s2[pi]));
        }
        pcomp.move_(&mut pent.rect);
        pent.player = Some(pcomp);
        scene.entities.insert(pidx, pent);
        let ghost s3 = kinematics_spec(ents0, pi, *input);
        proof {
            assert(scene.entities@ =~= s3);
        }

        // collisions, against the pre-tick snapshot
        proof {
            assert(is_first_player(s3, pi));
            assert forall|j: int| 0 <= j < s3.len() implies resolve_bounded(#[trigger] s3[j]) by {
                if j != pi {
                    assert(s3[j] == movable_stepped(s1[j]));
                    assert(post_move_bounded(s3[j]));
                } else {
                    assert(kin_entity_ok(s1[pi]));
                    lemma_movable_stepped_close(s1[pi]);
                }
            }
        }
        resolve_collisions(&mut scene.entities, &rel, pidx);
        let ghost s4 = tick_entities(ents0, pi, *input);
        proof {
            assert(rel@ == rel_spec(ents0, ents0[pi].rect));
            assert(scene.entities@ =~= s4);
        }

        // camera follow on the resolved position
        follow_player(scene, view_w, view_h);
        proof {
            assert(is_first_player(scene.entities@, pi));
        }

        // win / lose / scoring
        self.check_win(scene, pidx)
    }
}


impl GameState {
    /// Remove every named object from the scene, in one pass planned
    /// from a stable snapshot.
    pub fn remove_objs(&mut self, scene: &mut Scene, names: Vec<String>)
        ensures
            *final(self) == *old(self),
            final(scene).size == old(scene).size,
            final(scene).offset == old(scene).offset,
            final(scene).entities@ == remove_names_spec(old(scene).entities@, names.deep_view()),
    {
        remove_entities_named(&mut scene.entities, &names);
    }

    /// Load one level into a fresh scene: instantiate every spawn, keep
    /// the level data, and centre the camera one follow step towards
    /// the player.
    pub fn on_start(&mut self, map: GameMap, view_w: u32, view_h: u32) -> (s: Scene)
        requires
            wf_map(map),
            1 <= view_w <= COORD_LIMIT,
            1 <= view_h <= COORD_LIMIT,
        ensures
            final(self).level == old(self).level,
            final(self).scoreboard == old(self).scoreboard,
            final(self).map matches Some(m) && m == map,
            initialized_scene(Scene { offset: (0i32, 0i32), ..s }, map),
            wf_scene(s),
            ({
                let o = follow_offset(
                    view_w,
                    view_h,
                    map.size.0,
                    map.size.1,
                    (0i32, 0i32),
                    s.entities@[0].rect,
                );
                s.offset.0 == o.0 && s.offset.1 == o.1
            }),
    {
        let mut scene = map.initialize();
        proof {
            assert(is_first_player(scene.entities@, 0));
        }
        follow_player(&mut scene, view_w, view_h);
        self.map = Some(map);
        scene
    }

    /// The running session reacts only to the escape key: it pushes the
    /// pause overlay with no outcome and the current score.
    pub fn handle_event(&self, event: &StateEvent) -> (t: Trans)
        ensures
            t == (if *event == StateEvent::Escape {
                Trans::Push(
                    StateKind::Pause {
                        level: self.level,
                        status: GameStatus::Ongoing,
                        score: self.scoreboard.score,
                    },
                )
            } else {
                Trans::Stay
            }),
    {
        match event {
            StateEvent::Escape => Trans::Push(
                StateKind::Pause {
                    level: self.level,
                    status: GameStatus::Ongoing,
                    score: self.scoreboard.score,
                },
            ),
            _ => Trans::Stay,
        }
    }
}

/// No entity of the resolver's rel snapshot is an overlapping blocker
/// with a vertical push-out direction.
pub open spec fn no_vertical_contact(ents: Seq<Entity>, rel: Seq<Anchor>, prect: Rect) -> bool {
    forall|i: int|
        0 <= i < ents.len() ==> !((#[trigger] ents[i]).collidable is Some && classify(
            prect,
            ents[i].rect,
        ) == Anchor::Middle && anchor_dir(rel[i]).1 != 0)
}

/// Without a vertical contact the fold never touches the vertical
/// speed, the ground flag or the jump budget.
proof fn lemma_resolve_fold_keeps_vy(
    ents: Seq<Entity>,
    rel: Seq<Anchor>,
    prect: Rect,
    acc: (int, int, int, int, bool, int),
)
    requires
        rel.len() == ents.len(),
        no_vertical_contact(ents, rel, prect),
    ensures
        resolve_fold(ents, rel, prect, acc).3 == acc.3,
        resolve_fold(ents, rel, prect, acc).4 == acc.4,
        resolve_fold(ents, rel, prect, acc).5 == acc.5,
    decreases ents.len(),
{
    if ents.len() > 0 {
        assert(!(ents[0].collidable is Some && classify(prect, ents[0].rect) == Anchor::Middle
            && anchor_dir(rel[0]).1 != 0));
        let acc1 = resolve_step(acc, ents[0], rel[0], prect);
        assert(acc1.3 == acc.3 && acc1.4 == acc.4 && acc1.5 == acc.5);
        assert(no_vertical_contact(ents.drop_first(), rel.drop_first(), prect)) by {
            assert forall|i: int|
                0 <= i < ents.drop_first().len() implies !((#[trigger] ents.drop_first()[i]).collidable
                is Some && classify(prect, ents.drop_first()[i].rect) == Anchor::Middle
                && anchor_dir(rel.drop_first()[i]).1 != 0) by {
                assert(ents.drop_first()[i] == ents[i + 1]);
                assert(rel.drop_first()[i] == rel[i + 1]);
            }
        }
        lemma_resolve_fold_keeps_vy(ents.drop_first(), rel.drop_first(), prect, acc1);
    }
}

/// Gravity monotonicity: a tick in which no jump fires (no press, or
/// the latch is cleared, or the budget is empty) and no vertical
/// collision contact resolves lowers the player's vertical speed by
/// exactly the gravity constant.
pub proof fn lemma_gravity_monotonic(ents: Seq<Entity>, pidx: int, inp: InputState)
    requires
        is_first_player(ents, pidx),
        !(inp.jump && player_of(ents[pidx]).can_jump && player_of(ents[pidx]).jump_count > 0),
        -COORD_LIMIT <= player_of(ents[pidx]).speed.1 <= COORD_LIMIT,
        no_vertical_contact(
            kinematics_spec(ents, pidx, inp),
            rel_spec(ents, ents[pidx].rect),
            kinematics_spec(ents, pidx, inp)[pidx].rect,
        ),
    ensures
        player_of(tick_entities(ents, pidx, inp)[pidx]).speed.1 == player_of(
            ents[pidx],
        ).speed.1 - GRAVITY,
{
    let p0 = player_of(ents[pidx]);
    let p1 = intent_spec(p0, inp);
    assert(p1.speed.1 == p0.speed.1 - GRAVITY);
    let s3 = kinematics_spec(ents, pidx, inp);
    let e3 = s3[pidx];
    let p3 = player_of(e3);
    assert(p3.speed.1 == p0.speed.1 - GRAVITY);
    let rel = rel_spec(ents, ents[pidx].rect);
    let acc0 = (
        e3.rect.x as int,
        e3.rect.y as int,
        p3.speed.0 as int,
        p3.speed.1 as int,
        false,
        p3.jump_count as int,
    );
    lemma_resolve_fold_keeps_vy(s3, rel, e3.rect, acc0);
}

/// A firing jump survives the whole tick: with the fresh-press latch
/// armed and budget left, a jump tick that resolves no vertical
/// contact ends with the vertical speed at the undamped impulse, the
/// latch cleared, the player off the ground, and the budget kept by a
/// grounded jump or spent by an airborne one.
pub proof fn lemma_jump_tick_impulse(ents: Seq<Entity>, pidx: int, inp: InputState)
    requires
        is_first_player(ents, pidx),
        inp.jump,
        player_of(ents[pidx]).can_jump,
        0 < player_of(ents[pidx]).jump_count,
        no_vertical_contact(
            kinematics_spec(ents, pidx, inp),
            rel_spec(ents, ents[pidx].rect),
            kinematics_spec(ents, pidx, inp)[pidx].rect,
        ),
    ensures
        ({
            let p0 = player_of(ents[pidx]);
            let q = player_of(tick_entities(ents, pidx, inp)[pidx]);
            &&& q.speed.1 == PLAYER_JUMP
            &&& !q.can_jump
            &&& !q.on_ground
            &&& q.jump_count == (if p0.on_ground {
                p0.jump_count as int
            } else {
                p0.jump_count - 1
            })
        }),
{
    let p0 = player_of(ents[pidx]);
    let p1 = intent_spec(p0, inp);
    assert(p1.speed.1 == PLAYER_JUMP && !p1.can_jump);
    let s3 = kinematics_spec(ents, pidx, inp);
    let e3 = s3[pidx];
    let p3 = player_of(e3);
    assert(p3.speed.1 == PLAYER_JUMP && !p3.can_jump && p3.jump_count == p1.jump_count);
    let rel = rel_spec(ents, ents[pidx].rect);
    let acc0 = (
        e3.rect.x as int,
        e3.rect.y as int,
        p3.speed.0 as int,
        p3.speed.1 as int,
        false,
        p3.jump_count as int,
    );
    lemma_resolve_fold_keeps_vy(s3, rel, e3.rect, acc0);
}

/// Every survivor of a removal by name carries none of the listed
/// names.
proof fn lemma_remove_names_no_listed(ents: Seq<Entity>, names: Seq<Seq<char>>)
    ensures
        forall|k: int|
            0 <= k < remove_names_spec(ents, names).len() ==> !name_in(
                names,
                (#[trigger] remove_names_spec(ents, names)[k]).obj.name@,
            ),
    decreases ents.len(),
{
    if ents.len() > 0 {
        lemma_remove_names_no_listed(ents.drop_last(), names);
    }
}

/// Every survivor of a removal by name is one of the original entities.
proof fn lemma_remove_names_members(ents: Seq<Entity>, names: Seq<Seq<char>>)
    ensures
        forall|k: int|
            0 <= k < remove_names_spec(ents, names).len() ==> exists|j: int|
                0 <= j < ents.len() && #[trigger] remove_names_spec(ents, names)[k] == ents[j],
    decreases ents.len(),
{
    if ents.len() > 0 {
        lemma_remove_names_members(ents.drop_last(), names);
        assert forall|k: int|
            0 <= k < remove_names_spec(ents, names).len() implies exists|j: int|
            0 <= j < ents.len() && #[trigger] remove_names_spec(ents, names)[k] == ents[j] by {
            let prev = remove_names_spec(ents.drop_last(), names);
            if k < prev.len() {
                let j = choose|j: int|
                    0 <= j < ents.drop_last().len() && prev[k] == ents.drop_last()[j];
                assert(ents.drop_last()[j] == ents[j]);
                assert(remove_names_spec(ents, names)[k] == ents[j]);
            } else {
                assert(remove_names_spec(ents, names)[k] == ents.last());
                assert(ents.last() == ents[ents.len() - 1]);
            }
        }
    }
}

/// A touched coin's name always makes the queued list.
proof fn lemma_coin_names_complete(ents: Seq<Entity>, prect: Rect)
    ensures
        forall|k: int|
            0 <= k < ents.len() && is_touched_coin(#[trigger] ents[k], prect) ==> name_in(
                coin_names(ents, prect),
                ents[k].obj.name@,
            ),
    decreases ents.len(),
{
    if ents.len() > 0 {
        lemma_coin_names_complete(ents.drop_last(), prect);
        assert forall|k: int|
            0 <= k < ents.len() && is_touched_coin(#[trigger] ents[k], prect) implies name_in(
            coin_names(ents, prect),
            ents[k].obj.name@,
        ) by {
            let init = coin_names(ents.drop_last(), prect);
            if k < ents.len() - 1 {
                assert(ents.drop_last()[k] == ents[k]);
                let t = choose|t: int| 0 <= t < init.len() && init[t] == ents[k].obj.name@;
                if is_touched_coin(ents.last(), prect) {
                    assert(coin_names(ents, prect)[t] == init[t]);
                } else {
                    assert(coin_names(ents, prect) == init);
                }
            } else {
                assert(ents[k] == ents.last());
                let full = coin_names(ents, prect);
                assert(full[full.len() - 1] == ents.last().obj.name@);
            }
        }
    }
}

/// With no touched coin present, nothing is queued.
proof fn lemma_coin_names_empty(ents: Seq<Entity>, prect: Rect)
    requires
        forall|k: int| 0 <= k < ents.len() ==> !is_touched_coin(#[trigger] ents[k], prect),
    ensures
        coin_names(ents, prect).len() == 0,
    decreases ents.len(),
{
    if ents.len() > 0 {
        assert(forall|k: int| 0 <= k < ents.drop_last().len() ==> ents.drop_last()[k] == ents[k]);
        lemma_coin_names_empty(ents.drop_last(), prect);
    }
}

/// Coin pickup is idempotent: once the touched coins of one pass are
/// removed, a second pass over the survivors, against the same player
/// rectangle, queues nothing — an already-removed coin cannot score
/// again.
pub proof fn lemma_coin_pickup_idempotent(ents: Seq<Entity>, prect: Rect)
    ensures
        coin_names(remove_names_spec(ents, coin_names(ents, prect)), prect).len() == 0,
{
    let names = coin_names(ents, prect);
    let kept = remove_names_spec(ents, names);
    lemma_remove_names_no_listed(ents, names);
    lemma_remove_names_members(ents, names);
    lemma_coin_names_complete(ents, prect);
    assert forall|k: int| 0 <= k < kept.len() implies !is_touched_coin(
        #[trigger] kept[k],
        prect,
    ) by {
        if is_touched_coin(kept[k], prect) {
            let j = choose|j: int| 0 <= j < ents.len() && kept[k] == ents[j];
            assert(name_in(names, ents[j].obj.name@));
            assert(!name_in(names, kept[k].obj.name@));
        }
    }
    lemma_coin_names_empty(kept, prect);
}

} // verus!
