//! Level data: the immutable description of one level, as produced by an
//! external loader.  Positions and sizes are unscaled integer level units.

use vstd::prelude::*;

use crate::components::{
    track_bounded, CollidableComp, InteractableComp, MovableComp, ObjectComp, ObjectType,
    PlayerComp,
};
use crate::rect::{Anchor, Rect};
use crate::scene::{wf_entity, wf_scene, Entity, Scene};
use crate::COORD_LIMIT;

verus! {

/// One waypoint of a scripted mover: when the mover's position equals
/// `pos`, its speed becomes `speed`.
#[derive(Clone, Copy, Debug)]
pub struct Track {
    pub pos: (i32, i32),
    pub speed: (i32, i32),
}

/// The player spawn: position, size and colour.
pub struct Player {
    pub pos: (i32, i32),
    pub size: (u32, u32),
    pub color: (u32, u32, u32),
}

/// A goal object: touching it wins the level.
pub struct Target {
    pub name: String,
    pub pos: (i32, i32),
    pub size: (u32, u32),
    pub color: (u32, u32, u32),
}

/// A collectible coin: touching it scores a point and removes it.
pub struct Coin {
    pub name: String,
    pub pos: (i32, i32),
    pub size: (u32, u32),
    pub color: (u32, u32, u32),
}

/// A switch the player can trigger; carries scripted commands.
pub struct Switch {
    pub name: String,
    pub pos: (i32, i32),
    pub size: (u32, u32),
    pub color: (u32, u32, u32),
}

/// An enemy that patrols along a track; touching it loses the level.
pub struct Monster {
    pub name: String,
    pub track: Vec<Track>,
    pub size: (u32, u32),
    pub color: (u32, u32, u32),
}

/// A moving platform that follows a track and blocks the player.
pub struct Elevator {
    pub name: String,
    pub track: Vec<Track>,
    pub size: (u32, u32),
    pub color: (u32, u32, u32),
}

/// A static blocker.
pub struct Obstacle {
    pub name: String,
    pub pos: (i32, i32),
    pub size: (u32, u32),
    pub color: (u32, u32, u32),
}

/// The font of a decorative text: a family name and a point size.
pub struct Font {
    pub family: String,
    pub size: u32,
}

/// A decorative text placed on the map; it takes no part in the tick.
pub struct Description {
    pub name: String,
    pub pos: (i32, i32),
    pub size: (i32, i32),
    pub text: String,
    pub font: Font,
    pub color: (u32, u32, u32),
}

/// One level: the map size and the typed spawn lists.  Immutable after
/// load; the source of truth for the initial scene.
pub struct GameMap {
    pub size: (u32, u32),
    pub player: Player,
    pub targets: Vec<Target>,
    pub coins: Vec<Coin>,
    pub switches: Vec<Switch>,
    pub monsters: Vec<Monster>,
    pub elevators: Vec<Elevator>,
    pub obstacles: Vec<Obstacle>,
    pub descriptions: Vec<Description>,
}

/// Both coordinates lie within the coordinate bound.
pub open spec fn bounded_pos(p: (i32, i32)) -> bool {
    &&& -COORD_LIMIT <= p.0 <= COORD_LIMIT
    &&& -COORD_LIMIT <= p.1 <= COORD_LIMIT
}

/// Both extents are strictly positive and within the coordinate bound.
pub open spec fn bounded_size(s: (u32, u32)) -> bool {
    &&& 1 <= s.0 <= COORD_LIMIT
    &&& 1 <= s.1 <= COORD_LIMIT
}

/// A usable mover track: at least one waypoint, a bounded spawn position
/// and bounded waypoint speeds.
pub open spec fn wf_track_list(t: Seq<Track>) -> bool {
    &&& t.len() > 0
    &&& bounded_pos(t[0].pos)
    &&& track_bounded(t)
}

/// A valid level: every spawn within the coordinate bound and every
/// mover with a usable track.  The loader must only hand in maps that
/// satisfy this.
pub open spec fn wf_map(m: GameMap) -> bool {
    &&& bounded_size(m.size)
    &&& bounded_pos(m.player.pos) && bounded_size(m.player.size)
    &&& forall|i: int| 0 <= i < m.targets@.len() ==> bounded_pos(
        (#[trigger] m.targets@[i]).pos,
    ) && bounded_size(m.targets@[i].size)
    &&& forall|i: int| 0 <= i < m.coins@.len() ==> bounded_pos((#[trigger] m.coins@[i]).pos)
        && bounded_size(m.coins@[i].size)
    &&& forall|i: int| 0 <= i < m.switches@.len() ==> bounded_pos(
        (#[trigger] m.switches@[i]).pos,
    ) && bounded_size(m.switches@[i].size)
    &&& forall|i: int| 0 <= i < m.monsters@.len() ==> wf_track_list(
        (#[trigger] m.monsters@[i]).track@,
    ) && bounded_size(m.monsters@[i].size)
    &&& forall|i: int| 0 <= i < m.elevators@.len() ==> wf_track_list(
        (#[trigger] m.elevators@[i]).track@,
    ) && bounded_size(m.elevators@[i].size)
    &&& forall|i: int| 0 <= i < m.obstacles@.len() ==> bounded_pos(
        (#[trigger] m.obstacles@[i]).pos,
    ) && bounded_size(m.obstacles@[i].size)
}

/// The rectangle of a spawned object: position at the top-left pivot,
/// size converted to signed level units.
pub open spec fn spawn_rect(pos: (i32, i32), size: (u32, u32)) -> Rect {
    Rect {
        x: pos.0,
        y: pos.1,
        w: size.0 as i32,
        h: size.1 as i32,
        pivot: Anchor::TopLeft,
    }
}

/// The entity a player spawn produces.
pub open spec fn is_player_entity(e: Entity, p: Player) -> bool {
    &&& e.obj.name@ == "player"@
    &&& e.obj.type_ == ObjectType::Player
    &&& e.rect == spawn_rect(p.pos, p.size)
    &&& e.color == p.color
    &&& e.player matches Some(pc) && pc.name@ == "player"@ && !pc.can_jump && !pc.on_ground
        && pc.jump_count == 0 && pc.speed == (0i32, 0i32) && pc.last_pos is None
    &&& e.movable is None
    &&& e.collidable is None
    &&& e.interactable is None
}

/// The entity a target spawn produces.
pub open spec fn is_target_entity(e: Entity, t: Target) -> bool {
    &&& e.obj.name == t.name
    &&& e.obj.type_ == ObjectType::Target
    &&& e.rect == spawn_rect(t.pos, t.size)
    &&& e.color == t.color
    &&& e.player is None
    &&& e.movable is None
    &&& e.collidable is None
    &&& e.interactable matches Some(ic) && ic.name == t.name && ic.state@ == "close"@
        && ic.command@.len() == 0
}

/// The entity a coin spawn produces.
pub open spec fn is_coin_entity(e: Entity, c: Coin) -> bool {
    &&& e.obj.name == c.name
    &&& e.obj.type_ == ObjectType::Coin
    &&& e.rect == spawn_rect(c.pos, c.size)
    &&& e.color == c.color
    &&& e.player is None
    &&& e.movable is None
    &&& e.collidable is None
    &&& e.interactable matches Some(ic) && ic.name == c.name && ic.state@ == "close"@
        && ic.command@.len() == 0
}

/// The entity a switch spawn produces.
pub open spec fn is_switch_entity(e: Entity, s: Switch) -> bool {
    &&& e.obj.name == s.name
    &&& e.obj.type_ == ObjectType::Switch
    &&& e.rect == spawn_rect(s.pos, s.size)
    &&& e.color == s.color
    &&& e.player is None
    &&& e.movable is None
    &&& e.collidable is None
    &&& e.interactable matches Some(ic) && ic.name == s.name && ic.state@ == "close"@
        && ic.command@.len() == 0
}

/// The entity a monster spawn produces: placed at its first waypoint,
/// scripted to move, interactable but not a blocker.
pub open spec fn is_monster_entity(e: Entity, m: Monster) -> bool {
    &&& e.obj.name == m.name
    &&& e.obj.type_ == ObjectType::Monster
    &&& e.rect == spawn_rect(m.track@[0].pos, m.size)
    &&& e.color == m.color
    &&& e.player is None
    &&& e.movable matches Some(mc) && mc.name == m.name && mc.track@ == m.track@ && mc.speed == (
        0i32,
        0i32,
    )
    &&& e.collidable is None
    &&& e.interactable matches Some(ic) && ic.name == m.name && ic.state@ == "close"@
        && ic.command@.len() == 0
}

/// The entity an elevator spawn produces: placed at its first waypoint,
/// scripted to move, and a blocker.
pub open spec fn is_elevator_entity(e: Entity, el: Elevator) -> bool {
    &&& e.obj.name == el.name
    &&& e.obj.type_ == ObjectType::Elevator
    &&& e.rect == spawn_rect(el.track@[0].pos, el.size)
    &&& e.color == el.color
    &&& e.player is None
    &&& e.movable matches Some(mc) && mc.name == el.name && mc.track@ == el.track@ && mc.speed
        == (0i32, 0i32)
    &&& e.collidable matches Some(cc) && cc.name == el.name
    &&& e.interactable is None
}

/// The entity an obstacle spawn produces: a plain static blocker.
pub open spec fn is_obstacle_entity(e: Entity, o: Obstacle) -> bool {
    &&& e.obj.name == o.name
    &&& e.obj.type_ == ObjectType::Obstacle
    &&& e.rect == spawn_rect(o.pos, o.size)
    &&& e.color == o.color
    &&& e.player is None
    &&& e.movable is None
    &&& e.collidable matches Some(cc) && cc.name == o.name
    &&& e.interactable is None
}

/// Copy a track waypoint for waypoint.
fn copy_track(track: &Vec<Track>) -> (r: Vec<Track>)
    ensures
        r@ == track@,
{
    let n = track.len();
    let mut r: Vec<Track> = Vec::new();
    let mut i: usize = 0;
    while i < n
        invariant
            n == track@.len(),
            0 <= i <= n,
            r@ =~= track@.take(i as int),
        decreases n - i,
    {
        r.push(track[i]);
        proof {
            assert(r@ =~= track@.take(i as int + 1));
        }
        i = i + 1;
    }
    proof {
        assert(track@.take(n as int) =~= track@);
    }
    r
}

impl Player {
    /// Build the scene entity for the player spawn.
    pub fn initialize(&self) -> (e: Entity)
        ensures
            is_player_entity(e, *self),
    {
        Entity {
            obj: ObjectComp::new("player".to_string(), ObjectType::Player),
            rect: Rect {
                x: self.pos.0,
                y: self.pos.1,
                w: self.size.0 as i32,
                h: self.size.1 as i32,
                pivot: Anchor::TopLeft,
            },
            color: self.color,
            player: Some(PlayerComp::new("player".to_string())),
            movable: None,
            collidable: None,
            interactable: None,
        }
    }
}

impl Target {
    /// Build the scene entity for this target spawn.
    pub fn initialize(&self) -> (e: Entity)
        ensures
            is_target_entity(e, *self),
    {
        Entity {
            obj: ObjectComp::new(self.name.clone(), ObjectType::Target),
            rect: Rect {
                x: self.pos.0,
                y: self.pos.1,
                w: self.size.0 as i32,
                h: self.size.1 as i32,
                pivot: Anchor::TopLeft,
            },
            color: self.color,
            player: None,
            movable: None,
            collidable: None,
            interactable: Some(InteractableComp::new(self.name.clone(), Vec::new())),
        }
    }
}

impl Coin {
    /// Build the scene entity for this coin spawn.
    pub fn initialize(&self) -> (e: Entity)
        ensures
            is_coin_entity(e, *self),
    {
        Entity {
            obj: ObjectComp::new(self.name.clone(), ObjectType::Coin),
            rect: Rect {
                x: self.pos.0,
                y: self.pos.1,
                w: self.size.0 as i32,
                h: self.size.1 as i32,
                pivot: Anchor::TopLeft,
            },
            color: self.color,
            player: None,
            movable: None,
            collidable: None,
            interactable: Some(InteractableComp::new(self.name.clone(), Vec::new())),
        }
    }
}

impl Switch {
    /// Build the scene entity for this switch spawn.
    pub fn initialize(&self) -> (e: Entity)
        ensures
            is_switch_entity(e, *self),
    {
        Entity {
            obj: ObjectComp::new(self.name.clone(), ObjectType::Switch),
            rect: Rect {
                x: self.pos.0,
                y: self.pos.1,
                w: self.size.0 as i32,
                h: self.size.1 as i32,
                pivot: Anchor::TopLeft,
            },
            color: self.color,
            player: None,
            movable: None,
            collidable: None,
            interactable: Some(InteractableComp::new(self.name.clone(), Vec::new())),
        }
    }
}

impl Monster {
    /// Build the scene entity for this monster spawn.
    pub fn initialize(&self) -> (e: Entity)
        requires
            self.track@.len() > 0,
        ensures
            is_monster_entity(e, *self),
    {
        let first = track_first(&self.track);
        Entity {
            obj: ObjectComp::new(self.name.clone(), ObjectType::Monster),
            rect: Rect {
                x: first.pos.0,
                y: first.pos.1,
                w: self.size.0 as i32,
                h: self.size.1 as i32,
                pivot: Anchor::TopLeft,
            },
            color: self.color,
            player: None,
            movable: Some(MovableComp::new(self.name.clone(), copy_track(&self.track))),
            collidable: None,
            interactable: Some(InteractableComp::new(self.name.clone(), Vec::new())),
        }
    }
}

impl Elevator {
    /// Build the scene entity for this elevator spawn.
    pub fn initialize(&self) -> (e: Entity)
        requires
            self.track@.len() > 0,
        ensures
            is_elevator_entity(e, *self),
    {
        let first = track_first(&self.track);
        Entity {
            obj: ObjectComp::new(self.name.clone(), ObjectType::Elevator),
            rect: Rect {
                x: first.pos.0,
                y: first.pos.1,
                w: self.size.0 as i32,
                h: self.size.1 as i32,
                pivot: Anchor::TopLeft,
            },
            color: self.color,
            player: None,
            movable: Some(MovableComp::new(self.name.clone(), copy_track(&self.track))),
            collidable: Some(CollidableComp::new(self.name.clone())),
            interactable: None,
        }
    }
}

impl Obstacle {
    /// Build the scene entity for this obstacle spawn.
    pub fn initialize(&self) -> (e: Entity)
        ensures
            is_obstacle_entity(e, *self),
    {
        Entity {
            obj: ObjectComp::new(self.name.clone(), ObjectType::Obstacle),
            rect: Rect {
                x: self.pos.0,
                y: self.pos.1,
                w: self.size.0 as i32,
                h: self.size.1 as i32,
                pivot: Anchor::TopLeft,
            },
            color: self.color,
            player: None,
            movable: None,
            collidable: Some(CollidableComp::new(self.name.clone())),
            interactable: None,
        }
    }
}

/// The first waypoint of a non-empty track.
fn track_first(track: &Vec<Track>) -> (t: Track)
    requires
        track@.len() > 0,
    ensures
        t == track@[0],
{
    track[0]
}

/// The scene a level produces at load: the player entity first, then the
/// targets, coins, switches, monsters, elevators and obstacles, each list
/// in order, with the camera offset at the origin.
pub open spec fn initialized_scene(s: Scene, m: GameMap) -> bool {
    let nt = m.targets@.len() as int;
    let nc = m.coins@.len() as int;
    let ns = m.switches@.len() as int;
    let nm = m.monsters@.len() as int;
    let ne = m.elevators@.len() as int;
    let no = m.obstacles@.len() as int;
    &&& s.size == m.size
    &&& s.offset == (0i32, 0i32)
    &&& s.entities@.len() == 1 + nt + nc + ns + nm + ne + no
    &&& is_player_entity(s.entities@[0], m.player)
    &&& forall|i: int| 0 <= i < nt ==> is_target_entity(
        s.entities@[1 + i],
        #[trigger] m.targets@[i],
    )
    &&& forall|i: int| 0 <= i < nc ==> is_coin_entity(
        s.entities@[1 + nt + i],
        #[trigger] m.coins@[i],
    )
    &&& forall|i: int| 0 <= i < ns ==> is_switch_entity(
        s.entities@[1 + nt + nc + i],
        #[trigger] m.switches@[i],
    )
    &&& forall|i: int| 0 <= i < nm ==> is_monster_entity(
        s.entities@[1 + nt + nc + ns + i],
        #[trigger] m.monsters@[i],
    )
    &&& forall|i: int| 0 <= i < ne ==> is_elevator_entity(
        s.entities@[1 + nt + nc + ns + nm + i],
        #[trigger] m.elevators@[i],
    )
    &&& forall|i: int| 0 <= i < no ==> is_obstacle_entity(
        s.entities@[1 + nt + nc + ns + nm + ne + i],
        #[trigger] m.obstacles@[i],
    )
}

impl GameMap {
    /// Instantiate the level: build the full initial scene from the spawn
    /// lists, in the declared order.
    pub fn initialize(&self) -> (s: Scene)
        requires
            wf_map(*self),
        ensures
            initialized_scene(s, *self),
            wf_scene(s),
    {
        let mut entities: Vec<Entity> = Vec::new();
        entities.push(self.player.initialize());

        let mut i: usize = 0;
        let n_t = self.targets.len();
        while i < n_t
            invariant
                n_t == self.targets@.len(),
                0 <= i <= n_t,
                entities@.len() == 1 + i,
                is_player_entity(entities@[0], self.player),
                forall|j: int| 0 <= j < i ==> is_target_entity(
                    entities@[1 + j],
                    #[trigger] self.targets@[j],
                ),
            decreases n_t - i,
        {
            entities.push(self.targets[i].initialize());
            i = i + 1;
        }

        let ghost bt = 1 + self.targets@.len() as int;
        let mut i: usize = 0;
        let n_c = self.coins.len();
        while i < n_c
            invariant
                n_c == self.coins@.len(),
                0 <= i <= n_c,
                bt == 1 + self.targets@.len(),
                entities@.len() == bt + i,
                is_player_entity(entities@[0], self.player),
                forall|j: int| 0 <= j < self.targets@.len() ==> is_target_entity(
                    entities@[1 + j],
                    #[trigger] self.targets@[j],
                ),
                forall|j: int| 0 <= j < i ==> is_coin_entity(
                    entities@[bt + j],
                    #[trigger] self.coins@[j],
                ),
            decreases n_c - i,
        {
            entities.push(self.coins[i].initialize());
            i = i + 1;
        }

        let ghost bs = bt + self.coins@.len() as int;
        let mut i: usize = 0;
        let n_s = self.switches.len();
        while i < n_s
            invariant
                n_s == self.switches@.len(),
                0 <= i <= n_s,
                bt == 1 + self.targets@.len(),
                bs == bt + self.coins@.len(),
                entities@.len() == bs + i,
                is_player_entity(entities@[0], self.player),
                forall|j: int| 0 <= j < self.targets@.len() ==> is_target_entity(
                    entities@[1 + j],
                    #[trigger] self.targets@[j],
                ),
                forall|j: int| 0 <= j < self.coins@.len() ==> is_coin_entity(
                    entities@[bt + j],
                    #[trigger] self.coins@[j],
                ),
                forall|j: int| 0 <= j < i ==> is_switch_entity(
                    entities@[bs + j],
                    #[trigger] self.switches@[j],
                ),
            decreases n_s - i,
        {
            entities.push(self.switches[i].initialize());
            i = i + 1;
        }

        let ghost bm = bs + self.switches@.len() as int;
        let mut i: usize = 0;
        let n_m = self.monsters.len();
        while i < n_m
            invariant
                n_m == self.monsters@.len(),
                0 <= i <= n_m,
                bt == 1 + self.targets@.len(),
                bs == bt + self.coins@.len(),
                bm == bs + self.switches@.len(),
                wf_map(*self),
                entities@.len() == bm + i,
                is_player_entity(entities@[0], self.player),
                forall|j: int| 0 <= j < self.targets@.len() ==> is_target_entity(
                    entities@[1 + j],
                    #[trigger] self.targets@[j],
                ),
                forall|j: int| 0 <= j < self.coins@.len() ==> is_coin_entity(
                    entities@[bt + j],
                    #[trigger] self.coins@[j],
                ),
                forall|j: int| 0 <= j < self.switches@.len() ==> is_switch_entity(
                    entities@[bs + j],
                    #[trigger] self.switches@[j],
                ),
                forall|j: int| 0 <= j < i ==> is_monster_entity(
                    entities@[bm + j],
                    #[trigger] self.monsters@[j],
                ),
            decreases n_m - i,
        {
            entities.push(self.monsters[i].initialize());
            i = i + 1;
        }

        let ghost be = bm + self.monsters@.len() as int;
        let mut i: usize = 0;
        let n_e = self.elevators.len();
        while i < n_e
            invariant
                n_e == self.elevators@.len(),
                0 <= i <= n_e,
                bt == 1 + self.targets@.len(),
                bs == bt + self.coins@.len(),
                bm == bs + self.switches@.len(),
                be == bm + self.monsters@.len(),
                wf_map(*self),
                entities@.len() == be + i,
                is_player_entity(entities@[0], self.player),
                forall|j: int| 0 <= j < self.targets@.len() ==> is_target_entity(
                    entities@[1 + j],
                    #[trigger] self.targets@[j],
                ),
                forall|j: int| 0 <= j < self.coins@.len() ==> is_coin_entity(
                    entities@[bt + j],
                    #[trigger] self.coins@[j],
                ),
                forall|j: int| 0 <= j < self.switches@.len() ==> is_switch_entity(
                    entities@[bs + j],
                    #[trigger] self.switches@[j],
                ),
                forall|j: int| 0 <= j < self.monsters@.len() ==> is_monster_entity(
                    entities@[bm + j],
                    #[trigger] self.monsters@[j],
                ),
                forall|j: int| 0 <= j < i ==> is_elevator_entity(
                    entities@[be + j],
                    #[trigger] self.elevators@[j],
                ),
            decreases n_e - i,
        {
            entities.push(self.elevators[i].initialize());
            i = i + 1;
        }

        let ghost bo = be + self.elevators@.len() as int;
        let mut i: usize = 0;
        let n_o = self.obstacles.len();
        while i < n_o
            invariant
                n_o == self.obstacles@.len(),
                0 <= i <= n_o,
                bt == 1 + self.targets@.len(),
                bs == bt + self.coins@.len(),
                bm == bs + self.switches@.len(),
                be == bm + self.monsters@.len(),
                bo == be + self.elevators@.len(),
                entities@.len() == bo + i,
                is_player_entity(entities@[0], self.player),
                forall|j: int| 0 <= j < self.targets@.len() ==> is_target_entity(
                    entities@[1 + j],
                    #[trigger] self.targets@[j],
                ),
                forall|j: int| 0 <= j < self.coins@.len() ==> is_coin_entity(
                    entities@[bt + j],
                    #[trigger] self.coins@[j],
                ),
                forall|j: int| 0 <= j < self.switches@.len() ==> is_switch_entity(
                    entities@[bs + j],
                    #[trigger] self.switches@[j],
                ),
                forall|j: int| 0 <= j < self.monsters@.len() ==> is_monster_entity(
                    entities@[bm + j],
                    #[trigger] self.monsters@[j],
                ),
                forall|j: int| 0 <= j < self.elevators@.len() ==> is_elevator_entity(
                    entities@[be + j],
                    #[trigger] self.elevators@[j],
                ),
                forall|j: int| 0 <= j < i ==> is_obstacle_entity(
                    entities@[bo + j],
                    #[trigger] self.obstacles@[j],
                ),
            decreases n_o - i,
        {
            entities.push(self.obstacles[i].initialize());
            i = i + 1;
        }

        let s = Scene { size: self.size, offset: (0, 0), entities };
        proof {
            lemma_initialized_wf(s, *self);
        }
        s
    }
}

/// A freshly initialized scene of a valid level is well formed.
proof fn lemma_initialized_wf(s: Scene, m: GameMap)
    requires
        wf_map(m),
        initialized_scene(s, m),
    ensures
        wf_scene(s),
{
    let nt = m.targets@.len() as int;
    let nc = m.coins@.len() as int;
    let ns = m.switches@.len() as int;
    let nm = m.monsters@.len() as int;
    let ne = m.elevators@.len() as int;
    let no = m.obstacles@.len() as int;
    assert forall|i: int| 0 <= i < s.entities@.len() implies wf_entity(
        #[trigger] s.entities@[i],
    ) by {
        if i == 0 {
        } else if i < 1 + nt {
            assert(is_target_entity(s.entities@[i], m.targets@[i - 1]));
        } else if i < 1 + nt + nc {
            assert(is_coin_entity(s.entities@[i], m.coins@[i - 1 - nt]));
        } else if i < 1 + nt + nc + ns {
            assert(is_switch_entity(s.entities@[i], m.switches@[i - 1 - nt - nc]));
        } else if i < 1 + nt + nc + ns + nm {
            assert(is_monster_entity(s.entities@[i], m.monsters@[i - 1 - nt - nc - ns]));
        } else if i < 1 + nt + nc + ns + nm + ne {
            assert(is_elevator_entity(s.entities@[i], m.elevators@[i - 1 - nt - nc - ns - nm]));
        } else {
            assert(is_obstacle_entity(
                s.entities@[i],
                m.obstacles@[i - 1 - nt - nc - ns - nm - ne],
            ));
        }
    }
}

} // verus!
