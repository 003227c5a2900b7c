//! Attribute records attached to scene entities: identity, player state,
//! scripted movement, collision participation and scripted interaction.

use vstd::prelude::*;

use crate::map::Track;
use crate::rect::Rect;
use crate::COORD_LIMIT;

verus! {

/// Marker component of the one camera entity.
#[derive(Default)]
pub struct CameraComp;

/// Tag of the camera-follow pass; the engine-side scheduling around it
/// belongs to the front end, the follow computation itself to the
/// camera module.
#[derive(Default)]
pub struct CameraSystem;

/// Marker component of the map background entity.
#[derive(Default)]
pub struct MapComp;

/// Marker component of a purely decorative text entity.
#[derive(Default)]
pub struct DescriptionComp;

/// The category of a spawned game entity; drives dispatch in the
/// interaction engine.
#[derive(Clone, Copy, Debug, PartialEq, Eq, Structural)]
pub enum ObjectType {
    Player,
    Target,
    Coin,
    Switch,
    Monster,
    Elevator,
    Obstacle,
}

/// Identity of a game entity: a name and a category.
pub struct ObjectComp {
    pub name: String,
    pub type_: ObjectType,
}

impl ObjectComp {
    pub fn new(name: String, type_: ObjectType) -> (o: ObjectComp)
        ensures
            o.name == name,
            o.type_ == type_,
    {
        ObjectComp { name, type_ }
    }
}

/// Per-session player state: speeds in level units per tick, the jump
/// edge-trigger latch, ground contact, remaining mid-air jumps and the
/// last resolved position.
pub struct PlayerComp {
    pub name: String,
    pub can_jump: bool,
    pub on_ground: bool,
    pub jump_count: i32,
    pub speed: (i32, i32),
    pub last_pos: Option<(i32, i32)>,
}

impl PlayerComp {
    pub fn new(name: String) -> (p: PlayerComp)
        ensures
            p.name == name,
            !p.can_jump,
            !p.on_ground,
            p.jump_count == 0,
            p.speed == (0i32, 0i32),
            p.last_pos is None,
    {
        PlayerComp {
            name,
            can_jump: false,
            on_ground: false,
            jump_count: 0,
            speed: (0, 0),
            last_pos: None,
        }
    }

    /// The position update of one tick: the rectangle advances by the
    /// current speed and the pre-move position is recorded as the last
    /// resolved position.  Gravity and jump arbitration act on the
    /// speed in the input pass, before this step.
    pub fn move_(&mut self, rect: &mut Rect)
        requires
            i32::MIN <= old(rect).x + old(self).speed.0 <= i32::MAX,
            i32::MIN <= old(rect).y + old(self).speed.1 <= i32::MAX,
        ensures
            final(self).name == old(self).name,
            final(self).can_jump == old(self).can_jump,
            final(self).on_ground == old(self).on_ground,
            final(self).jump_count == old(self).jump_count,
            final(self).speed == old(self).speed,
            final(self).last_pos == Some((old(rect).x, old(rect).y)),
            final(rect).x == old(rect).x + old(self).speed.0,
            final(rect).y == old(rect).y + old(self).speed.1,
            final(rect).w == old(rect).w,
            final(rect).h == old(rect).h,
            final(rect).pivot == old(rect).pivot,
    {
        self.last_pos = Some((rect.x, rect.y));
        rect.x = rect.x + self.speed.0;
        rect.y = rect.y + self.speed.1;
    }
}

/// The speed a scripted mover takes at position `(x, y)`: the speed of the
/// first waypoint whose trigger position matches exactly, or the current
/// speed `cur` when none matches.
pub open spec fn track_speed(track: Seq<Track>, x: i32, y: i32, cur: (i32, i32)) -> (i32, i32)
    decreases track.len(),
{
    if track.len() == 0 {
        cur
    } else if track[0].pos.0 == x && track[0].pos.1 == y {
        track[0].speed
    } else {
        track_speed(track.drop_first(), x, y, cur)
    }
}

/// Both components of a speed lie within the coordinate bound.
pub open spec fn speed_bounded(sp: (i32, i32)) -> bool {
    &&& -COORD_LIMIT <= sp.0 <= COORD_LIMIT
    &&& -COORD_LIMIT <= sp.1 <= COORD_LIMIT
}

/// Every waypoint speed of the track lies within the coordinate bound.
pub open spec fn track_bounded(track: Seq<Track>) -> bool {
    forall|i: int| 0 <= i < track.len() ==> speed_bounded(track[i].speed)
}

/// A speed looked up on a bounded track from a bounded current speed is
/// itself bounded.
pub proof fn lemma_track_speed_bounded(track: Seq<Track>, x: i32, y: i32, cur: (i32, i32))
    requires
        track_bounded(track),
        speed_bounded(cur),
    ensures
        speed_bounded(track_speed(track, x, y, cur)),
    decreases track.len(),
{
    if track.len() == 0 {
    } else if track[0].pos.0 == x && track[0].pos.1 == y {
    } else {
        assert(track_bounded(track.drop_first()));
        lemma_track_speed_bounded(track.drop_first(), x, y, cur);
    }
}

/// First-match waypoint speed lookup, the executable counterpart of
/// [`track_speed`].
pub fn lookup_track_speed(track: &Vec<Track>, x: i32, y: i32, cur: (i32, i32)) -> (sp: (i32,
    i32))
    ensures
        sp == track_speed(track@, x, y, cur),
{
    let n = track.len();
    let mut i: usize = 0;
    proof {
        assert(track@.skip(0) =~= track@);
    }
    while i < n
        invariant
            n == track@.len(),
            0 <= i <= n,
            track_speed(track@, x, y, cur) == track_speed(track@.skip(i as int), x, y, cur),
        decreases n - i,
    {
        let t = track[i];
        proof {
            assert(track@.skip(i as int)[0] == track@[i as int]);
        }
        if t.pos.0 == x && t.pos.1 == y {
            return t.speed;
        }
        proof {
            assert(track@.skip(i as int).drop_first() =~= track@.skip(i as int + 1));
        }
        i = i + 1;
    }
    proof {
        assert(track@.skip(n as int).len() == 0);
    }
    cur
}

/// A scripted mover (monster or elevator): patrols by dead reckoning,
/// changing speed whenever its position hits a track waypoint.
pub struct MovableComp {
    pub name: String,
    pub track: Vec<Track>,
    pub speed: (i32, i32),
}

impl MovableComp {
    pub fn new(name: String, track: Vec<Track>) -> (m: MovableComp)
        ensures
            m.name == name,
            m.track == track,
            m.speed == (0i32, 0i32),
    {
        MovableComp { name, track, speed: (0, 0) }
    }

    /// One kinematics step: the speed is looked up from the track at the
    /// current position (unchanged when no waypoint matches), then the
    /// rectangle advances by that speed.
    pub fn move_(&mut self, rect: &mut Rect)
        requires
            track_bounded(old(self).track@),
            speed_bounded(old(self).speed),
            -3 * COORD_LIMIT <= old(rect).x <= 3 * COORD_LIMIT,
            -3 * COORD_LIMIT <= old(rect).y <= 3 * COORD_LIMIT,
        ensures
            final(self).name == old(self).name,
            final(self).track == old(self).track,
            final(self).speed == track_speed(
                old(self).track@,
                old(rect).x,
                old(rect).y,
                old(self).speed,
            ),
            final(rect).x == old(rect).x + final(self).speed.0,
            final(rect).y == old(rect).y + final(self).speed.1,
            final(rect).w == old(rect).w,
            final(rect).h == old(rect).h,
            final(rect).pivot == old(rect).pivot,
    {
        let sp = lookup_track_speed(&self.track, rect.x, rect.y, self.speed);
        proof {
            lemma_track_speed_bounded(self.track@, rect.x, rect.y, self.speed);
        }
        self.speed = sp;
        rect.x = rect.x + sp.0;
        rect.y = rect.y + sp.1;
    }
}

/// Marks an entity as a physical blocker for the collision resolver.
pub struct CollidableComp {
    pub name: String,
}

impl CollidableComp {
    pub fn new(name: String) -> (c: CollidableComp)
        ensures
            c.name == name,
    {
        CollidableComp { name }
    }
}

/// Scripted interaction state: a current state name and, per state, an
/// ordered list of commands (each a token list) to run when that state is
/// entered or triggered.
pub struct InteractableComp {
    pub name: String,
    pub state: String,
    pub command: Vec<(String, Vec<Vec<String>>)>,
}

impl InteractableComp {
    pub fn new(name: String, command: Vec<(String, Vec<Vec<String>>)>) -> (i: InteractableComp)
        ensures
            i.name == name,
            i.state@ == "close"@,
            i.command == command,
    {
        InteractableComp { name, state: "close".to_string(), command }
    }
}

} // verus!
