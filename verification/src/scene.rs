//! The live scene of one session: an entity registry where every entity
//! carries its identity, rectangle and colour, plus optional attribute
//! records, as well as the verified scene mutations (removal by name,
//! recolouring, scripted interaction commands).

use vstd::prelude::*;

use crate::components::{
    speed_bounded, track_bounded, CollidableComp, InteractableComp, MovableComp, ObjectComp,
    PlayerComp,
};
use crate::rect::Rect;
use crate::utils::{parse_u32, spec_parse_u32, str_eq};
use crate::COORD_LIMIT;

verus! {

/// One spawned game entity: identity and rectangle always, the other
/// attribute records only where the entity takes part in that mechanic.
pub struct Entity {
    pub obj: ObjectComp,
    pub rect: Rect,
    pub color: (u32, u32, u32),
    pub player: Option<PlayerComp>,
    pub movable: Option<MovableComp>,
    pub collidable: Option<CollidableComp>,
    pub interactable: Option<InteractableComp>,
}

/// The live scene of one session: map size, the map's display offset
/// (moved by the camera controller) and the entity registry.  Decorative
/// texts stay in the level data; the tick never reads them.
pub struct Scene {
    pub size: (u32, u32),
    pub offset: (i32, i32),
    pub entities: Vec<Entity>,
}

/// A rectangle whose coordinates and strictly positive sizes lie within
/// the coordinate bound.
pub open spec fn wf_rect(r: Rect) -> bool {
    &&& -COORD_LIMIT <= r.x <= COORD_LIMIT
    &&& -COORD_LIMIT <= r.y <= COORD_LIMIT
    &&& 0 < r.w <= COORD_LIMIT
    &&& 0 < r.h <= COORD_LIMIT
}

/// A well-formed entity: bounded rectangle, bounded speeds and track
/// waypoints, and a non-negative jump budget.
pub open spec fn wf_entity(e: Entity) -> bool {
    &&& wf_rect(e.rect)
    &&& (e.player matches Some(p) ==> speed_bounded(p.speed) && p.jump_count >= 0)
    &&& (e.movable matches Some(m) ==> track_bounded(m.track@) && speed_bounded(m.speed))
}

/// A well-formed scene: bounded map size and every entity well formed.
pub open spec fn wf_scene(s: Scene) -> bool {
    &&& 1 <= s.size.0 <= COORD_LIMIT
    &&& 1 <= s.size.1 <= COORD_LIMIT
    &&& forall|i: int| 0 <= i < s.entities@.len() ==> wf_entity(#[trigger] s.entities@[i])
}

/// `i` is the index of the first entity that carries a player record.
pub open spec fn is_first_player(ents: Seq<Entity>, i: int) -> bool {
    &&& 0 <= i < ents.len()
    &&& ents[i].player is Some
    &&& forall|j: int| 0 <= j < i ==> (#[trigger] ents[j].player) is None
}

/// Some entity carries a player record.
pub open spec fn has_player(ents: Seq<Entity>) -> bool {
    exists|i: int| 0 <= i < ents.len() && (#[trigger] ents[i].player) is Some
}

/// Index of the first entity carrying a player record, if any.
pub fn find_player(entities: &Vec<Entity>) -> (r: Option<usize>)
    ensures
        r matches Some(i) ==> is_first_player(entities@, i as int),
        r is None ==> !has_player(entities@),
{
    let n = entities.len();
    let mut i: usize = 0;
    while i < n
        invariant
            n == entities@.len(),
            0 <= i <= n,
            forall|j: int| 0 <= j < i ==> (#[trigger] entities@[j].player) is None,
        decreases n - i,
    {
        if entities[i].player.is_some() {
            return Some(i);
        }
        i = i + 1;
    }
    None
}

/// Decide [`wf_rect`] at run time.
pub fn check_wf_rect(r: &Rect) -> (b: bool)
    ensures
        b == wf_rect(*r),
{
    -COORD_LIMIT <= r.x && r.x <= COORD_LIMIT && -COORD_LIMIT <= r.y && r.y <= COORD_LIMIT && 0
        < r.w && r.w <= COORD_LIMIT && 0 < r.h && r.h <= COORD_LIMIT
}

/// Decide [`speed_bounded`] at run time.
pub fn check_speed_bounded(sp: (i32, i32)) -> (b: bool)
    ensures
        b == speed_bounded(sp),
{
    -COORD_LIMIT <= sp.0 && sp.0 <= COORD_LIMIT && -COORD_LIMIT <= sp.1 && sp.1 <= COORD_LIMIT
}

/// Decide [`wf_entity`] at run time.
pub fn check_wf_entity(e: &Entity) -> (b: bool)
    ensures
        b == wf_entity(*e),
{
    if !check_wf_rect(&e.rect) {
        return false;
    }
    match &e.player {
        Some(p) => {
            if !(check_speed_bounded(p.speed) && p.jump_count >= 0) {
                return false;
            }
        },
        None => {},
    }
    match &e.movable {
        Some(m) => {
            if !check_speed_bounded(m.speed) {
                return false;
            }
            let tn = m.track.len();
            let mut k: usize = 0;
            while k < tn
                invariant
                    e.movable matches Some(mm) && mm == *m,
                    wf_rect(e.rect),
                    e.player matches Some(p) ==> speed_bounded(p.speed) && p.jump_count >= 0,
                    speed_bounded(m.speed),
                    tn == m.track@.len(),
                    0 <= k <= tn,
                    forall|j: int| 0 <= j < k ==> speed_bounded(#[trigger] m.track@[j].speed),
                decreases tn - k,
            {
                if !check_speed_bounded(m.track[k].speed) {
                    proof {
                        assert(!speed_bounded(m.track@[k as int].speed));
                        assert(!track_bounded(m.track@));
                        assert(e.movable matches Some(mm) && mm == *m);
                        assert(!wf_entity(*e));
                    }
                    return false;
                }
                k = k + 1;
            }
            proof {
                assert(track_bounded(m.track@));
            }
        },
        None => {},
    }
    true
}

/// A name occurs in the list.
pub open spec fn name_in(names: Seq<Seq<char>>, name: Seq<char>) -> bool {
    exists|k: int| 0 <= k < names.len() && names[k] == name
}

/// The entities that survive removing every entity whose name is listed,
/// in their original order.
pub open spec fn remove_names_spec(ents: Seq<Entity>, names: Seq<Seq<char>>) -> Seq<Entity>
    decreases ents.len(),
{
    if ents.len() == 0 {
        Seq::empty()
    } else {
        let init = remove_names_spec(ents.drop_last(), names);
        if name_in(names, ents.last().obj.name@) {
            init
        } else {
            init.push(ents.last())
        }
    }
}

/// Whether the string occurs in the list, compared by contents.
pub fn names_contains(names: &Vec<String>, s: &String) -> (r: bool)
    ensures
        r == name_in(names.deep_view(), s@),
{
    let n = names.len();
    let mut k: usize = 0;
    while k < n
        invariant
            n == names@.len(),
            0 <= k <= n,
            forall|t: int| 0 <= t < k ==> names@[t]@ != s@,
        decreases n - k,
    {
        if names[k] == *s {
            proof {
                assert(names.deep_view()[k as int] == s@);
            }
            return true;
        }
        k = k + 1;
    }
    proof {
        assert forall|t: int| 0 <= t < names.deep_view().len() implies names.deep_view()[t]
            != s@ by {
            assert(names.deep_view()[t] == names@[t]@);
        }
    }
    false
}

/// Remove every entity whose name occurs in `names`, preserving the order
/// of the survivors.
pub fn remove_entities_named(entities: &mut Vec<Entity>, names: &Vec<String>)
    ensures
        final(entities)@ == remove_names_spec(old(entities)@, names.deep_view()),
{
    let ghost orig = old(entities)@;
    let ghost nv = names.deep_view();
    let mut i: usize = 0;
    while i < entities.len()
        invariant
            nv == names.deep_view(),
            0 <= i <= entities@.len(),
            entities@.len() <= orig.len(),
            entities@ =~= remove_names_spec(
                orig.take(i + orig.len() - entities@.len()),
                nv,
            ) + orig.skip(i + orig.len() - entities@.len()),
            i == remove_names_spec(orig.take(i + orig.len() - entities@.len()), nv).len(),
        decreases entities@.len() - i,
    {
        let ghost j = i + orig.len() - entities@.len();
        proof {
            assert(entities@[i as int] == orig.skip(j)[0]);
            assert(orig.skip(j)[0] == orig[j]);
            assert(orig.take(j + 1).drop_last() =~= orig.take(j));
            assert(orig.take(j + 1).last() == orig[j]);
        }
        if names_contains(names, &entities[i].obj.name) {
            entities.remove(i);
            proof {
                assert(entities@ =~= remove_names_spec(orig.take(j + 1), nv) + orig.skip(j + 1));
            }
        } else {
            proof {
                assert(entities@ =~= remove_names_spec(orig.take(j + 1), nv) + orig.skip(j + 1));
            }
            i = i + 1;
        }
    }
    proof {
        assert(orig.take(i + orig.len() - entities@.len()) =~= orig);
        assert(entities@ =~= remove_names_spec(orig, nv));
    }
}

/// The entity with its colour replaced.
pub open spec fn recolored(e: Entity, color: (u32, u32, u32)) -> Entity {
    Entity { color, ..e }
}

/// The entity list with the first entity of the given name recoloured;
/// unchanged when no entity has that name.
pub open spec fn recolor_first_spec(ents: Seq<Entity>, name: Seq<char>, color: (u32, u32, u32)) -> Seq<
    Entity,
>
    decreases ents.len(),
{
    if ents.len() == 0 {
        ents
    } else if ents[0].obj.name@ == name {
        seq![recolored(ents[0], color)] + ents.drop_first()
    } else {
        seq![ents[0]] + recolor_first_spec(ents.drop_first(), name, color)
    }
}

/// When the first entity named `name` sits at index `i`, recolouring is a
/// single-point update.
proof fn lemma_recolor_first_at(ents: Seq<Entity>, name: Seq<char>, color: (u32, u32, u32), i: int)
    requires
        0 <= i < ents.len(),
        ents[i].obj.name@ == name,
        forall|j: int| 0 <= j < i ==> (#[trigger] ents[j].obj.name)@ != name,
    ensures
        recolor_first_spec(ents, name, color) =~= ents.update(i, recolored(ents[i], color)),
    decreases i,
{
    if i == 0 {
        assert(seq![recolored(ents[0], color)] + ents.drop_first() =~= ents.update(
            0,
            recolored(ents[0], color),
        ));
    } else {
        lemma_recolor_first_at(ents.drop_first(), name, color, i - 1);
        assert(seq![ents[0]] + recolor_first_spec(ents.drop_first(), name, color) =~= ents.update(
            i,
            recolored(ents[i], color),
        ));
    }
}

/// When no entity has the given name, recolouring changes nothing.
proof fn lemma_recolor_first_none(ents: Seq<Entity>, name: Seq<char>, color: (u32, u32, u32))
    requires
        forall|j: int| 0 <= j < ents.len() ==> (#[trigger] ents[j].obj.name)@ != name,
    ensures
        recolor_first_spec(ents, name, color) =~= ents,
    decreases ents.len(),
{
    if ents.len() > 0 {
        lemma_recolor_first_none(ents.drop_first(), name, color);
        assert(seq![ents[0]] + recolor_first_spec(ents.drop_first(), name, color) =~= ents);
    }
}

/// Recolour the first entity of the given name, if any.
pub fn recolor_first_entity(entities: &mut Vec<Entity>, name: &String, color: (u32, u32, u32))
    ensures
        final(entities)@ == recolor_first_spec(old(entities)@, name@, color),
{
    let n = entities.len();
    let mut i: usize = 0;
    while i < n
        invariant
            n == entities@.len(),
            entities@ == old(entities)@,
            0 <= i <= n,
            forall|j: int| 0 <= j < i ==> (#[trigger] entities@[j].obj.name)@ != name@,
        decreases n - i,
    {
        if entities[i].obj.name == *name {
            let mut e = entities.remove(i);
            e.color = color;
            entities.insert(i, e);
            proof {
                lemma_recolor_first_at(old(entities)@, name@, color, i as int);
                assert(entities@ =~= old(entities)@.update(
                    i as int,
                    recolored(old(entities)@[i as int], color),
                ));
            }
            return;
        }
        i = i + 1;
    }
    proof {
        lemma_recolor_first_none(entities@, name@, color);
    }
}

impl Scene {
    /// Decide [`wf_scene`] at run time: the runtime guard of the tick
    /// pipeline's session invariant.
    pub fn check_wf(&self) -> (b: bool)
        ensures
            b == wf_scene(*self),
    {
        if !(1 <= self.size.0 && self.size.0 <= COORD_LIMIT as u32 && 1 <= self.size.1
            && self.size.1 <= COORD_LIMIT as u32) {
            return false;
        }
        let n = self.entities.len();
        let mut i: usize = 0;
        while i < n
            invariant
                n == self.entities@.len(),
                0 <= i <= n,
                1 <= self.size.0 <= COORD_LIMIT,
                1 <= self.size.1 <= COORD_LIMIT,
                forall|j: int| 0 <= j < i ==> wf_entity(#[trigger] self.entities@[j]),
            decreases n - i,
        {
            if !check_wf_entity(&self.entities[i]) {
                return false;
            }
            i = i + 1;
        }
        true
    }
}

/// What one scripted command does to the interaction state and the
/// entity list.  `state <name>` changes the state; `color <r> <g> <b>`
/// recolours the first entity named `self_name`; `remove <name>` deletes
/// every entity of that name.  Malformed or unknown commands are no-ops.
pub open spec fn exec_command_spec(
    state: Seq<char>,
    ents: Seq<Entity>,
    self_name: Seq<char>,
    cmd: Seq<Seq<char>>,
) -> (Seq<char>, Seq<Entity>) {
    if cmd.len() == 0 {
        (state, ents)
    } else if cmd[0] == "state"@ {
        if cmd.len() >= 2 {
            (cmd[1], ents)
        } else {
            (state, ents)
        }
    } else if cmd[0] == "color"@ {
        if cmd.len() >= 4 {
            match (spec_parse_u32(cmd[1]), spec_parse_u32(cmd[2]), spec_parse_u32(cmd[3])) {
                (Some(r), Some(g), Some(b)) => (
                    state,
                    recolor_first_spec(ents, self_name, (r, g, b)),
                ),
                _ => (state, ents),
            }
        } else {
            (state, ents)
        }
    } else if cmd[0] == "remove"@ {
        if cmd.len() >= 2 {
            (state, remove_names_spec(ents, seq![cmd[1]]))
        } else {
            (state, ents)
        }
    } else {
        (state, ents)
    }
}

/// The commands bound to the given state key: the value of the first
/// matching table entry.
pub open spec fn lookup_commands(
    table: Seq<(String, Vec<Vec<String>>)>,
    key: Seq<char>,
) -> Option<Seq<Seq<Seq<char>>>>
    decreases table.len(),
{
    if table.len() == 0 {
        None
    } else if table[0].0@ == key {
        Some(table[0].1.deep_view())
    } else {
        lookup_commands(table.drop_first(), key)
    }
}

/// Running a command list in order, threading state and entities through.
pub open spec fn run_commands_spec(
    state: Seq<char>,
    ents: Seq<Entity>,
    self_name: Seq<char>,
    cmds: Seq<Seq<Seq<char>>>,
) -> (Seq<char>, Seq<Entity>)
    decreases cmds.len(),
{
    if cmds.len() == 0 {
        (state, ents)
    } else {
        let r0 = exec_command_spec(state, ents, self_name, cmds[0]);
        run_commands_spec(r0.0, r0.1, self_name, cmds.drop_first())
    }
}

/// Copy a token list, contents for contents.
fn clone_string_vec(v: &Vec<String>) -> (r: Vec<String>)
    ensures
        r.deep_view() == v.deep_view(),
{
    let n = v.len();
    let mut r: Vec<String> = Vec::new();
    let mut i: usize = 0;
    while i < n
        invariant
            n == v@.len(),
            0 <= i <= n,
            r@.len() == i,
            forall|j: int| 0 <= j < i ==> (#[trigger] r@[j])@ == v@[j]@,
        decreases n - i,
    {
        r.push(v[i].clone());
        i = i + 1;
    }
    proof {
        assert(r.deep_view() =~= v.deep_view());
    }
    r
}

/// Copy a command list, contents for contents.
fn clone_commands(v: &Vec<Vec<String>>) -> (r: Vec<Vec<String>>)
    ensures
        r.deep_view() == v.deep_view(),
{
    let n = v.len();
    let mut r: Vec<Vec<String>> = Vec::new();
    let mut i: usize = 0;
    while i < n
        invariant
            n == v@.len(),
            0 <= i <= n,
            r@.len() == i,
            forall|j: int| 0 <= j < i ==> (#[trigger] r@[j]).deep_view() == v@[j].deep_view(),
        decreases n - i,
    {
        r.push(clone_string_vec(&v[i]));
        i = i + 1;
    }
    proof {
        assert(r.deep_view() =~= v.deep_view());
    }
    r
}

/// Index of the first table entry whose key matches, as the executable
/// counterpart of [`lookup_commands`].
fn lookup_index(table: &Vec<(String, Vec<Vec<String>>)>, key: &String) -> (r: Option<usize>)
    ensures
        r matches Some(i) ==> i < table@.len() && lookup_commands(table@, key@) == Some(
            table@[i as int].1.deep_view(),
        ),
        r is None ==> lookup_commands(table@, key@) is None,
{
    let n = table.len();
    let mut i: usize = 0;
    proof {
        assert(table@.skip(0) =~= table@);
    }
    while i < n
        invariant
            n == table@.len(),
            0 <= i <= n,
            lookup_commands(table@, key@) == lookup_commands(table@.skip(i as int), key@),
        decreases n - i,
    {
        proof {
            assert(table@.skip(i as int)[0] == table@[i as int]);
        }
        if table[i].0 == *key {
            return Some(i);
        }
        proof {
            assert(table@.skip(i as int).drop_first() =~= table@.skip(i as int + 1));
        }
        i = i + 1;
    }
    proof {
        assert(table@.skip(n as int).len() == 0);
    }
    None
}

impl InteractableComp {
    /// Run one scripted command against the scene, as
    /// [`exec_command_spec`] describes.  Malformed commands and commands
    /// that name nothing present are no-ops.
    pub fn exec_command(&mut self, scene: &mut Scene, command: &Vec<String>)
        ensures
            final(self).name == old(self).name,
            final(self).command == old(self).command,
            final(scene).size == old(scene).size,
            final(scene).offset == old(scene).offset,
            ({
                let r = exec_command_spec(
                    old(self).state@,
                    old(scene).entities@,
                    old(self).name@,
                    command.deep_view(),
                );
                final(self).state@ == r.0 && final(scene).entities@ == r.1
            }),
    {
        if command.len() == 0 {
            return;
        }
        proof {
            assert(command.deep_view()[0] == command@[0]@);
        }
        if str_eq(command[0].as_str(), "state") {
            if command.len() >= 2 {
                proof {
                    assert(command.deep_view()[1] == command@[1]@);
                }
                self.state = command[1].clone();
            }
        } else if str_eq(command[0].as_str(), "color") {
            if command.len() >= 4 {
                proof {
                    assert(command.deep_view()[1] == command@[1]@);
                    assert(command.deep_view()[2] == command@[2]@);
                    assert(command.deep_view()[3] == command@[3]@);
                }
                let r = parse_u32(command[1].as_str());
                let g = parse_u32(command[2].as_str());
                let b = parse_u32(command[3].as_str());
                match (r, g, b) {
                    (Some(rv), Some(gv), Some(bv)) => {
                        recolor_first_entity(&mut scene.entities, &self.name, (rv, gv, bv));
                    },
                    _ => {},
                }
            }
        } else if str_eq(command[0].as_str(), "remove") {
            if command.len() >= 2 {
                proof {
                    assert(command.deep_view()[1] == command@[1]@);
                }
                let mut names: Vec<String> = Vec::new();
                names.push(command[1].clone());
                remove_entities_named(&mut scene.entities, &names);
                proof {
                    assert(names.deep_view() =~= seq![command.deep_view()[1]]);
                }
            }
        }
    }

    /// Run the command list bound to the current state, in order, against
    /// the scene.  A state key with no bound commands is a no-op.  The
    /// list is snapshotted before it runs, so a `state` command inside it
    /// does not change which list runs.
    pub fn exec(&mut self, scene: &mut Scene)
        ensures
            final(self).name == old(self).name,
            final(self).command == old(self).command,
            final(scene).size == old(scene).size,
            final(scene).offset == old(scene).offset,
            ({
                match lookup_commands(old(self).command@, old(self).state@) {
                    Some(cmds) => {
                        let r = run_commands_spec(
                            old(self).state@,
                            old(scene).entities@,
                            old(self).name@,
                            cmds,
                        );
                        final(self).state@ == r.0 && final(scene).entities@ == r.1
                    },
                    None => final(self).state == old(self).state && final(scene).entities == old(
                        scene,
                    ).entities,
                }
            }),
    {
        let ti = match lookup_index(&self.command, &self.state) {
            Some(t) => t,
            None => {
                return ;
            },
        };
        let cmds = clone_commands(&self.command[ti].1);
        let ghost cv = cmds.deep_view();
        let ghost st0 = self.state@;
        let ghost en0 = scene.entities@;
        let kn = cmds.len();
        let mut k: usize = 0;
        proof {
            assert(cv.skip(0) =~= cv);
        }
        while k < kn
            invariant
                kn == cmds@.len(),
                cv == cmds.deep_view(),
                0 <= k <= kn,
                self.name == old(self).name,
                self.command == old(self).command,
                scene.size == old(scene).size,
                scene.offset == old(scene).offset,
                run_commands_spec(self.state@, scene.entities@, self.name@, cv.skip(k as int))
                    == run_commands_spec(st0, en0, self.name@, cv),
            decreases kn - k,
        {
            proof {
                assert(cv.skip(k as int)[0] == cv[k as int]);
                assert(cv[k as int] == cmds@[k as int].deep_view());
                assert(cv.skip(k as int).drop_first() =~= cv.skip(k as int + 1));
            }
            self.exec_command(scene, &cmds[k]);
            k = k + 1;
        }
        proof {
            assert(cv.skip(kn as int).len() == 0);
        }
    }
}

} // verus!
